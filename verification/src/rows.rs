//! Reading a text line by line.

use vstd::prelude::*;

verus! {

/// What one line of a table says.
pub enum LineView<T> {
    /// Nothing.
    Skip,
    /// A line that cannot be read, and what to say of it.
    Warn(Seq<char>),
    /// A row.
    Row(T),
}

/// The rows that the lines say, where `f` reads the line at an index.
pub open spec fn rows_of<T>(
    lines: Seq<Seq<char>>,
    f: spec_fn(int, Seq<char>) -> LineView<T>,
) -> Seq<T>
    decreases lines.len(),
{
    if lines.len() == 0 {
        seq![]
    } else {
        let before = rows_of(lines.drop_last(), f);
        match f(lines.len() - 1, lines.last()) {
            LineView::Row(row) => before.push(row),
            _ => before,
        }
    }
}

/// What there is to say of the lines that cannot be read.
pub open spec fn warnings_of<T>(
    lines: Seq<Seq<char>>,
    f: spec_fn(int, Seq<char>) -> LineView<T>,
) -> Seq<Seq<char>>
    decreases lines.len(),
{
    if lines.len() == 0 {
        seq![]
    } else {
        let before = warnings_of(lines.drop_last(), f);
        match f(lines.len() - 1, lines.last()) {
            LineView::Warn(text) => before.push(text),
            _ => before,
        }
    }
}

/// How many lines say nothing.
pub open spec fn silent_lines<T>(
    lines: Seq<Seq<char>>,
    f: spec_fn(int, Seq<char>) -> LineView<T>,
) -> nat
    decreases lines.len(),
{
    if lines.len() == 0 {
        0
    } else {
        silent_lines(lines.drop_last(), f) + if f(lines.len() - 1, lines.last()) is Skip {
            1nat
        } else {
            0
        }
    }
}

/// No line is lost: each gives a row, gives a warning, or says nothing.
pub proof fn law_no_line_lost<T>(lines: Seq<Seq<char>>, f: spec_fn(int, Seq<char>) -> LineView<T>)
    ensures
        rows_of(lines, f).len() + warnings_of(lines, f).len() + silent_lines(lines, f) == lines.len(),
    decreases lines.len(),
{
    if lines.len() > 0 {
        law_no_line_lost(lines.drop_last(), f);
    }
}

/// What the lines say, without those that say nothing.
pub open spec fn gather<T>(lines: Seq<Seq<char>>, f: spec_fn(Seq<char>) -> Option<T>) -> Seq<T>
    decreases lines.len(),
{
    if lines.len() == 0 {
        seq![]
    } else {
        let before = gather(lines.drop_last(), f);
        match f(lines.last()) {
            Some(row) => before.push(row),
            None => before,
        }
    }
}

/// What the first line that says something says.
pub open spec fn first_said<T>(lines: Seq<Seq<char>>, f: spec_fn(Seq<char>) -> Option<T>) -> Option<T>
    decreases lines.len(),
{
    if lines.len() == 0 {
        None
    } else if f(lines[0]) is Some {
        f(lines[0])
    } else {
        first_said(lines.drop_first(), f)
    }
}

} // verus!
