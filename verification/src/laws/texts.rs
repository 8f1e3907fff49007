//! What cutting, trimming and comparing texts means.

use vstd::prelude::*;

use crate::text::all_ascii;
use crate::text::ascii_lower;
use crate::text::char_lower;
use crate::text::contains;
use crate::text::first_in;
use crate::text::in_class;
use crate::text::is_space;
use crate::text::join;
use crate::text::lead_len;
use crate::text::lemma_lead_tail_bounds;
use crate::text::lowercase;
use crate::text::occurs_at;
use crate::text::pieces;
use crate::text::same_ignoring_case;
use crate::text::split;
use crate::text::split_once;
use crate::text::tail_len;
use crate::text::trim;
use crate::text::trim_both;
use crate::text::words;
use crate::text::CharClass;

verus! {

/// A text stands in another where that is something, the text, and something.
pub proof fn law_contains(s: Seq<char>, needle: Seq<char>)
    ensures
        contains(s, needle) <==> exists|a: Seq<char>, b: Seq<char>| s == #[trigger] (a + needle + b),
{
    if contains(s, needle) {
        let i = choose|i: int| occurs_at(s, needle, i);
        let (a, b) = (s.take(i), s.skip(i + needle.len()));
        assert(s =~= a + needle + b) by {
            assert forall|k: int| 0 <= k < s.len() implies s[k] == (a + needle + b)[k] by {
                if i <= k < i + needle.len() {
                    assert(s.subrange(i, i + needle.len())[k - i] == s[k]);
                }
            }
        }
    }
    if exists|a: Seq<char>, b: Seq<char>| s == #[trigger] (a + needle + b) {
        let (a, b) = choose|a: Seq<char>, b: Seq<char>| s == #[trigger] (a + needle + b);
        assert(s.subrange(a.len() as int, a.len() as int + needle.len() as int) =~= needle);
        assert(occurs_at(s, needle, a.len() as int));
    }
}

/// Whether two characters are the same letter of ASCII in either case, or the same character.
pub open spec fn same_letter(a: char, b: char) -> bool {
    ||| a == b
    ||| 'a' <= a <= 'z' && a as u32 == b as u32 + 32
    ||| 'a' <= b <= 'z' && b as u32 == a as u32 + 32
}

proof fn lemma_same_letter(a: char, b: char)
    ensures
        char_lower(a) == char_lower(b) <==> same_letter(a, b),
{
    assert(a as u32 <= 127 ==> a == (a as u32 as u8) as char);
    assert(b as u32 <= 127 ==> b == (b as u32 as u8) as char);
}

/// Texts are the same, the case of ASCII letters aside, where their characters are, one by one.
pub proof fn law_same_ignoring_case(a: Seq<char>, b: Seq<char>)
    ensures
        same_ignoring_case(a, b) <==> a.len() == b.len() && forall|i: int|
            0 <= i < a.len() ==> same_letter(#[trigger] a[i], b[i]),
        all_ascii(a) && all_ascii(b) ==> (lowercase(a) == lowercase(b) <==> same_ignoring_case(a, b)),
{
    let (x, y) = (ascii_lower(a), ascii_lower(b));
    if same_ignoring_case(a, b) {
        assert(x.len() == y.len());
        assert forall|i: int| 0 <= i < a.len() implies same_letter(#[trigger] a[i], b[i]) by {
            assert(x[i] == y[i]);
            lemma_same_letter(a[i], b[i]);
        }
    }
    if a.len() == b.len() && forall|i: int| 0 <= i < a.len() ==> same_letter(#[trigger] a[i], b[i]) {
        assert forall|i: int| 0 <= i < x.len() implies x[i] == y[i] by {
            assert(same_letter(a[i], b[i]));
            lemma_same_letter(a[i], b[i]);
        }
        assert(x =~= y);
    }
}

/// Whether no character of a text belongs to a class.
pub open spec fn without(s: Seq<char>, class: CharClass) -> bool {
    forall|i: int| 0 <= i < s.len() ==> !in_class(class, #[trigger] s[i])
}

/// Whether every character of a text belongs to a class.
pub open spec fn made_of(s: Seq<char>, class: CharClass) -> bool {
    forall|i: int| 0 <= i < s.len() ==> in_class(class, #[trigger] s[i])
}

/// The first character of a class stands behind what has none.
pub proof fn lemma_first_behind(a: Seq<char>, b: Seq<char>, class: CharClass)
    requires
        without(a, class),
        b.len() > 0 ==> in_class(class, b[0]),
    ensures
        first_in(a + b, class) == a.len(),
    decreases a.len(),
{
    if a.len() > 0 {
        assert(!in_class(class, a[0]));
        assert((a + b)[0] == a[0]);
        assert((a + b).drop_first() =~= a.drop_first() + b);
        assert forall|i: int| 0 <= i < a.drop_first().len() implies !in_class(
            class,
            #[trigger] a.drop_first()[i],
        ) by {
            assert(a.drop_first()[i] == a[i + 1]);
        }
        lemma_first_behind(a.drop_first(), b, class);
    } else {
        assert(a + b =~= b);
    }
}

/// A text is cut at the first character of a class: what stands in front of it, and what stands
/// behind it.
pub proof fn law_cut_at_first(a: Seq<char>, c: char, b: Seq<char>, class: CharClass)
    requires
        without(a, class),
        in_class(class, c),
    ensures
        split_once(a + seq![c] + b, class) == Some((a, b)),
        split_once(a, class) is None,
        split(a + seq![c] + b, class) == seq![a] + split(b, class),
        split(a, class) == seq![a],
{
    let s = a + seq![c] + b;
    assert(s =~= a + (seq![c] + b));
    lemma_first_behind(a, seq![c] + b, class);
    assert(s.take(a.len() as int) =~= a);
    assert(s.skip(a.len() as int + 1) =~= b);
    let none: Seq<char> = seq![];
    lemma_first_behind(a, none, class);
    assert(a + none =~= a);
}

/// The fields that are joined by a character come back when the text is split at it.
pub proof fn law_fields_come_back(fields: Seq<Seq<char>>, c: char)
    requires
        fields.len() > 0,
        forall|i: int| 0 <= i < fields.len() ==> without(#[trigger] fields[i], CharClass::Exactly(c)),
    ensures
        split(join(fields, seq![c]), CharClass::Exactly(c)) == fields,
    decreases fields.len(),
{
    let class = CharClass::Exactly(c);
    let first = fields[0];
    assert(without(first, class));
    if fields.len() == 1 {
        law_cut_at_first(first, c, seq![], class);
        assert(fields =~= seq![first]);
    } else {
        let rest = fields.drop_first();
        assert forall|i: int| 0 <= i < rest.len() implies without(#[trigger] rest[i], class) by {
            assert(rest[i] == fields[i + 1]);
        }
        lemma_join_front(fields, seq![c]);
        law_cut_at_first(first, c, join(rest, seq![c]), class);
        law_fields_come_back(rest, c);
        assert(join(fields, seq![c]) =~= first + seq![c] + join(rest, seq![c]));
        assert(fields =~= seq![first] + rest);
    }
}

/// A joined text is its first part, the separator, and the others joined.
pub proof fn lemma_join_front(parts: Seq<Seq<char>>, sep: Seq<char>)
    requires
        parts.len() > 1,
    ensures
        join(parts, sep) == parts[0] + sep + join(parts.drop_first(), sep),
    decreases parts.len(),
{
    let rest = parts.drop_first();
    if parts.len() == 2 {
        assert(parts.drop_last() =~= seq![parts[0]]);
        assert(rest =~= seq![parts[1]]);
        assert(join(parts.drop_last(), sep) == parts[0]);
    } else {
        lemma_join_front(parts.drop_last(), sep);
        assert(parts.drop_last().drop_first() =~= rest.drop_last());
        assert(join(parts, sep) =~= parts[0] + sep + (join(rest.drop_last(), sep) + sep + rest.last()));
    }
}

/// A text that neither begins nor ends with white space is not trimmed, and white space around it is
/// trimmed away.
pub proof fn law_trim(front: Seq<char>, s: Seq<char>, back: Seq<char>)
    requires
        s.len() > 0 && !is_space(s[0]) && !is_space(s.last()),
        made_of(front, CharClass::Space),
        made_of(back, CharClass::Space),
    ensures
        trim(s) == s,
        trim(front + s + back) == s,
{
    lemma_trim_ends(front, s, back, CharClass::Space);
    let none: Seq<char> = seq![];
    lemma_trim_ends(none, s, none, CharClass::Space);
    assert(none + s + none =~= s);
}

proof fn lemma_trim_ends(front: Seq<char>, s: Seq<char>, back: Seq<char>, class: CharClass)
    requires
        s.len() > 0 && !in_class(class, s[0]) && !in_class(class, s.last()),
        made_of(front, class),
        made_of(back, class),
    ensures
        trim_both(front + s + back, class) == s,
    decreases front.len() + back.len(),
{
    let t = front + s + back;
    if front.len() > 0 {
        assert(t[0] == front[0]);
        assert(in_class(class, front[0]));
        let fewer = front.drop_first();
        assert(t.drop_first() =~= fewer + s + back);
        assert forall|i: int| 0 <= i < fewer.len() implies in_class(class, #[trigger] fewer[i]) by {
            assert(fewer[i] == front[i + 1]);
        }
        lemma_trim_ends(fewer, s, back, class);
        lemma_lead_tail_bounds(t.drop_first(), class);
        let k = lead_len(t.drop_first(), class);
        assert(t.skip(1 + k) =~= t.drop_first().skip(k));
    } else {
        assert(t =~= s + back);
        assert(t[0] == s[0]);
        assert(t.skip(0) =~= t);
        if back.len() > 0 {
            let fewer = back.drop_last();
            assert(t.last() == back.last());
            assert(in_class(class, back[back.len() - 1]));
            assert(t.drop_last() =~= front + s + fewer);
            assert forall|i: int| 0 <= i < fewer.len() implies in_class(class, #[trigger] fewer[i]) by {
                assert(fewer[i] == back[i]);
            }
            lemma_trim_ends(front, s, fewer, class);
            let u = t.drop_last();
            lemma_lead_tail_bounds(u, class);
            assert(u[0] == s[0]);
            assert(u.skip(0) =~= u);
            let k = tail_len(u, class);
            assert(t.take(t.len() - (1 + k)) =~= u.take(u.len() - k));
        } else {
            assert(t =~= s);
            assert(t.take(t.len() as int) =~= t);
        }
    }
}

/// The pieces that are kept.
spec fn full() -> spec_fn(Seq<char>) -> bool {
    |p: Seq<char>| p.len() > 0
}

proof fn lemma_kept(p: Seq<char>, rest: Seq<Seq<char>>)
    ensures
        (seq![p] + rest).filter(full()) == if p.len() > 0 {
            seq![p] + rest.filter(full())
        } else {
            rest.filter(full())
        },
{
    let head = seq![p];
    let none: Seq<Seq<char>> = seq![];
    Seq::filter_distributes_over_add(head, rest, full());
    assert(head.drop_last() =~= none);
    assert(head.last() == p);
    assert(none.filter(full()) =~= none) by {
        reveal(Seq::filter);
    }
    assert(head.filter(full()) =~= if p.len() > 0 {
        head
    } else {
        none
    }) by {
        reveal(Seq::filter);
    }
    assert(none + rest.filter(full()) =~= rest.filter(full()));
}

proof fn lemma_pieces(s: Seq<char>, class: CharClass)
    ensures
        pieces(s, class) == split(s, class).filter(full()),
{
    assert(full() == (|p: Seq<char>| p.len() > 0));
}

proof fn lemma_piece_skipped(c: char, s: Seq<char>, class: CharClass)
    requires
        in_class(class, c),
    ensures
        pieces(seq![c] + s, class) == pieces(s, class),
{
    let none: Seq<char> = seq![];
    law_cut_at_first(none, c, s, class);
    assert(none + seq![c] + s =~= seq![c] + s);
    lemma_kept(none, split(s, class));
    lemma_pieces(s, class);
    lemma_pieces(seq![c] + s, class);
}

proof fn lemma_uncut(a: Seq<char>, class: CharClass)
    requires
        without(a, class),
    ensures
        split(a, class) == seq![a],
        a.len() > 0 ==> pieces(a, class) == seq![a],
        a.len() == 0 ==> pieces(a, class) == Seq::<Seq<char>>::empty(),
{
    let none: Seq<char> = seq![];
    lemma_first_behind(a, none, class);
    assert(a + none =~= a);
    let rest: Seq<Seq<char>> = seq![];
    assert(seq![a] + rest =~= seq![a]);
    lemma_kept(a, rest);
    lemma_pieces(a, class);
    assert(rest.filter(full()) =~= rest) by {
        reveal(Seq::filter);
    }
}

proof fn lemma_run(run: Seq<char>, back: Seq<char>, class: CharClass)
    requires
        run.len() > 0,
        without(run, class),
        back.len() > 0 ==> in_class(class, back[0]),
    ensures
        pieces(run + back, class) == seq![run] + pieces(back, class),
{
    if back.len() > 0 {
        let rest = back.drop_first();
        law_cut_at_first(run, back[0], rest, class);
        assert(run + back =~= run + seq![back[0]] + rest);
        lemma_kept(run, split(rest, class));
        lemma_pieces(run + back, class);
        lemma_pieces(rest, class);
        lemma_piece_skipped(back[0], rest, class);
        assert(back =~= seq![back[0]] + rest);
    } else {
        assert(run + back =~= run);
        lemma_uncut(run, class);
        lemma_uncut(back, class);
        assert(seq![run] + pieces(back, class) =~= seq![run]);
    }
}

proof fn lemma_front_skipped(front: Seq<char>, tail: Seq<char>, class: CharClass)
    requires
        made_of(front, class),
    ensures
        pieces(front + tail, class) == pieces(tail, class),
    decreases front.len(),
{
    if front.len() > 0 {
        let fewer = front.drop_first();
        assert(made_of(fewer, class)) by {
            assert forall|i: int| 0 <= i < fewer.len() implies in_class(class, #[trigger] fewer[i]) by {
                assert(fewer[i] == front[i + 1]);
            }
        }
        lemma_front_skipped(fewer, tail, class);
        assert(in_class(class, front[0]));
        lemma_piece_skipped(front[0], fewer + tail, class);
        assert(front + tail =~= seq![front[0]] + (fewer + tail));
    } else {
        assert(front + tail =~= tail);
    }
}

/// The first run of characters outside a class is the first piece, and the others follow.
pub proof fn law_pieces_are_runs(front: Seq<char>, run: Seq<char>, back: Seq<char>, class: CharClass)
    requires
        made_of(front, class),
        run.len() > 0,
        without(run, class),
        back.len() > 0 ==> in_class(class, back[0]),
    ensures
        pieces(front + run + back, class) == seq![run] + pieces(back, class),
        pieces(front, class) == Seq::<Seq<char>>::empty(),
{
    let none: Seq<char> = seq![];
    lemma_run(run, back, class);
    lemma_front_skipped(front, run + back, class);
    assert(front + (run + back) =~= front + run + back);
    lemma_front_skipped(front, none, class);
    assert(front + none =~= front);
    lemma_uncut(none, class);
}

/// Words with single spaces between them are the words of the text.
pub proof fn law_words_come_back(list: Seq<Seq<char>>)
    requires
        forall|i: int| 0 <= i < list.len() ==> (#[trigger] list[i]).len() > 0 && without(list[i], CharClass::Space),
    ensures
        words(join(list, " "@)) == list,
    decreases list.len(),
{
    reveal_strlit(" ");
    let space = " "@;
    assert(space =~= seq![' ']);
    let none: Seq<char> = seq![];
    let class = CharClass::Space;
    if list.len() == 0 {
        law_pieces_are_runs(none, seq!['x'], none, class);
        assert(join(list, space) =~= none);
    } else {
        assert(list[0].len() > 0 && without(list[0], class));
        let rest = list.drop_first();
        assert forall|i: int| 0 <= i < rest.len() implies (#[trigger] rest[i]).len() > 0 && without(
            rest[i],
            class,
        ) by {
            assert(rest[i] == list[i + 1]);
        }
        law_words_come_back(rest);
        assert(list =~= seq![list[0]] + rest);
        if list.len() == 1 {
            law_pieces_are_runs(none, list[0], none, class);
            assert(none + list[0] + none =~= list[0]);
            assert(rest =~= seq![]);
        } else {
            lemma_join_front(list, space);
            let back = space + join(rest, space);
            law_pieces_are_runs(none, list[0], back, class);
            assert(join(list, space) =~= none + list[0] + back);
            lemma_piece_skipped(' ', join(rest, space), class);
        }
    }
}

} // verus!
