//! The selected row of a table, and the first row that is shown.

use vstd::prelude::*;

verus! {

/// The selected row of a table, and the first row that is shown.
#[derive(Debug, Clone, Copy, PartialEq, Eq, Structural)]
pub struct TableCursor {
    pub offset: usize,
    pub selected: Option<usize>,
}

/// The smaller of two numbers.
pub open spec fn least(a: int, b: int) -> int {
    if a <= b {
        a
    } else {
        b
    }
}

impl TableCursor {
    /// The cursor with another selection; without one the first row is shown first.
    pub open spec fn selecting(self, index: Option<usize>) -> TableCursor {
        TableCursor {
            offset: if index is None {
                0
            } else {
                self.offset
            },
            selected: index,
        }
    }

    /// The selected row, or the first.
    pub open spec fn row(self) -> int {
        match self.selected {
            Some(i) => i as int,
            None => 0,
        }
    }

    /// The cursor on the nearest row of a table of `len` rows.
    pub open spec fn clamped(self, len: usize) -> TableCursor {
        if len == 0 {
            self.selecting(None)
        } else {
            self.selecting(Some(least(self.row(), len - 1) as usize))
        }
    }

    /// The cursor moved by `delta` rows, as far as a table of `len` rows goes.
    pub open spec fn moved(self, len: usize, delta: int) -> TableCursor {
        if len == 0 {
            self.selecting(None)
        } else {
            let to = least(self.row(), len - 1) + delta;
            self.selecting(
                Some(
                    if to < 0 {
                        0
                    } else {
                        least(to, len - 1) as usize
                    },
                ),
            )
        }
    }

    /// The row that stands at a place on the screen, where the table has it.
    pub open spec fn row_shown_at(self, len: usize, visible_row: usize) -> Option<usize> {
        if self.offset + visible_row < len {
            Some((self.offset + visible_row) as usize)
        } else {
            None
        }
    }

    /// The cursor on the row that stands at a place on the screen, where the table has it.
    pub open spec fn clicked(self, len: usize, visible_row: usize) -> TableCursor {
        if len == 0 {
            self.selecting(None)
        } else {
            match self.row_shown_at(len, visible_row) {
                Some(i) => self.selecting(Some(i)),
                None => self,
            }
        }
    }

    /// The cursor on the first row, which is shown first.
    pub open spec fn top() -> TableCursor {
        TableCursor { offset: 0, selected: Some(0) }
    }

    /// The cursor on the first row.
    pub fn at_top() -> (r: Self)
        ensures
            r == TableCursor::top(),
    {
        TableCursor { offset: 0, selected: Some(0) }
    }

    /// Selects a row, or none.
    pub fn select(&mut self, index: Option<usize>)
        ensures
            *final(self) == old(self).selecting(index),
    {
        self.selected = index;
        if index.is_none() {
            self.offset = 0;
        }
    }
}

/// Puts the cursor on the nearest row of a table of `len` rows.
pub fn clamp_selection(state: &mut TableCursor, len: usize)
    ensures
        *final(state) == old(state).clamped(len),
{
    if len == 0 {
        state.select(None);
        return;
    }
    let current: usize = match state.selected {
        Some(i) => i,
        None => 0,
    };
    let index: usize = if current <= len - 1 {
        current
    } else {
        len - 1
    };
    state.select(Some(index));
}

/// Moves the cursor by `delta` rows, as far as a table of `len` rows goes.
pub fn move_table_selection(state: &mut TableCursor, len: usize, delta: isize)
    ensures
        *final(state) == old(state).moved(len, delta as int),
{
    if len == 0 {
        state.select(None);
        return;
    }
    let current: usize = match state.selected {
        Some(i) => if i <= len - 1 {
            i
        } else {
            len - 1
        },
        None => 0,
    };
    let next: usize = if delta < 0 {
        current.saturating_sub((-(delta + 1)) as usize + 1)
    } else {
        let to: usize = current.saturating_add(delta as usize);
        if to <= len - 1 {
            to
        } else {
            len - 1
        }
    };
    state.select(Some(next));
}

/// Selects the row that stands at a place on the screen, where the table has it.
pub fn select_visible_table_row(state: &mut TableCursor, len: usize, visible_row: usize) -> (r: Option<
    usize,
>)
    ensures
        *final(state) == old(state).clicked(len, visible_row),
        r == old(state).row_shown_at(len, visible_row),
{
    if len == 0 {
        state.select(None);
        return None;
    }
    let selected: usize = state.offset.saturating_add(visible_row);
    if selected < len {
        state.select(Some(selected));
        Some(selected)
    } else {
        None
    }
}

/// Puts the cursor on the first row, which is shown first.
pub fn reset_table_to_top(state: &mut TableCursor)
    ensures
        *final(state) == TableCursor::top(),
{
    state.offset = 0;
    state.select(Some(0));
}

/// After clamping or moving, the selected row is one of the table, and without rows there is none.
pub proof fn law_selection_in_table(state: TableCursor, len: usize, delta: int)
    ensures
        len == 0 ==> state.clamped(len).selected is None && state.moved(len, delta).selected is None,
        len > 0 ==> state.clamped(len).selected is Some && state.clamped(len).row() < len,
        len > 0 ==> state.moved(len, delta).selected is Some && 0 <= state.moved(len, delta).row() < len,
{
}

/// Clamping a cursor that is on a row of the table leaves it there, so clamping twice is clamping
/// once.
pub proof fn law_clamp_keeps_rows(state: TableCursor, len: usize)
    ensures
        state.selected matches Some(i) && i < len ==> state.clamped(len) == state,
        state.clamped(len).clamped(len) == state.clamped(len),
{
}

/// A click selects a row that is shown at or below the first, and leaves the scroll position.
pub proof fn law_click_keeps_scroll(state: TableCursor, len: usize, visible_row: usize)
    requires
        len > 0,
    ensures
        state.clicked(len, visible_row).offset == state.offset,
        state.row_shown_at(len, visible_row) matches Some(i) ==> i < len && i - state.offset == visible_row
            && state.clicked(len, visible_row).selected == Some(i),
        state.row_shown_at(len, visible_row) is None ==> state.clicked(len, visible_row) == state,
{
}

} // verus!
