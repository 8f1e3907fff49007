//! What a panel shows.

use vstd::prelude::*;

use crate::filter::no_filter;
use crate::filter::FilterExpression;

verus! {

/// Whether a panel is shown, what it filters by, and which columns it shows.
#[derive(Debug)]
pub struct PanelUiState {
    pub visible: bool,
    pub filter: FilterExpression,
    pub columns: Vec<bool>,
}

/// The first hidden column, or their number.
pub open spec fn first_hidden(columns: Seq<bool>) -> int
    decreases columns.len(),
{
    if columns.len() == 0 || !columns[0] {
        0
    } else {
        1 + first_hidden(columns.drop_first())
    }
}

/// The columns after one is toggled: the first hidden one is shown, and where none is hidden the
/// last one is. One or two columns stay as they are.
pub open spec fn columns_toggled(columns: Seq<bool>) -> Seq<bool> {
    if columns.len() <= 2 {
        columns
    } else if first_hidden(columns) < columns.len() {
        columns.update(first_hidden(columns), true)
    } else {
        columns.update(columns.len() - 1, false)
    }
}

proof fn lemma_first_hidden(columns: Seq<bool>)
    ensures
        0 <= first_hidden(columns) <= columns.len(),
        first_hidden(columns) < columns.len() ==> !columns[first_hidden(columns)],
        forall|i: int| 0 <= i < first_hidden(columns) ==> #[trigger] columns[i],
    decreases columns.len(),
{
    if columns.len() > 0 && columns[0] {
        let rest = columns.drop_first();
        lemma_first_hidden(rest);
        assert forall|i: int| 0 <= i < first_hidden(columns) implies #[trigger] columns[i] by {
            if i > 0 {
                assert(rest[i - 1] == columns[i]);
            }
        }
    }
}

/// Toggling keeps the number of columns and never hides one of the first two.
pub proof fn law_toggle_keeps_first_columns(columns: Seq<bool>)
    ensures
        columns_toggled(columns).len() == columns.len(),
        forall|i: int| 0 <= i < 2 && i < columns.len() && columns[i] ==> #[trigger] columns_toggled(columns)[i],
{
    lemma_first_hidden(columns);
}

/// Toggling twice, from columns that are all shown, gives them back.
pub proof fn law_toggle_column_twice(columns: Seq<bool>)
    requires
        forall|i: int| 0 <= i < columns.len() ==> #[trigger] columns[i],
    ensures
        columns_toggled(columns_toggled(columns)) == columns,
{
    if columns.len() > 2 {
        lemma_first_hidden(columns);
        let hidden = columns_toggled(columns);
        lemma_first_hidden(hidden);
        assert(first_hidden(columns) == columns.len());
        let f = first_hidden(hidden);
        assert(!hidden[columns.len() - 1]);
        if f < columns.len() - 1 {
            assert(hidden[f] == columns[f]);
        }
        assert(f == columns.len() - 1);
        assert(columns_toggled(hidden) =~= columns);
    }
}

impl PanelUiState {
    /// A panel that is shown, without a filter and with all its columns.
    pub fn new(column_count: usize) -> (r: Self)
        ensures
            r.visible,
            r.filter@ == no_filter(),
            r.columns@ == Seq::new(column_count as nat, |i: int| true),
    {
        let mut columns: Vec<bool> = Vec::new();
        let mut i: usize = 0;
        while i < column_count
            invariant
                i <= column_count,
                columns@.len() == i,
                forall|k: int| 0 <= k < i ==> #[trigger] columns@[k],
            decreases column_count - i,
        {
            columns.push(true);
            i += 1;
        }
        assert(columns@ =~= Seq::new(column_count as nat, |i: int| true));
        PanelUiState { visible: true, filter: FilterExpression::default(), columns }
    }

    /// Toggles a column.
    pub fn toggle_next_optional_column(&mut self)
        ensures
            final(self).columns@ == columns_toggled(old(self).columns@),
            *final(self) == (PanelUiState { columns: final(self).columns, ..*old(self) }),
    {
        if self.columns.len() <= 2 {
            return;
        }
        let ghost before = self.columns@;
        let n: usize = self.columns.len();
        let mut i: usize = 0;
        assert(before.skip(0) =~= before);
        while i < n && self.columns[i]
            invariant
                i <= n,
                n == self.columns@.len(),
                self.columns@ == before,
                *self == *old(self),
                first_hidden(before) == i + first_hidden(before.skip(i as int)),
            decreases n - i,
        {
            assert(before.skip(i as int).drop_first() =~= before.skip(i + 1));
            i += 1;
        }
        if i < n {
            self.columns.set(i, true);
        } else {
            self.columns.set(n - 1, false);
        }
    }
}

} // verus!
