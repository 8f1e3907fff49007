//! Which panels are shown, which one has the focus, and how they share the screen.

use vstd::prelude::*;

use crate::filter::no_filter;
use crate::filter::FilterExpression;
use crate::grid::PerPanel;
use crate::panel::panel_at;
use crate::panel::PanelId;
use crate::panels::columns_toggled;
use crate::panels::PanelUiState;

verus! {

/// Which panels are shown, which one has the focus, and how they share the screen.
#[derive(Debug)]
pub struct Board {
    pub focus: PanelId,
    pub left_percent: u16,
    pub top_percent: u16,
    pub panels: PerPanel<PanelUiState>,
}

/// Whether a panel is shown without a filter and with so many columns.
pub open spec fn is_fresh_panel(p: PanelUiState, columns: nat) -> bool {
    p.visible && p.filter@ == no_filter() && p.columns@ == Seq::new(columns, |i: int| true)
}

/// A percentage after one step of five, between 15 and 85.
pub open spec fn resized(percent: u16, grow: bool) -> u16 {
    if grow {
        if percent + 5 <= 85 {
            (percent + 5) as u16
        } else {
            85
        }
    } else {
        if percent - 5 >= 15 {
            (percent - 5) as u16
        } else {
            15
        }
    }
}

/// A percentage after one step of five, between 15 and 85.
fn resize(percent: u16, grow: bool) -> (r: u16)
    requires
        15 <= percent <= 85,
    ensures
        r == resized(percent, grow),
        15 <= r <= 85,
{
    if grow {
        if percent + 5 <= 85 {
            percent + 5
        } else {
            85
        }
    } else {
        if percent >= 20 {
            percent - 5
        } else {
            15
        }
    }
}

/// A split that was grown and shrunk, away from its bounds, is what it was.
pub proof fn law_resize_undone(percent: u16, grow: bool)
    requires
        20 <= percent <= 80,
    ensures
        resized(resized(percent, grow), !grow) == percent,
{
}

/// The panel at a place.
fn panel_from(i: usize) -> (r: PanelId)
    requires
        i < 5,
    ensures
        r == panel_at(i as int),
        r.place() == i,
{
    match i {
        0 => PanelId::Jobs,
        1 => PanelId::Nodes,
        2 => PanelId::Gpus,
        3 => PanelId::Disks,
        _ => PanelId::Summary,
    }
}

impl Board {
    /// Whether a panel is shown.
    pub open spec fn shows(self, panel: PanelId) -> bool {
        self.panels.at(panel).visible
    }

    /// Which panels are shown.
    pub open spec fn visible_panels(self) -> PerPanel<bool> {
        PerPanel {
            jobs: self.panels.jobs.visible,
            nodes: self.panels.nodes.visible,
            gpus: self.panels.gpus.visible,
            disks: self.panels.disks.visible,
            summary: self.panels.summary.visible,
        }
    }

    /// Whether the focused panel is shown, and the splits are between 15 and 85 percent.
    pub open spec fn wf(self) -> bool {
        &&& self.shows(self.focus)
        &&& 15 <= self.left_percent <= 85
        &&& 15 <= self.top_percent <= 85
    }

    /// How many panels are shown.
    pub open spec fn shown_count(self) -> int {
        (if self.panels.jobs.visible { 1int } else { 0 }) + (if self.panels.nodes.visible { 1int } else { 0 })
            + (if self.panels.gpus.visible { 1int } else { 0 }) + (if self.panels.disks.visible {
            1int
        } else {
            0
        }) + (if self.panels.summary.visible { 1int } else { 0 })
    }

    /// The first shown panel at the places `from + step`, `from + 2 * step` and so on, around; the
    /// focused one where `n` places show none.
    pub open spec fn sought(self, from: int, step: int, n: nat) -> PanelId
        decreases n,
    {
        let candidate = panel_at((from + step) % 5);
        if n == 0 {
            self.focus
        } else if self.shows(candidate) {
            candidate
        } else {
            self.sought(from + step, step, (n - 1) as nat)
        }
    }

    /// The panel that the focus moves on to.
    pub open spec fn after_focus(self) -> PanelId {
        self.sought(self.focus.place(), 1, 5)
    }

    /// The panel that the focus moves back to.
    pub open spec fn before_focus(self) -> PanelId {
        self.sought(self.focus.place(), 4, 5)
    }

    /// The board as it starts: everything is shown.
    pub fn new() -> (r: Self)
        ensures
            r.wf(),
            r.focus == PanelId::Jobs,
            r.left_percent == 60,
            r.top_percent == 68,
            is_fresh_panel(r.panels.jobs, 12),
            is_fresh_panel(r.panels.nodes, 8),
            is_fresh_panel(r.panels.gpus, 5),
            is_fresh_panel(r.panels.disks, 4),
            is_fresh_panel(r.panels.summary, 8),
    {
        Board {
            focus: PanelId::Jobs,
            left_percent: 60,
            top_percent: 68,
            panels: PerPanel {
                jobs: PanelUiState::new(12),
                nodes: PanelUiState::new(8),
                gpus: PanelUiState::new(5),
                disks: PanelUiState::new(4),
                summary: PanelUiState::new(8),
            },
        }
    }

    /// Whether each panel is shown.
    pub fn shown(&self) -> (r: PerPanel<bool>)
        ensures
            r == self.visible_panels(),
            forall|p: PanelId| #![trigger r.at(p)] r.at(p) == self.shows(p),
    {
        PerPanel {
            jobs: self.panels.jobs.visible,
            nodes: self.panels.nodes.visible,
            gpus: self.panels.gpus.visible,
            disks: self.panels.disks.visible,
            summary: self.panels.summary.visible,
        }
    }

    /// The first shown panel at the places `from + step`, `from + 2 * step` and so on, around.
    fn seek(&self, from: usize, step: usize) -> (r: PanelId)
        requires
            from < 5,
            step == 1 || step == 4,
        ensures
            r == self.sought(from as int, step as int, 5),
    {
        let mut at: usize = from;
        let mut left: usize = 5;
        let ghost mut wide: int = from as int;
        while left > 0
            invariant
                at < 5,
                step == 1 || step == 4,
                left <= 5,
                at == wide % 5,
                wide >= 0,
                self.sought(from as int, step as int, 5) == self.sought(wide, step as int, left as nat),
            decreases left,
        {
            at = (at + step) % 5;
            proof {
                assert((wide + step) % 5 == at as int);
                wide = wide + step;
            }
            let candidate = panel_from(at);
            if self.panels.get(candidate).visible {
                return candidate;
            }
            left = left - 1;
        }
        self.focus
    }

    /// Moves the focus on to the next shown panel.
    pub fn focus_next(&mut self)
        ensures
            *final(self) == (Board { focus: old(self).after_focus(), ..*old(self) }),
            (old(self).shown_count() > 0 && 15 <= old(self).left_percent <= 85 && 15
                <= old(self).top_percent <= 85) ==> final(self).wf(),
    {
        let next = self.seek(self.focus.index(), 1);
        proof {
            self.lemma_sought_is_shown(self.focus, 1);
        }
        self.focus = next;
    }

    /// Moves the focus back to the previous shown panel.
    pub fn focus_previous(&mut self)
        ensures
            *final(self) == (Board { focus: old(self).before_focus(), ..*old(self) }),
            old(self).wf() ==> final(self).wf(),
    {
        let previous = self.seek(self.focus.index(), 4);
        proof {
            self.lemma_sought_is_shown(self.focus, 4);
        }
        self.focus = previous;
    }

    proof fn lemma_sought_is_shown(self, from: PanelId, step: int)
        requires
            step == 1 || step == 4,
        ensures
            self.shown_count() > 0 ==> self.shows(self.sought(from.place(), step, 5)),
            self.shown_count() == 0 ==> self.sought(from.place(), step, 5) == self.focus,
    {
        reveal_with_fuel(Board::sought, 6);
        assert(self.panels.jobs.visible == self.shows(PanelId::Jobs));
        assert(self.panels.nodes.visible == self.shows(PanelId::Nodes));
        assert(self.panels.gpus.visible == self.shows(PanelId::Gpus));
        assert(self.panels.disks.visible == self.shows(PanelId::Disks));
        assert(self.panels.summary.visible == self.shows(PanelId::Summary));
    }

    /// Puts the focus on a panel, where it is shown.
    pub fn focus_visible(&mut self, panel: PanelId)
        ensures
            *final(self) == (Board {
                focus: if old(self).shows(panel) {
                    panel
                } else {
                    old(self).focus
                },
                ..*old(self)
            }),
            old(self).wf() ==> final(self).wf(),
    {
        if self.panels.get(panel).visible {
            self.focus = panel;
        }
    }

    /// The board with the focused panel hidden and the focus where it was.
    pub open spec fn without_focused(self) -> Board {
        let p = self.panels.at(self.focus);
        Board {
            panels: self.panels.with(self.focus, PanelUiState { visible: false, ..p }),
            ..self
        }
    }

    /// Whether `post` is the board after the focused panel was to be hidden: the last shown panel
    /// stays, and else the focus moves on.
    pub open spec fn hidden(self, post: Board, done: bool) -> bool {
        if self.shown_count() <= 1 {
            !done && post == self
        } else {
            let rest = self.without_focused();
            done && post == (Board { focus: rest.after_focus(), ..rest })
        }
    }

    /// Hides the focused panel, unless it is the last one that is shown; says whether it did.
    pub fn hide_focused_panel(&mut self) -> (r: bool)
        requires
            old(self).wf(),
        ensures
            old(self).hidden(*final(self), r),
            final(self).wf(),
    {
        let mut count: usize = 0;
        if self.panels.jobs.visible {
            count = count + 1;
        }
        if self.panels.nodes.visible {
            count = count + 1;
        }
        if self.panels.gpus.visible {
            count = count + 1;
        }
        if self.panels.disks.visible {
            count = count + 1;
        }
        if self.panels.summary.visible {
            count = count + 1;
        }
        if count <= 1 {
            return false;
        }
        let ghost before = *self;
        let focus = self.focus;
        let panel = self.panels.get_mut(focus);
        panel.visible = false;
        assert(*self == before.without_focused());
        assert(self.shown_count() == before.shown_count() - 1);
        self.focus_next();
        true
    }

    /// The first hidden panel.
    pub open spec fn first_hidden(self) -> Option<PanelId> {
        if !self.panels.jobs.visible {
            Some(PanelId::Jobs)
        } else if !self.panels.nodes.visible {
            Some(PanelId::Nodes)
        } else if !self.panels.gpus.visible {
            Some(PanelId::Gpus)
        } else if !self.panels.disks.visible {
            Some(PanelId::Disks)
        } else if !self.panels.summary.visible {
            Some(PanelId::Summary)
        } else {
            None
        }
    }

    /// The board with a panel shown and focused.
    pub open spec fn with_shown(self, panel: PanelId) -> Board {
        let p = self.panels.at(panel);
        Board {
            focus: panel,
            panels: self.panels.with(panel, PanelUiState { visible: true, ..p }),
            ..self
        }
    }

    /// Shows the first hidden panel and puts the focus on it; says whether there was one.
    pub fn show_next_hidden_panel(&mut self) -> (r: bool)
        requires
            old(self).wf(),
        ensures
            r == old(self).first_hidden().is_some(),
            match old(self).first_hidden() {
                Some(panel) => *final(self) == old(self).with_shown(panel),
                None => *final(self) == *old(self),
            },
            final(self).wf(),
    {
        let hidden: Option<PanelId> = if !self.panels.jobs.visible {
            Some(PanelId::Jobs)
        } else if !self.panels.nodes.visible {
            Some(PanelId::Nodes)
        } else if !self.panels.gpus.visible {
            Some(PanelId::Gpus)
        } else if !self.panels.disks.visible {
            Some(PanelId::Disks)
        } else if !self.panels.summary.visible {
            Some(PanelId::Summary)
        } else {
            None
        };
        match hidden {
            Some(panel) => {
                let state = self.panels.get_mut(panel);
                state.visible = true;
                self.focus = panel;
                true
            },
            None => false,
        }
    }

    /// Makes the left panels of rows broader or narrower.
    pub fn resize_width(&mut self, grow_left: bool)
        requires
            old(self).wf(),
        ensures
            *final(self) == (Board {
                left_percent: resized(old(self).left_percent, grow_left),
                ..*old(self)
            }),
            final(self).wf(),
    {
        self.left_percent = resize(self.left_percent, grow_left);
    }

    /// Makes the top row higher or lower.
    pub fn resize_height(&mut self, grow_top: bool)
        requires
            old(self).wf(),
        ensures
            *final(self) == (Board {
                top_percent: resized(old(self).top_percent, grow_top),
                ..*old(self)
            }),
            final(self).wf(),
    {
        self.top_percent = resize(self.top_percent, grow_top);
    }

    /// Whether `post` is the board with other columns in the focused panel.
    pub open spec fn column_toggled(self, post: Board) -> bool {
        let before = self.panels.at(self.focus);
        let after = post.panels.at(self.focus);
        &&& after.columns@ == columns_toggled(before.columns@)
        &&& after == (PanelUiState { columns: after.columns, ..before })
        &&& post == (Board { panels: self.panels.with(self.focus, after), ..self })
    }

    /// Toggles a column of the focused panel.
    pub fn toggle_column(&mut self)
        requires
            old(self).wf(),
        ensures
            old(self).column_toggled(*final(self)),
            final(self).wf(),
    {
        let focus = self.focus;
        let panel = self.panels.get_mut(focus);
        panel.toggle_next_optional_column();
    }

    /// Whether `post` is the board with another filter in the focused panel.
    pub open spec fn filter_set(self, post: Board, filter: FilterExpression) -> bool {
        let before = self.panels.at(self.focus);
        post == (Board {
            panels: self.panels.with(self.focus, PanelUiState { filter, ..before }),
            ..self
        })
    }

    /// Sets the filter of the focused panel.
    pub fn set_filter(&mut self, filter: FilterExpression)
        requires
            old(self).wf(),
        ensures
            old(self).filter_set(*final(self), filter),
            final(self).wf(),
    {
        let focus = self.focus;
        let panel = self.panels.get_mut(focus);
        panel.filter = filter;
    }
}

/// A hidden panel and one shown again: hiding the focused panel and showing it again shows the same
/// panels as before, where no other was hidden.
pub proof fn law_hide_and_show(board: Board, hidden: Board)
    requires
        board.wf(),
        board.first_hidden() is None,
        board.hidden(hidden, true),
    ensures
        hidden.first_hidden() == Some(board.focus),
        hidden.with_shown(board.focus) == board,
{
    let p = board.panels.at(board.focus);
    assert(board.panels.with(board.focus, p) == board.panels);
}

/// Hiding a panel never hides the last one: at least one panel stays visible, and it has the focus.
pub proof fn law_one_panel_stays(board: Board, post: Board, done: bool)
    requires
        board.wf(),
        board.hidden(post, done),
    ensures
        post.shown_count() >= 1,
        done ==> post.shown_count() == board.shown_count() - 1,
{
    let rest = board.without_focused();
    assert(rest.panels.at(board.focus).visible == false);
}

/// Where every panel is shown, the focus visits them all in turn, and moving on and back returns.
pub proof fn law_focus_goes_round(board: Board)
    requires
        board.wf(),
        board.first_hidden() is None,
    ensures
        board.after_focus().place() == (board.focus.place() + 1) % 5,
        (Board { focus: board.after_focus(), ..board }).before_focus() == board.focus,
        (Board { focus: board.before_focus(), ..board }).after_focus() == board.focus,
{
    reveal_with_fuel(Board::sought, 2);
}

} // verus!
