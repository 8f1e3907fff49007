//! What the mouse does.

use vstd::prelude::*;

use crate::columns::accounting_column_at;
use crate::columns::accounting_column_from_index;
use crate::columns::actual_column;
use crate::columns::column_at_place;
use crate::columns::default_disk_usage_direction;
use crate::columns::default_user_job_direction;
use crate::columns::disk_column_at;
use crate::columns::disk_column_from_index;
use crate::columns::disk_usage_column_at;
use crate::columns::disk_usage_column_from_index;
use crate::columns::first_disk_usage_direction;
use crate::columns::first_user_job_direction;
use crate::columns::gpu_column_at;
use crate::columns::gpu_column_from_index;
use crate::columns::job_column_at;
use crate::columns::job_column_from_index;
use crate::columns::node_column_at;
use crate::columns::node_column_from_index;
use crate::columns::user_job_column_at;
use crate::columns::user_job_column_from_index;
use crate::columns::DiskUsageColumn;
use crate::columns::UserJobColumn;
use crate::columns::UserJobSection;
use crate::cursor::select_visible_table_row;
use crate::cursor::TableCursor;
use crate::dashboard::AppState;
use crate::dashboard::Cursors;
use crate::dashboard::Hits;
use crate::dashboard::SortColumns;
use crate::dashboard::Sorting;
use crate::events::find_header;
use crate::events::find_modal_header;
use crate::events::find_table;
use crate::events::header_at;
use crate::events::modal_header_at;
use crate::events::table_at;
use crate::events::Effect;
use crate::events::InputMode;
use crate::events::ModalTable;
use crate::events::Moment;
use crate::events::MouseKind;
use crate::events::MousePress;
use crate::events::Now;
use crate::events::RowClick;
use crate::grid::body_row;
use crate::grid::contains;
use crate::grid::table_body_row_at;
use crate::grid::Area;
use crate::grid::PanelAreas;
use crate::panel::PanelId;
use crate::stamp::displayable;

verus! {

/// The columns by which the tables are sorted, with another one for a panel.
pub open spec fn columns_with(columns: SortColumns, panel: PanelId, column: usize) -> SortColumns {
    match panel {
        PanelId::Jobs => SortColumns { jobs: job_column_at(column), ..columns },
        PanelId::Nodes => SortColumns { nodes: node_column_at(column), ..columns },
        PanelId::Gpus => SortColumns { gpus: gpu_column_at(column), ..columns },
        PanelId::Disks => SortColumns { disks: disk_column_at(column), ..columns },
        PanelId::Summary => SortColumns { accounting: accounting_column_at(column), ..columns },
    }
}

/// The first panel at a point, in the order of their indices, and its area.
pub open spec fn panel_under(areas: PanelAreas, x: u16, y: u16) -> Option<(PanelId, Area)> {
    if areas.jobs is Some && areas.jobs->0.holds(x, y) {
        Some((PanelId::Jobs, areas.jobs->0))
    } else if areas.nodes is Some && areas.nodes->0.holds(x, y) {
        Some((PanelId::Nodes, areas.nodes->0))
    } else if areas.gpus is Some && areas.gpus->0.holds(x, y) {
        Some((PanelId::Gpus, areas.gpus->0))
    } else if areas.disks is Some && areas.disks->0.holds(x, y) {
        Some((PanelId::Disks, areas.disks->0))
    } else if areas.summary is Some && areas.summary->0.holds(x, y) {
        Some((PanelId::Summary, areas.summary->0))
    } else {
        None
    }
}

/// The area, where a point lies in it.
fn area_under(area: Option<Area>, x: u16, y: u16) -> (r: Option<Area>)
    requires
        area matches Some(a) ==> a.fits(),
    ensures
        r == if area is Some && area->0.holds(x, y) {
            area
        } else {
            None
        },
{
    match area {
        Some(a) => if contains(a, x, y) {
            Some(a)
        } else {
            None
        },
        None => None,
    }
}

/// The first panel at a point.
fn find_panel(areas: &PanelAreas, x: u16, y: u16) -> (r: Option<(PanelId, Area)>)
    requires
        forall|p: PanelId| #![trigger areas.at(p)] areas.at(p) matches Some(area) ==> area.fits(),
    ensures
        r == panel_under(*areas, x, y),
{
    assert(areas.at(PanelId::Jobs) == areas.jobs && areas.at(PanelId::Nodes) == areas.nodes && areas.at(
        PanelId::Gpus,
    ) == areas.gpus && areas.at(PanelId::Disks) == areas.disks && areas.at(PanelId::Summary)
        == areas.summary);
    if let Some(a) = area_under(areas.jobs, x, y) {
        return Some((PanelId::Jobs, a));
    }
    if let Some(a) = area_under(areas.nodes, x, y) {
        return Some((PanelId::Nodes, a));
    }
    if let Some(a) = area_under(areas.gpus, x, y) {
        return Some((PanelId::Gpus, a));
    }
    if let Some(a) = area_under(areas.disks, x, y) {
        return Some((PanelId::Disks, a));
    }
    if let Some(a) = area_under(areas.summary, x, y) {
        return Some((PanelId::Summary, a));
    }
    None
}

impl AppState {
    /// The state with another last click.
    pub open spec fn with_click(self, click: Option<RowClick>) -> AppState {
        AppState { hits: Hits { last_click: click, ..self.hits }, ..self }
    }

    /// The state with a panel sorted by the column on the screen that was clicked, in the other
    /// direction, and on its first row.
    pub open spec fn header_sorted(self, panel: PanelId, visible_column: usize) -> AppState {
        let column = column_at_place(self.board.panels.at(panel).columns@, 0, visible_column as int);
        AppState {
            sorting: Sorting {
                columns: columns_with(self.sorting.columns, panel, column as usize),
                directions: self.sorting.directions.with(
                    panel,
                    self.sorting.directions.at(panel).flipped(),
                ),
                ..self.sorting
            },
            ..self
        }.with_cursor(panel, TableCursor::top())
    }

    /// Sorts a panel by the column on the screen that was clicked.
    pub fn apply_header_sort(&mut self, panel: PanelId, visible_column: usize)
        requires
            old(self).wf(),
        ensures
            *final(self) == old(self).header_sorted(panel, visible_column),
            final(self).wf(),
    {
        let column: usize = actual_column(
            self.board.panels.get(panel).columns.as_slice(),
            visible_column,
        );
        let mut columns = self.sorting.columns;
        match panel {
            PanelId::Jobs => {
                columns.jobs = job_column_from_index(column);
            },
            PanelId::Nodes => {
                columns.nodes = node_column_from_index(column);
            },
            PanelId::Gpus => {
                columns.gpus = gpu_column_from_index(column);
            },
            PanelId::Summary => {
                columns.accounting = accounting_column_from_index(column);
            },
            PanelId::Disks => {
                columns.disks = disk_column_from_index(column);
            },
        }
        self.sorting.columns = columns;
        let direction = self.sorting.directions.get(panel).toggled();
        self.sorting.directions.set(panel, direction);
        self.cursors.panels.set(panel, TableCursor::at_top());
    }

    /// Whether a click on a row makes a double click with the last one.
    pub open spec fn is_double_click(self, panel: PanelId, row: usize, at: Moment) -> bool {
        self.hits.last_click matches Some(click) && click.paired(panel, row, at)
    }

    /// The state after a click on a row: a double click is forgotten, so that a third click is a
    /// first one.
    pub open spec fn row_clicked(self, panel: PanelId, row: usize, at: Moment) -> AppState {
        self.with_click(
            if self.is_double_click(panel, row, at) {
                None
            } else {
                Some(RowClick { panel, row, at })
            },
        )
    }

    /// Takes in a click on a row; says whether it is a double click.
    pub fn register_row_click(&mut self, panel: PanelId, row: usize, at: Moment) -> (r: bool)
        requires
            old(self).wf(),
        ensures
            r == old(self).is_double_click(panel, row, at),
            *final(self) == old(self).row_clicked(panel, row, at),
            final(self).wf(),
    {
        let double: bool = match self.hits.last_click {
            Some(click) => click.matches(panel, row, at),
            None => false,
        };
        self.hits.last_click = if double {
            None
        } else {
            Some(RowClick { panel, row, at })
        };
        double
    }

    /// The row of a panel that is shown at a place.
    pub open spec fn shown_row(self, panel: PanelId, place: usize) -> Option<usize> {
        self.cursors.panels.at(panel).row_shown_at(self.row_count(panel) as usize, place)
    }

    /// The state with the row of a panel selected that is shown at a place.
    pub open spec fn shown_row_selected(self, panel: PanelId, place: usize) -> AppState {
        self.with_cursor(
            panel,
            self.cursors.panels.at(panel).clicked(self.row_count(panel) as usize, place),
        )
    }

    /// Selects the row of a panel that is shown at a place.
    pub fn select_visible_row(&mut self, panel: PanelId, visible_row: usize) -> (r: Option<usize>)
        requires
            old(self).wf(),
        ensures
            r == old(self).shown_row(panel, visible_row),
            *final(self) == old(self).shown_row_selected(panel, visible_row),
            final(self).wf(),
    {
        let len: usize = self.panel_row_count(panel);
        let mut cursor = *self.cursors.panels.get(panel);
        let row = select_visible_table_row(&mut cursor, len, visible_row);
        self.cursors.panels.set(panel, cursor);
        row
    }

    /// Whether `post` is the state after a click on a panel, with what is asked for: the panel gets
    /// the focus, the row under the mouse is selected, and a double click opens it.
    pub open spec fn panel_clicked(
        self,
        post: AppState,
        panel: PanelId,
        area: Area,
        mouse: MousePress,
        now: Now,
        effect: Effect,
    ) -> bool {
        let focused = self.with_focus(panel);
        match body_row(area, mouse.column, mouse.row) {
            Some(place) => {
                let selected = focused.shown_row_selected(panel, place);
                match focused.shown_row(panel, place) {
                    Some(row) => {
                        let clicked = selected.row_clicked(panel, row, now.moment);
                        if selected.is_double_click(panel, row, now.moment) {
                            clicked.details_opened(post, now, effect)
                        } else {
                            effect is Nothing && post == clicked
                        }
                    },
                    None => effect is Nothing && post == selected.with_click(None),
                }
            },
            None => effect is Nothing && post == focused.with_click(None),
        }
    }

    /// Takes in a click on a panel.
    fn click_panel(&mut self, panel: PanelId, area: Area, mouse: MousePress, now: Now) -> (r: Effect)
        requires
            old(self).wf(),
            displayable(now.time),
        ensures
            old(self).panel_clicked(*final(self), panel, area, mouse, now, r),
            final(self).wf(),
    {
        self.board.focus_visible(panel);
        assert(*self == old(self).with_focus(panel));
        match table_body_row_at(area, mouse.column, mouse.row) {
            Some(place) => match self.select_visible_row(panel, place) {
                Some(row) => if self.register_row_click(panel, row, now.moment) {
                    self.open_focused_details(now)
                } else {
                    Effect::Nothing
                },
                None => {
                    self.hits.last_click = None;
                    Effect::Nothing
                },
            },
            None => {
                self.hits.last_click = None;
                Effect::Nothing
            },
        }
    }

    /// The state with a section of a user's jobs focused.
    pub open spec fn with_section(self, section: UserJobSection) -> AppState {
        AppState { cursors: Cursors { section, ..self.cursors }, ..self }
    }

    /// The state with the jobs of a user sorted by a column: in the other direction where they were
    /// sorted by it before, and else in the first direction of the column.
    pub open spec fn user_sort_set(self, column: UserJobColumn) -> AppState {
        let same = self.sorting.columns.user_jobs == column;
        AppState {
            sorting: Sorting {
                columns: SortColumns { user_jobs: column, ..self.sorting.columns },
                user_direction: if same {
                    self.sorting.user_direction.flipped()
                } else {
                    first_user_job_direction(column)
                },
                ..self.sorting
            },
            ..self
        }.with_active_cursor(TableCursor::top())
    }

    /// Sorts the jobs of a user by a column.
    pub fn set_user_details_sort(&mut self, column: UserJobColumn)
        requires
            old(self).wf(),
        ensures
            *final(self) == old(self).user_sort_set(column),
            final(self).wf(),
    {
        if self.sorting.columns.user_jobs == column {
            self.sorting.user_direction = self.sorting.user_direction.toggled();
        } else {
            self.sorting.columns.user_jobs = column;
            self.sorting.user_direction = default_user_job_direction(column);
        }
        self.cursors.set_active(TableCursor::at_top());
    }

    /// The state with the rows of disk usage sorted by a column.
    pub open spec fn usage_sort_set(self, column: DiskUsageColumn) -> AppState {
        let same = self.sorting.columns.usage == column;
        AppState {
            sorting: Sorting {
                columns: SortColumns { usage: column, ..self.sorting.columns },
                usage_direction: if same {
                    self.sorting.usage_direction.flipped()
                } else {
                    first_disk_usage_direction(column)
                },
                ..self.sorting
            },
            ..self
        }.with_usage_cursor(TableCursor::top())
    }

    /// Sorts the rows of disk usage by a column.
    pub fn set_disk_usage_sort(&mut self, column: DiskUsageColumn)
        requires
            old(self).wf(),
        ensures
            *final(self) == old(self).usage_sort_set(column),
            final(self).wf(),
    {
        if self.sorting.columns.usage == column {
            self.sorting.usage_direction = self.sorting.usage_direction.toggled();
        } else {
            self.sorting.columns.usage = column;
            self.sorting.usage_direction = default_disk_usage_direction(column);
        }
        self.cursors.usage = TableCursor::at_top();
    }

    /// The section of a user's jobs at a point.
    pub open spec fn section_under(self, x: u16, y: u16) -> Option<UserJobSection> {
        match table_at(self.hits.modal_tables@, x, y) {
            Some(hit) => hit.table.section(),
            None => None,
        }
    }

    /// The state with the section at a point focused, where there is one.
    pub open spec fn section_focused_under(self, x: u16, y: u16) -> AppState {
        match self.section_under(x, y) {
            Some(section) => self.with_section(section),
            None => self,
        }
    }

    /// The state after a click in the popup of a user: on a header it sorts, and on a row it selects.
    pub open spec fn user_popup_clicked(self, x: u16, y: u16) -> AppState {
        match modal_header_at(self.hits.modal_headers@, x, y) {
            Some(hit) => match hit.table.section() {
                Some(section) => self.with_section(section).user_sort_set(
                    user_job_column_at(hit.span.column),
                ),
                None => self,
            },
            None => match table_at(self.hits.modal_tables@, x, y) {
                Some(hit) => match hit.table.section() {
                    Some(section) => {
                        let focused = self.with_section(section);
                        match body_row(hit.area, x, y) {
                            Some(place) => focused.with_active_cursor(
                                focused.cursors.active().clicked(focused.active_jobs() as usize, place),
                            ),
                            None => focused,
                        }
                    },
                    None => self,
                },
                None => self,
            },
        }
    }

    /// The state after the mouse did something in the popup of a user.
    pub open spec fn user_popup_moused(self, mouse: MousePress) -> AppState {
        match mouse.kind {
            MouseKind::LeftDown => self.user_popup_clicked(mouse.column, mouse.row),
            MouseKind::ScrollUp => self.section_focused_under(mouse.column, mouse.row).user_selection_moved(-3),
            MouseKind::ScrollDown => self.section_focused_under(mouse.column, mouse.row).user_selection_moved(3),
            MouseKind::Other => self,
        }
    }

    /// Takes in a click in the popup of a user.
    fn click_user_popup(&mut self, x: u16, y: u16)
        requires
            old(self).wf(),
        ensures
            *final(self) == old(self).user_popup_clicked(x, y),
            final(self).wf(),
    {
        if let Some(hit) = find_modal_header(&self.hits.modal_headers, x, y) {
            if let Some(section) = hit.table.user_section() {
                self.cursors.section = section;
                self.set_user_details_sort(user_job_column_from_index(hit.span.column));
            }
            return;
        }
        if let Some(hit) = find_table(&self.hits.modal_tables, x, y) {
            if let Some(section) = hit.table.user_section() {
                self.cursors.section = section;
                if let Some(place) = table_body_row_at(hit.area, x, y) {
                    let len: usize = match &self.popups.user {
                        Some(user) => self.user_section_len(user.as_str(), section),
                        None => 0,
                    };
                    let mut cursor = self.cursors.get_active();
                    let _ = select_visible_table_row(&mut cursor, len, place);
                    self.cursors.set_active(cursor);
                }
            }
        }
    }

    /// Puts the focus on the section at a point, where there is one.
    fn focus_section_under(&mut self, x: u16, y: u16)
        requires
            old(self).wf(),
        ensures
            *final(self) == old(self).section_focused_under(x, y),
            final(self).wf(),
    {
        if let Some(hit) = find_table(&self.hits.modal_tables, x, y) {
            if let Some(section) = hit.table.user_section() {
                self.cursors.section = section;
            }
        }
    }

    /// Takes in what the mouse does in the popup of a user.
    pub fn handle_user_details_mouse(&mut self, mouse: MousePress)
        requires
            old(self).wf(),
        ensures
            *final(self) == old(self).user_popup_moused(mouse),
            final(self).wf(),
    {
        match mouse.kind {
            MouseKind::LeftDown => {
                self.click_user_popup(mouse.column, mouse.row);
            },
            MouseKind::ScrollUp => {
                self.focus_section_under(mouse.column, mouse.row);
                self.move_user_details_selection(-3);
            },
            MouseKind::ScrollDown => {
                self.focus_section_under(mouse.column, mouse.row);
                self.move_user_details_selection(3);
            },
            MouseKind::Other => {},
        }
    }

    /// The state after a click in the popup of a disk: on a header it sorts, and on a row it selects.
    pub open spec fn disk_popup_clicked(self, x: u16, y: u16) -> AppState {
        match modal_header_at(self.hits.modal_headers@, x, y) {
            Some(hit) => if hit.table == ModalTable::DiskUsage {
                self.usage_sort_set(disk_usage_column_at(hit.span.column))
            } else {
                self
            },
            None => match table_at(self.hits.modal_tables@, x, y) {
                Some(hit) => match body_row(hit.area, x, y) {
                    Some(place) => if hit.table == ModalTable::DiskUsage {
                        self.with_usage_cursor(
                            self.cursors.usage.clicked(self.active_usage().len() as usize, place),
                        )
                    } else {
                        self
                    },
                    None => self,
                },
                None => self,
            },
        }
    }

    /// The state after the mouse did something in the popup of a disk.
    pub open spec fn disk_popup_moused(self, mouse: MousePress) -> AppState {
        match mouse.kind {
            MouseKind::LeftDown => self.disk_popup_clicked(mouse.column, mouse.row),
            MouseKind::ScrollUp => self.usage_selection_moved(-3),
            MouseKind::ScrollDown => self.usage_selection_moved(3),
            MouseKind::Other => self,
        }
    }

    /// Takes in what the mouse does in the popup of a disk.
    pub fn handle_disk_details_mouse(&mut self, mouse: MousePress)
        requires
            old(self).wf(),
        ensures
            *final(self) == old(self).disk_popup_moused(mouse),
            final(self).wf(),
    {
        match mouse.kind {
            MouseKind::LeftDown => {
                if let Some(hit) = find_modal_header(&self.hits.modal_headers, mouse.column, mouse.row) {
                    if hit.table == ModalTable::DiskUsage {
                        self.set_disk_usage_sort(disk_usage_column_from_index(hit.span.column));
                    }
                    return;
                }
                if let Some(hit) = find_table(&self.hits.modal_tables, mouse.column, mouse.row) {
                    if hit.table == ModalTable::DiskUsage {
                        if let Some(place) = table_body_row_at(hit.area, mouse.column, mouse.row) {
                            let len: usize = self.active_disk_usage_len();
                            let _ = select_visible_table_row(&mut self.cursors.usage, len, place);
                        }
                    }
                }
            },
            MouseKind::ScrollUp => {
                self.move_disk_usage_selection(-3);
            },
            MouseKind::ScrollDown => {
                self.move_disk_usage_selection(3);
            },
            MouseKind::Other => {},
        }
    }

    /// Whether something other than the popups of a user or a disk lies over the panels.
    pub open spec fn covered(self) -> bool {
        ||| self.popups.action is Some
        ||| self.popups.help
        ||| self.typing.mode != InputMode::Normal
        ||| self.popups.job is Some
        ||| self.popups.node is Some
        ||| self.popups.gpu is Some
    }

    /// Whether `post` is the state after the mouse did something, with what is asked for. The popups
    /// of a user and of a disk take it, what else lies over the panels holds it back, and on the
    /// panels a click on a header sorts.
    pub open spec fn moused(self, post: AppState, mouse: MousePress, now: Now, effect: Effect) -> bool {
        if self.popups.user is Some {
            effect is Nothing && post == self.user_popup_moused(mouse)
        } else if self.popups.disk is Some {
            effect is Nothing && post == self.disk_popup_moused(mouse)
        } else if self.covered() || mouse.kind != MouseKind::LeftDown {
            effect is Nothing && post == self
        } else {
            match header_at(self.hits.headers@, mouse.column, mouse.row) {
                Some(hit) => effect is Nothing && post == self.with_focus(hit.panel).header_sorted(
                    hit.panel,
                    hit.span.column,
                ).with_click(None),
                None => match panel_under(self.hits.areas, mouse.column, mouse.row) {
                    Some((panel, area)) => self.panel_clicked(post, panel, area, mouse, now, effect),
                    None => effect is Nothing && post == self.with_click(None),
                },
            }
        }
    }

    /// Takes in what the mouse does; says what is asked for.
    pub fn handle_mouse(&mut self, mouse: MousePress, now: Now) -> (r: Effect)
        requires
            old(self).wf(),
            displayable(now.time),
        ensures
            old(self).moused(*final(self), mouse, now, r),
            final(self).wf(),
    {
        if self.popups.user.is_some() {
            self.handle_user_details_mouse(mouse);
            return Effect::Nothing;
        }
        if self.popups.disk.is_some() {
            self.handle_disk_details_mouse(mouse);
            return Effect::Nothing;
        }
        if self.popups.action.is_some() || self.popups.help || self.typing.mode != InputMode::Normal
            || self.popups.job.is_some() || self.popups.node.is_some() || self.popups.gpu.is_some()
            || mouse.kind != MouseKind::LeftDown {
            return Effect::Nothing;
        }
        if let Some(hit) = find_header(&self.hits.headers, mouse.column, mouse.row) {
            self.board.focus_visible(hit.panel);
            assert(*self == old(self).with_focus(hit.panel));
            self.apply_header_sort(hit.panel, hit.span.column);
            self.hits.last_click = None;
            return Effect::Nothing;
        }
        match find_panel(&self.hits.areas, mouse.column, mouse.row) {
            Some((panel, area)) => self.click_panel(panel, area, mouse, now),
            None => {
                self.hits.last_click = None;
                Effect::Nothing
            },
        }
    }
}

/// The mouse asks for no action on a job, and does not end the dashboard.
pub proof fn law_mouse_runs_no_action(
    pre: AppState,
    post: AppState,
    mouse: MousePress,
    now: Now,
    effect: Effect,
)
    requires
        pre.moused(post, mouse, now, effect),
    ensures
        !(effect is RunAction),
        !(effect is Quit),
        post.popups.action == pre.popups.action,
{
}

/// Two clicks on a row, soon enough, make a double click, and a third click with them does not.
pub proof fn law_double_click(state: AppState, panel: PanelId, row: usize, a: Moment, b: Moment, c: Moment)
    requires
        !state.is_double_click(panel, row, a),
        b.since(a) <= 450_000_000,
    ensures
        ({
            let one = state.row_clicked(panel, row, a);
            let two = one.row_clicked(panel, row, b);
            one.is_double_click(panel, row, b) && !two.is_double_click(panel, row, c)
        }),
{
}

/// While a popup of a job, node or GPU, the help, typing or a confirmation lies over the panels, the
/// mouse does nothing.
pub proof fn law_covered_panels_ignore_mouse(
    pre: AppState,
    post: AppState,
    mouse: MousePress,
    now: Now,
    effect: Effect,
)
    requires
        pre.covered(),
        pre.popups.user is None,
        pre.popups.disk is None,
        pre.moused(post, mouse, now, effect),
    ensures
        post == pre,
        effect is Nothing,
{
}

} // verus!
