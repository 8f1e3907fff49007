//! What keys do.

use vstd::prelude::*;

use crate::board::resized;
use crate::board::Board;
use crate::book::Key;
use crate::book::ScanAnswer;
use crate::clock::Span;
use crate::columns::accounting_column_after;
use crate::columns::disk_column_after;
use crate::columns::disk_usage_column_after;
use crate::columns::gpu_column_after;
use crate::columns::job_column_after;
use crate::columns::next_accounting_column;
use crate::columns::next_disk_column;
use crate::columns::next_disk_usage_column;
use crate::columns::next_gpu_column;
use crate::columns::next_job_column;
use crate::columns::next_node_column;
use crate::columns::next_user_job_column;
use crate::columns::node_column_after;
use crate::columns::user_job_column_after;
use crate::columns::UserJobSection;
use crate::commands::JobAction;
use crate::cursor::least;
use crate::cursor::move_table_selection;
use crate::cursor::TableCursor;
use crate::dashboard::no_popups;
use crate::dashboard::say_scan;
use crate::dashboard::scan_text;
use crate::dashboard::AppState;
use crate::dashboard::Cursors;
use crate::dashboard::Notes;
use crate::dashboard::Popups;
use crate::dashboard::Skin;
use crate::dashboard::SortColumns;
use crate::dashboard::Sorting;
use crate::dashboard::Typing;
use crate::events::Effect;
use crate::events::InputMode;
use crate::events::KeyCode;
use crate::events::KeyPress;
use crate::events::Moment;
use crate::events::Now;
use crate::events::PendingAction;
use crate::filter::filter_of;
use crate::filter::FilterExpression;
use crate::filter::FilterView;
use crate::keyed::DiskUsageKey;
use crate::listing::GpuRowView;
use crate::listing::SummaryRowView;
use crate::model::DiskView;
use crate::model::JobView;
use crate::model::NodeView;
use crate::panel::PanelId;
use crate::stamp::displayable;
use crate::stamp::format_timestamp;
use crate::stamp::shows_locally;
use crate::text::is_text;
use crate::text::lowercase;
use crate::text::strip;
use crate::text::to_chars;
use crate::text::to_text;
use crate::text::trim;
use crate::text::words;
use crate::theme::palette_of;
use crate::theme::theme_with;
use crate::theme::Theme;
use crate::wording::disk_usage_timeout_label;
use crate::wording::limit_text;

verus! {

/// The columns by which the tables are sorted, with the one of a panel moved on.
pub open spec fn columns_after(columns: SortColumns, panel: PanelId) -> SortColumns {
    match panel {
        PanelId::Jobs => SortColumns { jobs: job_column_after(columns.jobs), ..columns },
        PanelId::Nodes => SortColumns { nodes: node_column_after(columns.nodes), ..columns },
        PanelId::Gpus => SortColumns { gpus: gpu_column_after(columns.gpus), ..columns },
        PanelId::Disks => SortColumns { disks: disk_column_after(columns.disks), ..columns },
        PanelId::Summary => SortColumns {
            accounting: accounting_column_after(columns.accounting),
            ..columns
        },
    }
}

impl Cursors {
    /// The cursor of the section of a user's jobs that has the focus.
    pub open spec fn active(self) -> TableCursor {
        match self.section {
            UserJobSection::Running => self.running,
            UserJobSection::Pending => self.pending,
        }
    }

    /// The cursors with another one for the section that has the focus.
    pub open spec fn with_active(self, cursor: TableCursor) -> Cursors {
        match self.section {
            UserJobSection::Running => Cursors { running: cursor, ..self },
            UserJobSection::Pending => Cursors { pending: cursor, ..self },
        }
    }

    /// Sets the cursor of the section that has the focus.
    pub fn set_active(&mut self, cursor: TableCursor)
        ensures
            *final(self) == old(self).with_active(cursor),
    {
        match self.section {
            UserJobSection::Running => {
                self.running = cursor;
            },
            UserJobSection::Pending => {
                self.pending = cursor;
            },
        }
    }

    /// The cursor of the section that has the focus.
    pub fn get_active(&self) -> (r: TableCursor)
        ensures
            r == self.active(),
    {
        match self.section {
            UserJobSection::Running => self.running,
            UserJobSection::Pending => self.pending,
        }
    }
}

impl AppState {
    /// The state with another cursor for a panel.
    pub open spec fn with_cursor(self, panel: PanelId, cursor: TableCursor) -> AppState {
        AppState {
            cursors: Cursors { panels: self.cursors.panels.with(panel, cursor), ..self.cursors },
            ..self
        }
    }

    /// The state with the focus on a panel, where it is shown.
    pub open spec fn with_focus(self, panel: PanelId) -> AppState {
        AppState {
            board: Board {
                focus: if self.board.shows(panel) {
                    panel
                } else {
                    self.board.focus
                },
                ..self.board
            },
            ..self
        }
    }

    /// The state with the selection of the focused panel moved.
    pub open spec fn selection_moved(self, delta: int) -> AppState {
        let focus = self.board.focus;
        self.with_cursor(
            focus,
            self.cursors.panels.at(focus).moved(self.row_count(focus) as usize, delta),
        )
    }

    /// Moves the selection of the focused panel.
    pub fn move_selection(&mut self, delta: isize)
        requires
            old(self).wf(),
        ensures
            *final(self) == old(self).selection_moved(delta as int),
            final(self).wf(),
    {
        let focus = self.board.focus;
        let len: usize = self.panel_row_count(focus);
        let mut cursor = *self.cursors.panels.get(focus);
        move_table_selection(&mut cursor, len, delta);
        self.cursors.panels.set(focus, cursor);
    }

    /// The state with the direction of the focused panel turned.
    pub open spec fn direction_toggled(self) -> AppState {
        let focus = self.board.focus;
        AppState {
            sorting: Sorting {
                directions: self.sorting.directions.with(
                    focus,
                    self.sorting.directions.at(focus).flipped(),
                ),
                ..self.sorting
            },
            ..self
        }.with_cursor(focus, TableCursor::top())
    }

    /// Turns the direction of the focused panel.
    pub fn toggle_direction(&mut self)
        requires
            old(self).wf(),
        ensures
            *final(self) == old(self).direction_toggled(),
            final(self).wf(),
    {
        let focus = self.board.focus;
        let direction = self.sorting.directions.get(focus).toggled();
        self.sorting.directions.set(focus, direction);
        self.cursors.panels.set(focus, TableCursor::at_top());
    }

    /// The state with the sort of the focused panel moved on to the next column.
    pub open spec fn sort_cycled(self) -> AppState {
        let focus = self.board.focus;
        AppState {
            sorting: Sorting { columns: columns_after(self.sorting.columns, focus), ..self.sorting },
            ..self
        }.with_cursor(focus, TableCursor::top())
    }

    /// Moves the sort of the focused panel on to the next column.
    pub fn cycle_sort(&mut self)
        requires
            old(self).wf(),
        ensures
            *final(self) == old(self).sort_cycled(),
            final(self).wf(),
    {
        let focus = self.board.focus;
        let mut columns = self.sorting.columns;
        match focus {
            PanelId::Jobs => {
                columns.jobs = next_job_column(columns.jobs);
            },
            PanelId::Nodes => {
                columns.nodes = next_node_column(columns.nodes);
            },
            PanelId::Gpus => {
                columns.gpus = next_gpu_column(columns.gpus);
            },
            PanelId::Summary => {
                columns.accounting = next_accounting_column(columns.accounting);
            },
            PanelId::Disks => {
                columns.disks = next_disk_column(columns.disks);
            },
        }
        self.sorting.columns = columns;
        self.cursors.panels.set(focus, TableCursor::at_top());
    }

    /// Whether `post` is the state with something to be typed: a search begins with the text that the
    /// panel is searched for, and a filter with nothing.
    pub open spec fn input_begun(self, post: AppState, mode: InputMode) -> bool {
        &&& post.typing.mode == mode
        &&& post.typing.input@ == if mode == InputMode::Search {
            self.board.panels.at(self.board.focus).filter@.query
        } else {
            seq![]
        }
        &&& post == (AppState { typing: post.typing, ..self })
    }

    /// Lets something be typed.
    pub fn begin_input(&mut self, mode: InputMode)
        requires
            old(self).wf(),
        ensures
            old(self).input_begun(*final(self), mode),
            final(self).wf(),
    {
        let input = if mode == InputMode::Search {
            self.board.panels.get(self.board.focus).filter.query.clone()
        } else {
            String::new()
        };
        assert(mode != InputMode::Search ==> input@ =~= seq![]);
        self.typing = Typing { mode, input };
    }

    /// The filter that typing leads to: a search keeps the keys of the filter of the panel, and a
    /// filter replaces it.
    pub open spec fn typed_filter(self) -> FilterView {
        let before = self.board.panels.at(self.board.focus).filter@;
        if self.typing.mode == InputMode::Search {
            FilterView { query: lowercase(self.typing.input@), ..before }
        } else {
            filter_of(words(self.typing.input@))
        }
    }

    /// Whether `post` is the state after a key was typed.
    #[verifier::opaque]
    pub open spec fn typed(self, post: AppState, key: KeyPress) -> bool {
        match key.code {
            KeyCode::Esc => {
                &&& post.typing.mode == InputMode::Normal
                &&& post.typing.input@.len() == 0
                &&& post == (AppState { typing: post.typing, ..self })
            },
            KeyCode::Enter => {
                let filter = post.board.panels.at(self.board.focus).filter;
                &&& filter@ == self.typed_filter()
                &&& self.board.filter_set(post.board, filter)
                &&& post.typing.mode == InputMode::Normal
                &&& post.typing.input@.len() == 0
                &&& post == (AppState { typing: post.typing, board: post.board, ..self })
            },
            KeyCode::Backspace => {
                &&& post.typing.mode == self.typing.mode
                &&& post.typing.input@ == if self.typing.input@.len() == 0 {
                    self.typing.input@
                } else {
                    self.typing.input@.drop_last()
                }
                &&& post == (AppState { typing: post.typing, ..self })
            },
            KeyCode::Char(c) => if key.control {
                post == self
            } else {
                &&& post.typing.mode == self.typing.mode
                &&& post.typing.input@ == self.typing.input@.push(c)
                &&& post == (AppState { typing: post.typing, ..self })
            },
            _ => post == self,
        }
    }

    /// Takes in a key that is typed.
    pub fn handle_input_key(&mut self, key: KeyPress)
        requires
            old(self).wf(),
        ensures
            old(self).typed(*final(self), key),
            final(self).wf(),
    {
        proof {
            reveal(AppState::typed);
        }
        match key.code {
            KeyCode::Esc => {
                self.typing = Typing { mode: InputMode::Normal, input: String::new() };
            },
            KeyCode::Enter => {
                let mut filter = FilterExpression::parse(self.typing.input.as_str());
                if self.typing.mode == InputMode::Search {
                    filter = self.board.panels.get(self.board.focus).filter.clone();
                    filter.query = self.typing.input.as_str().to_lowercase();
                }
                assert(filter@ =~= self.typed_filter());
                self.board.set_filter(filter);
                self.typing = Typing { mode: InputMode::Normal, input: String::new() };
            },
            KeyCode::Backspace => {
                let mut chars = to_chars(self.typing.input.as_str());
                let _ = chars.pop();
                self.typing.input = to_text(chars.as_slice());
                assert(old(self).typing.input@.len() == 0 ==> self.typing.input@ =~= old(self).typing.input@);
            },
            KeyCode::Char(c) => {
                if !key.control {
                    self.typing.input.push(c);
                }
            },
            _ => {},
        }
    }

    /// Whether `post` is the state after a scan was asked for, with what is asked for.
    pub open spec fn scan_asked(
        self,
        post: AppState,
        key: Key,
        timeout: Option<Span>,
        replace: bool,
        now: Moment,
        effect: Effect,
    ) -> bool {
        &&& self.book.asked(post.book, key, timeout, replace, now)
        &&& post == (AppState {
            book: post.book,
            notes: Notes { status: post.notes.status, ..self.notes },
            ..self
        })
        &&& match self.book.answer(key, timeout, replace) {
            ScanAnswer::Running(limit) => {
                &&& effect is Nothing
                &&& post.notes.status@ == scan_text(
                    "Disk usage scan already running for "@,
                    key,
                    " ("@ + limit_text(limit) + ")"@,
                )
            },
            ScanAnswer::Start { id, replaces } => {
                &&& effect matches Effect::StartScan { key: k, scan_id, timeout: t, replaces: old_id }
                    && k@ == key && scan_id == id && t == timeout && old_id == replaces
                &&& post.notes.status@ == scan_text(
                    "Scanning disk usage for "@,
                    key,
                    " ("@ + limit_text(timeout) + ")"@,
                )
            },
        }
    }

    /// Asks for a scan.
    pub fn start_disk_usage_scan(
        &mut self,
        key: DiskUsageKey,
        scan_timeout: Option<Span>,
        replace_timed_scan: bool,
        now: Moment,
    ) -> (r: Effect)
        requires
            old(self).wf(),
        ensures
            old(self).scan_asked(*final(self), key@, scan_timeout, replace_timed_scan, now, r),
            final(self).wf(),
    {
        match self.book.ask(&key, scan_timeout, replace_timed_scan, now) {
            ScanAnswer::Running(limit) => {
                let mut after = " (".to_string();
                after.append(disk_usage_timeout_label(limit).as_str());
                after.append(")");
                self.notes.status = say_scan(
                    "Disk usage scan already running for ",
                    &key,
                    after.as_str(),
                );
                Effect::Nothing
            },
            ScanAnswer::Start { id, replaces } => {
                let mut after = " (".to_string();
                after.append(disk_usage_timeout_label(scan_timeout).as_str());
                after.append(")");
                self.notes.status = say_scan("Scanning disk usage for ", &key, after.as_str());
                Effect::StartScan { key, scan_id: id, timeout: scan_timeout, replaces }
            },
        }
    }

    /// The state with the popup of a disk open, on its first row.
    pub open spec fn with_disk_popup(self, key: DiskUsageKey) -> AppState {
        AppState {
            popups: Popups { disk: Some(key), ..self.popups },
            cursors: Cursors { usage: self.cursors.usage.selecting(Some(0)), ..self.cursors },
            ..self
        }
    }

    /// Whether `post` is the state after the popup of a disk was opened, with what is asked for: a
    /// scan, where none runs and no result is known.
    pub open spec fn disk_opened(self, post: AppState, mount: Seq<char>, now: Now, effect: Effect) -> bool {
        let user = trim(self.setup.current_user@);
        let key = (mount, user);
        &&& post.popups.disk matches Some(k) && k@ == key
        &&& if user.len() == 0 {
            &&& effect is Nothing
            &&& self.book.noted(
                post.book,
                key,
                "Current user is unknown; pass --user or set USER."@,
                now.time,
            )
            &&& post == (AppState {
                book: post.book,
                popups: Popups { disk: post.popups.disk, ..self.popups },
                ..self
            })
        } else {
            let open = self.with_disk_popup(post.popups.disk->0);
            if !self.book.cache@.contains_key(key) && !self.book.scans@.contains_key(key) {
                open.scan_asked(post, key, self.setup.disk_usage_timeout, false, now.moment, effect)
            } else {
                &&& effect is Nothing
                &&& post == (AppState {
                    notes: Notes { status: post.notes.status, ..self.notes },
                    ..open
                })
                &&& if self.book.cache@.contains_key(key) {
                    exists|stamp: Seq<char>| #[trigger]
                        shows_locally(stamp, self.book.cache@[key].captured_at) && post.notes.status@
                            == scan_text("Loaded cached disk usage for "@, key, " from "@ + stamp)
                } else {
                    post.notes.status == self.notes.status
                }
            }
        }
    }

    /// Opens the popup of a disk.
    pub fn open_disk_details(&mut self, mount: &str, now: Now) -> (r: Effect)
        requires
            old(self).wf(),
            displayable(now.time),
        ensures
            old(self).disk_opened(*final(self), mount@, now, r),
            final(self).wf(),
    {
        let chars = to_chars(self.setup.current_user.as_str());
        let trimmed = strip(chars.as_slice());
        let user = to_text(trimmed);
        let key = DiskUsageKey::new(mount, user.as_str());
        if trimmed.len() == 0 {
            self.book.note_error(
                key.clone(),
                "Current user is unknown; pass --user or set USER.",
                now.time,
            );
            self.popups.disk = Some(key);
            return Effect::Nothing;
        }
        self.popups.disk = Some(key.clone());
        self.cursors.usage.select(Some(0));
        let captured_at = match self.book.cache.get(&key) {
            Some(entry) => Some(entry.captured_at),
            None => None,
        };
        match captured_at {
            Some(at) => {
                let stamp = format_timestamp(at);
                let mut after = " from ".to_string();
                after.append(stamp.as_str());
                assert(shows_locally(stamp@, at));
                self.notes.status = say_scan("Loaded cached disk usage for ", &key, after.as_str());
                Effect::Nothing
            },
            None => {
                if self.book.scans.get(&key).is_none() {
                    let timeout = self.setup.disk_usage_timeout;
                    self.start_disk_usage_scan(key, timeout, false, now.moment)
                } else {
                    Effect::Nothing
                }
            },
        }
    }

    /// Whether `post` is the state after a row of the summary was opened: the popup of a user, on the
    /// first rows, and on the pending jobs where there are no running ones.
    pub open spec fn user_opened(self, post: AppState, user: Seq<char>) -> bool {
        if user == "All"@ || user == "Others"@ {
            post == self
        } else {
            let running = self.jobs_in_section(user, UserJobSection::Running);
            let pending = self.jobs_in_section(user, UserJobSection::Pending);
            &&& post.popups.user matches Some(u) && u@ == user
            &&& post == (AppState {
                popups: Popups { user: post.popups.user, ..self.popups },
                cursors: Cursors {
                    running: self.cursors.running.selecting(Some(0)),
                    pending: self.cursors.pending.selecting(Some(0)),
                    section: if running.len() == 0 && pending.len() > 0 {
                        UserJobSection::Pending
                    } else {
                        UserJobSection::Running
                    },
                    ..self.cursors
                },
                ..self
            })
        }
    }

    /// Opens the popup of a user.
    fn open_user(&mut self, user: String)
        requires
            old(self).wf(),
        ensures
            old(self).user_opened(*final(self), user@),
            final(self).wf(),
    {
        let chars = to_chars(user.as_str());
        if is_text(chars.as_slice(), "All") || is_text(
            chars.as_slice(),
            "Others",
        ) {
            return;
        }
        let running: usize = self.user_section_len(user.as_str(), UserJobSection::Running);
        let pending: usize = self.user_section_len(user.as_str(), UserJobSection::Pending);
        self.popups.user = Some(user);
        self.cursors.running.select(Some(0));
        self.cursors.pending.select(Some(0));
        self.cursors.section = if running == 0 && pending > 0 {
            UserJobSection::Pending
        } else {
            UserJobSection::Running
        };
    }

    /// Whether `post` is the state after the selected row of the focused panel was opened, with what
    /// is asked for.
    pub open spec fn details_opened(self, post: AppState, now: Now, effect: Effect) -> bool {
        match self.board.focus {
            PanelId::Jobs => {
                &&& effect is Nothing
                &&& match post.popups.job {
                    Some(id) => exists|job: JobView| #[trigger]
                        self.is_selected_job(Some(job)) && id@ == job.id,
                    None => self.is_selected_job(None),
                }
                &&& post == (AppState { popups: Popups { job: post.popups.job, ..self.popups }, ..self })
            },
            PanelId::Nodes => {
                &&& effect is Nothing
                &&& match post.popups.node {
                    Some(name) => exists|node: NodeView| #[trigger]
                        self.is_selected_node(Some(node)) && name@ == node.name,
                    None => self.is_selected_node(None),
                }
                &&& post == (AppState { popups: Popups { node: post.popups.node, ..self.popups }, ..self })
            },
            PanelId::Gpus => {
                &&& effect is Nothing
                &&& match post.popups.gpu {
                    Some(kind) => exists|row: GpuRowView| #[trigger]
                        self.is_selected_gpu(Some(row)) && kind@ == row.gpu_type,
                    None => self.is_selected_gpu(None),
                }
                &&& post == (AppState { popups: Popups { gpu: post.popups.gpu, ..self.popups }, ..self })
            },
            PanelId::Summary => {
                &&& effect is Nothing
                &&& {
                    ||| post == self && self.is_selected_summary(None)
                    ||| exists|row: SummaryRowView| #[trigger]
                        self.is_selected_summary(Some(row)) && self.user_opened(post, self.summary_user(row))
                }
            },
            PanelId::Disks => {
                ||| effect is Nothing && post == self && self.is_selected_disk(None)
                ||| exists|disk: DiskView| #[trigger]
                    self.is_selected_disk(Some(disk)) && self.disk_opened(post, disk.mount, now, effect)
            },
        }
    }

    /// Opens the selected row of the focused panel.
    pub fn open_focused_details(&mut self, now: Now) -> (r: Effect)
        requires
            old(self).wf(),
            displayable(now.time),
        ensures
            old(self).details_opened(*final(self), now, r),
            final(self).wf(),
    {
        match self.board.focus {
            PanelId::Jobs => {
                self.popups.job = self.selected_job_id();
                Effect::Nothing
            },
            PanelId::Nodes => {
                self.popups.node = self.selected_node_name();
                Effect::Nothing
            },
            PanelId::Gpus => {
                self.popups.gpu = self.selected_gpu_type();
                Effect::Nothing
            },
            PanelId::Summary => {
                if let Some(user) = self.selected_summary_user() {
                    self.open_user(user);
                }
                Effect::Nothing
            },
            PanelId::Disks => {
                match self.selected_disk_mount() {
                    Some(mount) => self.open_disk_details(mount.as_str(), now),
                    None => Effect::Nothing,
                }
            },
        }
    }

    /// Whether `post` is the state after a key while an action waits to be confirmed.
    pub open spec fn confirmed(self, post: AppState, code: KeyCode, effect: Effect) -> bool {
        match code {
            KeyCode::Char('y') => {
                &&& effect == Effect::RunAction(self.popups.action->0)
                &&& post.notes.status@ == "Running "@ + self.popups.action->0.action.name() + " for "@
                    + self.popups.action->0.job_id@
                &&& post == (AppState {
                    notes: Notes { status: post.notes.status, ..self.notes },
                    popups: Popups { action: None, job: None, ..self.popups },
                    ..self
                })
            },
            KeyCode::Char('n') | KeyCode::Esc => {
                &&& effect is Nothing
                &&& post == (AppState { popups: Popups { action: None, ..self.popups }, ..self })
            },
            _ => effect is Nothing && post == self,
        }
    }

    /// Takes in a key while an action waits to be confirmed.
    pub fn handle_confirmation_key(&mut self, code: KeyCode) -> (r: Effect)
        requires
            old(self).wf(),
            old(self).popups.action is Some,
        ensures
            old(self).confirmed(*final(self), code, r),
            final(self).wf(),
    {
        match code {
            KeyCode::Char('y') => {
                let mut taken: Option<PendingAction> = None;
                std::mem::swap(&mut self.popups.action, &mut taken);
                match taken {
                    Some(pending) => {
                        let mut status = "Running ".to_string();
                        status.append(pending.action.label());
                        status.append(" for ");
                        status.append(pending.job_id.as_str());
                        self.notes.status = status;
                        self.popups.job = None;
                        Effect::RunAction(pending)
                    },
                    None => Effect::Nothing,
                }
            },
            KeyCode::Char('n') | KeyCode::Esc => {
                self.popups.action = None;
                Effect::Nothing
            },
            _ => Effect::Nothing,
        }
    }

    /// Whether `post` is the state after an action on the job of the popup was asked for.
    pub open spec fn action_queued(self, post: AppState, action: JobAction) -> bool {
        &&& post.popups.action matches Some(pending) && pending.action == action && pending.job_id@
            == self.popups.job->0@
        &&& post == (AppState { popups: Popups { action: post.popups.action, ..self.popups }, ..self })
    }

    /// Whether `post` is the state after a key in the popup of a job.
    pub open spec fn job_popup_key(self, post: AppState, code: KeyCode) -> bool {
        match code {
            KeyCode::Esc | KeyCode::Char('q') => post == (AppState {
                popups: Popups { job: None, ..self.popups },
                ..self
            }),
            KeyCode::Char('c') => self.action_queued(post, JobAction::Cancel),
            KeyCode::Char('h') => self.action_queued(post, JobAction::Hold),
            KeyCode::Char('u') => self.action_queued(post, JobAction::Release),
            KeyCode::Char('r') => self.action_queued(post, JobAction::Requeue),
            _ => post == self,
        }
    }

    /// Asks for an action on the job of the popup, to be confirmed.
    fn queue_job_action(&mut self, action: JobAction)
        requires
            old(self).wf(),
            old(self).popups.job is Some,
        ensures
            old(self).action_queued(*final(self), action),
            final(self).wf(),
    {
        let job_id = match &self.popups.job {
            Some(id) => id.clone(),
            None => String::new(),
        };
        self.popups.action = Some(PendingAction { action, job_id });
    }

    /// Takes in a key in the popup of a job.
    pub fn handle_details_key(&mut self, code: KeyCode)
        requires
            old(self).wf(),
            old(self).popups.job is Some,
        ensures
            old(self).job_popup_key(*final(self), code),
            final(self).wf(),
    {
        match code {
            KeyCode::Esc | KeyCode::Char('q') => {
                self.popups.job = None;
            },
            KeyCode::Char('c') => {
                self.queue_job_action(JobAction::Cancel);
            },
            KeyCode::Char('h') => {
                self.queue_job_action(JobAction::Hold);
            },
            KeyCode::Char('u') => {
                self.queue_job_action(JobAction::Release);
            },
            KeyCode::Char('r') => {
                self.queue_job_action(JobAction::Requeue);
            },
            _ => {},
        }
    }

    /// How many jobs the section with the focus has.
    pub open spec fn active_jobs(self) -> nat {
        match self.popups.user {
            Some(user) => self.jobs_in_section(user@, self.cursors.section).len(),
            None => 0,
        }
    }

    /// The state with another cursor for the section with the focus.
    pub open spec fn with_active_cursor(self, cursor: TableCursor) -> AppState {
        AppState { cursors: self.cursors.with_active(cursor), ..self }
    }

    /// The state with the selection of the section with the focus moved, where the popup of a user
    /// is open.
    pub open spec fn user_selection_moved(self, delta: int) -> AppState {
        if self.popups.user is None {
            self
        } else {
            self.with_active_cursor(self.cursors.active().moved(self.active_jobs() as usize, delta))
        }
    }

    /// The state with a row of the section with the focus selected, or the last one, where the popup
    /// of a user is open.
    pub open spec fn user_selection_set(self, row: int) -> AppState {
        let len = self.active_jobs();
        if self.popups.user is None {
            self
        } else {
            self.with_active_cursor(
                self.cursors.active().selecting(
                    if len == 0 {
                        None
                    } else {
                        Some(least(row, len - 1) as usize)
                    },
                ),
            )
        }
    }

    /// Whether `post` is the state after a key in the popup of a user.
    #[verifier::opaque]
    pub open spec fn user_popup_key(self, post: AppState, code: KeyCode) -> bool {
        match code {
            KeyCode::Esc | KeyCode::Char('q') => post == (AppState {
                popups: Popups { user: None, ..self.popups },
                ..self
            }),
            KeyCode::Tab | KeyCode::BackTab => post == (AppState {
                cursors: Cursors { section: self.cursors.section.other(), ..self.cursors },
                ..self
            }),
            KeyCode::Char('s') => post == (AppState {
                sorting: Sorting {
                    columns: SortColumns {
                        user_jobs: user_job_column_after(self.sorting.columns.user_jobs),
                        ..self.sorting.columns
                    },
                    ..self.sorting
                },
                ..self
            }).with_active_cursor(TableCursor::top()),
            KeyCode::Char('d') => post == (AppState {
                sorting: Sorting {
                    user_direction: self.sorting.user_direction.flipped(),
                    ..self.sorting
                },
                ..self
            }).with_active_cursor(TableCursor::top()),
            KeyCode::Down | KeyCode::Char('j') => post == self.user_selection_moved(1),
            KeyCode::Up | KeyCode::Char('k') => post == self.user_selection_moved(-1),
            KeyCode::PageDown => post == self.user_selection_moved(10),
            KeyCode::PageUp => post == self.user_selection_moved(-10),
            KeyCode::Home => post == self.user_selection_set(0),
            KeyCode::End => post == self.user_selection_set(self.active_jobs() - 1),
            _ => post == self,
        }
    }

    /// How many jobs the section with the focus has.
    fn active_user_details_len(&self) -> (r: usize)
        ensures
            r == self.active_jobs(),
    {
        match &self.popups.user {
            Some(user) => self.user_section_len(user.as_str(), self.cursors.section),
            None => 0,
        }
    }

    /// Moves the selection of the section with the focus, where the popup of a user is open.
    pub fn move_user_details_selection(&mut self, delta: isize)
        requires
            old(self).wf(),
        ensures
            *final(self) == old(self).user_selection_moved(delta as int),
            final(self).wf(),
    {
        if self.popups.user.is_none() {
            return;
        }
        let len: usize = self.active_user_details_len();
        let mut cursor = self.cursors.get_active();
        move_table_selection(&mut cursor, len, delta);
        self.cursors.set_active(cursor);
    }

    /// Selects a row of the section with the focus, or the last one, where the popup of a user is
    /// open.
    fn set_user_details_selection(&mut self, row: usize)
        requires
            old(self).wf(),
        ensures
            *final(self) == old(self).user_selection_set(row as int),
            final(self).wf(),
    {
        if self.popups.user.is_none() {
            return;
        }
        let len: usize = self.active_user_details_len();
        let mut cursor = self.cursors.get_active();
        if len == 0 {
            cursor.select(None);
        } else if row <= len - 1 {
            cursor.select(Some(row));
        } else {
            cursor.select(Some(len - 1));
        }
        self.cursors.set_active(cursor);
    }

    /// Takes in a key in the popup of a user.
    pub fn handle_user_details_key(&mut self, code: KeyCode)
        requires
            old(self).wf(),
        ensures
            old(self).user_popup_key(*final(self), code),
            final(self).wf(),
    {
        proof {
            reveal(AppState::user_popup_key);
        }
        match code {
            KeyCode::Esc | KeyCode::Char('q') => {
                self.popups.user = None;
            },
            KeyCode::Tab | KeyCode::BackTab => {
                self.cursors.section = self.cursors.section.toggled();
            },
            KeyCode::Char('s') => {
                self.sorting.columns.user_jobs = next_user_job_column(self.sorting.columns.user_jobs);
                self.cursors.set_active(TableCursor::at_top());
            },
            KeyCode::Char('d') => {
                self.sorting.user_direction = self.sorting.user_direction.toggled();
                self.cursors.set_active(TableCursor::at_top());
            },
            KeyCode::Down | KeyCode::Char('j') => {
                self.move_user_details_selection(1);
            },
            KeyCode::Up | KeyCode::Char('k') => {
                self.move_user_details_selection(-1);
            },
            KeyCode::PageDown => {
                self.move_user_details_selection(10);
            },
            KeyCode::PageUp => {
                self.move_user_details_selection(-10);
            },
            KeyCode::Home => {
                self.set_user_details_selection(0);
            },
            KeyCode::End => {
                let len: usize = self.active_user_details_len();
                self.set_user_details_selection(len.saturating_sub(1));
            },
            _ => {},
        }
    }

    /// The state with another cursor for the rows of disk usage.
    pub open spec fn with_usage_cursor(self, cursor: TableCursor) -> AppState {
        AppState { cursors: Cursors { usage: cursor, ..self.cursors }, ..self }
    }

    /// The state with the selection of the rows of disk usage moved.
    pub open spec fn usage_selection_moved(self, delta: int) -> AppState {
        self.with_usage_cursor(self.cursors.usage.moved(self.active_usage().len() as usize, delta))
    }

    /// Whether `post` is the state after a key in the popup of a disk, with what is asked for.
    #[verifier::opaque]
    pub open spec fn disk_popup_key(self, post: AppState, code: KeyCode, now: Now, effect: Effect) -> bool {
        match code {
            KeyCode::Char('u') | KeyCode::Char('r') => self.scan_asked(
                post,
                self.popups.disk->0@,
                self.setup.disk_usage_timeout,
                false,
                now.moment,
                effect,
            ),
            KeyCode::Char('n') => self.scan_asked(
                post,
                self.popups.disk->0@,
                None,
                true,
                now.moment,
                effect,
            ),
            KeyCode::Esc | KeyCode::Char('q') => effect is Nothing && post == (AppState {
                popups: Popups { disk: None, ..self.popups },
                ..self
            }),
            KeyCode::Char('s') => effect is Nothing && post == (AppState {
                sorting: Sorting {
                    columns: SortColumns {
                        usage: disk_usage_column_after(self.sorting.columns.usage),
                        ..self.sorting.columns
                    },
                    ..self.sorting
                },
                ..self
            }).with_usage_cursor(TableCursor::top()),
            KeyCode::Char('d') => effect is Nothing && post == (AppState {
                sorting: Sorting {
                    usage_direction: self.sorting.usage_direction.flipped(),
                    ..self.sorting
                },
                ..self
            }).with_usage_cursor(TableCursor::top()),
            KeyCode::Down | KeyCode::Char('j') => effect is Nothing && post
                == self.usage_selection_moved(1),
            KeyCode::Up | KeyCode::Char('k') => effect is Nothing && post
                == self.usage_selection_moved(-1),
            KeyCode::PageDown => effect is Nothing && post == self.usage_selection_moved(10),
            KeyCode::PageUp => effect is Nothing && post == self.usage_selection_moved(-10),
            KeyCode::Home => effect is Nothing && post == self.with_usage_cursor(
                self.cursors.usage.selecting(Some(0)),
            ),
            KeyCode::End => effect is Nothing && post == self.with_usage_cursor(
                self.cursors.usage.selecting(
                    Some(
                        if self.active_usage().len() == 0 {
                            0
                        } else {
                            (self.active_usage().len() - 1) as usize
                        },
                    ),
                ),
            ),
            _ => effect is Nothing && post == self,
        }
    }

    /// Moves the selection of the rows of disk usage.
    pub fn move_disk_usage_selection(&mut self, delta: isize)
        requires
            old(self).wf(),
        ensures
            *final(self) == old(self).usage_selection_moved(delta as int),
            final(self).wf(),
    {
        let len: usize = self.active_disk_usage_len();
        move_table_selection(&mut self.cursors.usage, len, delta);
    }

    /// Takes in a key in the popup of a disk.
    pub fn handle_disk_details_key(&mut self, code: KeyCode, now: Now) -> (r: Effect)
        requires
            old(self).wf(),
            old(self).popups.disk is Some,
        ensures
            old(self).disk_popup_key(*final(self), code, now, r),
            final(self).wf(),
    {
        proof {
            reveal(AppState::disk_popup_key);
        }
        match code {
            KeyCode::Char('u') | KeyCode::Char('r') => {
                let timeout = self.setup.disk_usage_timeout;
                self.rescan(timeout, false, now.moment)
            },
            KeyCode::Char('n') => self.rescan(None, true, now.moment),
            KeyCode::Esc | KeyCode::Char('q') => {
                self.popups.disk = None;
                Effect::Nothing
            },
            KeyCode::Char('s') => {
                self.sorting.columns.usage = next_disk_usage_column(self.sorting.columns.usage);
                self.cursors.usage = TableCursor::at_top();
                Effect::Nothing
            },
            KeyCode::Char('d') => {
                self.sorting.usage_direction = self.sorting.usage_direction.toggled();
                self.cursors.usage = TableCursor::at_top();
                Effect::Nothing
            },
            KeyCode::Down | KeyCode::Char('j') => {
                self.move_disk_usage_selection(1);
                Effect::Nothing
            },
            KeyCode::Up | KeyCode::Char('k') => {
                self.move_disk_usage_selection(-1);
                Effect::Nothing
            },
            KeyCode::PageDown => {
                self.move_disk_usage_selection(10);
                Effect::Nothing
            },
            KeyCode::PageUp => {
                self.move_disk_usage_selection(-10);
                Effect::Nothing
            },
            KeyCode::Home => {
                self.cursors.usage.select(Some(0));
                Effect::Nothing
            },
            KeyCode::End => {
                let len: usize = self.active_disk_usage_len();
                self.cursors.usage.select(Some(len.saturating_sub(1)));
                Effect::Nothing
            },
            _ => Effect::Nothing,
        }
    }

    /// Asks for a scan of the disk of the popup.
    fn rescan(&mut self, timeout: Option<Span>, replace: bool, now: Moment) -> (r: Effect)
        requires
            old(self).wf(),
            old(self).popups.disk is Some,
        ensures
            old(self).scan_asked(*final(self), old(self).popups.disk->0@, timeout, replace, now, r),
            final(self).wf(),
    {
        let key = match &self.popups.disk {
            Some(key) => key.clone(),
            None => DiskUsageKey::new("", ""),
        };
        self.start_disk_usage_scan(key, timeout, replace, now)
    }

    /// The state with other words in the status line.
    pub open spec fn says(self, post: AppState, status: Seq<char>) -> bool {
        &&& post.notes.status@ == status
        &&& post == (AppState { notes: Notes { status: post.notes.status, ..self.notes }, ..self })
    }

    /// Whether `post` is the state after a key over the panels, with what is asked for.
    #[verifier::opaque]
    pub open spec fn command_given(self, post: AppState, code: KeyCode, now: Now, effect: Effect) -> bool {
        match code {
            KeyCode::Char('q') => effect is Quit && post == self,
            KeyCode::Char('r') => effect is Refresh && self.says(post, "Manual refresh requested"@),
            KeyCode::Enter => self.details_opened(post, now, effect),
            _ => effect is Nothing && self.panel_key(post, code),
        }
    }

    /// Whether `post` is the state after a key that changes the panels.
    #[verifier::opaque]
    pub open spec fn panel_key(self, post: AppState, code: KeyCode) -> bool {
        match code {
            KeyCode::Char('?') => post == (AppState { popups: Popups { help: true, ..self.popups }, ..self }),
            KeyCode::Tab => post == (AppState {
                board: Board { focus: self.board.after_focus(), ..self.board },
                ..self
            }),
            KeyCode::BackTab => post == (AppState {
                board: Board { focus: self.board.before_focus(), ..self.board },
                ..self
            }),
            KeyCode::Char('1') => post == self.with_focus(PanelId::Jobs),
            KeyCode::Char('2') => post == self.with_focus(PanelId::Nodes),
            KeyCode::Char('3') => post == self.with_focus(PanelId::Gpus),
            KeyCode::Char('4') => post == self.with_focus(PanelId::Summary),
            KeyCode::Char('5') => post == self.with_focus(PanelId::Disks),
            KeyCode::Char('/') => self.input_begun(post, InputMode::Search),
            KeyCode::Char('f') => self.input_begun(post, InputMode::Filter),
            KeyCode::Char('s') => post == self.sort_cycled(),
            KeyCode::Char('d') => post == self.direction_toggled(),
            KeyCode::Char('c') => self.board.column_toggled(post.board) && post == (AppState {
                board: post.board,
                ..self
            }),
            KeyCode::Char('x') => {
                if self.board.shown_count() <= 1 {
                    self.says(post, "At least one panel must remain visible"@)
                } else {
                    self.board.hidden(post.board, true) && post == (AppState {
                        board: post.board,
                        ..self
                    })
                }
            },
            KeyCode::Char('v') => match self.board.first_hidden() {
                Some(panel) => post == (AppState { board: self.board.with_shown(panel), ..self }),
                None => self.says(post, "All panels are already visible"@),
            },
            KeyCode::Char('[') => post == (AppState {
                board: Board { left_percent: resized(self.board.left_percent, false), ..self.board },
                ..self
            }),
            KeyCode::Char(']') => post == (AppState {
                board: Board { left_percent: resized(self.board.left_percent, true), ..self.board },
                ..self
            }),
            KeyCode::Char('{') => post == (AppState {
                board: Board { top_percent: resized(self.board.top_percent, false), ..self.board },
                ..self
            }),
            KeyCode::Char('}') => post == (AppState {
                board: Board { top_percent: resized(self.board.top_percent, true), ..self.board },
                ..self
            }),
            KeyCode::Char('t') => {
                let name = self.skin.name.after();
                &&& post.notes.status@ == "Theme: "@ + name.shown()
                &&& post == (AppState {
                    skin: Skin { name, theme: theme_with(palette_of(name)) },
                    notes: Notes { status: post.notes.status, ..self.notes },
                    ..self
                })
            },
            KeyCode::Down | KeyCode::Char('j') => post == self.selection_moved(1),
            KeyCode::Up | KeyCode::Char('k') => post == self.selection_moved(-1),
            _ => post == self,
        }
    }

    /// Changes the theme to the next one.
    fn cycle_theme(&mut self)
        requires
            old(self).wf(),
        ensures
            old(self).panel_key(*final(self), KeyCode::Char('t')),
            final(self).wf(),
    {
        proof {
            reveal(AppState::panel_key);
        }
        let name = self.skin.name.cycle();
        self.skin = Skin { name, theme: Theme::from_name(name) };
        let mut status = "Theme: ".to_string();
        status.append(name.label());
        self.notes.status = status;
    }

    /// Hides the focused panel, or says why not.
    fn hide_focused(&mut self)
        requires
            old(self).wf(),
        ensures
            old(self).panel_key(*final(self), KeyCode::Char('x')),
            final(self).wf(),
    {
        proof {
            reveal(AppState::panel_key);
        }
        if !self.board.hide_focused_panel() {
            self.notes.status = "At least one panel must remain visible".to_string();
        }
    }

    /// Shows a hidden panel, or says that there is none.
    fn show_hidden(&mut self)
        requires
            old(self).wf(),
        ensures
            old(self).panel_key(*final(self), KeyCode::Char('v')),
            final(self).wf(),
    {
        proof {
            reveal(AppState::panel_key);
        }
        if !self.board.show_next_hidden_panel() {
            self.notes.status = "All panels are already visible".to_string();
        }
    }

    /// Takes in a key that changes the panels.
    fn handle_panel_key(&mut self, code: KeyCode)
        requires
            old(self).wf(),
        ensures
            old(self).panel_key(*final(self), code),
            final(self).wf(),
    {
        proof {
            reveal(AppState::panel_key);
        }
        match code {
            KeyCode::Char('?') => {
                self.popups.help = true;
            },
            KeyCode::Tab => {
                self.board.focus_next();
            },
            KeyCode::BackTab => {
                self.board.focus_previous();
            },
            KeyCode::Char('1') => {
                self.board.focus_visible(PanelId::Jobs);
            },
            KeyCode::Char('2') => {
                self.board.focus_visible(PanelId::Nodes);
            },
            KeyCode::Char('3') => {
                self.board.focus_visible(PanelId::Gpus);
            },
            KeyCode::Char('4') => {
                self.board.focus_visible(PanelId::Summary);
            },
            KeyCode::Char('5') => {
                self.board.focus_visible(PanelId::Disks);
            },
            KeyCode::Char('/') => {
                self.begin_input(InputMode::Search);
            },
            KeyCode::Char('f') => {
                self.begin_input(InputMode::Filter);
            },
            KeyCode::Char('s') => {
                self.cycle_sort();
            },
            KeyCode::Char('d') => {
                self.toggle_direction();
            },
            KeyCode::Char('c') => {
                self.board.toggle_column();
            },
            KeyCode::Char('x') => {
                self.hide_focused();
            },
            KeyCode::Char('v') => {
                self.show_hidden();
            },
            KeyCode::Char('[') => {
                self.board.resize_width(false);
            },
            KeyCode::Char(']') => {
                self.board.resize_width(true);
            },
            KeyCode::Char('{') => {
                self.board.resize_height(false);
            },
            KeyCode::Char('}') => {
                self.board.resize_height(true);
            },
            KeyCode::Char('t') => {
                self.cycle_theme();
            },
            KeyCode::Down | KeyCode::Char('j') => {
                self.move_selection(1);
            },
            KeyCode::Up | KeyCode::Char('k') => {
                self.move_selection(-1);
            },
            _ => {},
        }
    }

    /// Takes in a key over the panels.
    fn handle_command_key(&mut self, code: KeyCode, now: Now) -> (r: Effect)
        requires
            old(self).wf(),
            displayable(now.time),
        ensures
            old(self).command_given(*final(self), code, now, r),
            final(self).wf(),
    {
        proof {
            reveal(AppState::command_given);
        }
        match code {
            KeyCode::Char('q') => Effect::Quit,
            KeyCode::Char('r') => {
                self.notes.status = "Manual refresh requested".to_string();
                Effect::Refresh
            },
            KeyCode::Enter => self.open_focused_details(now),
            _ => {
                self.handle_panel_key(code);
                Effect::Nothing
            },
        }
    }

    /// Whether `post` is the state after a key, with what is asked for. What lies on top takes the
    /// key: a confirmation, the help, typing, a popup, and else the panels.
    pub open spec fn pressed(self, post: AppState, key: KeyPress, now: Now, effect: Effect) -> bool {
        if key.released {
            effect is Nothing && post == self
        } else if self.popups.action is Some {
            self.confirmed(post, key.code, effect)
        } else if self.popups.help {
            effect is Nothing && post == (AppState {
                popups: Popups {
                    help: !(key.code == KeyCode::Esc || key.code == KeyCode::Char('?')),
                    ..self.popups
                },
                ..self
            })
        } else if self.typing.mode != InputMode::Normal {
            effect is Nothing && self.typed(post, key)
        } else if self.popups.node is Some {
            effect is Nothing && post == if key.code == KeyCode::Esc || key.code == KeyCode::Char('q') {
                AppState { popups: Popups { node: None, ..self.popups }, ..self }
            } else {
                self
            }
        } else if self.popups.gpu is Some {
            effect is Nothing && post == if key.code == KeyCode::Esc || key.code == KeyCode::Char('q') {
                AppState { popups: Popups { gpu: None, ..self.popups }, ..self }
            } else {
                self
            }
        } else if self.popups.user is Some {
            effect is Nothing && self.user_popup_key(post, key.code)
        } else if self.popups.disk is Some {
            self.disk_popup_key(post, key.code, now, effect)
        } else if self.popups.job is Some {
            effect is Nothing && self.job_popup_key(post, key.code)
        } else {
            self.command_given(post, key.code, now, effect)
        }
    }

    /// Takes in a key; says what is asked for.
    pub fn handle_key(&mut self, key: KeyPress, now: Now) -> (r: Effect)
        requires
            old(self).wf(),
            displayable(now.time),
        ensures
            old(self).pressed(*final(self), key, now, r),
            final(self).wf(),
    {
        if key.released {
            return Effect::Nothing;
        }
        if self.popups.action.is_some() {
            return self.handle_confirmation_key(key.code);
        }
        if self.popups.help {
            match key.code {
                KeyCode::Esc | KeyCode::Char('?') => {
                    self.popups.help = false;
                },
                _ => {},
            }
            return Effect::Nothing;
        }
        if self.typing.mode != InputMode::Normal {
            self.handle_input_key(key);
            return Effect::Nothing;
        }
        if self.popups.node.is_some() {
            match key.code {
                KeyCode::Esc | KeyCode::Char('q') => {
                    self.popups.node = None;
                },
                _ => {},
            }
            return Effect::Nothing;
        }
        if self.popups.gpu.is_some() {
            match key.code {
                KeyCode::Esc | KeyCode::Char('q') => {
                    self.popups.gpu = None;
                },
                _ => {},
            }
            return Effect::Nothing;
        }
        if self.popups.user.is_some() {
            self.handle_user_details_key(key.code);
            return Effect::Nothing;
        }
        if self.popups.disk.is_some() {
            return self.handle_disk_details_key(key.code, now);
        }
        if self.popups.job.is_some() {
            self.handle_details_key(key.code);
            return Effect::Nothing;
        }
        self.handle_command_key(key.code, now)
    }
}

/// Whether a step kept the snapshot, the settings and the places on the screen, and did not touch an
/// action that waits.
spec fn keeps(pre: AppState, post: AppState, effect: Effect) -> bool {
    &&& post.snapshot == pre.snapshot
    &&& post.setup == pre.setup
    &&& post.hits == pre.hits
    &&& post.popups.action == pre.popups.action
    &&& !(effect is RunAction)
}

proof fn lemma_user_popup_keeps(pre: AppState, post: AppState, code: KeyCode)
    requires
        pre.user_popup_key(post, code),
    ensures
        keeps(pre, post, Effect::Nothing),
{
    reveal(AppState::user_popup_key);
}

proof fn lemma_disk_popup_keeps(pre: AppState, post: AppState, code: KeyCode, now: Now, effect: Effect)
    requires
        pre.disk_popup_key(post, code, now, effect),
    ensures
        keeps(pre, post, effect),
        !(effect is Quit),
{
    reveal(AppState::disk_popup_key);
}

proof fn lemma_typed_keeps(pre: AppState, post: AppState, key: KeyPress)
    requires
        pre.typed(post, key),
    ensures
        keeps(pre, post, Effect::Nothing),
{
    reveal(AppState::typed);
}

proof fn lemma_panel_key_keeps(pre: AppState, post: AppState, code: KeyCode)
    requires
        pre.panel_key(post, code),
    ensures
        keeps(pre, post, Effect::Nothing),
{
    reveal(AppState::panel_key);
}

proof fn lemma_details_keep(pre: AppState, post: AppState, now: Now, effect: Effect)
    requires
        pre.details_opened(post, now, effect),
    ensures
        keeps(pre, post, effect),
        !(effect is Quit),
{
}

proof fn lemma_command_keeps(pre: AppState, post: AppState, code: KeyCode, now: Now, effect: Effect)
    requires
        pre.command_given(post, code, now, effect),
    ensures
        keeps(pre, post, effect),
        effect is Quit ==> code == KeyCode::Char('q'),
{
    reveal(AppState::command_given);
    match code {
        KeyCode::Char('q') => {},
        KeyCode::Char('r') => {},
        KeyCode::Enter => {
            lemma_details_keep(pre, post, now, effect);
        },
        _ => {
            lemma_panel_key_keeps(pre, post, code);
        },
    }
}

/// What a key does outside a confirmation and the popup of a job.
proof fn lemma_pressed(pre: AppState, post: AppState, key: KeyPress, now: Now, effect: Effect)
    requires
        pre.pressed(post, key, now, effect),
        key.released || pre.popups.action is None,
    ensures
        keeps(pre, post, effect) || (!key.released && pre.popups.job is Some && pre.job_popup_key(
            post,
            key.code,
        ) && effect is Nothing),
        effect is Quit ==> key.code == KeyCode::Char('q') && pre.typing.mode == InputMode::Normal
            && pre.popups == no_popups(),
{
    if key.released {
    } else if pre.popups.help {
    } else if pre.typing.mode != InputMode::Normal {
        lemma_typed_keeps(pre, post, key);
    } else if pre.popups.node is Some {
    } else if pre.popups.gpu is Some {
    } else if pre.popups.user is Some {
        lemma_user_popup_keeps(pre, post, key.code);
    } else if pre.popups.disk is Some {
        lemma_disk_popup_keeps(pre, post, key.code, now, effect);
    } else if pre.popups.job is Some {
    } else {
        lemma_command_keeps(pre, post, key.code, now, effect);
    }
}

/// Slurm is changed only after a confirmation: a key asks for an action on a job only where that
/// action waits to be confirmed and the key is `y`.
pub proof fn law_action_needs_confirmation(
    pre: AppState,
    post: AppState,
    key: KeyPress,
    now: Now,
    effect: Effect,
)
    requires
        pre.pressed(post, key, now, effect),
        effect is RunAction,
    ensures
        pre.popups.action == Some(effect->RunAction_0),
        key.code == KeyCode::Char('y'),
        !key.released,
        post.popups.action is None,
{
    if key.released || pre.popups.action is None {
        lemma_pressed(pre, post, key, now, effect);
    }
}

/// An action comes to wait for a confirmation only by a key in the popup of the job that it is on, and
/// it is the action of that key: `c` cancels, `h` holds, `u` releases and `r` requeues.
pub proof fn law_action_is_asked_for(
    pre: AppState,
    post: AppState,
    key: KeyPress,
    now: Now,
    effect: Effect,
)
    requires
        pre.pressed(post, key, now, effect),
        pre.popups.action is None,
        post.popups.action is Some,
    ensures
        pre.popups.job is Some,
        post.popups.action->0.job_id@ == pre.popups.job->0@,
        key.code == KeyCode::Char('c') || key.code == KeyCode::Char('h') || key.code == KeyCode::Char('u')
            || key.code == KeyCode::Char('r'),
        key.code == KeyCode::Char('c') ==> post.popups.action->0.action == JobAction::Cancel,
        key.code == KeyCode::Char('h') ==> post.popups.action->0.action == JobAction::Hold,
        key.code == KeyCode::Char('u') ==> post.popups.action->0.action == JobAction::Release,
        key.code == KeyCode::Char('r') ==> post.popups.action->0.action == JobAction::Requeue,
        effect is Nothing,
{
    lemma_pressed(pre, post, key, now, effect);
}

/// A key that is released does nothing, and no key changes the snapshot, the settings or the places
/// on the screen.
pub proof fn law_keys_keep_data(pre: AppState, post: AppState, key: KeyPress, now: Now, effect: Effect)
    requires
        pre.pressed(post, key, now, effect),
    ensures
        key.released ==> post == pre && effect is Nothing,
        post.snapshot == pre.snapshot,
        post.setup == pre.setup,
        post.hits == pre.hits,
{
    if key.released || pre.popups.action is None {
        lemma_pressed(pre, post, key, now, effect);
    }
}

/// The dashboard ends only by `q` over the panels, never from a popup or while typing.
pub proof fn law_quit_over_panels(pre: AppState, post: AppState, key: KeyPress, now: Now, effect: Effect)
    requires
        pre.pressed(post, key, now, effect),
        effect is Quit,
    ensures
        key.code == KeyCode::Char('q'),
        pre.typing.mode == InputMode::Normal,
        pre.popups == no_popups(),
{
    if key.released || pre.popups.action is None {
        lemma_pressed(pre, post, key, now, effect);
    }
}

} // verus!
