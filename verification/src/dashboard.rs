//! The state of the dashboard, what it shows, and how messages change it.

use vstd::prelude::*;

use crate::board::is_fresh_panel;
use crate::board::Board;
use crate::book::cache_dated;
use crate::book::kept_rows;
use crate::book::DiskUsageCacheEntry;
use crate::book::Key;
use crate::book::ScanBook;
use crate::clock::Span;
use crate::clock::Timestamp;
use crate::columns::DiskColumn;
use crate::columns::DiskUsageColumn;
use crate::columns::GpuColumn;
use crate::columns::UserJobColumn;
use crate::columns::UserJobSection;
use crate::cursor::clamp_selection;
use crate::cursor::TableCursor;
use crate::events::HeaderHit;
use crate::events::InputMode;
use crate::events::ModalHeaderHit;
use crate::events::ModalTableHit;
use crate::events::PendingAction;
use crate::events::RowClick;
use crate::events::UiMessage;
use crate::grid::no_areas;
use crate::grid::PanelAreas;
use crate::grid::PerPanel;
use crate::keyed::DiskUsageKey;
use crate::keyed::UsageMap;
use crate::listing::owners_fit;
use crate::listing::owners_in_range;
use crate::model::checked_slurm_time;
use crate::model::opt_view;
use crate::model::slurm_seconds;
use crate::model::views;
use crate::model::DiskUserUsage;
use crate::model::JobView;
use crate::model::NodeView;
use crate::model::UsageView;
use crate::number::decimal;
use crate::number::decimal_chars;
use crate::number::show;
use crate::panel::PanelId;
use crate::slurm::SnapshotEnvelope;
use crate::snapshot::ClusterSnapshot;
use crate::sorting::AccountingColumn;
use crate::sorting::JobColumn;
use crate::sorting::NodeColumn;
use crate::stamp::displayable;
use crate::text::join;
use crate::text::join_texts;
use crate::text::strings;
use crate::text::to_text;
use crate::theme::palette_of;
use crate::theme::theme_with;
use crate::theme::Theme;
use crate::theme::ThemeName;
use crate::units::SortDirection;

verus! {

/// What the dashboard was started with.
#[derive(Debug)]
pub struct Setup {
    pub current_user: String,
    /// The seconds between refreshes, as they are shown.
    pub refresh_label: String,
    pub disk_usage_timeout: Option<Span>,
}

/// What the status line says.
#[derive(Debug)]
pub struct Notes {
    pub status: String,
    pub last_error: Option<String>,
}

/// What is being typed.
#[derive(Debug)]
pub struct Typing {
    pub mode: InputMode,
    pub input: String,
}

/// What lies over the panels.
#[derive(Debug)]
pub struct Popups {
    pub help: bool,
    pub job: Option<String>,
    pub node: Option<String>,
    pub gpu: Option<String>,
    pub user: Option<String>,
    pub disk: Option<DiskUsageKey>,
    pub action: Option<PendingAction>,
}

/// The columns by which the tables are sorted.
#[derive(Debug, Clone, Copy, PartialEq, Eq, Structural)]
pub struct SortColumns {
    pub jobs: JobColumn,
    pub nodes: NodeColumn,
    pub gpus: GpuColumn,
    pub disks: DiskColumn,
    pub accounting: AccountingColumn,
    pub user_jobs: UserJobColumn,
    pub usage: DiskUsageColumn,
}

/// How the tables are sorted.
#[derive(Debug)]
pub struct Sorting {
    pub columns: SortColumns,
    pub directions: PerPanel<SortDirection>,
    pub user_direction: SortDirection,
    pub usage_direction: SortDirection,
}

/// The selected rows of the tables.
#[derive(Debug)]
pub struct Cursors {
    pub panels: PerPanel<TableCursor>,
    pub running: TableCursor,
    pub pending: TableCursor,
    pub usage: TableCursor,
    pub section: UserJobSection,
}

/// Where on the screen things are, and what was clicked last.
#[derive(Debug)]
pub struct Hits {
    pub areas: PanelAreas,
    pub headers: Vec<HeaderHit>,
    pub modal_headers: Vec<ModalHeaderHit>,
    pub modal_tables: Vec<ModalTableHit>,
    pub last_click: Option<RowClick>,
}

/// How the dashboard looks.
#[derive(Debug, Clone, Copy, PartialEq, Eq, Structural)]
pub struct Skin {
    pub name: ThemeName,
    pub theme: Theme,
}

/// The state of the dashboard.
#[derive(Debug)]
pub struct AppState {
    pub setup: Setup,
    pub snapshot: Option<SnapshotEnvelope>,
    pub notes: Notes,
    pub board: Board,
    pub typing: Typing,
    pub popups: Popups,
    pub sorting: Sorting,
    pub cursors: Cursors,
    pub book: ScanBook,
    pub hits: Hits,
    pub skin: Skin,
}

/// Whether the numbers that tables show and compare of a job fit.
pub open spec fn job_fits(job: JobView) -> bool {
    &&& job.gpu_count() <= u64::MAX
    &&& slurm_seconds(job.time_used) <= u64::MAX
    &&& slurm_seconds(job.time_limit) <= u64::MAX
}

/// Whether the numbers that tables show and compare of a node fit.
pub open spec fn node_fits(node: NodeView) -> bool {
    node.gpu_count() <= u64::MAX && node.gpu_used() <= u64::MAX
}

/// Whether every number that the dashboard shows or compares of a snapshot fits.
pub open spec fn showable(s: ClusterSnapshot) -> bool {
    &&& forall|i: int| 0 <= i < s.jobs@.len() ==> job_fits(#[trigger] views(s.jobs@)[i])
    &&& forall|i: int| 0 <= i < s.nodes@.len() ==> node_fits(#[trigger] views(s.nodes@)[i])
    &&& owners_fit(s.job_summary.users@)
    &&& s.gpu_summary.by_type@.len() < usize::MAX
}

/// Whether every number that the dashboard shows or compares of a snapshot fits.
pub fn is_showable(s: &ClusterSnapshot) -> (r: bool)
    ensures
        r == showable(*s),
{
    let mut i: usize = 0;
    let ghost jobs = views(s.jobs@);
    while i < s.jobs.len()
        invariant
            i <= s.jobs@.len(),
            jobs == views(s.jobs@),
            forall|k: int| 0 <= k < i ==> job_fits(#[trigger] jobs[k]),
        decreases s.jobs@.len() - i,
    {
        let job = &s.jobs[i];
        assert(jobs[i as int] == job@);
        if job.gpus.checked_sum().is_none() || checked_slurm_time(job.time_used.as_str()).is_none()
            || checked_slurm_time(job.time_limit.as_str()).is_none() {
            assert(!job_fits(views(s.jobs@)[i as int]));
            return false;
        }
        i += 1;
    }
    i = 0;
    let ghost nodes = views(s.nodes@);
    while i < s.nodes.len()
        invariant
            i <= s.nodes@.len(),
            nodes == views(s.nodes@),
            forall|k: int| 0 <= k < i ==> node_fits(#[trigger] nodes[k]),
        decreases s.nodes@.len() - i,
    {
        let node = &s.nodes[i];
        assert(nodes[i as int] == node@);
        if node.gpus.checked_sum().is_none() || node.gpus_allocated.checked_sum().is_none() {
            assert(!node_fits(views(s.nodes@)[i as int]));
            return false;
        }
        i += 1;
    }
    owners_in_range(&s.job_summary.users) && s.gpu_summary.by_type.len() < usize::MAX
}

/// How the tables are sorted first.
pub open spec fn first_sorting() -> Sorting {
    Sorting {
        columns: SortColumns {
            jobs: JobColumn::JobId,
            nodes: NodeColumn::State,
            gpus: GpuColumn::Type,
            disks: DiskColumn::Space,
            accounting: AccountingColumn::JobId,
            user_jobs: UserJobColumn::JobId,
            usage: DiskUsageColumn::Used,
        },
        directions: PerPanel {
            jobs: SortDirection::Desc,
            nodes: SortDirection::Asc,
            gpus: SortDirection::Asc,
            disks: SortDirection::Desc,
            summary: SortDirection::Asc,
        },
        user_direction: SortDirection::Desc,
        usage_direction: SortDirection::Desc,
    }
}

/// Every table on its first row.
pub open spec fn first_cursors() -> Cursors {
    Cursors {
        panels: PerPanel {
            jobs: TableCursor::top(),
            nodes: TableCursor::top(),
            gpus: TableCursor::top(),
            disks: TableCursor::top(),
            summary: TableCursor::top(),
        },
        running: TableCursor::top(),
        pending: TableCursor::top(),
        usage: TableCursor::top(),
        section: UserJobSection::Running,
    }
}

/// Nothing over the panels.
pub open spec fn no_popups() -> Popups {
    Popups { help: false, job: None, node: None, gpu: None, user: None, disk: None, action: None }
}

impl Hits {
    /// Whether the areas of panels and tables have edges that can be numbered.
    pub open spec fn wf(self) -> bool {
        &&& forall|p: PanelId| #![trigger self.areas.at(p)]
            self.areas.at(p) matches Some(area) ==> area.fits()
        &&& forall|i: int|
            0 <= i < self.modal_tables@.len() ==> (#[trigger] self.modal_tables@[i]).area.fits()
    }
}

impl Skin {
    /// Whether the styles are those of the theme.
    pub open spec fn wf(self) -> bool {
        self.theme == theme_with(palette_of(self.name))
    }
}

impl AppState {
    /// Whether the state is one that the dashboard can be in: the focused panel is shown, and what
    /// is held can be shown.
    pub open spec fn wf(self) -> bool {
        &&& self.board.wf()
        &&& self.snapshot matches Some(envelope) ==> showable(envelope.snapshot)
        &&& self.book.wf()
        &&& self.hits.wf()
        &&& self.skin.wf()
    }

    /// The dashboard as it starts.
    pub fn new(
        current_user: String,
        refresh_label: String,
        disk_usage_timeout: Option<Span>,
        theme_name: ThemeName,
        disk_usage_cache: UsageMap<DiskUsageCacheEntry>,
    ) -> (r: Self)
        requires
            cache_dated(disk_usage_cache@),
        ensures
            r.wf(),
            r.setup == (Setup { current_user, refresh_label, disk_usage_timeout }),
            r.snapshot is None,
            r.notes.status@ == "Starting Slurm refresh..."@,
            r.notes.last_error is None,
            r.board.focus == PanelId::Jobs,
            r.board.left_percent == 60,
            r.board.top_percent == 68,
            is_fresh_panel(r.board.panels.jobs, 12),
            is_fresh_panel(r.board.panels.nodes, 8),
            is_fresh_panel(r.board.panels.gpus, 5),
            is_fresh_panel(r.board.panels.disks, 4),
            is_fresh_panel(r.board.panels.summary, 8),
            r.typing.mode == InputMode::Normal,
            r.typing.input@.len() == 0,
            r.popups == no_popups(),
            r.sorting == first_sorting(),
            r.cursors == first_cursors(),
            r.book.cache == disk_usage_cache,
            r.book.scans@.dom() == Set::<Key>::empty(),
            r.book.errors@.dom() == Set::<Key>::empty(),
            r.book.next_id == 1,
            r.hits.areas == no_areas(),
            r.hits.headers@.len() == 0,
            r.hits.modal_headers@.len() == 0,
            r.hits.modal_tables@.len() == 0,
            r.hits.last_click is None,
            r.skin.name == theme_name,
    {
        AppState {
            setup: Setup { current_user, refresh_label, disk_usage_timeout },
            snapshot: None,
            notes: Notes { status: "Starting Slurm refresh...".to_string(), last_error: None },
            board: Board::new(),
            typing: Typing { mode: InputMode::Normal, input: String::new() },
            popups: Popups {
                help: false,
                job: None,
                node: None,
                gpu: None,
                user: None,
                disk: None,
                action: None,
            },
            sorting: Sorting {
                columns: SortColumns {
                    jobs: JobColumn::JobId,
                    nodes: NodeColumn::State,
                    gpus: GpuColumn::Type,
                    disks: DiskColumn::Space,
                    accounting: AccountingColumn::JobId,
                    user_jobs: UserJobColumn::JobId,
                    usage: DiskUsageColumn::Used,
                },
                directions: PerPanel {
                    jobs: SortDirection::Desc,
                    nodes: SortDirection::Asc,
                    gpus: SortDirection::Asc,
                    disks: SortDirection::Desc,
                    summary: SortDirection::Asc,
                },
                user_direction: SortDirection::Desc,
                usage_direction: SortDirection::Desc,
            },
            cursors: Cursors {
                panels: PerPanel {
                    jobs: TableCursor::at_top(),
                    nodes: TableCursor::at_top(),
                    gpus: TableCursor::at_top(),
                    disks: TableCursor::at_top(),
                    summary: TableCursor::at_top(),
                },
                running: TableCursor::at_top(),
                pending: TableCursor::at_top(),
                usage: TableCursor::at_top(),
                section: UserJobSection::Running,
            },
            book: ScanBook::new(disk_usage_cache),
            hits: Hits {
                areas: PerPanel { jobs: None, nodes: None, gpus: None, disks: None, summary: None },
                headers: Vec::new(),
                modal_headers: Vec::new(),
                modal_tables: Vec::new(),
                last_click: None,
            },
            skin: Skin { name: theme_name, theme: Theme::from_name(theme_name) },
        }
    }
}

/// The milliseconds of a span.
pub open spec fn millis(span: Span) -> nat {
    (span.secs * 1000 + span.nanos / 1_000_000) as nat
}

/// What is said of a new snapshot.
pub open spec fn refresh_text(envelope: SnapshotEnvelope, label: Seq<char>) -> Seq<char> {
    "Refreshed "@ + decimal(envelope.snapshot.jobs@.len()) + " jobs, "@ + decimal(
        envelope.snapshot.nodes@.len(),
    ) + " nodes in "@ + decimal(millis(envelope.telemetry.elapsed)) + "ms; interval "@ + label + "s"@
}

/// What is said of a new snapshot.
fn say_refresh(envelope: &SnapshotEnvelope, label: &str) -> (r: String)
    ensures
        r@ == refresh_text(*envelope, label@),
{
    let elapsed = envelope.telemetry.elapsed;
    let ms: u128 = elapsed.secs as u128 * 1000 + (elapsed.nanos / 1_000_000) as u128;
    let ms_text = decimal_chars(ms);
    let mut out = "Refreshed ".to_string();
    out.append(show(envelope.snapshot.jobs.len() as u64).as_str());
    out.append(" jobs, ");
    out.append(show(envelope.snapshot.nodes.len() as u64).as_str());
    out.append(" nodes in ");
    out.append(to_text(ms_text.as_slice()).as_str());
    out.append("ms; interval ");
    out.append(label);
    out.append("s");
    out
}

/// What is said of a user and a disk: the words in front, the user, the disk, and the words behind.
pub open spec fn scan_text(before: Seq<char>, key: Key, after: Seq<char>) -> Seq<char> {
    before + key.1 + " on "@ + key.0 + after
}

/// What is said of a user and a disk.
pub fn say_scan(before: &str, key: &DiskUsageKey, after: &str) -> (r: String)
    ensures
        r@ == scan_text(before@, key@, after@),
{
    let mut out = before.to_string();
    out.append(key.user.as_str());
    out.append(" on ");
    out.append(key.mount.as_str());
    out.append(after);
    out
}

/// What is said of the warnings of a snapshot.
pub open spec fn warnings_text(warnings: Seq<Seq<char>>) -> Option<Seq<char>> {
    if warnings.len() == 0 {
        None
    } else {
        Some(join(warnings, " | "@))
    }
}

impl AppState {
    /// Whether the popup of a disk and user is open.
    pub open spec fn shows_disk(self, key: Key) -> bool {
        self.popups.disk matches Some(k) && k@ == key
    }

    /// Whether `post` is the state after a scan came to a result.
    pub open spec fn scan_finished(
        self,
        post: AppState,
        key: Key,
        rows: Seq<UsageView>,
        now: Timestamp,
    ) -> bool {
        &&& self.book.finished(post.book, key, rows, now)
        &&& post.notes.status@ == scan_text("Disk usage scan finished for "@, key, ""@)
        &&& post == (AppState {
            book: post.book,
            cursors: Cursors {
                usage: if self.shows_disk(key) {
                    self.cursors.usage.clamped(kept_rows(rows).len() as usize)
                } else {
                    self.cursors.usage
                },
                ..self.cursors
            },
            notes: Notes { status: post.notes.status, ..self.notes },
            ..self
        })
    }

    /// Whether `post` is the state after a scan failed.
    pub open spec fn scan_failed(self, post: AppState, key: Key, error: Seq<char>, now: Timestamp) -> bool {
        &&& self.book.failed(post.book, key, error, now)
        &&& post.notes.status@ == scan_text("Disk usage scan failed for "@, key, ": "@ + error)
        &&& post == (AppState {
            book: post.book,
            notes: Notes { status: post.notes.status, ..self.notes },
            ..self
        })
    }

    /// Whether `post` is the state after a message, and whether the results of scans are to be kept
    /// on disk.
    pub open spec fn told(self, post: AppState, message: UiMessage, now: Timestamp, keep: bool) -> bool {
        match message {
            UiMessage::Snapshot(envelope) => {
                &&& !keep
                &&& post.notes.status@ == refresh_text(envelope, self.setup.refresh_label@)
                &&& opt_view(post.notes.last_error) == warnings_text(
                    strings(envelope.snapshot.warnings@),
                )
                &&& post == (AppState { snapshot: Some(envelope), notes: post.notes, ..self })
            },
            UiMessage::Error(error) => {
                &&& !keep
                &&& opt_view(post.notes.last_error) == Some(error@)
                &&& post.notes.status@ == "Refresh failed: "@ + error@
                &&& post == (AppState { notes: post.notes, ..self })
            },
            UiMessage::ActionResult(text) => {
                &&& !keep
                &&& post == (AppState {
                    notes: Notes { status: text, ..self.notes },
                    popups: Popups { action: None, ..self.popups },
                    ..self
                })
            },
            UiMessage::DiskUsage { key, scan_id, result } => if !self.book.runs(key@, scan_id) {
                !keep && post == self
            } else {
                match result {
                    Ok(rows) => keep && self.scan_finished(post, key@, views(rows@), now),
                    Err(error) => !keep && self.scan_failed(post, key@, error@, now),
                }
            },
            UiMessage::DiskUsageProgress { key, scan_id, progress } => {
                &&& !keep
                &&& self.book.progressed(post.book, key@, scan_id, progress)
                &&& post == (AppState { book: post.book, ..self })
            },
        }
    }

    /// Takes a message in; says whether the results of scans are to be kept on disk.
    pub fn apply_message(&mut self, message: UiMessage, now: Timestamp) -> (r: bool)
        requires
            old(self).wf(),
            displayable(now),
            message matches UiMessage::Snapshot(envelope) ==> showable(envelope.snapshot),
        ensures
            old(self).told(*final(self), message, now, r),
            final(self).wf(),
    {
        match message {
            UiMessage::Snapshot(envelope) => {
                let status = say_refresh(&envelope, self.setup.refresh_label.as_str());
                let last_error = if envelope.snapshot.warnings.len() == 0 {
                    None
                } else {
                    Some(join_texts(&envelope.snapshot.warnings, " | "))
                };
                self.notes = Notes { status, last_error };
                self.snapshot = Some(envelope);
                false
            },
            UiMessage::Error(error) => {
                let mut status = "Refresh failed: ".to_string();
                status.append(error.as_str());
                self.notes = Notes { status, last_error: Some(error) };
                false
            },
            UiMessage::ActionResult(text) => {
                self.notes.status = text;
                self.popups.action = None;
                false
            },
            UiMessage::DiskUsage { key, scan_id, result } => {
                if !self.book.is_running(&key, scan_id) {
                    return false;
                }
                match result {
                    Ok(rows) => {
                        self.finish_scan(key, rows, now);
                        true
                    },
                    Err(error) => {
                        let mut after = ": ".to_string();
                        after.append(error.as_str());
                        self.notes.status = say_scan(
                            "Disk usage scan failed for ",
                            &key,
                            after.as_str(),
                        );
                        self.book.fail(key, error, now);
                        false
                    },
                }
            },
            UiMessage::DiskUsageProgress { key, scan_id, progress } => {
                self.book.note_progress(key, scan_id, progress);
                false
            },
        }
    }

    /// Keeps the result of a scan.
    fn finish_scan(&mut self, key: DiskUsageKey, rows: Vec<DiskUserUsage>, now: Timestamp)
        requires
            old(self).wf(),
            displayable(now),
        ensures
            old(self).scan_finished(*final(self), key@, views(rows@), now),
            final(self).wf(),
    {
        let open: bool = match &self.popups.disk {
            Some(k) => k.same(&key),
            None => false,
        };
        self.notes.status = say_scan("Disk usage scan finished for ", &key, "");
        let len: usize = self.book.finish(key, rows, now);
        if open {
            clamp_selection(&mut self.cursors.usage, len);
        }
    }
}

/// A result or an error of a scan that no longer runs changes nothing.
pub proof fn law_stale_scan_ignored(
    pre: AppState,
    post: AppState,
    key: DiskUsageKey,
    scan_id: u64,
    result: Result<Vec<DiskUserUsage>, String>,
    now: Timestamp,
    keep: bool,
)
    requires
        !pre.book.runs(key@, scan_id),
        pre.told(post, UiMessage::DiskUsage { key, scan_id, result }, now, keep),
    ensures
        post == pre,
        !keep,
{
}

/// A failed refresh keeps the last snapshot on the screen.
pub proof fn law_failed_refresh_keeps_snapshot(
    pre: AppState,
    post: AppState,
    error: String,
    now: Timestamp,
    keep: bool,
)
    requires
        pre.told(post, UiMessage::Error(error), now, keep),
    ensures
        post.snapshot == pre.snapshot,
        post.board == pre.board,
        post.cursors == pre.cursors,
{
}

} // verus!
