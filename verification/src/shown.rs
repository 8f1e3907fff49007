//! The rows that the dashboard shows, and the ones that are selected.

use vstd::prelude::*;

use crate::book::DiskUsageError;
use crate::clock::Span;
use crate::clock::Timestamp;
use crate::columns::UserJobSection;
use crate::cursor::TableCursor;
use crate::dashboard::job_fits;
use crate::dashboard::node_fits;
use crate::dashboard::AppState;
use crate::events::Moment;
use crate::filter::filter_jobs;
use crate::filter::filter_nodes;
use crate::filter::job_passes;
use crate::filter::jobs_passing;
use crate::filter::node_passes;
use crate::filter::nodes_passing;
use crate::listing::disks_sorted;
use crate::listing::gpu_rows_from_summary;
use crate::listing::gpu_rows_of;
use crate::listing::gpu_rows_sorted;
use crate::listing::jobs_of_user;
use crate::listing::other_owners;
use crate::listing::pick_user_jobs;
use crate::listing::sort_disks;
use crate::listing::sort_gpu_rows;
use crate::listing::sort_usage;
use crate::listing::sort_user_jobs;
use crate::listing::summary_display_rows;
use crate::listing::summary_rows_are;
use crate::listing::usage_sorted;
use crate::listing::user_jobs_sortable;
use crate::listing::user_jobs_sorted;
use crate::listing::GpuRow;
use crate::listing::GpuRowView;
use crate::listing::SummaryDisplayRow;
use crate::listing::SummaryRowKind;
use crate::listing::SummaryRowView;
use crate::model::copy_usage;
use crate::model::views;
use crate::model::DiskInfo;
use crate::model::DiskUserUsage;
use crate::model::DiskView;
use crate::model::Job;
use crate::model::JobView;
use crate::model::Node;
use crate::model::NodeView;
use crate::model::UsageView;
use crate::order::arrange;
use crate::order::is_stable_order;
use crate::panel::PanelId;
use crate::slurm::DiskUsageProgress;
use crate::sorting::job_key;
use crate::sorting::jobs_sortable;
use crate::sorting::jobs_sorted;
use crate::sorting::keys_of;
use crate::sorting::node_key;
use crate::sorting::nodes_sortable;
use crate::sorting::nodes_sorted;
use crate::sorting::sort_jobs;
use crate::sorting::sort_nodes;
use crate::summary::phase_of;
use crate::summary::Phase;
use crate::text::same_ignoring_case;
use crate::text::same_str;
use crate::units::SortDirection;

verus! {

/// What holds of every row holds of every row that is kept.
proof fn lemma_filter_keeps<T>(rows: Seq<T>, keep: spec_fn(T) -> bool, p: spec_fn(T) -> bool)
    requires
        forall|i: int| 0 <= i < rows.len() ==> p(#[trigger] rows[i]),
    ensures
        forall|i: int| 0 <= i < rows.filter(keep).len() ==> p(#[trigger] rows.filter(keep)[i]),
        rows.filter(keep).len() <= rows.len(),
    decreases rows.len(),
{
    reveal(Seq::filter);
    if rows.len() > 0 {
        let fewer = rows.drop_last();
        assert forall|i: int| 0 <= i < fewer.len() implies p(#[trigger] fewer[i]) by {
            assert(fewer[i] == rows[i]);
        }
        lemma_filter_keeps(fewer, keep, p);
        assert(p(rows[rows.len() - 1]));
    }
}

/// The row that a cursor is on.
pub open spec fn row_on<T>(rows: Seq<T>, cursor: TableCursor) -> Option<T> {
    match cursor.selected {
        Some(i) => if i < rows.len() {
            Some(rows[i as int])
        } else {
            None
        },
        None => None,
    }
}

/// Copies of jobs.
fn copy_jobs(jobs: &Vec<&Job>) -> (r: Vec<Job>)
    ensures
        views(r@) == views(jobs@),
{
    let mut out: Vec<Job> = Vec::new();
    let mut i: usize = 0;
    while i < jobs.len()
        invariant
            i <= jobs@.len(),
            out@.len() == i,
            forall|k: int| 0 <= k < i ==> (#[trigger] out@[k])@ == jobs@[k]@,
        decreases jobs@.len() - i,
    {
        out.push((*jobs[i]).clone());
        i += 1;
    }
    assert(views(out@) =~= views(jobs@));
    out
}

/// Copies of nodes.
fn copy_nodes(nodes: &Vec<&Node>) -> (r: Vec<Node>)
    ensures
        views(r@) == views(nodes@),
{
    let mut out: Vec<Node> = Vec::new();
    let mut i: usize = 0;
    while i < nodes.len()
        invariant
            i <= nodes@.len(),
            out@.len() == i,
            forall|k: int| 0 <= k < i ==> (#[trigger] out@[k])@ == nodes@[k]@,
        decreases nodes@.len() - i,
    {
        out.push((*nodes[i]).clone());
        i += 1;
    }
    assert(views(out@) =~= views(nodes@));
    out
}

/// Copies of disks.
fn copy_disks(disks: &Vec<DiskInfo>) -> (r: Vec<DiskInfo>)
    ensures
        views(r@) == views(disks@),
{
    let mut out: Vec<DiskInfo> = Vec::new();
    let mut i: usize = 0;
    while i < disks.len()
        invariant
            i <= disks@.len(),
            out@.len() == i,
            forall|k: int| 0 <= k < i ==> (#[trigger] out@[k])@ == disks@[k]@,
        decreases disks@.len() - i,
    {
        out.push(disks[i].clone());
        i += 1;
    }
    assert(views(out@) =~= views(disks@));
    out
}

/// What is known of the disk and user of the popup.
#[derive(Debug)]
pub struct DiskUsageView {
    pub rows: Vec<DiskUserUsage>,
    pub captured_at: Option<Timestamp>,
    pub scan_started_at: Option<Moment>,
    pub scan_timeout: Option<Span>,
    pub progress: Option<DiskUsageProgress>,
    pub error: Option<DiskUsageError>,
}

impl DiskUsageView {
    /// Whether a scan runs.
    pub fn is_loading(&self) -> (r: bool)
        ensures
            r == self.scan_started_at is Some,
    {
        self.scan_started_at.is_some()
    }
}

/// The number of rows of the summary.
pub open spec fn summary_row_count(others: nat) -> nat {
    if others <= 10 {
        2 + others
    } else {
        13
    }
}

impl AppState {
    /// The jobs of the snapshot that pass the filter.
    pub open spec fn passing_jobs(self) -> Seq<JobView> {
        match self.snapshot {
            Some(e) => jobs_passing(
                views(e.snapshot.jobs@),
                self.board.panels.jobs.filter@,
                self.setup.current_user@,
            ),
            None => seq![],
        }
    }

    /// Whether these are the jobs that are shown: those that pass the filter, sorted.
    pub open spec fn jobs_shown(self, rows: Seq<JobView>) -> bool {
        jobs_sorted(
            self.passing_jobs(),
            rows,
            self.sorting.columns.jobs,
            self.sorting.directions.jobs,
        )
    }

    /// The nodes of the snapshot that pass the filter.
    pub open spec fn passing_nodes(self) -> Seq<NodeView> {
        match self.snapshot {
            Some(e) => nodes_passing(views(e.snapshot.nodes@), self.board.panels.nodes.filter@),
            None => seq![],
        }
    }

    /// Whether these are the nodes that are shown: those that pass the filter, sorted.
    pub open spec fn nodes_shown(self, rows: Seq<NodeView>) -> bool {
        nodes_sorted(
            self.passing_nodes(),
            rows,
            self.sorting.columns.nodes,
            self.sorting.directions.nodes,
        )
    }

    /// The rows of GPUs of the snapshot.
    pub open spec fn all_gpu_rows(self) -> Seq<GpuRowView> {
        match self.snapshot {
            Some(e) => gpu_rows_of(e.snapshot.gpu_summary),
            None => seq![],
        }
    }

    /// Whether these are the rows of GPUs that are shown.
    pub open spec fn gpus_shown(self, rows: Seq<GpuRowView>) -> bool {
        gpu_rows_sorted(
            self.all_gpu_rows(),
            rows,
            self.sorting.columns.gpus,
            self.sorting.directions.gpus,
        )
    }

    /// The disks of the snapshot.
    pub open spec fn all_disks(self) -> Seq<DiskView> {
        match self.snapshot {
            Some(e) => views(e.snapshot.disk_info@),
            None => seq![],
        }
    }

    /// Whether these are the disks that are shown.
    pub open spec fn disks_shown(self, rows: Seq<DiskView>) -> bool {
        disks_sorted(self.all_disks(), rows, self.sorting.columns.disks, self.sorting.directions.disks)
    }

    /// Whether these are the rows of the summary that are shown.
    pub open spec fn summary_shown(self, rows: Seq<SummaryRowView>) -> bool {
        match self.snapshot {
            Some(e) => summary_rows_are(
                rows,
                e.snapshot.job_summary.all,
                e.snapshot.job_summary.me,
                e.snapshot.job_summary.users@,
                self.setup.current_user@,
            ),
            None => rows.len() == 0,
        }
    }

    /// The jobs of a user in a section.
    pub open spec fn jobs_in_section(self, user: Seq<char>, section: UserJobSection) -> Seq<JobView> {
        match self.snapshot {
            Some(e) => jobs_of_user(
                views(e.snapshot.jobs@),
                user,
                match section {
                    UserJobSection::Running => Phase::Running,
                    UserJobSection::Pending => Phase::Pending,
                },
            ),
            None => seq![],
        }
    }

    /// Whether these are the jobs of a user that are shown in a section.
    pub open spec fn user_jobs_shown(self, rows: Seq<JobView>, user: Seq<char>, section: UserJobSection) -> bool {
        user_jobs_sorted(
            self.jobs_in_section(user, section),
            rows,
            self.sorting.columns.user_jobs,
            self.sorting.user_direction,
        )
    }

    /// The rows of the result for the disk and user of the popup.
    pub open spec fn active_usage(self) -> Seq<UsageView> {
        match self.popups.disk {
            Some(key) => self.book.rows_of(key@),
            None => seq![],
        }
    }

    /// Whether these are the rows of disk usage that are shown.
    pub open spec fn usage_shown(self, rows: Seq<UsageView>) -> bool {
        usage_sorted(
            self.active_usage(),
            rows,
            self.sorting.columns.usage,
            self.sorting.usage_direction,
        )
    }

    /// How many rows a panel has.
    pub open spec fn row_count(self, panel: PanelId) -> nat {
        match (self.snapshot, panel) {
            (None, _) => 0,
            (Some(_), PanelId::Jobs) => self.passing_jobs().len(),
            (Some(_), PanelId::Nodes) => self.passing_nodes().len(),
            (Some(e), PanelId::Gpus) => e.snapshot.gpu_summary.by_type@.len() + 1,
            (Some(e), PanelId::Disks) => e.snapshot.disk_info@.len(),
            (Some(e), PanelId::Summary) => summary_row_count(
                other_owners(e.snapshot.job_summary.users@, self.setup.current_user@).len(),
            ),
        }
    }

    proof fn lemma_passing_fit(self)
        requires
            self.wf(),
        ensures
            jobs_sortable(self.passing_jobs(), self.sorting.columns.jobs),
            nodes_sortable(self.passing_nodes(), self.sorting.columns.nodes),
    {
        if let Some(e) = self.snapshot {
            let user = self.setup.current_user@;
            let f = self.board.panels.jobs.filter@;
            let g = self.board.panels.nodes.filter@;
            lemma_filter_keeps(
                views(e.snapshot.jobs@),
                |j: JobView| job_passes(j, f, user),
                |j: JobView| job_fits(j),
            );
            lemma_filter_keeps(
                views(e.snapshot.nodes@),
                |n: NodeView| node_passes(n, g),
                |n: NodeView| node_fits(n),
            );
            let jobs = self.passing_jobs();
            assert forall|i: int| 0 <= i < jobs.len() implies job_fits(#[trigger] jobs[i]) by {}
            let nodes = self.passing_nodes();
            assert forall|i: int| 0 <= i < nodes.len() implies node_fits(#[trigger] nodes[i]) by {}
        }
    }

    /// The jobs that are shown.
    pub fn visible_jobs(&self) -> (r: Vec<Job>)
        requires
            self.wf(),
        ensures
            self.jobs_shown(views(r@)),
            r@.len() == self.passing_jobs().len(),
            forall|i: int| 0 <= i < r@.len() ==> job_fits(#[trigger] views(r@)[i]),
    {
        proof {
            self.lemma_passing_fit();
        }
        let jobs = match &self.snapshot {
            Some(e) => {
                let passing = filter_jobs(
                    e.snapshot.jobs.as_slice(),
                    &self.board.panels.jobs.filter,
                    self.setup.current_user.as_str(),
                );
                copy_jobs(&passing)
            },
            None => {
                let none: Vec<Job> = Vec::new();
                assert(views(none@) =~= seq![]);
                none
            },
        };
        assert(views(jobs@) == self.passing_jobs());
        let r = sort_jobs(jobs, self.sorting.columns.jobs, self.sorting.directions.jobs);
        proof {
            self.lemma_shown_jobs_fit(views(r@));
        }
        r
    }

    proof fn lemma_shown_jobs_fit(self, rows: Seq<JobView>)
        requires
            self.wf(),
            self.jobs_shown(rows),
        ensures
            rows.len() == self.passing_jobs().len(),
            forall|i: int| 0 <= i < rows.len() ==> job_fits(#[trigger] rows[i]),
    {
        let jobs = self.passing_jobs();
        if let Some(e) = self.snapshot {
            let user = self.setup.current_user@;
            let f = self.board.panels.jobs.filter@;
            lemma_filter_keeps(
                views(e.snapshot.jobs@),
                |j: JobView| job_passes(j, f, user),
                |j: JobView| job_fits(j),
            );
            assert forall|i: int| 0 <= i < jobs.len() implies job_fits(#[trigger] jobs[i]) by {}
        }
        let column = self.sorting.columns.jobs;
        let keys = keys_of(jobs, |j: JobView| job_key(j, column));
        let descending = self.sorting.directions.jobs == SortDirection::Desc;
        let order = choose|order: Seq<int>| #[trigger]
            is_stable_order(keys, descending, order) && rows == arrange(
                jobs,
                order,
            );
        assert forall|i: int| 0 <= i < rows.len() implies job_fits(#[trigger] rows[i]) by {
            assert(rows[i] == jobs[order[i]]);
        }
    }

    /// The nodes that are shown.
    pub fn visible_nodes(&self) -> (r: Vec<Node>)
        requires
            self.wf(),
        ensures
            self.nodes_shown(views(r@)),
            r@.len() == self.passing_nodes().len(),
            forall|i: int| 0 <= i < r@.len() ==> node_fits(#[trigger] views(r@)[i]),
    {
        proof {
            self.lemma_passing_fit();
        }
        let nodes = match &self.snapshot {
            Some(e) => {
                let passing = filter_nodes(e.snapshot.nodes.as_slice(), &self.board.panels.nodes.filter);
                copy_nodes(&passing)
            },
            None => {
                let none: Vec<Node> = Vec::new();
                assert(views(none@) =~= seq![]);
                none
            },
        };
        assert(views(nodes@) == self.passing_nodes());
        let r = sort_nodes(nodes, self.sorting.columns.nodes, self.sorting.directions.nodes);
        proof {
            self.lemma_shown_nodes_fit(views(r@));
        }
        r
    }

    proof fn lemma_shown_nodes_fit(self, rows: Seq<NodeView>)
        requires
            self.wf(),
            self.nodes_shown(rows),
        ensures
            rows.len() == self.passing_nodes().len(),
            forall|i: int| 0 <= i < rows.len() ==> node_fits(#[trigger] rows[i]),
    {
        let nodes = self.passing_nodes();
        if let Some(e) = self.snapshot {
            let f = self.board.panels.nodes.filter@;
            lemma_filter_keeps(
                views(e.snapshot.nodes@),
                |n: NodeView| node_passes(n, f),
                |n: NodeView| node_fits(n),
            );
            assert forall|i: int| 0 <= i < nodes.len() implies node_fits(#[trigger] nodes[i]) by {}
        }
        let column = self.sorting.columns.nodes;
        let keys = keys_of(nodes, |n: NodeView| node_key(n, column));
        let descending = self.sorting.directions.nodes == SortDirection::Desc;
        let order = choose|order: Seq<int>| #[trigger]
            is_stable_order(keys, descending, order) && rows == arrange(
                nodes,
                order,
            );
        assert forall|i: int| 0 <= i < rows.len() implies node_fits(#[trigger] rows[i]) by {
            assert(rows[i] == nodes[order[i]]);
        }
    }

    /// The rows of GPUs that are shown.
    pub fn gpu_rows(&self) -> (r: Vec<GpuRow>)
        ensures
            self.gpus_shown(views(r@)),
            r@.len() == self.all_gpu_rows().len(),
    {
        let rows = match &self.snapshot {
            Some(e) => gpu_rows_from_summary(&e.snapshot.gpu_summary),
            None => {
                let none: Vec<GpuRow> = Vec::new();
                assert(views(none@) =~= seq![]);
                none
            },
        };
        let r = sort_gpu_rows(rows, self.sorting.columns.gpus, self.sorting.directions.gpus);
        assert(views(r@).len() == r@.len());
        r
    }

    /// The disks that are shown.
    pub fn disk_rows(&self) -> (r: Vec<DiskInfo>)
        ensures
            self.disks_shown(views(r@)),
            r@.len() == self.all_disks().len(),
    {
        let rows = match &self.snapshot {
            Some(e) => copy_disks(&e.snapshot.disk_info),
            None => {
                let none: Vec<DiskInfo> = Vec::new();
                assert(views(none@) =~= seq![]);
                none
            },
        };
        let r = sort_disks(rows, self.sorting.columns.disks, self.sorting.directions.disks);
        assert(views(r@).len() == r@.len());
        r
    }

    /// The rows of the summary that are shown.
    pub fn summary_rows(&self) -> (r: Vec<SummaryDisplayRow>)
        requires
            self.wf(),
        ensures
            self.summary_shown(views(r@)),
            r@.len() == self.row_count(PanelId::Summary),
    {
        match &self.snapshot {
            Some(e) => {
                let r = summary_display_rows(
                    e.snapshot.job_summary.all,
                    e.snapshot.job_summary.me,
                    &e.snapshot.job_summary.users,
                    self.setup.current_user.as_str(),
                );
                assert(views(r@).len() == r@.len());
                r
            },
            None => Vec::new(),
        }
    }

    /// The jobs of a user that are shown in a section.
    pub fn user_section_jobs(&self, user: &str, section: UserJobSection) -> (r: Vec<Job>)
        requires
            self.wf(),
        ensures
            self.user_jobs_shown(views(r@), user@, section),
            r@.len() == self.jobs_in_section(user@, section).len(),
    {
        let jobs = match &self.snapshot {
            Some(e) => pick_user_jobs(
                e.snapshot.jobs.as_slice(),
                user,
                match section {
                    UserJobSection::Running => Phase::Running,
                    UserJobSection::Pending => Phase::Pending,
                },
            ),
            None => {
                let none: Vec<Job> = Vec::new();
                assert(views(none@) =~= seq![]);
                none
            },
        };
        proof {
            self.lemma_section_fits(user@, section);
        }
        let r = sort_user_jobs(jobs, self.sorting.columns.user_jobs, self.sorting.user_direction);
        assert(views(r@).len() == r@.len());
        r
    }

    proof fn lemma_section_fits(self, user: Seq<char>, section: UserJobSection)
        requires
            self.wf(),
        ensures
            user_jobs_sortable(self.jobs_in_section(user, section), self.sorting.columns.user_jobs),
    {
        if let Some(e) = self.snapshot {
            let phase = match section {
                UserJobSection::Running => Phase::Running,
                UserJobSection::Pending => Phase::Pending,
            };
            lemma_filter_keeps(
                views(e.snapshot.jobs@),
                |j: JobView| same_ignoring_case(j.user, user) && phase_of(j.state) == Some(phase),
                |j: JobView| job_fits(j),
            );
            let jobs = self.jobs_in_section(user, section);
            assert forall|i: int| 0 <= i < jobs.len() implies job_fits(#[trigger] jobs[i]) by {}
        }
    }

    /// How many jobs of a user are shown in a section.
    pub fn user_section_len(&self, user: &str, section: UserJobSection) -> (r: usize)
        ensures
            r == self.jobs_in_section(user@, section).len(),
    {
        match &self.snapshot {
            Some(e) => {
                let jobs = pick_user_jobs(
                    e.snapshot.jobs.as_slice(),
                    user,
                    match section {
                        UserJobSection::Running => Phase::Running,
                        UserJobSection::Pending => Phase::Pending,
                    },
                );
                assert(views(jobs@).len() == jobs@.len());
                jobs.len()
            },
            None => 0,
        }
    }

    /// Whether this is what is known of the disk and user of the popup.
    pub open spec fn is_active_view(self, v: DiskUsageView) -> bool {
        &&& views(v.rows@) == self.active_usage()
        &&& match self.popups.disk {
            Some(key) => {
                let cached = self.book.cache@.contains_key(key@);
                let scanning = self.book.scans@.contains_key(key@);
                let scan = self.book.scans@[key@];
                &&& v.captured_at == if cached {
                    Some(self.book.cache@[key@].captured_at)
                } else {
                    None
                }
                &&& v.scan_started_at == if scanning {
                    Some(scan.started_at)
                } else {
                    None
                }
                &&& v.scan_timeout == if scanning {
                    scan.timeout
                } else {
                    None
                }
                &&& v.progress == if scanning {
                    scan.progress
                } else {
                    None
                }
                &&& match v.error {
                    Some(e) => self.book.errors@.contains_key(key@) && e.message@
                        == self.book.errors@[key@].message@ && e.occurred_at
                        == self.book.errors@[key@].occurred_at,
                    None => !self.book.errors@.contains_key(key@),
                }
            },
            None => v.captured_at is None && v.scan_started_at is None && v.scan_timeout is None
                && v.progress is None && v.error is None,
        }
    }

    /// What is known of the disk and user of the popup.
    pub fn active_disk_usage_view(&self) -> (r: DiskUsageView)
        ensures
            self.is_active_view(r),
    {
        match &self.popups.disk {
            Some(key) => {
                let (rows, captured_at) = match self.book.cache.get(key) {
                    Some(entry) => (copy_usage(&entry.rows), Some(entry.captured_at)),
                    None => {
                        let none: Vec<DiskUserUsage> = Vec::new();
                        assert(views(none@) =~= seq![]);
                        (none, None)
                    },
                };
                let error = match self.book.errors.get(key) {
                    Some(e) => Some(
                        DiskUsageError { message: e.message.clone(), occurred_at: e.occurred_at },
                    ),
                    None => None,
                };
                match self.book.scans.get(key) {
                    Some(scan) => DiskUsageView {
                        rows,
                        captured_at,
                        scan_started_at: Some(scan.started_at),
                        scan_timeout: scan.timeout,
                        progress: scan.progress,
                        error,
                    },
                    None => DiskUsageView {
                        rows,
                        captured_at,
                        scan_started_at: None,
                        scan_timeout: None,
                        progress: None,
                        error,
                    },
                }
            },
            None => {
                let rows: Vec<DiskUserUsage> = Vec::new();
                assert(views(rows@) =~= seq![]);
                DiskUsageView {
                    rows,
                    captured_at: None,
                    scan_started_at: None,
                    scan_timeout: None,
                    progress: None,
                    error: None,
                }
            },
        }
    }

    /// The rows of disk usage that are shown.
    pub fn sorted_disk_usage_rows(&self) -> (r: Vec<DiskUserUsage>)
        ensures
            self.usage_shown(views(r@)),
            r@.len() == self.active_usage().len(),
    {
        let rows = self.active_disk_usage_view().rows;
        let r = sort_usage(rows, self.sorting.columns.usage, self.sorting.usage_direction);
        assert(views(r@).len() == r@.len());
        r
    }

    /// How many rows of disk usage there are for the popup.
    pub fn active_disk_usage_len(&self) -> (r: usize)
        ensures
            r == self.active_usage().len(),
    {
        match &self.popups.disk {
            Some(key) => match self.book.cache.get(key) {
                Some(entry) => {
                    assert(views(entry.rows@).len() == entry.rows@.len());
                    entry.rows.len()
                },
                None => 0,
            },
            None => 0,
        }
    }

    /// How many rows a panel has.
    pub fn panel_row_count(&self, panel: PanelId) -> (r: usize)
        requires
            self.wf(),
        ensures
            r == self.row_count(panel),
    {
        match &self.snapshot {
            Some(e) => match panel {
                PanelId::Jobs => {
                    let jobs = filter_jobs(
                        e.snapshot.jobs.as_slice(),
                        &self.board.panels.jobs.filter,
                        self.setup.current_user.as_str(),
                    );
                    assert(views(jobs@).len() == jobs@.len());
                    jobs.len()
                },
                PanelId::Nodes => {
                    let nodes = filter_nodes(
                        e.snapshot.nodes.as_slice(),
                        &self.board.panels.nodes.filter,
                    );
                    assert(views(nodes@).len() == nodes@.len());
                    nodes.len()
                },
                PanelId::Gpus => e.snapshot.gpu_summary.by_type.len() + 1,
                PanelId::Summary => self.summary_rows().len(),
                PanelId::Disks => e.snapshot.disk_info.len(),
            },
            None => 0,
        }
    }

    /// Whether this is the selected job.
    pub open spec fn is_selected_job(self, job: Option<JobView>) -> bool {
        exists|rows: Seq<JobView>| #[trigger]
            self.jobs_shown(rows) && job == row_on(rows, self.cursors.panels.jobs)
    }

    /// Whether this is the selected node.
    pub open spec fn is_selected_node(self, node: Option<NodeView>) -> bool {
        exists|rows: Seq<NodeView>| #[trigger]
            self.nodes_shown(rows) && node == row_on(rows, self.cursors.panels.nodes)
    }

    /// Whether this is the selected row of GPUs.
    pub open spec fn is_selected_gpu(self, row: Option<GpuRowView>) -> bool {
        exists|rows: Seq<GpuRowView>| #[trigger]
            self.gpus_shown(rows) && row == row_on(rows, self.cursors.panels.gpus)
    }

    /// Whether this is the selected disk.
    pub open spec fn is_selected_disk(self, disk: Option<DiskView>) -> bool {
        exists|rows: Seq<DiskView>| #[trigger]
            self.disks_shown(rows) && disk == row_on(rows, self.cursors.panels.disks)
    }

    /// Whether this is the selected row of the summary.
    pub open spec fn is_selected_summary(self, row: Option<SummaryRowView>) -> bool {
        exists|rows: Seq<SummaryRowView>| #[trigger]
            self.summary_shown(rows) && row == row_on(rows, self.cursors.panels.summary)
    }

    /// The user that a row of the summary is about.
    pub open spec fn summary_user(self, row: SummaryRowView) -> Seq<char> {
        match row.kind {
            SummaryRowKind::All => "All"@,
            SummaryRowKind::Me => self.setup.current_user@,
            SummaryRowKind::User => row.label,
            SummaryRowKind::Others => "Others"@,
        }
    }

    /// The identifier of the selected job.
    pub fn selected_job_id(&self) -> (r: Option<String>)
        requires
            self.wf(),
        ensures
            match r {
                Some(id) => exists|job: JobView| #[trigger] self.is_selected_job(Some(job)) && id@ == job.id,
                None => self.is_selected_job(None),
            },
    {
        let rows = self.visible_jobs();
        let ghost shown = views(rows@);
        assert(shown.len() == rows@.len());
        assert(self.jobs_shown(shown) && row_on(shown, self.cursors.panels.jobs) == row_on(
            shown,
            self.cursors.panels.jobs,
        ));
        assert(self.is_selected_job(row_on(shown, self.cursors.panels.jobs)));
        match self.cursors.panels.jobs.selected {
            Some(i) => if i < rows.len() {
                assert(self.is_selected_job(Some(shown[i as int])));
                Some(rows[i].id.clone())
            } else {
                None
            },
            None => None,
        }
    }

    /// The name of the selected node.
    pub fn selected_node_name(&self) -> (r: Option<String>)
        requires
            self.wf(),
        ensures
            match r {
                Some(name) => exists|node: NodeView| #[trigger]
                    self.is_selected_node(Some(node)) && name@ == node.name,
                None => self.is_selected_node(None),
            },
    {
        let rows = self.visible_nodes();
        let ghost shown = views(rows@);
        assert(shown.len() == rows@.len());
        assert(self.is_selected_node(row_on(shown, self.cursors.panels.nodes)));
        match self.cursors.panels.nodes.selected {
            Some(i) => if i < rows.len() {
                assert(self.is_selected_node(Some(shown[i as int])));
                Some(rows[i].name.clone())
            } else {
                None
            },
            None => None,
        }
    }

    /// The type of the selected row of GPUs.
    pub fn selected_gpu_type(&self) -> (r: Option<String>)
        ensures
            match r {
                Some(kind) => exists|row: GpuRowView| #[trigger]
                    self.is_selected_gpu(Some(row)) && kind@ == row.gpu_type,
                None => self.is_selected_gpu(None),
            },
    {
        let rows = self.gpu_rows();
        let ghost shown = views(rows@);
        assert(shown.len() == rows@.len());
        assert(self.is_selected_gpu(row_on(shown, self.cursors.panels.gpus)));
        match self.cursors.panels.gpus.selected {
            Some(i) => if i < rows.len() {
                assert(self.is_selected_gpu(Some(shown[i as int])));
                Some(rows[i].gpu_type.clone())
            } else {
                None
            },
            None => None,
        }
    }

    /// The mount point of the selected disk.
    pub fn selected_disk_mount(&self) -> (r: Option<String>)
        ensures
            match r {
                Some(mount) => exists|disk: DiskView| #[trigger]
                    self.is_selected_disk(Some(disk)) && mount@ == disk.mount,
                None => self.is_selected_disk(None),
            },
    {
        let rows = self.disk_rows();
        let ghost shown = views(rows@);
        assert(shown.len() == rows@.len());
        assert(self.is_selected_disk(row_on(shown, self.cursors.panels.disks)));
        match self.cursors.panels.disks.selected {
            Some(i) => if i < rows.len() {
                assert(self.is_selected_disk(Some(shown[i as int])));
                Some(rows[i].mount.clone())
            } else {
                None
            },
            None => None,
        }
    }

    /// The user that the selected row of the summary is about.
    pub fn selected_summary_user(&self) -> (r: Option<String>)
        requires
            self.wf(),
        ensures
            match r {
                Some(user) => exists|row: SummaryRowView| #[trigger]
                    self.is_selected_summary(Some(row)) && user@ == self.summary_user(row),
                None => self.is_selected_summary(None),
            },
    {
        let rows = self.summary_rows();
        let ghost shown = views(rows@);
        assert(shown.len() == rows@.len());
        assert(self.is_selected_summary(row_on(shown, self.cursors.panels.summary)));
        match self.cursors.panels.summary.selected {
            Some(i) => if i < rows.len() {
                assert(self.is_selected_summary(Some(shown[i as int])));
                Some(
                    match rows[i].kind {
                        SummaryRowKind::All => "All".to_string(),
                        SummaryRowKind::Me => self.setup.current_user.clone(),
                        SummaryRowKind::User => rows[i].label.clone(),
                        SummaryRowKind::Others => "Others".to_string(),
                    },
                )
            } else {
                None
            },
            None => None,
        }
    }
}

/// The first job with an identifier.
pub open spec fn job_with_id(jobs: Seq<JobView>, id: Seq<char>) -> Option<JobView>
    decreases jobs.len(),
{
    if jobs.len() == 0 {
        None
    } else if jobs[0].id == id {
        Some(jobs[0])
    } else {
        job_with_id(jobs.drop_first(), id)
    }
}

/// The first node with a name.
pub open spec fn node_with_name(nodes: Seq<NodeView>, name: Seq<char>) -> Option<NodeView>
    decreases nodes.len(),
{
    if nodes.len() == 0 {
        None
    } else if nodes[0].name == name {
        Some(nodes[0])
    } else {
        node_with_name(nodes.drop_first(), name)
    }
}

/// The first job with an identifier.
pub fn find_job<'a>(jobs: &'a Vec<Job>, id: &str) -> (r: Option<&'a Job>)
    ensures
        match r {
            Some(job) => job_with_id(views(jobs@), id@) == Some(job@),
            None => job_with_id(views(jobs@), id@) is None,
        },
{
    let ghost shown = views(jobs@);
    let mut i: usize = 0;
    assert(shown.skip(0) =~= shown);
    while i < jobs.len()
        invariant
            i <= jobs@.len(),
            shown == views(jobs@),
            job_with_id(shown, id@) == job_with_id(shown.skip(i as int), id@),
        decreases jobs@.len() - i,
    {
        if same_str(jobs[i].id.as_str(), id) {
            return Some(&jobs[i]);
        }
        assert(shown.skip(i as int).drop_first() =~= shown.skip(i + 1));
        i += 1;
    }
    None
}

/// The first node with a name.
pub fn find_node<'a>(nodes: &'a Vec<Node>, name: &str) -> (r: Option<&'a Node>)
    ensures
        match r {
            Some(node) => node_with_name(views(nodes@), name@) == Some(node@),
            None => node_with_name(views(nodes@), name@) is None,
        },
{
    let ghost shown = views(nodes@);
    let mut i: usize = 0;
    assert(shown.skip(0) =~= shown);
    while i < nodes.len()
        invariant
            i <= nodes@.len(),
            shown == views(nodes@),
            node_with_name(shown, name@) == node_with_name(shown.skip(i as int), name@),
        decreases nodes@.len() - i,
    {
        if same_str(nodes[i].name.as_str(), name) {
            return Some(&nodes[i]);
        }
        assert(shown.skip(i as int).drop_first() =~= shown.skip(i + 1));
        i += 1;
    }
    None
}

} // verus!
