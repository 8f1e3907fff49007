//! The rows of the tables of the dashboard.

use vstd::prelude::*;

use crate::amount::amount_digits;
use crate::amount::amount_unit;
use crate::amount::digits_of;
use crate::amount::scan_amount;
use crate::columns::DiskColumn;
use crate::columns::DiskUsageColumn;
use crate::columns::GpuColumn;
use crate::columns::UserJobColumn;
use crate::map::ascending;
use crate::map::lemma_lookup_at;
use crate::map::lemma_lookup_position;
use crate::map::lookup;
use crate::map::TextMap;
use crate::model::parse_slurm_time;
use crate::model::slurm_seconds;
use crate::model::views;
use crate::model::DiskInfo;
use crate::model::DiskUserUsage;
use crate::model::DiskView;
use crate::model::Job;
use crate::model::JobView;
use crate::model::UsageView;
use crate::number::at_most;
use crate::number::parse_128_or_zero;
use crate::number::power_of_ten_128;
use crate::number::read_128_or_zero;
use crate::number::ten_to;
use crate::number::times_128;
use crate::order::arrange;
use crate::order::is_stable_order;
use crate::order::keys_view;
use crate::order::lemma_run_has;
use crate::order::lemma_text_before_total;
use crate::order::sort_rows;
use crate::order::sorted_stably;
use crate::order::text_before;
use crate::order::KeyPart;
use crate::order::PartView;
use crate::order::SortKey;
use crate::sorting::id_parts;
use crate::sorting::jobs_sortable;
use crate::sorting::jobs_sorted;
use crate::sorting::keys_of;
use crate::sorting::lemma_short_sorted;
use crate::sorting::lemma_sorted_views;
use crate::sorting::sort_jobs;
use crate::sorting::JobColumn;
use crate::summary::law_users_make_all;
use crate::summary::lemma_stranger;
use crate::summary::only;
use crate::summary::owner_field;
use crate::summary::owner_is;
use crate::summary::phase_of;
use crate::summary::read_phase;
use crate::summary::sum_of;
use crate::summary::summary_is;
use crate::summary::GpuSummary;
use crate::summary::GpuTypeSummary;
use crate::summary::JobSummary;
use crate::summary::Measure;
use crate::summary::OwnerSummary;
use crate::summary::Phase;
use crate::text::cut_once;
use crate::text::is_digit;
use crate::text::is_text;
use crate::text::lowercase;
use crate::text::lowered;
use crate::text::same_any_case;
use crate::text::same_ignoring_case;
use crate::text::split_once;
use crate::text::strip;
use crate::text::to_chars;
use crate::text::trim;
use crate::text::CharClass;
use crate::units::MemoryMb;
use crate::units::SortDirection;

verus! {

/// The size of a unit of disk space in bytes.
pub open spec fn size_unit(unit: Option<char>) -> nat {
    match unit {
        Some('K') => 0x400,
        Some('M') => 0x10_0000,
        Some('G') => 0x4000_0000,
        Some('T') => 0x100_0000_0000,
        Some('P') => 0x4_0000_0000_0000,
        Some('E') => 0x1000_0000_0000_0000,
        _ => 1,
    }
}

/// The whole part, the fraction and the scale of the fraction.
pub open spec fn size_parts(number: Seq<char>) -> (nat, nat, nat) {
    match split_once(number, CharClass::Exactly('.')) {
        None => (parse_128_or_zero(number), 0, 1),
        Some((whole, rest)) => {
            let digits = rest.filter(|c: char| is_digit(c));
            if digits.len() == 0 {
                (parse_128_or_zero(whole), 0, 1)
            } else {
                (
                    parse_128_or_zero(whole),
                    parse_128_or_zero(digits),
                    if digits.len() <= u32::MAX {
                        at_most(ten_to(digits.len()), u128::MAX as nat)
                    } else {
                        1
                    },
                )
            }
        },
    }
}

/// The bytes that a size of a disk says, up to the largest number.
pub open spec fn size_said(value: Seq<char>) -> nat {
    let v = trim(value);
    let (whole, fraction, scale) = size_parts(amount_digits(v));
    let unit = size_unit(amount_unit(v));
    at_most(
        at_most(whole * unit, u128::MAX as nat) + at_most(fraction * unit, u128::MAX as nat) / scale,
        u128::MAX as nat,
    )
}

/// The whole part, the fraction and the scale of the fraction.
fn decimal_parts_u128(number: &[char]) -> (r: (u128, u128, u128))
    ensures
        size_parts(number@) == (r.0 as nat, r.1 as nat, r.2 as nat),
        r.2 >= 1,
{
    match cut_once(number, CharClass::Exactly('.')) {
        None => (read_128_or_zero(number), 0, 1),
        Some((whole, rest)) => {
            let digits = digits_of(rest);
            if digits.len() == 0 {
                (read_128_or_zero(whole), 0, 1)
            } else {
                let scale: u128 = if digits.len() <= u32::MAX as usize {
                    power_of_ten_128(digits.len() as u32)
                } else {
                    1
                };
                (read_128_or_zero(whole), read_128_or_zero(digits.as_slice()), scale)
            }
        },
    }
}

/// The bytes that a size of a disk says.
#[must_use]
pub fn disk_size_bytes(value: &str) -> (r: u128)
    ensures
        r == size_said(value@),
{
    let chars = to_chars(value);
    let (number, unit) = scan_amount(strip(chars.as_slice()));
    let (whole, fraction, scale): (u128, u128, u128) = decimal_parts_u128(number.as_slice());
    let size: u128 = match unit {
        Some('K') => 0x400,
        Some('M') => 0x10_0000,
        Some('G') => 0x4000_0000,
        Some('T') => 0x100_0000_0000,
        Some('P') => 0x4_0000_0000_0000,
        Some('E') => 0x1000_0000_0000_0000,
        _ => 1,
    };
    let part: u128 = times_128(fraction, size) / scale;
    match times_128(whole, size).checked_add(part) {
        Some(n) => n,
        None => u128::MAX,
    }
}

/// A row of the table of GPUs.
#[derive(Debug, PartialEq, Eq)]
pub struct GpuRow {
    pub gpu_type: String,
    pub total: u64,
    pub active: u64,
    pub reserved: u64,
    pub free: u64,
}

/// What a row of the table of GPUs stands for.
#[verifier::ext_equal]
pub struct GpuRowView {
    pub gpu_type: Seq<char>,
    pub total: u64,
    pub active: u64,
    pub reserved: u64,
    pub free: u64,
}

impl View for GpuRow {
    type V = GpuRowView;

    open spec fn view(&self) -> GpuRowView {
        GpuRowView {
            gpu_type: self.gpu_type@,
            total: self.total,
            active: self.active,
            reserved: self.reserved,
            free: self.free,
        }
    }
}

/// The row of one type of GPU.
pub open spec fn gpu_row(kind: Seq<char>, s: GpuTypeSummary) -> GpuRowView {
    GpuRowView {
        gpu_type: kind,
        total: s.total,
        active: s.active,
        reserved: s.reserved,
        free: s.free_estimate,
    }
}

/// The rows of the table of GPUs: all of them, and then each type.
pub open spec fn gpu_rows_of(g: GpuSummary) -> Seq<GpuRowView> {
    seq![
        GpuRowView {
            gpu_type: "ALL"@,
            total: g.total,
            active: g.active,
            reserved: g.reserved,
            free: g.free_estimate,
        },
    ] + Seq::new(g.by_type@.len(), |i: int| gpu_row(g.by_type@[i].0, g.by_type@[i].1))
}

/// The rows of the table of GPUs.
pub fn gpu_rows_from_summary(summary: &GpuSummary) -> (r: Vec<GpuRow>)
    ensures
        views(r@) == gpu_rows_of(*summary),
{
    let mut rows = vec![
        GpuRow {
            gpu_type: "ALL".to_string(),
            total: summary.total,
            active: summary.active,
            reserved: summary.reserved,
            free: summary.free_estimate,
        },
    ];
    let n: usize = summary.by_type.len();
    let mut i: usize = 0;
    while i < n
        invariant
            i <= n,
            n == summary.by_type@.len(),
            rows@.len() == i + 1,
            forall|k: int| 0 <= k < rows@.len() ==> (#[trigger] rows@[k])@ == gpu_rows_of(*summary)[k],
        decreases n - i,
    {
        let stats = *summary.by_type.value_at(i);
        rows.push(
            GpuRow {
                gpu_type: summary.by_type.key_at(i).clone(),
                total: stats.total,
                active: stats.active,
                reserved: stats.reserved,
                free: stats.free_estimate,
            },
        );
        i += 1;
    }
    assert(views(rows@) =~= gpu_rows_of(*summary));
    rows
}

/// The key of a row of GPUs in a column.
pub open spec fn gpu_row_key(row: GpuRowView, column: GpuColumn) -> Seq<PartView> {
    match column {
        GpuColumn::Type => seq![PartView::Text(row.gpu_type)],
        GpuColumn::Total => seq![PartView::Number(row.total as nat)],
        GpuColumn::Active => seq![PartView::Number(row.active as nat)],
        GpuColumn::Reserved => seq![PartView::Number(row.reserved as nat)],
        GpuColumn::Free => seq![PartView::Number(row.free as nat)],
    }
}

/// The key of a disk in a column; disks with the same value go by their mount point.
pub open spec fn disk_key(disk: DiskView, column: DiskColumn) -> Seq<PartView> {
    seq![
        match column {
            DiskColumn::Usage => PartView::Number(disk.use_percent as nat),
            DiskColumn::Path => PartView::Text(lowercase(disk.mount)),
            DiskColumn::Type => PartView::Text(disk.label.shown()),
            DiskColumn::Space => PartView::Number(size_said(disk.size)),
        },
        PartView::Text(disk.mount),
    ]
}

/// The key of a row of disk usage in a column; rows with the same value go by the user.
pub open spec fn usage_key(row: UsageView, column: DiskUsageColumn) -> Seq<PartView> {
    seq![
        match column {
            DiskUsageColumn::User => PartView::Text(lowercase(row.user)),
            DiskUsageColumn::Used => PartView::Number(row.bytes as nat),
            DiskUsageColumn::Entries => PartView::Number(row.entries as nat),
        },
        PartView::Text(row.user),
    ]
}

/// The key of a job by its time limit; jobs with the same limit go by their identifier.
pub open spec fn limit_key(job: JobView) -> Seq<PartView> {
    seq![PartView::Number(slurm_seconds(job.time_limit))] + id_parts(job.id)
}

/// Whether `new_rows` are `old_rows`, sorted by the column.
pub open spec fn gpu_rows_sorted(
    old_rows: Seq<GpuRowView>,
    new_rows: Seq<GpuRowView>,
    column: GpuColumn,
    direction: SortDirection,
) -> bool {
    sorted_stably(
        old_rows,
        new_rows,
        keys_of(old_rows, |x: GpuRowView| gpu_row_key(x, column)),
        direction == SortDirection::Desc,
    )
}

/// Whether `new_rows` are `old_rows`, sorted by the column.
pub open spec fn disks_sorted(
    old_rows: Seq<DiskView>,
    new_rows: Seq<DiskView>,
    column: DiskColumn,
    direction: SortDirection,
) -> bool {
    sorted_stably(
        old_rows,
        new_rows,
        keys_of(old_rows, |x: DiskView| disk_key(x, column)),
        direction == SortDirection::Desc,
    )
}

/// Whether `new_rows` are `old_rows`, sorted by the column.
pub open spec fn usage_sorted(
    old_rows: Seq<UsageView>,
    new_rows: Seq<UsageView>,
    column: DiskUsageColumn,
    direction: SortDirection,
) -> bool {
    sorted_stably(
        old_rows,
        new_rows,
        keys_of(old_rows, |x: UsageView| usage_key(x, column)),
        direction == SortDirection::Desc,
    )
}

/// The rows of GPUs, sorted by a column.
pub fn sort_gpu_rows(rows: Vec<GpuRow>, column: GpuColumn, direction: SortDirection) -> (r: Vec<GpuRow>)
    ensures
        gpu_rows_sorted(views(rows@), views(r@), column, direction),
{
    let ghost old_rows = rows@;
    let ghost shown = views(old_rows);
    let ghost wanted = keys_of(shown, |x: GpuRowView| gpu_row_key(x, column));
    let mut keys: Vec<SortKey> = Vec::new();
    let mut i: usize = 0;
    while i < rows.len()
        invariant
            i <= rows@.len(),
            keys@.len() == i,
            shown == views(rows@),
            forall|k: int| 0 <= k < i ==> (#[trigger] keys@[k])@ == gpu_row_key(shown[k], column),
        decreases rows@.len() - i,
    {
        let row = &rows[i];
        let part = match column {
            GpuColumn::Type => KeyPart::Text(to_chars(row.gpu_type.as_str())),
            GpuColumn::Total => KeyPart::Number(row.total as u128),
            GpuColumn::Active => KeyPart::Number(row.active as u128),
            GpuColumn::Reserved => KeyPart::Number(row.reserved as u128),
            GpuColumn::Free => KeyPart::Number(row.free as u128),
        };
        let key = SortKey { parts: vec![part] };
        assert(key@ =~= gpu_row_key(shown[i as int], column));
        keys.push(key);
        i += 1;
    }
    assert(keys_view(keys@) =~= wanted);
    let r = sort_rows(rows, &keys, direction.is_desc());
    proof {
        lemma_sorted_views(old_rows, r@, wanted, direction == SortDirection::Desc);
    }
    r
}

/// The disks, sorted by a column.
pub fn sort_disks(rows: Vec<DiskInfo>, column: DiskColumn, direction: SortDirection) -> (r: Vec<DiskInfo>)
    ensures
        disks_sorted(views(rows@), views(r@), column, direction),
{
    let ghost old_rows = rows@;
    let ghost shown = views(old_rows);
    let ghost wanted = keys_of(shown, |x: DiskView| disk_key(x, column));
    let mut keys: Vec<SortKey> = Vec::new();
    let mut i: usize = 0;
    while i < rows.len()
        invariant
            i <= rows@.len(),
            keys@.len() == i,
            shown == views(rows@),
            forall|k: int| 0 <= k < i ==> (#[trigger] keys@[k])@ == disk_key(shown[k], column),
        decreases rows@.len() - i,
    {
        let disk = &rows[i];
        let part = match column {
            DiskColumn::Usage => KeyPart::Number(disk.use_percent as u128),
            DiskColumn::Path => KeyPart::Text(lowered(disk.mount.as_str())),
            DiskColumn::Type => KeyPart::Text(to_chars(disk.label.as_str())),
            DiskColumn::Space => KeyPart::Number(disk_size_bytes(disk.size.as_str())),
        };
        let key = SortKey { parts: vec![part, KeyPart::Text(to_chars(disk.mount.as_str()))] };
        assert(key@ =~= disk_key(shown[i as int], column));
        keys.push(key);
        i += 1;
    }
    assert(keys_view(keys@) =~= wanted);
    let r = sort_rows(rows, &keys, direction.is_desc());
    proof {
        lemma_sorted_views(old_rows, r@, wanted, direction == SortDirection::Desc);
    }
    r
}

/// The rows of disk usage, sorted by a column.
pub fn sort_usage(rows: Vec<DiskUserUsage>, column: DiskUsageColumn, direction: SortDirection) -> (r: Vec<
    DiskUserUsage,
>)
    ensures
        usage_sorted(views(rows@), views(r@), column, direction),
{
    let ghost old_rows = rows@;
    let ghost shown = views(old_rows);
    let ghost wanted = keys_of(shown, |x: UsageView| usage_key(x, column));
    let mut keys: Vec<SortKey> = Vec::new();
    let mut i: usize = 0;
    while i < rows.len()
        invariant
            i <= rows@.len(),
            keys@.len() == i,
            shown == views(rows@),
            forall|k: int| 0 <= k < i ==> (#[trigger] keys@[k])@ == usage_key(shown[k], column),
        decreases rows@.len() - i,
    {
        let row = &rows[i];
        let part = match column {
            DiskUsageColumn::User => KeyPart::Text(lowered(row.user.as_str())),
            DiskUsageColumn::Used => KeyPart::Number(row.bytes as u128),
            DiskUsageColumn::Entries => KeyPart::Number(row.entries as u128),
        };
        let key = SortKey { parts: vec![part, KeyPart::Text(to_chars(row.user.as_str()))] };
        assert(key@ =~= usage_key(shown[i as int], column));
        keys.push(key);
        i += 1;
    }
    assert(keys_view(keys@) =~= wanted);
    let r = sort_rows(rows, &keys, direction.is_desc());
    proof {
        lemma_sorted_views(old_rows, r@, wanted, direction == SortDirection::Desc);
    }
    r
}

/// The column of jobs that a column of a user's jobs is; the time limit is none.
pub open spec fn job_column_of(column: UserJobColumn) -> Option<JobColumn> {
    match column {
        UserJobColumn::JobId => Some(JobColumn::JobId),
        UserJobColumn::Name => Some(JobColumn::Name),
        UserJobColumn::Node => Some(JobColumn::Nodes),
        UserJobColumn::Cpus => Some(JobColumn::Cpus),
        UserJobColumn::Gpus => Some(JobColumn::Gpus),
        UserJobColumn::Memory => Some(JobColumn::Memory),
        UserJobColumn::Time => Some(JobColumn::Time),
        UserJobColumn::Limit => None,
    }
}

/// Whether a sort of a user's jobs by a column compares only numbers that fit.
pub open spec fn user_jobs_sortable(jobs: Seq<JobView>, column: UserJobColumn) -> bool {
    match job_column_of(column) {
        Some(c) => jobs_sortable(jobs, c),
        None => jobs.len() > 1 ==> forall|i: int|
            0 <= i < jobs.len() ==> slurm_seconds((#[trigger] jobs[i]).time_limit) <= u64::MAX,
    }
}

/// Whether `new_jobs` are `old_jobs`, sorted by the column.
pub open spec fn user_jobs_sorted(
    old_jobs: Seq<JobView>,
    new_jobs: Seq<JobView>,
    column: UserJobColumn,
    direction: SortDirection,
) -> bool {
    match job_column_of(column) {
        Some(c) => jobs_sorted(old_jobs, new_jobs, c, direction),
        None => sorted_stably(
            old_jobs,
            new_jobs,
            keys_of(old_jobs, |j: JobView| limit_key(j)),
            direction == SortDirection::Desc,
        ),
    }
}

/// The jobs, sorted by their time limit.
fn sort_user_jobs_by_limit(jobs: Vec<Job>, direction: SortDirection) -> (r: Vec<Job>)
    requires
        user_jobs_sortable(views(jobs@), UserJobColumn::Limit),
    ensures
        user_jobs_sorted(views(jobs@), views(r@), UserJobColumn::Limit, direction),
{
    let ghost old_rows = jobs@;
    let ghost shown = views(old_rows);
    let ghost wanted = keys_of(shown, |j: JobView| limit_key(j));
    if jobs.len() <= 1 {
        proof {
            lemma_short_sorted(shown, wanted, direction == SortDirection::Desc);
        }
        return jobs;
    }
    let mut keys: Vec<SortKey> = Vec::new();
    let mut i: usize = 0;
    while i < jobs.len()
        invariant
            i <= jobs@.len(),
            keys@.len() == i,
            shown == views(jobs@),
            forall|k: int| 0 <= k < shown.len() ==> slurm_seconds((#[trigger] shown[k]).time_limit) <= u64::MAX,
            forall|k: int| 0 <= k < i ==> (#[trigger] keys@[k])@ == limit_key(shown[k]),
        decreases jobs@.len() - i,
    {
        let job = &jobs[i];
        assert(shown[i as int] == job@);
        let (base, task): (u64, u64) = job.id_sort_key();
        let key = SortKey {
            parts: vec![
                KeyPart::Number(parse_slurm_time(job.time_limit.as_str()) as u128),
                KeyPart::Number(base as u128),
                KeyPart::Number(task as u128),
            ],
        };
        assert(key@ =~= limit_key(shown[i as int]));
        keys.push(key);
        i += 1;
    }
    assert(keys_view(keys@) =~= wanted);
    let r = sort_rows(jobs, &keys, direction.is_desc());
    proof {
        lemma_sorted_views(old_rows, r@, wanted, direction == SortDirection::Desc);
    }
    r
}

/// A user's jobs, sorted by a column.
pub fn sort_user_jobs(jobs: Vec<Job>, column: UserJobColumn, direction: SortDirection) -> (r: Vec<Job>)
    requires
        user_jobs_sortable(views(jobs@), column),
    ensures
        user_jobs_sorted(views(jobs@), views(r@), column, direction),
{
    match column {
        UserJobColumn::JobId => sort_jobs(jobs, JobColumn::JobId, direction),
        UserJobColumn::Name => sort_jobs(jobs, JobColumn::Name, direction),
        UserJobColumn::Node => sort_jobs(jobs, JobColumn::Nodes, direction),
        UserJobColumn::Cpus => sort_jobs(jobs, JobColumn::Cpus, direction),
        UserJobColumn::Gpus => sort_jobs(jobs, JobColumn::Gpus, direction),
        UserJobColumn::Memory => sort_jobs(jobs, JobColumn::Memory, direction),
        UserJobColumn::Time => sort_jobs(jobs, JobColumn::Time, direction),
        UserJobColumn::Limit => sort_user_jobs_by_limit(jobs, direction),
    }
}

/// The jobs of a user in a phase, the case of the user's name aside.
pub open spec fn jobs_of_user(jobs: Seq<JobView>, user: Seq<char>, phase: Phase) -> Seq<JobView> {
    jobs.filter(|j: JobView| same_ignoring_case(j.user, user) && phase_of(j.state) == Some(phase))
}

/// The jobs of a user in a phase.
pub fn pick_user_jobs(jobs: &[Job], user: &str, phase: Phase) -> (r: Vec<Job>)
    ensures
        views(r@) == jobs_of_user(views(jobs@), user@, phase),
{
    let wanted = to_chars(user);
    let ghost keep = |j: JobView|
        same_ignoring_case(j.user, user@) && phase_of(j.state) == Some(phase);
    let ghost shown = views(jobs@);
    let mut out: Vec<Job> = Vec::new();
    let mut i: usize = 0;
    assert(views(out@) =~= shown.take(0).filter(keep));
    while i < jobs.len()
        invariant
            i <= jobs@.len(),
            shown == views(jobs@),
            wanted@ == user@,
            keep == (|j: JobView| same_ignoring_case(j.user, user@) && phase_of(j.state) == Some(phase)),
            views(out@) == shown.take(i as int).filter(keep),
        decreases jobs@.len() - i,
    {
        let ghost before = views(out@);
        proof {
            assert(shown.take(i + 1).drop_last() =~= shown.take(i as int));
            reveal(Seq::filter);
        }
        let owner = to_chars(jobs[i].user.as_str());
        if same_any_case(owner.as_slice(), wanted.as_slice()) {
            let keeps: bool = match (read_phase(jobs[i].state.as_str()), phase) {
                (Some(Phase::Running), Phase::Running) => true,
                (Some(Phase::Pending), Phase::Pending) => true,
                _ => false,
            };
            if keeps {
                out.push(jobs[i].clone());
                assert(views(out@) =~= before.push(shown[i as int]));
            }
        }
        i += 1;
    }
    assert(shown.take(i as int) =~= shown);
    out
}

/// The kind of a row of the summary.
#[derive(Debug, Clone, Copy, PartialEq, Eq, Structural)]
pub enum SummaryRowKind {
    All,
    Me,
    User,
    Others,
}

/// A row of the summary.
#[derive(Debug, PartialEq, Eq)]
pub struct SummaryDisplayRow {
    pub label: String,
    pub summary: OwnerSummary,
    pub kind: SummaryRowKind,
}

/// What a row of the summary stands for.
#[verifier::ext_equal]
pub struct SummaryRowView {
    pub label: Seq<char>,
    pub summary: OwnerSummary,
    pub kind: SummaryRowKind,
}

impl View for SummaryDisplayRow {
    type V = SummaryRowView;

    open spec fn view(&self) -> SummaryRowView {
        SummaryRowView { label: self.label@, summary: self.summary, kind: self.kind }
    }
}

/// The jobs of an owner.
pub open spec fn owner_jobs(s: OwnerSummary) -> nat {
    s.running.jobs as nat + s.pending.jobs as nat
}

/// The jobs of an owner.
pub fn summary_total_jobs(summary: &OwnerSummary) -> (r: u64)
    requires
        owner_jobs(*summary) <= u64::MAX,
    ensures
        r == owner_jobs(*summary),
{
    summary.running.jobs + summary.pending.jobs
}

/// How much the owners of a list count together.
pub open spec fn list_sum(list: Seq<(Seq<char>, OwnerSummary)>, phase: Phase, m: Measure) -> nat {
    sum_of(list, |e: (Seq<char>, OwnerSummary)| owner_field(e.1, phase, m))
}

/// Whether what the owners of a list count together fits.
pub open spec fn owners_fit(list: Seq<(Seq<char>, OwnerSummary)>) -> bool {
    &&& forall|phase: Phase, m: Measure| #[trigger] list_sum(list, phase, m) <= u64::MAX
    &&& list_sum(list, Phase::Running, Measure::Jobs) + list_sum(list, Phase::Pending, Measure::Jobs)
        <= u64::MAX
}

/// Whether a summary is the sum of those of a list.
pub open spec fn is_sum(s: OwnerSummary, list: Seq<(Seq<char>, OwnerSummary)>) -> bool {
    forall|phase: Phase, m: Measure| #[trigger] owner_field(s, phase, m) == list_sum(list, phase, m)
}

/// The owners of a map other than the current user.
pub open spec fn other_owners(users: Seq<(Seq<char>, OwnerSummary)>, current_user: Seq<char>) -> Seq<
    (Seq<char>, OwnerSummary),
> {
    users.filter(not_theirs(current_user))
}

/// Tells an owner from a user.
pub open spec fn not_theirs(user: Seq<char>) -> spec_fn((Seq<char>, OwnerSummary)) -> bool {
    |e: (Seq<char>, OwnerSummary)| e.0 != user
}

/// The rows of users.
pub open spec fn user_rows(list: Seq<(Seq<char>, OwnerSummary)>) -> Seq<SummaryRowView> {
    Seq::new(
        list.len(),
        |i: int| SummaryRowView { label: list[i].0, summary: list[i].1, kind: SummaryRowKind::User },
    )
}

/// The rows of the summary: all users, the current one, the ten others with the most jobs, and the
/// sum of the rest.
pub open spec fn are_summary_rows(
    rows: Seq<SummaryRowView>,
    all: OwnerSummary,
    me: OwnerSummary,
    ranked: Seq<(Seq<char>, OwnerSummary)>,
) -> bool {
    let head = seq![
        SummaryRowView { label: "All"@, summary: all, kind: SummaryRowKind::All },
        SummaryRowView { label: "Me"@, summary: me, kind: SummaryRowKind::Me },
    ];
    if ranked.len() <= 10 {
        rows == head + user_rows(ranked)
    } else {
        &&& rows.len() == 13
        &&& rows.take(12) == head + user_rows(ranked.take(10))
        &&& rows[12].label == "Others"@
        &&& rows[12].kind == SummaryRowKind::Others
        &&& is_sum(rows[12].summary, ranked.skip(10))
    }
}

/// Whether `ranked` are the owners with the most jobs first, and by name where they have as many.
pub open spec fn is_ranking(
    owners: Seq<(Seq<char>, OwnerSummary)>,
    ranked: Seq<(Seq<char>, OwnerSummary)>,
) -> bool {
    sorted_stably(
        owners,
        ranked,
        keys_of(owners, |e: (Seq<char>, OwnerSummary)| seq![PartView::Number(owner_jobs(e.1))]),
        true,
    )
}

/// Whether these are the rows of the summary of users.
pub open spec fn summary_rows_are(
    rows: Seq<SummaryRowView>,
    all: OwnerSummary,
    me: OwnerSummary,
    users: Seq<(Seq<char>, OwnerSummary)>,
    current_user: Seq<char>,
) -> bool {
    exists|ranked: Seq<(Seq<char>, OwnerSummary)>| #[trigger]
        is_ranking(other_owners(users, current_user), ranked) && are_summary_rows(rows, all, me, ranked)
}

/// Adds one summary to another.
pub fn merge_owner_summary(total: &mut OwnerSummary, stats: &OwnerSummary)
    requires
        forall|phase: Phase, m: Measure|
            #[trigger] owner_field(*old(total), phase, m) + owner_field(*stats, phase, m) <= u64::MAX,
    ensures
        forall|phase: Phase, m: Measure|
            #[trigger] owner_field(*final(total), phase, m) == owner_field(*old(total), phase, m)
                + owner_field(*stats, phase, m),
{
    proof {
        let t = *total;
        assert(owner_field(t, Phase::Running, Measure::Jobs) + owner_field(*stats, Phase::Running, Measure::Jobs) <= u64::MAX);
        assert(owner_field(t, Phase::Running, Measure::Cpus) + owner_field(*stats, Phase::Running, Measure::Cpus) <= u64::MAX);
        assert(owner_field(t, Phase::Running, Measure::Memory) + owner_field(*stats, Phase::Running, Measure::Memory) <= u64::MAX);
        assert(owner_field(t, Phase::Running, Measure::Gpus) + owner_field(*stats, Phase::Running, Measure::Gpus) <= u64::MAX);
        assert(owner_field(t, Phase::Pending, Measure::Jobs) + owner_field(*stats, Phase::Pending, Measure::Jobs) <= u64::MAX);
        assert(owner_field(t, Phase::Pending, Measure::Cpus) + owner_field(*stats, Phase::Pending, Measure::Cpus) <= u64::MAX);
        assert(owner_field(t, Phase::Pending, Measure::Memory) + owner_field(*stats, Phase::Pending, Measure::Memory) <= u64::MAX);
        assert(owner_field(t, Phase::Pending, Measure::Gpus) + owner_field(*stats, Phase::Pending, Measure::Gpus) <= u64::MAX);
    }
    total.running.jobs = total.running.jobs + stats.running.jobs;
    total.running.cpus = total.running.cpus + stats.running.cpus;
    total.running.gpus = total.running.gpus + stats.running.gpus;
    total.running.memory = MemoryMb(total.running.memory.0 + stats.running.memory.0);
    total.pending.jobs = total.pending.jobs + stats.pending.jobs;
    total.pending.cpus = total.pending.cpus + stats.pending.cpus;
    total.pending.gpus = total.pending.gpus + stats.pending.gpus;
    total.pending.memory = MemoryMb(total.pending.memory.0 + stats.pending.memory.0);
}

proof fn lemma_sum_remove<T>(rows: Seq<T>, p: int, f: spec_fn(T) -> nat)
    requires
        0 <= p < rows.len(),
    ensures
        sum_of(rows, f) == sum_of(rows.remove(p), f) + f(rows[p]),
    decreases rows.len(),
{
    let n = rows.len() - 1;
    if p == n {
        assert(rows.remove(p) =~= rows.drop_last());
    } else {
        lemma_sum_remove(rows.drop_last(), p, f);
        assert(rows.remove(p).drop_last() =~= rows.drop_last().remove(p));
    }
}

/// A sum over rows in another order is the same.
proof fn lemma_sum_arranged<T>(rows: Seq<T>, order: Seq<int>, f: spec_fn(T) -> nat)
    requires
        order.len() == rows.len(),
        order.no_duplicates(),
        forall|i: int| 0 <= i < order.len() ==> 0 <= #[trigger] order[i] < rows.len(),
        forall|k: int| 0 <= k < rows.len() ==> #[trigger] order.contains(k),
    ensures
        sum_of(arrange(rows, order), f) == sum_of(rows, f),
    decreases rows.len(),
{
    if rows.len() > 0 {
        let last = rows.len() - 1;
        assert(order.contains(last));
        let p = choose|p: int| 0 <= p < order.len() && order[p] == last;
        let shorter = order.remove(p);
        let fewer = rows.drop_last();
        assert forall|i: int| 0 <= i < shorter.len() implies 0 <= #[trigger] shorter[i] < fewer.len() by {
            let at = if i < p { i } else { i + 1 };
            assert(shorter[i] == order[at]);
            assert(order[at] != order[p]);
        }
        assert(shorter.no_duplicates()) by {
            assert forall|i: int, j: int| 0 <= i < j < shorter.len() implies shorter[i] != shorter[j] by {
                let ai = if i < p { i } else { i + 1 };
                let aj = if j < p { j } else { j + 1 };
                assert(shorter[i] == order[ai] && shorter[j] == order[aj]);
            }
        }
        assert forall|k: int| 0 <= k < fewer.len() implies #[trigger] shorter.contains(k) by {
            assert(order.contains(k));
            let at = choose|at: int| 0 <= at < order.len() && order[at] == k;
            let i = if at < p { at } else { at - 1 };
            assert(shorter[i] == k);
        }
        lemma_sum_arranged(fewer, shorter, f);
        let out = arrange(rows, order);
        assert(arrange(fewer, shorter) =~= out.remove(p)) by {
            assert forall|i: int| 0 <= i < shorter.len() implies arrange(fewer, shorter)[i] == out.remove(p)[i] by {
                let at = if i < p { i } else { i + 1 };
                assert(shorter[i] == order[at]);
            }
        }
        lemma_sum_remove(out, p, f);
    }
}

proof fn lemma_sum_split<T>(rows: Seq<T>, n: int, f: spec_fn(T) -> nat)
    requires
        0 <= n <= rows.len(),
    ensures
        sum_of(rows, f) == sum_of(rows.take(n), f) + sum_of(rows.skip(n), f),
    decreases rows.len(),
{
    if n < rows.len() {
        lemma_sum_split(rows.drop_last(), n, f);
        assert(rows.drop_last().take(n) =~= rows.take(n));
        assert(rows.drop_last().skip(n) =~= rows.skip(n).drop_last());
    } else {
        assert(rows.take(n) =~= rows);
        assert(rows.skip(n) =~= Seq::empty());
    }
}

proof fn lemma_sum_filter<T>(rows: Seq<T>, keep: spec_fn(T) -> bool, f: spec_fn(T) -> nat)
    ensures
        sum_of(rows.filter(keep), f) <= sum_of(rows, f),
    decreases rows.len(),
{
    reveal(Seq::filter);
    if rows.len() > 0 {
        lemma_sum_filter(rows.drop_last(), keep, f);
        if keep(rows.last()) {
            assert(rows.filter(keep).drop_last() =~= rows.drop_last().filter(keep));
        }
    }
}

/// The rest of a ranking of some owners of a list that fits, from any place on, fits.
proof fn lemma_rest_fits(
    users: Seq<(Seq<char>, OwnerSummary)>,
    current_user: Seq<char>,
    ranked: Seq<(Seq<char>, OwnerSummary)>,
    n: int,
)
    requires
        owners_fit(users),
        is_ranking(other_owners(users, current_user), ranked),
        0 <= n <= ranked.len(),
    ensures
        owners_fit(ranked.skip(n)),
        forall|phase: Phase, m: Measure| #[trigger]
            list_sum(ranked.skip(n), phase, m) <= list_sum(users, phase, m),
        ranked.len() == other_owners(users, current_user).len(),
{
    let owners = other_owners(users, current_user);
    let keys = keys_of(owners, |e: (Seq<char>, OwnerSummary)| seq![PartView::Number(owner_jobs(e.1))]);
    let order = choose|order: Seq<int>| #[trigger]
        is_stable_order(keys, true, order) && ranked == arrange(owners, order);
    lemma_run_has(keys, true, order, keys.len() as int);
    assert forall|phase: Phase, m: Measure| #[trigger] list_sum(ranked.skip(n), phase, m) <= list_sum(
        users,
        phase,
        m,
    ) by {
        let f = |e: (Seq<char>, OwnerSummary)| owner_field(e.1, phase, m);
        lemma_sum_arranged(owners, order, f);
        lemma_sum_split(ranked, n, f);
        lemma_sum_filter(users, not_theirs(current_user), f);
    }
    assert forall|phase: Phase, m: Measure| #[trigger] list_sum(ranked.skip(n), phase, m) <= u64::MAX by {
        assert(list_sum(users, phase, m) <= u64::MAX);
    }
    assert(list_sum(ranked.skip(n), Phase::Running, Measure::Jobs) <= list_sum(users, Phase::Running, Measure::Jobs));
    assert(list_sum(ranked.skip(n), Phase::Pending, Measure::Jobs) <= list_sum(users, Phase::Pending, Measure::Jobs));
}

/// One owner of a list that fits has a number of jobs that fits.
proof fn lemma_member_fits(list: Seq<(Seq<char>, OwnerSummary)>, i: int)
    requires
        owners_fit(list),
        0 <= i < list.len(),
    ensures
        owner_jobs(list[i].1) <= u64::MAX,
{
    let r = |e: (Seq<char>, OwnerSummary)| owner_field(e.1, Phase::Running, Measure::Jobs);
    let p = |e: (Seq<char>, OwnerSummary)| owner_field(e.1, Phase::Pending, Measure::Jobs);
    lemma_sum_remove(list, i, r);
    lemma_sum_remove(list, i, p);
}

/// A user of the summary.
#[derive(Debug)]
struct Owner {
    name: String,
    summary: OwnerSummary,
}

/// What the users of a list stand for.
spec fn owners_view(list: Seq<Owner>) -> Seq<(Seq<char>, OwnerSummary)> {
    Seq::new(list.len(), |i: int| (list[i].name@, list[i].summary))
}

/// The owners of a map other than the current user, the ones with the most jobs first.
fn rank_owners(users: &TextMap<OwnerSummary>, current_user: &str) -> (r: Vec<Owner>)
    requires
        owners_fit(users@),
    ensures
        is_ranking(other_owners(users@, current_user@), owners_view(r@)),
{
    let mine = to_chars(current_user);
    let n: usize = users.len();
    let ghost keep = not_theirs(current_user@);
    let mut owners: Vec<Owner> = Vec::new();
    let mut keys: Vec<SortKey> = Vec::new();
    let mut i: usize = 0;
    assert(owners_view(owners@) =~= users@.take(0).filter(keep));
    while i < n
        invariant
            i <= n,
            n == users@.len(),
            owners_fit(users@),
            mine@ == current_user@,
            keep == not_theirs(current_user@),
            owners_view(owners@) == users@.take(i as int).filter(keep),
            keys@.len() == owners@.len(),
            forall|k: int|
                0 <= k < keys@.len() ==> (#[trigger] keys@[k])@ == seq![
                    PartView::Number(owner_jobs(owners@[k].summary)),
                ],
        decreases n - i,
    {
        let ghost before = owners_view(owners@);
        proof {
            assert(users@.take(i + 1).drop_last() =~= users@.take(i as int));
            reveal(Seq::filter);
            lemma_member_fits(users@, i as int);
        }
        let name = users.key_at(i);
        let summary = *users.value_at(i);
        if !is_text(mine.as_slice(), name.as_str()) {
            owners.push(Owner { name: name.clone(), summary });
            assert(owners_view(owners@) =~= before.push(users@[i as int]));
            let key = SortKey { parts: vec![KeyPart::Number(summary_total_jobs(&summary) as u128)] };
            assert(key@ =~= seq![PartView::Number(owner_jobs(summary))]);
            keys.push(key);
        }
        i += 1;
    }
    assert(users@.take(i as int) =~= users@);
    let ghost shown = owners_view(owners@);
    let ghost listed = owners@;
    let ghost wanted = keys_of(
        shown,
        |e: (Seq<char>, OwnerSummary)| seq![PartView::Number(owner_jobs(e.1))],
    );
    assert(keys_view(keys@) =~= wanted);
    let r = sort_rows(owners, &keys, true);
    proof {
        let order = choose|order: Seq<int>| #[trigger]
            is_stable_order(wanted, true, order) && r@ == arrange(listed, order);
        assert(owners_view(r@) =~= arrange(shown, order));
        assert(is_stable_order(wanted, true, order) && owners_view(r@) == arrange(shown, order));
    }
    r
}

/// The rows of the summary: all users, the current one, the ten others with the most jobs, and the
/// sum of the rest.
pub fn summary_display_rows(
    all: OwnerSummary,
    me: OwnerSummary,
    users: &TextMap<OwnerSummary>,
    current_user: &str,
) -> (r: Vec<SummaryDisplayRow>)
    requires
        owners_fit(users@),
    ensures
        summary_rows_are(views(r@), all, me, users@, current_user@),
        2 <= r@.len() <= 13,
{
    let ranked = rank_owners(users, current_user);
    let ghost list = owners_view(ranked@);
    let ghost head = seq![
        SummaryRowView { label: "All"@, summary: all, kind: SummaryRowKind::All },
        SummaryRowView { label: "Me"@, summary: me, kind: SummaryRowKind::Me },
    ];
    let mut rows = vec![
        SummaryDisplayRow { label: "All".to_string(), summary: all, kind: SummaryRowKind::All },
        SummaryDisplayRow { label: "Me".to_string(), summary: me, kind: SummaryRowKind::Me },
    ];
    let shown: usize = if ranked.len() < 10 {
        ranked.len()
    } else {
        10
    };
    let mut i: usize = 0;
    assert(views(rows@) =~= head + user_rows(list.take(0)));
    while i < shown
        invariant
            i <= shown <= ranked@.len(),
            shown <= 10,
            list == owners_view(ranked@),
            head.len() == 2,
            views(rows@) == head + user_rows(list.take(i as int)),
        decreases shown - i,
    {
        let ghost before = views(rows@);
        rows.push(
            SummaryDisplayRow {
                label: ranked[i].name.clone(),
                summary: ranked[i].summary,
                kind: SummaryRowKind::User,
            },
        );
        assert(views(rows@) =~= before.push(
            SummaryRowView { label: list[i as int].0, summary: list[i as int].1, kind: SummaryRowKind::User },
        ));
        assert(user_rows(list.take(i + 1)) =~= user_rows(list.take(i as int)).push(
            SummaryRowView { label: list[i as int].0, summary: list[i as int].1, kind: SummaryRowKind::User },
        ));
        assert(head + user_rows(list.take(i + 1)) =~= before.push(
            SummaryRowView { label: list[i as int].0, summary: list[i as int].1, kind: SummaryRowKind::User },
        ));
        i += 1;
    }
    assert(views(rows@).len() == rows@.len());
    if ranked.len() <= 10 {
        assert(list.take(i as int) =~= list);
        assert(are_summary_rows(views(rows@), all, me, list));
        return rows;
    }
    let ghost rest = list.skip(10);
    let mut total = OwnerSummary::default();
    proof {
        lemma_rest_fits(users@, current_user@, list, 10);
    }
    let mut j: usize = 10;
    assert(list.skip(10).take(0) =~= Seq::empty());
    while j < ranked.len()
        invariant
            10 <= j <= ranked@.len(),
            list == owners_view(ranked@),
            rest == list.skip(10),
            owners_fit(rest),
            is_sum(total, rest.take(j - 10)),
        decreases ranked@.len() - j,
    {
        proof {
            let k = j - 10;
            assert(rest.take(k + 1).drop_last() =~= rest.take(k));
            assert(rest[k] == list[j as int]);
            assert forall|phase: Phase, m: Measure|
                #[trigger] owner_field(total, phase, m) + owner_field(ranked@[j as int].summary, phase, m) <= u64::MAX by {
                let f = |e: (Seq<char>, OwnerSummary)| owner_field(e.1, phase, m);
                lemma_sum_split(rest, k + 1, f);
                assert(owner_field(total, phase, m) == list_sum(rest.take(k), phase, m));
                assert(list_sum(rest, phase, m) <= u64::MAX);
            }
        }
        let ghost before = total;
        merge_owner_summary(&mut total, &ranked[j].summary);
        proof {
            let k = j - 10;
            assert forall|phase: Phase, m: Measure|
                #[trigger] owner_field(total, phase, m) == list_sum(rest.take(k + 1), phase, m) by {
                assert(owner_field(before, phase, m) == list_sum(rest.take(k), phase, m));
                assert(owner_field(total, phase, m) == owner_field(before, phase, m) + owner_field(
                    ranked@[j as int].summary,
                    phase,
                    m,
                ));
            }
        }
        j += 1;
    }
    assert(rest.take(j - 10) =~= rest);
    let ghost first = views(rows@);
    rows.push(
        SummaryDisplayRow { label: "Others".to_string(), summary: total, kind: SummaryRowKind::Others },
    );
    assert(views(rows@).take(12) =~= first);
    assert(are_summary_rows(views(rows@), all, me, list));
    rows
}

/// Whether what the owners of a map count together fits.
pub fn owners_in_range(users: &TextMap<OwnerSummary>) -> (r: bool)
    ensures
        r == owners_fit(users@),
{
    let n: usize = users.len();
    let mut total = OwnerSummary::default();
    let mut i: usize = 0;
    assert(users@.take(0) =~= Seq::empty());
    while i < n
        invariant
            i <= n,
            n == users@.len(),
            is_sum(total, users@.take(i as int)),
        decreases n - i,
    {
        let stats = *users.value_at(i);
        proof {
            assert(users@.take(i + 1).drop_last() =~= users@.take(i as int));
            assert forall|phase: Phase, m: Measure|
                #[trigger] owner_field(total, phase, m) + owner_field(stats, phase, m) <= list_sum(
                    users@,
                    phase,
                    m,
                ) by {
                let f = |e: (Seq<char>, OwnerSummary)| owner_field(e.1, phase, m);
                lemma_sum_split(users@, i + 1, f);
                assert(owner_field(total, phase, m) == list_sum(users@.take(i as int), phase, m));
            }
        }
        if !merge_fits(&total, &stats) {
            proof {
                let (phase, m) = choose|phase: Phase, m: Measure|
                    #[trigger] owner_field(total, phase, m) + owner_field(stats, phase, m) > u64::MAX;
                assert(list_sum(users@, phase, m) > u64::MAX);
            }
            return false;
        }
        let ghost before = total;
        merge_owner_summary(&mut total, &stats);
        proof {
            assert forall|phase: Phase, m: Measure|
                #[trigger] owner_field(total, phase, m) == list_sum(users@.take(i + 1), phase, m) by {
                assert(owner_field(before, phase, m) == list_sum(users@.take(i as int), phase, m));
                assert(owner_field(total, phase, m) == owner_field(before, phase, m) + owner_field(
                    stats,
                    phase,
                    m,
                ));
            }
        }
        i += 1;
    }
    assert(users@.take(i as int) =~= users@);
    proof {
        assert forall|phase: Phase, m: Measure| #[trigger] list_sum(users@, phase, m) <= u64::MAX by {
            assert(owner_field(total, phase, m) == list_sum(users@, phase, m));
        }
        assert(owner_field(total, Phase::Running, Measure::Jobs) == list_sum(users@, Phase::Running, Measure::Jobs));
        assert(owner_field(total, Phase::Pending, Measure::Jobs) == list_sum(users@, Phase::Pending, Measure::Jobs));
    }
    total.running.jobs.checked_add(total.pending.jobs).is_some()
}

/// Whether the sum of two summaries fits.
fn merge_fits(a: &OwnerSummary, b: &OwnerSummary) -> (r: bool)
    ensures
        r == forall|phase: Phase, m: Measure|
            #[trigger] owner_field(*a, phase, m) + owner_field(*b, phase, m) <= u64::MAX,
{
    let r: bool = a.running.jobs.checked_add(b.running.jobs).is_some() && a.running.cpus.checked_add(
        b.running.cpus,
    ).is_some() && a.running.memory.0.checked_add(b.running.memory.0).is_some()
        && a.running.gpus.checked_add(b.running.gpus).is_some() && a.pending.jobs.checked_add(
        b.pending.jobs,
    ).is_some() && a.pending.cpus.checked_add(b.pending.cpus).is_some()
        && a.pending.memory.0.checked_add(b.pending.memory.0).is_some()
        && a.pending.gpus.checked_add(b.pending.gpus).is_some();
    proof {
        if !r {
            let fits = |phase: Phase, m: Measure|
                owner_field(*a, phase, m) + owner_field(*b, phase, m) <= u64::MAX;
            assert(!(fits(Phase::Running, Measure::Jobs) && fits(Phase::Running, Measure::Cpus) && fits(
                Phase::Running,
                Measure::Memory,
            ) && fits(Phase::Running, Measure::Gpus) && fits(Phase::Pending, Measure::Jobs) && fits(
                Phase::Pending,
                Measure::Cpus,
            ) && fits(Phase::Pending, Measure::Memory) && fits(Phase::Pending, Measure::Gpus)));
        }
    }
    r
}

/// How much the rows of a summary count together.
pub open spec fn rows_sum(rows: Seq<SummaryRowView>, phase: Phase, m: Measure) -> nat {
    sum_of(rows, row_field(phase, m))
}

/// What a row of a summary counts.
pub open spec fn row_field(phase: Phase, m: Measure) -> spec_fn(SummaryRowView) -> nat {
    |row: SummaryRowView| owner_field(row.summary, phase, m)
}

proof fn lemma_sum_without(
    users: Seq<(Seq<char>, OwnerSummary)>,
    user: Seq<char>,
    f: spec_fn((Seq<char>, OwnerSummary)) -> nat,
)
    requires
        ascending(users),
    ensures
        sum_of(users, f) == sum_of(other_owners(users, user), f) + match lookup(users, user) {
            Some(s) => f((user, s)),
            None => 0,
        },
    decreases users.len(),
{
    reveal(Seq::filter);
    if users.len() > 0 {
        let n = users.len() - 1;
        let fewer = users.drop_last();
        assert(ascending(fewer)) by {
            assert forall|i: int, j: int| 0 <= i < j < fewer.len() implies text_before(
                #[trigger] fewer[i].0,
                #[trigger] fewer[j].0,
            ) by {
                assert(fewer[i] == users[i] && fewer[j] == users[j]);
            }
        }
        lemma_sum_without(fewer, user, f);
        let i = lemma_lookup_position(fewer, user);
        let j = lemma_lookup_position(users, user);
        if users[n].0 == user {
            lemma_lookup_at(users, n);
            if lookup(fewer, user) is Some {
                assert(users[i] == fewer[i]);
                assert(text_before(users[i].0, users[n].0));
                lemma_text_before_total(user, user);
            }
        } else {
            assert(other_owners(users, user).drop_last() =~= other_owners(fewer, user));
            if lookup(fewer, user) is Some {
                assert(users[i] == fewer[i]);
                lemma_lookup_at(users, i);
            } else if lookup(users, user) is Some {
                assert(fewer[j] == users[j]);
                lemma_lookup_at(fewer, j);
            }
        }
    }
}

proof fn lemma_sum_rows(list: Seq<(Seq<char>, OwnerSummary)>, phase: Phase, m: Measure)
    ensures
        rows_sum(user_rows(list), phase, m) == list_sum(list, phase, m),
    decreases list.len(),
{
    if list.len() > 0 {
        lemma_sum_rows(list.drop_last(), phase, m);
        assert(user_rows(list).drop_last() =~= user_rows(list.drop_last()));
    }
}

proof fn lemma_sum_append<T>(a: Seq<T>, b: Seq<T>, f: spec_fn(T) -> nat)
    ensures
        sum_of(a + b, f) == sum_of(a, f) + sum_of(b, f),
{
    lemma_sum_split(a + b, a.len() as int, f);
    assert((a + b).take(a.len() as int) =~= a);
    assert((a + b).skip(a.len() as int) =~= b);
}

proof fn lemma_sum_one<T>(x: T, f: spec_fn(T) -> nat)
    ensures
        sum_of(seq![x], f) == f(x),
{
    reveal_with_fuel(sum_of, 2);
}

/// The rows of a summary add up: the row of all users counts what the rows below it count together.
pub proof fn law_summary_rows_add_up(
    s: JobSummary,
    jobs: Seq<JobView>,
    current_user: Seq<char>,
    rows: Seq<SummaryRowView>,
    phase: Phase,
    m: Measure,
)
    requires
        summary_is(s, jobs, current_user),
        summary_rows_are(rows, s.all, s.me, s.users@, current_user),
    ensures
        rows.len() >= 2,
        owner_field(rows[0].summary, phase, m) == rows_sum(rows.skip(1), phase, m),
{
    let users = s.users@;
    let owners = other_owners(users, current_user);
    let ranked = choose|ranked: Seq<(Seq<char>, OwnerSummary)>| #[trigger]
        is_ranking(owners, ranked) && are_summary_rows(rows, s.all, s.me, ranked);
    let f = |e: (Seq<char>, OwnerSummary)| owner_field(e.1, phase, m);
    law_users_make_all(s, jobs, current_user, phase, m);
    lemma_sum_without(users, current_user, f);
    let keys = keys_of(owners, |e: (Seq<char>, OwnerSummary)| seq![PartView::Number(owner_jobs(e.1))]);
    let order = choose|order: Seq<int>| #[trigger]
        is_stable_order(keys, true, order) && ranked == arrange(owners, order);
    lemma_run_has(keys, true, order, keys.len() as int);
    lemma_sum_arranged(owners, order, f);
    match lookup(users, current_user) {
        Some(mine) => {
            assert(owner_is(mine, jobs, only(current_user)));
        },
        None => {
            lemma_stranger(jobs, current_user);
        },
    }
    let me = seq![SummaryRowView { label: "Me"@, summary: s.me, kind: SummaryRowKind::Me }];
    lemma_sum_one(me[0], row_field(phase, m));
    if ranked.len() <= 10 {
        assert(rows.skip(1) =~= me + user_rows(ranked));
        lemma_sum_append(me, user_rows(ranked), row_field(phase, m));
        lemma_sum_rows(ranked, phase, m);
    } else {
        let last = seq![rows[12]];
        let first = ranked.take(10);
        assert(rows[0] == rows.take(12)[0]);
        assert(rows.skip(1) =~= (me + user_rows(first)) + last) by {
            assert forall|i: int| 0 <= i < 12 implies rows.skip(1)[i] == ((me + user_rows(first)) + last)[i] by {
                if i < 11 {
                    assert(rows.take(12)[i + 1] == rows[i + 1]);
                }
            }
        }
        lemma_sum_append(me + user_rows(first), last, row_field(phase, m));
        lemma_sum_append(me, user_rows(first), row_field(phase, m));
        lemma_sum_rows(first, phase, m);
        lemma_sum_split(ranked, 10, f);
        lemma_sum_one(rows[12], row_field(phase, m));
        assert(owner_field(rows[12].summary, phase, m) == list_sum(ranked.skip(10), phase, m));
    }
}

} // verus!
