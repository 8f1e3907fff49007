//! Sorting jobs, nodes and accounting records by column.

use vstd::prelude::*;

use crate::model::job_number;
use crate::model::numeric_job_id;
use crate::model::parse_slurm_time;
use crate::model::rank_of_state;
use crate::model::slurm_seconds;
use crate::model::views;
use crate::model::AccountingRecord;
use crate::model::Job;
use crate::model::JobView;
use crate::model::Node;
use crate::model::NodeView;
use crate::model::RecordView;
use crate::order::arrange;
use crate::order::is_stable_order;
use crate::order::keys_view;
use crate::order::sort_rows;
use crate::order::sorted_stably;
use crate::order::KeyPart;
use crate::order::PartView;
use crate::order::SortKey;
use crate::text::lowercase;
use crate::text::lowered;
use crate::text::to_chars;
use crate::units::SortDirection;

verus! {

/// A column by which jobs are sorted.
#[derive(Debug, Clone, Copy, PartialEq, Eq, Structural)]
pub enum JobColumn {
    State,
    JobId,
    User,
    Partition,
    Qos,
    Priority,
    Name,
    Nodes,
    Cpus,
    Gpus,
    Memory,
    Time,
}

/// A column by which nodes are sorted.
#[derive(Debug, Clone, Copy, PartialEq, Eq, Structural)]
pub enum NodeColumn {
    State,
    Name,
    CpusTotal,
    CpusFree,
    MemoryTotal,
    MemoryFree,
    GpusTotal,
    GpusFree,
}

/// A column by which accounting records are sorted.
#[derive(Debug, Clone, Copy, PartialEq, Eq, Structural)]
pub enum AccountingColumn {
    JobId,
    User,
    State,
    Partition,
    Cpus,
    Memory,
    Elapsed,
    End,
}

impl Default for JobColumn {
    fn default() -> (r: Self)
        ensures
            r == JobColumn::State,
    {
        JobColumn::State
    }
}

impl Default for NodeColumn {
    fn default() -> (r: Self)
        ensures
            r == NodeColumn::State,
    {
        NodeColumn::State
    }
}

impl Default for AccountingColumn {
    fn default() -> (r: Self)
        ensures
            r == AccountingColumn::JobId,
    {
        AccountingColumn::JobId
    }
}

/// The key of one number.
pub open spec fn number_part(n: nat) -> Seq<PartView> {
    seq![PartView::Number(n)]
}

/// The key of one text.
pub open spec fn text_part(t: Seq<char>) -> Seq<PartView> {
    seq![PartView::Text(t)]
}

/// The key of one text in lower case.
pub open spec fn lower_part(t: Seq<char>) -> Seq<PartView> {
    text_part(lowercase(t))
}

/// The key of a job identifier.
pub open spec fn id_parts(id: Seq<char>) -> Seq<PartView> {
    seq![PartView::Number(job_number(id).0 as nat), PartView::Number(job_number(id).1 as nat)]
}

/// The key of a job in a column.
pub open spec fn job_key(job: JobView, column: JobColumn) -> Seq<PartView> {
    match column {
        JobColumn::State => number_part(rank_of_state(job.state) as nat) + id_parts(job.id),
        JobColumn::JobId => id_parts(job.id),
        JobColumn::User => lower_part(job.user),
        JobColumn::Partition => lower_part(job.partition),
        JobColumn::Qos => lower_part(job.qos),
        JobColumn::Priority => number_part(job.priority as nat),
        JobColumn::Name => lower_part(job.name),
        JobColumn::Nodes => text_part(job.nodes),
        JobColumn::Cpus => number_part(job.cpus as nat),
        JobColumn::Gpus => number_part(job.gpu_count()),
        JobColumn::Memory => number_part(job.memory.0 as nat),
        JobColumn::Time => number_part(slurm_seconds(job.time_used)),
    }
}

/// The key of a node in a column.
pub open spec fn node_key(node: NodeView, column: NodeColumn) -> Seq<PartView> {
    match column {
        NodeColumn::State => lower_part(node.state),
        NodeColumn::Name => text_part(node.name),
        NodeColumn::CpusTotal => number_part(node.cpus.total as nat),
        NodeColumn::CpusFree => number_part(node.cpus.idle as nat),
        NodeColumn::MemoryTotal => number_part(node.memory_total.0 as nat),
        NodeColumn::MemoryFree => number_part(node.memory_free.0 as nat),
        NodeColumn::GpusTotal => number_part(node.gpu_count()),
        NodeColumn::GpusFree => number_part(node.gpu_free()),
    }
}

/// The key of an accounting record in a column.
pub open spec fn record_key(row: RecordView, column: AccountingColumn) -> Seq<PartView> {
    match column {
        AccountingColumn::JobId => id_parts(row.job_id),
        AccountingColumn::User => lower_part(row.user),
        AccountingColumn::State => lower_part(row.state),
        AccountingColumn::Partition => lower_part(row.partition),
        AccountingColumn::Cpus => number_part(row.cpus as nat),
        AccountingColumn::Memory => number_part(row.memory.0 as nat),
        AccountingColumn::Elapsed => text_part(row.elapsed),
        AccountingColumn::End => text_part(row.end),
    }
}

/// The keys of a list of rows.
pub open spec fn keys_of<T>(rows: Seq<T>, key: spec_fn(T) -> Seq<PartView>) -> Seq<Seq<PartView>> {
    Seq::new(rows.len(), |i: int| key(rows[i]))
}

/// Whether the numbers that a column compares fit, for a job.
pub open spec fn job_key_fits(job: JobView, column: JobColumn) -> bool {
    match column {
        JobColumn::Gpus => job.gpu_count() <= u64::MAX,
        JobColumn::Time => slurm_seconds(job.time_used) <= u64::MAX,
        _ => true,
    }
}

/// Whether the numbers that a column compares fit, for a node.
pub open spec fn node_key_fits(node: NodeView, column: NodeColumn) -> bool {
    match column {
        NodeColumn::GpusTotal => node.gpu_count() <= u64::MAX,
        NodeColumn::GpusFree => node.gpu_count() <= u64::MAX && node.gpu_used() <= u64::MAX,
        _ => true,
    }
}

/// Whether a sort of these jobs by a column compares only numbers that fit.
pub open spec fn jobs_sortable(jobs: Seq<JobView>, column: JobColumn) -> bool {
    jobs.len() > 1 ==> forall|i: int| 0 <= i < jobs.len() ==> job_key_fits(#[trigger] jobs[i], column)
}

/// Whether a sort of these nodes by a column compares only numbers that fit.
pub open spec fn nodes_sortable(nodes: Seq<NodeView>, column: NodeColumn) -> bool {
    nodes.len() > 1 ==> forall|i: int| 0 <= i < nodes.len() ==> node_key_fits(#[trigger] nodes[i], column)
}

/// Whether `new_jobs` are `old_jobs`, sorted by the column, jobs with the same key in their old order.
pub open spec fn jobs_sorted(
    old_jobs: Seq<JobView>,
    new_jobs: Seq<JobView>,
    column: JobColumn,
    direction: SortDirection,
) -> bool {
    sorted_stably(
        old_jobs,
        new_jobs,
        keys_of(old_jobs, |j: JobView| job_key(j, column)),
        direction == SortDirection::Desc,
    )
}

/// Whether `new_nodes` are `old_nodes`, sorted by the column, nodes with the same key in their old order.
pub open spec fn nodes_sorted(
    old_nodes: Seq<NodeView>,
    new_nodes: Seq<NodeView>,
    column: NodeColumn,
    direction: SortDirection,
) -> bool {
    sorted_stably(
        old_nodes,
        new_nodes,
        keys_of(old_nodes, |n: NodeView| node_key(n, column)),
        direction == SortDirection::Desc,
    )
}

/// Whether `new_rows` are `old_rows`, sorted by the column, records with the same key in their old order.
pub open spec fn records_sorted(
    old_rows: Seq<RecordView>,
    new_rows: Seq<RecordView>,
    column: AccountingColumn,
    direction: SortDirection,
) -> bool {
    sorted_stably(
        old_rows,
        new_rows,
        keys_of(old_rows, |r: RecordView| record_key(r, column)),
        direction == SortDirection::Desc,
    )
}

/// What a sort of values is to what they stand for.
pub proof fn lemma_sorted_views<T: View>(
    old_rows: Seq<T>,
    new_rows: Seq<T>,
    keys: Seq<Seq<PartView>>,
    descending: bool,
)
    requires
        sorted_stably(old_rows, new_rows, keys, descending),
        old_rows.len() == keys.len(),
    ensures
        sorted_stably(views(old_rows), views(new_rows), keys, descending),
{
    let order = choose|order: Seq<int>| #[trigger]
        is_stable_order(keys, descending, order) && new_rows == arrange(old_rows, order);
    assert(views(new_rows) =~= arrange(views(old_rows), order));
    assert(is_stable_order(keys, descending, order) && views(new_rows) == arrange(views(old_rows), order));
}

/// A list of at most one row is sorted as it stands.
pub proof fn lemma_short_sorted<T>(rows: Seq<T>, keys: Seq<Seq<PartView>>, descending: bool)
    requires
        rows.len() <= 1,
        keys.len() == rows.len(),
    ensures
        sorted_stably(rows, rows, keys, descending),
{
    let order = Seq::new(rows.len(), |i: int| i);
    assert(rows =~= arrange(rows, order));
    assert(is_stable_order(keys, descending, order) && rows == arrange(rows, order));
}

/// The key of one number.
pub fn number_key(n: u128) -> (r: SortKey)
    ensures
        r@ == number_part(n as nat),
{
    let r = SortKey { parts: vec![KeyPart::Number(n)] };
    assert(r@ =~= number_part(n as nat));
    r
}

/// The key of one text.
pub fn text_key(t: &str) -> (r: SortKey)
    ensures
        r@ == text_part(t@),
{
    let r = SortKey { parts: vec![KeyPart::Text(to_chars(t))] };
    assert(r@ =~= text_part(t@));
    r
}

/// The key of one text in lower case.
pub fn lower_key(t: &str) -> (r: SortKey)
    ensures
        r@ == lower_part(t@),
{
    let r = SortKey { parts: vec![KeyPart::Text(lowered(t))] };
    assert(r@ =~= lower_part(t@));
    r
}

/// The key of a job identifier.
pub fn id_key(id: &str) -> (r: SortKey)
    ensures
        r@ == id_parts(id@),
{
    let (base, task): (u64, u64) = numeric_job_id(id);
    let r = SortKey { parts: vec![KeyPart::Number(base as u128), KeyPart::Number(task as u128)] };
    assert(r@ =~= id_parts(id@));
    r
}

/// The key of a job in a column.
pub fn job_sort_key(job: &Job, column: JobColumn) -> (r: SortKey)
    requires
        job_key_fits(job@, column),
    ensures
        r@ == job_key(job@, column),
{
    match column {
        JobColumn::State => {
            let (base, task): (u64, u64) = job.id_sort_key();
            let r = SortKey {
                parts: vec![
                    KeyPart::Number(job.state_rank() as u128),
                    KeyPart::Number(base as u128),
                    KeyPart::Number(task as u128),
                ],
            };
            assert(r@ =~= job_key(job@, column));
            r
        },
        JobColumn::JobId => id_key(job.id.as_str()),
        JobColumn::User => lower_key(job.user.as_str()),
        JobColumn::Partition => lower_key(job.partition.as_str()),
        JobColumn::Qos => lower_key(job.qos.as_str()),
        JobColumn::Priority => number_key(job.priority as u128),
        JobColumn::Name => lower_key(job.name.as_str()),
        JobColumn::Nodes => text_key(job.nodes.as_str()),
        JobColumn::Cpus => number_key(job.cpus as u128),
        JobColumn::Gpus => number_key(job.gpu_total() as u128),
        JobColumn::Memory => number_key(job.memory.0 as u128),
        JobColumn::Time => number_key(parse_slurm_time(job.time_used.as_str()) as u128),
    }
}

/// The key of a node in a column.
pub fn node_sort_key(node: &Node, column: NodeColumn) -> (r: SortKey)
    requires
        node_key_fits(node@, column),
    ensures
        r@ == node_key(node@, column),
{
    match column {
        NodeColumn::State => lower_key(node.state.as_str()),
        NodeColumn::Name => text_key(node.name.as_str()),
        NodeColumn::CpusTotal => number_key(node.cpus.total as u128),
        NodeColumn::CpusFree => number_key(node.cpus.idle as u128),
        NodeColumn::MemoryTotal => number_key(node.memory_total.0 as u128),
        NodeColumn::MemoryFree => number_key(node.memory_free.0 as u128),
        NodeColumn::GpusTotal => number_key(node.gpu_total() as u128),
        NodeColumn::GpusFree => {
            let free: u64 = node.gpu_total().saturating_sub(node.gpu_allocated());
            number_key(free as u128)
        },
    }
}

/// The key of an accounting record in a column.
pub fn record_sort_key(row: &AccountingRecord, column: AccountingColumn) -> (r: SortKey)
    ensures
        r@ == record_key(row@, column),
{
    match column {
        AccountingColumn::JobId => id_key(row.job_id.as_str()),
        AccountingColumn::User => lower_key(row.user.as_str()),
        AccountingColumn::State => lower_key(row.state.as_str()),
        AccountingColumn::Partition => lower_key(row.partition.as_str()),
        AccountingColumn::Cpus => number_key(row.cpus as u128),
        AccountingColumn::Memory => number_key(row.memory.0 as u128),
        AccountingColumn::Elapsed => text_key(row.elapsed.as_str()),
        AccountingColumn::End => text_key(row.end.as_str()),
    }
}

/// The jobs, sorted by a column.
#[must_use]
pub fn sort_jobs(jobs: Vec<Job>, column: JobColumn, direction: SortDirection) -> (r: Vec<Job>)
    requires
        jobs_sortable(views(jobs@), column),
    ensures
        jobs_sorted(views(jobs@), views(r@), column, direction),
{
    let ghost old_rows = jobs@;
    let ghost shown = views(old_rows);
    let ghost wanted = keys_of(shown, |j: JobView| job_key(j, column));
    if jobs.len() <= 1 {
        proof {
            lemma_short_sorted(shown, wanted, direction == SortDirection::Desc);
        }
        return jobs;
    }
    let mut keys: Vec<SortKey> = Vec::new();
    let mut i: usize = 0;
    while i < jobs.len()
        invariant
            i <= jobs@.len(),
            keys@.len() == i,
            shown == views(jobs@),
            forall|k: int| 0 <= k < shown.len() ==> job_key_fits(#[trigger] shown[k], column),
            forall|k: int| 0 <= k < i ==> (#[trigger] keys@[k])@ == job_key(shown[k], column),
        decreases jobs@.len() - i,
    {
        assert(shown[i as int] == jobs@[i as int]@);
        keys.push(job_sort_key(&jobs[i], column));
        i += 1;
    }
    assert(keys_view(keys@) =~= wanted);
    let r = sort_rows(jobs, &keys, direction.is_desc());
    proof {
        lemma_sorted_views(old_rows, r@, wanted, direction == SortDirection::Desc);
    }
    r
}

/// The nodes, sorted by a column.
#[must_use]
pub fn sort_nodes(nodes: Vec<Node>, column: NodeColumn, direction: SortDirection) -> (r: Vec<Node>)
    requires
        nodes_sortable(views(nodes@), column),
    ensures
        nodes_sorted(views(nodes@), views(r@), column, direction),
{
    let ghost old_rows = nodes@;
    let ghost shown = views(old_rows);
    let ghost wanted = keys_of(shown, |n: NodeView| node_key(n, column));
    if nodes.len() <= 1 {
        proof {
            lemma_short_sorted(shown, wanted, direction == SortDirection::Desc);
        }
        return nodes;
    }
    let mut keys: Vec<SortKey> = Vec::new();
    let mut i: usize = 0;
    while i < nodes.len()
        invariant
            i <= nodes@.len(),
            keys@.len() == i,
            shown == views(nodes@),
            forall|k: int| 0 <= k < shown.len() ==> node_key_fits(#[trigger] shown[k], column),
            forall|k: int| 0 <= k < i ==> (#[trigger] keys@[k])@ == node_key(shown[k], column),
        decreases nodes@.len() - i,
    {
        assert(shown[i as int] == nodes@[i as int]@);
        keys.push(node_sort_key(&nodes[i], column));
        i += 1;
    }
    assert(keys_view(keys@) =~= wanted);
    let r = sort_rows(nodes, &keys, direction.is_desc());
    proof {
        lemma_sorted_views(old_rows, r@, wanted, direction == SortDirection::Desc);
    }
    r
}

/// The accounting records, sorted by a column.
#[must_use]
pub fn sort_accounting(
    rows: Vec<AccountingRecord>,
    column: AccountingColumn,
    direction: SortDirection,
) -> (r: Vec<AccountingRecord>)
    ensures
        records_sorted(views(rows@), views(r@), column, direction),
{
    let ghost old_rows = rows@;
    let ghost shown = views(old_rows);
    let ghost wanted = keys_of(shown, |x: RecordView| record_key(x, column));
    let mut keys: Vec<SortKey> = Vec::new();
    let mut i: usize = 0;
    while i < rows.len()
        invariant
            i <= rows@.len(),
            keys@.len() == i,
            shown == views(rows@),
            forall|k: int| 0 <= k < i ==> (#[trigger] keys@[k])@ == record_key(shown[k], column),
        decreases rows@.len() - i,
    {
        keys.push(record_sort_key(&rows[i], column));
        i += 1;
    }
    assert(keys_view(keys@) =~= wanted);
    let r = sort_rows(rows, &keys, direction.is_desc());
    proof {
        lemma_sorted_views(old_rows, r@, wanted, direction == SortDirection::Desc);
    }
    r
}

} // verus!
