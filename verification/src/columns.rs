//! The columns of the tables, their order and their headers.

use vstd::prelude::*;

use crate::sorting::AccountingColumn;
use crate::sorting::JobColumn;
use crate::sorting::NodeColumn;
use crate::text::strings;
use crate::units::SortDirection;
use vstd::arithmetic::div_mod::lemma_add_mod_noop_right;
use vstd::arithmetic::div_mod::lemma_mod_add_multiples_vanish;
use vstd::arithmetic::div_mod::lemma_small_mod;

verus! {

/// A column of the table of GPUs.
#[derive(Debug, Clone, Copy, PartialEq, Eq, Structural)]
pub enum GpuColumn {
    Type,
    Total,
    Active,
    Reserved,
    Free,
}

/// A column of the table of disks.
#[derive(Debug, Clone, Copy, PartialEq, Eq, Structural)]
pub enum DiskColumn {
    Usage,
    Path,
    Type,
    Space,
}

/// A column of the tables of a user's jobs.
#[derive(Debug, Clone, Copy, PartialEq, Eq, Structural)]
pub enum UserJobColumn {
    JobId,
    Name,
    Node,
    Cpus,
    Gpus,
    Memory,
    Time,
    Limit,
}

/// A column of the table of disk usage.
#[derive(Debug, Clone, Copy, PartialEq, Eq, Structural)]
pub enum DiskUsageColumn {
    User,
    Used,
    Entries,
}

/// The running or the pending jobs of a user.
#[derive(Debug, Clone, Copy, PartialEq, Eq, Structural)]
pub enum UserJobSection {
    Running,
    Pending,
}

impl UserJobSection {
    /// The other section.
    pub open spec fn other(self) -> UserJobSection {
        match self {
            UserJobSection::Running => UserJobSection::Pending,
            UserJobSection::Pending => UserJobSection::Running,
        }
    }

    /// The other section.
    pub fn toggled(self) -> (r: Self)
        ensures
            r == self.other(),
    {
        match self {
            UserJobSection::Running => UserJobSection::Pending,
            UserJobSection::Pending => UserJobSection::Running,
        }
    }
}

/// The place of a column in the table of jobs.
pub open spec fn job_column_place(col: JobColumn) -> usize {
    match col {
        JobColumn::JobId => 0,
        JobColumn::User => 1,
        JobColumn::State => 2,
        JobColumn::Partition => 3,
        JobColumn::Qos => 4,
        JobColumn::Priority => 5,
        JobColumn::Name => 6,
        JobColumn::Nodes => 7,
        JobColumn::Cpus => 8,
        JobColumn::Gpus => 9,
        JobColumn::Memory => 10,
        JobColumn::Time => 11,
    }
}

/// The column at a place in the table of jobs; the state at any other.
pub open spec fn job_column_at(i: usize) -> JobColumn {
    if i == 0 {
        JobColumn::JobId
    } else if i == 1 {
        JobColumn::User
    } else if i == 2 {
        JobColumn::State
    } else if i == 3 {
        JobColumn::Partition
    } else if i == 4 {
        JobColumn::Qos
    } else if i == 5 {
        JobColumn::Priority
    } else if i == 6 {
        JobColumn::Name
    } else if i == 7 {
        JobColumn::Nodes
    } else if i == 8 {
        JobColumn::Cpus
    } else if i == 9 {
        JobColumn::Gpus
    } else if i == 10 {
        JobColumn::Memory
    } else if i == 11 {
        JobColumn::Time
    } else {
        JobColumn::State
    }
}

/// The place of a column in the table of nodes.
pub open spec fn node_column_place(col: NodeColumn) -> usize {
    match col {
        NodeColumn::Name => 0,
        NodeColumn::State => 1,
        NodeColumn::CpusTotal => 2,
        NodeColumn::CpusFree => 3,
        NodeColumn::MemoryTotal => 4,
        NodeColumn::MemoryFree => 5,
        NodeColumn::GpusTotal => 6,
        NodeColumn::GpusFree => 7,
    }
}

/// The column at a place in the table of nodes; the state at any other.
pub open spec fn node_column_at(i: usize) -> NodeColumn {
    if i == 0 {
        NodeColumn::Name
    } else if i == 1 {
        NodeColumn::State
    } else if i == 2 {
        NodeColumn::CpusTotal
    } else if i == 3 {
        NodeColumn::CpusFree
    } else if i == 4 {
        NodeColumn::MemoryTotal
    } else if i == 5 {
        NodeColumn::MemoryFree
    } else if i == 6 {
        NodeColumn::GpusTotal
    } else if i == 7 {
        NodeColumn::GpusFree
    } else {
        NodeColumn::State
    }
}

/// The place of a column in the table of GPUs.
pub open spec fn gpu_column_place(col: GpuColumn) -> usize {
    match col {
        GpuColumn::Type => 0,
        GpuColumn::Total => 1,
        GpuColumn::Active => 2,
        GpuColumn::Reserved => 3,
        GpuColumn::Free => 4,
    }
}

/// The column at a place in the table of GPUs; the type at any other.
pub open spec fn gpu_column_at(i: usize) -> GpuColumn {
    if i == 1 {
        GpuColumn::Total
    } else if i == 2 {
        GpuColumn::Active
    } else if i == 3 {
        GpuColumn::Reserved
    } else if i == 4 {
        GpuColumn::Free
    } else {
        GpuColumn::Type
    }
}

/// The place of a column in the table of disks.
pub open spec fn disk_column_place(col: DiskColumn) -> usize {
    match col {
        DiskColumn::Usage => 0,
        DiskColumn::Path => 1,
        DiskColumn::Type => 2,
        DiskColumn::Space => 3,
    }
}

/// The column at a place in the table of disks; the space at any other.
pub open spec fn disk_column_at(i: usize) -> DiskColumn {
    if i == 0 {
        DiskColumn::Usage
    } else if i == 1 {
        DiskColumn::Path
    } else if i == 2 {
        DiskColumn::Type
    } else {
        DiskColumn::Space
    }
}

/// The place of a column in the tables of a user's jobs.
pub open spec fn user_job_column_place(col: UserJobColumn) -> usize {
    match col {
        UserJobColumn::JobId => 0,
        UserJobColumn::Name => 1,
        UserJobColumn::Node => 2,
        UserJobColumn::Cpus => 3,
        UserJobColumn::Gpus => 4,
        UserJobColumn::Memory => 5,
        UserJobColumn::Time => 6,
        UserJobColumn::Limit => 7,
    }
}

/// The column at a place in the tables of a user's jobs; the identifier at any other.
pub open spec fn user_job_column_at(i: usize) -> UserJobColumn {
    if i == 1 {
        UserJobColumn::Name
    } else if i == 2 {
        UserJobColumn::Node
    } else if i == 3 {
        UserJobColumn::Cpus
    } else if i == 4 {
        UserJobColumn::Gpus
    } else if i == 5 {
        UserJobColumn::Memory
    } else if i == 6 {
        UserJobColumn::Time
    } else if i == 7 {
        UserJobColumn::Limit
    } else {
        UserJobColumn::JobId
    }
}

/// The place of a column in the table of disk usage.
pub open spec fn disk_usage_column_place(col: DiskUsageColumn) -> usize {
    match col {
        DiskUsageColumn::User => 0,
        DiskUsageColumn::Used => 1,
        DiskUsageColumn::Entries => 2,
    }
}

/// The column at a place in the table of disk usage; the bytes used at any other.
pub open spec fn disk_usage_column_at(i: usize) -> DiskUsageColumn {
    if i == 0 {
        DiskUsageColumn::User
    } else if i == 2 {
        DiskUsageColumn::Entries
    } else {
        DiskUsageColumn::Used
    }
}

/// The place of a column in the table of accounting records.
pub open spec fn accounting_column_place(col: AccountingColumn) -> usize {
    match col {
        AccountingColumn::JobId => 0,
        AccountingColumn::User => 1,
        AccountingColumn::State => 2,
        AccountingColumn::Partition => 3,
        AccountingColumn::Cpus => 4,
        AccountingColumn::Memory => 5,
        AccountingColumn::Elapsed => 6,
        AccountingColumn::End => 7,
    }
}

/// The column at a place in the table of accounting records; the identifier at any other.
pub open spec fn accounting_column_at(i: usize) -> AccountingColumn {
    if i == 1 {
        AccountingColumn::User
    } else if i == 2 {
        AccountingColumn::State
    } else if i == 3 {
        AccountingColumn::Partition
    } else if i == 4 {
        AccountingColumn::Cpus
    } else if i == 5 {
        AccountingColumn::Memory
    } else if i == 6 {
        AccountingColumn::Elapsed
    } else if i == 7 {
        AccountingColumn::End
    } else {
        AccountingColumn::JobId
    }
}

/// The column at the place of a column is that column, in every table.
pub proof fn law_columns_have_places(
    job: JobColumn,
    node: NodeColumn,
    gpu: GpuColumn,
    disk: DiskColumn,
    user_job: UserJobColumn,
    usage: DiskUsageColumn,
    accounting: AccountingColumn,
)
    ensures
        job_column_at(job_column_place(job)) == job,
        node_column_at(node_column_place(node)) == node,
        gpu_column_at(gpu_column_place(gpu)) == gpu,
        disk_column_at(disk_column_place(disk)) == disk,
        user_job_column_at(user_job_column_place(user_job)) == user_job,
        disk_usage_column_at(disk_usage_column_place(usage)) == usage,
        accounting_column_at(accounting_column_place(accounting)) == accounting,
{
}

/// The place of a column in the table of jobs.
pub fn job_column_to_index(col: JobColumn) -> (r: usize)
    ensures
        r == job_column_place(col),
{
    match col {
        JobColumn::JobId => 0,
        JobColumn::User => 1,
        JobColumn::State => 2,
        JobColumn::Partition => 3,
        JobColumn::Qos => 4,
        JobColumn::Priority => 5,
        JobColumn::Name => 6,
        JobColumn::Nodes => 7,
        JobColumn::Cpus => 8,
        JobColumn::Gpus => 9,
        JobColumn::Memory => 10,
        JobColumn::Time => 11,
    }
}

/// The column at a place in the table of jobs.
pub fn job_column_from_index(idx: usize) -> (r: JobColumn)
    ensures
        r == job_column_at(idx),
{
    match idx {
        0 => JobColumn::JobId,
        1 => JobColumn::User,
        2 => JobColumn::State,
        3 => JobColumn::Partition,
        4 => JobColumn::Qos,
        5 => JobColumn::Priority,
        6 => JobColumn::Name,
        7 => JobColumn::Nodes,
        8 => JobColumn::Cpus,
        9 => JobColumn::Gpus,
        10 => JobColumn::Memory,
        11 => JobColumn::Time,
        _ => JobColumn::State,
    }
}

/// The place of a column in the table of nodes.
pub fn node_column_to_index(col: NodeColumn) -> (r: usize)
    ensures
        r == node_column_place(col),
{
    match col {
        NodeColumn::Name => 0,
        NodeColumn::State => 1,
        NodeColumn::CpusTotal => 2,
        NodeColumn::CpusFree => 3,
        NodeColumn::MemoryTotal => 4,
        NodeColumn::MemoryFree => 5,
        NodeColumn::GpusTotal => 6,
        NodeColumn::GpusFree => 7,
    }
}

/// The column at a place in the table of nodes.
pub fn node_column_from_index(idx: usize) -> (r: NodeColumn)
    ensures
        r == node_column_at(idx),
{
    match idx {
        0 => NodeColumn::Name,
        1 => NodeColumn::State,
        2 => NodeColumn::CpusTotal,
        3 => NodeColumn::CpusFree,
        4 => NodeColumn::MemoryTotal,
        5 => NodeColumn::MemoryFree,
        6 => NodeColumn::GpusTotal,
        7 => NodeColumn::GpusFree,
        _ => NodeColumn::State,
    }
}

/// The place of a column in the table of GPUs.
pub fn gpu_column_to_index(col: GpuColumn) -> (r: usize)
    ensures
        r == gpu_column_place(col),
{
    match col {
        GpuColumn::Type => 0,
        GpuColumn::Total => 1,
        GpuColumn::Active => 2,
        GpuColumn::Reserved => 3,
        GpuColumn::Free => 4,
    }
}

/// The column at a place in the table of GPUs.
pub fn gpu_column_from_index(idx: usize) -> (r: GpuColumn)
    ensures
        r == gpu_column_at(idx),
{
    match idx {
        1 => GpuColumn::Total,
        2 => GpuColumn::Active,
        3 => GpuColumn::Reserved,
        4 => GpuColumn::Free,
        _ => GpuColumn::Type,
    }
}

/// The place of a column in the table of disks.
pub fn disk_column_to_index(col: DiskColumn) -> (r: usize)
    ensures
        r == disk_column_place(col),
{
    match col {
        DiskColumn::Usage => 0,
        DiskColumn::Path => 1,
        DiskColumn::Type => 2,
        DiskColumn::Space => 3,
    }
}

/// The column at a place in the table of disks.
pub fn disk_column_from_index(idx: usize) -> (r: DiskColumn)
    ensures
        r == disk_column_at(idx),
{
    match idx {
        0 => DiskColumn::Usage,
        1 => DiskColumn::Path,
        2 => DiskColumn::Type,
        _ => DiskColumn::Space,
    }
}

/// The place of a column in the tables of a user's jobs.
pub fn user_job_column_to_index(col: UserJobColumn) -> (r: usize)
    ensures
        r == user_job_column_place(col),
{
    match col {
        UserJobColumn::JobId => 0,
        UserJobColumn::Name => 1,
        UserJobColumn::Node => 2,
        UserJobColumn::Cpus => 3,
        UserJobColumn::Gpus => 4,
        UserJobColumn::Memory => 5,
        UserJobColumn::Time => 6,
        UserJobColumn::Limit => 7,
    }
}

/// The column at a place in the tables of a user's jobs.
pub fn user_job_column_from_index(idx: usize) -> (r: UserJobColumn)
    ensures
        r == user_job_column_at(idx),
{
    match idx {
        1 => UserJobColumn::Name,
        2 => UserJobColumn::Node,
        3 => UserJobColumn::Cpus,
        4 => UserJobColumn::Gpus,
        5 => UserJobColumn::Memory,
        6 => UserJobColumn::Time,
        7 => UserJobColumn::Limit,
        _ => UserJobColumn::JobId,
    }
}

/// The place of a column in the table of disk usage.
pub fn disk_usage_column_to_index(col: DiskUsageColumn) -> (r: usize)
    ensures
        r == disk_usage_column_place(col),
{
    match col {
        DiskUsageColumn::User => 0,
        DiskUsageColumn::Used => 1,
        DiskUsageColumn::Entries => 2,
    }
}

/// The column at a place in the table of disk usage.
pub fn disk_usage_column_from_index(idx: usize) -> (r: DiskUsageColumn)
    ensures
        r == disk_usage_column_at(idx),
{
    match idx {
        0 => DiskUsageColumn::User,
        2 => DiskUsageColumn::Entries,
        _ => DiskUsageColumn::Used,
    }
}

/// The column at a place in the table of accounting records.
pub fn accounting_column_from_index(idx: usize) -> (r: AccountingColumn)
    ensures
        r == accounting_column_at(idx),
{
    match idx {
        1 => AccountingColumn::User,
        2 => AccountingColumn::State,
        3 => AccountingColumn::Partition,
        4 => AccountingColumn::Cpus,
        5 => AccountingColumn::Memory,
        6 => AccountingColumn::Elapsed,
        7 => AccountingColumn::End,
        _ => AccountingColumn::JobId,
    }
}

/// The column that the sort of jobs goes on to.
pub open spec fn job_column_after(column: JobColumn) -> JobColumn {
    match column {
        JobColumn::State => JobColumn::JobId,
        JobColumn::JobId => JobColumn::User,
        JobColumn::User => JobColumn::Partition,
        JobColumn::Partition => JobColumn::Qos,
        JobColumn::Qos => JobColumn::Priority,
        JobColumn::Priority => JobColumn::Name,
        JobColumn::Name => JobColumn::Nodes,
        JobColumn::Nodes => JobColumn::Cpus,
        JobColumn::Cpus => JobColumn::Gpus,
        JobColumn::Gpus => JobColumn::Memory,
        JobColumn::Memory => JobColumn::Time,
        JobColumn::Time => JobColumn::State,
    }
}

/// The column that the sort of nodes goes on to.
pub open spec fn node_column_after(column: NodeColumn) -> NodeColumn {
    match column {
        NodeColumn::State => NodeColumn::Name,
        NodeColumn::Name => NodeColumn::CpusTotal,
        NodeColumn::CpusTotal => NodeColumn::CpusFree,
        NodeColumn::CpusFree => NodeColumn::MemoryTotal,
        NodeColumn::MemoryTotal => NodeColumn::MemoryFree,
        NodeColumn::MemoryFree => NodeColumn::GpusTotal,
        NodeColumn::GpusTotal => NodeColumn::GpusFree,
        NodeColumn::GpusFree => NodeColumn::State,
    }
}

/// The column that the sort of GPUs goes on to.
pub open spec fn gpu_column_after(column: GpuColumn) -> GpuColumn {
    match column {
        GpuColumn::Type => GpuColumn::Total,
        GpuColumn::Total => GpuColumn::Active,
        GpuColumn::Active => GpuColumn::Reserved,
        GpuColumn::Reserved => GpuColumn::Free,
        GpuColumn::Free => GpuColumn::Type,
    }
}

/// The column that the sort of disks goes on to.
pub open spec fn disk_column_after(column: DiskColumn) -> DiskColumn {
    match column {
        DiskColumn::Usage => DiskColumn::Path,
        DiskColumn::Path => DiskColumn::Type,
        DiskColumn::Type => DiskColumn::Space,
        DiskColumn::Space => DiskColumn::Usage,
    }
}

/// The column that the sort of a user's jobs goes on to.
pub open spec fn user_job_column_after(column: UserJobColumn) -> UserJobColumn {
    match column {
        UserJobColumn::JobId => UserJobColumn::Name,
        UserJobColumn::Name => UserJobColumn::Node,
        UserJobColumn::Node => UserJobColumn::Cpus,
        UserJobColumn::Cpus => UserJobColumn::Gpus,
        UserJobColumn::Gpus => UserJobColumn::Memory,
        UserJobColumn::Memory => UserJobColumn::Time,
        UserJobColumn::Time => UserJobColumn::Limit,
        UserJobColumn::Limit => UserJobColumn::JobId,
    }
}

/// The column that the sort of disk usage goes on to.
pub open spec fn disk_usage_column_after(column: DiskUsageColumn) -> DiskUsageColumn {
    match column {
        DiskUsageColumn::User => DiskUsageColumn::Used,
        DiskUsageColumn::Used => DiskUsageColumn::Entries,
        DiskUsageColumn::Entries => DiskUsageColumn::User,
    }
}

/// The column that the sort of accounting records goes on to.
pub open spec fn accounting_column_after(column: AccountingColumn) -> AccountingColumn {
    match column {
        AccountingColumn::JobId => AccountingColumn::User,
        AccountingColumn::User => AccountingColumn::State,
        AccountingColumn::State => AccountingColumn::Partition,
        AccountingColumn::Partition => AccountingColumn::Cpus,
        AccountingColumn::Cpus => AccountingColumn::Memory,
        AccountingColumn::Memory => AccountingColumn::Elapsed,
        AccountingColumn::Elapsed => AccountingColumn::End,
        AccountingColumn::End => AccountingColumn::JobId,
    }
}

/// The column that the sort of jobs goes on to.
pub fn next_job_column(column: JobColumn) -> (r: JobColumn)
    ensures
        r == job_column_after(column),
{
    match column {
        JobColumn::State => JobColumn::JobId,
        JobColumn::JobId => JobColumn::User,
        JobColumn::User => JobColumn::Partition,
        JobColumn::Partition => JobColumn::Qos,
        JobColumn::Qos => JobColumn::Priority,
        JobColumn::Priority => JobColumn::Name,
        JobColumn::Name => JobColumn::Nodes,
        JobColumn::Nodes => JobColumn::Cpus,
        JobColumn::Cpus => JobColumn::Gpus,
        JobColumn::Gpus => JobColumn::Memory,
        JobColumn::Memory => JobColumn::Time,
        JobColumn::Time => JobColumn::State,
    }
}

/// The column that the sort of nodes goes on to.
pub fn next_node_column(column: NodeColumn) -> (r: NodeColumn)
    ensures
        r == node_column_after(column),
{
    match column {
        NodeColumn::State => NodeColumn::Name,
        NodeColumn::Name => NodeColumn::CpusTotal,
        NodeColumn::CpusTotal => NodeColumn::CpusFree,
        NodeColumn::CpusFree => NodeColumn::MemoryTotal,
        NodeColumn::MemoryTotal => NodeColumn::MemoryFree,
        NodeColumn::MemoryFree => NodeColumn::GpusTotal,
        NodeColumn::GpusTotal => NodeColumn::GpusFree,
        NodeColumn::GpusFree => NodeColumn::State,
    }
}

/// The column that the sort of GPUs goes on to.
pub fn next_gpu_column(column: GpuColumn) -> (r: GpuColumn)
    ensures
        r == gpu_column_after(column),
{
    match column {
        GpuColumn::Type => GpuColumn::Total,
        GpuColumn::Total => GpuColumn::Active,
        GpuColumn::Active => GpuColumn::Reserved,
        GpuColumn::Reserved => GpuColumn::Free,
        GpuColumn::Free => GpuColumn::Type,
    }
}

/// The column that the sort of disks goes on to.
pub fn next_disk_column(column: DiskColumn) -> (r: DiskColumn)
    ensures
        r == disk_column_after(column),
{
    match column {
        DiskColumn::Usage => DiskColumn::Path,
        DiskColumn::Path => DiskColumn::Type,
        DiskColumn::Type => DiskColumn::Space,
        DiskColumn::Space => DiskColumn::Usage,
    }
}

/// The column that the sort of a user's jobs goes on to.
pub fn next_user_job_column(column: UserJobColumn) -> (r: UserJobColumn)
    ensures
        r == user_job_column_after(column),
{
    match column {
        UserJobColumn::JobId => UserJobColumn::Name,
        UserJobColumn::Name => UserJobColumn::Node,
        UserJobColumn::Node => UserJobColumn::Cpus,
        UserJobColumn::Cpus => UserJobColumn::Gpus,
        UserJobColumn::Gpus => UserJobColumn::Memory,
        UserJobColumn::Memory => UserJobColumn::Time,
        UserJobColumn::Time => UserJobColumn::Limit,
        UserJobColumn::Limit => UserJobColumn::JobId,
    }
}

/// The column that the sort of disk usage goes on to.
pub fn next_disk_usage_column(column: DiskUsageColumn) -> (r: DiskUsageColumn)
    ensures
        r == disk_usage_column_after(column),
{
    match column {
        DiskUsageColumn::User => DiskUsageColumn::Used,
        DiskUsageColumn::Used => DiskUsageColumn::Entries,
        DiskUsageColumn::Entries => DiskUsageColumn::User,
    }
}

/// The column that the sort of accounting records goes on to.
pub fn next_accounting_column(column: AccountingColumn) -> (r: AccountingColumn)
    ensures
        r == accounting_column_after(column),
{
    match column {
        AccountingColumn::JobId => AccountingColumn::User,
        AccountingColumn::User => AccountingColumn::State,
        AccountingColumn::State => AccountingColumn::Partition,
        AccountingColumn::Partition => AccountingColumn::Cpus,
        AccountingColumn::Cpus => AccountingColumn::Memory,
        AccountingColumn::Memory => AccountingColumn::Elapsed,
        AccountingColumn::Elapsed => AccountingColumn::End,
        AccountingColumn::End => AccountingColumn::JobId,
    }
}

/// The column `n` steps after one, in the order that `after` gives.
pub open spec fn steps_after<C>(column: C, after: spec_fn(C) -> C, n: nat) -> C
    decreases n,
{
    if n == 0 {
        column
    } else {
        after(steps_after(column, after, (n - 1) as nat))
    }
}

/// Whether a column comes back after `period` steps, and not before.
pub open spec fn comes_back<C>(column: C, after: spec_fn(C) -> C, period: nat) -> bool {
    &&& steps_after(column, after, period) == column
    &&& forall|n: nat| 0 < n < period ==> #[trigger] steps_after(column, after, n) != column
}

/// Where each step goes one place on, around a circle of `period` places, and no two columns share a
/// place, a column comes back after `period` steps.
proof fn lemma_circle<C>(column: C, after: spec_fn(C) -> C, place: spec_fn(C) -> int, period: nat)
    requires
        period > 0,
        forall|c: C| 0 <= #[trigger] place(c) < period,
        forall|c: C| #[trigger] place(after(c)) == (place(c) + 1) % (period as int),
        forall|c: C, d: C| #[trigger] place(c) == #[trigger] place(d) ==> c == d,
    ensures
        comes_back(column, after, period),
{
    assert forall|n: nat| n <= period implies place(#[trigger] steps_after(column, after, n)) == (place(column)
        + n) % (period as int) by {
        lemma_circle_place(column, after, place, period, n);
    }
    let back = steps_after(column, after, period);
    lemma_mod_add_multiples_vanish(place(column), period as int);
    lemma_small_mod(place(column) as nat, period);
    assert(place(back) == place(column));
    assert forall|n: nat| 0 < n < period implies #[trigger] steps_after(column, after, n) != column by {
        if place(column) + n < period {
            lemma_small_mod((place(column) + n) as nat, period);
        } else {
            lemma_mod_add_multiples_vanish(place(column) + n - period, period as int);
            lemma_small_mod((place(column) + n - period) as nat, period);
        }
    }
}

proof fn lemma_circle_place<C>(
    column: C,
    after: spec_fn(C) -> C,
    place: spec_fn(C) -> int,
    period: nat,
    n: nat,
)
    requires
        period > 0,
        forall|c: C| 0 <= #[trigger] place(c) < period,
        forall|c: C| #[trigger] place(after(c)) == (place(c) + 1) % (period as int),
    ensures
        place(steps_after(column, after, n)) == (place(column) + n) % (period as int),
    decreases n,
{
    if n == 0 {
        lemma_small_mod(place(column) as nat, period);
    } else {
        lemma_circle_place(column, after, place, period, (n - 1) as nat);
        let c = steps_after(column, after, (n - 1) as nat);
        assert(place(after(c)) == (place(c) + 1) % (period as int));
        lemma_add_mod_noop_right(1, place(column) + n - 1, period as int);
    }
}

/// Cycling the sort of a table comes back to the column that it began with, after as many steps as
/// the table has columns, and not before.
pub proof fn law_sort_cycles(
    job: JobColumn,
    node: NodeColumn,
    gpu: GpuColumn,
    disk: DiskColumn,
    user_job: UserJobColumn,
    usage: DiskUsageColumn,
    accounting: AccountingColumn,
)
    ensures
        comes_back(job, |c: JobColumn| job_column_after(c), 12),
        comes_back(node, |c: NodeColumn| node_column_after(c), 8),
        comes_back(gpu, |c: GpuColumn| gpu_column_after(c), 5),
        comes_back(disk, |c: DiskColumn| disk_column_after(c), 4),
        comes_back(user_job, |c: UserJobColumn| user_job_column_after(c), 8),
        comes_back(usage, |c: DiskUsageColumn| disk_usage_column_after(c), 3),
        comes_back(accounting, |c: AccountingColumn| accounting_column_after(c), 8),
{
    lemma_circle(
        job,
        |c: JobColumn| job_column_after(c),
        |c: JobColumn| match c {
            JobColumn::State => 0,
            JobColumn::JobId => 1,
            JobColumn::User => 2,
            JobColumn::Partition => 3,
            JobColumn::Qos => 4,
            JobColumn::Priority => 5,
            JobColumn::Name => 6,
            JobColumn::Nodes => 7,
            JobColumn::Cpus => 8,
            JobColumn::Gpus => 9,
            JobColumn::Memory => 10,
            JobColumn::Time => 11,
        },
        12,
    );
    lemma_circle(
        node,
        |c: NodeColumn| node_column_after(c),
        |c: NodeColumn| match c {
            NodeColumn::State => 0,
            NodeColumn::Name => 1,
            _ => node_column_place(c) as int,
        },
        8,
    );
    lemma_circle(
        gpu,
        |c: GpuColumn| gpu_column_after(c),
        |c: GpuColumn| gpu_column_place(c) as int,
        5,
    );
    lemma_circle(
        disk,
        |c: DiskColumn| disk_column_after(c),
        |c: DiskColumn| disk_column_place(c) as int,
        4,
    );
    lemma_circle(
        user_job,
        |c: UserJobColumn| user_job_column_after(c),
        |c: UserJobColumn| user_job_column_place(c) as int,
        8,
    );
    lemma_circle(
        usage,
        |c: DiskUsageColumn| disk_usage_column_after(c),
        |c: DiskUsageColumn| disk_usage_column_place(c) as int,
        3,
    );
    lemma_circle(
        accounting,
        |c: AccountingColumn| accounting_column_after(c),
        |c: AccountingColumn| accounting_column_place(c) as int,
        8,
    );
}

/// The direction in which a column of a user's jobs is sorted first.
pub open spec fn first_user_job_direction(column: UserJobColumn) -> SortDirection {
    if column == UserJobColumn::Name || column == UserJobColumn::Node {
        SortDirection::Asc
    } else {
        SortDirection::Desc
    }
}

/// The direction in which a column of a user's jobs is sorted first.
pub fn default_user_job_direction(column: UserJobColumn) -> (r: SortDirection)
    ensures
        r == first_user_job_direction(column),
{
    match column {
        UserJobColumn::Name | UserJobColumn::Node => SortDirection::Asc,
        _ => SortDirection::Desc,
    }
}

/// The direction in which a column of disk usage is sorted first.
pub open spec fn first_disk_usage_direction(column: DiskUsageColumn) -> SortDirection {
    if column == DiskUsageColumn::User {
        SortDirection::Asc
    } else {
        SortDirection::Desc
    }
}

/// The direction in which a column of disk usage is sorted first.
pub fn default_disk_usage_direction(column: DiskUsageColumn) -> (r: SortDirection)
    ensures
        r == first_disk_usage_direction(column),
{
    match column {
        DiskUsageColumn::User => SortDirection::Asc,
        _ => SortDirection::Desc,
    }
}

/// Whether the column at a place is shown; a place without a say is.
pub open spec fn is_shown(visible: Seq<bool>, i: int) -> bool {
    if 0 <= i < visible.len() {
        visible[i]
    } else {
        true
    }
}

/// Whether the column at a place is shown.
pub fn shows(visible: &[bool], i: usize) -> (r: bool)
    ensures
        r == is_shown(visible@, i as int),
{
    if i < visible.len() {
        visible[i]
    } else {
        true
    }
}

/// The values of the columns that are shown.
pub open spec fn shown_of<T>(values: Seq<T>, visible: Seq<bool>) -> Seq<T>
    decreases values.len(),
{
    if values.len() == 0 {
        seq![]
    } else {
        let before = shown_of(values.drop_last(), visible);
        if is_shown(visible, values.len() - 1) {
            before.push(values.last())
        } else {
            before
        }
    }
}

/// The texts of the columns that are shown.
pub fn select_visible(values: Vec<String>, visible: &[bool]) -> (r: Vec<String>)
    ensures
        strings(r@) == shown_of(strings(values@), visible@),
{
    let ghost shown = strings(values@);
    let mut out: Vec<String> = Vec::new();
    let mut i: usize = 0;
    assert(strings(out@) =~= shown_of(shown.take(0), visible@));
    while i < values.len()
        invariant
            i <= values@.len(),
            shown == strings(values@),
            strings(out@) == shown_of(shown.take(i as int), visible@),
        decreases values@.len() - i,
    {
        let ghost before = strings(out@);
        assert(shown.take(i + 1).drop_last() =~= shown.take(i as int));
        if shows(visible, i) {
            out.push(values[i].clone());
            assert(strings(out@) =~= before.push(shown[i as int]));
        }
        i += 1;
    }
    assert(shown.take(i as int) =~= shown);
    out
}

/// The values of the columns that are shown.
pub fn select_visible_items<T: Copy>(values: &[T], visible: &[bool]) -> (r: Vec<T>)
    ensures
        r@ == shown_of(values@, visible@),
{
    let mut out: Vec<T> = Vec::new();
    let mut i: usize = 0;
    assert(out@ =~= shown_of(values@.take(0), visible@));
    while i < values.len()
        invariant
            i <= values@.len(),
            out@ == shown_of(values@.take(i as int), visible@),
        decreases values@.len() - i,
    {
        assert(values@.take(i + 1).drop_last() =~= values@.take(i as int));
        if shows(visible, i) {
            out.push(values[i]);
        }
        i += 1;
    }
    assert(values@.take(i as int) =~= values@);
    out
}

/// The mark of a sort direction.
pub open spec fn direction_mark(direction: SortDirection) -> Seq<char> {
    match direction {
        SortDirection::Asc => " ▲"@,
        SortDirection::Desc => " ▼"@,
    }
}

/// The mark of a sort direction.
pub fn sort_indicator(direction: SortDirection) -> (r: &'static str)
    ensures
        r@ == direction_mark(direction),
{
    match direction {
        SortDirection::Asc => " ▲",
        SortDirection::Desc => " ▼",
    }
}

/// The headers, the one of the sort column with the mark of the direction.
pub open spec fn marked_headers(
    headers: Seq<Seq<char>>,
    sort_column: usize,
    direction: SortDirection,
) -> Seq<Seq<char>> {
    Seq::new(
        headers.len(),
        |i: int|
            if i == sort_column {
                headers[i] + direction_mark(direction)
            } else {
                headers[i]
            },
    )
}

/// The headers of the columns that are shown, the one of the sort column with the mark of the
/// direction.
pub fn decorate_headers(
    headers: &Vec<String>,
    sort_column: usize,
    direction: SortDirection,
    visible: &[bool],
) -> (r: Vec<String>)
    ensures
        strings(r@) == shown_of(
            marked_headers(strings(headers@), sort_column, direction),
            visible@,
        ),
{
    let mut marked: Vec<String> = Vec::new();
    let mut i: usize = 0;
    while i < headers.len()
        invariant
            i <= headers@.len(),
            marked@.len() == i,
            forall|k: int|
                0 <= k < i ==> (#[trigger] marked@[k])@ == marked_headers(
                    strings(headers@),
                    sort_column,
                    direction,
                )[k],
        decreases headers@.len() - i,
    {
        let mut text = headers[i].clone();
        if i == sort_column {
            text.append(sort_indicator(direction));
        }
        marked.push(text);
        i += 1;
    }
    assert(strings(marked@) =~= marked_headers(strings(headers@), sort_column, direction));
    select_visible(marked, visible)
}

/// The column of a table that a column on the screen is: the one with so many shown columns in
/// front of it.
pub open spec fn column_at_place(columns: Seq<bool>, from: int, place: int) -> int
    decreases 50 - from,
{
    if from >= 50 {
        0
    } else if !is_shown(columns, from) {
        column_at_place(columns, from + 1, place)
    } else if place == 0 {
        from
    } else {
        column_at_place(columns, from + 1, place - 1)
    }
}

/// The column of a table that a column on the screen is.
pub fn actual_column(columns: &[bool], visible_column: usize) -> (r: usize)
    ensures
        r == column_at_place(columns@, 0, visible_column as int),
{
    let mut place: usize = visible_column;
    let mut i: usize = 0;
    while i < 50
        invariant
            i <= 50,
            column_at_place(columns@, 0, visible_column as int) == column_at_place(
                columns@,
                i as int,
                place as int,
            ),
        decreases 50 - i,
    {
        if shows(columns, i) {
            if place == 0 {
                return i;
            }
            place = place - 1;
        }
        i += 1;
    }
    0
}

/// How many of the first columns are shown.
pub open spec fn shown_before(columns: Seq<bool>, n: int) -> int
    decreases n,
{
    if n <= 0 {
        0
    } else {
        shown_before(columns, n - 1) + if is_shown(columns, n - 1) {
            1int
        } else {
            0
        }
    }
}

proof fn lemma_column_at_place(columns: Seq<bool>, from: int, column: int)
    requires
        0 <= from <= column < 50,
        is_shown(columns, column),
    ensures
        column_at_place(columns, from, shown_before(columns, column) - shown_before(columns, from)) == column,
        shown_before(columns, from) <= shown_before(columns, column),
    decreases column - from,
{
    if from < column {
        lemma_column_at_place(columns, from + 1, column);
        assert(shown_before(columns, from + 1) == shown_before(columns, from) + if is_shown(columns, from) {
            1int
        } else {
            0
        });
    }
}

/// A click on the header of a shown column finds that column, whatever columns are hidden.
pub proof fn law_header_click_finds_column(columns: Seq<bool>, column: int)
    requires
        0 <= column < 50,
        is_shown(columns, column),
    ensures
        column_at_place(columns, 0, shown_before(columns, column)) == column,
{
    lemma_column_at_place(columns, 0, column);
}

/// Whether each of `len` columns is shown.
pub fn visible_columns(columns: &[bool], len: usize) -> (r: Vec<bool>)
    ensures
        r@ == Seq::new(len as nat, |i: int| is_shown(columns@, i)),
{
    let mut out: Vec<bool> = Vec::new();
    let mut i: usize = 0;
    while i < len
        invariant
            i <= len,
            out@.len() == i,
            forall|k: int| 0 <= k < i ==> #[trigger] out@[k] == is_shown(columns@, k),
        decreases len - i,
    {
        out.push(shows(columns, i));
        i += 1;
    }
    assert(out@ =~= Seq::new(len as nat, |k: int| is_shown(columns@, k)));
    out
}

} // verus!
