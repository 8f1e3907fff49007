//! What the columns of the tables show: each cell stands under the header of its column.

use vstd::prelude::*;

use crate::cells::disk_headers;
use crate::cells::disk_texts;
use crate::cells::gpu_cells;
use crate::cells::gpu_headers;
use crate::cells::job_cells;
use crate::cells::job_headers;
use crate::cells::node_cells;
use crate::cells::node_headers;
use crate::cells::repeated;
use crate::cells::summary_cells;
use crate::cells::summary_headers;
use crate::cells::usage_bar;
use crate::cells::usage_cells;
use crate::cells::usage_headers;
use crate::cells::user_job_cells;
use crate::cells::user_job_headers;
use crate::columns::disk_column_place;
use crate::columns::disk_usage_column_place;
use crate::columns::gpu_column_place;
use crate::columns::job_column_place;
use crate::columns::node_column_place;
use crate::columns::user_job_column_place;
use crate::columns::DiskColumn;
use crate::columns::DiskUsageColumn;
use crate::columns::GpuColumn;
use crate::columns::UserJobColumn;
use crate::laws::lists::label_text;
use crate::laws::sorting::left_over;
use crate::listing::GpuRowView;
use crate::listing::SummaryRowView;
use crate::map::count_sum;
use crate::model::DiskView;
use crate::model::JobView;
use crate::model::NodeView;
use crate::model::UsageView;
use crate::number::decimal;
use crate::sorting::JobColumn;
use crate::sorting::NodeColumn;
use crate::units::human_memory;
use crate::units::human_size;

verus! {

/// What the table of jobs shows of a job under a header.
pub open spec fn job_under(job: JobView, header: Seq<char>, text: Seq<char>, column: JobColumn) -> bool {
    match column {
        JobColumn::JobId => header == "JOBID"@ && text == job.id,
        JobColumn::User => header == "USER"@ && text == job.user,
        JobColumn::State => header == "STATE"@ && text == job.state,
        JobColumn::Partition => header == "PART"@ && text == job.partition,
        JobColumn::Qos => header == "QOS"@ && text == job.qos,
        JobColumn::Priority => header == "PRI"@ && text == decimal(job.priority as nat),
        JobColumn::Name => header == "NAME"@ && text == job.name,
        JobColumn::Nodes => header == "NODE"@ && text == job.nodes,
        JobColumn::Cpus => header == "CPU"@ && text == decimal(job.cpus as nat),
        JobColumn::Gpus => header == "GPU"@ && text == decimal(count_sum(job.gpus)),
        JobColumn::Memory => header == "MEM"@ && text == human_memory(job.memory.0 as nat),
        JobColumn::Time => header == "TIME"@ && text == job.time_used,
    }
}

/// What the table of nodes shows of a node under a header.
pub open spec fn node_under(node: NodeView, header: Seq<char>, text: Seq<char>, column: NodeColumn) -> bool {
    match column {
        NodeColumn::Name => header == "NODE"@ && text == node.name,
        NodeColumn::State => header == "STATE"@ && text == node.state,
        NodeColumn::CpusTotal => header == "CPU(T)"@ && text == decimal(node.cpus.total as nat),
        NodeColumn::CpusFree => header == "CPU(F)"@ && text == decimal(node.cpus.idle as nat),
        NodeColumn::MemoryTotal => header == "MEM(T)"@ && text == human_memory(node.memory_total.0 as nat),
        NodeColumn::MemoryFree => header == "MEM(F)"@ && text == human_memory(node.memory_free.0 as nat),
        NodeColumn::GpusTotal => header == "GPU(T)"@ && text == decimal(count_sum(node.gpus)),
        NodeColumn::GpusFree => header == "GPU(F)"@ && text == decimal(
            left_over(count_sum(node.gpus) as int, count_sum(node.gpus_allocated) as int) as nat,
        ),
    }
}

/// In the tables of jobs and nodes, the cell of a column stands under the header of that column, and
/// shows what the column is about.
pub proof fn law_jobs_and_nodes_under_headers(
    job: JobView,
    job_column: JobColumn,
    node: NodeView,
    node_column: NodeColumn,
)
    ensures
        job_headers().len() == 12 && job_cells(job).len() == 12,
        job_under(
            job,
            job_headers()[job_column_place(job_column) as int],
            job_cells(job)[job_column_place(job_column) as int],
            job_column,
        ),
        node_headers().len() == 8 && node_cells(node).len() == 8,
        node_under(
            node,
            node_headers()[node_column_place(node_column) as int],
            node_cells(node)[node_column_place(node_column) as int],
            node_column,
        ),
{
}

/// What the table of GPUs shows of a row under a header.
pub open spec fn gpus_under(row: GpuRowView, header: Seq<char>, text: Seq<char>, column: GpuColumn) -> bool {
    match column {
        GpuColumn::Type => header == "TYPE"@ && text == row.gpu_type,
        GpuColumn::Total => header == "TOTAL"@ && text == decimal(row.total as nat),
        GpuColumn::Active => header == "ACTIVE"@ && text == decimal(row.active as nat),
        GpuColumn::Reserved => header == "RESERVED"@ && text == decimal(row.reserved as nat),
        GpuColumn::Free => header == "FREE"@ && text == decimal(row.free as nat),
    }
}

/// What the table of disks shows of a disk under a header.
pub open spec fn disk_under(disk: DiskView, header: Seq<char>, text: Seq<char>, column: DiskColumn) -> bool {
    match column {
        DiskColumn::Usage => header == "USAGE"@ && text == usage_bar(disk.use_percent),
        DiskColumn::Path => header == "PATH"@ && text == disk.mount,
        DiskColumn::Type => header == "TYPE"@ && text == label_text(disk.label),
        DiskColumn::Space => header == "SPACE"@ && text == disk.used + "/"@ + disk.size,
    }
}

/// What the table of disk usage shows of a row under a header.
pub open spec fn usage_under(row: UsageView, header: Seq<char>, text: Seq<char>, column: DiskUsageColumn) -> bool {
    match column {
        DiskUsageColumn::User => header == "USER"@ && text == row.user,
        DiskUsageColumn::Used => header == "USED"@ && text == human_size(row.bytes as nat),
        DiskUsageColumn::Entries => header == "ENTRIES"@ && (row.entries > 0 ==> text == decimal(
            row.entries as nat,
        )) && (row.entries == 0 ==> text == "-"@),
    }
}

/// What the table of a user's jobs shows of a job under a header.
pub open spec fn user_job_under(job: JobView, header: Seq<char>, text: Seq<char>, column: UserJobColumn) -> bool {
    match column {
        UserJobColumn::JobId => header == "JOBID"@ && text == job.id,
        UserJobColumn::Name => header == "NAME"@ && (job.name.len() <= 18 ==> text == job.name),
        UserJobColumn::Node => header == "NODE"@ && (job.node_list.len() > 0 ==> text == job.node_list) && (
        job.node_list.len() == 0 ==> text == job.nodes),
        UserJobColumn::Cpus => header == "CPU"@ && text == decimal(job.cpus as nat),
        UserJobColumn::Gpus => header == "GPU"@ && (job.gpus.len() == 0 ==> text == "0"@) && (job.gpus.len()
            == 1 ==> text == job.gpus[0].0 + ":"@ + decimal(job.gpus[0].1 as nat)),
        UserJobColumn::Memory => header == "MEM"@ && text == human_memory(job.memory.0 as nat),
        UserJobColumn::Time => header == "TIME"@ && text == job.time_used,
        UserJobColumn::Limit => header == "LIMIT"@ && text == job.time_limit,
    }
}

/// In the tables of GPUs, disks, disk usage and a user's jobs, the cell of a column stands under the
/// header of that column, and shows what the column is about.
pub proof fn law_other_cells_under_headers(
    row: GpuRowView,
    gpu_column: GpuColumn,
    disk: DiskView,
    disk_column: DiskColumn,
    usage: UsageView,
    usage_column: DiskUsageColumn,
    job: JobView,
    job_column: UserJobColumn,
)
    ensures
        gpus_under(
            row,
            gpu_headers()[gpu_column_place(gpu_column) as int],
            gpu_cells(row)[gpu_column_place(gpu_column) as int],
            gpu_column,
        ),
        disk_under(
            disk,
            disk_headers()[disk_column_place(disk_column) as int],
            disk_texts(disk)[disk_column_place(disk_column) as int],
            disk_column,
        ),
        usage_under(
            usage,
            usage_headers()[disk_usage_column_place(usage_column) as int],
            usage_cells(usage)[disk_usage_column_place(usage_column) as int],
            usage_column,
        ),
        user_job_under(
            job,
            user_job_headers()[user_job_column_place(job_column) as int],
            user_job_cells(job)[user_job_column_place(job_column) as int],
            job_column,
        ),
        gpu_headers().len() == gpu_cells(row).len(),
        disk_headers().len() == disk_texts(disk).len(),
        usage_headers().len() == usage_cells(usage).len(),
        user_job_headers().len() == user_job_cells(job).len(),
{
}

/// The summary shows the jobs, CPUs and GPUs of running jobs, and then those of pending ones, under
/// headers with `R` and `P`.
pub proof fn law_summary_under_headers(row: SummaryRowView)
    ensures
        summary_cells(row)[0] == row.label,
        summary_headers()[1] == "R-JOB"@ && summary_cells(row)[1] == decimal(row.summary.running.jobs as nat),
        summary_headers()[2] == "R-CPU"@ && summary_cells(row)[2] == decimal(row.summary.running.cpus as nat),
        summary_headers()[3] == "R-GPU"@ && summary_cells(row)[3] == decimal(row.summary.running.gpus as nat),
        summary_headers()[5] == "P-JOB"@ && summary_cells(row)[5] == decimal(row.summary.pending.jobs as nat),
        summary_headers()[6] == "P-CPU"@ && summary_cells(row)[6] == decimal(row.summary.pending.cpus as nat),
        summary_headers()[7] == "P-GPU"@ && summary_cells(row)[7] == decimal(row.summary.pending.gpus as nat),
        summary_headers().len() == summary_cells(row).len(),
{
}

/// A bar is filled by the share of its cells that the percentage says, cut off, and never more cells
/// than it has.
pub proof fn law_usage_bar(percent: u8, filled: nat)
    requires
        percent <= 100,
        filled * 100 <= percent * 12 < (filled + 1) * 100,
    ensures
        filled <= 12,
        usage_bar(percent).take(14) == "["@ + repeated('█', filled) + repeated(' ', (12 - filled) as nat) + "]"@,
{
    reveal_strlit("[");
    reveal_strlit("] ");
    reveal_strlit("]");
    assert(usage_bar(percent).take(14) =~= "["@ + repeated('█', filled) + repeated(' ', (12 - filled) as nat)
        + "]"@);
}

} // verus!
