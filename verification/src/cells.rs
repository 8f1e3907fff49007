//! The cells of the tables, as texts.

use vstd::prelude::*;

use crate::grid::Constraint;
use crate::listing::GpuRow;
use crate::listing::GpuRowView;
use crate::listing::SummaryDisplayRow;
use crate::listing::SummaryRowKind;
use crate::listing::SummaryRowView;
use crate::model::views;
use crate::model::DiskInfo;
use crate::model::DiskUserUsage;
use crate::model::DiskView;
use crate::model::Job;
use crate::model::JobView;
use crate::model::Node;
use crate::model::NodeView;
use crate::model::UsageView;
use crate::number::decimal;
use crate::number::show;
use crate::text::strings;
use crate::text::to_chars;
use crate::theme::disk_color;
use crate::theme::fg_style;
use crate::theme::label_color;
use crate::theme::plain_style;
use crate::theme::Style;
use crate::theme::Theme;
use crate::units::human_memory;
use crate::units::human_size;
use crate::wording::cut_text;
use crate::wording::gpu_map_display;
use crate::wording::gpus_text;
use crate::wording::truncate_text;

verus! {

/// A text and how it is shown.
#[derive(Debug)]
pub struct StyledText {
    pub text: String,
    pub style: Style,
}

impl View for StyledText {
    type V = (Seq<char>, Style);

    open spec fn view(&self) -> (Seq<char>, Style) {
        (self.text@, self.style)
    }
}

/// A row of a table.
#[derive(Debug)]
pub struct TableRow {
    pub cells: Vec<StyledText>,
    pub style: Style,
}

/// What a row of a table stands for.
#[verifier::ext_equal]
pub struct RowView {
    pub cells: Seq<(Seq<char>, Style)>,
    pub style: Style,
}

impl View for TableRow {
    type V = RowView;

    open spec fn view(&self) -> RowView {
        RowView { cells: views(self.cells@), style: self.style }
    }
}

/// Texts without a style of their own.
pub open spec fn plain_cells(texts: Seq<Seq<char>>) -> Seq<(Seq<char>, Style)> {
    Seq::new(texts.len(), |i: int| (texts[i], plain_style()))
}

/// Texts without a style of their own.
pub fn plain(texts: Vec<String>) -> (r: Vec<StyledText>)
    ensures
        views(r@) == plain_cells(strings(texts@)),
{
    let ghost shown = strings(texts@);
    let mut out: Vec<StyledText> = Vec::new();
    let mut i: usize = 0;
    while i < texts.len()
        invariant
            i <= texts@.len(),
            shown == strings(texts@),
            out@.len() == i,
            forall|k: int| 0 <= k < i ==> (#[trigger] out@[k])@ == (shown[k], plain_style()),
        decreases texts@.len() - i,
    {
        out.push(StyledText { text: texts[i].clone(), style: Style::plain() });
        i += 1;
    }
    assert(views(out@) =~= plain_cells(shown));
    out
}

/// A character repeated.
pub open spec fn repeated(c: char, n: nat) -> Seq<char> {
    Seq::new(n, |i: int| c)
}

/// Appends a character, repeated.
fn append_repeated(out: &mut String, c: char, n: usize)
    ensures
        final(out)@ == old(out)@ + repeated(c, n as nat),
{
    let ghost before = out@;
    let mut i: usize = 0;
    assert(out@ =~= before + repeated(c, 0));
    while i < n
        invariant
            i <= n,
            out@ == before + repeated(c, i as nat),
        decreases n - i,
    {
        out.push(c);
        i += 1;
        assert(out@ =~= before + repeated(c, i as nat));
    }
}

/// A text with spaces behind it up to a width.
pub open spec fn padded(text: Seq<char>, width: nat) -> Seq<char> {
    if text.len() >= width {
        text
    } else {
        text + repeated(' ', (width - text.len()) as nat)
    }
}

/// A text with spaces in front of it up to a width.
pub open spec fn right_aligned(text: Seq<char>, width: nat) -> Seq<char> {
    if text.len() >= width {
        text
    } else {
        repeated(' ', (width - text.len()) as nat) + text
    }
}

/// A text with spaces behind it up to a width.
pub fn pad(text: &str, width: usize) -> (r: String)
    ensures
        r@ == padded(text@, width as nat),
{
    let chars = to_chars(text);
    let mut out = text.to_string();
    if chars.len() < width {
        append_repeated(&mut out, ' ', width - chars.len());
    }
    out
}

/// A text with spaces in front of it up to a width.
fn align_right(text: &str, width: usize) -> (r: String)
    ensures
        r@ == right_aligned(text@, width as nat),
{
    let chars = to_chars(text);
    let mut out = String::new();
    if chars.len() < width {
        append_repeated(&mut out, ' ', width - chars.len());
    }
    out.append(text);
    assert(out@ =~= right_aligned(text@, width as nat));
    out
}

/// A line of dashes.
pub fn rule(width: usize) -> (r: String)
    ensures
        r@ == repeated('-', width as nat),
{
    let mut out = String::new();
    append_repeated(&mut out, '-', width);
    assert(out@ =~= repeated('-', width as nat));
    out
}

/// The headers of the table of jobs.
pub open spec fn job_headers() -> Seq<Seq<char>> {
    seq![
        "JOBID"@,
        "USER"@,
        "STATE"@,
        "PART"@,
        "QOS"@,
        "PRI"@,
        "NAME"@,
        "NODE"@,
        "CPU"@,
        "GPU"@,
        "MEM"@,
        "TIME"@,
    ]
}

/// The widths of the columns of the table of jobs.
pub open spec fn job_widths() -> Seq<Constraint> {
    seq![
        Constraint::Percentage(7),
        Constraint::Percentage(7),
        Constraint::Percentage(6),
        Constraint::Percentage(7),
        Constraint::Percentage(9),
        Constraint::Percentage(5),
        Constraint::Percentage(16),
        Constraint::Percentage(6),
        Constraint::Percentage(5),
        Constraint::Percentage(5),
        Constraint::Percentage(9),
        Constraint::Percentage(12),
    ]
}

/// The cells of a job.
pub open spec fn job_cells(j: JobView) -> Seq<Seq<char>> {
    seq![
        j.id,
        j.user,
        j.state,
        j.partition,
        j.qos,
        decimal(j.priority as nat),
        j.name,
        j.nodes,
        decimal(j.cpus as nat),
        decimal(j.gpu_count()),
        human_memory(j.memory.0 as nat),
        j.time_used,
    ]
}

/// The headers of the table of nodes.
pub open spec fn node_headers() -> Seq<Seq<char>> {
    seq![
        "NODE"@,
        "STATE"@,
        "CPU(T)"@,
        "CPU(F)"@,
        "MEM(T)"@,
        "MEM(F)"@,
        "GPU(T)"@,
        "GPU(F)"@,
    ]
}

/// The widths of the columns of the table of nodes.
pub open spec fn node_widths() -> Seq<Constraint> {
    seq![
        Constraint::Percentage(20),
        Constraint::Percentage(10),
        Constraint::Percentage(10),
        Constraint::Percentage(10),
        Constraint::Percentage(10),
        Constraint::Percentage(10),
        Constraint::Percentage(10),
        Constraint::Percentage(10),
    ]
}

/// The cells of a node.
pub open spec fn node_cells(n: NodeView) -> Seq<Seq<char>> {
    seq![
        n.name,
        n.state,
        decimal(n.cpus.total as nat),
        decimal(n.cpus.idle as nat),
        human_memory(n.memory_total.0 as nat),
        human_memory(n.memory_free.0 as nat),
        decimal(n.gpu_count()),
        decimal(n.gpu_free()),
    ]
}

/// The headers of the table of GPUs.
pub open spec fn gpu_headers() -> Seq<Seq<char>> {
    seq!["TYPE"@, "TOTAL"@, "ACTIVE"@, "RESERVED"@, "FREE"@]
}

/// The cells of a row of GPUs.
pub open spec fn gpu_cells(g: GpuRowView) -> Seq<Seq<char>> {
    seq![
        g.gpu_type,
        decimal(g.total as nat),
        decimal(g.active as nat),
        decimal(g.reserved as nat),
        decimal(g.free as nat),
    ]
}

/// The headers of the table of disks.
pub open spec fn disk_headers() -> Seq<Seq<char>> {
    seq!["USAGE"@, "PATH"@, "TYPE"@, "SPACE"@]
}

/// The widths of the columns of the table of disks.
pub open spec fn disk_widths() -> Seq<Constraint> {
    seq![
        Constraint::Length(20),
        Constraint::Percentage(40),
        Constraint::Length(6),
        Constraint::Percentage(40),
    ]
}

/// A bar of twelve cells that is filled as a percentage says, and the percentage.
pub open spec fn usage_bar(percent: u8) -> Seq<char> {
    let filled = (percent as nat * 12) / 100;
    let empty: nat = if filled <= 12 {
        (12 - filled) as nat
    } else {
        0
    };
    "["@ + repeated('█', filled) + repeated(' ', empty) + "] "@ + right_aligned(
        decimal(percent as nat),
        3,
    ) + "%"@
}

/// The texts of the cells of a disk.
pub open spec fn disk_texts(d: DiskView) -> Seq<Seq<char>> {
    seq![usage_bar(d.use_percent), d.mount, d.label.shown(), d.used + "/"@ + d.size]
}

/// The cells of a disk: the bar has the colour of the kind of disk.
pub open spec fn disk_cells(d: DiskView) -> Seq<(Seq<char>, Style)> {
    Seq::new(
        4,
        |i: int|
            (
                disk_texts(d)[i],
                if i == 0 {
                    fg_style(label_color(d.label))
                } else {
                    plain_style()
                },
            ),
    )
}

/// The headers of the summary.
pub open spec fn summary_headers() -> Seq<Seq<char>> {
    seq![""@, "R-JOB"@, "R-CPU"@, "R-GPU"@, "│"@, "P-JOB"@, "P-CPU"@, "P-GPU"@]
}

/// The widths of the columns of the summary.
pub open spec fn summary_widths() -> Seq<Constraint> {
    seq![
        Constraint::Length(8),
        Constraint::Percentage(15),
        Constraint::Percentage(15),
        Constraint::Percentage(15),
        Constraint::Length(1),
        Constraint::Percentage(15),
        Constraint::Percentage(15),
        Constraint::Percentage(15),
    ]
}

/// The cells of a row of the summary.
pub open spec fn summary_cells(s: SummaryRowView) -> Seq<Seq<char>> {
    seq![
        s.label,
        decimal(s.summary.running.jobs as nat),
        decimal(s.summary.running.cpus as nat),
        decimal(s.summary.running.gpus as nat),
        "│"@,
        decimal(s.summary.pending.jobs as nat),
        decimal(s.summary.pending.cpus as nat),
        decimal(s.summary.pending.gpus as nat),
    ]
}

/// The style of a row of the summary.
pub open spec fn summary_style(theme: Theme, kind: SummaryRowKind) -> Style {
    match kind {
        SummaryRowKind::All => theme.summary_all,
        SummaryRowKind::Me => theme.summary_me,
        SummaryRowKind::User => theme.summary_others,
        SummaryRowKind::Others => theme.summary_others,
    }
}

/// The headers of the tables of a user's jobs.
pub open spec fn user_job_headers() -> Seq<Seq<char>> {
    seq!["JOBID"@, "NAME"@, "NODE"@, "CPU"@, "GPU"@, "MEM"@, "TIME"@, "LIMIT"@]
}

/// The widths of the columns of the tables of a user's jobs.
pub open spec fn user_job_widths() -> Seq<Constraint> {
    seq![
        Constraint::Percentage(10),
        Constraint::Percentage(18),
        Constraint::Percentage(12),
        Constraint::Percentage(6),
        Constraint::Percentage(18),
        Constraint::Percentage(8),
        Constraint::Percentage(14),
        Constraint::Percentage(14),
    ]
}

/// The cells of a user's job.
pub open spec fn user_job_cells(j: JobView) -> Seq<Seq<char>> {
    seq![
        j.id,
        cut_text(j.name, 18),
        if j.node_list.len() == 0 {
            j.nodes
        } else {
            j.node_list
        },
        decimal(j.cpus as nat),
        gpus_text(j.gpus, ","@),
        human_memory(j.memory.0 as nat),
        j.time_used,
        j.time_limit,
    ]
}

/// The headers of the table of disk usage.
pub open spec fn usage_headers() -> Seq<Seq<char>> {
    seq!["USER"@, "USED"@, "ENTRIES"@]
}

/// The widths of the columns of the table of disk usage.
pub open spec fn usage_widths() -> Seq<Constraint> {
    seq![Constraint::Percentage(45), Constraint::Percentage(25), Constraint::Percentage(30)]
}

/// The cells of a row of disk usage; entries that are not known are a dash.
pub open spec fn usage_cells(u: UsageView) -> Seq<Seq<char>> {
    seq![
        u.user,
        human_size(u.bytes as nat),
        if u.entries == 0 {
            "-"@
        } else {
            decimal(u.entries as nat)
        },
    ]
}

/// Headers as texts.
pub fn header_texts_of_jobs() -> (r: Vec<String>)
    ensures
        strings(r@) == job_headers(),
{
    let r = vec![
        "JOBID".to_string(),
        "USER".to_string(),
        "STATE".to_string(),
        "PART".to_string(),
        "QOS".to_string(),
        "PRI".to_string(),
        "NAME".to_string(),
        "NODE".to_string(),
        "CPU".to_string(),
        "GPU".to_string(),
        "MEM".to_string(),
        "TIME".to_string(),
    ];
    assert(strings(r@) =~= job_headers());
    r
}

/// The widths of the columns of the table of jobs.
pub fn widths_of_jobs() -> (r: Vec<Constraint>)
    ensures
        r@ == job_widths(),
{
    let r = vec![
        Constraint::Percentage(7),
        Constraint::Percentage(7),
        Constraint::Percentage(6),
        Constraint::Percentage(7),
        Constraint::Percentage(9),
        Constraint::Percentage(5),
        Constraint::Percentage(16),
        Constraint::Percentage(6),
        Constraint::Percentage(5),
        Constraint::Percentage(5),
        Constraint::Percentage(9),
        Constraint::Percentage(12),
    ];
    assert(r@ =~= job_widths());
    r
}

/// The cells of a job.
pub fn cells_of_job(job: &Job) -> (r: Vec<String>)
    requires
        job@.gpu_count() <= u64::MAX,
    ensures
        strings(r@) == job_cells(job@),
{
    let r = vec![
        job.id.clone(),
        job.user.clone(),
        job.state.clone(),
        job.partition.clone(),
        job.qos.clone(),
        show(job.priority),
        job.name.clone(),
        job.nodes.clone(),
        show(job.cpus),
        show(job.gpu_total()),
        job.memory.human(),
        job.time_used.clone(),
    ];
    assert(strings(r@) =~= job_cells(job@));
    r
}

/// Headers as texts.
pub fn header_texts_of_nodes() -> (r: Vec<String>)
    ensures
        strings(r@) == node_headers(),
{
    let r = vec![
        "NODE".to_string(),
        "STATE".to_string(),
        "CPU(T)".to_string(),
        "CPU(F)".to_string(),
        "MEM(T)".to_string(),
        "MEM(F)".to_string(),
        "GPU(T)".to_string(),
        "GPU(F)".to_string(),
    ];
    assert(strings(r@) =~= node_headers());
    r
}

/// The widths of the columns of the table of nodes.
pub fn widths_of_nodes() -> (r: Vec<Constraint>)
    ensures
        r@ == node_widths(),
{
    let r = vec![
        Constraint::Percentage(20),
        Constraint::Percentage(10),
        Constraint::Percentage(10),
        Constraint::Percentage(10),
        Constraint::Percentage(10),
        Constraint::Percentage(10),
        Constraint::Percentage(10),
        Constraint::Percentage(10),
    ];
    assert(r@ =~= node_widths());
    r
}

/// The cells of a node.
pub fn cells_of_node(node: &Node) -> (r: Vec<String>)
    requires
        node@.gpu_count() <= u64::MAX,
        node@.gpu_used() <= u64::MAX,
    ensures
        strings(r@) == node_cells(node@),
{
    let free: u64 = node.gpu_total().saturating_sub(node.gpu_allocated());
    let r = vec![
        node.name.clone(),
        node.state.clone(),
        show(node.cpus.total),
        show(node.cpus.idle),
        node.memory_total.human(),
        node.memory_free.human(),
        show(node.gpu_total()),
        show(free),
    ];
    assert(strings(r@) =~= node_cells(node@));
    r
}

/// Headers as texts.
pub fn header_texts_of_gpus() -> (r: Vec<String>)
    ensures
        strings(r@) == gpu_headers(),
{
    let r = vec![
        "TYPE".to_string(),
        "TOTAL".to_string(),
        "ACTIVE".to_string(),
        "RESERVED".to_string(),
        "FREE".to_string(),
    ];
    assert(strings(r@) =~= gpu_headers());
    r
}

/// The cells of a row of GPUs.
pub fn cells_of_gpu(row: &GpuRow) -> (r: Vec<String>)
    ensures
        strings(r@) == gpu_cells(row@),
{
    let r = vec![
        row.gpu_type.clone(),
        show(row.total),
        show(row.active),
        show(row.reserved),
        show(row.free),
    ];
    assert(strings(r@) =~= gpu_cells(row@));
    r
}

/// Headers as texts.
pub fn header_texts_of_disks() -> (r: Vec<String>)
    ensures
        strings(r@) == disk_headers(),
{
    let r = vec![
        "USAGE".to_string(),
        "PATH".to_string(),
        "TYPE".to_string(),
        "SPACE".to_string(),
    ];
    assert(strings(r@) =~= disk_headers());
    r
}

/// The widths of the columns of the table of disks.
pub fn widths_of_disks() -> (r: Vec<Constraint>)
    ensures
        r@ == disk_widths(),
{
    let r = vec![
        Constraint::Length(20),
        Constraint::Percentage(40),
        Constraint::Length(6),
        Constraint::Percentage(40),
    ];
    assert(r@ =~= disk_widths());
    r
}

/// A bar that is filled as a percentage says, and the percentage.
pub fn show_usage_bar(percent: u8) -> (r: String)
    ensures
        r@ == usage_bar(percent),
{
    let filled: usize = (percent as usize * 12) / 100;
    let empty: usize = if filled <= 12 {
        12 - filled
    } else {
        0
    };
    let mut out = "[".to_string();
    append_repeated(&mut out, '█', filled);
    append_repeated(&mut out, ' ', empty);
    out.append("] ");
    out.append(align_right(show(percent as u64).as_str(), 3).as_str());
    out.append("%");
    out
}

/// The cells of a disk.
pub fn cells_of_disk(disk: &DiskInfo) -> (r: Vec<StyledText>)
    ensures
        views(r@) == disk_cells(disk@),
{
    let mut space = disk.used.clone();
    space.append("/");
    space.append(disk.size.as_str());
    let r = vec![
        StyledText {
            text: show_usage_bar(disk.use_percent),
            style: Style::of_fg(disk_color(disk.label)),
        },
        StyledText { text: disk.mount.clone(), style: Style::plain() },
        StyledText { text: disk.label.as_str().to_string(), style: Style::plain() },
        StyledText { text: space, style: Style::plain() },
    ];
    assert(views(r@) =~= disk_cells(disk@));
    r
}

/// Headers as texts.
pub fn header_texts_of_summary() -> (r: Vec<String>)
    ensures
        strings(r@) == summary_headers(),
{
    let r = vec![
        "".to_string(),
        "R-JOB".to_string(),
        "R-CPU".to_string(),
        "R-GPU".to_string(),
        "│".to_string(),
        "P-JOB".to_string(),
        "P-CPU".to_string(),
        "P-GPU".to_string(),
    ];
    assert(strings(r@) =~= summary_headers());
    r
}

/// The widths of the columns of the summary.
pub fn widths_of_summary() -> (r: Vec<Constraint>)
    ensures
        r@ == summary_widths(),
{
    let r = vec![
        Constraint::Length(8),
        Constraint::Percentage(15),
        Constraint::Percentage(15),
        Constraint::Percentage(15),
        Constraint::Length(1),
        Constraint::Percentage(15),
        Constraint::Percentage(15),
        Constraint::Percentage(15),
    ];
    assert(r@ =~= summary_widths());
    r
}

/// The cells of a row of the summary.
pub fn cells_of_summary(row: &SummaryDisplayRow) -> (r: Vec<String>)
    ensures
        strings(r@) == summary_cells(row@),
{
    let r = vec![
        row.label.clone(),
        show(row.summary.running.jobs),
        show(row.summary.running.cpus),
        show(row.summary.running.gpus),
        "│".to_string(),
        show(row.summary.pending.jobs),
        show(row.summary.pending.cpus),
        show(row.summary.pending.gpus),
    ];
    assert(strings(r@) =~= summary_cells(row@));
    r
}

/// The style of a row of the summary.
pub fn summary_row_style(theme: &Theme, kind: SummaryRowKind) -> (r: Style)
    ensures
        r == summary_style(*theme, kind),
{
    match kind {
        SummaryRowKind::All => theme.summary_all,
        SummaryRowKind::Me => theme.summary_me,
        SummaryRowKind::User => theme.summary_others,
        SummaryRowKind::Others => theme.summary_others,
    }
}

/// Headers as texts.
pub fn header_texts_of_user_jobs() -> (r: Vec<String>)
    ensures
        strings(r@) == user_job_headers(),
{
    let r = vec![
        "JOBID".to_string(),
        "NAME".to_string(),
        "NODE".to_string(),
        "CPU".to_string(),
        "GPU".to_string(),
        "MEM".to_string(),
        "TIME".to_string(),
        "LIMIT".to_string(),
    ];
    assert(strings(r@) =~= user_job_headers());
    r
}

/// The widths of the columns of the tables of a user's jobs.
pub fn widths_of_user_jobs() -> (r: Vec<Constraint>)
    ensures
        r@ == user_job_widths(),
{
    let r = vec![
        Constraint::Percentage(10),
        Constraint::Percentage(18),
        Constraint::Percentage(12),
        Constraint::Percentage(6),
        Constraint::Percentage(18),
        Constraint::Percentage(8),
        Constraint::Percentage(14),
        Constraint::Percentage(14),
    ];
    assert(r@ =~= user_job_widths());
    r
}

/// The cells of a user's job.
pub fn cells_of_user_job(job: &Job) -> (r: Vec<String>)
    ensures
        strings(r@) == user_job_cells(job@),
{
    let node = if job.node_list.as_str().is_empty() {
        job.nodes.clone()
    } else {
        job.node_list.clone()
    };
    let r = vec![
        job.id.clone(),
        truncate_text(job.name.as_str(), 18),
        node,
        show(job.cpus),
        gpu_map_display(&job.gpus, ","),
        job.memory.human(),
        job.time_used.clone(),
        job.time_limit.clone(),
    ];
    assert(strings(r@) =~= user_job_cells(job@));
    r
}

/// Headers as texts.
pub fn header_texts_of_usage() -> (r: Vec<String>)
    ensures
        strings(r@) == usage_headers(),
{
    let r = vec!["USER".to_string(), "USED".to_string(), "ENTRIES".to_string()];
    assert(strings(r@) =~= usage_headers());
    r
}

/// The widths of the columns of the table of disk usage.
pub fn widths_of_usage() -> (r: Vec<Constraint>)
    ensures
        r@ == usage_widths(),
{
    let r = vec![Constraint::Percentage(45), Constraint::Percentage(25), Constraint::Percentage(30)];
    assert(r@ =~= usage_widths());
    r
}

/// The cells of a row of disk usage.
pub fn cells_of_usage(row: &DiskUserUsage) -> (r: Vec<String>)
    ensures
        strings(r@) == usage_cells(row@),
{
    let entries = if row.entries == 0 {
        "-".to_string()
    } else {
        show(row.entries)
    };
    let r = vec![row.user.clone(), row.human_bytes(), entries];
    assert(strings(r@) =~= usage_cells(row@));
    r
}

} // verus!
