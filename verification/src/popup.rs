//! What lies over the panels.

use vstd::prelude::*;

use crate::book::DiskUsageError;
use crate::cells::cells_of_usage;
use crate::cells::cells_of_user_job;
use crate::cells::header_texts_of_usage;
use crate::cells::header_texts_of_user_jobs;
use crate::cells::pad;
use crate::cells::padded;
use crate::cells::plain;
use crate::cells::plain_cells;
use crate::cells::repeated;
use crate::cells::rule;
use crate::cells::usage_cells;
use crate::cells::usage_headers;
use crate::cells::usage_widths;
use crate::cells::user_job_cells;
use crate::cells::user_job_headers;
use crate::cells::user_job_widths;
use crate::cells::widths_of_usage;
use crate::cells::widths_of_user_jobs;
use crate::cells::RowView;
use crate::cells::StyledText;
use crate::cells::TableRow;
use crate::clock::Span;
use crate::columns::decorate_headers;
use crate::columns::disk_usage_column_place;
use crate::columns::disk_usage_column_to_index;
use crate::columns::marked_headers;
use crate::columns::shown_of;
use crate::columns::user_job_column_place;
use crate::columns::user_job_column_to_index;
use crate::columns::UserJobSection;
use crate::commands::JobAction;
use crate::cursor::clamp_selection;
use crate::dashboard::AppState;
use crate::dashboard::Cursors;
use crate::dashboard::Hits;
use crate::events::InputMode;
use crate::events::ModalHeaderHit;
use crate::events::ModalTable;
use crate::events::ModalTableHit;
use crate::events::Moment;
use crate::events::PendingAction;
use crate::grid::are_headers;
use crate::grid::header_spans;
use crate::grid::is_part;
use crate::grid::is_split;
use crate::grid::shared;
use crate::grid::split_plain;
use crate::grid::Area;
use crate::grid::Axis;
use crate::grid::Constraint;
use crate::grid::HeaderSpan;
use crate::map::count_of;
use crate::map::lookup;
use crate::model::opt_or_empty;
use crate::model::views;
use crate::model::DiskUserUsage;
use crate::model::Job;
use crate::model::JobView;
use crate::model::Node;
use crate::model::NodeView;
use crate::model::UsageView;
use crate::number::decimal;
use crate::number::show;
use crate::order::arrange;
use crate::order::is_stable_order;
use crate::order::keys_view;
use crate::order::sort_rows;
use crate::order::sorted_stably;
use crate::order::SortKey;
use crate::screen::TableContent;
use crate::shown::DiskUsageView;
use crate::slurm::DiskUsageProgress;
use crate::sorting::keys_of;
use crate::sorting::text_key;
use crate::sorting::text_part;
use crate::stamp::displayable;
use crate::stamp::format_timestamp;
use crate::stamp::shows_locally;
use crate::summary::rest_of;
use crate::text::strings;
use crate::theme::plain_style;
use crate::theme::Style;
use crate::theme::Theme;
use crate::units::human_memory;
use crate::wording::disk_usage_empty_lines;
use crate::wording::disk_usage_loading_lines;
use crate::wording::disk_usage_progress_summary;
use crate::wording::disk_usage_scan_progress_lines;
use crate::wording::gpu_map_display;
use crate::wording::gpus_text;
use crate::wording::loading_text;
use crate::wording::nothing_found_text;
use crate::wording::progress_short;
use crate::wording::refreshing_text;
use crate::wording::slurm_time_display;
use crate::wording::spinner;
use crate::wording::spinner_mark;
use crate::wording::time_text;

verus! {

/// What a border of one cell leaves of an area.
pub open spec fn inner_of(area: Area) -> Area {
    Area {
        x: if area.width == 0 {
            area.x
        } else {
            (area.x + 1) as u16
        },
        y: if area.height == 0 {
            area.y
        } else {
            (area.y + 1) as u16
        },
        width: rest_of(area.width as nat, 2) as u16,
        height: rest_of(area.height as nat, 2) as u16,
    }
}

/// What a border of one cell leaves of an area.
pub fn inner_area(area: Area) -> (r: Area)
    requires
        area.fits(),
    ensures
        r == inner_of(area),
        r.fits(),
{
    Area {
        x: if area.width == 0 {
            area.x
        } else {
            area.x + 1
        },
        y: if area.height == 0 {
            area.y
        } else {
            area.y + 1
        },
        width: area.width.saturating_sub(2),
        height: area.height.saturating_sub(2),
    }
}

/// The lines of the help.
pub open spec fn help_text() -> Seq<Seq<char>> {
    seq![
        "slmtop help"@,
        "Tab/Shift-Tab or 1-4: focus panels. Arrow keys or j/k: move row."@,
        "s: cycle sort column, d: toggle direction, click header to sort."@,
        "/: search, f: filter (owner=me state=running gpu=a100)."@,
        "c: toggle column, x: hide panel, v: show panel, [ ] { } resize."@,
        "Enter on job: details (c cancel, h hold, u release, r requeue)."@,
        "Enter on node: node specs popup."@,
        "Enter on disk: current-user usage cache; u/r refresh, n no-timeout in popup."@,
        "t: cycle theme, ? or Esc: close help, q: quit."@,
    ]
}

/// The lines of the help.
pub fn draw_help() -> (r: Vec<String>)
    ensures
        strings(r@) == help_text(),
{
    let r = vec![
        "slmtop help".to_string(),
        "Tab/Shift-Tab or 1-4: focus panels. Arrow keys or j/k: move row.".to_string(),
        "s: cycle sort column, d: toggle direction, click header to sort.".to_string(),
        "/: search, f: filter (owner=me state=running gpu=a100).".to_string(),
        "c: toggle column, x: hide panel, v: show panel, [ ] { } resize.".to_string(),
        "Enter on job: details (c cancel, h hold, u release, r requeue).".to_string(),
        "Enter on node: node specs popup.".to_string(),
        "Enter on disk: current-user usage cache; u/r refresh, n no-timeout in popup.".to_string(),
        "t: cycle theme, ? or Esc: close help, q: quit.".to_string(),
    ];
    assert(strings(r@) =~= help_text());
    r
}

/// What is being asked for.
pub open spec fn prompt_text(mode: InputMode) -> Seq<char> {
    match mode {
        InputMode::Search => "Search"@,
        InputMode::Filter => "Filter"@,
        InputMode::Normal => ""@,
    }
}

/// The lines of the input.
pub open spec fn input_text(mode: InputMode, input: Seq<char>) -> Seq<Seq<char>> {
    seq![
        prompt_text(mode) + ": "@ + input,
        if mode == InputMode::Filter {
            "Examples: owner=me state=running part=gpu gpu=a100 free text"@
        } else {
            "Enter applies to the focused panel; Esc cancels"@
        },
    ]
}

/// The title and the lines of the input.
pub fn draw_input(mode: InputMode, input: &str) -> (r: (&'static str, Vec<String>))
    ensures
        r.0@ == prompt_text(mode),
        strings(r.1@) == input_text(mode, input@),
{
    let prompt = match mode {
        InputMode::Search => "Search",
        InputMode::Filter => "Filter",
        InputMode::Normal => "",
    };
    let help = if mode == InputMode::Filter {
        "Examples: owner=me state=running part=gpu gpu=a100 free text"
    } else {
        "Enter applies to the focused panel; Esc cancels"
    };
    let mut first = prompt.to_string();
    first.append(": ");
    first.append(input);
    let lines = vec![first, help.to_string()];
    assert(strings(lines@) =~= input_text(mode, input@));
    (prompt, lines)
}

/// A label and a value.
fn labelled(label: &str, value: &str) -> (r: String)
    ensures
        r@ == label@ + value@,
{
    let mut out = label.to_string();
    out.append(value);
    out
}

/// The lines of the details of a job.
pub open spec fn job_text(j: JobView) -> Seq<Seq<char>> {
    seq![
        "Job ID    : "@ + j.id,
        "User      : "@ + j.user,
        "State     : "@ + j.state,
        "Reason    : "@ + opt_or_empty(j.reason),
        "Partition : "@ + j.partition,
        "QOS       : "@ + j.qos,
        "Priority  : "@ + decimal(j.priority as nat),
        "Name      : "@ + j.name,
        "Nodes     : "@ + j.nodes,
    ] + (if j.node_list.len() == 0 {
        Seq::<Seq<char>>::empty()
    } else {
        seq!["Node List : "@ + j.node_list]
    }) + seq![
        "CPUs      : "@ + decimal(j.cpus as nat),
        "GPUs      : "@ + gpus_text(j.gpus, ", "@),
        "Memory    : "@ + human_memory(j.memory.0 as nat),
        "Time Used  : "@ + time_text(j.time_used),
        "Time Limit : "@ + time_text(j.time_limit),
        ""@,
        "c cancel | h hold | u release | r requeue | Esc close"@,
    ]
}

/// The lines of the details of a job.
pub fn draw_job_details(job: &Job) -> (r: Vec<String>)
    ensures
        strings(r@) == job_text(job@),
{
    let mut lines = vec![
        labelled("Job ID    : ", job.id.as_str()),
        labelled("User      : ", job.user.as_str()),
        labelled("State     : ", job.state.as_str()),
        labelled("Reason    : ", job.status_reason().as_str()),
        labelled("Partition : ", job.partition.as_str()),
        labelled("QOS       : ", job.qos.as_str()),
        labelled("Priority  : ", show(job.priority).as_str()),
        labelled("Name      : ", job.name.as_str()),
        labelled("Nodes     : ", job.nodes.as_str()),
    ];
    if !job.node_list.as_str().is_empty() {
        lines.push(labelled("Node List : ", job.node_list.as_str()));
    }
    lines.push(labelled("CPUs      : ", show(job.cpus).as_str()));
    lines.push(labelled("GPUs      : ", gpu_map_display(&job.gpus, ", ").as_str()));
    lines.push(labelled("Memory    : ", job.memory.human().as_str()));
    lines.push(labelled("Time Used  : ", slurm_time_display(job.time_used.as_str()).as_str()));
    lines.push(labelled("Time Limit : ", slurm_time_display(job.time_limit.as_str()).as_str()));
    lines.push("".to_string());
    lines.push("c cancel | h hold | u release | r requeue | Esc close".to_string());
    assert(strings(lines@) =~= job_text(job@));
    lines
}

/// The lines of the details of a node.
pub open spec fn node_text(n: NodeView) -> Seq<Seq<char>> {
    seq![
        "Node      : "@ + n.name,
        "State     : "@ + n.state,
        ""@,
        "── CPU ──────────────────────"@,
        "  Total     : "@ + decimal(n.cpus.total as nat),
        "  Allocated : "@ + decimal(n.cpus.allocated as nat),
        "  Idle      : "@ + decimal(n.cpus.idle as nat),
        "  Other     : "@ + decimal(n.cpus.other as nat),
        ""@,
        "── Memory ───────────────────"@,
        "  Total     : "@ + human_memory(n.memory_total.0 as nat),
        "  Reserved  : "@ + human_memory(n.memory_reserved.0 as nat),
        "  Free      : "@ + human_memory(n.memory_free.0 as nat),
        ""@,
        "── GPU ──────────────────────"@,
        "  GPUs      : "@ + gpus_text(n.gpus, ", "@),
        "  GRES      : "@ + n.gres_raw,
    ] + (match n.reason {
        Some(reason) => seq![""@, "Reason    : "@ + reason],
        None => seq![],
    }) + seq![""@, "Esc: close"@]
}

/// The lines of the details of a node.
pub fn draw_node_details(node: &Node) -> (r: Vec<String>)
    ensures
        strings(r@) == node_text(node@),
{
    let mut lines = vec![
        labelled("Node      : ", node.name.as_str()),
        labelled("State     : ", node.state.as_str()),
        "".to_string(),
        "── CPU ──────────────────────".to_string(),
        labelled("  Total     : ", show(node.cpus.total).as_str()),
        labelled("  Allocated : ", show(node.cpus.allocated).as_str()),
        labelled("  Idle      : ", show(node.cpus.idle).as_str()),
        labelled("  Other     : ", show(node.cpus.other).as_str()),
        "".to_string(),
        "── Memory ───────────────────".to_string(),
        labelled("  Total     : ", node.memory_total.human().as_str()),
        labelled("  Reserved  : ", node.memory_reserved.human().as_str()),
        labelled("  Free      : ", node.memory_free.human().as_str()),
        "".to_string(),
        "── GPU ──────────────────────".to_string(),
        labelled("  GPUs      : ", gpu_map_display(&node.gpus, ", ").as_str()),
        labelled("  GRES      : ", node.gres_raw.as_str()),
    ];
    if let Some(reason) = &node.reason {
        lines.push("".to_string());
        lines.push(labelled("Reason    : ", reason.as_str()));
    }
    lines.push("".to_string());
    lines.push("Esc: close".to_string());
    assert(strings(lines@) =~= node_text(node@));
    lines
}

/// The GPUs of one type on a node.
pub struct GpuShare {
    pub node: Seq<char>,
    pub total: u64,
    pub free: nat,
}

/// The GPUs of a type on each node that has them.
pub open spec fn gpu_shares(nodes: Seq<NodeView>, kind: Seq<char>) -> Seq<GpuShare>
    decreases nodes.len(),
{
    if nodes.len() == 0 {
        seq![]
    } else {
        let before = gpu_shares(nodes.drop_last(), kind);
        let n = nodes.last();
        match lookup(n.gpus, kind) {
            Some(total) => before.push(
                GpuShare {
                    node: n.name,
                    total,
                    free: rest_of(total as nat, count_of(n.gpus_allocated, kind)),
                },
            ),
            None => before,
        }
    }
}

/// The line of a node.
pub open spec fn share_text(node: Seq<char>, total: Seq<char>, free: Seq<char>) -> Seq<char> {
    padded(node, 15) + " | "@ + padded(total, 5) + " | "@ + padded(free, 5)
}

/// The lines of nodes.
pub open spec fn share_lines(shares: Seq<GpuShare>) -> Seq<Seq<char>> {
    Seq::new(
        shares.len(),
        |i: int| share_text(shares[i].node, decimal(shares[i].total as nat), decimal(shares[i].free)),
    )
}

/// The lines above the nodes.
pub open spec fn gpu_head(kind: Seq<char>) -> Seq<Seq<char>> {
    seq![
        "GPU Type  : "@ + kind,
        ""@,
        "Node Distribution:"@,
        share_text("Node"@, "Total"@, "Free"@),
        repeated('-', 31),
    ]
}

/// Whether these are the GPUs of a type on nodes, by the names of the nodes.
pub open spec fn shares_sorted(shares: Seq<GpuShare>, sorted: Seq<GpuShare>) -> bool {
    sorted_stably(shares, sorted, keys_of(shares, |s: GpuShare| text_part(s.node)), false)
}

/// Whether these are the lines of the details of a type of GPU: the nodes that have it, by name.
pub open spec fn is_gpu_text(lines: Seq<Seq<char>>, nodes: Seq<NodeView>, kind: Seq<char>) -> bool {
    let shares = gpu_shares(nodes, kind);
    exists|sorted: Seq<GpuShare>| #[trigger]
        shares_sorted(shares, sorted) && lines == gpu_head(kind) + share_lines(sorted) + seq![""@, "Esc close"@]
}

/// The GPUs of one type on a node.
#[derive(Debug)]
struct NodeShare {
    node: String,
    total: u64,
    free: u64,
}

/// What the GPUs of a type on nodes stand for.
spec fn shares_view(list: Seq<NodeShare>) -> Seq<GpuShare> {
    Seq::new(
        list.len(),
        |i: int| GpuShare { node: list[i].node@, total: list[i].total, free: list[i].free as nat },
    )
}

/// The line of a node.
fn say_share(node: &str, total: &str, free: &str) -> (r: String)
    ensures
        r@ == share_text(node@, total@, free@),
{
    let mut out = pad(node, 15);
    out.append(" | ");
    out.append(pad(total, 5).as_str());
    out.append(" | ");
    out.append(pad(free, 5).as_str());
    out
}

/// The lines of the details of a type of GPU.
pub fn draw_gpu_details(nodes: &Vec<Node>, gpu_type: &str) -> (r: Vec<String>)
    ensures
        is_gpu_text(strings(r@), views(nodes@), gpu_type@),
{
    let ghost shown = views(nodes@);
    let mut list: Vec<NodeShare> = Vec::new();
    let mut keys: Vec<SortKey> = Vec::new();
    let mut i: usize = 0;
    assert(shares_view(list@) =~= gpu_shares(shown.take(0), gpu_type@));
    while i < nodes.len()
        invariant
            i <= nodes@.len(),
            shown == views(nodes@),
            shares_view(list@) == gpu_shares(shown.take(i as int), gpu_type@),
            keys@.len() == list@.len(),
            forall|k: int| 0 <= k < keys@.len() ==> (#[trigger] keys@[k])@ == text_part(list@[k].node@),
        decreases nodes@.len() - i,
    {
        let node = &nodes[i];
        let ghost before = shares_view(list@);
        assert(shown.take(i + 1).drop_last() =~= shown.take(i as int));
        assert(shown[i as int] == node@);
        if let Some(total) = node.gpus.get(gpu_type) {
            let used: u64 = match node.gpus_allocated.get(gpu_type) {
                Some(n) => *n,
                None => 0,
            };
            let free: u64 = (*total).saturating_sub(used);
            keys.push(text_key(node.name.as_str()));
            list.push(NodeShare { node: node.name.clone(), total: *total, free });
            assert(shares_view(list@) =~= before.push(
                GpuShare { node: node@.name, total: *total, free: free as nat },
            ));
        }
        i += 1;
    }
    assert(shown.take(i as int) =~= shown);
    let ghost shares = shares_view(list@);
    let ghost unsorted = list@;
    let ghost wanted = keys_of(shares, |s: GpuShare| text_part(s.node));
    assert(keys_view(keys@) =~= wanted);
    let sorted = sort_rows(list, &keys, false);
    proof {
        let order = choose|order: Seq<int>| #[trigger]
            is_stable_order(wanted, false, order) && sorted@ == arrange(unsorted, order);
        assert(shares_view(sorted@) =~= arrange(shares, order));
        assert(is_stable_order(wanted, false, order) && shares_view(sorted@) == arrange(shares, order));
        assert(shares_sorted(shares, shares_view(sorted@)));
    }
    let ghost ranked = shares_view(sorted@);
    let mut lines = vec![
        labelled("GPU Type  : ", gpu_type),
        "".to_string(),
        "Node Distribution:".to_string(),
        say_share("Node", "Total", "Free"),
        rule(31),
    ];
    assert(strings(lines@) =~= gpu_head(gpu_type@) + share_lines(ranked.take(0)));
    i = 0;
    while i < sorted.len()
        invariant
            i <= sorted@.len(),
            ranked == shares_view(sorted@),
            strings(lines@) == gpu_head(gpu_type@) + share_lines(ranked.take(i as int)),
        decreases sorted@.len() - i,
    {
        let share = &sorted[i];
        let ghost before = strings(lines@);
        let line = say_share(
            share.node.as_str(),
            show(share.total).as_str(),
            show(share.free).as_str(),
        );
        let ghost text = line@;
        lines.push(line);
        assert(strings(lines@) =~= before.push(text));
        assert(share_lines(ranked.take(i + 1)) =~= share_lines(ranked.take(i as int)).push(text));
        assert(before.push(text) =~= gpu_head(gpu_type@) + share_lines(ranked.take(i + 1)));
        i += 1;
    }
    assert(ranked.take(i as int) =~= ranked);
    let ghost before = strings(lines@);
    lines.push("".to_string());
    lines.push("Esc close".to_string());
    assert(strings(lines@) =~= before + seq![""@, "Esc close"@]);
    lines
}

/// The lines of a confirmation; what cannot be undone is said to be so.
pub open spec fn confirmation_text(action: JobAction, job_id: Seq<char>, theme: Theme) -> Seq<
    (Seq<char>, Style),
> {
    seq![
        ("⚠  WARNING"@, theme.warning_border),
        (""@, plain_style()),
        ("Confirm "@ + action.name() + " for job "@ + job_id + "?"@, plain_style()),
    ] + (if action == JobAction::Cancel || action == JobAction::Requeue {
        seq![("This action cannot be undone."@, theme.state_failed)]
    } else {
        Seq::<(Seq<char>, Style)>::empty()
    }) + seq![(""@, plain_style()), ("y: confirm | n/Esc: cancel"@, plain_style())]
}

/// The lines of a confirmation.
pub fn draw_confirmation(pending: &PendingAction, theme: &Theme) -> (r: Vec<StyledText>)
    ensures
        views(r@) == confirmation_text(pending.action, pending.job_id@, *theme),
{
    let mut question = "Confirm ".to_string();
    question.append(pending.action.label());
    question.append(" for job ");
    question.append(pending.job_id.as_str());
    question.append("?");
    let mut lines = vec![
        StyledText { text: "⚠  WARNING".to_string(), style: theme.warning_border },
        StyledText { text: "".to_string(), style: Style::plain() },
        StyledText { text: question, style: Style::plain() },
    ];
    if pending.action == JobAction::Cancel || pending.action == JobAction::Requeue {
        lines.push(
            StyledText {
                text: "This action cannot be undone.".to_string(),
                style: theme.state_failed,
            },
        );
    }
    lines.push(StyledText { text: "".to_string(), style: Style::plain() });
    lines.push(
        StyledText { text: "y: confirm | n/Esc: cancel".to_string(), style: Style::plain() },
    );
    assert(views(lines@) =~= confirmation_text(pending.action, pending.job_id@, *theme));
    lines
}

/// The headers of a popup, on the screen.
pub open spec fn modal_hits(table: ModalTable, spans: Seq<HeaderSpan>) -> Seq<ModalHeaderHit> {
    Seq::new(spans.len(), |i: int| ModalHeaderHit { table, span: spans[i] })
}

/// Appends the headers of a popup.
fn add_modal_header_hits(hits: &mut Vec<ModalHeaderHit>, table: ModalTable, spans: &Vec<HeaderSpan>)
    ensures
        final(hits)@ == old(hits)@ + modal_hits(table, spans@),
{
    let ghost before = hits@;
    let mut i: usize = 0;
    assert(hits@ =~= before + modal_hits(table, spans@.take(0)));
    while i < spans.len()
        invariant
            i <= spans@.len(),
            hits@ == before + modal_hits(table, spans@.take(i as int)),
        decreases spans@.len() - i,
    {
        hits.push(ModalHeaderHit { table, span: spans[i] });
        assert(modal_hits(table, spans@.take(i + 1)) =~= modal_hits(table, spans@.take(i as int)).push(
            ModalHeaderHit { table, span: spans@[i as int] },
        ));
        assert(hits@ =~= before + modal_hits(table, spans@.take(i + 1)));
        i += 1;
    }
    assert(spans@.take(i as int) =~= spans@);
}

impl Hits {
    /// Whether `post` is what is on the screen with one more table of a popup.
    pub open spec fn with_modal_table(self, post: Hits, table: ModalTable, area: Area, widths: Seq<Constraint>) -> bool {
        &&& post.modal_tables@ == self.modal_tables@.push(ModalTableHit { table, area })
        &&& exists|spans: Seq<HeaderSpan>| #[trigger]
            are_headers(spans, area, widths) && post.modal_headers@ == self.modal_headers@ + modal_hits(
                table,
                spans,
            )
        &&& post == (Hits {
            modal_tables: post.modal_tables,
            modal_headers: post.modal_headers,
            ..self
        })
    }

    /// Puts a table of a popup on the screen.
    pub fn add_modal_table(&mut self, table: ModalTable, area: Area, widths: &Vec<Constraint>)
        requires
            old(self).wf(),
            area.fits(),
        ensures
            old(self).with_modal_table(*final(self), table, area, widths@),
            final(self).wf(),
    {
        self.modal_tables.push(ModalTableHit { table, area });
        let spans = header_spans(area, widths.as_slice());
        add_modal_header_hits(&mut self.modal_headers, table, &spans);
        assert(are_headers(spans@, area, widths@));
        proof {
            assert forall|i: int| 0 <= i < self.modal_tables@.len() implies (#[trigger] self.modal_tables@[i]).area.fits() by {
                if i < old(self).modal_tables@.len() {
                    assert(self.modal_tables@[i] == old(self).modal_tables@[i]);
                }
            }
        }
    }
}

/// The rows of a table of a user's jobs.
pub open spec fn user_job_table_rows(jobs: Seq<JobView>) -> Seq<RowView> {
    Seq::new(
        jobs.len(),
        |i: int| RowView { cells: plain_cells(user_job_cells(jobs[i])), style: plain_style() },
    )
}

/// The rows of a table of a user's jobs.
pub fn user_job_rows(jobs: &Vec<Job>) -> (r: Vec<TableRow>)
    ensures
        views(r@) == user_job_table_rows(views(jobs@)),
{
    let ghost shown = views(jobs@);
    let mut rows: Vec<TableRow> = Vec::new();
    let mut i: usize = 0;
    while i < jobs.len()
        invariant
            i <= jobs@.len(),
            shown == views(jobs@),
            rows@.len() == i,
            forall|k: int| 0 <= k < i ==> (#[trigger] rows@[k])@ == user_job_table_rows(shown)[k],
        decreases jobs@.len() - i,
    {
        let cells = plain(cells_of_user_job(&jobs[i]));
        rows.push(TableRow { cells, style: Style::plain() });
        i += 1;
    }
    assert(views(rows@) =~= user_job_table_rows(shown));
    rows
}

/// The rows of the table of disk usage.
pub open spec fn usage_table_rows(rows: Seq<UsageView>) -> Seq<RowView> {
    Seq::new(
        rows.len(),
        |i: int| RowView { cells: plain_cells(usage_cells(rows[i])), style: plain_style() },
    )
}

/// The rows of the table of disk usage.
pub fn disk_usage_rows(list: &Vec<DiskUserUsage>) -> (r: Vec<TableRow>)
    ensures
        views(r@) == usage_table_rows(views(list@)),
{
    let ghost shown = views(list@);
    let mut rows: Vec<TableRow> = Vec::new();
    let mut i: usize = 0;
    while i < list.len()
        invariant
            i <= list@.len(),
            shown == views(list@),
            rows@.len() == i,
            forall|k: int| 0 <= k < i ==> (#[trigger] rows@[k])@ == usage_table_rows(shown)[k],
        decreases list@.len() - i,
    {
        let cells = plain(cells_of_usage(&list[i]));
        rows.push(TableRow { cells, style: Style::plain() });
        i += 1;
    }
    assert(views(rows@) =~= usage_table_rows(shown));
    rows
}

/// What the popup of a user shows: two tables, one above the other.
#[derive(Debug)]
pub struct UserPopup {
    pub title: String,
    pub running: TableContent,
    pub pending: TableContent,
}

/// The title of the popup of a user.
pub open spec fn user_title(user: Seq<char>, running: nat, pending: nat) -> Seq<char> {
    "User: "@ + user + " | R:"@ + decimal(running) + " P:"@ + decimal(pending)
        + " | Tab table | s/d sort | Esc close"@
}

/// The title of a section.
pub open spec fn section_title(section: UserJobSection, count: nat) -> Seq<char> {
    (match section {
        UserJobSection::Running => "Running ("@,
        UserJobSection::Pending => "Pending ("@,
    }) + decimal(count) + ")"@
}

impl AppState {
    /// Whether this is the table of a section of a user's jobs.
    pub open spec fn is_section_table(self, t: TableContent, user: Seq<char>, section: UserJobSection) -> bool {
        let count = self.jobs_in_section(user, section).len();
        &&& exists|jobs: Seq<JobView>| #[trigger]
            self.user_jobs_shown(jobs, user, section) && views(t.rows@) == user_job_table_rows(jobs)
        &&& strings(t.headers@) == marked_headers(
            user_job_headers(),
            user_job_column_place(self.sorting.columns.user_jobs),
            self.sorting.user_direction,
        )
        &&& t.widths@ == user_job_widths()
        &&& t.title@ == section_title(section, count)
        &&& t.border == self.border_style(self.cursors.section == section)
        &&& t.cursor == (match section {
            UserJobSection::Running => self.cursors.running,
            UserJobSection::Pending => self.cursors.pending,
        }).clamped(count as usize)
    }

    /// The table of a section of a user's jobs.
    fn section_content(&self, user: &str, section: UserJobSection, area: Area) -> (r: TableContent)
        requires
            self.wf(),
        ensures
            self.is_section_table(r, user@, section),
            r.area == area,
    {
        let jobs = self.user_section_jobs(user, section);
        let rows = user_job_rows(&jobs);
        let ghost shown = views(jobs@);
        assert(self.user_jobs_shown(shown, user@, section));
        let all: Vec<bool> = Vec::new();
        let headers = decorate_headers(
            &header_texts_of_user_jobs(),
            user_job_column_to_index(self.sorting.columns.user_jobs),
            self.sorting.user_direction,
            all.as_slice(),
        );
        proof {
            lemma_all_shown(
                marked_headers(
                    user_job_headers(),
                    user_job_column_place(self.sorting.columns.user_jobs),
                    self.sorting.user_direction,
                ),
                all@,
            );
        }
        let mut title = match section {
            UserJobSection::Running => "Running (".to_string(),
            UserJobSection::Pending => "Pending (".to_string(),
        };
        title.append(show(jobs.len() as u64).as_str());
        title.append(")");
        let mut cursor = match section {
            UserJobSection::Running => self.cursors.running,
            UserJobSection::Pending => self.cursors.pending,
        };
        clamp_selection(&mut cursor, jobs.len());
        TableContent {
            area,
            title,
            border: self.themed_border(self.cursors.section == section),
            headers,
            widths: widths_of_user_jobs(),
            rows,
            cursor,
        }
    }

    /// Whether this is the popup of a user in an area, and `post` the state with it on the screen.
    pub open spec fn user_popup_drawn(self, post: AppState, p: UserPopup, user: Seq<char>, area: Area) -> bool {
        let running = self.jobs_in_section(user, UserJobSection::Running).len();
        let pending = self.jobs_in_section(user, UserJobSection::Pending).len();
        &&& p.title@ == user_title(user, running, pending)
        &&& self.is_section_table(p.running, user, UserJobSection::Running)
        &&& self.is_section_table(p.pending, user, UserJobSection::Pending)
        &&& is_split(
            inner_of(area),
            Axis::Vertical,
            shared(50),
            0,
            seq![p.running.area, p.pending.area],
        )
        &&& exists|middle: Hits| #[trigger]
            self.hits.with_modal_table(middle, ModalTable::UserRunning, p.running.area, user_job_widths())
                && middle.with_modal_table(post.hits, ModalTable::UserPending, p.pending.area, user_job_widths())
        &&& post == (AppState {
            hits: post.hits,
            cursors: Cursors {
                running: p.running.cursor,
                pending: p.pending.cursor,
                ..self.cursors
            },
            ..self
        })
    }

    /// The popup of a user in an area.
    pub fn draw_user_details(&mut self, user: &str, area: Area) -> (r: UserPopup)
        requires
            old(self).wf(),
            area.fits(),
        ensures
            old(self).user_popup_drawn(*final(self), r, user@, area),
            final(self).wf(),
    {
        let inner = inner_area(area);
        let parts = split_plain(
            inner,
            Axis::Vertical,
            &[Constraint::Percentage(50), Constraint::Percentage(50)],
        );
        assert(is_part(inner, Axis::Vertical, parts@[0]) && is_part(inner, Axis::Vertical, parts@[1]));
        let running = self.section_content(user, UserJobSection::Running, parts[0]);
        let pending = self.section_content(user, UserJobSection::Pending, parts[1]);
        assert(parts@ =~= seq![running.area, pending.area]);
        let running_count: usize = self.user_section_len(user, UserJobSection::Running);
        let pending_count: usize = self.user_section_len(user, UserJobSection::Pending);
        let mut title = "User: ".to_string();
        title.append(user);
        title.append(" | R:");
        title.append(show(running_count as u64).as_str());
        title.append(" P:");
        title.append(show(pending_count as u64).as_str());
        title.append(" | Tab table | s/d sort | Esc close");
        self.cursors.running = running.cursor;
        self.cursors.pending = pending.cursor;
        self.hits.add_modal_table(ModalTable::UserRunning, parts[0], &running.widths);
        let ghost middle = self.hits;
        self.hits.add_modal_table(ModalTable::UserPending, parts[1], &pending.widths);
        assert(old(self).hits.with_modal_table(middle, ModalTable::UserRunning, running.area, user_job_widths())
            && middle.with_modal_table(self.hits, ModalTable::UserPending, pending.area, user_job_widths()));
        UserPopup { title, running, pending }
    }
}

proof fn lemma_all_shown<T>(values: Seq<T>, visible: Seq<bool>)
    requires
        visible.len() == 0,
    ensures
        shown_of(values, visible) == values,
    decreases values.len(),
{
    if values.len() > 0 {
        lemma_all_shown(values.drop_last(), visible);
        assert(values.drop_last().push(values.last()) =~= values);
    } else {
        assert(values =~= seq![]);
    }
}

/// How long a scan has run, against its time limit.
pub open spec fn scanning_text(nanos: int, timeout: Option<Span>) -> Seq<char> {
    spinner_mark(nanos / 1_000_000) + " scanning "@ + decimal((nanos / 1_000_000_000) as nat) + "s/"@
        + match timeout {
        Some(limit) => decimal(limit.secs as nat) + "s"@,
        None => "no timeout"@,
    }
}

/// How far a scan is, behind how long it has run.
pub open spec fn progress_suffix(progress: Option<DiskUsageProgress>) -> Seq<char> {
    match progress {
        Some(p) => "; "@ + progress_short(p),
        None => seq![],
    }
}

/// Whether this is what is said of a scan and its results.
pub open spec fn is_status_text(text: Seq<char>, v: DiskUsageView, now: Moment) -> bool {
    match v.scan_started_at {
        Some(started) => {
            let status = scanning_text(now.since(started), v.scan_timeout) + progress_suffix(v.progress);
            match v.captured_at {
                Some(at) => exists|stamp: Seq<char>| #[trigger]
                    shows_locally(stamp, at) && text == status + "; showing cached "@ + stamp,
                None => text == status,
            }
        },
        None => match v.captured_at {
            Some(at) => exists|stamp: Seq<char>| #[trigger]
                shows_locally(stamp, at) && text == "cached at "@ + stamp + if v.error is Some {
                    "; update failed"@
                } else {
                    seq![]
                },
            None => text == if v.error is Some {
                "error"@
            } else {
                "not scanned"@
            },
        },
    }
}

/// What is said of a scan and its results.
pub fn disk_usage_status(v: &DiskUsageView, now: Moment) -> (r: String)
    requires
        v.captured_at matches Some(at) ==> displayable(at),
    ensures
        is_status_text(r@, *v, now),
{
    match v.scan_started_at {
        Some(started) => {
            let nanos: u64 = now.nanos_since(started);
            let mut status = spinner(nanos / 1_000_000).to_string();
            status.append(" scanning ");
            status.append(show(nanos / 1_000_000_000).as_str());
            status.append("s/");
            match v.scan_timeout {
                Some(limit) => {
                    let mut text = show(limit.secs);
                    text.append("s");
                    status.append(text.as_str());
                },
                None => {
                    status.append("no timeout");
                },
            }
            assert(status@ =~= scanning_text(now.since(started), v.scan_timeout));
            let ghost before = status@;
            if let Some(progress) = v.progress {
                let mut text = "; ".to_string();
                text.append(disk_usage_progress_summary(progress).as_str());
                status.append(text.as_str());
            }
            assert(status@ =~= before + progress_suffix(v.progress));
            if let Some(at) = v.captured_at {
                let stamp = format_timestamp(at);
                status.append("; showing cached ");
                status.append(stamp.as_str());
                assert(shows_locally(stamp@, at));
            }
            status
        },
        None => match v.captured_at {
            Some(at) => {
                let stamp = format_timestamp(at);
                let mut status = "cached at ".to_string();
                status.append(stamp.as_str());
                let ghost before = status@;
                if v.error.is_some() {
                    status.append("; update failed");
                }
                assert(shows_locally(stamp@, at));
                assert(status@ =~= before + if v.error is Some {
                    "; update failed"@
                } else {
                    seq![]
                });
                status
            },
            None => if v.error.is_some() {
                "error".to_string()
            } else {
                "not scanned".to_string()
            },
        },
    }
}

/// Whether these are the lines of a scan that failed.
pub open spec fn is_error_text(lines: Seq<Seq<char>>, error: DiskUsageError) -> bool {
    exists|stamp: Seq<char>| #[trigger]
        shows_locally(stamp, error.occurred_at) && lines == seq![
            "Per-user usage scan failed."@,
            error.message@,
            "Failed at "@ + stamp,
            ""@,
            "Press u to retry, or n to retry without a timeout."@,
            "Esc close"@,
        ]
}

/// The lines of a scan that failed.
pub fn disk_usage_error_lines(error: &DiskUsageError) -> (r: Vec<String>)
    requires
        displayable(error.occurred_at),
    ensures
        is_error_text(strings(r@), *error),
{
    let stamp = format_timestamp(error.occurred_at);
    let lines = vec![
        "Per-user usage scan failed.".to_string(),
        error.message.clone(),
        labelled("Failed at ", stamp.as_str()),
        "".to_string(),
        "Press u to retry, or n to retry without a timeout.".to_string(),
        "Esc close".to_string(),
    ];
    assert(shows_locally(stamp@, error.occurred_at));
    assert(strings(lines@) =~= seq![
        "Per-user usage scan failed."@,
        error.message@,
        "Failed at "@ + stamp@,
        ""@,
        "Press u to retry, or n to retry without a timeout."@,
        "Esc close"@,
    ]);
    lines
}

/// What the popup of a disk shows.
#[derive(Debug)]
pub enum DiskBody {
    /// Lines, without rows.
    Message(Vec<String>),
    /// Rows, and the lines of a scan that refreshes them in an area above.
    Rows { progress: Option<(Area, Vec<String>)>, table: TableContent },
}

/// The popup of a disk.
#[derive(Debug)]
pub struct DiskPopup {
    pub title: String,
    pub inner: Area,
    pub body: DiskBody,
}

/// Whether this is the title of the popup of a disk.
pub open spec fn is_disk_title(title: Seq<char>, key: (Seq<char>, Seq<char>), v: DiskUsageView, now: Moment) -> bool {
    exists|status: Seq<char>| #[trigger]
        is_status_text(status, v, now) && title == "Disk Usage: "@ + key.0 + " | user="@ + key.1 + " | "@
            + status + " | u refresh | n no-timeout | Esc close"@
}

impl AppState {
    /// Whether this is the table of disk usage.
    pub open spec fn is_usage_table(self, t: TableContent) -> bool {
        &&& exists|rows: Seq<UsageView>| #[trigger]
            self.usage_shown(rows) && views(t.rows@) == usage_table_rows(rows)
        &&& strings(t.headers@) == marked_headers(
            usage_headers(),
            disk_usage_column_place(self.sorting.columns.usage),
            self.sorting.usage_direction,
        )
        &&& t.widths@ == usage_widths()
        &&& t.title@.len() == 0
        &&& t.border == self.skin.theme.border_focused
        &&& t.cursor == self.cursors.usage.clamped(self.active_usage().len() as usize)
    }

    /// Whether this is what the popup of a disk shows: an error without rows, a scan without rows, no
    /// rows, or the rows, below how far a scan is that refreshes them.
    pub open spec fn is_disk_body(self, p: DiskPopup, v: DiskUsageView) -> bool {
        let count = self.active_usage().len();
        match p.body {
            DiskBody::Message(lines) => {
                &&& count == 0
                &&& if v.error is Some {
                    is_error_text(strings(lines@), v.error->0)
                } else if v.scan_started_at is Some {
                    strings(lines@) == loading_text(v.scan_timeout, v.progress)
                } else {
                    strings(lines@) == nothing_found_text(self.popups.disk->0@.1)
                }
            },
            DiskBody::Rows { progress, table } => {
                &&& count > 0
                &&& self.is_usage_table(table)
                &&& match progress {
                    Some((area, lines)) => {
                        &&& v.scan_started_at is Some
                        &&& strings(lines@) == refreshing_text(v.scan_timeout, v.progress)
                        &&& is_split(
                            p.inner,
                            Axis::Vertical,
                            seq![Constraint::Length(2), Constraint::Min(3)],
                            0,
                            seq![area, table.area],
                        )
                    },
                    None => v.scan_started_at is None && table.area == p.inner,
                }
            },
        }
    }

    /// Whether this is the popup of the disk in an area, and `post` the state with it on the screen.
    pub open spec fn disk_popup_drawn(self, post: AppState, p: DiskPopup, area: Area, now: Moment) -> bool {
        &&& p.inner == inner_of(area)
        &&& exists|v: DiskUsageView| #[trigger]
            self.is_active_view(v) && is_disk_title(p.title@, self.popups.disk->0@, v, now)
                && self.is_disk_body(p, v)
        &&& match p.body {
            DiskBody::Message(_) => post.hits == self.hits,
            DiskBody::Rows { table, .. } => self.hits.with_modal_table(
                post.hits,
                ModalTable::DiskUsage,
                table.area,
                usage_widths(),
            ),
        }
        &&& post == (AppState {
            hits: post.hits,
            cursors: Cursors {
                usage: self.cursors.usage.clamped(self.active_usage().len() as usize),
                ..self.cursors
            },
            ..self
        })
    }

    /// The table of disk usage in an area.
    fn usage_content(&self, area: Area) -> (r: TableContent)
        ensures
            self.is_usage_table(r),
            r.area == area,
    {
        let list = self.sorted_disk_usage_rows();
        let rows = disk_usage_rows(&list);
        let ghost shown = views(list@);
        assert(self.usage_shown(shown));
        let all: Vec<bool> = Vec::new();
        let headers = decorate_headers(
            &header_texts_of_usage(),
            disk_usage_column_to_index(self.sorting.columns.usage),
            self.sorting.usage_direction,
            all.as_slice(),
        );
        proof {
            lemma_all_shown(
                marked_headers(
                    usage_headers(),
                    disk_usage_column_place(self.sorting.columns.usage),
                    self.sorting.usage_direction,
                ),
                all@,
            );
        }
        let mut cursor = self.cursors.usage;
        clamp_selection(&mut cursor, list.len());
        TableContent {
            area,
            title: String::new(),
            border: self.skin.theme.border_focused,
            headers,
            widths: widths_of_usage(),
            rows,
            cursor,
        }
    }

    /// What the popup of a disk shows inside its border.
    fn disk_body(&self, v: &DiskUsageView, inner: Area) -> (r: DiskBody)
        requires
            self.wf(),
            self.popups.disk is Some,
            self.is_active_view(*v),
            inner.fits(),
        ensures
            forall|title: String| #![trigger self.is_disk_body(DiskPopup { title, inner, body: r }, *v)]
                self.is_disk_body(DiskPopup { title, inner, body: r }, *v),
            r matches DiskBody::Rows { table, .. } ==> table.area.fits() && table.widths@ == usage_widths(),
    {
        assert(views(v.rows@).len() == v.rows@.len());
        if v.rows.len() == 0 {
            if let Some(error) = &v.error {
                assert(displayable(error.occurred_at));
                return DiskBody::Message(disk_usage_error_lines(error));
            }
            if v.is_loading() {
                return DiskBody::Message(disk_usage_loading_lines(v.scan_timeout, v.progress));
            }
            let user = match &self.popups.disk {
                Some(key) => key.user.clone(),
                None => String::new(),
            };
            return DiskBody::Message(disk_usage_empty_lines(user.as_str()));
        }
        if v.is_loading() {
            let parts = split_plain(
                inner,
                Axis::Vertical,
                &[Constraint::Length(2), Constraint::Min(3)],
            );
            assert(is_part(inner, Axis::Vertical, parts@[0]) && is_part(inner, Axis::Vertical, parts@[1]));
            let lines = disk_usage_scan_progress_lines(v.scan_timeout, v.progress);
            let table = self.usage_content(parts[1]);
            assert(parts@ =~= seq![parts@[0], table.area]);
            DiskBody::Rows { progress: Some((parts[0], lines)), table }
        } else {
            DiskBody::Rows { progress: None, table: self.usage_content(inner) }
        }
    }

    /// The popup of the disk in an area.
    pub fn draw_disk_details(&mut self, area: Area, now: Moment) -> (r: DiskPopup)
        requires
            old(self).wf(),
            old(self).popups.disk is Some,
            area.fits(),
        ensures
            old(self).disk_popup_drawn(*final(self), r, area, now),
            final(self).wf(),
    {
        let inner = inner_area(area);
        let v = self.active_disk_usage_view();
        let status = disk_usage_status(&v, now);
        let mut title = "Disk Usage: ".to_string();
        if let Some(key) = &self.popups.disk {
            title.append(key.mount.as_str());
            title.append(" | user=");
            title.append(key.user.as_str());
        }
        title.append(" | ");
        title.append(status.as_str());
        title.append(" | u refresh | n no-timeout | Esc close");
        assert(is_status_text(status@, v, now));
        assert(is_disk_title(title@, self.popups.disk->0@, v, now));
        let body = self.disk_body(&v, inner);
        assert(self.is_disk_body(DiskPopup { title, inner, body }, v));
        let len: usize = self.active_disk_usage_len();
        clamp_selection(&mut self.cursors.usage, len);
        if let DiskBody::Rows { table, .. } = &body {
            self.hits.add_modal_table(ModalTable::DiskUsage, table.area, &table.widths);
        }
        assert(old(self).is_active_view(v));
        DiskPopup { title, inner, body }
    }
}

} // verus!
