//! What the screen shows of the panels.

use vstd::prelude::*;

use crate::cells::cells_of_disk;
use crate::cells::cells_of_gpu;
use crate::cells::cells_of_job;
use crate::cells::cells_of_node;
use crate::cells::cells_of_summary;
use crate::cells::disk_cells;
use crate::cells::disk_headers;
use crate::cells::disk_widths;
use crate::cells::gpu_cells;
use crate::cells::gpu_headers;
use crate::cells::header_texts_of_disks;
use crate::cells::header_texts_of_gpus;
use crate::cells::header_texts_of_jobs;
use crate::cells::header_texts_of_nodes;
use crate::cells::header_texts_of_summary;
use crate::cells::job_cells;
use crate::cells::job_headers;
use crate::cells::job_widths;
use crate::cells::node_cells;
use crate::cells::node_headers;
use crate::cells::node_widths;
use crate::cells::plain;
use crate::cells::plain_cells;
use crate::cells::summary_cells;
use crate::cells::summary_headers;
use crate::cells::summary_row_style;
use crate::cells::summary_style;
use crate::cells::summary_widths;
use crate::cells::widths_of_disks;
use crate::cells::widths_of_jobs;
use crate::cells::widths_of_nodes;
use crate::cells::widths_of_summary;
use crate::cells::RowView;
use crate::cells::StyledText;
use crate::cells::TableRow;
use crate::columns::decorate_headers;
use crate::columns::disk_column_place;
use crate::columns::disk_column_to_index;
use crate::columns::gpu_column_place;
use crate::columns::gpu_column_to_index;
use crate::columns::is_shown;
use crate::columns::job_column_place;
use crate::columns::job_column_to_index;
use crate::columns::marked_headers;
use crate::columns::node_column_place;
use crate::columns::node_column_to_index;
use crate::columns::select_visible;
use crate::columns::select_visible_items;
use crate::columns::shown_of;
use crate::columns::shows;
use crate::columns::visible_columns;
use crate::cursor::clamp_selection;
use crate::cursor::TableCursor;
use crate::dashboard::job_fits;
use crate::dashboard::node_fits;
use crate::dashboard::AppState;
use crate::dashboard::Hits;
use crate::events::HeaderHit;
use crate::events::InputMode;
use crate::grid::are_headers;
use crate::grid::are_panel_areas;
use crate::grid::compute_panel_areas;
use crate::grid::equal_shares;
use crate::grid::equal_widths;
use crate::grid::header_spans;
use crate::grid::is_part;
use crate::grid::is_split;
use crate::grid::split_plain;
use crate::grid::Area;
use crate::grid::Axis;
use crate::grid::Constraint;
use crate::grid::HeaderSpan;
use crate::listing::GpuRowView;
use crate::listing::SummaryRowView;
use crate::model::opt_view;
use crate::model::views;
use crate::model::DiskView;
use crate::model::JobView;
use crate::model::NodeView;
use crate::number::decimal;
use crate::number::show;
use crate::panel::PanelId;
use crate::text::strings;
use crate::theme::job_state_style;
use crate::theme::node_state_style;
use crate::theme::plain_style;
use crate::theme::themed_node_style;
use crate::theme::themed_state_style;
use crate::theme::Style;
use crate::theme::Theme;
use crate::wording::filter_label;
use crate::wording::filter_text;

verus! {

/// What a table shows.
#[derive(Debug)]
pub struct TableContent {
    pub area: Area,
    pub title: String,
    pub border: Style,
    pub headers: Vec<String>,
    pub widths: Vec<Constraint>,
    pub rows: Vec<TableRow>,
    pub cursor: TableCursor,
}

/// The headers of a panel, on the screen.
pub open spec fn panel_hits(panel: PanelId, spans: Seq<HeaderSpan>) -> Seq<HeaderHit> {
    Seq::new(spans.len(), |i: int| HeaderHit { panel, span: spans[i] })
}

/// Appends the headers of a panel.
fn add_panel_hits(hits: &mut Vec<HeaderHit>, panel: PanelId, spans: &Vec<HeaderSpan>)
    ensures
        final(hits)@ == old(hits)@ + panel_hits(panel, spans@),
{
    let ghost before = hits@;
    let mut i: usize = 0;
    assert(hits@ =~= before + panel_hits(panel, spans@.take(0)));
    while i < spans.len()
        invariant
            i <= spans@.len(),
            hits@ == before + panel_hits(panel, spans@.take(i as int)),
        decreases spans@.len() - i,
    {
        hits.push(HeaderHit { panel, span: spans[i] });
        assert(panel_hits(panel, spans@.take(i + 1)) =~= panel_hits(panel, spans@.take(i as int)).push(
            HeaderHit { panel, span: spans@[i as int] },
        ));
        assert(hits@ =~= before + panel_hits(panel, spans@.take(i + 1)));
        i += 1;
    }
    assert(spans@.take(i as int) =~= spans@);
}

/// Which of so many columns are shown.
pub open spec fn shown_flags(columns: Seq<bool>, n: nat) -> Seq<bool> {
    Seq::new(n, |i: int| is_shown(columns, i))
}

/// The rows of the table of jobs.
pub open spec fn job_table_rows(jobs: Seq<JobView>, visible: Seq<bool>, theme: Theme) -> Seq<RowView> {
    Seq::new(
        jobs.len(),
        |i: int|
            RowView {
                cells: plain_cells(shown_of(job_cells(jobs[i]), visible)),
                style: job_state_style(theme, jobs[i].state),
            },
    )
}

/// The rows of the table of nodes.
pub open spec fn node_table_rows(nodes: Seq<NodeView>, visible: Seq<bool>, theme: Theme) -> Seq<RowView> {
    Seq::new(
        nodes.len(),
        |i: int|
            RowView {
                cells: plain_cells(shown_of(node_cells(nodes[i]), visible)),
                style: node_state_style(theme, nodes[i].state),
            },
    )
}

/// The rows of the table of GPUs.
pub open spec fn gpu_table_rows(rows: Seq<GpuRowView>, visible: Seq<bool>) -> Seq<RowView> {
    Seq::new(
        rows.len(),
        |i: int|
            RowView {
                cells: plain_cells(shown_of(gpu_cells(rows[i]), visible)),
                style: plain_style(),
            },
    )
}

/// The rows of the table of disks.
pub open spec fn disk_table_rows(disks: Seq<DiskView>, visible: Seq<bool>) -> Seq<RowView> {
    Seq::new(
        disks.len(),
        |i: int| RowView { cells: shown_of(disk_cells(disks[i]), visible), style: plain_style() },
    )
}

/// The rows of the summary.
pub open spec fn summary_table_rows(rows: Seq<SummaryRowView>, theme: Theme) -> Seq<RowView> {
    Seq::new(
        rows.len(),
        |i: int|
            RowView {
                cells: plain_cells(summary_cells(rows[i])),
                style: summary_style(theme, rows[i].kind),
            },
    )
}

/// How many rows there are, and by what they are filtered.
pub open spec fn rows_suffix(rows: nat, filter: Seq<char>) -> Seq<char> {
    "rows="@ + decimal(rows) + " filter="@ + filter
}

/// The styled texts of the columns that are shown.
fn select_visible_cells(cells: Vec<StyledText>, visible: &[bool]) -> (r: Vec<StyledText>)
    ensures
        views(r@) == shown_of(views(cells@), visible@),
{
    let ghost shown = views(cells@);
    let mut out: Vec<StyledText> = Vec::new();
    let mut i: usize = 0;
    assert(views(out@) =~= shown_of(shown.take(0), visible@));
    while i < cells.len()
        invariant
            i <= cells@.len(),
            shown == views(cells@),
            views(out@) == shown_of(shown.take(i as int), visible@),
        decreases cells@.len() - i,
    {
        let ghost before = views(out@);
        assert(shown.take(i + 1).drop_last() =~= shown.take(i as int));
        if shows(visible, i) {
            out.push(StyledText { text: cells[i].text.clone(), style: cells[i].style });
            assert(views(out@) =~= before.push(shown[i as int]));
        }
        i += 1;
    }
    assert(shown.take(i as int) =~= shown);
    out
}

/// How many columns are shown.
pub open spec fn shown_total(visible: Seq<bool>) -> nat {
    visible.filter(|v: bool| v).len()
}

/// How many columns are shown.
fn count_shown(visible: &Vec<bool>) -> (r: usize)
    ensures
        r == shown_total(visible@),
{
    let ghost keep = |v: bool| v;
    let mut n: usize = 0;
    let mut i: usize = 0;
    assert(visible@.take(0).filter(keep) =~= Seq::empty());
    while i < visible.len()
        invariant
            i <= visible@.len(),
            keep == (|v: bool| v),
            n == visible@.take(i as int).filter(keep).len(),
            n <= i,
        decreases visible@.len() - i,
    {
        proof {
            assert(visible@.take(i + 1).drop_last() =~= visible@.take(i as int));
            reveal(Seq::filter);
        }
        if visible[i] {
            n = n + 1;
        }
        i += 1;
    }
    assert(visible@.take(i as int) =~= visible@);
    n
}

impl AppState {
    /// Whether `post` is the state at the beginning of a frame: the panels have their areas, and
    /// nothing is on the screen yet.
    pub open spec fn frame_begun(self, post: AppState, main: Area) -> bool {
        &&& are_panel_areas(
            post.hits.areas,
            main,
            self.board.visible_panels(),
            self.board.left_percent,
            self.board.top_percent,
        )
        &&& post.hits.headers@.len() == 0
        &&& post.hits.modal_headers@.len() == 0
        &&& post.hits.modal_tables@.len() == 0
        &&& post.hits.last_click == self.hits.last_click
        &&& forall|p: PanelId| #![trigger post.hits.areas.at(p)]
            if self.board.shows(p) {
                post.hits.areas.at(p) is Some && post.hits.areas.at(p)->0.within(main)
            } else {
                post.hits.areas.at(p) is None
            }
        &&& post == (AppState { hits: post.hits, ..self })
    }

    /// Begins a frame: says which area the panels share, and which one the status line takes.
    pub fn begin_frame(&mut self, root: Area) -> (r: (Area, Area))
        requires
            old(self).wf(),
            root.fits(),
        ensures
            is_split(
                root,
                Axis::Vertical,
                seq![Constraint::Min(6), Constraint::Length(2)],
                0,
                seq![r.0, r.1],
            ),
            old(self).frame_begun(*final(self), r.0),
            final(self).wf(),
    {
        let parts = split_plain(root, Axis::Vertical, &[Constraint::Min(6), Constraint::Length(2)]);
        assert(is_part(root, Axis::Vertical, parts@[0]) && is_part(root, Axis::Vertical, parts@[1]));
        assert(parts@ =~= seq![parts@[0], parts@[1]]);
        let main = parts[0];
        let shown = self.board.shown();
        let areas = compute_panel_areas(
            main,
            &shown,
            self.board.left_percent,
            self.board.top_percent,
        );
        let last_click = self.hits.last_click;
        assert forall|p: PanelId| #![trigger areas.at(p)]
            (if self.board.shows(p) {
                areas.at(p) is Some && areas.at(p)->0.within(main)
            } else {
                areas.at(p) is None
            }) by {
            assert(shown.at(p) == self.board.shows(p));
        }
        self.hits = Hits {
            areas,
            headers: Vec::new(),
            modal_headers: Vec::new(),
            modal_tables: Vec::new(),
            last_click,
        };
        (main, parts[1])
    }

    /// The title of a panel; the focused one is marked.
    pub open spec fn title_of(self, panel: PanelId, suffix: Seq<char>) -> Seq<char> {
        (if self.board.focus == panel {
            "*"@
        } else {
            " "@
        }) + " "@ + panel.heading() + " | "@ + suffix
    }

    /// The title of a panel.
    pub fn panel_title(&self, panel: PanelId, suffix: &str) -> (r: String)
        ensures
            r@ == self.title_of(panel, suffix@),
    {
        let mut out = if self.board.focus == panel {
            "*".to_string()
        } else {
            " ".to_string()
        };
        out.append(" ");
        out.append(panel.title());
        out.append(" | ");
        out.append(suffix);
        out
    }

    /// The style of a border.
    pub open spec fn border_style(self, focused: bool) -> Style {
        if focused {
            self.skin.theme.border_focused
        } else {
            self.skin.theme.border_unfocused
        }
    }

    /// The style of a border.
    pub fn themed_border(&self, focused: bool) -> (r: Style)
        ensures
            r == self.border_style(focused),
    {
        if focused {
            self.skin.theme.border_focused
        } else {
            self.skin.theme.border_unfocused
        }
    }

    /// Whether `post` is the state with a table of some columns in an area, whose cursor is set and
    /// whose headers can be clicked.
    pub open spec fn on_screen(
        self,
        post: AppState,
        panel: PanelId,
        area: Area,
        widths: Seq<Constraint>,
        cursor: TableCursor,
    ) -> bool {
        &&& exists|spans: Seq<HeaderSpan>| #[trigger]
            are_headers(spans, area, widths) && post.hits.headers@ == self.hits.headers@ + panel_hits(
                panel,
                spans,
            )
        &&& post == (AppState {
            hits: Hits { headers: post.hits.headers, ..self.hits },
            ..self.with_cursor(panel, cursor)
        })
    }

    /// Whether `post` is the state with a table of a panel on the screen: its cursor is on one of
    /// its rows, and its headers can be clicked.
    pub open spec fn table_placed(self, post: AppState, panel: PanelId, t: TableContent, rows: nat) -> bool {
        &&& self.hits.areas.at(panel) == Some(t.area)
        &&& t.border == self.border_style(self.board.focus == panel)
        &&& t.cursor == self.cursors.panels.at(panel).clamped(rows as usize)
        &&& self.on_screen(post, panel, t.area, t.widths@, t.cursor)
    }

    /// Puts a table of a panel on the screen.
    fn place_table(&mut self, panel: PanelId, area: Area, rows: usize, widths: &Vec<Constraint>) -> (r:
        TableCursor)
        requires
            old(self).wf(),
            area.fits(),
        ensures
            r == old(self).cursors.panels.at(panel).clamped(rows),
            old(self).on_screen(*final(self), panel, area, widths@, r),
            final(self).wf(),
    {
        let mut cursor = *self.cursors.panels.get(panel);
        clamp_selection(&mut cursor, rows);
        self.cursors.panels.set(panel, cursor);
        let spans = header_spans(area, widths.as_slice());
        add_panel_hits(&mut self.hits.headers, panel, &spans);
        assert(are_headers(spans@, area, widths@));
        cursor
    }

    /// Whether this is the table of jobs.
    pub open spec fn is_job_table(self, t: TableContent) -> bool {
        let visible = shown_flags(self.board.panels.jobs.columns@, 12);
        &&& exists|jobs: Seq<JobView>| #[trigger]
            self.jobs_shown(jobs) && views(t.rows@) == job_table_rows(jobs, visible, self.skin.theme)
        &&& strings(t.headers@) == shown_of(
            marked_headers(
                job_headers(),
                job_column_place(self.sorting.columns.jobs),
                self.sorting.directions.jobs,
            ),
            visible,
        )
        &&& t.widths@ == shown_of(job_widths(), visible)
        &&& t.title@ == self.title_of(
            PanelId::Jobs,
            rows_suffix(self.passing_jobs().len(), filter_text(self.board.panels.jobs.filter@)),
        )
    }

    /// Whether this is the table of jobs where it has an area, and `post` the state with it on the
    /// screen.
    pub open spec fn jobs_drawn(self, post: AppState, r: Option<TableContent>) -> bool {
        match r {
            Some(t) => self.is_job_table(t) && self.table_placed(
                post,
                PanelId::Jobs,
                t,
                self.passing_jobs().len(),
            ),
            None => self.hits.areas.jobs is None && post == self,
        }
    }

    /// The table of jobs, where it has an area.
    pub fn draw_jobs(&mut self) -> (r: Option<TableContent>)
        requires
            old(self).wf(),
        ensures
            old(self).jobs_drawn(*final(self), r),
            final(self).wf(),
    {
        let area = match self.hits.areas.jobs {
            Some(area) => area,
            None => {
                return None;
            },
        };
        assert(self.hits.areas.at(PanelId::Jobs) == Some(area));
        let jobs = self.visible_jobs();
        let ghost shown = views(jobs@);
        let visible = visible_columns(self.board.panels.jobs.columns.as_slice(), 12);
        let theme = self.skin.theme;
        let mut rows: Vec<TableRow> = Vec::new();
        let mut i: usize = 0;
        while i < jobs.len()
            invariant
                i <= jobs@.len(),
                shown == views(jobs@),
                forall|k: int| 0 <= k < shown.len() ==> job_fits(#[trigger] shown[k]),
                rows@.len() == i,
                forall|k: int|
                    0 <= k < i ==> (#[trigger] rows@[k])@ == job_table_rows(shown, visible@, theme)[k],
            decreases jobs@.len() - i,
        {
            let job = &jobs[i];
            assert(job_fits(shown[i as int]));
            let cells = plain(select_visible(cells_of_job(job), visible.as_slice()));
            rows.push(TableRow { cells, style: themed_state_style(&theme, job.state.as_str()) });
            i += 1;
        }
        assert(views(rows@) =~= job_table_rows(shown, visible@, theme));
        let headers = decorate_headers(
            &header_texts_of_jobs(),
            job_column_to_index(self.sorting.columns.jobs),
            self.sorting.directions.jobs,
            visible.as_slice(),
        );
        let widths = select_visible_items(widths_of_jobs().as_slice(), visible.as_slice());
        let mut suffix = "rows=".to_string();
        suffix.append(show(jobs.len() as u64).as_str());
        suffix.append(" filter=");
        suffix.append(filter_label(&self.board.panels.jobs.filter).as_str());
        let title = self.panel_title(PanelId::Jobs, suffix.as_str());
        let border = self.themed_border(self.board.focus == PanelId::Jobs);
        assert(visible@ == shown_flags(self.board.panels.jobs.columns@, 12));
        assert(self.jobs_shown(shown));
        let cursor = self.place_table(PanelId::Jobs, area, jobs.len(), &widths);
        Some(TableContent { area, title, border, headers, widths, rows, cursor })
    }

    /// Whether this is the table of nodes.
    pub open spec fn is_node_table(self, t: TableContent) -> bool {
        let visible = shown_flags(self.board.panels.nodes.columns@, 8);
        &&& exists|nodes: Seq<NodeView>| #[trigger]
            self.nodes_shown(nodes) && views(t.rows@) == node_table_rows(nodes, visible, self.skin.theme)
        &&& strings(t.headers@) == shown_of(
            marked_headers(
                node_headers(),
                node_column_place(self.sorting.columns.nodes),
                self.sorting.directions.nodes,
            ),
            visible,
        )
        &&& t.widths@ == shown_of(node_widths(), visible)
        &&& t.title@ == self.title_of(
            PanelId::Nodes,
            rows_suffix(self.passing_nodes().len(), filter_text(self.board.panels.nodes.filter@)),
        )
    }

    /// Whether this is the table of nodes where it has an area, and `post` the state with it on the
    /// screen.
    pub open spec fn nodes_drawn(self, post: AppState, r: Option<TableContent>) -> bool {
        match r {
            Some(t) => self.is_node_table(t) && self.table_placed(
                post,
                PanelId::Nodes,
                t,
                self.passing_nodes().len(),
            ),
            None => self.hits.areas.nodes is None && post == self,
        }
    }

    /// The table of nodes, where it has an area.
    pub fn draw_nodes(&mut self) -> (r: Option<TableContent>)
        requires
            old(self).wf(),
        ensures
            old(self).nodes_drawn(*final(self), r),
            final(self).wf(),
    {
        let area = match self.hits.areas.nodes {
            Some(area) => area,
            None => {
                return None;
            },
        };
        assert(self.hits.areas.at(PanelId::Nodes) == Some(area));
        let nodes = self.visible_nodes();
        let ghost shown = views(nodes@);
        let visible = visible_columns(self.board.panels.nodes.columns.as_slice(), 8);
        let theme = self.skin.theme;
        let mut rows: Vec<TableRow> = Vec::new();
        let mut i: usize = 0;
        while i < nodes.len()
            invariant
                i <= nodes@.len(),
                shown == views(nodes@),
                forall|k: int| 0 <= k < shown.len() ==> node_fits(#[trigger] shown[k]),
                rows@.len() == i,
                forall|k: int|
                    0 <= k < i ==> (#[trigger] rows@[k])@ == node_table_rows(shown, visible@, theme)[k],
            decreases nodes@.len() - i,
        {
            let node = &nodes[i];
            assert(node_fits(shown[i as int]));
            let cells = plain(select_visible(cells_of_node(node), visible.as_slice()));
            rows.push(TableRow { cells, style: themed_node_style(&theme, node.state.as_str()) });
            i += 1;
        }
        assert(views(rows@) =~= node_table_rows(shown, visible@, theme));
        let headers = decorate_headers(
            &header_texts_of_nodes(),
            node_column_to_index(self.sorting.columns.nodes),
            self.sorting.directions.nodes,
            visible.as_slice(),
        );
        let widths = select_visible_items(widths_of_nodes().as_slice(), visible.as_slice());
        let mut suffix = "rows=".to_string();
        suffix.append(show(nodes.len() as u64).as_str());
        suffix.append(" filter=");
        suffix.append(filter_label(&self.board.panels.nodes.filter).as_str());
        let title = self.panel_title(PanelId::Nodes, suffix.as_str());
        let border = self.themed_border(self.board.focus == PanelId::Nodes);
        assert(visible@ == shown_flags(self.board.panels.nodes.columns@, 8));
        assert(self.nodes_shown(shown));
        let cursor = self.place_table(PanelId::Nodes, area, nodes.len(), &widths);
        Some(TableContent { area, title, border, headers, widths, rows, cursor })
    }

    /// Whether this is the table of GPUs.
    pub open spec fn is_gpu_table(self, t: TableContent) -> bool {
        let visible = shown_flags(self.board.panels.gpus.columns@, 5);
        &&& exists|rows: Seq<GpuRowView>| #[trigger]
            self.gpus_shown(rows) && views(t.rows@) == gpu_table_rows(rows, visible)
        &&& strings(t.headers@) == shown_of(
            marked_headers(
                gpu_headers(),
                gpu_column_place(self.sorting.columns.gpus),
                self.sorting.directions.gpus,
            ),
            visible,
        )
        &&& t.widths@ == equal_shares(shown_total(visible))
        &&& t.title@ == self.title_of(PanelId::Gpus, "rows="@ + decimal(self.all_gpu_rows().len()))
    }

    /// Whether this is the table of GPUs where it has an area, and `post` the state with it on the
    /// screen.
    pub open spec fn gpus_drawn(self, post: AppState, r: Option<TableContent>) -> bool {
        match r {
            Some(t) => self.is_gpu_table(t) && self.table_placed(
                post,
                PanelId::Gpus,
                t,
                self.all_gpu_rows().len(),
            ),
            None => self.hits.areas.gpus is None && post == self,
        }
    }

    /// The table of GPUs, where it has an area.
    pub fn draw_gpus(&mut self) -> (r: Option<TableContent>)
        requires
            old(self).wf(),
        ensures
            old(self).gpus_drawn(*final(self), r),
            final(self).wf(),
    {
        let area = match self.hits.areas.gpus {
            Some(area) => area,
            None => {
                return None;
            },
        };
        assert(self.hits.areas.at(PanelId::Gpus) == Some(area));
        let gpus = self.gpu_rows();
        let ghost shown = views(gpus@);
        let visible = visible_columns(self.board.panels.gpus.columns.as_slice(), 5);
        let mut rows: Vec<TableRow> = Vec::new();
        let mut i: usize = 0;
        while i < gpus.len()
            invariant
                i <= gpus@.len(),
                shown == views(gpus@),
                rows@.len() == i,
                forall|k: int| 0 <= k < i ==> (#[trigger] rows@[k])@ == gpu_table_rows(shown, visible@)[k],
            decreases gpus@.len() - i,
        {
            let cells = plain(select_visible(cells_of_gpu(&gpus[i]), visible.as_slice()));
            rows.push(TableRow { cells, style: Style::plain() });
            i += 1;
        }
        assert(views(rows@) =~= gpu_table_rows(shown, visible@));
        let headers = decorate_headers(
            &header_texts_of_gpus(),
            gpu_column_to_index(self.sorting.columns.gpus),
            self.sorting.directions.gpus,
            visible.as_slice(),
        );
        let count: usize = count_shown(&visible);
        let widths = equal_widths(count);
        let mut suffix = "rows=".to_string();
        suffix.append(show(gpus.len() as u64).as_str());
        let title = self.panel_title(PanelId::Gpus, suffix.as_str());
        let border = self.themed_border(self.board.focus == PanelId::Gpus);
        assert(visible@ == shown_flags(self.board.panels.gpus.columns@, 5));
        assert(self.gpus_shown(shown));
        let cursor = self.place_table(PanelId::Gpus, area, gpus.len(), &widths);
        Some(TableContent { area, title, border, headers, widths, rows, cursor })
    }

    /// Whether this is the table of disks.
    pub open spec fn is_disk_table(self, t: TableContent) -> bool {
        let visible = shown_flags(self.board.panels.disks.columns@, 4);
        &&& exists|disks: Seq<DiskView>| #[trigger]
            self.disks_shown(disks) && views(t.rows@) == disk_table_rows(disks, visible)
        &&& strings(t.headers@) == shown_of(
            marked_headers(
                disk_headers(),
                disk_column_place(self.sorting.columns.disks),
                self.sorting.directions.disks,
            ),
            visible,
        )
        &&& t.widths@ == shown_of(disk_widths(), visible)
        &&& t.title@ == self.title_of(PanelId::Disks, "disks="@ + decimal(self.all_disks().len()))
    }

    /// Whether this is the table of disks where it has an area, and `post` the state with it on the
    /// screen.
    pub open spec fn disks_drawn(self, post: AppState, r: Option<TableContent>) -> bool {
        match r {
            Some(t) => self.is_disk_table(t) && self.table_placed(
                post,
                PanelId::Disks,
                t,
                self.all_disks().len(),
            ),
            None => self.hits.areas.disks is None && post == self,
        }
    }

    /// The table of disks, where it has an area.
    pub fn draw_disks(&mut self) -> (r: Option<TableContent>)
        requires
            old(self).wf(),
        ensures
            old(self).disks_drawn(*final(self), r),
            final(self).wf(),
    {
        let area = match self.hits.areas.disks {
            Some(area) => area,
            None => {
                return None;
            },
        };
        assert(self.hits.areas.at(PanelId::Disks) == Some(area));
        let disks = self.disk_rows();
        let ghost shown = views(disks@);
        let visible = visible_columns(self.board.panels.disks.columns.as_slice(), 4);
        let mut rows: Vec<TableRow> = Vec::new();
        let mut i: usize = 0;
        while i < disks.len()
            invariant
                i <= disks@.len(),
                shown == views(disks@),
                rows@.len() == i,
                forall|k: int|
                    0 <= k < i ==> (#[trigger] rows@[k])@ == disk_table_rows(shown, visible@)[k],
            decreases disks@.len() - i,
        {
            let cells = select_visible_cells(cells_of_disk(&disks[i]), visible.as_slice());
            rows.push(TableRow { cells, style: Style::plain() });
            i += 1;
        }
        assert(views(rows@) =~= disk_table_rows(shown, visible@));
        let headers = decorate_headers(
            &header_texts_of_disks(),
            disk_column_to_index(self.sorting.columns.disks),
            self.sorting.directions.disks,
            visible.as_slice(),
        );
        let widths = select_visible_items(widths_of_disks().as_slice(), visible.as_slice());
        let mut suffix = "disks=".to_string();
        suffix.append(show(disks.len() as u64).as_str());
        let title = self.panel_title(PanelId::Disks, suffix.as_str());
        let border = self.themed_border(self.board.focus == PanelId::Disks);
        assert(visible@ == shown_flags(self.board.panels.disks.columns@, 4));
        assert(self.disks_shown(shown));
        let cursor = self.place_table(PanelId::Disks, area, disks.len(), &widths);
        Some(TableContent { area, title, border, headers, widths, rows, cursor })
    }

    /// Whether this is the table of the summary.
    pub open spec fn is_summary_table(self, t: TableContent) -> bool {
        &&& exists|rows: Seq<SummaryRowView>| #[trigger]
            self.summary_shown(rows) && views(t.rows@) == summary_table_rows(rows, self.skin.theme)
        &&& strings(t.headers@) == summary_headers()
        &&& t.widths@ == summary_widths()
        &&& t.title@ == self.title_of(PanelId::Summary, "job stats"@)
        &&& self.hits.areas.summary == Some(t.area)
        &&& t.border == self.border_style(self.board.focus == PanelId::Summary)
    }

    /// Whether this is the table of the summary where it has an area, and `post` the state with it on
    /// the screen.
    pub open spec fn summary_drawn(self, post: AppState, r: Option<TableContent>) -> bool {
        match r {
            Some(t) => {
                let count = self.row_count(PanelId::Summary);
                &&& self.is_summary_table(t)
                &&& t.cursor == self.cursors.panels.summary.clamped(
                    if count == 0 {
                        1
                    } else {
                        count as usize
                    },
                )
                &&& post == self.with_cursor(PanelId::Summary, t.cursor)
            },
            None => self.hits.areas.summary is None && post == self,
        }
    }

    /// The table of the summary, where it has an area. Its headers cannot be clicked.
    pub fn draw_summary(&mut self) -> (r: Option<TableContent>)
        requires
            old(self).wf(),
        ensures
            old(self).summary_drawn(*final(self), r),
            final(self).wf(),
    {
        let area = match self.hits.areas.summary {
            Some(area) => area,
            None => {
                return None;
            },
        };
        let list = self.summary_rows();
        let ghost shown = views(list@);
        let theme = self.skin.theme;
        let mut rows: Vec<TableRow> = Vec::new();
        let mut i: usize = 0;
        while i < list.len()
            invariant
                i <= list@.len(),
                shown == views(list@),
                rows@.len() == i,
                forall|k: int|
                    0 <= k < i ==> (#[trigger] rows@[k])@ == summary_table_rows(shown, theme)[k],
            decreases list@.len() - i,
        {
            let cells = plain(cells_of_summary(&list[i]));
            rows.push(TableRow { cells, style: summary_row_style(&theme, list[i].kind) });
            i += 1;
        }
        assert(views(rows@) =~= summary_table_rows(shown, theme));
        let count: usize = if list.len() == 0 {
            1
        } else {
            list.len()
        };
        let title = self.panel_title(PanelId::Summary, "job stats");
        let border = self.themed_border(self.board.focus == PanelId::Summary);
        assert(self.summary_shown(shown));
        let mut cursor = self.cursors.panels.summary;
        clamp_selection(&mut cursor, count);
        self.cursors.panels.summary = cursor;
        Some(
            TableContent {
                area,
                title,
                border,
                headers: header_texts_of_summary(),
                widths: widths_of_summary(),
                rows,
                cursor,
            },
        )
    }

    /// What the status line says behind the badge.
    pub open spec fn status_text(self) -> Seq<char> {
        let mode = match self.typing.mode {
            InputMode::Normal => "NORMAL"@,
            InputMode::Search => "SEARCH"@,
            InputMode::Filter => "FILTER"@,
        };
        " "@ + mode + " focus="@ + self.board.focus.heading() + " theme="@ + self.skin.name.shown()
            + " | Tab / s d f c x v [] t ? q | "@ + self.notes.status@ + match opt_view(
            self.notes.last_error,
        ) {
            Some(error) => " | warning: "@ + error,
            None => seq![],
        }
    }

    /// The status line: the badge, and what it says.
    pub fn draw_status(&self) -> (r: Vec<StyledText>)
        ensures
            views(r@) == seq![
                (" slmtop "@, self.skin.theme.status_badge),
                (self.status_text(), plain_style()),
            ],
    {
        let mut text = " ".to_string();
        text.append(
            match self.typing.mode {
                InputMode::Normal => "NORMAL",
                InputMode::Search => "SEARCH",
                InputMode::Filter => "FILTER",
            },
        );
        text.append(" focus=");
        text.append(self.board.focus.title());
        text.append(" theme=");
        text.append(self.skin.name.label());
        text.append(" | Tab / s d f c x v [] t ? q | ");
        text.append(self.notes.status.as_str());
        if let Some(error) = &self.notes.last_error {
            let mut warning = " | warning: ".to_string();
            warning.append(error.as_str());
            text.append(warning.as_str());
        }
        assert(text@ =~= self.status_text());
        let r = vec![
            StyledText { text: " slmtop ".to_string(), style: self.skin.theme.status_badge },
            StyledText { text, style: Style::plain() },
        ];
        assert(views(r@) =~= seq![
            (" slmtop "@, self.skin.theme.status_badge),
            (self.status_text(), plain_style()),
        ]);
        r
    }
}

} // verus!
