//! What a whole frame shows: the panels, the status line, and what lies over them.

use vstd::prelude::*;

use crate::cells::StyledText;
use crate::dashboard::AppState;
use crate::events::InputMode;
use crate::events::Moment;
use crate::grid::centered_rect;
use crate::grid::is_centered;
use crate::grid::is_split;
use crate::grid::Area;
use crate::grid::Axis;
use crate::grid::Constraint;
use crate::grid::PerPanel;
use crate::model::views;
use crate::model::JobView;
use crate::model::NodeView;
use crate::popup::confirmation_text;
use crate::popup::draw_confirmation;
use crate::popup::draw_gpu_details;
use crate::popup::draw_help;
use crate::popup::draw_input;
use crate::popup::draw_job_details;
use crate::popup::draw_node_details;
use crate::popup::help_text;
use crate::popup::input_text;
use crate::popup::is_gpu_text;
use crate::popup::job_text;
use crate::popup::node_text;
use crate::popup::prompt_text;
use crate::popup::DiskPopup;
use crate::popup::UserPopup;
use crate::screen::TableContent;
use crate::shown::find_job;
use crate::shown::find_node;
use crate::shown::job_with_id;
use crate::shown::node_with_name;
use crate::text::strings;
use crate::theme::plain_style;

verus! {

/// A popup of lines.
#[derive(Debug)]
pub struct TextPopup {
    pub area: Area,
    pub title: String,
    pub lines: Vec<String>,
}

impl TextPopup {
    /// Whether the popup has this title, and these percentages of the screen.
    pub open spec fn fills(self, title: Seq<char>, percent_x: u16, percent_y: u16, root: Area) -> bool {
        self.title@ == title && is_centered(self.area, percent_x, percent_y, root)
    }
}

/// The popup that asks for a confirmation.
#[derive(Debug)]
pub struct ConfirmationPopup {
    pub area: Area,
    pub lines: Vec<StyledText>,
}

/// What lies over the panels.
#[derive(Debug)]
pub struct Overlays {
    pub help: Option<TextPopup>,
    pub job: Option<TextPopup>,
    pub node: Option<TextPopup>,
    pub gpu: Option<TextPopup>,
    pub user: Option<(Area, UserPopup)>,
    pub disk: Option<(Area, DiskPopup)>,
    pub action: Option<ConfirmationPopup>,
    pub input: Option<TextPopup>,
}

/// What the main part of the screen shows.
#[derive(Debug)]
pub enum MainContent {
    /// That no data has come yet.
    Waiting,
    /// The tables of the panels that are shown.
    Panels(PerPanel<Option<TableContent>>),
}

/// What a frame shows.
#[derive(Debug)]
pub struct FrameContent {
    pub main_area: Area,
    pub main: MainContent,
    pub status_area: Area,
    pub status: Vec<StyledText>,
    pub overlays: Overlays,
}

impl AppState {
    /// The jobs of the snapshot.
    pub open spec fn known_jobs(self) -> Seq<JobView> {
        match self.snapshot {
            Some(envelope) => views(envelope.snapshot.jobs@),
            None => seq![],
        }
    }

    /// The nodes of the snapshot.
    pub open spec fn known_nodes(self) -> Seq<NodeView> {
        match self.snapshot {
            Some(envelope) => views(envelope.snapshot.nodes@),
            None => seq![],
        }
    }

    /// Whether these are the tables of the panels, and `post` the state with them on the screen.
    pub open spec fn panels_drawn(self, post: AppState, p: PerPanel<Option<TableContent>>) -> bool {
        exists|a: AppState, b: AppState, c: AppState, d: AppState|
            {
                &&& #[trigger] self.jobs_drawn(a, p.jobs)
                &&& #[trigger] a.nodes_drawn(b, p.nodes)
                &&& #[trigger] b.gpus_drawn(c, p.gpus)
                &&& #[trigger] c.disks_drawn(d, p.disks)
                &&& d.summary_drawn(post, p.summary)
            }
    }

    /// The tables of the panels.
    pub fn draw_panels(&mut self) -> (r: PerPanel<Option<TableContent>>)
        requires
            old(self).wf(),
        ensures
            old(self).panels_drawn(*final(self), r),
            final(self).wf(),
    {
        let jobs = self.draw_jobs();
        let ghost a = *self;
        let nodes = self.draw_nodes();
        let ghost b = *self;
        let gpus = self.draw_gpus();
        let ghost c = *self;
        let disks = self.draw_disks();
        let ghost d = *self;
        let summary = self.draw_summary();
        let r = PerPanel { jobs, nodes, gpus, disks, summary };
        assert(old(self).jobs_drawn(a, r.jobs));
        assert(a.nodes_drawn(b, r.nodes));
        assert(b.gpus_drawn(c, r.gpus));
        assert(c.disks_drawn(d, r.disks));
        assert(d.summary_drawn(*self, r.summary));
        r
    }

    /// Whether this is the help, where it is shown.
    pub open spec fn help_drawn(self, r: Option<TextPopup>, root: Area) -> bool {
        match r {
            Some(p) => self.popups.help && p.fills("Help"@, 74, 70, root) && strings(p.lines@) == help_text(),
            None => !self.popups.help,
        }
    }

    /// The help, where it is shown.
    pub fn help_popup(&self, root: Area) -> (r: Option<TextPopup>)
        requires
            root.fits(),
        ensures
            self.help_drawn(r, root),
    {
        if !self.popups.help {
            return None;
        }
        let area = centered_rect(74, 70, root);
        Some(TextPopup { area, title: "Help".to_string(), lines: draw_help() })
    }

    /// Whether these are the details of a job, where they are shown and the job is known.
    pub open spec fn job_details_drawn(self, r: Option<TextPopup>, root: Area) -> bool {
        let job = match self.popups.job {
            Some(id) => job_with_id(self.known_jobs(), id@),
            None => None,
        };
        match (r, job) {
            (Some(p), Some(job)) => p.fills("Job Details"@, 78, 62, root) && strings(p.lines@) == job_text(job),
            (None, None) => true,
            _ => false,
        }
    }

    /// The details of a job, where they are shown and the job is known.
    pub fn job_popup(&self, root: Area) -> (r: Option<TextPopup>)
        requires
            root.fits(),
        ensures
            self.job_details_drawn(r, root),
    {
        if let (Some(id), Some(envelope)) = (&self.popups.job, &self.snapshot) {
            if let Some(job) = find_job(&envelope.snapshot.jobs, id.as_str()) {
                let area = centered_rect(78, 62, root);
                return Some(
                    TextPopup { area, title: "Job Details".to_string(), lines: draw_job_details(job) },
                );
            }
        }
        None
    }

    /// Whether these are the details of a node, where they are shown and the node is known.
    pub open spec fn node_details_drawn(self, r: Option<TextPopup>, root: Area) -> bool {
        let node = match self.popups.node {
            Some(name) => node_with_name(self.known_nodes(), name@),
            None => None,
        };
        match (r, node) {
            (Some(p), Some(node)) => {
                &&& p.fills("Node Details: "@ + self.popups.node->0@, 72, 55, root)
                &&& strings(p.lines@) == node_text(node)
            },
            (None, None) => true,
            _ => false,
        }
    }

    /// The details of a node, where they are shown and the node is known.
    pub fn node_popup(&self, root: Area) -> (r: Option<TextPopup>)
        requires
            root.fits(),
        ensures
            self.node_details_drawn(r, root),
    {
        if let (Some(name), Some(envelope)) = (&self.popups.node, &self.snapshot) {
            if let Some(node) = find_node(&envelope.snapshot.nodes, name.as_str()) {
                let area = centered_rect(72, 55, root);
                let mut title = "Node Details: ".to_string();
                title.append(name.as_str());
                return Some(TextPopup { area, title, lines: draw_node_details(node) });
            }
        }
        None
    }

    /// Whether these are the details of a type of GPU, where they are shown.
    pub open spec fn gpu_details_drawn(self, r: Option<TextPopup>, root: Area) -> bool {
        match r {
            Some(p) => {
                &&& self.popups.gpu is Some
                &&& self.snapshot is Some
                &&& p.fills("GPU Details: "@ + self.popups.gpu->0@, 72, 55, root)
                &&& is_gpu_text(strings(p.lines@), self.known_nodes(), self.popups.gpu->0@)
            },
            None => self.popups.gpu is None || self.snapshot is None,
        }
    }

    /// The details of a type of GPU, where they are shown.
    pub fn gpu_popup(&self, root: Area) -> (r: Option<TextPopup>)
        requires
            root.fits(),
        ensures
            self.gpu_details_drawn(r, root),
    {
        if let (Some(kind), Some(envelope)) = (&self.popups.gpu, &self.snapshot) {
            let area = centered_rect(72, 55, root);
            let mut title = "GPU Details: ".to_string();
            title.append(kind.as_str());
            let lines = draw_gpu_details(&envelope.snapshot.nodes, kind.as_str());
            return Some(TextPopup { area, title, lines });
        }
        None
    }

    /// Whether these are the details of a user where they are shown, and `post` the state with them
    /// on the screen.
    pub open spec fn user_details_drawn(self, post: AppState, r: Option<(Area, UserPopup)>, root: Area) -> bool {
        match r {
            Some((area, p)) => {
                &&& self.popups.user is Some
                &&& is_centered(area, 85, 75, root)
                &&& self.user_popup_drawn(post, p, self.popups.user->0@, area)
            },
            None => self.popups.user is None && post == self,
        }
    }

    /// The details of a user, where they are shown.
    pub fn user_popup(&mut self, root: Area) -> (r: Option<(Area, UserPopup)>)
        requires
            old(self).wf(),
            root.fits(),
        ensures
            old(self).user_details_drawn(*final(self), r, root),
            final(self).wf(),
    {
        let user = match &self.popups.user {
            Some(user) => user.clone(),
            None => {
                return None;
            },
        };
        let area = centered_rect(85, 75, root);
        let popup = self.draw_user_details(user.as_str(), area);
        Some((area, popup))
    }

    /// Whether these are the details of a disk where they are shown, and `post` the state with them
    /// on the screen.
    pub open spec fn disk_details_drawn(
        self,
        post: AppState,
        r: Option<(Area, DiskPopup)>,
        root: Area,
        now: Moment,
    ) -> bool {
        match r {
            Some((area, p)) => {
                &&& self.popups.disk is Some
                &&& is_centered(area, 74, 68, root)
                &&& self.disk_popup_drawn(post, p, area, now)
            },
            None => self.popups.disk is None && post == self,
        }
    }

    /// The details of a disk, where they are shown.
    pub fn disk_popup(&mut self, root: Area, now: Moment) -> (r: Option<(Area, DiskPopup)>)
        requires
            old(self).wf(),
            root.fits(),
        ensures
            old(self).disk_details_drawn(*final(self), r, root, now),
            final(self).wf(),
    {
        if self.popups.disk.is_none() {
            return None;
        }
        let area = centered_rect(74, 68, root);
        let popup = self.draw_disk_details(area, now);
        Some((area, popup))
    }

    /// Whether this asks to confirm the pending action, where there is one.
    pub open spec fn confirmation_drawn(self, r: Option<ConfirmationPopup>, root: Area) -> bool {
        match r {
            Some(p) => {
                &&& self.popups.action is Some
                &&& is_centered(p.area, 62, 28, root)
                &&& views(p.lines@) == confirmation_text(
                    self.popups.action->0.action,
                    self.popups.action->0.job_id@,
                    self.skin.theme,
                )
            },
            None => self.popups.action is None,
        }
    }

    /// The popup that asks to confirm the pending action, where there is one.
    pub fn confirmation_popup(&self, root: Area) -> (r: Option<ConfirmationPopup>)
        requires
            root.fits(),
        ensures
            self.confirmation_drawn(r, root),
    {
        match &self.popups.action {
            Some(pending) => Some(
                ConfirmationPopup {
                    area: centered_rect(62, 28, root),
                    lines: draw_confirmation(pending, &self.skin.theme),
                },
            ),
            None => None,
        }
    }

    /// Whether this shows what is being typed, where something is.
    pub open spec fn input_drawn(self, r: Option<TextPopup>, root: Area) -> bool {
        match r {
            Some(p) => {
                &&& self.typing.mode != InputMode::Normal
                &&& p.fills(prompt_text(self.typing.mode), 70, 15, root)
                &&& strings(p.lines@) == input_text(self.typing.mode, self.typing.input@)
            },
            None => self.typing.mode == InputMode::Normal,
        }
    }

    /// The popup of what is being typed, where something is.
    pub fn input_popup(&self, root: Area) -> (r: Option<TextPopup>)
        requires
            root.fits(),
        ensures
            self.input_drawn(r, root),
    {
        if self.typing.mode == InputMode::Normal {
            return None;
        }
        let (title, lines) = draw_input(self.typing.mode, self.typing.input.as_str());
        let area = centered_rect(70, 15, root);
        Some(TextPopup { area, title: title.to_string(), lines })
    }

    /// Whether this lies over the panels, and `post` is the state with it on the screen.
    pub open spec fn overlays_drawn(self, post: AppState, o: Overlays, root: Area, now: Moment) -> bool {
        &&& self.help_drawn(o.help, root)
        &&& self.job_details_drawn(o.job, root)
        &&& self.node_details_drawn(o.node, root)
        &&& self.gpu_details_drawn(o.gpu, root)
        &&& self.confirmation_drawn(o.action, root)
        &&& self.input_drawn(o.input, root)
        &&& exists|middle: AppState| #[trigger]
            self.user_details_drawn(middle, o.user, root) && middle.disk_details_drawn(
                post,
                o.disk,
                root,
                now,
            )
    }

    /// What lies over the panels.
    pub fn draw_overlays(&mut self, root: Area, now: Moment) -> (r: Overlays)
        requires
            old(self).wf(),
            root.fits(),
        ensures
            old(self).overlays_drawn(*final(self), r, root, now),
            final(self).wf(),
    {
        let help = self.help_popup(root);
        let job = self.job_popup(root);
        let node = self.node_popup(root);
        let gpu = self.gpu_popup(root);
        let action = self.confirmation_popup(root);
        let input = self.input_popup(root);
        let user = self.user_popup(root);
        let ghost middle = *self;
        let disk = self.disk_popup(root, now);
        assert(old(self).user_details_drawn(middle, user, root) && middle.disk_details_drawn(
            *self,
            disk,
            root,
            now,
        ));
        Overlays { help, job, node, gpu, user, disk, action, input }
    }

    /// Whether this is what the main part of the screen shows, and `post` the state with it on the
    /// screen.
    pub open spec fn main_drawn(self, post: AppState, main: MainContent) -> bool {
        match main {
            MainContent::Waiting => self.snapshot is None && post == self,
            MainContent::Panels(panels) => self.snapshot is Some && self.panels_drawn(post, panels),
        }
    }

    /// Whether this is what a frame shows, and `post` the state with it on the screen.
    pub open spec fn frame_drawn(self, post: AppState, f: FrameContent, root: Area, now: Moment) -> bool {
        &&& is_split(
            root,
            Axis::Vertical,
            seq![Constraint::Min(6), Constraint::Length(2)],
            0,
            seq![f.main_area, f.status_area],
        )
        &&& views(f.status@) == seq![
            (" slmtop "@, self.skin.theme.status_badge),
            (self.status_text(), plain_style()),
        ]
        &&& exists|begun: AppState, middle: AppState|
            {
                &&& #[trigger] self.frame_begun(begun, f.main_area)
                &&& #[trigger] begun.main_drawn(middle, f.main)
                &&& middle.overlays_drawn(post, f.overlays, root, now)
            }
    }

    /// What a frame shows: the panels or that no data has come yet, the status line, and what lies
    /// over them.
    pub fn draw(&mut self, root: Area, now: Moment) -> (r: FrameContent)
        requires
            old(self).wf(),
            root.fits(),
        ensures
            old(self).frame_drawn(*final(self), r, root, now),
            final(self).wf(),
    {
        let status = self.draw_status();
        let (main_area, status_area) = self.begin_frame(root);
        let ghost begun = *self;
        let main = if self.snapshot.is_none() {
            MainContent::Waiting
        } else {
            MainContent::Panels(self.draw_panels())
        };
        let ghost middle = *self;
        let overlays = self.draw_overlays(root, now);
        let r = FrameContent { main_area, main, status_area, status, overlays };
        assert(old(self).frame_begun(begun, r.main_area));
        assert(begun.main_drawn(middle, r.main));
        assert(middle.overlays_drawn(*self, r.overlays, root, now));
        assert(seq![r.main_area, r.status_area] =~= seq![main_area, status_area]);
        r
    }
}

/// Drawing the tables changes nothing but where they are on the screen and which rows are selected.
pub proof fn lemma_panels_keep_data(pre: AppState, post: AppState, p: PerPanel<Option<TableContent>>)
    requires
        pre.panels_drawn(post, p),
    ensures
        post == (AppState { hits: post.hits, cursors: post.cursors, ..pre }),
        post.hits.last_click == pre.hits.last_click,
        post.cursors.section == pre.cursors.section,
{
    let (a, b, c, d) = choose|a: AppState, b: AppState, c: AppState, d: AppState|
        {
            &&& #[trigger] pre.jobs_drawn(a, p.jobs)
            &&& #[trigger] a.nodes_drawn(b, p.nodes)
            &&& #[trigger] b.gpus_drawn(c, p.gpus)
            &&& #[trigger] c.disks_drawn(d, p.disks)
            &&& d.summary_drawn(post, p.summary)
        };
    assert(a == (AppState { hits: a.hits, cursors: a.cursors, ..pre }));
    assert(b == (AppState { hits: b.hits, cursors: b.cursors, ..a }));
    assert(c == (AppState { hits: c.hits, cursors: c.cursors, ..b }));
    assert(d == (AppState { hits: d.hits, cursors: d.cursors, ..c }));
    assert(post == (AppState { hits: post.hits, cursors: post.cursors, ..d }));
}

/// Drawing a frame changes nothing but where the tables are on the screen and which of their rows
/// are selected.
pub proof fn law_drawing_keeps_data(pre: AppState, post: AppState, f: FrameContent, root: Area, now: Moment)
    requires
        pre.frame_drawn(post, f, root, now),
    ensures
        post == (AppState { hits: post.hits, cursors: post.cursors, ..pre }),
        post.hits.last_click == pre.hits.last_click,
        post.cursors.section == pre.cursors.section,
{
    let (begun, middle) = choose|begun: AppState, middle: AppState|
        {
            &&& #[trigger] pre.frame_begun(begun, f.main_area)
            &&& #[trigger] begun.main_drawn(middle, f.main)
            &&& middle.overlays_drawn(post, f.overlays, root, now)
        };
    if let MainContent::Panels(panels) = f.main {
        lemma_panels_keep_data(begun, middle, panels);
    }
    let user = choose|s: AppState| #[trigger]
        middle.user_details_drawn(s, f.overlays.user, root) && s.disk_details_drawn(
            post,
            f.overlays.disk,
            root,
            now,
        );
    assert(user == (AppState { hits: user.hits, cursors: user.cursors, ..middle }));
    assert(post == (AppState { hits: post.hits, cursors: post.cursors, ..user }));
}

} // verus!
