//! What the panels list, and what enter opens.

use vstd::prelude::*;

use crate::columns::UserJobSection;
use crate::dashboard::AppState;
use crate::events::Effect;
use crate::events::KeyCode;
use crate::events::Moment;
use crate::events::Now;
use crate::events::InputMode::Normal;
use crate::filter::job_passes;
use crate::filter::node_passes;
use crate::frame::lemma_panels_keep_data;
use crate::frame::FrameContent;
use crate::frame::MainContent::Panels;
use crate::grid::Area;
use crate::laws::keys::bare;
use crate::laws::keys::press;
use crate::laws::keys::starts;
use crate::laws::lists::disks_stand;
use crate::laws::lists::gpu_rows_stand;
use crate::laws::lists::law_disks_stand_in_order;
use crate::laws::lists::law_gpu_rows_stand_in_order;
use crate::laws::lists::law_usage_stands_in_order;
use crate::laws::lists::law_user_jobs_stand_in_order;
use crate::laws::lists::usage_stands;
use crate::laws::lists::user_jobs_stand;
use crate::laws::sorting::jobs_stand;
use crate::laws::sorting::law_jobs_stand_in_order;
use crate::laws::sorting::law_nodes_stand_in_order;
use crate::laws::sorting::nodes_stand;
use crate::listing::GpuRowView;
use crate::model::views;
use crate::model::DiskView;
use crate::model::JobView;
use crate::model::NodeView;
use crate::model::UsageView;
use crate::order::arrange;
use crate::order::is_stable_order;
use crate::order::sorted_stably;
use crate::order::PartView;
use crate::panel::PanelId;
use crate::shown::row_on;
use crate::sorting::job_key;
use crate::sorting::keys_of;
use crate::sorting::node_key;
use crate::text::trim;
use crate::units::SortDirection;

verus! {

proof fn lemma_from_old<T>(
    old_rows: Seq<T>,
    new_rows: Seq<T>,
    keys: Seq<Seq<PartView>>,
    descending: bool,
    i: int,
)
    requires
        sorted_stably(old_rows, new_rows, keys, descending),
        old_rows.len() == keys.len(),
        0 <= i < new_rows.len(),
    ensures
        old_rows.contains(new_rows[i]),
{
    let order = choose|order: Seq<int>| #[trigger]
        is_stable_order(keys, descending, order) && new_rows == arrange(old_rows, order);
    assert(new_rows[i] == old_rows[order[i]]);
}

/// The table of jobs lists jobs of the snapshot that pass the filter of its panel, for the current user,
/// in the order of its column and direction; the table of nodes lists nodes in the same way.
#[verifier::rlimit(40)]
pub proof fn law_panels_list_what_passes(state: AppState, jobs: Seq<JobView>, nodes: Seq<NodeView>, i: int, j: int)
    requires
        state.snapshot is Some,
        state.jobs_shown(jobs),
        state.nodes_shown(nodes),
        0 <= i < j,
    ensures
        i < jobs.len() ==> views(state.snapshot->0.snapshot.jobs@).contains(jobs[i]) && job_passes(
            jobs[i],
            state.board.panels.jobs.filter@,
            state.setup.current_user@,
        ),
        j < jobs.len() ==> jobs_stand(
            jobs[i],
            jobs[j],
            state.sorting.columns.jobs,
            state.sorting.directions.jobs,
        ),
        i < nodes.len() ==> views(state.snapshot->0.snapshot.nodes@).contains(nodes[i]) && node_passes(
            nodes[i],
            state.board.panels.nodes.filter@,
        ),
        j < nodes.len() ==> nodes_stand(
            nodes[i],
            nodes[j],
            state.sorting.columns.nodes,
            state.sorting.directions.nodes,
        ),
{
    let all_jobs = views(state.snapshot->0.snapshot.jobs@);
    let all_nodes = views(state.snapshot->0.snapshot.nodes@);
    let (user, f, g) = (
        state.setup.current_user@,
        state.board.panels.jobs.filter@,
        state.board.panels.nodes.filter@,
    );
    law_jobs_stand_in_order(
        state.passing_jobs(),
        jobs,
        state.sorting.columns.jobs,
        state.sorting.directions.jobs,
    );
    law_nodes_stand_in_order(
        state.passing_nodes(),
        nodes,
        state.sorting.columns.nodes,
        state.sorting.directions.nodes,
    );
    if i < jobs.len() {
        let column = state.sorting.columns.jobs;
        let keys = keys_of(state.passing_jobs(), |x: JobView| job_key(x, column));
        lemma_from_old(
            state.passing_jobs(),
            jobs,
            keys,
            state.sorting.directions.jobs == SortDirection::Desc,
            i,
        );
        let keep = |x: JobView| job_passes(x, f, user);
        assert(state.passing_jobs() == all_jobs.filter(keep));
        let k = choose|k: int| 0 <= k < state.passing_jobs().len() && state.passing_jobs()[k] == jobs[i];
        all_jobs.lemma_filter_pred(keep, k);
        all_jobs.lemma_filter_contains_rev(keep, jobs[i]);
    }
    if i < nodes.len() {
        let column = state.sorting.columns.nodes;
        let keys = keys_of(state.passing_nodes(), |x: NodeView| node_key(x, column));
        lemma_from_old(
            state.passing_nodes(),
            nodes,
            keys,
            state.sorting.directions.nodes == SortDirection::Desc,
            i,
        );
        let keep = |x: NodeView| node_passes(x, g);
        assert(state.passing_nodes() == all_nodes.filter(keep));
        let k = choose|k: int| 0 <= k < state.passing_nodes().len() && state.passing_nodes()[k] == nodes[i];
        all_nodes.lemma_filter_pred(keep, k);
        all_nodes.lemma_filter_contains_rev(keep, nodes[i]);
    }
}

/// The tables of GPUs, disks, disk usage and a user's jobs are in the order of their own columns and
/// directions.
pub proof fn law_other_tables_in_order(
    state: AppState,
    gpus: Seq<GpuRowView>,
    disks: Seq<DiskView>,
    usage: Seq<UsageView>,
    jobs: Seq<JobView>,
    user: Seq<char>,
    section: UserJobSection,
    i: int,
    j: int,
)
    requires
        state.gpus_shown(gpus),
        state.disks_shown(disks),
        state.usage_shown(usage),
        state.user_jobs_shown(jobs, user, section),
        0 <= i < j,
    ensures
        j < gpus.len() ==> gpu_rows_stand(
            gpus[i],
            gpus[j],
            state.sorting.columns.gpus,
            state.sorting.directions.gpus,
        ),
        j < disks.len() ==> disks_stand(
            disks[i],
            disks[j],
            state.sorting.columns.disks,
            state.sorting.directions.disks,
        ),
        j < usage.len() ==> usage_stands(
            usage[i],
            usage[j],
            state.sorting.columns.usage,
            state.sorting.usage_direction,
        ),
        j < jobs.len() ==> user_jobs_stand(
            jobs[i],
            jobs[j],
            state.sorting.columns.user_jobs,
            state.sorting.user_direction,
        ),
{
    law_gpu_rows_stand_in_order(
        state.all_gpu_rows(),
        gpus,
        state.sorting.columns.gpus,
        state.sorting.directions.gpus,
    );
    law_disks_stand_in_order(
        state.all_disks(),
        disks,
        state.sorting.columns.disks,
        state.sorting.directions.disks,
    );
    law_usage_stands_in_order(
        state.active_usage(),
        usage,
        state.sorting.columns.usage,
        state.sorting.usage_direction,
    );
    law_user_jobs_stand_in_order(
        state.jobs_in_section(user, section),
        jobs,
        state.sorting.columns.user_jobs,
        state.sorting.user_direction,
    );
}

/// A frame draws the help, the details, the confirmation and the input where they are open, and nowhere
/// else.
pub proof fn law_frame_draws_what_is_open(
    pre: AppState,
    post: AppState,
    f: FrameContent,
    root: Area,
    now: Moment,
)
    requires
        pre.frame_drawn(post, f, root, now),
    ensures
        f.overlays.help is Some <==> pre.popups.help,
        f.overlays.action is Some <==> pre.popups.action is Some,
        f.overlays.input is Some <==> pre.typing.mode != Normal,
        f.overlays.job is Some ==> pre.popups.job is Some,
        f.overlays.node is Some ==> pre.popups.node is Some,
        f.overlays.gpu is Some <==> pre.popups.gpu is Some && pre.snapshot is Some,
        f.overlays.user is Some <==> pre.popups.user is Some,
        f.overlays.disk is Some <==> pre.popups.disk is Some,
        f.main is Waiting <==> pre.snapshot is None,
{
    let (begun, middle) = choose|begun: AppState, middle: AppState|
        {
            &&& #[trigger] pre.frame_begun(begun, f.main_area)
            &&& #[trigger] begun.main_drawn(middle, f.main)
            &&& middle.overlays_drawn(post, f.overlays, root, now)
        };
    if let Panels(panels) = f.main {
        lemma_panels_keep_data(begun, middle, panels);
    }
    let user = choose|s: AppState| #[trigger]
        middle.user_details_drawn(s, f.overlays.user, root) && s.disk_details_drawn(
            post,
            f.overlays.disk,
            root,
            now,
        );
    assert(user.popups == middle.popups);
}

/// Enter on the panel of jobs opens the job on the selected row, and enter on the panel of nodes the
/// node; without a selected row it opens nothing.
pub proof fn law_enter_opens_the_selected_row(pre: AppState, post: AppState, now: Now, effect: Effect)
    requires
        bare(pre),
        pre.pressed(post, press(KeyCode::Enter), now, effect),
        pre.board.focus == PanelId::Jobs || pre.board.focus == PanelId::Nodes,
    ensures
        effect is Nothing,
        pre.board.focus == PanelId::Jobs ==> exists|rows: Seq<JobView>|
            {
                &&& #[trigger] pre.jobs_shown(rows)
                &&& match pre.cursors.panels.jobs.selected {
                    Some(i) => if i < rows.len() {
                        post.popups.job is Some && post.popups.job->0@ == rows[i as int].id
                    } else {
                        post.popups.job is None
                    },
                    None => post.popups.job is None,
                }
            },
        pre.board.focus == PanelId::Nodes ==> exists|rows: Seq<NodeView>|
            {
                &&& #[trigger] pre.nodes_shown(rows)
                &&& match pre.cursors.panels.nodes.selected {
                    Some(i) => if i < rows.len() {
                        post.popups.node is Some && post.popups.node->0@ == rows[i as int].name
                    } else {
                        post.popups.node is None
                    },
                    None => post.popups.node is None,
                }
            },
{
    reveal(AppState::command_given);
    if pre.board.focus == PanelId::Jobs {
        match post.popups.job {
            Some(id) => {
                let job = choose|job: JobView| #[trigger] pre.is_selected_job(Some(job)) && id@ == job.id;
                let rows = choose|rows: Seq<JobView>| #[trigger]
                    pre.jobs_shown(rows) && Some(job) == row_on(rows, pre.cursors.panels.jobs);
                assert(pre.jobs_shown(rows));
            },
            None => {
                let rows = choose|rows: Seq<JobView>| #[trigger]
                    pre.jobs_shown(rows) && None::<JobView> == row_on(
                        rows,
                        pre.cursors.panels.jobs,
                    );
                assert(pre.jobs_shown(rows));
            },
        }
    } else {
        match post.popups.node {
            Some(name) => {
                let node = choose|node: NodeView| #[trigger] pre.is_selected_node(Some(node)) && name@ == node.name;
                let rows = choose|rows: Seq<NodeView>| #[trigger]
                    pre.nodes_shown(rows) && Some(node) == row_on(rows, pre.cursors.panels.nodes);
                assert(pre.nodes_shown(rows));
            },
            None => {
                let rows = choose|rows: Seq<NodeView>| #[trigger]
                    pre.nodes_shown(rows) && None::<NodeView> == row_on(
                        rows,
                        pre.cursors.panels.nodes,
                    );
                assert(pre.nodes_shown(rows));
            },
        }
    }
}

/// Opening a disk scans it, with the time limit of the settings, where no result is known and no scan of
/// it runs; and it scans nothing otherwise.
pub proof fn law_opening_a_disk_scans(pre: AppState, post: AppState, mount: Seq<char>, now: Now, effect: Effect)
    requires
        pre.disk_opened(post, mount, now, effect),
    ensures
        ({
            let user = trim(pre.setup.current_user@);
            let key = (mount, user);
            let known = pre.book.cache@.contains_key(key) || pre.book.scans@.contains_key(key);
            &&& post.popups.disk is Some && post.popups.disk->0.mount@ == mount && post.popups.disk->0.user@
                == user
            &&& user.len() > 0 && !known ==> starts(
                effect,
                mount,
                user,
                pre.setup.disk_usage_timeout,
            )
            &&& user.len() == 0 || known ==> effect is Nothing
            &&& user.len() == 0 ==> post.book.errors@.contains_key(key)
            &&& user.len() > 0 && known ==> post.book == pre.book
        }),
{
}

} // verus!
