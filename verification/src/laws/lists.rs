//! What the tables of GPUs, disks, users and their jobs list, and in what order.

use vstd::prelude::*;

use crate::columns::DiskColumn;
use crate::columns::DiskUsageColumn;
use crate::columns::GpuColumn;
use crate::columns::UserJobColumn;
use crate::laws::sorting::ids_stand;
use crate::laws::sorting::jobs_stand;
use crate::laws::sorting::law_jobs_stand_in_order;
use crate::laws::sorting::law_sort_is_stable;
use crate::laws::sorting::left_over;
use crate::laws::sorting::lemma_number_keys;
use crate::laws::sorting::lemma_places;
use crate::laws::sorting::lemma_text_keys;
use crate::laws::sorting::lemma_three_numbers;
use crate::laws::sorting::numbers_stand;
use crate::laws::sorting::texts_stand;
use crate::laws::states::initial;
use crate::laws::states::law_initial_tells_phase;
use crate::listing::are_summary_rows;
use crate::listing::disk_key;
use crate::listing::disks_sorted;
use crate::listing::gpu_row_key;
use crate::listing::gpu_rows_of;
use crate::listing::gpu_rows_sorted;
use crate::listing::is_ranking;
use crate::listing::jobs_of_user;
use crate::listing::limit_key;
use crate::listing::not_theirs;
use crate::listing::other_owners;
use crate::listing::owner_jobs;
use crate::listing::size_said;
use crate::listing::summary_rows_are;
use crate::listing::usage_key;
use crate::listing::usage_sorted;
use crate::listing::user_jobs_sorted;
use crate::listing::GpuRowView;
use crate::listing::SummaryRowKind;
use crate::listing::SummaryRowView;
use crate::map::count_of;
use crate::map::lookup;
use crate::model::job_number;
use crate::model::slurm_seconds;
use crate::model::DiskLabel;
use crate::model::DiskView;
use crate::model::JobView;
use crate::model::NodeView;
use crate::model::UsageView;
use crate::order::key_before;
use crate::order::text_before;
use crate::order::PartView;
use crate::popup::gpu_shares;
use crate::sorting::keys_of;
use crate::sorting::JobColumn;
use crate::summary::GpuSummary;
use crate::summary::OwnerSummary;
use crate::summary::Phase;
use crate::text::lowercase;
use crate::text::same_ignoring_case;
use crate::units::SortDirection;

verus! {

/// The table of GPUs begins with the counts of all of them, and then has a row for each type with the
/// counts of that type.
pub proof fn law_gpu_table(g: GpuSummary, i: int)
    requires
        0 <= i < g.by_type@.len(),
    ensures
        gpu_rows_of(g).len() == g.by_type@.len() + 1,
        gpu_rows_of(g)[0].gpu_type == "ALL"@,
        gpu_rows_of(g)[0].total == g.total,
        gpu_rows_of(g)[0].active == g.active,
        gpu_rows_of(g)[0].reserved == g.reserved,
        gpu_rows_of(g)[0].free == g.free_estimate,
        gpu_rows_of(g)[i + 1].gpu_type == g.by_type@[i].0,
        gpu_rows_of(g)[i + 1].total == g.by_type@[i].1.total,
        gpu_rows_of(g)[i + 1].active == g.by_type@[i].1.active,
        gpu_rows_of(g)[i + 1].reserved == g.by_type@[i].1.reserved,
        gpu_rows_of(g)[i + 1].free == g.by_type@[i].1.free_estimate,
{
}

/// Whether a row of GPUs may stand in front of another.
pub open spec fn gpu_rows_stand(a: GpuRowView, b: GpuRowView, column: GpuColumn, direction: SortDirection) -> bool {
    match column {
        GpuColumn::Type => texts_stand(a.gpu_type, b.gpu_type, direction),
        GpuColumn::Total => numbers_stand(a.total as int, b.total as int, direction),
        GpuColumn::Active => numbers_stand(a.active as int, b.active as int, direction),
        GpuColumn::Reserved => numbers_stand(a.reserved as int, b.reserved as int, direction),
        GpuColumn::Free => numbers_stand(a.free as int, b.free as int, direction),
    }
}

/// In a sorted table of GPUs, what the column shows of a row never comes before what it shows of a row
/// in front of it.
pub proof fn law_gpu_rows_stand_in_order(
    old_rows: Seq<GpuRowView>,
    new_rows: Seq<GpuRowView>,
    column: GpuColumn,
    direction: SortDirection,
)
    requires
        gpu_rows_sorted(old_rows, new_rows, column, direction),
    ensures
        new_rows.len() == old_rows.len(),
        forall|i: int, j: int|
            0 <= i < j < new_rows.len() ==> gpu_rows_stand(
                #[trigger] new_rows[i],
                #[trigger] new_rows[j],
                column,
                direction,
            ),
{
    let keys = keys_of(old_rows, |x: GpuRowView| gpu_row_key(x, column));
    let descending = direction == SortDirection::Desc;
    law_sort_is_stable(old_rows, new_rows, keys, descending);
    assert forall|i: int, j: int| 0 <= i < j < new_rows.len() implies gpu_rows_stand(
        #[trigger] new_rows[i],
        #[trigger] new_rows[j],
        column,
        direction,
    ) by {
        let (m, n) = lemma_places(old_rows, new_rows, keys, descending, i, j);
        let (a, b) = (new_rows[i], new_rows[j]);
        assert(keys[m] == gpu_row_key(a, column) && keys[n] == gpu_row_key(b, column));
        match column {
            GpuColumn::Type => lemma_text_keys(a.gpu_type, b.gpu_type),
            GpuColumn::Total => lemma_number_keys(a.total as nat, b.total as nat),
            GpuColumn::Active => lemma_number_keys(a.active as nat, b.active as nat),
            GpuColumn::Reserved => lemma_number_keys(a.reserved as nat, b.reserved as nat),
            GpuColumn::Free => lemma_number_keys(a.free as nat, b.free as nat),
        }
    }
}

/// The order of keys of a number and a text.
proof fn lemma_number_and_text(m: nat, s: Seq<char>, n: nat, t: Seq<char>)
    ensures
        key_before(
            seq![PartView::Number(m), PartView::Text(s)],
            seq![PartView::Number(n), PartView::Text(t)],
        ) ==> m <= n,
        seq![PartView::Number(m), PartView::Text(s)] == seq![PartView::Number(n), PartView::Text(t)] ==> m == n,
{
    let x = seq![PartView::Number(m), PartView::Text(s)];
    let y = seq![PartView::Number(n), PartView::Text(t)];
    assert(x[0] == PartView::Number(m) && y[0] == PartView::Number(n));
}

/// The order of keys of two texts.
proof fn lemma_two_texts(a: Seq<char>, s: Seq<char>, b: Seq<char>, t: Seq<char>)
    ensures
        key_before(
            seq![PartView::Text(a), PartView::Text(s)],
            seq![PartView::Text(b), PartView::Text(t)],
        ) ==> a == b || text_before(a, b),
        seq![PartView::Text(a), PartView::Text(s)] == seq![PartView::Text(b), PartView::Text(t)] ==> a == b,
{
    let x = seq![PartView::Text(a), PartView::Text(s)];
    let y = seq![PartView::Text(b), PartView::Text(t)];
    assert(x[0] == PartView::Text(a) && y[0] == PartView::Text(b));
}

/// The label of a disk as it is shown and sorted by.
pub open spec fn label_text(label: DiskLabel) -> Seq<char> {
    match label {
        DiskLabel::Ssd => "SSD"@,
        DiskLabel::Hdd => "HDD"@,
        DiskLabel::Nfs => "NFS"@,
        DiskLabel::ParallelFs => "PFS"@,
        DiskLabel::Unknown => "---"@,
    }
}

/// Whether a disk may stand in front of another.
pub open spec fn disks_stand(a: DiskView, b: DiskView, column: DiskColumn, direction: SortDirection) -> bool {
    match column {
        DiskColumn::Usage => numbers_stand(a.use_percent as int, b.use_percent as int, direction),
        DiskColumn::Path => texts_stand(lowercase(a.mount), lowercase(b.mount), direction),
        DiskColumn::Type => texts_stand(label_text(a.label), label_text(b.label), direction),
        DiskColumn::Space => numbers_stand(size_said(a.size) as int, size_said(b.size) as int, direction),
    }
}

/// In a sorted table of disks, what the column shows of a row never comes before what it shows of a row
/// in front of it.
pub proof fn law_disks_stand_in_order(
    old_rows: Seq<DiskView>,
    new_rows: Seq<DiskView>,
    column: DiskColumn,
    direction: SortDirection,
)
    requires
        disks_sorted(old_rows, new_rows, column, direction),
    ensures
        new_rows.len() == old_rows.len(),
        forall|i: int, j: int|
            0 <= i < j < new_rows.len() ==> disks_stand(
                #[trigger] new_rows[i],
                #[trigger] new_rows[j],
                column,
                direction,
            ),
{
    let keys = keys_of(old_rows, |x: DiskView| disk_key(x, column));
    let descending = direction == SortDirection::Desc;
    law_sort_is_stable(old_rows, new_rows, keys, descending);
    assert forall|i: int, j: int| 0 <= i < j < new_rows.len() implies disks_stand(
        #[trigger] new_rows[i],
        #[trigger] new_rows[j],
        column,
        direction,
    ) by {
        let (m, n) = lemma_places(old_rows, new_rows, keys, descending, i, j);
        let (a, b) = (new_rows[i], new_rows[j]);
        assert(keys[m] == disk_key(a, column) && keys[n] == disk_key(b, column));
        match column {
            DiskColumn::Usage => {
                lemma_number_and_text(a.use_percent as nat, a.mount, b.use_percent as nat, b.mount);
                lemma_number_and_text(b.use_percent as nat, b.mount, a.use_percent as nat, a.mount);
            },
            DiskColumn::Path => {
                lemma_two_texts(lowercase(a.mount), a.mount, lowercase(b.mount), b.mount);
                lemma_two_texts(lowercase(b.mount), b.mount, lowercase(a.mount), a.mount);
            },
            DiskColumn::Type => {
                lemma_two_texts(a.label.shown(), a.mount, b.label.shown(), b.mount);
                lemma_two_texts(b.label.shown(), b.mount, a.label.shown(), a.mount);
            },
            DiskColumn::Space => {
                lemma_number_and_text(size_said(a.size), a.mount, size_said(b.size), b.mount);
                lemma_number_and_text(size_said(b.size), b.mount, size_said(a.size), a.mount);
            },
        }
    }
}

/// Whether a row of disk usage may stand in front of another.
pub open spec fn usage_stands(a: UsageView, b: UsageView, column: DiskUsageColumn, direction: SortDirection) -> bool {
    match column {
        DiskUsageColumn::User => texts_stand(lowercase(a.user), lowercase(b.user), direction),
        DiskUsageColumn::Used => numbers_stand(a.bytes as int, b.bytes as int, direction),
        DiskUsageColumn::Entries => numbers_stand(a.entries as int, b.entries as int, direction),
    }
}

/// In a sorted table of disk usage, what the column shows of a row never comes before what it shows of
/// a row in front of it.
pub proof fn law_usage_stands_in_order(
    old_rows: Seq<UsageView>,
    new_rows: Seq<UsageView>,
    column: DiskUsageColumn,
    direction: SortDirection,
)
    requires
        usage_sorted(old_rows, new_rows, column, direction),
    ensures
        new_rows.len() == old_rows.len(),
        forall|i: int, j: int|
            0 <= i < j < new_rows.len() ==> usage_stands(
                #[trigger] new_rows[i],
                #[trigger] new_rows[j],
                column,
                direction,
            ),
{
    let keys = keys_of(old_rows, |x: UsageView| usage_key(x, column));
    let descending = direction == SortDirection::Desc;
    law_sort_is_stable(old_rows, new_rows, keys, descending);
    assert forall|i: int, j: int| 0 <= i < j < new_rows.len() implies usage_stands(
        #[trigger] new_rows[i],
        #[trigger] new_rows[j],
        column,
        direction,
    ) by {
        let (m, n) = lemma_places(old_rows, new_rows, keys, descending, i, j);
        let (a, b) = (new_rows[i], new_rows[j]);
        assert(keys[m] == usage_key(a, column) && keys[n] == usage_key(b, column));
        match column {
            DiskUsageColumn::User => {
                lemma_two_texts(lowercase(a.user), a.user, lowercase(b.user), b.user);
                lemma_two_texts(lowercase(b.user), b.user, lowercase(a.user), a.user);
            },
            DiskUsageColumn::Used => {
                lemma_number_and_text(a.bytes as nat, a.user, b.bytes as nat, b.user);
                lemma_number_and_text(b.bytes as nat, b.user, a.bytes as nat, a.user);
            },
            DiskUsageColumn::Entries => {
                lemma_number_and_text(a.entries as nat, a.user, b.entries as nat, b.user);
                lemma_number_and_text(b.entries as nat, b.user, a.entries as nat, a.user);
            },
        }
    }
}

/// Whether a job of a user may stand in front of another.
pub open spec fn user_jobs_stand(a: JobView, b: JobView, column: UserJobColumn, direction: SortDirection) -> bool {
    match column {
        UserJobColumn::JobId => jobs_stand(a, b, JobColumn::JobId, direction),
        UserJobColumn::Name => jobs_stand(a, b, JobColumn::Name, direction),
        UserJobColumn::Node => jobs_stand(a, b, JobColumn::Nodes, direction),
        UserJobColumn::Cpus => jobs_stand(a, b, JobColumn::Cpus, direction),
        UserJobColumn::Gpus => jobs_stand(a, b, JobColumn::Gpus, direction),
        UserJobColumn::Memory => jobs_stand(a, b, JobColumn::Memory, direction),
        UserJobColumn::Time => jobs_stand(a, b, JobColumn::Time, direction),
        UserJobColumn::Limit => {
            let (x, y) = (slurm_seconds(a.time_limit), slurm_seconds(b.time_limit));
            numbers_stand(x as int, y as int, direction) && (x == y ==> ids_stand(a.id, b.id, direction))
        },
    }
}

/// In a sorted table of a user's jobs, what the column shows of a row never comes before what it shows
/// of a row in front of it.
pub proof fn law_user_jobs_stand_in_order(
    old_jobs: Seq<JobView>,
    new_jobs: Seq<JobView>,
    column: UserJobColumn,
    direction: SortDirection,
)
    requires
        user_jobs_sorted(old_jobs, new_jobs, column, direction),
    ensures
        new_jobs.len() == old_jobs.len(),
        forall|i: int, j: int|
            0 <= i < j < new_jobs.len() ==> user_jobs_stand(
                #[trigger] new_jobs[i],
                #[trigger] new_jobs[j],
                column,
                direction,
            ),
{
    match column {
        UserJobColumn::JobId => law_jobs_stand_in_order(old_jobs, new_jobs, JobColumn::JobId, direction),
        UserJobColumn::Name => law_jobs_stand_in_order(old_jobs, new_jobs, JobColumn::Name, direction),
        UserJobColumn::Node => law_jobs_stand_in_order(old_jobs, new_jobs, JobColumn::Nodes, direction),
        UserJobColumn::Cpus => law_jobs_stand_in_order(old_jobs, new_jobs, JobColumn::Cpus, direction),
        UserJobColumn::Gpus => law_jobs_stand_in_order(old_jobs, new_jobs, JobColumn::Gpus, direction),
        UserJobColumn::Memory => law_jobs_stand_in_order(old_jobs, new_jobs, JobColumn::Memory, direction),
        UserJobColumn::Time => law_jobs_stand_in_order(old_jobs, new_jobs, JobColumn::Time, direction),
        UserJobColumn::Limit => {
            let keys = keys_of(old_jobs, |j: JobView| limit_key(j));
            let descending = direction == SortDirection::Desc;
            law_sort_is_stable(old_jobs, new_jobs, keys, descending);
            assert forall|i: int, j: int| 0 <= i < j < new_jobs.len() implies user_jobs_stand(
                #[trigger] new_jobs[i],
                #[trigger] new_jobs[j],
                column,
                direction,
            ) by {
                let (m, n) = lemma_places(old_jobs, new_jobs, keys, descending, i, j);
                let (a, b) = (new_jobs[i], new_jobs[j]);
                let (k, l) = (limit_key(a), limit_key(b));
                let (x, y) = (job_number(a.id), job_number(b.id));
                let (p, q) = ((x.0 as nat, x.1 as nat), (y.0 as nat, y.1 as nat));
                let (r, s) = (slurm_seconds(a.time_limit), slurm_seconds(b.time_limit));
                assert(keys[m] == k && keys[n] == l);
                lemma_three_numbers(r, p, s, q);
                lemma_three_numbers(s, q, r, p);
                assert(k[0] == PartView::Number(r) && k[1] == PartView::Number(p.0) && k[2]
                    == PartView::Number(p.1));
                assert(l[0] == PartView::Number(s) && l[1] == PartView::Number(q.0) && l[2]
                    == PartView::Number(q.1));
            }
        },
    }
}

/// The jobs of a user are those under that name, the case of letters aside: the running ones those
/// whose state begins with `r`, and the pending ones those whose state begins with `p`.
pub proof fn law_jobs_of_user(jobs: Seq<JobView>, job: JobView, user: Seq<char>)
    ensures
        jobs_of_user(seq![], user, Phase::Running).len() == 0,
        jobs_of_user(seq![], user, Phase::Pending).len() == 0,
        jobs_of_user(jobs.push(job), user, Phase::Running) == if same_ignoring_case(job.user, user) && initial(
            job.state,
            'r',
            'R',
        ) {
            jobs_of_user(jobs, user, Phase::Running).push(job)
        } else {
            jobs_of_user(jobs, user, Phase::Running)
        },
        jobs_of_user(jobs.push(job), user, Phase::Pending) == if same_ignoring_case(job.user, user) && initial(
            job.state,
            'p',
            'P',
        ) {
            jobs_of_user(jobs, user, Phase::Pending).push(job)
        } else {
            jobs_of_user(jobs, user, Phase::Pending)
        },
{
    reveal(Seq::filter);
    law_initial_tells_phase(job.state);
    assert(jobs.push(job).drop_last() =~= jobs);
}

/// The summary lists all users first and the current one second, and then the others, those with more
/// running and pending jobs first; of more than ten others it lists ten, and the rest in one row.
#[verifier::rlimit(40)]
pub proof fn law_summary_list(
    rows: Seq<SummaryRowView>,
    all: OwnerSummary,
    me: OwnerSummary,
    users: Seq<(Seq<char>, OwnerSummary)>,
    user: Seq<char>,
)
    requires
        summary_rows_are(rows, all, me, users, user),
    ensures
        rows.len() == if other_owners(users, user).len() <= 10 {
            2 + other_owners(users, user).len()
        } else {
            13
        },
        rows[0].label == "All"@ && rows[0].summary == all && rows[0].kind == SummaryRowKind::All,
        rows[1].label == "Me"@ && rows[1].summary == me && rows[1].kind == SummaryRowKind::Me,
        forall|i: int|
            2 <= i < rows.len() && i < 12 ==> (#[trigger] rows[i]).kind == SummaryRowKind::User && users.contains(
                (rows[i].label, rows[i].summary),
            ) && rows[i].label != user,
        forall|i: int, j: int|
            2 <= i < j < rows.len() && j < 12 ==> (#[trigger] rows[i]).summary.running.jobs
                + rows[i].summary.pending.jobs >= (#[trigger] rows[j]).summary.running.jobs
                + rows[j].summary.pending.jobs,
        rows.len() == 13 ==> rows[12].label == "Others"@ && rows[12].kind == SummaryRowKind::Others,
{
    let owners = other_owners(users, user);
    let ranked = choose|ranked: Seq<(Seq<char>, OwnerSummary)>| #[trigger]
        is_ranking(owners, ranked) && are_summary_rows(rows, all, me, ranked);
    let keys = keys_of(owners, |e: (Seq<char>, OwnerSummary)| seq![PartView::Number(owner_jobs(e.1))]);
    law_sort_is_stable(owners, ranked, keys, true);
    assert forall|k: int| 0 <= k < ranked.len() implies owners.contains(#[trigger] ranked[k]) by {
        let order = choose|order: Seq<int>|
            {
                &&& #[trigger] order.len() == owners.len()
                &&& forall|i: int|
                    0 <= i < order.len() ==> 0 <= #[trigger] order[i] < owners.len() && ranked[i]
                        == owners[order[i]]
                &&& forall|i: int, j: int|
                    0 <= i < j < order.len() ==> #[trigger] order[i] != #[trigger] order[j] && (
                    keys[order[i]] == keys[order[j]] ==> order[i] < order[j])
            };
        assert(ranked[k] == owners[order[k]]);
    }
    let keep = not_theirs(user);
    assert forall|k: int| 0 <= k < ranked.len() implies users.contains(#[trigger] ranked[k]) && ranked[k].0 != user by {
        users.lemma_filter_contains_rev(keep, ranked[k]);
        let m = choose|m: int| 0 <= m < owners.len() && owners[m] == ranked[k];
        users.lemma_filter_pred(keep, m);
    }
    assert forall|k: int, l: int| 0 <= k < l < ranked.len() implies owner_jobs((#[trigger] ranked[k]).1)
        >= owner_jobs((#[trigger] ranked[l]).1) by {
        let (m, n) = lemma_places(owners, ranked, keys, true, k, l);
        lemma_number_keys(owner_jobs(ranked[k].1), owner_jobs(ranked[l].1));
        assert(keys[m] == seq![PartView::Number(owner_jobs(ranked[k].1))]);
        assert(keys[n] == seq![PartView::Number(owner_jobs(ranked[l].1))]);
    }
    let head = seq![
        SummaryRowView { label: "All"@, summary: all, kind: SummaryRowKind::All },
        SummaryRowView { label: "Me"@, summary: me, kind: SummaryRowKind::Me },
    ];
    if ranked.len() <= 10 {
        assert forall|i: int| 2 <= i < rows.len() implies (#[trigger] rows[i]).label == ranked[i - 2].0
            && rows[i].summary == ranked[i - 2].1 && rows[i].kind == SummaryRowKind::User by {}
        assert forall|i: int| 2 <= i < rows.len() implies (rows[i].label, rows[i].summary) == ranked[i - 2] by {}
    } else {
        let front = rows.take(12);
        assert(front[0] == rows[0] && front[1] == rows[1]);
        assert forall|i: int| 2 <= i < 12 implies (#[trigger] rows[i]).label == ranked[i - 2].0
            && rows[i].summary == ranked[i - 2].1 && rows[i].kind == SummaryRowKind::User by {
            assert(front[i] == rows[i]);
            assert(ranked.take(10)[i - 2] == ranked[i - 2]);
        }
        assert forall|i: int| 2 <= i < 12 implies (rows[i].label, rows[i].summary) == ranked[i - 2] by {}
    }
}

/// The details of a type of GPU list the nodes that have it, each with its GPUs of that type and those of
/// them that are not allocated.
pub proof fn law_gpu_details(nodes: Seq<NodeView>, node: NodeView, kind: Seq<char>)
    ensures
        gpu_shares(seq![], kind).len() == 0,
        lookup(node.gpus, kind) is None ==> gpu_shares(nodes.push(node), kind)
            == gpu_shares(nodes, kind),
        lookup(node.gpus, kind) matches Some(total) ==> {
            let (before, after) = (
                gpu_shares(nodes, kind),
                gpu_shares(nodes.push(node), kind),
            );
            &&& after.len() == before.len() + 1
            &&& after.take(before.len() as int) == before
            &&& after.last().node == node.name
            &&& after.last().total == total
            &&& after.last().free == left_over(
                total as int,
                count_of(node.gpus_allocated, kind) as int,
            )
        },
{
    assert(nodes.push(node).drop_last() =~= nodes);
    let (before, after) = (
        gpu_shares(nodes, kind),
        gpu_shares(nodes.push(node), kind),
    );
    if lookup(node.gpus, kind) is Some {
        assert(after.take(before.len() as int) =~= before);
    }
}

} // verus!
