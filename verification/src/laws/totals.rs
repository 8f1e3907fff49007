//! What the summaries of jobs and GPUs mean: how one more job or node changes them.

use vstd::prelude::*;

use crate::laws::states::initial;
use crate::laws::states::law_initial_tells_phase;
use crate::map::count_of;
use crate::map::count_sum;
use crate::map::lookup;
use crate::model::JobView;
use crate::model::NodeView;
use crate::summary::all_but;
use crate::summary::count_all;
use crate::summary::count_type;
use crate::summary::everyone;
use crate::summary::gpu_summary_is;
use crate::summary::has_jobs;
use crate::summary::has_type;
use crate::summary::job_gpus_awaited;
use crate::summary::node_gpus;
use crate::summary::node_gpus_used;
use crate::summary::only;
use crate::summary::owner_is;
use crate::summary::phase_of;
use crate::summary::share;
use crate::summary::sum_of;
use crate::summary::summary_is;
use crate::summary::tally;
use crate::summary::GpuSummary;
use crate::summary::JobBucket;
use crate::summary::JobSummary;
use crate::summary::Measure;
use crate::summary::OwnerSummary;
use crate::summary::Phase;

verus! {

/// Whether a bucket counts nothing.
pub open spec fn nothing(b: JobBucket) -> bool {
    b.jobs == 0 && b.cpus == 0 && b.memory.0 == 0 && b.gpus == 0
}

/// Whether two buckets count the same.
pub open spec fn unchanged(a: JobBucket, b: JobBucket) -> bool {
    a.jobs == b.jobs && a.cpus == b.cpus && a.memory.0 == b.memory.0 && a.gpus == b.gpus
}

/// Whether a bucket counts one more job: the job itself, its CPUs, its memory and its GPUs.
pub open spec fn raised(a: JobBucket, b: JobBucket, job: JobView) -> bool {
    &&& b.jobs == a.jobs + 1
    &&& b.cpus == a.cpus + job.cpus
    &&& b.memory.0 == a.memory.0 + job.memory.0
    &&& b.gpus == a.gpus + count_sum(job.gpus)
}

/// Whether a summary counts one more job: among those that run, among those that wait, or not at all.
pub open spec fn counted(a: OwnerSummary, b: OwnerSummary, job: JobView) -> bool {
    if initial(job.state, 'r', 'R') {
        raised(a.running, b.running, job) && unchanged(a.pending, b.pending)
    } else if initial(job.state, 'p', 'P') {
        raised(a.pending, b.pending, job) && unchanged(a.running, b.running)
    } else {
        unchanged(a.running, b.running) && unchanged(a.pending, b.pending)
    }
}

/// Whether two summaries count the same.
pub open spec fn same_counts(a: OwnerSummary, b: OwnerSummary) -> bool {
    unchanged(a.running, b.running) && unchanged(a.pending, b.pending)
}

proof fn lemma_sum_push<T>(rows: Seq<T>, row: T, f: spec_fn(T) -> nat)
    ensures
        sum_of(rows.push(row), f) == sum_of(rows, f) + f(row),
{
    assert(rows.push(row).drop_last() =~= rows);
    assert(rows.push(row).last() == row);
}

proof fn lemma_owner_push(
    a: OwnerSummary,
    b: OwnerSummary,
    jobs: Seq<JobView>,
    job: JobView,
    who: spec_fn(Seq<char>) -> bool,
)
    requires
        owner_is(a, jobs, who),
        owner_is(b, jobs.push(job), who),
    ensures
        who(job.user) ==> counted(a, b, job),
        !who(job.user) ==> same_counts(a, b),
{
    law_initial_tells_phase(job.state);
    lemma_sum_push(jobs, job, share(Phase::Running, who, Measure::Jobs));
    lemma_sum_push(jobs, job, share(Phase::Running, who, Measure::Cpus));
    lemma_sum_push(jobs, job, share(Phase::Running, who, Measure::Memory));
    lemma_sum_push(jobs, job, share(Phase::Running, who, Measure::Gpus));
    lemma_sum_push(jobs, job, share(Phase::Pending, who, Measure::Jobs));
    lemma_sum_push(jobs, job, share(Phase::Pending, who, Measure::Cpus));
    lemma_sum_push(jobs, job, share(Phase::Pending, who, Measure::Memory));
    lemma_sum_push(jobs, job, share(Phase::Pending, who, Measure::Gpus));
}

/// A summary of no jobs counts nothing, and names no user.
pub proof fn law_no_jobs_no_counts(s: JobSummary, user: Seq<char>, name: Seq<char>)
    requires
        summary_is(s, seq![], user),
    ensures
        nothing(s.all.running) && nothing(s.all.pending),
        nothing(s.me.running) && nothing(s.me.pending),
        nothing(s.others.running) && nothing(s.others.pending),
        lookup(s.users@, name) is None,
{
    assert(!has_jobs(seq![], name));
}

/// One more job counts once among all jobs, once for its user, and once among those of the current
/// user or those of the others: as running where its state begins with `r`, as pending where it begins
/// with `p`, and not at all otherwise. It counts for no other user.
#[verifier::rlimit(40)]
pub proof fn law_one_more_job(
    before: JobSummary,
    after: JobSummary,
    jobs: Seq<JobView>,
    job: JobView,
    user: Seq<char>,
    name: Seq<char>,
)
    requires
        summary_is(before, jobs, user),
        summary_is(after, jobs.push(job), user),
    ensures
        counted(before.all, after.all, job),
        job.user == user ==> counted(before.me, after.me, job) && same_counts(before.others, after.others),
        job.user != user ==> counted(before.others, after.others, job) && same_counts(before.me, after.me),
        name != job.user ==> (lookup(before.users@, name) is Some <==> lookup(after.users@, name) is Some),
        lookup(before.users@, name) is Some ==> lookup(after.users@, name) is Some,
        initial(job.state, 'r', 'R') || initial(job.state, 'p', 'P') ==> lookup(after.users@, job.user) is Some,
        lookup(before.users@, name) is Some && name == job.user ==> counted(
            lookup(before.users@, name)->0,
            lookup(after.users@, name)->0,
            job,
        ),
        lookup(before.users@, name) is Some && name != job.user ==> same_counts(
            lookup(before.users@, name)->0,
            lookup(after.users@, name)->0,
        ),
{
    let more = jobs.push(job);
    lemma_owner_push(before.all, after.all, jobs, job, everyone());
    lemma_owner_push(before.me, after.me, jobs, job, only(user));
    lemma_owner_push(before.others, after.others, jobs, job, all_but(user));
    law_initial_tells_phase(job.state);
    assert(more[jobs.len() as int] == job);
    assert forall|u: Seq<char>| has_jobs(jobs, u) implies has_jobs(more, u) by {
        let i = choose|i: int|
            0 <= i < jobs.len() && (#[trigger] jobs[i]).user == u && phase_of(jobs[i].state) is Some;
        assert(more[i] == jobs[i]);
    }
    if has_jobs(more, name) && name != job.user {
        let i = choose|i: int|
            0 <= i < more.len() && (#[trigger] more[i]).user == name && phase_of(
                more[i].state,
            ) is Some;
        assert(jobs[i] == more[i]);
        assert(has_jobs(jobs, name));
    }
    if let Some(s) = lookup(before.users@, name) {
        assert(has_jobs(more, name));
        let t = lookup(after.users@, name)->0;
        assert(owner_is(s, jobs, only(name)));
        assert(owner_is(t, more, only(name)));
        lemma_owner_push(s, t, jobs, job, only(name));
    }
}

/// The counts of a map of counts by type add up, entry by entry.
pub proof fn law_counts_add_up(s: Seq<(Seq<char>, u64)>, kind: Seq<char>, n: u64)
    ensures
        count_sum(seq![]) == 0,
        count_sum(s.push((kind, n))) == count_sum(s) + n,
        lookup(s, kind) is None ==> count_of(s, kind) == 0,
        lookup(s, kind) == Some(n) ==> count_of(s, kind) == n,
{
    assert(s.push((kind, n)).drop_last() =~= s);
}

proof fn lemma_all_push<T>(rows: Seq<T>, row: T, counts: spec_fn(T) -> Seq<(Seq<char>, u64)>, kind: Seq<char>)
    ensures
        count_all(rows.push(row), counts) == count_all(rows, counts) + count_sum(counts(row)),
        count_type(rows.push(row), counts, kind) == count_type(rows, counts, kind) + count_of(
            counts(row),
            kind,
        ),
{
    lemma_sum_push(rows, row, |x: T| count_sum(counts(x)));
    lemma_sum_push(rows, row, |x: T| count_of(counts(x), kind));
}

proof fn lemma_untyped<T>(rows: Seq<T>, counts: spec_fn(T) -> Seq<(Seq<char>, u64)>, kind: Seq<char>)
    requires
        !has_type(rows, counts, kind),
    ensures
        count_type(rows, counts, kind) == 0,
    decreases rows.len(),
{
    if rows.len() > 0 {
        let fewer = rows.drop_last();
        assert forall|i: int| 0 <= i < fewer.len() implies lookup(counts(#[trigger] fewer[i]), kind) is None by {
            assert(fewer[i] == rows[i]);
            assert(lookup(counts(rows[i]), kind) is None);
        }
        lemma_untyped(fewer, counts, kind);
        assert(lookup(counts(rows[rows.len() - 1]), kind) is None);
    }
}

/// What a summary says of one type of GPU: all, in use, and reserved.
pub open spec fn of_type(g: GpuSummary, kind: Seq<char>) -> (nat, nat, nat) {
    match lookup(g.by_type@, kind) {
        Some(s) => (s.total as nat, s.active as nat, s.reserved as nat),
        None => (0, 0, 0),
    }
}

proof fn lemma_of_type(g: GpuSummary, nodes: Seq<NodeView>, jobs: Seq<JobView>, kind: Seq<char>)
    requires
        gpu_summary_is(g, nodes, jobs),
    ensures
        of_type(g, kind) == (
            count_type(nodes, node_gpus(), kind),
            count_type(nodes, node_gpus_used(), kind),
            count_type(jobs, job_gpus_awaited(), kind),
        ),
{
    if lookup(g.by_type@, kind) is None {
        lemma_untyped(nodes, node_gpus(), kind);
        lemma_untyped(nodes, node_gpus_used(), kind);
        lemma_untyped(jobs, job_gpus_awaited(), kind);
    }
}

/// Without nodes and jobs there are no GPUs.
pub proof fn law_no_nodes_no_gpus(g: GpuSummary, kind: Seq<char>)
    requires
        gpu_summary_is(g, seq![], seq![]),
    ensures
        g.total == 0 && g.active == 0 && g.reserved == 0 && g.free_estimate == 0,
        of_type(g, kind) == (0nat, 0nat, 0nat),
        lookup(g.by_type@, kind) is None,
{
    assert(!has_type(Seq::<NodeView>::empty(), node_gpus(), kind));
    assert(!has_type(Seq::<NodeView>::empty(), node_gpus_used(), kind));
    assert(!has_type(Seq::<JobView>::empty(), job_gpus_awaited(), kind));
}

/// One more node adds its GPUs to the total and those that are allocated on it to the active ones, in
/// all and by type, and leaves the reserved ones.
pub proof fn law_one_more_node(
    before: GpuSummary,
    after: GpuSummary,
    nodes: Seq<NodeView>,
    node: NodeView,
    jobs: Seq<JobView>,
    kind: Seq<char>,
)
    requires
        gpu_summary_is(before, nodes, jobs),
        gpu_summary_is(after, nodes.push(node), jobs),
    ensures
        after.total == before.total + count_sum(node.gpus),
        after.active == before.active + count_sum(node.gpus_allocated),
        after.reserved == before.reserved,
        of_type(after, kind).0 == of_type(before, kind).0 + count_of(node.gpus, kind),
        of_type(after, kind).1 == of_type(before, kind).1 + count_of(node.gpus_allocated, kind),
        of_type(after, kind).2 == of_type(before, kind).2,
{
    lemma_all_push(nodes, node, node_gpus(), kind);
    lemma_all_push(nodes, node, node_gpus_used(), kind);
    lemma_of_type(before, nodes, jobs, kind);
    lemma_of_type(after, nodes.push(node), jobs, kind);
}

/// One more job adds its GPUs to the reserved ones, in all and by type, where its state begins with
/// `p`, and adds none otherwise; the GPUs of the nodes stay as they are.
pub proof fn law_one_more_waiting_job(
    before: GpuSummary,
    after: GpuSummary,
    nodes: Seq<NodeView>,
    jobs: Seq<JobView>,
    job: JobView,
    kind: Seq<char>,
)
    requires
        gpu_summary_is(before, nodes, jobs),
        gpu_summary_is(after, nodes, jobs.push(job)),
    ensures
        initial(job.state, 'p', 'P') ==> after.reserved == before.reserved + count_sum(job.gpus),
        initial(job.state, 'p', 'P') ==> of_type(after, kind).2 == of_type(before, kind).2 + count_of(
            job.gpus,
            kind,
        ),
        !initial(job.state, 'p', 'P') ==> after.reserved == before.reserved && of_type(after, kind).2
            == of_type(before, kind).2,
        after.total == before.total && after.active == before.active,
        of_type(after, kind).0 == of_type(before, kind).0,
        of_type(after, kind).1 == of_type(before, kind).1,
{
    law_initial_tells_phase(job.state);
    lemma_all_push(jobs, job, job_gpus_awaited(), kind);
    lemma_of_type(before, nodes, jobs, kind);
    lemma_of_type(after, nodes, jobs.push(job), kind);
}

/// The GPUs that are free are those of the nodes that are not in use, at least none, in all and by
/// type.
pub proof fn law_free_gpus(g: GpuSummary, nodes: Seq<NodeView>, jobs: Seq<JobView>, kind: Seq<char>)
    requires
        gpu_summary_is(g, nodes, jobs),
    ensures
        g.total >= g.active ==> g.free_estimate == g.total - g.active,
        g.total < g.active ==> g.free_estimate == 0,
        lookup(g.by_type@, kind) matches Some(s) ==> s.free_estimate == if s.total >= s.active {
            s.total - s.active
        } else {
            0
        },
{
}

proof fn lemma_reserved_is_pending(jobs: Seq<JobView>)
    ensures
        count_all(jobs, job_gpus_awaited()) == tally(jobs, Phase::Pending, everyone(), Measure::Gpus),
    decreases jobs.len(),
{
    if jobs.len() > 0 {
        let fewer = jobs.drop_last();
        lemma_reserved_is_pending(fewer);
        law_initial_tells_phase(jobs.last().state);
        assert(fewer.push(jobs.last()) =~= jobs);
        lemma_all_push(fewer, jobs.last(), job_gpus_awaited(), seq![]);
        lemma_sum_push(fewer, jobs.last(), share(Phase::Pending, everyone(), Measure::Gpus));
    }
}

/// The GPUs that are reserved are those that the pending jobs of the job summary count.
pub proof fn law_reserved_is_pending(
    g: GpuSummary,
    s: JobSummary,
    nodes: Seq<NodeView>,
    jobs: Seq<JobView>,
    user: Seq<char>,
)
    requires
        gpu_summary_is(g, nodes, jobs),
        summary_is(s, jobs, user),
    ensures
        g.reserved == s.all.pending.gpus,
{
    lemma_reserved_is_pending(jobs);
}

} // verus!
