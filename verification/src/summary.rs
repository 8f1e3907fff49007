//! Counts of jobs and GPUs over the whole cluster.

use vstd::prelude::*;

use crate::map::ascending;
use crate::map::count_of;
use crate::map::count_sum;
use crate::map::law_lookup_after_put;
use crate::map::law_put_keeps_order;
use crate::map::lemma_count_le_sum;
use crate::map::lemma_count_step;
use crate::map::lemma_lookup_at;
use crate::map::lemma_lookup_position;
use crate::map::lemma_put_at;
use crate::map::lookup;
use crate::map::put;
use crate::map::GpuMap;
use crate::map::TextMap;
use crate::model::views;
use crate::model::Job;
use crate::model::JobView;
use crate::model::Node;
use crate::model::NodeView;
use crate::number::decimal;
use crate::number::show;
use crate::order::lemma_text_before_total;
use crate::order::text_before;
use crate::text::ascii_upper;
use crate::text::begins;
use crate::text::same_str;
use crate::text::starts_with;
use crate::text::to_chars;
use crate::text::upper;
use crate::units::human_memory;
use crate::units::MemoryMb;

verus! {

/// The jobs of one kind, and what they ask for.
#[derive(Debug, Clone, Copy, PartialEq, Eq, Structural)]
pub struct JobBucket {
    pub jobs: u64,
    pub cpus: u64,
    pub memory: MemoryMb,
    pub gpus: u64,
}

/// The running and the pending jobs of an owner.
#[derive(Debug, Clone, Copy, PartialEq, Eq, Structural)]
pub struct OwnerSummary {
    pub running: JobBucket,
    pub pending: JobBucket,
}

/// The jobs of all users, of the current one, of the others and of each one.
#[derive(Debug, PartialEq, Eq)]
pub struct JobSummary {
    pub all: OwnerSummary,
    pub me: OwnerSummary,
    pub others: OwnerSummary,
    pub users: TextMap<OwnerSummary>,
}

/// A job that counts in a summary runs or waits.
#[derive(Debug, Clone, Copy, PartialEq, Eq, Structural)]
pub enum Phase {
    Running,
    Pending,
}

/// What is counted of a job.
#[derive(Debug, Clone, Copy, PartialEq, Eq, Structural)]
pub enum Measure {
    Jobs,
    Cpus,
    Memory,
    Gpus,
}

/// An empty bucket.
pub open spec fn empty_bucket() -> JobBucket {
    JobBucket { jobs: 0, cpus: 0, memory: MemoryMb(0), gpus: 0 }
}

/// A summary of no jobs.
pub open spec fn empty_owner() -> OwnerSummary {
    OwnerSummary { running: empty_bucket(), pending: empty_bucket() }
}

impl Default for JobBucket {
    fn default() -> (r: Self)
        ensures
            r == empty_bucket(),
    {
        JobBucket { jobs: 0, cpus: 0, memory: MemoryMb(0), gpus: 0 }
    }
}

impl Default for OwnerSummary {
    fn default() -> (r: Self)
        ensures
            r == empty_owner(),
    {
        OwnerSummary { running: JobBucket::default(), pending: JobBucket::default() }
    }
}

impl Default for JobSummary {
    fn default() -> (r: Self)
        ensures
            r.all == empty_owner(),
            r.me == empty_owner(),
            r.others == empty_owner(),
            r.users@ == Seq::<(Seq<char>, OwnerSummary)>::empty(),
    {
        JobSummary {
            all: OwnerSummary::default(),
            me: OwnerSummary::default(),
            others: OwnerSummary::default(),
            users: TextMap::new(),
        }
    }
}

impl Clone for JobSummary {
    fn clone(&self) -> (r: Self)
        ensures
            r.all == self.all,
            r.me == self.me,
            r.others == self.others,
            r.users@ == self.users@,
    {
        JobSummary {
            all: self.all,
            me: self.me,
            others: self.others,
            users: self.users.clone(),
        }
    }
}

/// The sum of `f` over the rows.
pub open spec fn sum_of<T>(rows: Seq<T>, f: spec_fn(T) -> nat) -> nat
    decreases rows.len(),
{
    if rows.len() == 0 {
        0
    } else {
        sum_of(rows.drop_last(), f) + f(rows.last())
    }
}

proof fn lemma_sum_prefix<T>(rows: Seq<T>, n: int, f: spec_fn(T) -> nat)
    requires
        0 <= n <= rows.len(),
    ensures
        sum_of(rows.take(n), f) <= sum_of(rows, f),
    decreases rows.len(),
{
    if n < rows.len() {
        assert(rows.drop_last().take(n) =~= rows.take(n));
        lemma_sum_prefix(rows.drop_last(), n, f);
    } else {
        assert(rows.take(n) =~= rows);
    }
}

proof fn lemma_sum_le<T>(rows: Seq<T>, f: spec_fn(T) -> nat, g: spec_fn(T) -> nat)
    requires
        forall|x: T| #[trigger] f(x) <= g(x),
    ensures
        sum_of(rows, f) <= sum_of(rows, g),
    decreases rows.len(),
{
    if rows.len() > 0 {
        lemma_sum_le(rows.drop_last(), f, g);
        assert(f(rows.last()) <= g(rows.last()));
    }
}

/// A sum of sums is the sum of the sums.
proof fn lemma_sum_parts<T>(
    rows: Seq<T>,
    whole: spec_fn(T) -> nat,
    a: spec_fn(T) -> nat,
    b: spec_fn(T) -> nat,
)
    requires
        forall|x: T| #[trigger] whole(x) == a(x) + b(x),
    ensures
        sum_of(rows, whole) == sum_of(rows, a) + sum_of(rows, b),
    decreases rows.len(),
{
    if rows.len() > 0 {
        lemma_sum_parts(rows.drop_last(), whole, a, b);
        assert(whole(rows.last()) == a(rows.last()) + b(rows.last()));
    }
}

/// Whether a job in this state runs or waits.
pub open spec fn phase_of(state: Seq<char>) -> Option<Phase> {
    let s = ascii_upper(state);
    if starts_with(s, "R"@) {
        Some(Phase::Running)
    } else if starts_with(s, "P"@) {
        Some(Phase::Pending)
    } else {
        None
    }
}

/// How much a job counts.
pub open spec fn measured(job: JobView, m: Measure) -> nat {
    match m {
        Measure::Jobs => 1,
        Measure::Cpus => job.cpus as nat,
        Measure::Memory => job.memory.0 as nat,
        Measure::Gpus => job.gpu_count(),
    }
}

/// How much a job of the given users counts.
pub open spec fn share(phase: Phase, who: spec_fn(Seq<char>) -> bool, m: Measure) -> spec_fn(
    JobView,
) -> nat {
    |j: JobView|
        if phase_of(j.state) == Some(phase) && who(j.user) {
            measured(j, m)
        } else {
            0
        }
}

/// How much the jobs of the given users count together.
pub open spec fn tally(
    jobs: Seq<JobView>,
    phase: Phase,
    who: spec_fn(Seq<char>) -> bool,
    m: Measure,
) -> nat {
    sum_of(jobs, share(phase, who, m))
}

/// Every user.
pub open spec fn everyone() -> spec_fn(Seq<char>) -> bool {
    |u: Seq<char>| true
}

/// The one user.
pub open spec fn only(user: Seq<char>) -> spec_fn(Seq<char>) -> bool {
    |u: Seq<char>| u == user
}

/// Every user but the one.
pub open spec fn all_but(user: Seq<char>) -> spec_fn(Seq<char>) -> bool {
    |u: Seq<char>| u != user
}

/// Whether a bucket holds what the jobs of the given users count.
pub open spec fn bucket_is(
    b: JobBucket,
    jobs: Seq<JobView>,
    phase: Phase,
    who: spec_fn(Seq<char>) -> bool,
) -> bool {
    &&& b.jobs == tally(jobs, phase, who, Measure::Jobs)
    &&& b.cpus == tally(jobs, phase, who, Measure::Cpus)
    &&& b.memory.0 == tally(jobs, phase, who, Measure::Memory)
    &&& b.gpus == tally(jobs, phase, who, Measure::Gpus)
}

/// Whether a summary holds what the jobs of the given users count.
pub open spec fn owner_is(s: OwnerSummary, jobs: Seq<JobView>, who: spec_fn(Seq<char>) -> bool) -> bool {
    &&& bucket_is(s.running, jobs, Phase::Running, who)
    &&& bucket_is(s.pending, jobs, Phase::Pending, who)
}

/// Whether a user has a job that runs or waits.
pub open spec fn has_jobs(jobs: Seq<JobView>, user: Seq<char>) -> bool {
    exists|i: int|
        0 <= i < jobs.len() && (#[trigger] jobs[i]).user == user && phase_of(jobs[i].state) is Some
}

/// Whether the map says of each user who has a job that runs or waits, and of no other, what their
/// jobs count.
pub open spec fn users_are(users: Seq<(Seq<char>, OwnerSummary)>, jobs: Seq<JobView>) -> bool {
    &&& ascending(users)
    &&& forall|u: Seq<char>| (#[trigger] lookup(users, u)) is Some <==> has_jobs(jobs, u)
    &&& forall|u: Seq<char>| #[trigger]
        lookup(users, u) matches Some(s) ==> owner_is(s, jobs, only(u))
}

/// Whether a summary is that of the jobs.
pub open spec fn summary_is(s: JobSummary, jobs: Seq<JobView>, current_user: Seq<char>) -> bool {
    &&& owner_is(s.all, jobs, everyone())
    &&& owner_is(s.me, jobs, only(current_user))
    &&& owner_is(s.others, jobs, all_but(current_user))
    &&& users_are(s.users@, jobs)
}

/// Whether what the jobs count together fits.
pub open spec fn tallies_fit(jobs: Seq<JobView>) -> bool {
    forall|phase: Phase, m: Measure| #[trigger] tally(jobs, phase, everyone(), m) <= u64::MAX
}

/// What all jobs count is what those of a user and those of the others count.
pub proof fn law_me_and_others_make_all(jobs: Seq<JobView>, user: Seq<char>, phase: Phase, m: Measure)
    ensures
        tally(jobs, phase, everyone(), m) == tally(jobs, phase, only(user), m) + tally(
            jobs,
            phase,
            all_but(user),
            m,
        ),
{
    lemma_sum_parts(
        jobs,
        share(phase, everyone(), m),
        share(phase, only(user), m),
        share(phase, all_but(user), m),
    );
}

/// What a part of the first jobs counts is not more than what all of them count.
proof fn lemma_tally_bound(
    jobs: Seq<JobView>,
    n: int,
    phase: Phase,
    who: spec_fn(Seq<char>) -> bool,
    m: Measure,
)
    requires
        0 <= n <= jobs.len(),
    ensures
        tally(jobs.take(n), phase, who, m) <= tally(jobs, phase, everyone(), m),
{
    lemma_sum_prefix(jobs, n, share(phase, everyone(), m));
    lemma_sum_le(jobs.take(n), share(phase, who, m), share(phase, everyone(), m));
}

/// One more job raises each tally by what it counts.
proof fn lemma_tally_step(
    jobs: Seq<JobView>,
    n: int,
    phase: Phase,
    who: spec_fn(Seq<char>) -> bool,
    m: Measure,
)
    requires
        0 <= n < jobs.len(),
    ensures
        tally(jobs.take(n + 1), phase, who, m) == tally(jobs.take(n), phase, who, m) + share(
            phase,
            who,
            m,
        )(jobs[n]),
{
    assert(jobs.take(n + 1).drop_last() =~= jobs.take(n));
}

/// Whether a job in this state runs or waits.
pub fn read_phase(state: &str) -> (r: Option<Phase>)
    ensures
        r == phase_of(state@),
{
    let chars = to_chars(state);
    let raised = upper(chars.as_slice());
    if begins(raised.as_slice(), "R") {
        Some(Phase::Running)
    } else if begins(raised.as_slice(), "P") {
        Some(Phase::Pending)
    } else {
        None
    }
}

/// Whether a summary with one more job of the given phase fits.
spec fn room_for(s: OwnerSummary, phase: Phase, job: JobView) -> bool {
    let b = if phase == Phase::Running { s.running } else { s.pending };
    &&& b.jobs + 1 <= u64::MAX
    &&& b.cpus + job.cpus <= u64::MAX
    &&& b.memory.0 + job.memory.0 <= u64::MAX
    &&& b.gpus + job.gpu_count() <= u64::MAX
}

/// Counts one job.
fn add_job_bucket(summary: &mut OwnerSummary, phase: Phase, job: &Job)
    requires
        room_for(*old(summary), phase, job@),
    ensures
        ({
            let (old_b, new_b) = if phase == Phase::Running {
                (old(summary).running, final(summary).running)
            } else {
                (old(summary).pending, final(summary).pending)
            };
            &&& new_b.jobs == old_b.jobs + 1
            &&& new_b.cpus == old_b.cpus + job@.cpus
            &&& new_b.memory.0 == old_b.memory.0 + job@.memory.0
            &&& new_b.gpus == old_b.gpus + job@.gpu_count()
        }),
        phase == Phase::Running ==> final(summary).pending == old(summary).pending,
        phase == Phase::Pending ==> final(summary).running == old(summary).running,
{
    let mut bucket = match phase {
        Phase::Running => summary.running,
        Phase::Pending => summary.pending,
    };
    bucket.jobs = bucket.jobs + 1;
    bucket.cpus = bucket.cpus + job.cpus;
    bucket.memory = MemoryMb(bucket.memory.0 + job.memory.0);
    bucket.gpus = bucket.gpus + job.gpu_total();
    match phase {
        Phase::Running => {
            summary.running = bucket;
        },
        Phase::Pending => {
            summary.pending = bucket;
        },
    }
}

/// Counting one more job keeps a summary that of the jobs.
proof fn lemma_owner_step(
    before: OwnerSummary,
    after: OwnerSummary,
    jobs: Seq<JobView>,
    n: int,
    who: spec_fn(Seq<char>) -> bool,
)
    requires
        0 <= n < jobs.len(),
        owner_is(before, jobs.take(n), who),
        match phase_of(jobs[n].state) {
            Some(phase) if who(jobs[n].user) => {
                let (old_b, new_b) = if phase == Phase::Running {
                    (before.running, after.running)
                } else {
                    (before.pending, after.pending)
                };
                &&& new_b.jobs == old_b.jobs + 1
                &&& new_b.cpus == old_b.cpus + jobs[n].cpus
                &&& new_b.memory.0 == old_b.memory.0 + jobs[n].memory.0
                &&& new_b.gpus == old_b.gpus + jobs[n].gpu_count()
                &&& phase == Phase::Running ==> after.pending == before.pending
                &&& phase == Phase::Pending ==> after.running == before.running
            },
            _ => after == before,
        },
    ensures
        owner_is(after, jobs.take(n + 1), who),
{
    lemma_tally_step(jobs, n, Phase::Running, who, Measure::Jobs);
    lemma_tally_step(jobs, n, Phase::Running, who, Measure::Cpus);
    lemma_tally_step(jobs, n, Phase::Running, who, Measure::Memory);
    lemma_tally_step(jobs, n, Phase::Running, who, Measure::Gpus);
    lemma_tally_step(jobs, n, Phase::Pending, who, Measure::Jobs);
    lemma_tally_step(jobs, n, Phase::Pending, who, Measure::Cpus);
    lemma_tally_step(jobs, n, Phase::Pending, who, Measure::Memory);
    lemma_tally_step(jobs, n, Phase::Pending, who, Measure::Gpus);
}

/// Where the tallies of all jobs fit, there is room for each job in turn.
proof fn lemma_room(
    s: OwnerSummary,
    jobs: Seq<JobView>,
    n: int,
    phase: Phase,
    who: spec_fn(Seq<char>) -> bool,
)
    requires
        0 <= n < jobs.len(),
        tallies_fit(jobs),
        owner_is(s, jobs.take(n), who),
        phase_of(jobs[n].state) == Some(phase),
        who(jobs[n].user),
    ensures
        room_for(s, phase, jobs[n]),
{
    assert forall|m: Measure| #[trigger] tally(jobs.take(n), phase, who, m) + measured(jobs[n], m) <= u64::MAX by {
        lemma_tally_step(jobs, n, phase, who, m);
        lemma_tally_bound(jobs, n + 1, phase, who, m);
        assert(tally(jobs, phase, everyone(), m) <= u64::MAX);
    }
    assert(tally(jobs.take(n), phase, who, Measure::Jobs) + measured(jobs[n], Measure::Jobs) <= u64::MAX);
    assert(tally(jobs.take(n), phase, who, Measure::Cpus) + measured(jobs[n], Measure::Cpus) <= u64::MAX);
    assert(tally(jobs.take(n), phase, who, Measure::Memory) + measured(jobs[n], Measure::Memory) <= u64::MAX);
    assert(tally(jobs.take(n), phase, who, Measure::Gpus) + measured(jobs[n], Measure::Gpus) <= u64::MAX);
}

/// Without jobs every tally is zero.
proof fn lemma_no_jobs(jobs: Seq<JobView>, who: spec_fn(Seq<char>) -> bool)
    requires
        jobs.len() == 0,
    ensures
        owner_is(empty_owner(), jobs, who),
{
}

/// A user without jobs counts nothing.
pub proof fn lemma_stranger(jobs: Seq<JobView>, user: Seq<char>)
    requires
        !has_jobs(jobs, user),
    ensures
        owner_is(empty_owner(), jobs, only(user)),
    decreases jobs.len(),
{
    if jobs.len() > 0 {
        let fewer = jobs.drop_last();
        assert(!has_jobs(fewer, user)) by {
            if has_jobs(fewer, user) {
                let i = choose|i: int|
                    0 <= i < fewer.len() && (#[trigger] fewer[i]).user == user && phase_of(
                        fewer[i].state,
                    ) is Some;
                assert(jobs[i] == fewer[i]);
            }
        }
        lemma_stranger(fewer, user);
        assert(jobs.take(jobs.len() - 1) =~= fewer);
        assert(jobs.take(jobs.len() as int) =~= jobs);
        assert(!(jobs[jobs.len() - 1].user == user && phase_of(jobs[jobs.len() - 1].state) is Some));
        lemma_owner_step(empty_owner(), empty_owner(), jobs, jobs.len() - 1, only(user));
    }
}

/// The summary of the jobs.
#[must_use]
pub fn summarize_jobs(jobs: &[Job], current_user: &str) -> (r: JobSummary)
    requires
        tallies_fit(views(jobs@)),
    ensures
        summary_is(r, views(jobs@), current_user@),
{
    let ghost shown = views(jobs@);
    let mut all = OwnerSummary::default();
    let mut me = OwnerSummary::default();
    let mut others = OwnerSummary::default();
    let mut users: TextMap<OwnerSummary> = TextMap::new();
    let mut i: usize = 0;
    proof {
        lemma_no_jobs(shown.take(0), everyone());
        lemma_no_jobs(shown.take(0), only(current_user@));
        lemma_no_jobs(shown.take(0), all_but(current_user@));
    }
    while i < jobs.len()
        invariant
            i <= jobs@.len(),
            shown == views(jobs@),
            tallies_fit(shown),
            owner_is(all, shown.take(i as int), everyone()),
            owner_is(me, shown.take(i as int), only(current_user@)),
            owner_is(others, shown.take(i as int), all_but(current_user@)),
            users_are(users@, shown.take(i as int)),
        decreases jobs@.len() - i,
    {
        let job = &jobs[i];
        let ghost before = (all, me, others, users@);
        let ghost user = shown[i as int].user;
        assert(shown[i as int] == job@);
        let mine: bool = same_str(job.user.as_str(), current_user);
        match read_phase(job.state.as_str()) {
            Some(phase) => {
                proof {
                    lemma_room(all, shown, i as int, phase, everyone());
                }
                add_job_bucket(&mut all, phase, job);
                let mut entry = match users.get(job.user.as_str()) {
                    Some(s) => *s,
                    None => OwnerSummary::default(),
                };
                proof {
                    if lookup(users@, user) is None {
                        lemma_stranger(shown.take(i as int), user);
                    }
                    lemma_room(entry, shown, i as int, phase, only(user));
                }
                let ghost entry_before = entry;
                add_job_bucket(&mut entry, phase, job);
                users.insert(job.user.as_str(), entry);
                proof {
                    lemma_owner_step(entry_before, entry, shown, i as int, only(user));
                    lemma_users_step(before.3, users@, shown, i as int, entry);
                }
                if mine {
                    proof {
                        lemma_room(me, shown, i as int, phase, only(current_user@));
                    }
                    add_job_bucket(&mut me, phase, job);
                } else {
                    proof {
                        lemma_room(others, shown, i as int, phase, all_but(current_user@));
                    }
                    add_job_bucket(&mut others, phase, job);
                }
            },
            None => {
                proof {
                    lemma_users_skip(users@, shown, i as int);
                }
            },
        }
        proof {
            lemma_owner_step(before.0, all, shown, i as int, everyone());
            lemma_owner_step(before.1, me, shown, i as int, only(current_user@));
            lemma_owner_step(before.2, others, shown, i as int, all_but(current_user@));
        }
        i += 1;
    }
    assert(shown.take(i as int) =~= shown);
    JobSummary { all, me, others, users }
}

/// The users with one more job are those of before and its owner.
proof fn lemma_has_jobs_step(jobs: Seq<JobView>, n: int, user: Seq<char>)
    requires
        0 <= n < jobs.len(),
    ensures
        has_jobs(jobs.take(n + 1), user) == (has_jobs(jobs.take(n), user) || (jobs[n].user == user
            && phase_of(jobs[n].state) is Some)),
{
    let more = jobs.take(n + 1);
    let fewer = jobs.take(n);
    if has_jobs(fewer, user) {
        let i = choose|i: int|
            0 <= i < fewer.len() && (#[trigger] fewer[i]).user == user && phase_of(fewer[i].state) is Some;
        assert(more[i] == fewer[i]);
    }
    if jobs[n].user == user && phase_of(jobs[n].state) is Some {
        assert(more[n] == jobs[n]);
    }
    if has_jobs(more, user) {
        let i = choose|i: int|
            0 <= i < more.len() && (#[trigger] more[i]).user == user && phase_of(more[i].state) is Some;
        if i < n {
            assert(fewer[i] == more[i]);
        }
    }
}

proof fn lemma_users_step(
    before: Seq<(Seq<char>, OwnerSummary)>,
    after: Seq<(Seq<char>, OwnerSummary)>,
    jobs: Seq<JobView>,
    n: int,
    entry: OwnerSummary,
)
    requires
        0 <= n < jobs.len(),
        users_are(before, jobs.take(n)),
        phase_of(jobs[n].state) is Some,
        after == put(before, jobs[n].user, entry),
        owner_is(entry, jobs.take(n + 1), only(jobs[n].user)),
    ensures
        users_are(after, jobs.take(n + 1)),
{
    let user = jobs[n].user;
    law_put_keeps_order(before, user, entry);
    assert forall|u: Seq<char>| (#[trigger] lookup(after, u)) is Some <==> has_jobs(jobs.take(n + 1), u) by {
        law_lookup_after_put(before, user, entry, u);
        lemma_has_jobs_step(jobs, n, u);
        assert(lookup(before, u) is Some <==> has_jobs(jobs.take(n), u));
    }
    assert forall|u: Seq<char>| #[trigger] lookup(after, u) matches Some(s) implies owner_is(
        lookup(after, u)->0,
        jobs.take(n + 1),
        only(u),
    ) by {
        law_lookup_after_put(before, user, entry, u);
        if u != user {
            let s = lookup(before, u)->0;
            assert(owner_is(s, jobs.take(n), only(u)));
            lemma_owner_step(s, s, jobs, n, only(u));
        }
    }
}

proof fn lemma_users_skip(users: Seq<(Seq<char>, OwnerSummary)>, jobs: Seq<JobView>, n: int)
    requires
        0 <= n < jobs.len(),
        users_are(users, jobs.take(n)),
        phase_of(jobs[n].state) is None,
    ensures
        users_are(users, jobs.take(n + 1)),
{
    assert forall|u: Seq<char>| (#[trigger] lookup(users, u)) is Some <==> has_jobs(jobs.take(n + 1), u) by {
        lemma_has_jobs_step(jobs, n, u);
    }
    assert forall|u: Seq<char>| #[trigger] lookup(users, u) matches Some(s) implies owner_is(
        lookup(users, u)->0,
        jobs.take(n + 1),
        only(u),
    ) by {
        let s = lookup(users, u)->0;
        lemma_owner_step(s, s, jobs, n, only(u));
    }
}

/// What is shown of a bucket.
pub open spec fn bucket_text(b: JobBucket) -> Seq<char> {
    decimal(b.jobs as nat) + " jobs / "@ + decimal(b.gpus as nat) + " GPU / "@ + decimal(
        b.cpus as nat,
    ) + " CPU / "@ + human_memory(b.memory.0 as nat)
}

/// What is shown of a bucket.
#[must_use]
pub fn bucket_display(bucket: &JobBucket) -> (r: String)
    ensures
        r@ == bucket_text(*bucket),
{
    let mut out = show(bucket.jobs);
    out.append(" jobs / ");
    out.append(show(bucket.gpus).as_str());
    out.append(" GPU / ");
    out.append(show(bucket.cpus).as_str());
    out.append(" CPU / ");
    out.append(bucket.memory.human().as_str());
    out
}

/// The GPUs of one type.
#[derive(Debug, Clone, Copy, PartialEq, Eq, Structural)]
pub struct GpuTypeSummary {
    pub total: u64,
    pub active: u64,
    pub reserved: u64,
    pub free_estimate: u64,
}

/// The GPUs of the cluster, together and by type.
#[derive(Debug, PartialEq, Eq)]
pub struct GpuSummary {
    pub total: u64,
    pub active: u64,
    pub reserved: u64,
    pub free_estimate: u64,
    pub by_type: TextMap<GpuTypeSummary>,
}

/// What is counted of the GPUs of one type.
#[derive(Debug, Clone, Copy, PartialEq, Eq, Structural)]
pub enum GpuField {
    Total,
    Active,
    Reserved,
}

impl Default for GpuTypeSummary {
    fn default() -> (r: Self)
        ensures
            r == (GpuTypeSummary { total: 0, active: 0, reserved: 0, free_estimate: 0 }),
    {
        GpuTypeSummary { total: 0, active: 0, reserved: 0, free_estimate: 0 }
    }
}

impl Default for GpuSummary {
    fn default() -> (r: Self)
        ensures
            r.total == 0,
            r.active == 0,
            r.reserved == 0,
            r.free_estimate == 0,
            r.by_type@ == Seq::<(Seq<char>, GpuTypeSummary)>::empty(),
    {
        GpuSummary { total: 0, active: 0, reserved: 0, free_estimate: 0, by_type: TextMap::new() }
    }
}

impl Clone for GpuSummary {
    fn clone(&self) -> (r: Self)
        ensures
            r.total == self.total,
            r.active == self.active,
            r.reserved == self.reserved,
            r.free_estimate == self.free_estimate,
            r.by_type@ == self.by_type@,
    {
        GpuSummary {
            total: self.total,
            active: self.active,
            reserved: self.reserved,
            free_estimate: self.free_estimate,
            by_type: self.by_type.clone(),
        }
    }
}

/// `a - b`, at least zero.
pub open spec fn rest_of(a: nat, b: nat) -> nat {
    if a >= b {
        (a - b) as nat
    } else {
        0
    }
}

/// Counts by type: the GPUs of a node.
pub open spec fn node_gpus() -> spec_fn(NodeView) -> Seq<(Seq<char>, u64)> {
    |n: NodeView| n.gpus
}

/// Counts by type: the GPUs of a node that are in use.
pub open spec fn node_gpus_used() -> spec_fn(NodeView) -> Seq<(Seq<char>, u64)> {
    |n: NodeView| n.gpus_allocated
}

/// Counts by type: the GPUs that a job waits for.
pub open spec fn job_gpus_awaited() -> spec_fn(JobView) -> Seq<(Seq<char>, u64)> {
    |j: JobView|
        if waiting(j.state) {
            j.gpus
        } else {
            seq![]
        }
}

/// Whether a job in this state waits.
pub open spec fn waiting(state: Seq<char>) -> bool {
    starts_with(ascii_upper(state), "P"@)
}

/// The sum of the counts of all rows.
pub open spec fn count_all<T>(rows: Seq<T>, counts: spec_fn(T) -> Seq<(Seq<char>, u64)>) -> nat {
    sum_of(rows, |x: T| count_sum(counts(x)))
}

/// The sum of the counts of one type.
pub open spec fn count_type<T>(
    rows: Seq<T>,
    counts: spec_fn(T) -> Seq<(Seq<char>, u64)>,
    kind: Seq<char>,
) -> nat {
    sum_of(rows, |x: T| count_of(counts(x), kind))
}

/// Whether a row has a count of the type.
pub open spec fn has_type<T>(
    rows: Seq<T>,
    counts: spec_fn(T) -> Seq<(Seq<char>, u64)>,
    kind: Seq<char>,
) -> bool {
    exists|i: int| 0 <= i < rows.len() && lookup(counts(#[trigger] rows[i]), kind) is Some
}

/// Whether the GPU counts of the cluster fit.
pub open spec fn gpus_fit(nodes: Seq<NodeView>, jobs: Seq<JobView>) -> bool {
    &&& count_all(nodes, node_gpus()) <= u64::MAX
    &&& count_all(nodes, node_gpus_used()) <= u64::MAX
    &&& count_all(jobs, job_gpus_awaited()) <= u64::MAX
}

/// Whether a summary is that of the GPUs of the nodes and of the jobs that wait.
pub open spec fn gpu_summary_is(g: GpuSummary, nodes: Seq<NodeView>, jobs: Seq<JobView>) -> bool {
    &&& g.total == count_all(nodes, node_gpus())
    &&& g.active == count_all(nodes, node_gpus_used())
    &&& g.reserved == count_all(jobs, job_gpus_awaited())
    &&& g.free_estimate == rest_of(g.total as nat, g.active as nat)
    &&& ascending(g.by_type@)
    &&& forall|kind: Seq<char>| (#[trigger] lookup(g.by_type@, kind)) is Some <==> has_type(
        nodes,
        node_gpus(),
        kind,
    ) || has_type(nodes, node_gpus_used(), kind) || has_type(jobs, job_gpus_awaited(), kind)
    &&& forall|kind: Seq<char>| #[trigger]
        lookup(g.by_type@, kind) matches Some(s) ==> {
            &&& s.total == count_type(nodes, node_gpus(), kind)
            &&& s.active == count_type(nodes, node_gpus_used(), kind)
            &&& s.reserved == count_type(jobs, job_gpus_awaited(), kind)
            &&& s.free_estimate == rest_of(s.total as nat, s.active as nat)
        }
}

/// What a map says of one type.
spec fn field_of(types: Seq<(Seq<char>, GpuTypeSummary)>, kind: Seq<char>, field: GpuField) -> nat {
    match lookup(types, kind) {
        Some(s) => match field {
            GpuField::Total => s.total as nat,
            GpuField::Active => s.active as nat,
            GpuField::Reserved => s.reserved as nat,
        },
        None => 0,
    }
}

/// The entry with a count added to one of its fields.
fn raise_field(entry: GpuTypeSummary, field: GpuField, count: u64) -> (r: GpuTypeSummary)
    requires
        count + match field {
            GpuField::Total => entry.total,
            GpuField::Active => entry.active,
            GpuField::Reserved => entry.reserved,
        } <= u64::MAX,
    ensures
        r.total == entry.total + if field == GpuField::Total { count as int } else { 0 },
        r.active == entry.active + if field == GpuField::Active { count as int } else { 0 },
        r.reserved == entry.reserved + if field == GpuField::Reserved { count as int } else { 0 },
{
    let mut out = entry;
    match field {
        GpuField::Total => {
            out.total = out.total + count;
        },
        GpuField::Active => {
            out.active = out.active + count;
        },
        GpuField::Reserved => {
            out.reserved = out.reserved + count;
        },
    }
    out
}

/// Adds counts by type to one field of the map.
fn add_counts(types: &mut TextMap<GpuTypeSummary>, counts: &GpuMap, field: GpuField)
    requires
        forall|kind: Seq<char>| #[trigger]
            field_of(old(types)@, kind, field) + count_of(counts@, kind) <= u64::MAX,
    ensures
        ascending(counts@),
        forall|kind: Seq<char>, f: GpuField| #[trigger]
            field_of(final(types)@, kind, f) == field_of(old(types)@, kind, f) + if f == field {
                count_of(counts@, kind)
            } else {
                0
            },
        forall|kind: Seq<char>| (#[trigger] lookup(final(types)@, kind)) is Some <==> lookup(
            old(types)@,
            kind,
        ) is Some || lookup(counts@, kind) is Some,
{
    let n: usize = counts.len();
    let ghost start = types@;
    let mut i: usize = 0;
    assert(counts@.take(0) =~= Seq::empty());
    while i < n
        invariant
            i <= n,
            n == counts@.len(),
            ascending(counts@),
            forall|kind: Seq<char>| #[trigger]
                field_of(start, kind, field) + count_of(counts@, kind) <= u64::MAX,
            forall|kind: Seq<char>, f: GpuField| #[trigger]
                field_of(types@, kind, f) == field_of(start, kind, f) + if f == field {
                    count_of(counts@.take(i as int), kind)
                } else {
                    0
                },
            forall|kind: Seq<char>| (#[trigger] lookup(types@, kind)) is Some <==> lookup(start, kind) is Some
                || lookup(counts@.take(i as int), kind) is Some,
        decreases n - i,
    {
        let ghost before = types@;
        let ghost kind = counts@[i as int].0;
        let key = counts.key_at(i);
        let count: u64 = *counts.value_at(i);
        let entry = match types.get(key.as_str()) {
            Some(s) => *s,
            None => GpuTypeSummary::default(),
        };
        proof {
            lemma_count_step(counts@, i as int, kind);
            lemma_lookup_at(counts@, i as int);
            assert(field_of(start, kind, field) + count_of(counts@, kind) <= u64::MAX);
            assert(field_of(before, kind, field) == field_of(start, kind, field) + count_of(
                counts@.take(i as int),
                kind,
            ));
            lemma_new_key(counts@, i as int);
        }
        let raised = raise_field(entry, field, count);
        types.insert(key.as_str(), raised);
        proof {
            assert forall|k: Seq<char>, f: GpuField| #[trigger]
                field_of(types@, k, f) == field_of(start, k, f) + if f == field {
                    count_of(counts@.take(i + 1), k)
                } else {
                    0
                } by {
                law_lookup_after_put(before, kind, raised, k);
                lemma_count_step(counts@, i as int, k);
                assert(field_of(before, k, f) == field_of(start, k, f) + if f == field {
                    count_of(counts@.take(i as int), k)
                } else {
                    0
                });
            }
            assert forall|k: Seq<char>| (#[trigger] lookup(types@, k)) is Some <==> lookup(start, k) is Some
                || lookup(counts@.take(i + 1), k) is Some by {
                law_lookup_after_put(before, kind, raised, k);
                lemma_count_step(counts@, i as int, k);
                assert(lookup(before, k) is Some <==> lookup(start, k) is Some || lookup(
                    counts@.take(i as int),
                    k,
                ) is Some);
            }
        }
        i += 1;
    }
    assert(counts@.take(i as int) =~= counts@);
}

/// The key of an entry does not stand in front of it.
proof fn lemma_new_key(s: Seq<(Seq<char>, u64)>, n: int)
    requires
        ascending(s),
        0 <= n < s.len(),
    ensures
        count_of(s.take(n), s[n].0) == 0,
{
    let i = lemma_lookup_position(s.take(n), s[n].0);
    if lookup(s.take(n), s[n].0) is Some {
        assert(s.take(n)[i] == s[i]);
        assert(text_before(s[i].0, s[n].0));
        lemma_text_before_total(s[n].0, s[n].0);
    }
}

/// The counts of one type in the first rows are not more than all counts.
proof fn lemma_type_bound<T>(
    rows: Seq<T>,
    n: int,
    counts: spec_fn(T) -> Seq<(Seq<char>, u64)>,
    kind: Seq<char>,
)
    requires
        0 <= n < rows.len(),
    ensures
        count_type(rows.take(n), counts, kind) + count_of(counts(rows[n]), kind) == count_type(
            rows.take(n + 1),
            counts,
            kind,
        ),
        count_type(rows.take(n + 1), counts, kind) <= count_all(rows, counts),
        count_all(rows.take(n), counts) + count_sum(counts(rows[n])) == count_all(
            rows.take(n + 1),
            counts,
        ),
        count_all(rows.take(n + 1), counts) <= count_all(rows, counts),
        has_type(rows.take(n + 1), counts, kind) == (has_type(rows.take(n), counts, kind) || lookup(
            counts(rows[n]),
            kind,
        ) is Some),
{
    let by_type = |x: T| count_of(counts(x), kind);
    let together = |x: T| count_sum(counts(x));
    let more = rows.take(n + 1);
    let fewer = rows.take(n);
    assert(more.drop_last() =~= fewer);
    lemma_sum_prefix(rows, n + 1, together);
    assert forall|x: T| #[trigger] by_type(x) <= together(x) by {
        lemma_count_le_sum(counts(x), kind);
    }
    lemma_sum_le(more, by_type, together);
    if has_type(fewer, counts, kind) {
        let i = choose|i: int| 0 <= i < fewer.len() && lookup(counts(#[trigger] fewer[i]), kind) is Some;
        assert(more[i] == fewer[i]);
    }
    if lookup(counts(rows[n]), kind) is Some {
        assert(more[n] == rows[n]);
    }
    if has_type(more, counts, kind) {
        let i = choose|i: int| 0 <= i < more.len() && lookup(counts(#[trigger] more[i]), kind) is Some;
        if i < n {
            assert(fewer[i] == more[i]);
        }
    }
}

/// The summary of the GPUs.
#[must_use]
pub fn summarize_gpus(nodes: &[Node], jobs: &[Job]) -> (r: GpuSummary)
    requires
        gpus_fit(views(nodes@), views(jobs@)),
    ensures
        gpu_summary_is(r, views(nodes@), views(jobs@)),
{
    let ghost nv = views(nodes@);
    let ghost jv = views(jobs@);
    let ghost (have, used, awaited) = (node_gpus(), node_gpus_used(), job_gpus_awaited());
    let mut total: u64 = 0;
    let mut active: u64 = 0;
    let mut reserved: u64 = 0;
    let mut types: TextMap<GpuTypeSummary> = TextMap::new();
    let mut i: usize = 0;
    while i < nodes.len()
        invariant
            i <= nodes@.len(),
            nv == views(nodes@),
            have == node_gpus(),
            used == node_gpus_used(),
            count_all(nv, have) <= u64::MAX,
            count_all(nv, used) <= u64::MAX,
            total == count_all(nv.take(i as int), have),
            active == count_all(nv.take(i as int), used),
            forall|kind: Seq<char>| #[trigger]
                field_of(types@, kind, GpuField::Total) == count_type(nv.take(i as int), have, kind),
            forall|kind: Seq<char>| #[trigger]
                field_of(types@, kind, GpuField::Active) == count_type(nv.take(i as int), used, kind),
            forall|kind: Seq<char>| #[trigger] field_of(types@, kind, GpuField::Reserved) == 0,
            forall|kind: Seq<char>| (#[trigger] lookup(types@, kind)) is Some <==> has_type(
                nv.take(i as int),
                have,
                kind,
            ) || has_type(nv.take(i as int), used, kind),
        decreases nodes@.len() - i,
    {
        let node = &nodes[i];
        let ghost before = types@;
        assert(nv[i as int] == node@);
        proof {
            lemma_type_bound(nv, i as int, have, seq![]);
            lemma_type_bound(nv, i as int, used, seq![]);
            assert forall|kind: Seq<char>| #[trigger]
                field_of(types@, kind, GpuField::Total) + count_of(node.gpus@, kind) <= u64::MAX by {
                lemma_type_bound(nv, i as int, have, kind);
            }
        }
        add_counts(&mut types, &node.gpus, GpuField::Total);
        total = total + node.gpu_total();
        let ghost middle = types@;
        proof {
            assert forall|kind: Seq<char>| #[trigger]
                field_of(types@, kind, GpuField::Active) + count_of(node.gpus_allocated@, kind) <= u64::MAX by {
                lemma_type_bound(nv, i as int, used, kind);
                assert(field_of(before, kind, GpuField::Active) == count_type(nv.take(i as int), used, kind));
            }
        }
        add_counts(&mut types, &node.gpus_allocated, GpuField::Active);
        active = active + node.gpu_allocated();
        proof {
            assert forall|kind: Seq<char>| #[trigger]
                field_of(types@, kind, GpuField::Total) == count_type(nv.take(i + 1), have, kind) by {
                lemma_type_bound(nv, i as int, have, kind);
                assert(field_of(middle, kind, GpuField::Total) == field_of(before, kind, GpuField::Total)
                    + count_of(node.gpus@, kind));
            }
            assert forall|kind: Seq<char>| #[trigger]
                field_of(types@, kind, GpuField::Active) == count_type(nv.take(i + 1), used, kind) by {
                lemma_type_bound(nv, i as int, used, kind);
                assert(field_of(middle, kind, GpuField::Active) == field_of(before, kind, GpuField::Active));
            }
            assert forall|kind: Seq<char>| #[trigger] field_of(types@, kind, GpuField::Reserved) == 0 by {
                assert(field_of(middle, kind, GpuField::Reserved) == field_of(before, kind, GpuField::Reserved));
            }
            assert forall|kind: Seq<char>| (#[trigger] lookup(types@, kind)) is Some <==> has_type(
                nv.take(i + 1),
                have,
                kind,
            ) || has_type(nv.take(i + 1), used, kind) by {
                lemma_type_bound(nv, i as int, have, kind);
                lemma_type_bound(nv, i as int, used, kind);
                assert(lookup(middle, kind) is Some <==> lookup(before, kind) is Some || lookup(
                    node.gpus@,
                    kind,
                ) is Some);
            }
        }
        i += 1;
    }
    assert(nv.take(i as int) =~= nv);
    i = 0;
    while i < jobs.len()
        invariant
            i <= jobs@.len(),
            jv == views(jobs@),
            awaited == job_gpus_awaited(),
            count_all(jv, awaited) <= u64::MAX,
            reserved == count_all(jv.take(i as int), awaited),
            forall|kind: Seq<char>| #[trigger]
                field_of(types@, kind, GpuField::Total) == count_type(nv, have, kind),
            forall|kind: Seq<char>| #[trigger]
                field_of(types@, kind, GpuField::Active) == count_type(nv, used, kind),
            forall|kind: Seq<char>| #[trigger]
                field_of(types@, kind, GpuField::Reserved) == count_type(jv.take(i as int), awaited, kind),
            forall|kind: Seq<char>| (#[trigger] lookup(types@, kind)) is Some <==> has_type(nv, have, kind)
                || has_type(nv, used, kind) || has_type(jv.take(i as int), awaited, kind),
        decreases jobs@.len() - i,
    {
        let job = &jobs[i];
        let ghost before = types@;
        assert(jv[i as int] == job@);
        proof {
            lemma_type_bound(jv, i as int, awaited, seq![]);
        }
        if waits(job.state.as_str()) {
            proof {
                assert forall|kind: Seq<char>| #[trigger]
                    field_of(types@, kind, GpuField::Reserved) + count_of(job.gpus@, kind) <= u64::MAX by {
                    lemma_type_bound(jv, i as int, awaited, kind);
                }
            }
            add_counts(&mut types, &job.gpus, GpuField::Reserved);
            reserved = reserved + job.gpu_total();
        }
        proof {
            assert forall|kind: Seq<char>, f: GpuField| #[trigger]
                field_of(types@, kind, f) == field_of(before, kind, f) + if f == GpuField::Reserved {
                    count_of(awaited(job@), kind)
                } else {
                    0
                } by {};
            assert forall|kind: Seq<char>| #[trigger]
                field_of(types@, kind, GpuField::Reserved) == count_type(jv.take(i + 1), awaited, kind) by {
                lemma_type_bound(jv, i as int, awaited, kind);
                assert(field_of(before, kind, GpuField::Reserved) == count_type(
                    jv.take(i as int),
                    awaited,
                    kind,
                ));
            }
            assert forall|kind: Seq<char>| (#[trigger] lookup(types@, kind)) is Some <==> has_type(
                nv,
                have,
                kind,
            ) || has_type(nv, used, kind) || has_type(jv.take(i + 1), awaited, kind) by {
                lemma_type_bound(jv, i as int, awaited, kind);
                assert(lookup(before, kind) is Some <==> has_type(nv, have, kind) || has_type(nv, used, kind)
                    || has_type(jv.take(i as int), awaited, kind));
            }
        }
        i += 1;
    }
    assert(jv.take(i as int) =~= jv);
    let ghost counted = types@;
    let n: usize = types.len();
    i = 0;
    while i < n
        invariant
            i <= n,
            n == counted.len(),
            ascending(counted),
            types@.len() == n,
            forall|k: int|
                0 <= k < n ==> (#[trigger] types@[k]).0 == counted[k].0 && types@[k].1.total == counted[k].1.total
                    && types@[k].1.active == counted[k].1.active && types@[k].1.reserved
                    == counted[k].1.reserved,
            forall|k: int|
                0 <= k < i ==> (#[trigger] types@[k]).1.free_estimate == rest_of(
                    counted[k].1.total as nat,
                    counted[k].1.active as nat,
                ),
        decreases n - i,
    {
        let key = types.key_at(i).clone();
        let mut entry = *types.value_at(i);
        entry.free_estimate = entry.total.saturating_sub(entry.active);
        proof {
            lemma_same_keys_ascend(counted, types@);
            lemma_put_at(types@, i as int, entry);
        }
        types.insert(key.as_str(), entry);
        i += 1;
    }
    proof {
        lemma_same_keys_ascend(counted, types@);
        assert forall|kind: Seq<char>| (#[trigger] lookup(types@, kind)) is Some <==> lookup(counted, kind) is Some by {
            lemma_same_keys_lookup(counted, types@, kind);
        }
        assert forall|kind: Seq<char>| #[trigger] lookup(types@, kind) matches Some(s) implies {
            let s = lookup(types@, kind)->0;
            &&& s.total == count_type(nv, have, kind)
            &&& s.active == count_type(nv, used, kind)
            &&& s.reserved == count_type(jv, awaited, kind)
            &&& s.free_estimate == rest_of(s.total as nat, s.active as nat)
        } by {
            let k = lemma_lookup_position(types@, kind);
            lemma_lookup_at(counted, k);
            assert(field_of(counted, kind, GpuField::Total) == count_type(nv, have, kind));
            assert(field_of(counted, kind, GpuField::Active) == count_type(nv, used, kind));
            assert(field_of(counted, kind, GpuField::Reserved) == count_type(jv, awaited, kind));
        }
    }
    GpuSummary {
        total,
        active,
        reserved,
        free_estimate: total.saturating_sub(active),
        by_type: types,
    }
}

proof fn lemma_same_keys_ascend(
    a: Seq<(Seq<char>, GpuTypeSummary)>,
    b: Seq<(Seq<char>, GpuTypeSummary)>,
)
    requires
        ascending(a),
        a.len() == b.len(),
        forall|k: int| 0 <= k < a.len() ==> (#[trigger] b[k]).0 == a[k].0,
    ensures
        ascending(b),
{
    assert forall|i: int, j: int| 0 <= i < j < b.len() implies text_before(
        #[trigger] b[i].0,
        #[trigger] b[j].0,
    ) by {
        assert(text_before(a[i].0, a[j].0));
    }
}

proof fn lemma_same_keys_lookup(
    a: Seq<(Seq<char>, GpuTypeSummary)>,
    b: Seq<(Seq<char>, GpuTypeSummary)>,
    kind: Seq<char>,
)
    requires
        ascending(a),
        ascending(b),
        a.len() == b.len(),
        forall|k: int| 0 <= k < a.len() ==> (#[trigger] b[k]).0 == a[k].0,
    ensures
        lookup(a, kind) is Some <==> lookup(b, kind) is Some,
{
    let i = lemma_lookup_position(a, kind);
    let j = lemma_lookup_position(b, kind);
    if lookup(a, kind) is Some {
        assert(b[i].0 == a[i].0);
        lemma_lookup_at(b, i);
    }
    if lookup(b, kind) is Some {
        assert(b[j].0 == a[j].0);
        lemma_lookup_at(a, j);
    }
}

/// Whether a job in this state waits.
fn waits(state: &str) -> (r: bool)
    ensures
        r == waiting(state@),
{
    let chars = to_chars(state);
    let raised = upper(chars.as_slice());
    begins(raised.as_slice(), "P")
}

/// Whether what the jobs count together fits.
pub fn tallies_in_range(jobs: &[Job]) -> (r: bool)
    ensures
        r == tallies_fit(views(jobs@)),
{
    let ghost shown = views(jobs@);
    let mut all = OwnerSummary::default();
    let mut i: usize = 0;
    proof {
        lemma_no_jobs(shown.take(0), everyone());
    }
    while i < jobs.len()
        invariant
            i <= jobs@.len(),
            shown == views(jobs@),
            owner_is(all, shown.take(i as int), everyone()),
        decreases jobs@.len() - i,
    {
        let job = &jobs[i];
        let ghost before = all;
        assert(shown[i as int] == job@);
        if let Some(phase) = read_phase(job.state.as_str()) {
            let bucket = match phase {
                Phase::Running => all.running,
                Phase::Pending => all.pending,
            };
            proof {
                lemma_tally_step(shown, i as int, phase, everyone(), Measure::Jobs);
                lemma_tally_step(shown, i as int, phase, everyone(), Measure::Cpus);
                lemma_tally_step(shown, i as int, phase, everyone(), Measure::Memory);
                lemma_tally_step(shown, i as int, phase, everyone(), Measure::Gpus);
                lemma_tally_bound(shown, i + 1, phase, everyone(), Measure::Jobs);
                lemma_tally_bound(shown, i + 1, phase, everyone(), Measure::Cpus);
                lemma_tally_bound(shown, i + 1, phase, everyone(), Measure::Memory);
                lemma_tally_bound(shown, i + 1, phase, everyone(), Measure::Gpus);
            }
            let gpus: u64 = match job.gpus.checked_sum() {
                Some(n) => n,
                None => {
                    assert(tally(shown, phase, everyone(), Measure::Gpus) > u64::MAX);
                    return false;
                },
            };
            if bucket.jobs == u64::MAX {
                assert(tally(shown, phase, everyone(), Measure::Jobs) > u64::MAX);
                return false;
            }
            if bucket.cpus.checked_add(job.cpus).is_none() {
                assert(tally(shown, phase, everyone(), Measure::Cpus) > u64::MAX);
                return false;
            }
            if bucket.memory.0.checked_add(job.memory.0).is_none() {
                assert(tally(shown, phase, everyone(), Measure::Memory) > u64::MAX);
                return false;
            }
            if bucket.gpus.checked_add(gpus).is_none() {
                assert(tally(shown, phase, everyone(), Measure::Gpus) > u64::MAX);
                return false;
            }
            add_job_bucket(&mut all, phase, job);
        }
        proof {
            lemma_owner_step(before, all, shown, i as int, everyone());
        }
        i += 1;
    }
    assert(shown.take(i as int) =~= shown);
    proof {
        assert forall|phase: Phase, m: Measure| #[trigger] tally(shown, phase, everyone(), m) <= u64::MAX by {
            assert(bucket_is(all.running, shown, Phase::Running, everyone()));
            assert(bucket_is(all.pending, shown, Phase::Pending, everyone()));
        }
    }
    true
}

/// Whether the GPU counts of the cluster fit.
pub fn gpus_in_range(nodes: &[Node], jobs: &[Job]) -> (r: bool)
    ensures
        r == gpus_fit(views(nodes@), views(jobs@)),
{
    let ghost nv = views(nodes@);
    let ghost jv = views(jobs@);
    let ghost (have, used, awaited) = (node_gpus(), node_gpus_used(), job_gpus_awaited());
    let mut total: u64 = 0;
    let mut active: u64 = 0;
    let mut reserved: u64 = 0;
    let mut i: usize = 0;
    while i < nodes.len()
        invariant
            i <= nodes@.len(),
            nv == views(nodes@),
            have == node_gpus(),
            used == node_gpus_used(),
            total == count_all(nv.take(i as int), have),
            active == count_all(nv.take(i as int), used),
        decreases nodes@.len() - i,
    {
        assert(nv[i as int] == nodes@[i as int]@);
        proof {
            lemma_type_bound(nv, i as int, have, seq![]);
            lemma_type_bound(nv, i as int, used, seq![]);
        }
        match add_sum(total, &nodes[i].gpus) {
            Some(n) => {
                total = n;
            },
            None => {
                return false;
            },
        }
        match add_sum(active, &nodes[i].gpus_allocated) {
            Some(n) => {
                active = n;
            },
            None => {
                return false;
            },
        }
        i += 1;
    }
    assert(nv.take(i as int) =~= nv);
    i = 0;
    while i < jobs.len()
        invariant
            i <= jobs@.len(),
            jv == views(jobs@),
            awaited == job_gpus_awaited(),
            reserved == count_all(jv.take(i as int), awaited),
        decreases jobs@.len() - i,
    {
        assert(jv[i as int] == jobs@[i as int]@);
        proof {
            lemma_type_bound(jv, i as int, awaited, seq![]);
        }
        if waits(jobs[i].state.as_str()) {
            match add_sum(reserved, &jobs[i].gpus) {
                Some(n) => {
                    reserved = n;
                },
                None => {
                    return false;
                },
            }
        }
        i += 1;
    }
    assert(jv.take(i as int) =~= jv);
    true
}

/// A number plus the sum of counts, where it fits.
fn add_sum(n: u64, counts: &GpuMap) -> (r: Option<u64>)
    ensures
        match r {
            Some(m) => m == n + count_sum(counts@),
            None => n + count_sum(counts@) > u64::MAX,
        },
{
    match counts.checked_sum() {
        Some(sum) => n.checked_add(sum),
        None => None,
    }
}

/// What an owner's summary says of one phase and measure.
pub open spec fn owner_field(s: OwnerSummary, phase: Phase, m: Measure) -> nat {
    let b = match phase {
        Phase::Running => s.running,
        Phase::Pending => s.pending,
    };
    match m {
        Measure::Jobs => b.jobs as nat,
        Measure::Cpus => b.cpus as nat,
        Measure::Memory => b.memory.0 as nat,
        Measure::Gpus => b.gpus as nat,
    }
}

proof fn lemma_sum_same<T>(rows: Seq<T>, f: spec_fn(T) -> nat, g: spec_fn(T) -> nat)
    requires
        forall|i: int| 0 <= i < rows.len() ==> f(#[trigger] rows[i]) == g(rows[i]),
    ensures
        sum_of(rows, f) == sum_of(rows, g),
    decreases rows.len(),
{
    if rows.len() > 0 {
        let fewer = rows.drop_last();
        assert forall|i: int| 0 <= i < fewer.len() implies f(#[trigger] fewer[i]) == g(fewer[i]) by {
            assert(fewer[i] == rows[i]);
        }
        lemma_sum_same(fewer, f, g);
        assert(f(rows[rows.len() - 1]) == g(rows[rows.len() - 1]));
    }
}

/// Of entries with distinct keys, a sum that counts only one key counts it once.
proof fn lemma_sum_single<V>(
    entries: Seq<(Seq<char>, V)>,
    key: Seq<char>,
    amount: nat,
    f: spec_fn((Seq<char>, V)) -> nat,
)
    requires
        ascending(entries),
        forall|e: (Seq<char>, V)| #[trigger] f(e) == if e.0 == key { amount } else { 0 },
    ensures
        sum_of(entries, f) == if lookup(entries, key) is Some { amount } else { 0 },
    decreases entries.len(),
{
    if entries.len() > 0 {
        let n = entries.len() - 1;
        let fewer = entries.drop_last();
        assert(ascending(fewer)) by {
            assert forall|i: int, j: int| 0 <= i < j < fewer.len() implies text_before(
                #[trigger] fewer[i].0,
                #[trigger] fewer[j].0,
            ) by {
                assert(fewer[i] == entries[i] && fewer[j] == entries[j]);
            }
        }
        lemma_sum_single(fewer, key, amount, f);
        let i = lemma_lookup_position(fewer, key);
        let j = lemma_lookup_position(entries, key);
        if lookup(fewer, key) is Some {
            assert(entries[i] == fewer[i]);
            lemma_lookup_at(entries, i);
            assert(text_before(entries[i].0, entries[n].0));
            lemma_text_before_total(key, key);
        } else if entries[n].0 == key {
            lemma_lookup_at(entries, n);
        } else if lookup(entries, key) is Some {
            assert(fewer[j] == entries[j]);
            lemma_lookup_at(fewer, j);
        }
        assert(f(entries[n]) == if entries[n].0 == key { amount } else { 0 });
    }
}

proof fn lemma_users_cover(
    users: Seq<(Seq<char>, OwnerSummary)>,
    jobs: Seq<JobView>,
    phase: Phase,
    m: Measure,
)
    requires
        ascending(users),
        forall|u: Seq<char>| has_jobs(jobs, u) ==> (#[trigger] lookup(users, u)) is Some,
    ensures
        sum_of(users, |e: (Seq<char>, OwnerSummary)| tally(jobs, phase, only(e.0), m)) == tally(
            jobs,
            phase,
            everyone(),
            m,
        ),
    decreases jobs.len(),
{
    let whole = |e: (Seq<char>, OwnerSummary)| tally(jobs, phase, only(e.0), m);
    if jobs.len() == 0 {
        let zero = |e: (Seq<char>, OwnerSummary)| 0nat;
        lemma_sum_same(users, whole, zero);
        lemma_sum_single(users, seq![], 0, zero);
    } else {
        let n = jobs.len() - 1;
        let fewer = jobs.drop_last();
        let last = jobs[n];
        assert(jobs.take(n) =~= fewer);
        assert(jobs.take(n + 1) =~= jobs);
        assert forall|u: Seq<char>| has_jobs(fewer, u) implies (#[trigger] lookup(users, u)) is Some by {
            lemma_has_jobs_step(jobs, n, u);
        }
        lemma_users_cover(users, fewer, phase, m);
        let before = |e: (Seq<char>, OwnerSummary)| tally(fewer, phase, only(e.0), m);
        let step = |e: (Seq<char>, OwnerSummary)| share(phase, only(e.0), m)(last);
        assert forall|e: (Seq<char>, OwnerSummary)| #[trigger] whole(e) == before(e) + step(e) by {
            lemma_tally_step(jobs, n, phase, only(e.0), m);
        }
        lemma_sum_parts(users, whole, before, step);
        let amount = share(phase, everyone(), m)(last);
        lemma_sum_single(users, last.user, amount, step);
        if phase_of(last.state) is Some {
            lemma_has_jobs_step(jobs, n, last.user);
            assert(lookup(users, last.user) is Some);
        }
        lemma_tally_step(jobs, n, phase, everyone(), m);
    }
}

/// What all jobs count is the sum of what the jobs of each user count.
pub proof fn law_users_make_all(s: JobSummary, jobs: Seq<JobView>, current_user: Seq<char>, phase: Phase, m: Measure)
    requires
        summary_is(s, jobs, current_user),
    ensures
        owner_field(s.all, phase, m) == sum_of(
            s.users@,
            |e: (Seq<char>, OwnerSummary)| owner_field(e.1, phase, m),
        ),
        owner_field(s.all, phase, m) == owner_field(s.me, phase, m) + owner_field(s.others, phase, m),
{
    let users = s.users@;
    lemma_users_cover(users, jobs, phase, m);
    law_me_and_others_make_all(jobs, current_user, phase, m);
    let f = |e: (Seq<char>, OwnerSummary)| owner_field(e.1, phase, m);
    let g = |e: (Seq<char>, OwnerSummary)| tally(jobs, phase, only(e.0), m);
    assert forall|i: int| 0 <= i < users.len() implies f(#[trigger] users[i]) == g(users[i]) by {
        lemma_lookup_at(users, i);
        assert(owner_is(users[i].1, jobs, only(users[i].0)));
    }
    lemma_sum_same(users, f, g);
}

/// The counts of a map are the sum over types that hold its keys.
proof fn lemma_types_cover_map(types: Seq<(Seq<char>, GpuTypeSummary)>, counts: Seq<(Seq<char>, u64)>)
    requires
        ascending(types),
        ascending(counts),
        forall|k: Seq<char>| (#[trigger] lookup(counts, k)) is Some ==> lookup(types, k) is Some,
    ensures
        sum_of(types, |e: (Seq<char>, GpuTypeSummary)| count_of(counts, e.0)) == count_sum(
            counts,
        ),
    decreases counts.len(),
{
    let whole = |e: (Seq<char>, GpuTypeSummary)| count_of(counts, e.0);
    if counts.len() == 0 {
        lemma_sum_single(types, seq![], 0, whole);
    } else {
        let n = counts.len() - 1;
        let fewer = counts.drop_last();
        assert(counts.take(n) =~= fewer);
        assert(counts.take(n + 1) =~= counts);
        assert(ascending(fewer)) by {
            assert forall|i: int, j: int| 0 <= i < j < fewer.len() implies text_before(
                #[trigger] fewer[i].0,
                #[trigger] fewer[j].0,
            ) by {
                assert(fewer[i] == counts[i] && fewer[j] == counts[j]);
            }
        }
        assert forall|k: Seq<char>| (#[trigger] lookup(fewer, k)) is Some implies lookup(types, k) is Some by {
            lemma_count_step(counts, n, k);
            assert(lookup(counts, k) is Some);
        }
        lemma_types_cover_map(types, fewer);
        let before = |e: (Seq<char>, GpuTypeSummary)| count_of(fewer, e.0);
        let (key, amount) = (counts[n].0, counts[n].1 as nat);
        let step = |e: (Seq<char>, GpuTypeSummary)| if e.0 == key { amount } else { 0 };
        assert forall|e: (Seq<char>, GpuTypeSummary)| #[trigger] whole(e) == before(e) + step(e) by {
            lemma_count_step(counts, n, e.0);
        }
        lemma_sum_parts(types, whole, before, step);
        lemma_sum_single(types, key, amount, step);
        lemma_count_step(counts, n, key);
        assert(lookup(counts, key) is Some);
    }
}

proof fn lemma_types_cover<T>(
    types: Seq<(Seq<char>, GpuTypeSummary)>,
    rows: Seq<T>,
    counts: spec_fn(T) -> Seq<(Seq<char>, u64)>,
)
    requires
        ascending(types),
        forall|i: int| 0 <= i < rows.len() ==> ascending(counts(#[trigger] rows[i])),
        forall|k: Seq<char>| has_type(rows, counts, k) ==> (#[trigger] lookup(types, k)) is Some,
    ensures
        sum_of(types, |e: (Seq<char>, GpuTypeSummary)| count_type(rows, counts, e.0)) == count_all(
            rows,
            counts,
        ),
    decreases rows.len(),
{
    let whole = |e: (Seq<char>, GpuTypeSummary)| count_type(rows, counts, e.0);
    if rows.len() == 0 {
        lemma_sum_single(types, seq![], 0, whole);
    } else {
        let n = rows.len() - 1;
        let fewer = rows.drop_last();
        assert(rows.take(n) =~= fewer);
        assert(rows.take(n + 1) =~= rows);
        assert forall|i: int| 0 <= i < fewer.len() implies ascending(counts(#[trigger] fewer[i])) by {
            assert(fewer[i] == rows[i]);
        }
        assert forall|k: Seq<char>| has_type(fewer, counts, k) implies (#[trigger] lookup(types, k)) is Some by {
            lemma_type_bound(rows, n, counts, k);
        }
        lemma_types_cover(types, fewer, counts);
        let last = counts(rows[n]);
        assert(ascending(last));
        assert forall|k: Seq<char>| (#[trigger] lookup(last, k)) is Some implies lookup(types, k) is Some by {
            lemma_type_bound(rows, n, counts, k);
        }
        lemma_types_cover_map(types, last);
        let before = |e: (Seq<char>, GpuTypeSummary)| count_type(fewer, counts, e.0);
        let step = |e: (Seq<char>, GpuTypeSummary)| count_of(last, e.0);
        assert forall|e: (Seq<char>, GpuTypeSummary)| #[trigger] whole(e) == before(e) + step(e) by {
            lemma_type_bound(rows, n, counts, e.0);
        }
        lemma_sum_parts(types, whole, before, step);
        lemma_type_bound(rows, n, counts, seq![]);
    }
}

/// The GPUs of the cluster are the sum of those of each type: all of them, those in use and those
/// that jobs wait for.
pub proof fn law_types_make_total(g: GpuSummary, nodes: Seq<NodeView>, jobs: Seq<JobView>)
    requires
        gpu_summary_is(g, nodes, jobs),
        forall|i: int|
            0 <= i < nodes.len() ==> ascending((#[trigger] nodes[i]).gpus) && ascending(
                nodes[i].gpus_allocated,
            ),
        forall|i: int| 0 <= i < jobs.len() ==> ascending((#[trigger] jobs[i]).gpus),
    ensures
        g.total == sum_of(g.by_type@, |e: (Seq<char>, GpuTypeSummary)| e.1.total as nat),
        g.active == sum_of(g.by_type@, |e: (Seq<char>, GpuTypeSummary)| e.1.active as nat),
        g.reserved == sum_of(g.by_type@, |e: (Seq<char>, GpuTypeSummary)| e.1.reserved as nat),
{
    let types = g.by_type@;
    assert forall|k: Seq<char>| has_type(nodes, node_gpus(), k) implies (#[trigger] lookup(types, k)) is Some by {}
    assert forall|k: Seq<char>| has_type(nodes, node_gpus_used(), k) implies (#[trigger] lookup(types, k)) is Some by {}
    assert forall|k: Seq<char>| has_type(jobs, job_gpus_awaited(), k) implies (#[trigger] lookup(types, k)) is Some by {}
    assert forall|i: int| 0 <= i < jobs.len() implies ascending(job_gpus_awaited()(#[trigger] jobs[i])) by {}
    lemma_types_cover(types, nodes, node_gpus());
    lemma_types_cover(types, nodes, node_gpus_used());
    lemma_types_cover(types, jobs, job_gpus_awaited());
    assert forall|i: int| 0 <= i < types.len() implies {
        &&& (#[trigger] types[i]).1.total == count_type(nodes, node_gpus(), types[i].0)
        &&& types[i].1.active == count_type(nodes, node_gpus_used(), types[i].0)
        &&& types[i].1.reserved == count_type(jobs, job_gpus_awaited(), types[i].0)
    } by {
        lemma_lookup_at(types, i);
    }
    lemma_sum_same(
        types,
        |e: (Seq<char>, GpuTypeSummary)| e.1.total as nat,
        |e: (Seq<char>, GpuTypeSummary)| count_type(nodes, node_gpus(), e.0),
    );
    lemma_sum_same(
        types,
        |e: (Seq<char>, GpuTypeSummary)| e.1.active as nat,
        |e: (Seq<char>, GpuTypeSummary)| count_type(nodes, node_gpus_used(), e.0),
    );
    lemma_sum_same(
        types,
        |e: (Seq<char>, GpuTypeSummary)| e.1.reserved as nat,
        |e: (Seq<char>, GpuTypeSummary)| count_type(jobs, job_gpus_awaited(), e.0),
    );
}

} // verus!
