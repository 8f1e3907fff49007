//! A snapshot of the cluster.

use vstd::prelude::*;

use crate::clock::longest_span;
use crate::clock::read_clock;
use crate::clock::span_between;
use crate::clock::Span;
use crate::clock::Timestamp;
use crate::model::views;
use crate::model::AccountingRecord;
use crate::model::DiskInfo;
use crate::model::Job;
use crate::model::Node;
use crate::summary::gpu_summary_is;
use crate::summary::gpus_fit;
use crate::summary::summarize_gpus;
use crate::summary::summarize_jobs;
use crate::summary::summary_is;
use crate::summary::tallies_fit;
use crate::summary::GpuSummary;
use crate::summary::JobSummary;

verus! {

/// The jobs, nodes, records and disks of the cluster at one time, with their summaries.
#[derive(Debug)]
pub struct ClusterSnapshot {
    pub captured_at: Timestamp,
    pub jobs: Vec<Job>,
    pub nodes: Vec<Node>,
    pub accounting: Vec<AccountingRecord>,
    pub disk_info: Vec<DiskInfo>,
    pub job_summary: JobSummary,
    pub gpu_summary: GpuSummary,
    pub warnings: Vec<String>,
}

impl ClusterSnapshot {
    /// Whether the summaries are those of the jobs and nodes.
    pub open spec fn summarized(self, current_user: Seq<char>) -> bool {
        &&& summary_is(self.job_summary, views(self.jobs@), current_user)
        &&& gpu_summary_is(self.gpu_summary, views(self.nodes@), views(self.jobs@))
    }

    /// A snapshot taken now.
    #[must_use]
    pub fn new(
        jobs: Vec<Job>,
        nodes: Vec<Node>,
        accounting: Vec<AccountingRecord>,
        disk_info: Vec<DiskInfo>,
        current_user: &str,
        warnings: Vec<String>,
    ) -> (r: Self)
        requires
            tallies_fit(views(jobs@)),
            gpus_fit(views(nodes@), views(jobs@)),
        ensures
            r.jobs == jobs,
            r.nodes == nodes,
            r.accounting == accounting,
            r.disk_info == disk_info,
            r.warnings == warnings,
            r.summarized(current_user@),
    {
        let now = read_clock();
        ClusterSnapshot::captured(jobs, nodes, accounting, disk_info, current_user, warnings, now)
    }

    /// A snapshot taken at the given time.
    #[must_use]
    pub fn captured(
        jobs: Vec<Job>,
        nodes: Vec<Node>,
        accounting: Vec<AccountingRecord>,
        disk_info: Vec<DiskInfo>,
        current_user: &str,
        warnings: Vec<String>,
        captured_at: Timestamp,
    ) -> (r: Self)
        requires
            tallies_fit(views(jobs@)),
            gpus_fit(views(nodes@), views(jobs@)),
        ensures
            r.captured_at == captured_at,
            r.jobs == jobs,
            r.nodes == nodes,
            r.accounting == accounting,
            r.disk_info == disk_info,
            r.warnings == warnings,
            r.summarized(current_user@),
    {
        let job_summary = summarize_jobs(jobs.as_slice(), current_user);
        let gpu_summary = summarize_gpus(nodes.as_slice(), jobs.as_slice());
        ClusterSnapshot {
            captured_at,
            jobs,
            nodes,
            accounting,
            disk_info,
            job_summary,
            gpu_summary,
            warnings,
        }
    }
}

/// Whether `age` is the span from `taken` to `now`, or nothing where `now` is the earlier one or the
/// span is too long to hold.
pub open spec fn age_is(age: Option<Span>, taken: Timestamp, now: Timestamp) -> bool {
    match age {
        Some(span) => span.wf() && span.length() == now.since_epoch() - taken.since_epoch(),
        None => now.since_epoch() < taken.since_epoch() || now.since_epoch() - taken.since_epoch()
            > longest_span(),
    }
}

/// How long ago a snapshot was taken, at the given time; nothing where that time is before it.
#[must_use]
pub fn age_at(snapshot: &ClusterSnapshot, now: Timestamp) -> (r: Option<Span>)
    ensures
        age_is(r, snapshot.captured_at, now),
{
    span_between(snapshot.captured_at, now)
}

/// How long ago a snapshot was taken; nothing where the clock now stands before it.
#[must_use]
pub fn snapshot_age(snapshot: &ClusterSnapshot) -> (r: Option<Span>)
    ensures
        exists|now: Timestamp| #[trigger] age_is(r, snapshot.captured_at, now),
{
    let now = read_clock();
    age_at(snapshot, now)
}

} // verus!
