//! What the commands are asked, and what becomes of what they answer.

use vstd::prelude::*;

use crate::clock::Span;
use crate::commands::action_text;
use crate::commands::judged;
use crate::commands::sacct_fields;
use crate::commands::sinfo_fields;
use crate::commands::squeue_fields;
use crate::commands::CommandOutput;
use crate::disks::du_rows;
use crate::disks::quota_rows;
use crate::model::views;
use crate::model::AccountingRecord;
use crate::model::DiskInfo;
use crate::model::Job;
use crate::model::Node;
use crate::model::UsageView;
use crate::slurm::assembled;
use crate::slurm::CommandTelemetry;
use crate::slurm::SlurmError;
use crate::slurm::SnapshotEnvelope;
use crate::summary::gpu_summary_is;
use crate::summary::summary_is;
use crate::tables::job_of;
use crate::tables::node_of;
use crate::tables::record_of;
use crate::text::strings;
use crate::text::trim;
use crate::usage::UsageAction;
use crate::usage::UsageEvent;
use crate::usage::UsageSearch;

verus! {

/// `squeue` is asked for its fields in the order in which they are read: identifier, user, state,
/// partition, name, number of nodes, resources, time used, node list, reason and time limit.
pub proof fn law_squeue_is_asked_what_is_read()
    ensures
        squeue_fields().len() == 13,
        job_of(squeue_fields()).id == "%i"@,
        job_of(squeue_fields()).user == "%u"@,
        job_of(squeue_fields()).state == "%T"@,
        job_of(squeue_fields()).partition == "%P"@,
        job_of(squeue_fields()).name == "%j"@,
        job_of(squeue_fields()).nodes == "%D"@,
        squeue_fields()[6] == "%C"@,
        squeue_fields()[7] == "%m"@,
        job_of(squeue_fields()).gres_raw == "%b"@,
        job_of(squeue_fields()).time_used == "%M"@,
        job_of(squeue_fields()).node_list == "%N"@,
        job_of(squeue_fields()).reason == Some("%R"@),
        job_of(squeue_fields()).time_limit == "%l"@,
{
    reveal_strlit("%R");
}

/// `sinfo` and `sacct` are asked for their fields in the order in which they are read.
pub proof fn law_other_commands_are_asked_what_is_read()
    ensures
        sinfo_fields().len() == 9,
        node_of(sinfo_fields()).name == "NodeHost"@,
        node_of(sinfo_fields()).state == "StateCompact"@,
        sinfo_fields()[2] == "CPUs"@,
        sinfo_fields()[3] == "CPUsState"@,
        sinfo_fields()[4] == "Memory"@,
        sinfo_fields()[5] == "FreeMem"@,
        node_of(sinfo_fields()).gres_raw == "Gres"@,
        node_of(sinfo_fields()).reason == Some("Reason"@),
        sinfo_fields()[8] == "GresUsed"@,
        sacct_fields().len() == 10,
        record_of(sacct_fields()).job_id == "JobIDRaw"@,
        record_of(sacct_fields()).user == "User"@,
        record_of(sacct_fields()).state == "State"@,
        record_of(sacct_fields()).partition == "Partition"@,
        record_of(sacct_fields()).name == "JobName"@,
        sacct_fields()[5] == "AllocCPUS"@,
        sacct_fields()[6] == "ReqMem"@,
        record_of(sacct_fields()).elapsed == "Elapsed"@,
        record_of(sacct_fields()).start == "Start"@,
        record_of(sacct_fields()).end == "End"@,
{
    reveal_strlit("Reason");
}

/// A command that succeeds gives what it printed, without a warning. One that fails is an error with
/// its exit code and what it said, unless it may fail; then it gives what it printed, and what it said
/// is a warning where it said anything.
pub proof fn law_command_is_judged(
    r: Result<CommandOutput, SlurmError>,
    command: Seq<char>,
    success: bool,
    exit_code: Option<i32>,
    stdout: Seq<char>,
    stderr: Seq<char>,
    allow_failure: bool,
    elapsed: Span,
)
    requires
        judged(r, command, success, exit_code, stdout, stderr, allow_failure, elapsed),
    ensures
        success || allow_failure ==> r is Ok && r->Ok_0.stdout@ == stdout && r->Ok_0.telemetry.command@
            == command && r->Ok_0.telemetry.elapsed == elapsed,
        success ==> r->Ok_0.telemetry.warnings@.len() == 0,
        !success && allow_failure && trim(stderr).len() == 0 ==> r->Ok_0.telemetry.warnings@.len() == 0,
        !success && allow_failure && trim(stderr).len() > 0 ==> r->Ok_0.telemetry.warnings@.len() == 1
            && r->Ok_0.telemetry.warnings@[0]@ == trim(stderr),
        !success && !allow_failure ==> (r matches Err(SlurmError::CommandFailed {
            command: c,
            exit_code: code,
            stderr: said,
        }) && c@ == command && code == exit_code && said@ == trim(stderr)),
{
    if let Ok(out) = r {
        let shown = strings(out.telemetry.warnings@);
        assert(shown.len() == out.telemetry.warnings@.len());
        if shown.len() > 0 {
            assert(shown[0] == out.telemetry.warnings@[0]@);
        }
    }
}

/// What an action says is what its command printed, and where it printed nothing, that the command
/// completed.
pub proof fn law_action_says(stdout: Seq<char>, command: Seq<char>)
    ensures
        trim(stdout).len() > 0 ==> action_text(stdout, command) == trim(stdout),
        trim(stdout).len() == 0 ==> action_text(stdout, command) == command + " completed"@,
{
}

/// A snapshot needs the jobs and the nodes: without them the refresh fails with their error, that of the
/// jobs first. It holds the rows that were reported, and the warnings of every command. Without
/// accounting it holds no records and one more warning.
pub proof fn law_refresh(
    r: Result<SnapshotEnvelope, SlurmError>,
    jobs: Result<(Vec<Job>, CommandTelemetry), SlurmError>,
    nodes: Result<(Vec<Node>, CommandTelemetry), SlurmError>,
    accounting: Result<(Vec<AccountingRecord>, CommandTelemetry), SlurmError>,
    disks: Vec<DiskInfo>,
    user: Seq<char>,
    elapsed: Span,
)
    requires
        assembled(r, jobs, nodes, accounting, disks, user, elapsed),
    ensures
        r is Ok <==> jobs is Ok && nodes is Ok,
        jobs is Err ==> r->Err_0 == jobs->Err_0,
        jobs is Ok && nodes is Err ==> r->Err_0 == nodes->Err_0,
        r is Ok ==> {
            let s = r->Ok_0.snapshot;
            &&& s.jobs == jobs->Ok_0.0
            &&& s.nodes == nodes->Ok_0.0
            &&& s.disk_info == disks
            &&& accounting is Ok ==> s.accounting@ == accounting->Ok_0.0@
            &&& accounting is Err ==> s.accounting@.len() == 0
            &&& accounting is Ok ==> strings(s.warnings@) == strings(jobs->Ok_0.1.warnings@) + strings(
                nodes->Ok_0.1.warnings@,
            ) + strings(accounting->Ok_0.1.warnings@)
            &&& accounting is Err ==> strings(s.warnings@) == strings(jobs->Ok_0.1.warnings@) + strings(
                nodes->Ok_0.1.warnings@,
            ) + seq!["sacct unavailable: "@ + accounting->Err_0.words()]
            &&& summary_is(s.job_summary, views(s.jobs@), user)
            &&& gpu_summary_is(s.gpu_summary, views(s.nodes@), views(s.jobs@))
            &&& r->Ok_0.telemetry.elapsed == elapsed
        },
{
}

/// Whether rows say that something is held.
pub open spec fn tells(rows: Seq<UsageView>) -> bool {
    exists|i: int| 0 <= i < rows.len() && ((#[trigger] rows[i]).bytes > 0 || rows[i].entries > 0)
}

/// Whether an action ends a search with these rows.
pub open spec fn ends_with(action: UsageAction, rows: Seq<UsageView>) -> bool {
    action matches UsageAction::Finish(Ok(list)) && views(list@) == rows
}

/// The disk usage of a user is searched for by the quota first, then in the directories of the user in
/// their order, and then by a walk; the first of them that says that something is held ends the search.
pub proof fn law_usage_search(pre: UsageSearch, post: UsageSearch, event: UsageEvent, action: UsageAction)
    requires
        pre.wf(),
        pre.stepped(post, event, action),
    ensures
        event is Begin ==> action is RunQuota,
        event matches UsageEvent::Quota(None) ==> action is FindPaths,
        event matches UsageEvent::Quota(Some(text)) ==> {
            let rows = quota_rows(text@, pre.user@);
            if tells(rows) {
                ends_with(action, rows)
            } else {
                action is FindPaths
            }
        },
        event matches UsageEvent::Paths(paths) ==> {
            &&& paths@.len() == 0 ==> action is RunScan
            &&& paths@.len() > 0 ==> (action matches UsageAction::RunDirectory(p) && p@ == paths@[0]@)
        },
        event matches UsageEvent::Directory(text) ==> {
            let rows = du_rows(text@, pre.user@);
            &&& tells(rows) ==> ends_with(action, rows)
            &&& !tells(rows) && pre.next_path < pre.paths@.len() ==> (action matches UsageAction::RunDirectory(
                p,
            ) && p@ == pre.paths@[pre.next_path as int]@ && post.next_path == pre.next_path + 1)
            &&& !tells(rows) && pre.next_path == pre.paths@.len() ==> action is RunScan
        },
        event is DirectoryFailed && pre.next_path < pre.paths@.len() ==> (action matches UsageAction::RunDirectory(
            p,
        ) && p@ == pre.paths@[pre.next_path as int]@ && post.next_path == pre.next_path + 1),
        event is DirectoryFailed && pre.next_path == pre.paths@.len() ==> action is RunScan,
        event is DirectoryTimedOut ==> (action matches UsageAction::Finish(Err(_))),
        event matches UsageEvent::Scan(Ok(rows)) ==> action == UsageAction::Finish(Ok(rows)),
        event matches UsageEvent::Scan(Err(_)) ==> (action matches UsageAction::Finish(Err(_))),
{
    let shown = strings(pre.paths@);
    assert(shown.len() == pre.paths@.len());
    if pre.next_path < pre.paths@.len() {
        assert(shown[pre.next_path as int] == pre.paths@[pre.next_path as int]@);
    }
    if let UsageEvent::Paths(paths) = event {
        let given = strings(paths@);
        assert(given.len() == paths@.len());
        if paths@.len() > 0 {
            assert(given[0] == paths@[0]@);
        }
    }
}

} // verus!
