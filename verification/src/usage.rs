//! Finding out how much of a disk a user holds.

use vstd::prelude::*;

use crate::amount::sat_add;
use crate::clock::Span;
use crate::disks::count_entry;
use crate::disks::du_rows;
use crate::disks::one_row;
use crate::disks::parse_du_user_usage;
use crate::disks::parse_lfs_quota_user_usage;
use crate::disks::quota_rows;
use crate::disks::share_of;
use crate::disks::usage_row;
use crate::disks::with_entry;
use crate::disks::Share;
use crate::model::views;
use crate::model::DiskUserUsage;
use crate::model::UsageView;
use crate::number::at_most;
use crate::number::decimal;
use crate::number::parse_64;
use crate::number::read_64;
use crate::number::show;
use crate::slurm::DiskUsageProgress;
use crate::slurm::DiskUsageProgressStage;
use crate::slurm::SlurmError;
use crate::summary::rest_of;
use crate::text::begins;
use crate::text::is_text;
use crate::text::starts_with;
use crate::text::strings;
use crate::text::strip;
use crate::text::to_chars;
use crate::text::trim;
use vstd::slice::slice_subrange;

verus! {

/// Whether some row says that something is held.
pub open spec fn informative(rows: Seq<UsageView>) -> bool {
    exists|i: int| 0 <= i < rows.len() && ((#[trigger] rows[i]).bytes > 0 || rows[i].entries > 0)
}

/// Whether some row says that something is held.
pub fn has_informative_usage(rows: &[DiskUserUsage]) -> (r: bool)
    ensures
        r == informative(views(rows@)),
{
    let ghost shown = views(rows@);
    let mut i: usize = 0;
    while i < rows.len()
        invariant
            i <= rows@.len(),
            shown == views(rows@),
            forall|k: int| 0 <= k < i ==> (#[trigger] shown[k]).bytes == 0 && shown[k].entries == 0,
        decreases rows@.len() - i,
    {
        assert(shown[i as int] == rows@[i as int]@);
        if rows[i].bytes > 0 || rows[i].entries > 0 {
            return true;
        }
        i += 1;
    }
    false
}

/// What is said of a scan that took too long.
pub open spec fn timeout_text(secs: u64) -> Seq<char> {
    "Usage scan timed out after "@ + decimal(secs as nat)
        + "s. This filesystem is too large to scan directly, and no quick user directory result was available."@
}

/// The error of a scan that took too long.
pub fn disk_scan_timeout(timeout: Span) -> (r: SlurmError)
    ensures
        r is Other,
        r->Other_0@ == timeout_text(timeout.secs),
{
    let mut text = "Usage scan timed out after ".to_string();
    text.append(show(timeout.secs).as_str());
    text.append(
        "s. This filesystem is too large to scan directly, and no quick user directory result was available.",
    );
    SlurmError::Other(text)
}

/// How long the quota command may run.
pub fn quota_timeout() -> (r: Span)
    ensures
        r == (Span { secs: 3, nanos: 0 }),
{
    Span { secs: 3, nanos: 0 }
}

/// Whether `told` is what is told of an error of a scan: without the command, which ran in the
/// background.
pub open spec fn told_as(error: SlurmError, told: SlurmError) -> bool {
    match error {
        SlurmError::Io { source, .. } => told is Other && told->Other_0@
            == "Usage scan could not start: "@ + source@
            + ". The command details are hidden because this is a background scan."@,
        SlurmError::CommandFailed { stderr, .. } => told is Other && told->Other_0@ == if stderr@.len()
            > 0 {
            stderr@
        } else {
            "Usage scan failed before producing a result."@
        },
        _ => told == error,
    }
}

/// What is told of an error of a scan.
pub fn disk_scan_error(error: SlurmError) -> (r: SlurmError)
    ensures
        told_as(error, r),
{
    match error {
        SlurmError::Io { source, .. } => {
            let mut text = "Usage scan could not start: ".to_string();
            text.append(source.as_str());
            text.append(". The command details are hidden because this is a background scan.");
            SlurmError::Other(text)
        },
        SlurmError::CommandFailed { stderr, .. } => {
            if stderr.as_str().is_empty() {
                SlurmError::Other("Usage scan failed before producing a result.".to_string())
            } else {
                SlurmError::Other(stderr)
            }
        },
        other => other,
    }
}

/// What a search for the usage of a disk has to do next.
#[derive(Debug)]
pub enum UsageAction {
    /// Ask for the quota.
    RunQuota,
    /// Find the directories of the user.
    FindPaths,
    /// Add up a directory.
    RunDirectory(String),
    /// Walk the whole disk.
    RunScan,
    /// Report.
    Finish(Result<Vec<DiskUserUsage>, SlurmError>),
}

/// What a search for the usage of a disk is told.
#[derive(Debug)]
pub enum UsageEvent {
    /// It begins.
    Begin,
    /// The quota command printed this, or failed.
    Quota(Option<String>),
    /// These are the directories of the user.
    Paths(Vec<String>),
    /// The directory command printed this.
    Directory(String),
    /// The directory command took too long.
    DirectoryTimedOut(Span),
    /// The directory command failed.
    DirectoryFailed,
    /// The walk came to this.
    Scan(Result<Vec<DiskUserUsage>, SlurmError>),
}

/// A search for the usage of a disk: by quota, then by the directories of the user, then by a walk.
#[derive(Debug)]
pub struct UsageSearch {
    pub user: String,
    pub paths: Vec<String>,
    pub next_path: usize,
}

/// Whether the action reports these rows.
pub open spec fn reports(action: UsageAction, rows: Seq<UsageView>) -> bool {
    action matches UsageAction::Finish(Ok(list)) && views(list@) == rows
}

impl UsageSearch {
    /// Whether the next directory is one of the list or its end.
    pub open spec fn wf(self) -> bool {
        self.next_path <= self.paths@.len()
    }

    /// The search of a user.
    pub fn new(user: &str) -> (r: Self)
        ensures
            r.wf(),
            r.user@ == user@,
            r.paths@.len() == 0,
            r.next_path == 0,
    {
        UsageSearch { user: user.to_string(), paths: Vec::new(), next_path: 0 }
    }

    /// Whether the search goes on from the directory at `at`: it is added up, or without one the
    /// disk is walked.
    pub open spec fn goes_on(self, action: UsageAction, paths: Seq<Seq<char>>, at: int) -> bool {
        if at < paths.len() {
            &&& action matches UsageAction::RunDirectory(p) && p@ == paths[at]
            &&& strings(self.paths@) == paths
            &&& self.next_path == at + 1
        } else {
            &&& action is RunScan
            &&& strings(self.paths@) == paths
            &&& self.next_path == at
        }
    }

    /// Goes on with the next directory, or with the walk.
    fn go_on(&mut self) -> (r: UsageAction)
        requires
            old(self).wf(),
        ensures
            final(self).wf(),
            final(self).user == old(self).user,
            final(self).goes_on(r, strings(old(self).paths@), old(self).next_path as int),
    {
        if self.next_path < self.paths.len() {
            let path = self.paths[self.next_path].clone();
            self.next_path = self.next_path + 1;
            UsageAction::RunDirectory(path)
        } else {
            UsageAction::RunScan
        }
    }

    /// Whether an action is what to do next after an event, and `post` the search after it.
    pub open spec fn stepped(self, post: UsageSearch, event: UsageEvent, action: UsageAction) -> bool {
        match event {
            UsageEvent::Begin => action is RunQuota && post == self,
            UsageEvent::Quota(Some(text)) => {
                let rows = quota_rows(text@, self.user@);
                post == self && if informative(rows) {
                    reports(action, rows)
                } else {
                    action is FindPaths
                }
            },
            UsageEvent::Quota(None) => action is FindPaths && post == self,
            UsageEvent::Paths(paths) => post.goes_on(action, strings(paths@), 0),
            UsageEvent::Directory(text) => {
                let rows = du_rows(text@, self.user@);
                if informative(rows) {
                    reports(action, rows) && post == self
                } else {
                    post.goes_on(action, strings(self.paths@), self.next_path as int)
                }
            },
            UsageEvent::DirectoryTimedOut(timeout) => {
                &&& post == self
                &&& action matches UsageAction::Finish(Err(e)) && e is Other && e->Other_0@
                    == timeout_text(timeout.secs)
            },
            UsageEvent::DirectoryFailed => post.goes_on(
                action,
                strings(self.paths@),
                self.next_path as int,
            ),
            UsageEvent::Scan(Ok(rows)) => post == self && action == UsageAction::Finish(
                Ok(rows),
            ),
            UsageEvent::Scan(Err(error)) => {
                &&& post == self
                &&& action matches UsageAction::Finish(Err(e)) && told_as(error, e)
            },
        }
    }

    /// What to do next, after an event.
    pub fn step(&mut self, event: UsageEvent) -> (r: UsageAction)
        requires
            old(self).wf(),
        ensures
            final(self).wf(),
            final(self).user == old(self).user,
            old(self).stepped(*final(self), event, r),
    {
        match event {
            UsageEvent::Begin => UsageAction::RunQuota,
            UsageEvent::Quota(Some(text)) => {
                let rows = parse_lfs_quota_user_usage(text.as_str(), self.user.as_str());
                if has_informative_usage(rows.as_slice()) {
                    UsageAction::Finish(Ok(rows))
                } else {
                    UsageAction::FindPaths
                }
            },
            UsageEvent::Quota(None) => UsageAction::FindPaths,
            UsageEvent::Paths(paths) => {
                self.paths = paths;
                self.next_path = 0;
                self.go_on()
            },
            UsageEvent::Directory(text) => {
                let rows = parse_du_user_usage(text.as_str(), self.user.as_str());
                if has_informative_usage(rows.as_slice()) {
                    UsageAction::Finish(Ok(rows))
                } else {
                    self.go_on()
                }
            },
            UsageEvent::DirectoryTimedOut(timeout) => UsageAction::Finish(
                Err(disk_scan_timeout(timeout)),
            ),
            UsageEvent::DirectoryFailed => self.go_on(),
            UsageEvent::Scan(Ok(rows)) => UsageAction::Finish(Ok(rows)),
            UsageEvent::Scan(Err(error)) => UsageAction::Finish(Err(disk_scan_error(error))),
        }
    }
}

/// The stage that an action begins, where it begins one.
pub open spec fn stage_begun(action: UsageAction) -> Option<DiskUsageProgressStage> {
    match action {
        UsageAction::RunQuota => Some(DiskUsageProgressStage::Quota),
        UsageAction::RunDirectory(_) => Some(DiskUsageProgressStage::UserDirectory),
        UsageAction::RunScan => Some(DiskUsageProgressStage::Traversal),
        _ => None,
    }
}

/// What is reported when an action begins.
pub fn stage_progress(action: &UsageAction) -> (r: Option<DiskUsageProgress>)
    ensures
        r == match stage_begun(*action) {
            Some(stage) => Some(
                DiskUsageProgress { stage, scanned_entries: 0, matched_entries: 0, bytes: 0 },
            ),
            None => None,
        },
{
    let stage = match action {
        UsageAction::RunQuota => DiskUsageProgressStage::Quota,
        UsageAction::RunDirectory(_) => DiskUsageProgressStage::UserDirectory,
        UsageAction::RunScan => DiskUsageProgressStage::Traversal,
        _ => {
            return None;
        },
    };
    Some(DiskUsageProgress { stage, scanned_entries: 0, matched_entries: 0, bytes: 0 })
}

/// A walk of a disk: what it found, and what of it has been reported.
#[derive(Debug, Clone, Copy, PartialEq, Eq, Structural)]
pub struct ScanState {
    pub share: Share,
    pub scanned: u64,
    pub reported_scanned: u64,
    pub reported_matched: u64,
}

/// A walk that begins.
pub open spec fn scan_start() -> ScanState {
    ScanState {
        share: Share { bytes: 0, entries: 0 },
        scanned: 0,
        reported_scanned: 0,
        reported_matched: 0,
    }
}

/// What a line of a walk says.
pub enum ScanLine {
    /// An entry was seen.
    Seen,
    /// An entry of the user has so many blocks.
    Owned(nat),
    /// Nothing.
    Other,
}

/// What a line of a walk says.
pub open spec fn scan_line(raw: Seq<char>) -> ScanLine {
    let line = trim(raw);
    if line == "s"@ {
        ScanLine::Seen
    } else if starts_with(line, "u"@) {
        match parse_64(line.skip(1)) {
            Some(blocks) => ScanLine::Owned(blocks),
            None => ScanLine::Other,
        }
    } else {
        ScanLine::Other
    }
}

/// Whether a report is due: after the first entry, after 1024 entries, and after half a second.
pub open spec fn report_due(scanned: u64, reported: u64, since: Span) -> bool {
    scanned == 1 || rest_of(scanned as nat, reported as nat) >= 1024 || since.length() >= 500_000_000
}

/// Whether a report is due.
pub fn should_emit_disk_usage_progress(scanned_entries: u64, last_progress_scanned_entries: u64, since: Span) -> (r:
    bool)
    ensures
        r == report_due(scanned_entries, last_progress_scanned_entries, since),
{
    scanned_entries == 1 || scanned_entries.saturating_sub(last_progress_scanned_entries) >= 1024
        || since.secs as u128 * 1_000_000_000 + since.nanos as u128 >= 500_000_000
}

impl ScanState {
    /// The walk with all of it reported.
    pub open spec fn all_reported(self) -> ScanState {
        ScanState {
            reported_scanned: self.scanned,
            reported_matched: self.share.entries,
            ..self
        }
    }

    /// What is reported of the walk.
    pub open spec fn report(self) -> DiskUsageProgress {
        DiskUsageProgress {
            stage: DiskUsageProgressStage::Traversal,
            scanned_entries: self.scanned,
            matched_entries: self.share.entries,
            bytes: self.share.bytes,
        }
    }

    /// The walk after a line, and whether a report is due; `since` is the time since the last one.
    pub open spec fn after_line(self, raw: Seq<char>, since: Span) -> (ScanState, bool) {
        match scan_line(raw) {
            ScanLine::Seen => {
                let next = ScanState { scanned: sat_add(self.scanned as nat, 1) as u64, ..self };
                let due = report_due(next.scanned, self.reported_scanned, since);
                (
                    if due {
                        next.all_reported()
                    } else {
                        next
                    },
                    due,
                )
            },
            ScanLine::Owned(blocks) => {
                let next = ScanState { share: with_entry(self.share, blocks), ..self };
                let due = next.share.entries == 1 || rest_of(
                    next.share.entries as nat,
                    self.reported_matched as nat,
                ) >= 256 || report_due(self.scanned, self.reported_scanned, since);
                (
                    if due {
                        next.all_reported()
                    } else {
                        next
                    },
                    due,
                )
            },
            ScanLine::Other => (self, false),
        }
    }

    /// Whether something was found since the last report.
    pub open spec fn has_news(self) -> bool {
        self.scanned > self.reported_scanned || self.share.entries > self.reported_matched
    }

    /// A walk that begins.
    pub fn new() -> (r: Self)
        ensures
            r == scan_start(),
    {
        ScanState {
            share: Share { bytes: 0, entries: 0 },
            scanned: 0,
            reported_scanned: 0,
            reported_matched: 0,
        }
    }

    /// What is reported of the walk.
    fn progress(&self) -> (r: DiskUsageProgress)
        ensures
            r == self.report(),
    {
        DiskUsageProgress {
            stage: DiskUsageProgressStage::Traversal,
            scanned_entries: self.scanned,
            matched_entries: self.share.entries,
            bytes: self.share.bytes,
        }
    }

    /// Takes a line in, and reports where that is due.
    pub fn take_line(&mut self, line: &str, since: Span) -> (r: Option<DiskUsageProgress>)
        ensures
            *final(self) == old(self).after_line(line@, since).0,
            r == if old(self).after_line(line@, since).1 {
                Some(final(self).report())
            } else {
                None
            },
    {
        let chars = to_chars(line);
        let line = strip(chars.as_slice());
        let mut due: bool = false;
        proof {
            reveal_strlit("u");
        }
        if is_text(line, "s") {
            self.scanned = self.scanned.saturating_add(1);
            due = should_emit_disk_usage_progress(self.scanned, self.reported_scanned, since);
        } else if begins(line, "u") {
            let rest = slice_subrange(line, 1, line.len());
            assert(rest@ =~= line@.skip(1));
            if let Some(blocks) = read_64(rest) {
                self.share = count_entry(self.share, blocks);
                due = self.share.entries == 1 || self.share.entries.saturating_sub(
                    self.reported_matched,
                ) >= 256 || should_emit_disk_usage_progress(
                    self.scanned,
                    self.reported_scanned,
                    since,
                );
            }
        }
        if due {
            self.reported_scanned = self.scanned;
            self.reported_matched = self.share.entries;
            Some(self.progress())
        } else {
            None
        }
    }

    /// What is reported at the end: what was found since the last report, where there is any.
    pub fn last_report(&self) -> (r: Option<DiskUsageProgress>)
        ensures
            r == if self.has_news() {
                Some(self.report())
            } else {
                None
            },
    {
        if self.scanned > self.reported_scanned || self.share.entries > self.reported_matched {
            Some(self.progress())
        } else {
            None
        }
    }

    /// The result of the walk.
    pub fn rows(&self, user: &str) -> (r: Vec<DiskUserUsage>)
        ensures
            views(r@) == one_row(user@, self.share),
    {
        usage_row(user, self.share)
    }
}

/// A walk after lines, each with the time since the last report.
pub open spec fn scan_all(lines: Seq<(Seq<char>, Span)>) -> ScanState
    decreases lines.len(),
{
    if lines.len() == 0 {
        scan_start()
    } else {
        scan_all(lines.drop_last()).after_line(lines.last().0, lines.last().1).0
    }
}

/// How many lines say that an entry was seen.
pub open spec fn seen_count(lines: Seq<(Seq<char>, Span)>) -> nat
    decreases lines.len(),
{
    if lines.len() == 0 {
        0
    } else {
        seen_count(lines.drop_last()) + if scan_line(lines.last().0) is Seen {
            1nat
        } else {
            0
        }
    }
}

/// The blocks of the entries of the user.
pub open spec fn owned(lines: Seq<(Seq<char>, Span)>) -> Seq<nat>
    decreases lines.len(),
{
    if lines.len() == 0 {
        seq![]
    } else {
        match scan_line(lines.last().0) {
            ScanLine::Owned(blocks) => owned(lines.drop_last()).push(blocks),
            _ => owned(lines.drop_last()),
        }
    }
}

/// A walk counts every line, whenever reports fall due: the entries seen, and the blocks and entries
/// of the user.
pub proof fn law_scan_counts_every_line(lines: Seq<(Seq<char>, Span)>)
    ensures
        scan_all(lines).share == share_of(owned(lines)),
        scan_all(lines).scanned == at_most(seen_count(lines), u64::MAX as nat),
    decreases lines.len(),
{
    if lines.len() > 0 {
        law_scan_counts_every_line(lines.drop_last());
        if scan_line(lines.last().0) is Owned {
            assert(owned(lines).drop_last() =~= owned(lines.drop_last()));
        }
    }
}

proof fn lemma_reported_bounds(lines: Seq<(Seq<char>, Span)>)
    ensures
        scan_all(lines).reported_scanned <= scan_all(lines).scanned,
        scan_all(lines).reported_matched <= scan_all(lines).share.entries,
    decreases lines.len(),
{
    if lines.len() > 0 {
        lemma_reported_bounds(lines.drop_last());
    }
}

/// At the end of a walk nothing stays unreported: without a last report, what was reported before is
/// all that was found.
pub proof fn law_nothing_unreported(lines: Seq<(Seq<char>, Span)>)
    ensures
        !scan_all(lines).has_news() ==> {
            &&& scan_all(lines).reported_scanned == scan_all(lines).scanned
            &&& scan_all(lines).reported_matched == scan_all(lines).share.entries
        },
{
    lemma_reported_bounds(lines);
}

} // verus!
