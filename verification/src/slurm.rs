//! What a backend reports, and the snapshot that is made of it.

use vstd::prelude::*;

use crate::clock::Span;
use crate::model::copy_strings;
use crate::model::views;
use crate::model::AccountingRecord;
use crate::model::DiskInfo;
use crate::model::Job;
use crate::model::Node;
use crate::number::decimal;
use crate::number::show;
use crate::snapshot::ClusterSnapshot;
use crate::summary::gpus_fit;
use crate::summary::tallies_fit;
use crate::text::strings;

verus! {

/// Why a backend has nothing to report.
#[derive(Debug)]
pub enum SlurmError {
    /// A command did not end in time.
    Timeout { command: String, timeout: Span },
    /// A command ended without success.
    CommandFailed { command: String, exit_code: Option<i32>, stderr: String },
    /// A command could not be run; `source` says why.
    Io { command: String, source: String },
    /// The output of a command could not be read.
    Parse(String),
    /// Anything else.
    Other(String),
}

/// How `std::fmt::Debug` shows a span of time.
pub uninterp spec fn span_text(secs: u64, nanos: u32) -> Seq<char>;

/// `std::time::Duration`'s implementation of `std::fmt::Debug`: the span with a unit that fits it.
/// The text is named: it depends on the span alone.
#[verifier::external_body]
fn show_span(secs: u64, nanos: u32) -> (r: String)
    requires
        nanos < 1_000_000_000,
    ensures
        r@ == span_text(secs, nanos),
{
    format!("{:?}", std::time::Duration::new(secs, nanos))
}

/// A number in decimal, with a sign where it is below zero.
pub open spec fn signed_decimal(n: int) -> Seq<char> {
    if n < 0 {
        "-"@ + decimal((-n) as nat)
    } else {
        decimal(n as nat)
    }
}

/// An exit code, or that there is none.
pub open spec fn exit_text(code: Option<i32>) -> Seq<char> {
    match code {
        Some(n) => "Some("@ + signed_decimal(n as int) + ")"@,
        None => "None"@,
    }
}

/// An exit code, or that there is none.
fn show_exit(code: Option<i32>) -> (r: String)
    ensures
        r@ == exit_text(code),
{
    match code {
        Some(n) => {
            let mut out = "Some(".to_string();
            if n < 0 {
                out.append("-");
                out.append(show((-(n as i64)) as u64).as_str());
            } else {
                out.append(show(n as u64).as_str());
            }
            out.append(")");
            assert(out@ =~= exit_text(code));
            out
        },
        None => "None".to_string(),
    }
}

impl SlurmError {
    /// Whether a span in the error is one.
    pub open spec fn wf(self) -> bool {
        match self {
            SlurmError::Timeout { timeout, .. } => timeout.wf(),
            _ => true,
        }
    }

    /// The error in words.
    pub open spec fn words(self) -> Seq<char> {
        match self {
            SlurmError::Timeout { command, timeout } => "backend command timed out after "@ + span_text(
                timeout.secs,
                timeout.nanos,
            ) + ": "@ + command@,
            SlurmError::CommandFailed { command, exit_code, stderr } => "backend command failed: "@
                + command@ + " (exit "@ + exit_text(exit_code) + ") stderr="@ + stderr@,
            SlurmError::Io { command, source } => "backend IO error while running "@ + command@ + ": "@
                + source@,
            SlurmError::Parse(text) => "backend parse error: "@ + text@,
            SlurmError::Other(text) => text@,
        }
    }

    /// The error in words.
    pub fn message(&self) -> (r: String)
        requires
            self.wf(),
        ensures
            r@ == self.words(),
    {
        match self {
            SlurmError::Timeout { command, timeout } => {
                let mut out = "backend command timed out after ".to_string();
                out.append(show_span(timeout.secs, timeout.nanos).as_str());
                out.append(": ");
                out.append(command.as_str());
                out
            },
            SlurmError::CommandFailed { command, exit_code, stderr } => {
                let mut out = "backend command failed: ".to_string();
                out.append(command.as_str());
                out.append(" (exit ");
                out.append(show_exit(*exit_code).as_str());
                out.append(") stderr=");
                out.append(stderr.as_str());
                out
            },
            SlurmError::Io { command, source } => {
                let mut out = "backend IO error while running ".to_string();
                out.append(command.as_str());
                out.append(": ");
                out.append(source.as_str());
                out
            },
            SlurmError::Parse(text) => {
                let mut out = "backend parse error: ".to_string();
                out.append(text.as_str());
                out
            },
            SlurmError::Other(text) => text.clone(),
        }
    }
}

/// How a backend is asked.
#[derive(Debug)]
pub struct BackendConfig {
    pub command_timeout: Span,
    pub refresh_interval: Span,
    pub disk_usage_timeout: Option<Span>,
    pub accounting_limit: usize,
    pub current_user: String,
}

impl BackendConfig {
    /// The configuration that a user starts with.
    #[must_use]
    pub fn for_user(current_user: String) -> (r: Self)
        ensures
            r.command_timeout == (Span { secs: 4, nanos: 0 }),
            r.refresh_interval == (Span { secs: 3, nanos: 0 }),
            r.disk_usage_timeout == Some(Span { secs: 180, nanos: 0 }),
            r.accounting_limit == 100,
            r.current_user == current_user,
    {
        BackendConfig {
            command_timeout: Span { secs: 4, nanos: 0 },
            refresh_interval: Span { secs: 3, nanos: 0 },
            disk_usage_timeout: Some(Span { secs: 180, nanos: 0 }),
            accounting_limit: 100,
            current_user,
        }
    }
}

/// How a command ran.
#[derive(Debug)]
pub struct CommandTelemetry {
    pub command: String,
    pub elapsed: Span,
    pub warnings: Vec<String>,
}

/// How a snapshot was taken.
#[derive(Debug)]
pub struct SnapshotTelemetry {
    pub elapsed: Span,
    pub commands: Vec<CommandTelemetry>,
}

/// A snapshot, and how it was taken.
#[derive(Debug)]
pub struct SnapshotEnvelope {
    pub snapshot: ClusterSnapshot,
    pub telemetry: SnapshotTelemetry,
}

/// What an accounting error becomes: a warning.
pub open spec fn accounting_warning(error: SlurmError) -> Seq<char> {
    "sacct unavailable: "@ + error.words()
}

/// The warnings of a snapshot: those of each command, and one where accounting failed.
pub open spec fn refresh_warnings(
    jobs: CommandTelemetry,
    nodes: CommandTelemetry,
    accounting: std::result::Result<(Vec<AccountingRecord>, CommandTelemetry), SlurmError>,
) -> Seq<Seq<char>> {
    strings(jobs.warnings@) + strings(nodes.warnings@) + match accounting {
        Ok((_, telemetry)) => strings(telemetry.warnings@),
        Err(error) => seq![accounting_warning(error)],
    }
}

/// Whether the counts of jobs and nodes fit, where both are reported.
pub open spec fn reports_fit(
    jobs_result: std::result::Result<(Vec<Job>, CommandTelemetry), SlurmError>,
    nodes_result: std::result::Result<(Vec<Node>, CommandTelemetry), SlurmError>,
) -> bool {
    match (jobs_result, nodes_result) {
        (Ok((jobs, _)), Ok((nodes, _))) => tallies_fit(views(jobs@)) && gpus_fit(
            views(nodes@),
            views(jobs@),
        ),
        _ => true,
    }
}

/// Appends copies of texts to a list.
fn extend_strings(list: &mut Vec<String>, more: &Vec<String>)
    ensures
        strings(final(list)@) == strings(old(list)@) + strings(more@),
{
    let mut copies = copy_strings(more);
    let ghost before = list@;
    let ghost added = copies@;
    assert(strings(before + added) =~= strings(before) + strings(added));
    list.append(&mut copies);
}

/// Whether this is the snapshot that reports on jobs, nodes, accounting and disks make.
pub open spec fn assembled(
    r: std::result::Result<SnapshotEnvelope, SlurmError>,
    jobs_result: std::result::Result<(Vec<Job>, CommandTelemetry), SlurmError>,
    nodes_result: std::result::Result<(Vec<Node>, CommandTelemetry), SlurmError>,
    accounting_result: std::result::Result<(Vec<AccountingRecord>, CommandTelemetry), SlurmError>,
    disk_info: Vec<DiskInfo>,
    current_user: Seq<char>,
    elapsed: Span,
) -> bool {
    match (jobs_result, nodes_result) {
        (Err(error), _) => r == Err::<SnapshotEnvelope, SlurmError>(error),
        (Ok(_), Err(error)) => r == Err::<SnapshotEnvelope, SlurmError>(error),
        (Ok((jobs, job_telemetry)), Ok((nodes, node_telemetry))) => {
            &&& r is Ok
            &&& r->Ok_0.snapshot.jobs == jobs
            &&& r->Ok_0.snapshot.nodes == nodes
            &&& r->Ok_0.snapshot.accounting@ == match accounting_result {
                Ok((rows, _)) => rows@,
                Err(_) => seq![],
            }
            &&& r->Ok_0.snapshot.disk_info == disk_info
            &&& r->Ok_0.snapshot.summarized(current_user)
            &&& strings(r->Ok_0.snapshot.warnings@) == refresh_warnings(
                job_telemetry,
                node_telemetry,
                accounting_result,
            )
            &&& r->Ok_0.telemetry.elapsed == elapsed
            &&& r->Ok_0.telemetry.commands@ == match accounting_result {
                Ok((_, telemetry)) => seq![job_telemetry, node_telemetry, telemetry],
                Err(_) => seq![job_telemetry, node_telemetry],
            }
        },
    }
}

/// The snapshot that reports on jobs, nodes, accounting and disks make, taken now.
/// Without jobs or without nodes there is none; without accounting there is one with a warning.
pub fn assemble_snapshot(
    jobs_result: std::result::Result<(Vec<Job>, CommandTelemetry), SlurmError>,
    nodes_result: std::result::Result<(Vec<Node>, CommandTelemetry), SlurmError>,
    accounting_result: std::result::Result<(Vec<AccountingRecord>, CommandTelemetry), SlurmError>,
    disk_info: Vec<DiskInfo>,
    current_user: &str,
    elapsed: Span,
) -> (r: std::result::Result<SnapshotEnvelope, SlurmError>)
    requires
        reports_fit(jobs_result, nodes_result),
        accounting_result matches Err(e) ==> e.wf(),
    ensures
        assembled(
            r,
            jobs_result,
            nodes_result,
            accounting_result,
            disk_info,
            current_user@,
            elapsed,
        ),
{
    let ghost accounting_given = accounting_result;
    let (jobs, job_telemetry) = match jobs_result {
        Ok(pair) => pair,
        Err(error) => {
            return Err(error);
        },
    };
    let (nodes, node_telemetry) = match nodes_result {
        Ok(pair) => pair,
        Err(error) => {
            return Err(error);
        },
    };
    let mut warnings: Vec<String> = Vec::new();
    assert(strings(warnings@) =~= seq![]);
    extend_strings(&mut warnings, &job_telemetry.warnings);
    extend_strings(&mut warnings, &node_telemetry.warnings);
    assert(strings(warnings@) =~= strings(job_telemetry.warnings@) + strings(node_telemetry.warnings@));
    let ghost (jt, nt) = (job_telemetry, node_telemetry);
    let mut commands: Vec<CommandTelemetry> = vec![job_telemetry, node_telemetry];
    let accounting = match accounting_result {
        Ok((rows, telemetry)) => {
            extend_strings(&mut warnings, &telemetry.warnings);
            commands.push(telemetry);
            rows
        },
        Err(error) => {
            let mut warning = "sacct unavailable: ".to_string();
            warning.append(error.message().as_str());
            let ghost before = strings(warnings@);
            let ghost text = warning@;
            warnings.push(warning);
            assert(strings(warnings@) =~= before + seq![text]);
            Vec::new()
        },
    };
    assert(strings(warnings@) == refresh_warnings(jt, nt, accounting_given));
    assert(commands@ =~= match accounting_given {
        Ok((_, telemetry)) => seq![jt, nt, telemetry],
        Err(_) => seq![jt, nt],
    });
    assert(accounting_given is Err ==> accounting@ =~= seq![]);
    Ok(
        SnapshotEnvelope {
            snapshot: ClusterSnapshot::new(
                jobs,
                nodes,
                accounting,
                disk_info,
                current_user,
                warnings,
            ),
            telemetry: SnapshotTelemetry { elapsed, commands },
        },
    )
}

/// A backend and how it is asked.
#[derive(Debug)]
pub struct SnapshotCollector<B> {
    backend: B,
    config: BackendConfig,
}

impl<B> SnapshotCollector<B> {
    /// The backend that is asked.
    pub closed spec fn asks(self) -> B {
        self.backend
    }

    /// How the backend is asked.
    pub closed spec fn asks_with(self) -> BackendConfig {
        self.config
    }

    /// A backend and how it is asked.
    #[must_use]
    pub fn new(backend: B, config: BackendConfig) -> (r: Self)
        ensures
            r.asks() == backend,
            r.asks_with() == config,
    {
        SnapshotCollector { backend, config }
    }

    /// The backend that is asked.
    #[must_use]
    pub fn backend(&self) -> (r: &B)
        ensures
            *r == self.asks(),
    {
        &self.backend
    }

    /// How the backend is asked.
    #[must_use]
    pub fn config(&self) -> (r: &BackendConfig)
        ensures
            *r == self.asks_with(),
    {
        &self.config
    }
}

/// What a scan of a disk is doing.
#[derive(Debug, Clone, Copy, PartialEq, Eq, Structural)]
pub enum DiskUsageProgressStage {
    Starting,
    Quota,
    UserDirectory,
    Traversal,
}

/// How far a scan of a disk is.
#[derive(Debug, Clone, Copy, PartialEq, Eq, Structural)]
pub struct DiskUsageProgress {
    pub stage: DiskUsageProgressStage,
    pub scanned_entries: u64,
    pub matched_entries: u64,
    pub bytes: u64,
}

impl Default for DiskUsageProgressStage {
    fn default() -> (r: Self)
        ensures
            r == DiskUsageProgressStage::Starting,
    {
        DiskUsageProgressStage::Starting
    }
}

impl Default for DiskUsageProgress {
    fn default() -> (r: Self)
        ensures
            r == (DiskUsageProgress {
                stage: DiskUsageProgressStage::Starting,
                scanned_entries: 0,
                matched_entries: 0,
                bytes: 0,
            }),
    {
        DiskUsageProgress {
            stage: DiskUsageProgressStage::Starting,
            scanned_entries: 0,
            matched_entries: 0,
            bytes: 0,
        }
    }
}

/// The version of this package.
pub open spec fn package_version() -> Seq<char> {
    "0.1.0"@
}

/// The version of this package.
#[must_use]
pub fn version() -> (r: &'static str)
    ensures
        r@ == package_version(),
{
    "0.1.0"
}

} // verus!
