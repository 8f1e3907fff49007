//! The commands that ask Slurm and the file systems, and what their output means.

use vstd::prelude::*;

use crate::clock::Span;
use crate::model::views;
use crate::model::AccountingRecord;
use crate::model::Job;
use crate::model::Node;
use crate::rows::rows_of;
use crate::rows::warnings_of;
use crate::slurm::CommandTelemetry;
use crate::slurm::SlurmError;
use crate::tables::checked_sinfo;
use crate::tables::checked_squeue;
use crate::tables::parse_sacct;
use crate::tables::sacct_reading;
use crate::tables::sinfo_fits;
use crate::tables::sinfo_reading;
use crate::tables::squeue_fits;
use crate::tables::squeue_reading;
use crate::text::is_digit;
use crate::text::is_letter;
use crate::text::join;
use crate::text::lines;
use crate::text::strings;
use crate::text::strip;
use crate::text::to_chars;
use crate::text::to_text;
use crate::text::trim;

verus! {

/// A backend that runs commands.
#[derive(Debug, Clone, Copy, PartialEq, Eq, Structural)]
pub struct CliSlurmBackend {
    /// How long a command may run.
    pub timeout: Span,
}

impl CliSlurmBackend {
    /// A backend whose commands may run so long.
    #[must_use]
    pub fn new(timeout: Span) -> (r: Self)
        ensures
            r.timeout == timeout,
    {
        CliSlurmBackend { timeout }
    }
}

/// A program and its arguments.
#[derive(Debug)]
pub struct CommandLine {
    pub program: String,
    pub args: Vec<String>,
}

impl CommandLine {
    /// Whether the command is the given program with the given arguments.
    pub open spec fn runs(self, program: Seq<char>, args: Seq<Seq<char>>) -> bool {
        self.program@ == program && strings(self.args@) == args
    }
}

/// What `squeue` prints of a job, in the order of its fields.
pub open spec fn squeue_fields() -> Seq<Seq<char>> {
    seq![
        "%i"@,
        "%u"@,
        "%T"@,
        "%P"@,
        "%j"@,
        "%D"@,
        "%C"@,
        "%m"@,
        "%b"@,
        "%M"@,
        "%N"@,
        "%R"@,
        "%l"@,
    ]
}

/// The command that lists the jobs.
pub fn squeue_command() -> (r: CommandLine)
    ensures
        strings(r.args@).last() == join(squeue_fields(), "|"@),
        r.runs(
            "squeue"@,
            seq!["-a"@, "-h"@, "-o"@, "%i|%u|%T|%P|%j|%D|%C|%m|%b|%M|%N|%R|%l"@],
        ),
{
    let args = vec![
        "-a".to_string(),
        "-h".to_string(),
        "-o".to_string(),
        "%i|%u|%T|%P|%j|%D|%C|%m|%b|%M|%N|%R|%l".to_string(),
    ];
    assert(strings(args@) =~= seq!["-a"@, "-h"@, "-o"@, "%i|%u|%T|%P|%j|%D|%C|%m|%b|%M|%N|%R|%l"@]);
    proof {
        lemma_squeue_format();
    }
    CommandLine { program: "squeue".to_string(), args }
}

proof fn lemma_squeue_format()
    ensures
        join(squeue_fields(), "|"@) == "%i|%u|%T|%P|%j|%D|%C|%m|%b|%M|%N|%R|%l"@,
{
    reveal_strlit("%i");
    reveal_strlit("%u");
    reveal_strlit("%T");
    reveal_strlit("%P");
    reveal_strlit("%j");
    reveal_strlit("%D");
    reveal_strlit("%C");
    reveal_strlit("%m");
    reveal_strlit("%b");
    reveal_strlit("%M");
    reveal_strlit("%N");
    reveal_strlit("%R");
    reveal_strlit("%l");
    reveal_strlit("|");
    reveal_strlit("%i|%u|%T|%P|%j|%D|%C|%m|%b|%M|%N|%R|%l");
    let f = squeue_fields();
    assert(f.take(1) =~= seq![f[0]]);
    assert(f.take(13) =~= f);
    lemma_join_step(f, 1);
    lemma_join_step(f, 2);
    lemma_join_step(f, 3);
    lemma_join_step(f, 4);
    lemma_join_step(f, 5);
    lemma_join_step(f, 6);
    lemma_join_step(f, 7);
    lemma_join_step(f, 8);
    lemma_join_step(f, 9);
    lemma_join_step(f, 10);
    lemma_join_step(f, 11);
    lemma_join_step(f, 12);
    assert(join(f, "|"@) =~= "%i|%u|%T|%P|%j|%D|%C|%m|%b|%M|%N|%R|%l"@);
}

proof fn lemma_join_step(f: Seq<Seq<char>>, n: int)
    requires
        1 <= n < f.len(),
    ensures
        join(f.take(n + 1), "|"@) == join(f.take(n), "|"@) + "|"@ + f[n],
        join(f.take(1), "|"@) == f[0],
{
    assert(f.take(n + 1).drop_last() =~= f.take(n));
    assert(f.take(n + 1).last() == f[n]);
    assert(f.take(1)[0] == f[0]);
}

/// What `sinfo` prints of a node, in the order of its fields.
pub open spec fn sinfo_fields() -> Seq<Seq<char>> {
    seq![
        "NodeHost"@,
        "StateCompact"@,
        "CPUs"@,
        "CPUsState"@,
        "Memory"@,
        "FreeMem"@,
        "Gres"@,
        "Reason"@,
        "GresUsed"@,
    ]
}

/// Fields of `sinfo` with a bar behind each but the last, which may be long.
pub open spec fn sinfo_format(fields: Seq<Seq<char>>) -> Seq<Seq<char>> {
    Seq::new(
        fields.len(),
        |i: int|
            fields[i] + if i < fields.len() - 1 {
                ":|"@
            } else {
                ":500"@
            },
    )
}

proof fn lemma_sinfo_format()
    ensures
        join(sinfo_format(sinfo_fields()), ","@)
            == "NodeHost:|,StateCompact:|,CPUs:|,CPUsState:|,Memory:|,FreeMem:|,Gres:|,Reason:|,GresUsed:500"@,
{
    reveal_strlit("NodeHost");
    reveal_strlit("StateCompact");
    reveal_strlit("CPUs");
    reveal_strlit("CPUsState");
    reveal_strlit("Memory");
    reveal_strlit("FreeMem");
    reveal_strlit("Gres");
    reveal_strlit("Reason");
    reveal_strlit("GresUsed");
    reveal_strlit(":|");
    reveal_strlit(":500");
    reveal_strlit(",");
    reveal_strlit(
        "NodeHost:|,StateCompact:|,CPUs:|,CPUsState:|,Memory:|,FreeMem:|,Gres:|,Reason:|,GresUsed:500",
    );
    let f = sinfo_format(sinfo_fields());
    assert(f.take(9) =~= f);
    lemma_list_step(f, 1);
    lemma_list_step(f, 2);
    lemma_list_step(f, 3);
    lemma_list_step(f, 4);
    lemma_list_step(f, 5);
    lemma_list_step(f, 6);
    lemma_list_step(f, 7);
    lemma_list_step(f, 8);
    assert(join(f, ","@)
        =~= "NodeHost:|,StateCompact:|,CPUs:|,CPUsState:|,Memory:|,FreeMem:|,Gres:|,Reason:|,GresUsed:500"@);
}

proof fn lemma_list_step(f: Seq<Seq<char>>, n: int)
    requires
        1 <= n < f.len(),
    ensures
        join(f.take(n + 1), ","@) == join(f.take(n), ","@) + ","@ + f[n],
        join(f.take(1), ","@) == f[0],
{
    assert(f.take(n + 1).drop_last() =~= f.take(n));
    assert(f.take(n + 1).last() == f[n]);
    assert(f.take(1)[0] == f[0]);
}

/// The command that lists the nodes.
pub fn sinfo_command() -> (r: CommandLine)
    ensures
        strings(r.args@).last() == join(sinfo_format(sinfo_fields()), ","@),
        r.runs(
            "sinfo"@,
            seq![
                "-N"@,
                "-h"@,
                "-O"@,
                "NodeHost:|,StateCompact:|,CPUs:|,CPUsState:|,Memory:|,FreeMem:|,Gres:|,Reason:|,GresUsed:500"@,
            ],
        ),
{
    let args = vec![
        "-N".to_string(),
        "-h".to_string(),
        "-O".to_string(),
        "NodeHost:|,StateCompact:|,CPUs:|,CPUsState:|,Memory:|,FreeMem:|,Gres:|,Reason:|,GresUsed:500".to_string(),
    ];
    assert(strings(args@) =~= seq![
        "-N"@,
        "-h"@,
        "-O"@,
        "NodeHost:|,StateCompact:|,CPUs:|,CPUsState:|,Memory:|,FreeMem:|,Gres:|,Reason:|,GresUsed:500"@,
    ]);
    proof {
        lemma_sinfo_format();
    }
    CommandLine { program: "sinfo".to_string(), args }
}

/// What `sacct` prints of a job, in the order of its fields.
pub open spec fn sacct_fields() -> Seq<Seq<char>> {
    seq![
        "JobIDRaw"@,
        "User"@,
        "State"@,
        "Partition"@,
        "JobName"@,
        "AllocCPUS"@,
        "ReqMem"@,
        "Elapsed"@,
        "Start"@,
        "End"@,
    ]
}

proof fn lemma_sacct_format()
    ensures
        "--format="@ + join(sacct_fields(), ","@)
            == "--format=JobIDRaw,User,State,Partition,JobName,AllocCPUS,ReqMem,Elapsed,Start,End"@,
{
    reveal_strlit("JobIDRaw");
    reveal_strlit("User");
    reveal_strlit("State");
    reveal_strlit("Partition");
    reveal_strlit("JobName");
    reveal_strlit("AllocCPUS");
    reveal_strlit("ReqMem");
    reveal_strlit("Elapsed");
    reveal_strlit("Start");
    reveal_strlit("End");
    reveal_strlit(",");
    reveal_strlit("--format=");
    reveal_strlit("--format=JobIDRaw,User,State,Partition,JobName,AllocCPUS,ReqMem,Elapsed,Start,End");
    let f = sacct_fields();
    assert(f.take(10) =~= f);
    lemma_list_step(f, 1);
    lemma_list_step(f, 2);
    lemma_list_step(f, 3);
    lemma_list_step(f, 4);
    lemma_list_step(f, 5);
    lemma_list_step(f, 6);
    lemma_list_step(f, 7);
    lemma_list_step(f, 8);
    lemma_list_step(f, 9);
    assert("--format="@ + join(f, ","@)
        =~= "--format=JobIDRaw,User,State,Partition,JobName,AllocCPUS,ReqMem,Elapsed,Start,End"@);
}

/// The command that lists the accounting records.
pub fn sacct_command() -> (r: CommandLine)
    ensures
        strings(r.args@).last() == "--format="@ + join(sacct_fields(), ","@),
        r.runs(
            "sacct"@,
            seq![
                "-X"@,
                "-n"@,
                "-P"@,
                "-a"@,
                "--starttime=now-12hours"@,
                "--format=JobIDRaw,User,State,Partition,JobName,AllocCPUS,ReqMem,Elapsed,Start,End"@,
            ],
        ),
{
    let args = vec![
        "-X".to_string(),
        "-n".to_string(),
        "-P".to_string(),
        "-a".to_string(),
        "--starttime=now-12hours".to_string(),
        "--format=JobIDRaw,User,State,Partition,JobName,AllocCPUS,ReqMem,Elapsed,Start,End".to_string(),
    ];
    assert(strings(args@) =~= seq![
        "-X"@,
        "-n"@,
        "-P"@,
        "-a"@,
        "--starttime=now-12hours"@,
        "--format=JobIDRaw,User,State,Partition,JobName,AllocCPUS,ReqMem,Elapsed,Start,End"@,
    ]);
    proof {
        lemma_sacct_format();
    }
    CommandLine { program: "sacct".to_string(), args }
}

/// The command that lists the disks.
pub fn df_command() -> (r: CommandLine)
    ensures
        r.runs("df"@, seq!["-h"@, "--output=source,fstype,size,used,avail,pcent,target"@]),
{
    let args = vec![
        "-h".to_string(),
        "--output=source,fstype,size,used,avail,pcent,target".to_string(),
    ];
    assert(strings(args@) =~= seq!["-h"@, "--output=source,fstype,size,used,avail,pcent,target"@]);
    CommandLine { program: "df".to_string(), args }
}

/// The command that asks for the quota of a user on a disk.
pub fn quota_command(mount: &str, user: &str) -> (r: CommandLine)
    ensures
        r.runs("lfs"@, seq!["quota"@, "-u"@, user@, "-h"@, mount@]),
{
    let args = vec![
        "quota".to_string(),
        "-u".to_string(),
        user.to_string(),
        "-h".to_string(),
        mount.to_string(),
    ];
    assert(strings(args@) =~= seq!["quota"@, "-u"@, user@, "-h"@, mount@]);
    CommandLine { program: "lfs".to_string(), args }
}

/// The command that adds up a directory.
pub fn du_command(path: &str) -> (r: CommandLine)
    ensures
        r.runs("du"@, seq!["-sxB1"@, path@]),
{
    let args = vec!["-sxB1".to_string(), path.to_string()];
    assert(strings(args@) =~= seq!["-sxB1"@, path@]);
    CommandLine { program: "du".to_string(), args }
}

/// The command that walks a disk: a line `s` for each entry, and a line `u` with its blocks for each
/// entry of the user.
pub fn find_command(mount: &str, user: &str) -> (r: CommandLine)
    ensures
        r.runs(
            "find"@,
            seq![
                mount@,
                "-xdev"@,
                "-printf"@,
                "s\n"@,
                "-user"@,
                user@,
                "-printf"@,
                "u%b\n"@,
            ],
        ),
{
    let args = vec![
        mount.to_string(),
        "-xdev".to_string(),
        "-printf".to_string(),
        "s\n".to_string(),
        "-user".to_string(),
        user.to_string(),
        "-printf".to_string(),
        "u%b\n".to_string(),
    ];
    assert(strings(args@) =~= seq![
        mount@,
        "-xdev"@,
        "-printf"@,
        "s\n"@,
        "-user"@,
        user@,
        "-printf"@,
        "u%b\n"@,
    ]);
    CommandLine { program: "find".to_string(), args }
}

/// What can be done to a job.
#[derive(Debug, Clone, Copy, PartialEq, Eq, Structural)]
pub enum JobAction {
    Cancel,
    Hold,
    Release,
    Requeue,
}

impl JobAction {
    /// The action in a word.
    pub open spec fn name(self) -> Seq<char> {
        match self {
            JobAction::Cancel => "cancel"@,
            JobAction::Hold => "hold"@,
            JobAction::Release => "release"@,
            JobAction::Requeue => "requeue"@,
        }
    }

    /// The action in a word.
    pub fn label(self) -> (r: &'static str)
        ensures
            r@ == self.name(),
    {
        match self {
            JobAction::Cancel => "cancel",
            JobAction::Hold => "hold",
            JobAction::Release => "release",
            JobAction::Requeue => "requeue",
        }
    }
}

/// The program that acts on a job, and its arguments.
pub open spec fn action_words(action: JobAction, job_id: Seq<char>) -> (Seq<char>, Seq<Seq<char>>) {
    if action == JobAction::Cancel {
        ("scancel"@, seq![job_id])
    } else {
        ("scontrol"@, seq![action.name(), job_id])
    }
}

/// The command that acts on a job.
pub fn action_command(action: JobAction, job_id: &str) -> (r: CommandLine)
    ensures
        action == JobAction::Cancel ==> r.runs("scancel"@, seq![job_id@]),
        action != JobAction::Cancel ==> r.runs("scontrol"@, seq![action.name(), job_id@]),
        r.runs(action_words(action, job_id@).0, action_words(action, job_id@).1),
{
    match action {
        JobAction::Cancel => {
            let args = vec![job_id.to_string()];
            assert(strings(args@) =~= seq![job_id@]);
            CommandLine { program: "scancel".to_string(), args }
        },
        _ => {
            let args = vec![action.label().to_string(), job_id.to_string()];
            assert(strings(args@) =~= seq![action.name(), job_id@]);
            CommandLine { program: "scontrol".to_string(), args }
        },
    }
}

/// Words as one line that a Unix shell reads as those words.
pub uninterp spec fn shell_line(words: Seq<Seq<char>>) -> Seq<char>;

/// Whether a word is made of characters that mean nothing to a shell.
pub open spec fn is_plain(word: Seq<char>) -> bool {
    word.len() > 0 && forall|i: int|
        0 <= i < word.len() ==> is_letter(#[trigger] word[i]) || is_digit(word[i]) || word[i] == '-'
            || word[i] == '_' || word[i] == '.' || word[i] == '/'
}

/// `shell_words::join`: the words, quoted where they need it, with spaces between them. The line is
/// named, since how a word is quoted is left open; plain words are not quoted.
#[verifier::external_body]
fn join_words(words: &Vec<String>) -> (r: String)
    ensures
        r@ == shell_line(strings(words@)),
        (forall|i: int| 0 <= i < words@.len() ==> is_plain(#[trigger] strings(words@)[i])) ==> r@ == join(
            strings(words@),
            " "@,
        ),
{
    shell_words::join(words)
}

/// The command as one line.
pub fn command_label(program: &str, args: &Vec<String>) -> (r: String)
    ensures
        r@ == shell_line(seq![program@] + strings(args@)),
        (is_plain(program@) && forall|i: int| 0 <= i < args@.len() ==> is_plain(#[trigger] strings(args@)[i]))
            ==> r@ == join(seq![program@] + strings(args@), " "@),
{
    let mut words: Vec<String> = vec![program.to_string()];
    let mut i: usize = 0;
    assert(strings(words@) =~= seq![program@] + strings(args@).take(0));
    while i < args.len()
        invariant
            i <= args@.len(),
            strings(words@) == seq![program@] + strings(args@).take(i as int),
        decreases args@.len() - i,
    {
        let ghost before = strings(words@);
        words.push(args[i].clone());
        assert(strings(words@) =~= before.push(args@[i as int]@));
        assert(strings(args@).take(i + 1) =~= strings(args@).take(i as int).push(args@[i as int]@));
        i += 1;
    }
    assert(strings(args@).take(i as int) =~= strings(args@));
    assert((is_plain(program@) && forall|k: int| 0 <= k < args@.len() ==> is_plain(#[trigger] strings(args@)[k]))
        ==> forall|k: int| 0 <= k < words@.len() ==> is_plain(#[trigger] strings(words@)[k])) by {
        assert(forall|k: int| 0 < k < words@.len() ==> #[trigger] strings(words@)[k] == strings(args@)[k - 1]);
    }
    join_words(&words)
}

/// What a command printed, and how it ran.
#[derive(Debug)]
pub struct CommandOutput {
    pub stdout: String,
    pub telemetry: CommandTelemetry,
}

/// The warnings of a command that ended: what it said, where it failed and said something.
pub open spec fn output_warnings(success: bool, stderr: Seq<char>) -> Seq<Seq<char>> {
    if success || trim(stderr).len() == 0 {
        seq![]
    } else {
        seq![trim(stderr)]
    }
}

/// Whether this is what a command that ended has to say: an error where it failed and may not.
pub open spec fn judged(
    r: Result<CommandOutput, SlurmError>,
    command: Seq<char>,
    success: bool,
    exit_code: Option<i32>,
    stdout: Seq<char>,
    stderr: Seq<char>,
    allow_failure: bool,
    elapsed: Span,
) -> bool {
    match r {
        Err(e) => {
            &&& !success && !allow_failure
            &&& e matches SlurmError::CommandFailed { command: c, exit_code: code, stderr: said } && c@
                == command && code == exit_code && said@ == trim(stderr)
        },
        Ok(out) => {
            &&& success || allow_failure
            &&& out.stdout@ == stdout
            &&& out.telemetry.command@ == command
            &&& out.telemetry.elapsed == elapsed
            &&& strings(out.telemetry.warnings@) == output_warnings(success, stderr)
        },
    }
}

/// What a command that ended has to say: an error where it failed and may not.
pub fn judge_output(
    command: String,
    success: bool,
    exit_code: Option<i32>,
    stdout: String,
    stderr: &str,
    allow_failure: bool,
    elapsed: Span,
) -> (r: Result<CommandOutput, SlurmError>)
    ensures
        r is Err <==> !success && !allow_failure,
        r matches Err(e) ==> e is CommandFailed && e->CommandFailed_command == command
            && e->exit_code == exit_code && e->stderr@ == trim(stderr@),
        r matches Ok(out) ==> out.stdout == stdout && out.telemetry.command == command
            && out.telemetry.elapsed == elapsed && strings(out.telemetry.warnings@) == output_warnings(
            success,
            stderr@,
        ),
        judged(r, command@, success, exit_code, stdout@, stderr@, allow_failure, elapsed),
{
    let chars = to_chars(stderr);
    let trimmed = strip(chars.as_slice());
    let said = to_text(trimmed);
    if !success && !allow_failure {
        return Err(SlurmError::CommandFailed { command, exit_code, stderr: said });
    }
    let mut warnings: Vec<String> = Vec::new();
    if !success && trimmed.len() > 0 {
        warnings.push(said);
    }
    assert(strings(warnings@) =~= output_warnings(success, stderr@));
    Ok(CommandOutput { stdout, telemetry: CommandTelemetry { command, elapsed, warnings } })
}

/// Bytes as text, where what is no UTF-8 is replaced.
pub uninterp spec fn lossy_text(bytes: Seq<u8>) -> Seq<char>;

/// `String::from_utf8_lossy`: the bytes as text. The text is named; bytes of ASCII are the
/// characters that they stand for.
#[verifier::external_body]
fn decode(bytes: &[u8]) -> (r: String)
    ensures
        r@ == lossy_text(bytes@),
        (forall|i: int| 0 <= i < bytes@.len() ==> #[trigger] bytes@[i] < 128) ==> r@ == Seq::new(
            bytes@.len(),
            |i: int| bytes@[i] as char,
        ),
{
    String::from_utf8_lossy(bytes).into_owned()
}

/// What a command that ended has to say, from the bytes that it printed.
pub fn read_output(
    command: String,
    success: bool,
    exit_code: Option<i32>,
    stdout: &[u8],
    stderr: &[u8],
    allow_failure: bool,
    elapsed: Span,
) -> (r: Result<CommandOutput, SlurmError>)
    ensures
        r is Err <==> !success && !allow_failure,
        r matches Err(e) ==> e is CommandFailed && e->CommandFailed_command == command
            && e->exit_code == exit_code && e->stderr@ == trim(lossy_text(stderr@)),
        r matches Ok(out) ==> out.stdout@ == lossy_text(stdout@) && out.telemetry.command == command
            && out.telemetry.elapsed == elapsed && strings(out.telemetry.warnings@) == output_warnings(
            success,
            lossy_text(stderr@),
        ),
        judged(
            r,
            command@,
            success,
            exit_code,
            lossy_text(stdout@),
            lossy_text(stderr@),
            allow_failure,
            elapsed,
        ),
{
    let printed = decode(stdout);
    let said = decode(stderr);
    judge_output(command, success, exit_code, printed, said.as_str(), allow_failure, elapsed)
}

/// What is said of an action on a job: what the command printed, or that it completed.
pub open spec fn action_text(stdout: Seq<char>, command: Seq<char>) -> Seq<char> {
    if trim(stdout).len() == 0 {
        command + " completed"@
    } else {
        trim(stdout)
    }
}

/// What is said of an action on a job.
pub fn action_message(output: &CommandOutput) -> (r: String)
    ensures
        r@ == action_text(output.stdout@, output.telemetry.command@),
{
    let chars = to_chars(output.stdout.as_str());
    let trimmed = strip(chars.as_slice());
    if trimmed.len() == 0 {
        let mut out = output.telemetry.command.clone();
        out.append(" completed");
        out
    } else {
        to_text(trimmed)
    }
}

/// Whether a report is how a command ran, with more warnings.
pub open spec fn telemetry_with(
    now: CommandTelemetry,
    before: CommandTelemetry,
    more: Seq<Seq<char>>,
) -> bool {
    &&& now.command == before.command
    &&& now.elapsed == before.elapsed
    &&& strings(now.warnings@) == strings(before.warnings@) + more
}

/// How a command ran, with more warnings.
fn with_warnings(telemetry: CommandTelemetry, more: Vec<String>) -> (r: CommandTelemetry)
    ensures
        telemetry_with(r, telemetry, strings(more@)),
{
    let mut more = more;
    let mut warnings = telemetry.warnings;
    assert(strings(warnings@ + more@) =~= strings(warnings@) + strings(more@));
    warnings.append(&mut more);
    CommandTelemetry { command: telemetry.command, elapsed: telemetry.elapsed, warnings }
}

/// The jobs that `squeue` printed, where their counts fit.
pub fn collect_jobs(output: CommandOutput) -> (r: Option<(Vec<Job>, CommandTelemetry)>)
    ensures
        r is Some <==> squeue_fits(output.stdout@),
        r matches Some((jobs, telemetry)) ==> {
            &&& views(jobs@) == rows_of(lines(output.stdout@), squeue_reading())
            &&& telemetry_with(
                telemetry,
                output.telemetry,
                warnings_of(lines(output.stdout@), squeue_reading()),
            )
        },
{
    match checked_squeue(output.stdout.as_str()) {
        Some(parsed) => Some((parsed.rows, with_warnings(output.telemetry, parsed.warnings))),
        None => None,
    }
}

/// The nodes that `sinfo` printed, where their counts fit.
pub fn collect_nodes(output: CommandOutput) -> (r: Option<(Vec<Node>, CommandTelemetry)>)
    ensures
        r is Some <==> sinfo_fits(output.stdout@),
        r matches Some((nodes, telemetry)) ==> {
            &&& views(nodes@) == rows_of(lines(output.stdout@), sinfo_reading())
            &&& telemetry_with(
                telemetry,
                output.telemetry,
                warnings_of(lines(output.stdout@), sinfo_reading()),
            )
        },
{
    match checked_sinfo(output.stdout.as_str()) {
        Some(parsed) => Some((parsed.rows, with_warnings(output.telemetry, parsed.warnings))),
        None => None,
    }
}

/// The first accounting records that `sacct` printed, at most `limit`.
pub fn collect_accounting(output: CommandOutput, limit: usize) -> (r: (
    Vec<AccountingRecord>,
    CommandTelemetry,
))
    ensures
        ({
            let all = rows_of(lines(output.stdout@), sacct_reading());
            views(r.0@) == if limit < all.len() {
                all.take(limit as int)
            } else {
                all
            }
        }),
        telemetry_with(r.1, output.telemetry, warnings_of(lines(output.stdout@), sacct_reading())),
{
    let parsed = parse_sacct(output.stdout.as_str());
    let mut rows = parsed.rows;
    let ghost all = views(rows@);
    rows.truncate(limit);
    assert(views(rows@) =~= if limit < all.len() {
        all.take(limit as int)
    } else {
        all
    });
    (rows, with_warnings(output.telemetry, parsed.warnings))
}

} // verus!
