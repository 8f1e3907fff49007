use slmtop::clock::{span_between, Span, Timestamp};
use slmtop::commands::{
    action_command, action_message, collect_accounting, collect_jobs, collect_nodes, command_label,
    df_command, du_command, find_command, judge_output, quota_command, read_output, sacct_command,
    sinfo_command, squeue_command, CliSlurmBackend, CommandOutput, JobAction,
};
use slmtop::model::{DiskUserUsage, Job};
use slmtop::paths::{disk_usage_cache_path, ends_in, lies_under, sort_paths, user_disk_candidates};
use slmtop::slurm::{
    assemble_snapshot, version, BackendConfig, CommandTelemetry, DiskUsageProgress,
    DiskUsageProgressStage, SlurmError, SnapshotCollector,
};
use slmtop::tables::parse_squeue;
use slmtop::usage::{
    disk_scan_error, disk_scan_timeout, has_informative_usage, should_emit_disk_usage_progress,
    stage_progress, ScanState, UsageAction, UsageEvent, UsageSearch,
};

fn span(secs: u64, nanos: u32) -> Span {
    Span { secs, nanos }
}

fn telemetry(command: &str, warnings: &[&str]) -> CommandTelemetry {
    CommandTelemetry {
        command: command.to_string(),
        elapsed: span(0, 5),
        warnings: warnings.iter().map(|w| w.to_string()).collect(),
    }
}

fn output(stdout: &str, command: &str) -> CommandOutput {
    CommandOutput { stdout: stdout.to_string(), telemetry: telemetry(command, &[]) }
}

fn row(bytes: u64, entries: u64) -> DiskUserUsage {
    DiskUserUsage { user: "alice".to_string(), bytes, entries }
}

#[test]
fn zero_byte_rows_without_entry_counts_are_inconclusive() {
    let rows = vec![DiskUserUsage {
        user: "alice".to_string(),
        bytes: 0,
        entries: 0,
    }];
    assert!(!has_informative_usage(&rows));
}

#[test]
fn rows_with_bytes_or_entries_are_informative() {
    assert!(has_informative_usage(&[DiskUserUsage {
        user: "alice".to_string(),
        bytes: 512,
        entries: 0,
    }]));
    assert!(has_informative_usage(&[DiskUserUsage {
        user: "alice".to_string(),
        bytes: 0,
        entries: 1,
    }]));
}

#[test]
fn errors_in_words() {
    let timeout = SlurmError::Timeout { command: "squeue".to_string(), timeout: span(2, 500_000_000) };
    assert_eq!(timeout.message(), "backend command timed out after 2.5s: squeue");
    let failed = SlurmError::CommandFailed {
        command: "sinfo".to_string(),
        exit_code: Some(-1),
        stderr: "boom".to_string(),
    };
    assert_eq!(failed.message(), "backend command failed: sinfo (exit Some(-1)) stderr=boom");
    let killed = SlurmError::CommandFailed {
        command: "sinfo".to_string(),
        exit_code: None,
        stderr: String::new(),
    };
    assert_eq!(killed.message(), "backend command failed: sinfo (exit None) stderr=");
    let io = SlurmError::Io { command: "df".to_string(), source: "gone".to_string() };
    assert_eq!(io.message(), "backend IO error while running df: gone");
    assert_eq!(SlurmError::Parse("x".to_string()).message(), "backend parse error: x");
    assert_eq!(SlurmError::Other("y".to_string()).message(), "y");
}

#[test]
fn commands_have_their_arguments() {
    assert_eq!(squeue_command().program, "squeue");
    assert_eq!(squeue_command().args[3], "%i|%u|%T|%P|%j|%D|%C|%m|%b|%M|%N|%R|%l");
    assert_eq!(sinfo_command().args[2], "-O");
    assert_eq!(sacct_command().args.len(), 6);
    assert_eq!(df_command().args[0], "-h");
    assert_eq!(quota_command("/vol", "bob").args, vec!["quota", "-u", "bob", "-h", "/vol"]);
    assert_eq!(du_command("/vol/bob").args, vec!["-sxB1", "/vol/bob"]);
    assert_eq!(find_command("/vol", "bob").args[3], "s\n");
    assert_eq!(find_command("/vol", "bob").args[7], "u%b\n");
    let cancel = action_command(JobAction::Cancel, "7");
    assert_eq!((cancel.program.as_str(), cancel.args.len()), ("scancel", 1));
    let hold = action_command(JobAction::Hold, "7");
    assert_eq!(hold.args, vec!["hold", "7"]);
    assert_eq!(action_command(JobAction::Release, "7").args[0], "release");
    assert_eq!(action_command(JobAction::Requeue, "7").program, "scontrol");
    assert_eq!(CliSlurmBackend::new(span(4, 0)).timeout, span(4, 0));
}

#[test]
fn command_labels_quote_where_needed() {
    let plain = vec!["hold".to_string(), "12_3".to_string()];
    assert_eq!(command_label("scontrol", &plain), "scontrol hold 12_3");
    let spaced = vec!["a b".to_string(), String::new()];
    assert_eq!(command_label("du", &spaced), "du 'a b' ''");
}

#[test]
fn failed_commands_are_errors_unless_allowed() {
    let result = judge_output(
        "x".to_string(),
        false,
        Some(3),
        "out".to_string(),
        " bad \n",
        false,
        span(1, 0),
    );
    match result {
        Err(SlurmError::CommandFailed { command, exit_code, stderr }) => {
            assert_eq!((command.as_str(), exit_code, stderr.as_str()), ("x", Some(3), "bad"));
        }
        _ => panic!("an error was due"),
    }
    let allowed =
        judge_output("x".to_string(), false, Some(3), "out".to_string(), " bad \n", true, span(1, 0))
            .unwrap();
    assert_eq!(allowed.stdout, "out");
    assert_eq!(allowed.telemetry.warnings, vec!["bad".to_string()]);
    let quiet =
        judge_output("x".to_string(), false, None, String::new(), "  ", true, span(1, 0)).unwrap();
    assert!(quiet.telemetry.warnings.is_empty());
    let fine =
        judge_output("x".to_string(), true, Some(0), String::new(), "note", false, span(1, 0)).unwrap();
    assert!(fine.telemetry.warnings.is_empty());
}

#[test]
fn output_bytes_are_decoded() {
    let out = read_output(
        "x".to_string(),
        true,
        Some(0),
        &[b'o', b'k', 0xff],
        &[],
        false,
        span(0, 0),
    )
    .unwrap();
    assert_eq!(out.stdout, "ok\u{fffd}");
    match read_output("x".to_string(), false, Some(1), b"", b" no \n", false, span(0, 0)) {
        Err(SlurmError::CommandFailed { stderr, .. }) => assert_eq!(stderr, "no"),
        _ => panic!("an error was due"),
    }
}

#[test]
fn action_messages_fall_back_to_the_command() {
    assert_eq!(action_message(&output(" done \n", "scancel 7")), "done");
    assert_eq!(action_message(&output(" \n", "scancel 7")), "scancel 7 completed");
}

#[test]
fn collected_rows_carry_warnings_and_limits() {
    let (jobs, seen) = collect_jobs(CommandOutput {
        stdout: "1|u|R|p|n|1|1|1||0:01|n1\nbad\n".to_string(),
        telemetry: telemetry("squeue", &["first"]),
    })
    .unwrap();
    assert_eq!(jobs.len(), 1);
    assert_eq!(
        seen.warnings,
        vec!["first".to_string(), "squeue line 2 has 1 fields: bad".to_string()]
    );
    let (nodes, _) = collect_nodes(output("n1|idle|1|0/1/0/1|1|1|\n", "sinfo")).unwrap();
    assert_eq!(nodes.len(), 1);
    let line = "1|u|C|p|n|1|1|0:01|s|e\n";
    let text = line.repeat(5);
    let (rows, _) = collect_accounting(output(&text, "sacct"), 3);
    assert_eq!(rows.len(), 3);
    let (rows, _) = collect_accounting(output(&text, "sacct"), 9);
    assert_eq!(rows.len(), 5);
    assert!(collect_jobs(output(
        "1|u|R|p|n|1|1|1|gpu:a:18446744073709551615,gpu:a:1|0:01|n1\n",
        "squeue"
    ))
    .is_none());
}

fn jobs() -> Vec<Job> {
    parse_squeue("1|me|R|p|a|1|4|1G|gpu:a100:2|0:01|n1\n2|you|PD|p|b|1|8|2G|gpu:a100:1|0:00|\n").rows
}

#[test]
fn accounting_failures_become_warnings() {
    let envelope = assemble_snapshot(
        Ok((jobs(), telemetry("squeue", &["w1"]))),
        Ok((Vec::new(), telemetry("sinfo", &["w2"]))),
        Err(SlurmError::Other("slow".to_string())),
        Vec::new(),
        "me",
        span(1, 0),
    )
    .unwrap();
    assert_eq!(
        envelope.snapshot.warnings,
        vec!["w1".to_string(), "w2".to_string(), "sacct unavailable: slow".to_string()]
    );
    assert_eq!(envelope.telemetry.commands.len(), 2);
    assert_eq!(envelope.snapshot.job_summary.me.running.gpus, 2);
    assert_eq!(envelope.snapshot.job_summary.others.pending.cpus, 8);
    assert_eq!(envelope.snapshot.gpu_summary.reserved, 1);
    assert!(envelope.snapshot.captured_at.secs > 1_600_000_000);
}

#[test]
fn missing_jobs_or_nodes_fail_the_snapshot() {
    let failed = assemble_snapshot(
        Err(SlurmError::Other("no jobs".to_string())),
        Err(SlurmError::Other("no nodes".to_string())),
        Ok((Vec::new(), telemetry("sacct", &[]))),
        Vec::new(),
        "me",
        span(1, 0),
    );
    assert_eq!(failed.unwrap_err().message(), "no jobs");
    let failed = assemble_snapshot(
        Ok((jobs(), telemetry("squeue", &[]))),
        Err(SlurmError::Other("no nodes".to_string())),
        Ok((Vec::new(), telemetry("sacct", &[]))),
        Vec::new(),
        "me",
        span(1, 0),
    );
    assert_eq!(failed.unwrap_err().message(), "no nodes");
}

#[test]
fn first_configuration() {
    let config = BackendConfig::for_user("me".to_string());
    assert_eq!(config.command_timeout, span(4, 0));
    assert_eq!(config.refresh_interval, span(3, 0));
    assert_eq!(config.disk_usage_timeout, Some(span(180, 0)));
    assert_eq!(config.accounting_limit, 100);
    let collector = SnapshotCollector::new(CliSlurmBackend::new(span(4, 0)), config);
    assert_eq!(collector.backend().timeout, span(4, 0));
    assert_eq!(collector.config().current_user, "me");
    assert_eq!(version(), "0.1.0");
}

#[test]
fn spans_between_times() {
    let at = |before_epoch: bool, secs: u64, nanos: u32| Timestamp { before_epoch, secs, nanos };
    assert_eq!(span_between(at(false, 1, 900_000_000), at(false, 3, 0)), Some(span(1, 100_000_000)));
    assert_eq!(span_between(at(true, 1, 0), at(false, 1, 0)), Some(span(2, 0)));
    assert_eq!(span_between(at(false, 3, 0), at(false, 1, 0)), None);
    assert_eq!(span_between(at(true, u64::MAX, 0), at(false, u64::MAX, 0)), None);
}

#[test]
fn paths_of_a_user() {
    assert_eq!(
        user_disk_candidates("/vol", "bob", None, false),
        vec!["/vol/bob", "/vol/users/bob", "/vol/home/bob"]
    );
    assert_eq!(
        user_disk_candidates("/vol/", "bob", Some("/vol/x/bob/".to_string()), true),
        vec!["/vol/x/bob/", "/vol/bob", "/vol/users/bob", "/vol/home/bob"]
    );
    assert_eq!(user_disk_candidates("/vol", "bob", Some("/home/bob".to_string()), true).len(), 3);
    assert_eq!(user_disk_candidates("/", "bob", Some("/home/bob".to_string()), false).len(), 3);
    assert!(user_disk_candidates("/vol", "", None, false).is_empty());
    assert!(user_disk_candidates("/vol", "a/b", None, false).is_empty());
    assert!(user_disk_candidates("/vol", "a\0b", None, false).is_empty());
}

#[test]
fn path_rules() {
    assert!(lies_under("/a//b/./c", "/a/b"));
    assert!(!lies_under("/ab", "/a"));
    assert!(lies_under("/a", "/"));
    assert!(!lies_under("a", "/"));
    assert!(lies_under("a", ""));
    assert!(!lies_under("a", "./a"));
    assert!(ends_in("/a/b/", "b"));
    assert!(!ends_in("/a/..", ".."));
    assert!(!ends_in("/", ""));
    assert_eq!(
        sort_paths(&vec!["b".to_string(), "a".to_string(), "b".to_string(), "B".to_string()]),
        vec!["B", "a", "b"]
    );
    assert_eq!(
        disk_usage_cache_path(Some("/c".to_string()), Some("/h".to_string())),
        Some("/c/slmtop/disk_usage.json".to_string())
    );
    assert_eq!(
        disk_usage_cache_path(Some(String::new()), Some("/h".to_string())),
        Some("/h/.cache/slmtop/disk_usage.json".to_string())
    );
    assert_eq!(disk_usage_cache_path(None, None), None);
}

#[test]
fn a_search_stops_at_an_informative_quota() {
    let mut search = UsageSearch::new("alice");
    assert!(matches!(search.step(UsageEvent::Begin), UsageAction::RunQuota));
    match search.step(UsageEvent::Quota(Some("/vol 1K 0 0 - 3\n".to_string()))) {
        UsageAction::Finish(Ok(rows)) => assert_eq!(rows, vec![row(1024, 3)]),
        _ => panic!("a result was due"),
    }
}

#[test]
fn a_search_tries_each_directory_and_then_walks() {
    let mut search = UsageSearch::new("alice");
    assert!(matches!(
        search.step(UsageEvent::Quota(Some("/vol 0 0 0 - 0\n".to_string()))),
        UsageAction::FindPaths
    ));
    assert!(matches!(search.step(UsageEvent::Quota(None)), UsageAction::FindPaths));
    let paths = vec!["/vol/a".to_string(), "/vol/b".to_string()];
    match search.step(UsageEvent::Paths(paths)) {
        UsageAction::RunDirectory(path) => assert_eq!(path, "/vol/a"),
        _ => panic!("a directory was due"),
    }
    match search.step(UsageEvent::DirectoryFailed) {
        UsageAction::RunDirectory(path) => assert_eq!(path, "/vol/b"),
        _ => panic!("a directory was due"),
    }
    assert!(matches!(
        search.step(UsageEvent::Directory("0 /vol/b\n".to_string())),
        UsageAction::RunScan
    ));
    match search.step(UsageEvent::Directory("9 /vol/b\n".to_string())) {
        UsageAction::Finish(Ok(rows)) => assert_eq!(rows, vec![row(9, 0)]),
        _ => panic!("a result was due"),
    }
    match search.step(UsageEvent::DirectoryTimedOut(span(7, 0))) {
        UsageAction::Finish(Err(error)) => assert_eq!(
            error.message(),
            "Usage scan timed out after 7s. This filesystem is too large to scan directly, and no quick user directory result was available."
        ),
        _ => panic!("an error was due"),
    }
    match search.step(UsageEvent::Scan(Ok(vec![row(1, 1)]))) {
        UsageAction::Finish(Ok(rows)) => assert_eq!(rows, vec![row(1, 1)]),
        _ => panic!("a result was due"),
    }
    match search.step(UsageEvent::Scan(Err(SlurmError::Parse("p".to_string())))) {
        UsageAction::Finish(Err(error)) => assert_eq!(error.message(), "backend parse error: p"),
        _ => panic!("an error was due"),
    }
}

#[test]
fn scan_errors_hide_the_command() {
    assert_eq!(
        disk_scan_error(SlurmError::Io { command: "find".to_string(), source: "gone".to_string() }).message(),
        "Usage scan could not start: gone. The command details are hidden because this is a background scan."
    );
    let failed = |stderr: &str| SlurmError::CommandFailed {
        command: "find".to_string(),
        exit_code: None,
        stderr: stderr.to_string(),
    };
    assert_eq!(disk_scan_error(failed("why")).message(), "why");
    assert_eq!(
        disk_scan_error(failed("")).message(),
        "Usage scan failed before producing a result."
    );
    assert!(matches!(disk_scan_timeout(span(3, 1)), SlurmError::Other(_)));
}

#[test]
fn stages_are_reported_as_they_begin() {
    assert_eq!(
        stage_progress(&UsageAction::RunQuota).unwrap().stage,
        DiskUsageProgressStage::Quota
    );
    assert_eq!(
        stage_progress(&UsageAction::RunDirectory("/x".to_string())).unwrap().stage,
        DiskUsageProgressStage::UserDirectory
    );
    assert_eq!(
        stage_progress(&UsageAction::RunScan).unwrap().stage,
        DiskUsageProgressStage::Traversal
    );
    assert_eq!(stage_progress(&UsageAction::FindPaths), None);
    assert_eq!(DiskUsageProgress::default().stage, DiskUsageProgressStage::Starting);
}

#[test]
fn a_walk_counts_and_reports() {
    let soon = span(0, 0);
    let mut scan = ScanState::new();
    assert_eq!(scan.take_line(" s ", soon).unwrap().scanned_entries, 1);
    assert_eq!(scan.take_line("s", soon), None);
    let first = scan.take_line("u8", soon).unwrap();
    assert_eq!((first.scanned_entries, first.matched_entries, first.bytes), (2, 1, 4096));
    assert_eq!(scan.take_line("u2", soon), None);
    assert_eq!(scan.take_line("ux", soon), None);
    assert_eq!(scan.take_line("noise", soon), None);
    assert!(scan.last_report().is_some());
    let late = scan.take_line("u0", span(0, 500_000_000)).unwrap();
    assert_eq!((late.matched_entries, late.bytes), (3, 5120));
    assert_eq!(scan.last_report(), None);
    assert_eq!(scan.rows("alice"), vec![row(5120, 3)]);
    assert!(ScanState::new().rows("alice").is_empty());
}

#[test]
fn reports_fall_due_by_number_and_time() {
    assert!(should_emit_disk_usage_progress(1, 0, span(0, 0)));
    assert!(!should_emit_disk_usage_progress(2, 1, span(0, 499_999_999)));
    assert!(should_emit_disk_usage_progress(2, 1, span(0, 500_000_000)));
    assert!(should_emit_disk_usage_progress(1026, 2, span(0, 0)));
    assert!(!should_emit_disk_usage_progress(1025, 2, span(0, 0)));
}
