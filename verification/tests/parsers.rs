use slmtop::amount::{checked_cpu_state, parse_cpu_state, parse_memory_mb, parse_u64};
use slmtop::disks::{
    parse_df, parse_du_user_usage, parse_find_current_user_usage, parse_find_user_usage,
    parse_lfs_quota_user_usage, rotational_files, Probe,
};
use slmtop::gres::{checked_gpu_map, gpu_map_from, parse_gpu_map};
use slmtop::model::{DiskLabel, DiskUserUsage};
use slmtop::tables::{checked_sinfo, checked_squeue, parse_sacct, parse_sinfo, parse_squeue};
use slmtop::units::CpuCounts;

#[test]
fn parses_memory_units() {
    assert_eq!(parse_memory_mb("1024").0, 1024);
    assert_eq!(parse_memory_mb("1G").0, 1024);
    assert_eq!(parse_memory_mb("1.5T").0, 1_572_864);
    assert_eq!(parse_memory_mb("512K").0, 0);
    assert_eq!(parse_memory_mb("4000Mc").0, 4000);
}

#[test]
fn parses_gpu_strings() {
    let parsed = parse_gpu_map("gpu:a100:2,gpu:h100=1,gres/gpu:4");
    assert_eq!(parsed.get("a100"), Some(&2));
    assert_eq!(parsed.get("h100"), Some(&1));
    assert_eq!(parsed.get("generic"), Some(&4));
}

#[test]
fn parses_squeue_rows() {
    let output = "123|alice|RUNNING|gpu|train|1|8|32G|gpu:a100:2|01:02:03|node001|None\n";
    let parsed = parse_squeue(output);
    assert!(parsed.warnings.is_empty());
    assert_eq!(parsed.rows.len(), 1);
    assert_eq!(parsed.rows[0].gpu_total(), 2);
    assert_eq!(parsed.rows[0].memory.0, 32 * 1024);
    assert_eq!(parsed.rows[0].node_list, "node001");
}

#[test]
fn parses_sinfo_rows() {
    let output = "node001|idle|64|4/58/2/64|257000|128000|gpu:a100:4|healthy\n";
    let parsed = parse_sinfo(output);
    assert!(parsed.warnings.is_empty());
    assert_eq!(parsed.rows[0].cpus.allocated, 4);
    assert_eq!(parsed.rows[0].gpu_total(), 4);
    assert_eq!(parsed.rows[0].memory_reserved.0, 129_000);
}

#[test]
fn parses_sacct_rows() {
    let output = "123|alice|COMPLETED|cpu|analysis|16|8G|00:05:00|2026-01-01T00:00:00|2026-01-01T00:05:00\n";
    let parsed = parse_sacct(output);
    assert_eq!(parsed.rows[0].job_id, "123");
    assert_eq!(parsed.rows[0].cpus, 16);
    assert_eq!(parsed.rows[0].memory.0, 8192);
}

#[test]
fn parses_find_user_usage() {
    let rows = parse_find_user_usage("alice\t2\nbob\t4\nalice\t3\n");
    assert_eq!(rows.len(), 2);
    assert_eq!(rows[0].user, "alice");
    assert_eq!(rows[0].bytes, 5 * 512);
    assert_eq!(rows[0].entries, 2);
    assert_eq!(rows[1].user, "bob");
    assert_eq!(rows[1].bytes, 4 * 512);
}

#[test]
fn parses_find_current_user_usage() {
    let rows = parse_find_current_user_usage("2\n0\n4\ninvalid\n", "alice");
    assert_eq!(rows.len(), 1);
    assert_eq!(rows[0].user, "alice");
    assert_eq!(rows[0].bytes, 6 * 512);
    assert_eq!(rows[0].entries, 3);
}

#[test]
fn parses_du_user_usage() {
    let rows = parse_du_user_usage("4096\t/vol/projects/alice\n", "alice");
    assert_eq!(rows.len(), 1);
    assert_eq!(rows[0].user, "alice");
    assert_eq!(rows[0].bytes, 4096);
    assert_eq!(rows[0].entries, 0);
}

#[test]
fn parses_lfs_quota_user_usage() {
    let output = "\
Disk quotas for usr alice (uid 1000):
     Filesystem  kbytes   quota   limit   grace   files   quota   limit   grace
/vol/projects
                 1.5G       0       0       -       10       0       0       -
";
    let rows = parse_lfs_quota_user_usage(output, "alice");
    assert_eq!(rows.len(), 1);
    assert_eq!(rows[0].user, "alice");
    assert_eq!(rows[0].bytes, 1_610_612_736);
    assert_eq!(rows[0].entries, 10);
}

#[test]
fn memory_without_a_number_is_zero() {
    assert_eq!(parse_memory_mb("").0, 0);
    assert_eq!(parse_memory_mb("  N/A ").0, 0);
    assert_eq!(parse_memory_mb("(null)").0, 0);
    assert_eq!(parse_memory_mb("Unknown").0, 0);
    assert_eq!(parse_memory_mb("G").0, 0);
}

#[test]
fn memory_fractions_and_limits() {
    assert_eq!(parse_memory_mb("2.25G").0, 2304);
    assert_eq!(parse_memory_mb("1.9M").0, 1);
    assert_eq!(parse_memory_mb("2048K").0, 2);
    assert_eq!(parse_memory_mb("1.2.5G").0, 1280);
    assert_eq!(parse_memory_mb("18446744073709551615T").0, u64::MAX);
    assert_eq!(parse_memory_mb("18446744073709551616").0, 0);
}

#[test]
fn numbers_stop_at_the_first_other_character() {
    assert_eq!(parse_u64(" 42abc"), 42);
    assert_eq!(parse_u64("abc"), 0);
    assert_eq!(parse_u64("+4"), 0);
    assert_eq!(parse_u64("99999999999999999999"), 0);
}

#[test]
fn cpu_state_fills_in_a_missing_total() {
    assert_eq!(
        parse_cpu_state("4/58/2/64", 0),
        CpuCounts { total: 64, allocated: 4, idle: 58, other: 2 }
    );
    assert_eq!(
        parse_cpu_state("7", 10),
        CpuCounts { total: 10, allocated: 7, idle: 0, other: 0 }
    );
    let chars: Vec<char> = "18446744073709551615/1/0".chars().collect();
    assert!(checked_cpu_state(&chars, 0).is_none());
    assert!(checked_cpu_state(&chars, 5).is_some());
}

#[test]
fn gpu_strings_without_gpus_are_empty() {
    assert!(parse_gpu_map("").is_empty());
    assert!(parse_gpu_map("N/A").is_empty());
    assert!(parse_gpu_map("(null)").is_empty());
    assert!(parse_gpu_map("none").is_empty());
    assert!(parse_gpu_map("tpu:4").is_empty());
    assert!(parse_gpu_map("gpu:a100:0").is_empty());
}

#[test]
fn gpu_counts_of_a_type_add_up() {
    let parsed = parse_gpu_map("GPU:A100:2(S:0-1),gpu:a100:3,gpu=5,gpu://:1");
    assert_eq!(parsed.get("a100"), Some(&5));
    assert_eq!(parsed.get("generic"), Some(&6));
    assert_eq!(parsed.len(), 2);
    assert_eq!(parsed.key_at(0), "a100");
    assert_eq!(*parsed.value_at(1), 6);
}

#[test]
fn gpu_counts_that_do_not_fit_are_refused() {
    assert!(checked_gpu_map("gpu:a:18446744073709551615,gpu:a:1").is_none());
    assert_eq!(
        checked_gpu_map("gpu:a:18446744073709551615,gpu:b:1").unwrap().get("b"),
        Some(&1)
    );
    let line = "1|u|R|p|n|1|1|1|gpu:a:18446744073709551615,gpu:a:1|0:01|n1\n";
    assert!(checked_squeue(line).is_none());
    let line = "n1|idle|0|18446744073709551615/1/0|1|1|gpu:a:1\n";
    assert!(checked_sinfo(line).is_none());
    assert_eq!(checked_sinfo("n1|idle|0|1/1/0|1|1|gpu:a:1\n").unwrap().rows[0].cpus.total, 2);
}

#[test]
fn gpu_map_of_given_matches() {
    let found = vec![
        vec![Some("x".to_string()), Some(" a100/ ".to_string()), Some("2".to_string())],
        vec![Some("x".to_string()), None, Some("7".to_string())],
        vec![Some("x".to_string()), Some("b".to_string()), Some("many".to_string())],
    ];
    let map = gpu_map_from(&found).unwrap();
    assert_eq!(map.get("a100"), Some(&2));
    assert_eq!(map.get("generic"), Some(&7));
    assert_eq!(map.get("b"), None);
}

#[test]
fn short_lines_give_warnings() {
    let parsed = parse_squeue("JobID|USER\n\n  1|alice|R  \n");
    assert!(parsed.rows.is_empty());
    assert_eq!(parsed.warnings, vec!["squeue line 3 has 3 fields: 1|alice|R".to_string()]);
    let parsed = parse_sinfo("NODELIST|STATE\nhostnames\nn1|idle\n");
    assert!(parsed.rows.is_empty());
    assert_eq!(parsed.warnings, vec!["sinfo line 3 has 2 fields: n1|idle".to_string()]);
    let parsed = parse_sacct("jobid|x\nonly\r\n");
    assert_eq!(parsed.warnings, vec!["sacct line 2 has 1 fields: only".to_string()]);
}

#[test]
fn squeue_reads_reason_and_limit() {
    let parsed = parse_squeue("1|u|PD|p|n|1|x|1G|none|0:00||Priority|1-00:00:00\n2|u|PD|p|n|1|2|1G||0:00|||\n");
    assert_eq!(parsed.rows[0].reason, Some("Priority".to_string()));
    assert_eq!(parsed.rows[0].time_limit, "1-00:00:00");
    assert_eq!(parsed.rows[0].cpus, 0);
    assert_eq!(parsed.rows[0].node_list, "");
    assert_eq!(parsed.rows[0].status_reason(), "Priority");
    assert_eq!(parsed.rows[1].reason, None);
    assert_eq!(parsed.rows[1].time_limit, "");
    assert_eq!(parsed.rows[1].status_reason(), "");
}

#[test]
fn sinfo_reads_used_gpus() {
    let parsed = parse_sinfo("n1|mix|8|2/6/0/8|1000|2000|gpu:a100:4||gpu:a100:3(IDX:0-2)\n");
    let node = &parsed.rows[0];
    assert_eq!(node.gpu_allocated(), 3);
    assert_eq!(node.memory_reserved.0, 0);
    assert_eq!(node.reason, None);
    assert_eq!(node.gres_raw, "gpu:a100:4");
}

#[test]
fn df_lists_disks_and_leaves_pseudo_file_systems_out() {
    let output = "Filesystem Type Size Used Avail Use% Mounted on\n\
        tmpfs TMPFS 1G 0 1G 0% /run\n\
        /dev/nvme0n1p1 ext4 100G 42G 58G 42% /\n\
        /dev/sda1 xfs 1T 1G 1T 300% /mnt/my disk\n\
        /dev/sdb2 xfs 1T 1G 1T x% /b\n\
        /dev/sdc1 xfs 1T 1G 1T 7% /c\n\
        srv:/x NFS4 9T 1T 8T 12% /net\n\
        lus Lustre 9P 1P 8P 11% /scratch\n\
        short line\n";
    let files = rotational_files(output);
    assert_eq!(
        files,
        vec![
            "/sys/block/sda/queue/rotational".to_string(),
            "/sys/block/sdb/queue/rotational".to_string(),
            "/sys/block/sdc/queue/rotational".to_string(),
        ]
    );
    let probes = vec![
        Probe { path: files[0].clone(), content: Some("0\n".to_string()) },
        Probe { path: files[1].clone(), content: Some("1\n".to_string()) },
        Probe { path: files[2].clone(), content: None },
    ];
    let disks = parse_df(output, &probes);
    let labels: Vec<DiskLabel> = disks.iter().map(|d| d.label).collect();
    assert_eq!(
        labels,
        vec![
            DiskLabel::Ssd,
            DiskLabel::Ssd,
            DiskLabel::Hdd,
            DiskLabel::Unknown,
            DiskLabel::Nfs,
            DiskLabel::ParallelFs,
        ]
    );
    assert_eq!(disks[0].use_percent, 42);
    assert_eq!(disks[1].use_percent, 0);
    assert_eq!(disks[1].mount, "/mnt/my disk");
    assert_eq!(disks[4].fstype, "NFS4");
    assert_eq!(disks[2].use_percent, 0);
}

#[test]
fn find_usage_breaks_ties_by_name_and_saturates() {
    let rows = parse_find_user_usage("zoe\t1\nann\t1\n\t5\n\nbob\tx\nmax\t18446744073709551615\n");
    let names: Vec<&str> = rows.iter().map(|r| r.user.as_str()).collect();
    assert_eq!(names, vec!["max", "ann", "zoe", "5", "bob"]);
    assert_eq!(rows[0].bytes, u64::MAX);
    assert_eq!(rows[3].bytes, 0);
    assert_eq!(rows[3].entries, 1);
}

#[test]
fn usage_reports_without_numbers_are_empty() {
    assert!(parse_find_current_user_usage("nothing\n", "alice").is_empty());
    assert!(parse_du_user_usage("du: cannot read\n\n", "alice").is_empty());
    assert!(parse_lfs_quota_user_usage("Disk quotas\nnone\n/vol\n", "alice").is_empty());
    assert_eq!(
        parse_du_user_usage("\ndu: x\n17 /a\n18 /b\n", "bob"),
        vec![DiskUserUsage { user: "bob".to_string(), bytes: 17, entries: 0 }]
    );
}

#[test]
fn quota_amounts_have_units() {
    let rows = parse_lfs_quota_user_usage("/vol 2K* 0 0 - 12 0\n", "u");
    assert_eq!((rows[0].bytes, rows[0].entries), (2048, 12));
    let rows = parse_lfs_quota_user_usage("7\n", "u");
    assert_eq!((rows[0].bytes, rows[0].entries), (7, 0));
    let rows = parse_lfs_quota_user_usage("3P 0 0 - x\n", "u");
    assert_eq!((rows[0].bytes, rows[0].entries), (3 * 1024 * 1024 * 1024 * 1024 * 1024, 0));
}
