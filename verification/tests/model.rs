use slmtop::clock::Timestamp;
use slmtop::filter::{filter_accounting, filter_jobs, filter_nodes, FilterExpression};
use slmtop::map::TextMap;
use slmtop::model::{
    checked_slurm_time, numeric_job_id, parse_slurm_time, state_rank, AccountingRecord, DiskLabel,
    DiskUserUsage, Job, Node,
};
use slmtop::number::{read_64, show, show_padded};
use slmtop::order::{rank_texts, Rank};
use slmtop::panel::{CoreError, PanelId};
use slmtop::snapshot::{age_at, snapshot_age, ClusterSnapshot};
use slmtop::sorting::{
    sort_accounting, sort_jobs, sort_nodes, AccountingColumn, JobColumn, NodeColumn,
};
use slmtop::summary::{
    bucket_display, gpus_in_range, summarize_gpus, summarize_jobs, tallies_in_range, JobBucket,
};
use slmtop::tables::{parse_sacct, parse_sinfo, parse_squeue};
use slmtop::units::{human_bytes, MemoryMb, SortDirection};

fn jobs() -> Vec<Job> {
    parse_squeue(
        "10_2|alice|RUNNING|gpu|train|1|8|32G|gpu:a100:2|1-00:00:00|n1\n\
         9|bob|PENDING|cpu|Build|2|4|1G||0:10|\n\
         10_1|Alice|COMPLETING|gpu|eval|1|1|512M|gpu:h100:1|5:00|n2\n\
         8|carol|FAILED|CPU|test|1|2|2G|gpu:a100:1|1:00:00|n3\n",
    )
    .rows
}

fn nodes() -> Vec<Node> {
    parse_sinfo(
        "n2|idle|64|0/64/0/64|256000|256000|gpu:a100:4||gpu:a100:1\n\
         n1|DRAIN*|32|32/0/0/32|128000|1000|gpu:h100:2|bad disk|gpu:h100:2\n\
         n3|mixed|16|8/8/0/16|64000|32000|\n",
    )
    .rows
}

fn records() -> Vec<AccountingRecord> {
    parse_sacct(
        "2|alice|COMPLETED|gpu|a|4|8G|00:05:00|s|2026-01-02\n\
         1|bob|FAILED|cpu|b|8|1G|00:01:00|s|2026-01-01\n",
    )
    .rows
}

fn ids(list: &[Job]) -> Vec<&str> {
    list.iter().map(|j| j.id.as_str()).collect()
}

#[test]
fn memory_in_words() {
    assert_eq!(MemoryMb(1023).human(), "1023M");
    assert_eq!(MemoryMb(1024).human(), "1.0G");
    assert_eq!(MemoryMb(1535).human(), "1.4G");
    assert_eq!(MemoryMb(1024 * 1024).human(), "1.00T");
    assert_eq!(MemoryMb(1024 * 1024 + 52429).human(), "1.05T");
    assert_eq!(MemoryMb(u64::MAX).human(), "175921860444.15T");
    assert_eq!(MemoryMb::zero().saturating_sub(MemoryMb(5)), MemoryMb(0));
    assert_eq!(MemoryMb(7).saturating_sub(MemoryMb(5)), MemoryMb(2));
}

#[test]
fn bytes_in_words() {
    assert_eq!(human_bytes(0), "0B");
    assert_eq!(human_bytes(1023), "1023B");
    assert_eq!(human_bytes(1024), "1.0K");
    assert_eq!(human_bytes(1536 * 1024), "1.5M");
    assert_eq!(human_bytes(5 * 1024 * 1024 * 1024), "5.0G");
    assert_eq!(human_bytes(1 << 40), "1.0T");
    assert_eq!(human_bytes(1 << 50), "1.0P");
    assert_eq!(human_bytes(u64::MAX), "1638.3P");
    assert_eq!(DiskUserUsage { user: String::new(), bytes: 2048, entries: 0 }.human_bytes(), "2.0K");
}

#[test]
fn numbers_in_words_and_back() {
    assert_eq!(show(0), "0");
    assert_eq!(show(u64::MAX), "18446744073709551615");
    assert_eq!(show_padded(7, 3), "007");
    assert_eq!(show_padded(1234, 3), "1234");
    let chars: Vec<char> = show(987).chars().collect();
    assert_eq!(read_64(&chars), Some(987));
    assert_eq!(read_64(&['+', '5']), Some(5));
    assert_eq!(read_64(&['-', '5']), None);
    assert_eq!(read_64(&[]), None);
}

#[test]
fn toggling_twice_is_nothing() {
    assert_eq!(SortDirection::Asc.toggled(), SortDirection::Desc);
    assert_eq!(SortDirection::Desc.toggled().toggled(), SortDirection::Desc);
    assert_eq!(SortDirection::default(), SortDirection::Asc);
}

#[test]
fn job_numbers() {
    assert_eq!(numeric_job_id("123_45"), (123, 45));
    assert_eq!(numeric_job_id("123_[1-5]"), (123, 1));
    assert_eq!(numeric_job_id("abc"), (u64::MAX, 0));
    assert_eq!(numeric_job_id("99999999999999999999_7"), (u64::MAX, 7));
}

#[test]
fn state_ranks() {
    assert_eq!(state_rank("running"), 0);
    assert_eq!(state_rank("CG"), 1);
    assert_eq!(state_rank("Completing"), 1);
    assert_eq!(state_rank("PD"), 2);
    assert_eq!(state_rank("CONFIGURING"), 3);
    assert_eq!(state_rank("FAILED"), 4);
    assert_eq!(jobs()[0].state_rank(), 0);
    assert_eq!(jobs()[0].id_sort_key(), (10, 2));
}

#[test]
fn slurm_times() {
    assert_eq!(parse_slurm_time("1-02:03:04"), 93_784);
    assert_eq!(parse_slurm_time("02:03:04"), 7_384);
    assert_eq!(parse_slurm_time("03:04"), 184);
    assert_eq!(parse_slurm_time("04"), 0);
    assert_eq!(parse_slurm_time("2-04"), 172_800);
    assert_eq!(parse_slurm_time("x-1:y"), 60);
    assert_eq!(checked_slurm_time("18446744073709551615-00:00:00"), None);
    assert_eq!(checked_slurm_time("0-00:00:18446744073709551615"), Some(u64::MAX));
}

#[test]
fn jobs_sorted_by_each_column() {
    let sorted = |column, direction| {
        let list = sort_jobs(jobs(), column, direction);
        list.iter().map(|j| j.id.clone()).collect::<Vec<_>>()
    };
    let asc = SortDirection::Asc;
    assert_eq!(sorted(JobColumn::JobId, asc), vec!["8", "9", "10_1", "10_2"]);
    assert_eq!(sorted(JobColumn::JobId, SortDirection::Desc), vec!["10_2", "10_1", "9", "8"]);
    assert_eq!(sorted(JobColumn::State, asc), vec!["10_2", "10_1", "9", "8"]);
    assert_eq!(sorted(JobColumn::User, asc), vec!["10_2", "10_1", "9", "8"]);
    assert_eq!(sorted(JobColumn::User, SortDirection::Desc), vec!["8", "9", "10_2", "10_1"]);
    assert_eq!(sorted(JobColumn::Partition, asc), vec!["9", "8", "10_2", "10_1"]);
    assert_eq!(sorted(JobColumn::Name, asc), vec!["9", "10_1", "8", "10_2"]);
    assert_eq!(sorted(JobColumn::Nodes, asc), vec!["10_2", "10_1", "8", "9"]);
    assert_eq!(sorted(JobColumn::Cpus, asc), vec!["10_1", "8", "9", "10_2"]);
    assert_eq!(sorted(JobColumn::Gpus, asc), vec!["9", "10_1", "8", "10_2"]);
    assert_eq!(sorted(JobColumn::Memory, asc), vec!["10_1", "9", "8", "10_2"]);
    assert_eq!(sorted(JobColumn::Time, asc), vec!["9", "10_1", "8", "10_2"]);
    assert_eq!(sorted(JobColumn::Qos, asc), vec!["10_2", "9", "10_1", "8"]);
    assert_eq!(sorted(JobColumn::Priority, SortDirection::Desc), vec!["10_2", "9", "10_1", "8"]);
}

#[test]
fn sorting_goes_by_unicode_lower_case() {
    let mut list = jobs();
    list[0].user = "ÖMER".to_string();
    list[1].user = "özlem".to_string();
    list[2].user = "öa".to_string();
    list[3].user = "Zed".to_string();
    let sorted = sort_jobs(list, JobColumn::User, SortDirection::Asc);
    assert_eq!(ids(&sorted), vec!["8", "10_1", "10_2", "9"]);
}

#[test]
fn nodes_sorted_by_each_column() {
    let sorted = |column, direction| {
        let list = sort_nodes(nodes(), column, direction);
        list.iter().map(|n| n.name.clone()).collect::<Vec<_>>()
    };
    let asc = SortDirection::Asc;
    assert_eq!(sorted(NodeColumn::Name, asc), vec!["n1", "n2", "n3"]);
    assert_eq!(sorted(NodeColumn::State, asc), vec!["n1", "n2", "n3"]);
    assert_eq!(sorted(NodeColumn::CpusTotal, asc), vec!["n3", "n1", "n2"]);
    assert_eq!(sorted(NodeColumn::CpusFree, SortDirection::Desc), vec!["n2", "n3", "n1"]);
    assert_eq!(sorted(NodeColumn::MemoryTotal, asc), vec!["n3", "n1", "n2"]);
    assert_eq!(sorted(NodeColumn::MemoryFree, asc), vec!["n1", "n3", "n2"]);
    assert_eq!(sorted(NodeColumn::GpusTotal, SortDirection::Desc), vec!["n2", "n1", "n3"]);
    assert_eq!(sorted(NodeColumn::GpusFree, SortDirection::Desc), vec!["n2", "n1", "n3"]);
}

#[test]
fn records_sorted_by_each_column() {
    let first = |column, direction| sort_accounting(records(), column, direction)[0].job_id.clone();
    let asc = SortDirection::Asc;
    assert_eq!(first(AccountingColumn::JobId, asc), "1");
    assert_eq!(first(AccountingColumn::User, asc), "2");
    assert_eq!(first(AccountingColumn::State, asc), "2");
    assert_eq!(first(AccountingColumn::Partition, asc), "1");
    assert_eq!(first(AccountingColumn::Cpus, asc), "2");
    assert_eq!(first(AccountingColumn::Memory, asc), "1");
    assert_eq!(first(AccountingColumn::Elapsed, SortDirection::Desc), "2");
    assert_eq!(first(AccountingColumn::End, asc), "1");
    assert_eq!(sort_accounting(Vec::new(), AccountingColumn::End, asc).len(), 0);
}

#[test]
fn filters_are_parsed() {
    let f = FilterExpression::parse("  Owner=me STATE=Running part=a partition=gpu gpu=A100 Train x=1 Y ");
    assert_eq!(f.owner.as_deref(), Some("me"));
    assert_eq!(f.state.as_deref(), Some("Running"));
    assert_eq!(f.partition.as_deref(), Some("gpu"));
    assert_eq!(f.gpu_type.as_deref(), Some("A100"));
    assert_eq!(f.node_state, None);
    assert_eq!(f.query, "train x=1 y");
    assert!(!f.is_empty());
    assert!(FilterExpression::parse(" \t ").is_empty());
    assert_eq!(FilterExpression::parse("nstate=down").node_state.as_deref(), Some("down"));
    assert_eq!(FilterExpression::parse("user=").owner.as_deref(), Some(""));
    assert_eq!(FilterExpression::parse("gres=a=b").gpu_type.as_deref(), Some("a=b"));
}

#[test]
fn only_blank_texts_write_no_filter() {
    for text in ["", " ", "\t\n", "\u{3000}\u{85} "] {
        assert!(FilterExpression::parse(text).is_empty());
        assert_eq!(FilterExpression::parse(text), FilterExpression::default());
    }
    for text in ["x", "=", "owner=", " Ä ", "İ", "ß=1", "GPU=\u{3000}x"] {
        assert!(!FilterExpression::parse(text).is_empty());
        assert_ne!(FilterExpression::parse(text), FilterExpression::default());
    }
}

#[test]
fn jobs_filtered() {
    let list = jobs();
    let passing = |text: &str| {
        let f = FilterExpression::parse(text);
        filter_jobs(&list, &f, "alice").iter().map(|j| j.id.clone()).collect::<Vec<_>>()
    };
    assert_eq!(passing("").len(), 4);
    assert_eq!(passing("owner=me"), vec!["10_2"]);
    assert_eq!(passing("owner=others"), vec!["9", "10_1", "8"]);
    assert_eq!(passing("owner=ALL").len(), 4);
    assert_eq!(passing("owner=ALICE"), vec!["10_2", "10_1"]);
    assert_eq!(passing("state=r"), vec!["10_2"]);
    assert_eq!(passing("state=pd"), vec!["9"]);
    assert_eq!(passing("state=fail"), vec!["8"]);
    assert_eq!(passing("part=Cpu"), vec!["9", "8"]);
    assert_eq!(passing("gpu=A1"), vec!["10_2", "8"]);
    assert_eq!(passing("owner=others gpu=a100 test"), vec!["8"]);
    assert_eq!(passing("n2"), vec!["10_1"]);
}

#[test]
fn nodes_and_records_filtered() {
    let list = nodes();
    let f = FilterExpression::parse("node_state=drain gpu=h100");
    let names: Vec<&str> = filter_nodes(&list, &f).iter().map(|n| n.name.as_str()).collect();
    assert_eq!(names, vec!["n1"]);
    let f = FilterExpression::parse("bad disk");
    assert_eq!(filter_nodes(&list, &f).len(), 1);
    let rows = records();
    let f = FilterExpression::parse("owner=other state=fail part=CPU");
    assert_eq!(filter_accounting(&rows, &f, "alice").len(), 1);
    let f = FilterExpression::parse("owner=me state=fail");
    assert_eq!(filter_accounting(&rows, &f, "alice").len(), 0);
}

#[test]
fn me_and_others_part_the_jobs() {
    let list = jobs();
    let me = filter_jobs(&list, &FilterExpression::parse("owner=me"), "alice").len();
    let others = filter_jobs(&list, &FilterExpression::parse("owner=others"), "alice").len();
    assert_eq!(me + others, list.len());
}

#[test]
fn job_summaries_add_up() {
    let list = jobs();
    assert!(tallies_in_range(&list));
    let s = summarize_jobs(&list, "alice");
    assert_eq!(s.all.running, JobBucket { jobs: 1, cpus: 8, memory: MemoryMb(32768), gpus: 2 });
    assert_eq!(s.all.pending.jobs, 1);
    assert_eq!(s.me.running, s.all.running);
    assert_eq!(s.others.pending.cpus, 4);
    assert_eq!(s.users.len(), 2);
    assert_eq!(s.users.get("bob").unwrap().pending.jobs, 1);
    assert_eq!(s.users.get("carol"), None);
    assert_eq!(bucket_display(&s.all.running), "1 jobs / 2 GPU / 8 CPU / 32.0G");
}

#[test]
fn gpu_summaries_add_up() {
    let g = summarize_gpus(&nodes(), &jobs());
    assert!(gpus_in_range(&nodes(), &jobs()));
    assert_eq!((g.total, g.active, g.reserved, g.free_estimate), (6, 3, 0, 3));
    let a100 = g.by_type.get("a100").unwrap();
    assert_eq!((a100.total, a100.active, a100.free_estimate), (4, 1, 3));
    let h100 = g.by_type.get("h100").unwrap();
    assert_eq!((h100.total, h100.active, h100.free_estimate), (2, 2, 0));
    let mut waiting = jobs();
    waiting[0].state = "PD".to_string();
    let g = summarize_gpus(&nodes(), &waiting);
    assert_eq!((g.reserved, g.by_type.get("a100").unwrap().reserved), (2, 2));
}

#[test]
fn sums_that_do_not_fit_are_noticed() {
    let mut list = jobs();
    list[0].cpus = u64::MAX;
    assert!(tallies_in_range(&list));
    list[1].state = "R".to_string();
    assert!(!tallies_in_range(&list));
    let mut many = nodes();
    many[0].gpus.insert("x", u64::MAX);
    assert!(!gpus_in_range(&many, &[]));
}

#[test]
fn maps_keep_their_keys_in_order() {
    let mut map: TextMap<u64> = TextMap::new();
    map.insert("b", 1);
    map.insert("a", 2);
    map.insert("b", 3);
    map.insert("", 4);
    assert_eq!(map.len(), 3);
    assert_eq!(map.key_at(0), "");
    assert_eq!(map.key_at(1), "a");
    assert_eq!(map.get("b"), Some(&3));
    assert_eq!(map.get("c"), None);
    assert_eq!(map.checked_sum(), Some(9));
    assert_eq!(map.clone(), map);
    assert_eq!(rank_texts(&['a'], &['a', 'b']), Rank::Before);
}

#[test]
fn panels_and_labels() {
    for (i, panel) in PanelId::ALL.into_iter().enumerate() {
        assert_eq!(panel.index(), i);
    }
    assert_eq!(PanelId::Gpus.title(), "GPUs / Resources");
    assert_eq!(PanelId::default(), PanelId::Jobs);
    assert_eq!(DiskLabel::ParallelFs.as_str(), "PFS");
    assert_eq!(DiskLabel::Unknown.as_str(), "---");
    assert_eq!(CoreError::UnknownPanel("x".to_string()).message(), "unknown panel: x");
}

#[test]
fn snapshots_have_an_age() {
    let at = Timestamp { before_epoch: false, secs: 100, nanos: 0 };
    let s = ClusterSnapshot::captured(jobs(), nodes(), records(), Vec::new(), "alice", Vec::new(), at);
    assert_eq!(s.captured_at, at);
    assert_eq!(s.job_summary.me.running.jobs, 1);
    let later = Timestamp { before_epoch: false, secs: 107, nanos: 5 };
    let age = age_at(&s, later).unwrap();
    assert_eq!((age.secs, age.nanos), (7, 5));
    let earlier = Timestamp { before_epoch: false, secs: 99, nanos: 0 };
    assert_eq!(age_at(&s, earlier), None);
    let now = ClusterSnapshot::new(jobs(), nodes(), records(), Vec::new(), "alice", Vec::new());
    assert!(snapshot_age(&now).map_or(true, |age| age.secs < 60));
    assert!(snapshot_age(&s).unwrap().secs > 1_600_000_000);
}

#[test]
fn searchable_texts() {
    assert_eq!(
        jobs()[1].searchable_text(),
        "9 bob pending cpu build 2   "
    );
    assert_eq!(nodes()[1].searchable_text(), "n1 drain* gpu:h100:2 bad disk");
    assert_eq!(records()[0].searchable_text(), "2 alice completed gpu a 00:05:00 2026-01-02");
}
