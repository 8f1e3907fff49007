//! Jobs, nodes, accounting records and disks.

use vstd::prelude::*;

use crate::map::count_sum;
use crate::map::GpuMap;
use crate::number::parse_64;
use crate::number::parse_64_or_zero;
use crate::number::read_64;
use crate::number::read_64_or_zero;
use crate::text::ascii_upper;
use crate::text::begins;
use crate::text::cut_once;
use crate::text::join;
use crate::text::join_texts;
use crate::text::lowercase;
use crate::text::pieces;
use crate::text::split;
use crate::text::split_chars;
use crate::text::split_once;
use crate::text::split_pieces;
use crate::text::starts_with;
use crate::text::strings;
use crate::text::texts;
use crate::text::to_chars;
use crate::text::upper;
use crate::text::CharClass;
use crate::units::human_bytes;
use crate::units::human_size;
use crate::units::CpuCounts;
use crate::units::MemoryMb;

verus! {

/// What the items of a list stand for.
pub open spec fn views<T: View>(items: Seq<T>) -> Seq<T::V> {
    Seq::new(items.len(), |i: int| items[i]@)
}

/// What an optional text stands for.
pub open spec fn opt_view(text: Option<String>) -> Option<Seq<char>> {
    match text {
        Some(t) => Some(t@),
        None => None,
    }
}

/// The optional text, or the empty text.
pub open spec fn opt_or_empty(text: Option<Seq<char>>) -> Seq<char> {
    match text {
        Some(t) => t,
        None => seq![],
    }
}

/// A copy of an optional text.
pub fn copy_opt(text: &Option<String>) -> (r: Option<String>)
    ensures
        opt_view(r) == opt_view(*text),
{
    match text {
        Some(t) => Some(t.clone()),
        None => None,
    }
}

/// A copy of the optional text, or an empty text.
pub fn copy_or_empty(text: &Option<String>) -> (r: String)
    ensures
        r@ == opt_or_empty(opt_view(*text)),
{
    match text {
        Some(t) => t.clone(),
        None => {
            let out = String::new();
            assert(out@ =~= seq![]);
            out
        },
    }
}

/// A copy of a list of texts.
pub fn copy_strings(list: &Vec<String>) -> (r: Vec<String>)
    ensures
        strings(r@) == strings(list@),
{
    let mut out: Vec<String> = Vec::new();
    let mut i: usize = 0;
    while i < list.len()
        invariant
            i <= list@.len(),
            out@.len() == i,
            forall|k: int| 0 <= k < i ==> (#[trigger] out@[k])@ == list@[k]@,
        decreases list@.len() - i,
    {
        out.push(list[i].clone());
        i += 1;
    }
    assert(strings(out@) =~= strings(list@));
    out
}

/// The words joined by single spaces, in lower case.
fn lower_line(words: Vec<String>) -> (r: String)
    ensures
        r@ == lowercase(join(strings(words@), " "@)),
{
    let text = join_texts(&words, " ");
    text.to_lowercase()
}

/// A job in the queue.
#[derive(Debug, PartialEq, Eq)]
pub struct Job {
    pub id: String,
    pub user: String,
    pub state: String,
    pub partition: String,
    pub name: String,
    pub nodes: String,
    pub node_list: String,
    pub cpus: u64,
    pub memory: MemoryMb,
    pub gpus: GpuMap,
    pub gres_raw: String,
    pub time_used: String,
    pub time_limit: String,
    pub reason: Option<String>,
    pub qos: String,
    pub priority: u64,
}

/// What a job stands for.
#[verifier::ext_equal]
pub struct JobView {
    pub id: Seq<char>,
    pub user: Seq<char>,
    pub state: Seq<char>,
    pub partition: Seq<char>,
    pub name: Seq<char>,
    pub nodes: Seq<char>,
    pub node_list: Seq<char>,
    pub cpus: u64,
    pub memory: MemoryMb,
    pub gpus: Seq<(Seq<char>, u64)>,
    pub gres_raw: Seq<char>,
    pub time_used: Seq<char>,
    pub time_limit: Seq<char>,
    pub reason: Option<Seq<char>>,
    pub qos: Seq<char>,
    pub priority: u64,
}

impl View for Job {
    type V = JobView;

    open spec fn view(&self) -> JobView {
        JobView {
            id: self.id@,
            user: self.user@,
            state: self.state@,
            partition: self.partition@,
            name: self.name@,
            nodes: self.nodes@,
            node_list: self.node_list@,
            cpus: self.cpus,
            memory: self.memory,
            gpus: self.gpus@,
            gres_raw: self.gres_raw@,
            time_used: self.time_used@,
            time_limit: self.time_limit@,
            reason: opt_view(self.reason),
            qos: self.qos@,
            priority: self.priority,
        }
    }
}

impl JobView {
    /// How many GPUs the job asks for.
    pub open spec fn gpu_count(self) -> nat {
        count_sum(self.gpus)
    }

    /// The text that a search looks through.
    pub open spec fn search_text(self) -> Seq<char> {
        lowercase(
            join(
                seq![
                    self.id,
                    self.user,
                    self.state,
                    self.partition,
                    self.name,
                    self.nodes,
                    self.node_list,
                    self.gres_raw,
                    opt_or_empty(self.reason),
                ],
                " "@,
            ),
        )
    }
}

impl Clone for Job {
    fn clone(&self) -> (r: Self)
        ensures
            r@ == self@,
    {
        Job {
            id: self.id.clone(),
            user: self.user.clone(),
            state: self.state.clone(),
            partition: self.partition.clone(),
            name: self.name.clone(),
            nodes: self.nodes.clone(),
            node_list: self.node_list.clone(),
            cpus: self.cpus,
            memory: self.memory,
            gpus: self.gpus.clone(),
            gres_raw: self.gres_raw.clone(),
            time_used: self.time_used.clone(),
            time_limit: self.time_limit.clone(),
            reason: copy_opt(&self.reason),
            qos: self.qos.clone(),
            priority: self.priority,
        }
    }
}

impl Job {
    /// How many GPUs the job asks for.
    #[must_use]
    pub fn gpu_total(&self) -> (r: u64)
        requires
            self@.gpu_count() <= u64::MAX,
        ensures
            r == self@.gpu_count(),
    {
        match self.gpus.checked_sum() {
            Some(n) => n,
            None => 0,
        }
    }

    /// The place of the job's state in the order of states.
    #[must_use]
    pub fn state_rank(&self) -> (r: u8)
        ensures
            r == rank_of_state(self@.state),
    {
        state_rank(self.state.as_str())
    }

    /// The numbers by which jobs are ordered by identifier.
    #[must_use]
    pub fn id_sort_key(&self) -> (r: (u64, u64))
        ensures
            r == job_number(self@.id),
    {
        numeric_job_id(self.id.as_str())
    }

    /// The text that a search looks through.
    #[must_use]
    pub fn searchable_text(&self) -> (r: String)
        ensures
            r@ == self@.search_text(),
    {
        let words = vec![
            self.id.clone(),
            self.user.clone(),
            self.state.clone(),
            self.partition.clone(),
            self.name.clone(),
            self.nodes.clone(),
            self.node_list.clone(),
            self.gres_raw.clone(),
            copy_or_empty(&self.reason),
        ];
        assert(strings(words@) =~= seq![
            self@.id,
            self@.user,
            self@.state,
            self@.partition,
            self@.name,
            self@.nodes,
            self@.node_list,
            self@.gres_raw,
            opt_or_empty(self@.reason),
        ]);
        lower_line(words)
    }

    /// Why the job waits, or nothing.
    #[must_use]
    pub fn status_reason(&self) -> (r: String)
        ensures
            r@ == opt_or_empty(self@.reason),
    {
        copy_or_empty(&self.reason)
    }
}

/// A node of the cluster.
#[derive(Debug, PartialEq, Eq)]
pub struct Node {
    pub name: String,
    pub state: String,
    pub cpus: CpuCounts,
    pub memory_total: MemoryMb,
    pub memory_reserved: MemoryMb,
    pub memory_free: MemoryMb,
    pub gpus: GpuMap,
    pub gpus_allocated: GpuMap,
    pub gres_raw: String,
    pub reason: Option<String>,
}

/// What a node stands for.
#[verifier::ext_equal]
pub struct NodeView {
    pub name: Seq<char>,
    pub state: Seq<char>,
    pub cpus: CpuCounts,
    pub memory_total: MemoryMb,
    pub memory_reserved: MemoryMb,
    pub memory_free: MemoryMb,
    pub gpus: Seq<(Seq<char>, u64)>,
    pub gpus_allocated: Seq<(Seq<char>, u64)>,
    pub gres_raw: Seq<char>,
    pub reason: Option<Seq<char>>,
}

impl View for Node {
    type V = NodeView;

    open spec fn view(&self) -> NodeView {
        NodeView {
            name: self.name@,
            state: self.state@,
            cpus: self.cpus,
            memory_total: self.memory_total,
            memory_reserved: self.memory_reserved,
            memory_free: self.memory_free,
            gpus: self.gpus@,
            gpus_allocated: self.gpus_allocated@,
            gres_raw: self.gres_raw@,
            reason: opt_view(self.reason),
        }
    }
}

impl NodeView {
    /// How many GPUs the node has.
    pub open spec fn gpu_count(self) -> nat {
        count_sum(self.gpus)
    }

    /// How many GPUs of the node are in use.
    pub open spec fn gpu_used(self) -> nat {
        count_sum(self.gpus_allocated)
    }

    /// How many GPUs of the node are not in use, at least zero.
    pub open spec fn gpu_free(self) -> nat {
        if self.gpu_count() >= self.gpu_used() {
            (self.gpu_count() - self.gpu_used()) as nat
        } else {
            0
        }
    }

    /// The text that a search looks through.
    pub open spec fn search_text(self) -> Seq<char> {
        lowercase(join(seq![self.name, self.state, self.gres_raw, opt_or_empty(self.reason)], " "@))
    }
}

impl Clone for Node {
    fn clone(&self) -> (r: Self)
        ensures
            r@ == self@,
    {
        Node {
            name: self.name.clone(),
            state: self.state.clone(),
            cpus: self.cpus,
            memory_total: self.memory_total,
            memory_reserved: self.memory_reserved,
            memory_free: self.memory_free,
            gpus: self.gpus.clone(),
            gpus_allocated: self.gpus_allocated.clone(),
            gres_raw: self.gres_raw.clone(),
            reason: copy_opt(&self.reason),
        }
    }
}

impl Node {
    /// How many GPUs the node has.
    #[must_use]
    pub fn gpu_total(&self) -> (r: u64)
        requires
            self@.gpu_count() <= u64::MAX,
        ensures
            r == self@.gpu_count(),
    {
        match self.gpus.checked_sum() {
            Some(n) => n,
            None => 0,
        }
    }

    /// How many GPUs of the node are in use.
    #[must_use]
    pub fn gpu_allocated(&self) -> (r: u64)
        requires
            self@.gpu_used() <= u64::MAX,
        ensures
            r == self@.gpu_used(),
    {
        match self.gpus_allocated.checked_sum() {
            Some(n) => n,
            None => 0,
        }
    }

    /// The text that a search looks through.
    #[must_use]
    pub fn searchable_text(&self) -> (r: String)
        ensures
            r@ == self@.search_text(),
    {
        let words = vec![
            self.name.clone(),
            self.state.clone(),
            self.gres_raw.clone(),
            copy_or_empty(&self.reason),
        ];
        assert(strings(words@) =~= seq![
            self@.name,
            self@.state,
            self@.gres_raw,
            opt_or_empty(self@.reason),
        ]);
        lower_line(words)
    }
}

/// A finished or running job, as accounting records it.
#[derive(Debug, PartialEq, Eq)]
pub struct AccountingRecord {
    pub job_id: String,
    pub user: String,
    pub state: String,
    pub partition: String,
    pub name: String,
    pub cpus: u64,
    pub memory: MemoryMb,
    pub elapsed: String,
    pub start: String,
    pub end: String,
}

/// What an accounting record stands for.
#[verifier::ext_equal]
pub struct RecordView {
    pub job_id: Seq<char>,
    pub user: Seq<char>,
    pub state: Seq<char>,
    pub partition: Seq<char>,
    pub name: Seq<char>,
    pub cpus: u64,
    pub memory: MemoryMb,
    pub elapsed: Seq<char>,
    pub start: Seq<char>,
    pub end: Seq<char>,
}

impl View for AccountingRecord {
    type V = RecordView;

    open spec fn view(&self) -> RecordView {
        RecordView {
            job_id: self.job_id@,
            user: self.user@,
            state: self.state@,
            partition: self.partition@,
            name: self.name@,
            cpus: self.cpus,
            memory: self.memory,
            elapsed: self.elapsed@,
            start: self.start@,
            end: self.end@,
        }
    }
}

impl RecordView {
    /// The text that a search looks through.
    pub open spec fn search_text(self) -> Seq<char> {
        lowercase(
            join(
                seq![
                    self.job_id,
                    self.user,
                    self.state,
                    self.partition,
                    self.name,
                    self.elapsed,
                    self.end,
                ],
                " "@,
            ),
        )
    }
}

impl Clone for AccountingRecord {
    fn clone(&self) -> (r: Self)
        ensures
            r@ == self@,
    {
        AccountingRecord {
            job_id: self.job_id.clone(),
            user: self.user.clone(),
            state: self.state.clone(),
            partition: self.partition.clone(),
            name: self.name.clone(),
            cpus: self.cpus,
            memory: self.memory,
            elapsed: self.elapsed.clone(),
            start: self.start.clone(),
            end: self.end.clone(),
        }
    }
}

impl AccountingRecord {
    /// The text that a search looks through.
    #[must_use]
    pub fn searchable_text(&self) -> (r: String)
        ensures
            r@ == self@.search_text(),
    {
        let words = vec![
            self.job_id.clone(),
            self.user.clone(),
            self.state.clone(),
            self.partition.clone(),
            self.name.clone(),
            self.elapsed.clone(),
            self.end.clone(),
        ];
        assert(strings(words@) =~= seq![
            self@.job_id,
            self@.user,
            self@.state,
            self@.partition,
            self@.name,
            self@.elapsed,
            self@.end,
        ]);
        lower_line(words)
    }
}

/// What a disk is made of, or how it is reached.
#[derive(Debug, Clone, Copy, PartialEq, Eq, Structural)]
pub enum DiskLabel {
    Ssd,
    Hdd,
    Nfs,
    ParallelFs,
    Unknown,
}

impl DiskLabel {
    /// The label as it is shown.
    pub open spec fn shown(self) -> Seq<char> {
        match self {
            DiskLabel::Ssd => "SSD"@,
            DiskLabel::Hdd => "HDD"@,
            DiskLabel::Nfs => "NFS"@,
            DiskLabel::ParallelFs => "PFS"@,
            DiskLabel::Unknown => "---"@,
        }
    }

    /// The label as it is shown.
    #[must_use]
    pub fn as_str(self) -> (r: &'static str)
        ensures
            r@ == self.shown(),
    {
        match self {
            DiskLabel::Ssd => "SSD",
            DiskLabel::Hdd => "HDD",
            DiskLabel::Nfs => "NFS",
            DiskLabel::ParallelFs => "PFS",
            DiskLabel::Unknown => "---",
        }
    }
}

/// A mounted file system.
#[derive(Debug, PartialEq, Eq)]
pub struct DiskInfo {
    pub mount: String,
    pub fstype: String,
    pub size: String,
    pub used: String,
    pub avail: String,
    pub use_percent: u8,
    pub label: DiskLabel,
}

/// What a mounted file system stands for.
#[verifier::ext_equal]
pub struct DiskView {
    pub mount: Seq<char>,
    pub fstype: Seq<char>,
    pub size: Seq<char>,
    pub used: Seq<char>,
    pub avail: Seq<char>,
    pub use_percent: u8,
    pub label: DiskLabel,
}

impl View for DiskInfo {
    type V = DiskView;

    open spec fn view(&self) -> DiskView {
        DiskView {
            mount: self.mount@,
            fstype: self.fstype@,
            size: self.size@,
            used: self.used@,
            avail: self.avail@,
            use_percent: self.use_percent,
            label: self.label,
        }
    }
}

impl Clone for DiskInfo {
    fn clone(&self) -> (r: Self)
        ensures
            r@ == self@,
    {
        DiskInfo {
            mount: self.mount.clone(),
            fstype: self.fstype.clone(),
            size: self.size.clone(),
            used: self.used.clone(),
            avail: self.avail.clone(),
            use_percent: self.use_percent,
            label: self.label,
        }
    }
}

/// How much of a disk a user holds.
#[derive(Debug, PartialEq, Eq)]
pub struct DiskUserUsage {
    pub user: String,
    pub bytes: u64,
    pub entries: u64,
}

/// What a user's share of a disk stands for.
#[verifier::ext_equal]
pub struct UsageView {
    pub user: Seq<char>,
    pub bytes: u64,
    pub entries: u64,
}

impl View for DiskUserUsage {
    type V = UsageView;

    open spec fn view(&self) -> UsageView {
        UsageView { user: self.user@, bytes: self.bytes, entries: self.entries }
    }
}

impl Default for DiskUserUsage {
    fn default() -> (r: Self)
        ensures
            r@ == (UsageView { user: seq![], bytes: 0, entries: 0 }),
    {
        let user = String::new();
        assert(user@ =~= seq![]);
        DiskUserUsage { user, bytes: 0, entries: 0 }
    }
}

impl Clone for DiskUserUsage {
    fn clone(&self) -> (r: Self)
        ensures
            r@ == self@,
    {
        DiskUserUsage { user: self.user.clone(), bytes: self.bytes, entries: self.entries }
    }
}

/// Copies of rows of disk usage.
pub fn copy_usage(rows: &Vec<DiskUserUsage>) -> (r: Vec<DiskUserUsage>)
    ensures
        views(r@) == views(rows@),
{
    let mut out: Vec<DiskUserUsage> = Vec::new();
    let mut i: usize = 0;
    while i < rows.len()
        invariant
            i <= rows@.len(),
            out@.len() == i,
            forall|k: int| 0 <= k < i ==> (#[trigger] out@[k])@ == rows@[k]@,
        decreases rows@.len() - i,
    {
        out.push(rows[i].clone());
        i += 1;
    }
    assert(views(out@) =~= views(rows@));
    out
}

impl DiskUserUsage {
    /// The number of bytes with a unit that fits it.
    #[must_use]
    pub fn human_bytes(&self) -> (r: String)
        ensures
            r@ == human_size(self@.bytes as nat),
    {
        human_bytes(self.bytes)
    }
}

/// The numbers by which a job identifier is ordered: its first run of digits, or the largest number
/// where there is none that fits, and its second, or zero.
pub open spec fn job_number(id: Seq<char>) -> (u64, u64) {
    let runs = pieces(id, CharClass::NotDigit);
    let base = if runs.len() > 0 {
        match parse_64(runs[0]) {
            Some(n) => n as u64,
            None => u64::MAX,
        }
    } else {
        u64::MAX
    };
    let task = if runs.len() > 1 {
        parse_64_or_zero(runs[1]) as u64
    } else {
        0
    };
    (base, task)
}

/// The numbers by which a job identifier is ordered.
#[must_use]
pub fn numeric_job_id(job_id: &str) -> (r: (u64, u64))
    ensures
        r == job_number(job_id@),
{
    let chars = to_chars(job_id);
    let runs = split_pieces(chars.as_slice(), CharClass::NotDigit);
    let ghost shown = texts(runs@);
    assert(shown.len() == runs@.len());
    let mut base: u64 = u64::MAX;
    let mut task: u64 = 0;
    if runs.len() > 0 {
        assert(shown[0] == runs@[0]@);
        if let Some(n) = read_64(runs[0].as_slice()) {
            base = n;
        }
    }
    if runs.len() > 1 {
        assert(shown[1] == runs@[1]@);
        task = read_64_or_zero(runs[1].as_slice());
    }
    (base, task)
}

/// The place of a state in the order of states: running, completing, pending, configuring, others.
pub open spec fn rank_of_state(state: Seq<char>) -> u8 {
    let s = ascii_upper(state);
    if starts_with(s, "R"@) {
        0
    } else if starts_with(s, "CG"@) || starts_with(s, "COMPLET"@) {
        1
    } else if starts_with(s, "P"@) {
        2
    } else if starts_with(s, "CONFIG"@) {
        3
    } else {
        4
    }
}

/// The place of a state in the order of states.
#[must_use]
pub fn state_rank(state: &str) -> (r: u8)
    ensures
        r == rank_of_state(state@),
{
    let chars = to_chars(state);
    let raised = upper(chars.as_slice());
    let s = raised.as_slice();
    if begins(s, "R") {
        0
    } else if begins(s, "CG") || begins(s, "COMPLET") {
        1
    } else if begins(s, "P") {
        2
    } else if begins(s, "CONFIG") {
        3
    } else {
        4
    }
}

/// The seconds that a time of the form `days-hours:minutes:seconds` or `minutes:seconds` says. A
/// field that is no number counts as zero, and so does a time with any other number of fields.
pub open spec fn slurm_seconds(time: Seq<char>) -> nat {
    let cut = split_once(time, CharClass::Exactly('-'));
    let days = match cut {
        Some((d, _)) => parse_64_or_zero(d),
        None => 0,
    };
    let rest = match cut {
        Some((_, t)) => t,
        None => time,
    };
    days * 86400 + clock_seconds(split(rest, CharClass::Exactly(':')))
}

/// The seconds that the fields of a clock time say.
pub open spec fn clock_seconds(fields: Seq<Seq<char>>) -> nat {
    if fields.len() == 3 {
        parse_64_or_zero(fields[0]) * 3600 + parse_64_or_zero(fields[1]) * 60 + parse_64_or_zero(
            fields[2],
        )
    } else if fields.len() == 2 {
        parse_64_or_zero(fields[0]) * 60 + parse_64_or_zero(fields[1])
    } else {
        0
    }
}

/// The seconds that a time says, where they fit.
pub fn checked_slurm_time(time_str: &str) -> (r: Option<u64>)
    ensures
        match r {
            Some(n) => n == slurm_seconds(time_str@),
            None => slurm_seconds(time_str@) > u64::MAX,
        },
{
    let chars = to_chars(time_str);
    let mut days: u64 = 0;
    let mut rest: &[char] = chars.as_slice();
    if let Some((d, t)) = cut_once(chars.as_slice(), CharClass::Exactly('-')) {
        days = read_64_or_zero(d);
        rest = t;
    }
    let fields = split_chars(rest, CharClass::Exactly(':'));
    let ghost shown = texts(fields@);
    assert(shown.len() == fields@.len());
    let mut total: u128 = days as u128 * 86400;
    if fields.len() == 3 {
        assert(shown[0] == fields@[0]@ && shown[1] == fields@[1]@ && shown[2] == fields@[2]@);
        let h: u64 = read_64_or_zero(fields[0].as_slice());
        let m: u64 = read_64_or_zero(fields[1].as_slice());
        let s: u64 = read_64_or_zero(fields[2].as_slice());
        total = total + h as u128 * 3600 + m as u128 * 60 + s as u128;
    } else if fields.len() == 2 {
        assert(shown[0] == fields@[0]@ && shown[1] == fields@[1]@);
        let m: u64 = read_64_or_zero(fields[0].as_slice());
        let s: u64 = read_64_or_zero(fields[1].as_slice());
        total = total + m as u128 * 60 + s as u128;
    }
    if total <= u64::MAX as u128 {
        Some(total as u64)
    } else {
        None
    }
}

/// The seconds that a time says.
#[must_use]
pub fn parse_slurm_time(time_str: &str) -> (r: u64)
    requires
        slurm_seconds(time_str@) <= u64::MAX,
    ensures
        r == slurm_seconds(time_str@),
{
    match checked_slurm_time(time_str) {
        Some(n) => n,
        None => 0,
    }
}

} // verus!
