//! Parsers for the tables that `squeue`, `sinfo` and `sacct` print.

use vstd::prelude::*;

use crate::amount::checked_cpu_state;
use crate::amount::cpu_counts;
use crate::amount::cpu_state_fits;
use crate::amount::leading_number;
use crate::amount::memory_said;
use crate::amount::read_leading;
use crate::amount::read_memory;
use crate::gres::gpu_counts_fit;
use crate::gres::gpus_said;
use crate::gres::items_said;
use crate::gres::read_gpus;
use crate::gres::sums_fit;
use crate::map::GpuMap;
use crate::model::opt_view;
use crate::model::views;
use crate::model::AccountingRecord;
use crate::model::Job;
use crate::model::JobView;
use crate::model::Node;
use crate::model::NodeView;
use crate::model::RecordView;
use crate::number::decimal;
use crate::number::show;
use crate::rows::rows_of;
use crate::rows::warnings_of;
use crate::rows::LineView;
use crate::text::ascii_upper;
use crate::text::has_prefix;
use crate::text::lines;
use crate::text::split;
use crate::text::split_chars;
use crate::text::split_lines;
use crate::text::starts_with;
use crate::text::strings;
use crate::text::strip;
use crate::text::texts;
use crate::text::to_chars;
use crate::text::to_text;
use crate::text::trim;
use crate::text::upper;
use crate::text::CharClass;
use crate::units::CpuCounts;
use crate::units::MemoryMb;
use vstd::slice::slice_to_vec;

verus! {

/// The rows of a table, and what there is to say of the lines that are none.
#[derive(Debug, PartialEq, Eq)]
pub struct Parsed<T> {
    pub rows: Vec<T>,
    pub warnings: Vec<String>,
}

impl<T> Parsed<T> {
    /// Rows and warnings together.
    #[must_use]
    pub fn new(rows: Vec<T>, warnings: Vec<String>) -> (r: Self)
        ensures
            r.rows == rows,
            r.warnings == warnings,
    {
        Parsed { rows, warnings }
    }
}

/// Whether the result of a parser holds what a reading of the lines says.
pub open spec fn parsed_is<T: View>(
    parsed: Parsed<T>,
    output: Seq<char>,
    f: spec_fn(int, Seq<char>) -> LineView<T::V>,
) -> bool {
    &&& views(parsed.rows@) == rows_of(lines(output), f)
    &&& strings(parsed.warnings@) == warnings_of(lines(output), f)
}

/// Whether a line is a header, the case of letters aside.
pub open spec fn is_header(line: Seq<char>, marker: Seq<char>) -> bool {
    starts_with(ascii_upper(line), ascii_upper(marker))
}

/// The fields of a line, without surrounding white space.
pub open spec fn fields_of(line: Seq<char>) -> Seq<Seq<char>> {
    let parts = split(line, CharClass::Exactly('|'));
    Seq::new(parts.len(), |i: int| trim(parts[i]))
}

/// What is said of a line with too few fields.
pub open spec fn short_line(command: Seq<char>, index: int, count: nat, line: Seq<char>) -> Seq<char> {
    command + " line "@ + decimal((index + 1) as nat) + " has "@ + decimal(count) + " fields: "@ + line
}

/// The field at an index, where there is one and it is not empty.
pub open spec fn filled(fields: Seq<Seq<char>>, i: int) -> Option<Seq<char>> {
    if i < fields.len() && fields[i].len() > 0 {
        Some(fields[i])
    } else {
        None
    }
}

/// The job that the fields of a line say.
pub open spec fn job_of(fields: Seq<Seq<char>>) -> JobView {
    JobView {
        id: fields[0],
        user: fields[1],
        state: fields[2],
        partition: fields[3],
        name: fields[4],
        nodes: fields[5],
        cpus: leading_number(fields[6]) as u64,
        memory: MemoryMb(memory_said(fields[7]) as u64),
        gpus: gpus_said(fields[8]),
        gres_raw: fields[8],
        time_used: fields[9],
        node_list: fields[10],
        reason: filled(fields, 11),
        time_limit: if fields.len() > 12 {
            fields[12]
        } else {
            seq![]
        },
        qos: seq![],
        priority: 0,
    }
}

/// The node that the fields of a line say. Memory that is not free is reserved.
pub open spec fn node_of(fields: Seq<Seq<char>>) -> NodeView {
    let total = memory_said(fields[4]);
    let free = memory_said(fields[5]);
    NodeView {
        name: fields[0],
        state: fields[1],
        cpus: cpu_counts(fields[3], leading_number(fields[2]) as u64),
        memory_total: MemoryMb(total as u64),
        memory_reserved: MemoryMb(
            if total >= free {
                (total - free) as u64
            } else {
                0
            },
        ),
        memory_free: MemoryMb(free as u64),
        gpus: gpus_said(fields[6]),
        gpus_allocated: if fields.len() > 8 {
            gpus_said(fields[8])
        } else {
            seq![]
        },
        gres_raw: fields[6],
        reason: filled(fields, 7),
    }
}

/// The accounting record that the fields of a line say.
pub open spec fn record_of(fields: Seq<Seq<char>>) -> RecordView {
    RecordView {
        job_id: fields[0],
        user: fields[1],
        state: fields[2],
        partition: fields[3],
        name: fields[4],
        cpus: leading_number(fields[5]) as u64,
        memory: MemoryMb(memory_said(fields[6]) as u64),
        elapsed: fields[7],
        start: fields[8],
        end: fields[9],
    }
}

/// What a line of `squeue` says.
pub open spec fn squeue_line(index: int, raw: Seq<char>) -> LineView<JobView> {
    let line = trim(raw);
    let fields = fields_of(line);
    if line.len() == 0 || is_header(line, "JOBID"@) {
        LineView::Skip
    } else if fields.len() < 11 {
        LineView::Warn(short_line("squeue"@, index, fields.len(), line))
    } else {
        LineView::Row(job_of(fields))
    }
}

/// What a line of `sinfo` says.
pub open spec fn sinfo_line(index: int, raw: Seq<char>) -> LineView<NodeView> {
    let line = trim(raw);
    let fields = fields_of(line);
    if line.len() == 0 || is_header(line, "NODELIST"@) || is_header(line, "HOSTNAMES"@) {
        LineView::Skip
    } else if fields.len() < 7 {
        LineView::Warn(short_line("sinfo"@, index, fields.len(), line))
    } else {
        LineView::Row(node_of(fields))
    }
}

/// What a line of `sacct` says.
pub open spec fn sacct_line(index: int, raw: Seq<char>) -> LineView<RecordView> {
    let line = trim(raw);
    let fields = fields_of(line);
    if line.len() == 0 || is_header(line, "JobID"@) {
        LineView::Skip
    } else if fields.len() < 10 {
        LineView::Warn(short_line("sacct"@, index, fields.len(), line))
    } else {
        LineView::Row(record_of(fields))
    }
}

/// How a line of `squeue` is read.
pub open spec fn squeue_reading() -> spec_fn(int, Seq<char>) -> LineView<JobView> {
    |i: int, l: Seq<char>| squeue_line(i, l)
}

/// How a line of `sinfo` is read.
pub open spec fn sinfo_reading() -> spec_fn(int, Seq<char>) -> LineView<NodeView> {
    |i: int, l: Seq<char>| sinfo_line(i, l)
}

/// How a line of `sacct` is read.
pub open spec fn sacct_reading() -> spec_fn(int, Seq<char>) -> LineView<RecordView> {
    |i: int, l: Seq<char>| sacct_line(i, l)
}

/// Whether the GPU counts of a line of `squeue` fit.
pub open spec fn squeue_line_fits(raw: Seq<char>) -> bool {
    squeue_line(0, raw) is Row ==> sums_fit(items_said(fields_of(trim(raw))[8]))
}

/// Whether the GPU and CPU counts of a line of `sinfo` fit.
pub open spec fn sinfo_line_fits(raw: Seq<char>) -> bool {
    let fields = fields_of(trim(raw));
    sinfo_line(0, raw) is Row ==> {
        &&& sums_fit(items_said(fields[6]))
        &&& fields.len() > 8 ==> sums_fit(items_said(fields[8]))
        &&& cpu_state_fits(fields[3], leading_number(fields[2]) as u64)
    }
}

/// Whether the counts of every line of `squeue` fit.
pub open spec fn squeue_fits(output: Seq<char>) -> bool {
    forall|i: int| 0 <= i < lines(output).len() ==> squeue_line_fits(#[trigger] lines(output)[i])
}

/// Whether the counts of every line of `sinfo` fit.
pub open spec fn sinfo_fits(output: Seq<char>) -> bool {
    forall|i: int| 0 <= i < lines(output).len() ==> sinfo_line_fits(#[trigger] lines(output)[i])
}

/// Whether a line is a header, the case of letters aside.
fn looks_like_header(line: &[char], marker: &str) -> (r: bool)
    ensures
        r == is_header(line@, marker@),
{
    let raised = upper(line);
    let marker = to_chars(marker);
    let marker = upper(marker.as_slice());
    has_prefix(raised.as_slice(), marker.as_slice())
}

/// The fields of a line, without surrounding white space.
fn split_fields(line: &[char]) -> (r: Vec<Vec<char>>)
    ensures
        texts(r@) == fields_of(line@),
        r@.len() == fields_of(line@).len(),
{
    let parts = split_chars(line, CharClass::Exactly('|'));
    let ghost shown = texts(parts@);
    let mut out: Vec<Vec<char>> = Vec::new();
    let mut i: usize = 0;
    while i < parts.len()
        invariant
            i <= parts@.len(),
            shown == texts(parts@),
            shown == split(line@, CharClass::Exactly('|')),
            out@.len() == i,
            forall|k: int| 0 <= k < i ==> (#[trigger] out@[k])@ == trim(shown[k]),
        decreases parts@.len() - i,
    {
        out.push(slice_to_vec(strip(parts[i].as_slice())));
        i += 1;
    }
    assert(texts(out@) =~= fields_of(line@));
    out
}

/// The text of a field.
fn field(fields: &Vec<Vec<char>>, i: usize) -> (r: String)
    requires
        i < fields@.len(),
    ensures
        r@ == texts(fields@)[i as int],
{
    to_text(fields[i].as_slice())
}

/// The text of a field, where there is one and it is not empty.
fn filled_field(fields: &Vec<Vec<char>>, i: usize) -> (r: Option<String>)
    ensures
        opt_view(r) == filled(texts(fields@), i as int),
{
    if i < fields.len() && fields[i].len() > 0 {
        Some(field(fields, i))
    } else {
        None
    }
}

/// What is said of a line with too few fields.
fn say_short_line(command: &str, index: usize, count: usize, line: &[char]) -> (r: String)
    requires
        index < usize::MAX,
    ensures
        r@ == short_line(command@, index as int, count as nat, line@),
{
    let mut out = command.to_string();
    out.append(" line ");
    out.append(show((index + 1) as u64).as_str());
    out.append(" has ");
    out.append(show(count as u64).as_str());
    out.append(" fields: ");
    out.append(to_text(line).as_str());
    out
}

/// The job that the fields of a line say.
fn read_job(fields: &Vec<Vec<char>>) -> (r: Job)
    requires
        fields@.len() >= 11,
        sums_fit(items_said(texts(fields@)[8])),
    ensures
        r@ == job_of(texts(fields@)),
{
    let time_limit = if fields.len() > 12 {
        field(fields, 12)
    } else {
        String::new()
    };
    let job = Job {
        id: field(fields, 0),
        user: field(fields, 1),
        state: field(fields, 2),
        partition: field(fields, 3),
        name: field(fields, 4),
        nodes: field(fields, 5),
        cpus: read_leading(fields[6].as_slice()),
        memory: read_memory(fields[7].as_slice()),
        gpus: read_gpus(fields[8].as_slice()),
        gres_raw: field(fields, 8),
        time_used: field(fields, 9),
        node_list: field(fields, 10),
        reason: filled_field(fields, 11),
        time_limit,
        qos: String::new(),
        priority: 0,
    };
    assert(job@ =~= job_of(texts(fields@)));
    job
}

/// The node that the fields of a line say.
fn read_node(fields: &Vec<Vec<char>>) -> (r: Node)
    requires
        fields@.len() >= 7,
        sums_fit(items_said(texts(fields@)[6])),
        fields@.len() > 8 ==> sums_fit(items_said(texts(fields@)[8])),
        cpu_state_fits(texts(fields@)[3], leading_number(texts(fields@)[2]) as u64),
    ensures
        r@ == node_of(texts(fields@)),
{
    let count: u64 = read_leading(fields[2].as_slice());
    let cpus = match checked_cpu_state(fields[3].as_slice(), count) {
        Some(cpus) => cpus,
        None => CpuCounts::default(),
    };
    let total = read_memory(fields[4].as_slice());
    let free = read_memory(fields[5].as_slice());
    let reserved = total.saturating_sub(free);
    let gpus_allocated = if fields.len() > 8 {
        read_gpus(fields[8].as_slice())
    } else {
        GpuMap::new()
    };
    let node = Node {
        name: field(fields, 0),
        state: field(fields, 1),
        cpus,
        memory_total: total,
        memory_reserved: reserved,
        memory_free: free,
        gpus: read_gpus(fields[6].as_slice()),
        gpus_allocated,
        gres_raw: field(fields, 6),
        reason: filled_field(fields, 7),
    };
    assert(node@ =~= node_of(texts(fields@)));
    node
}

/// The accounting record that the fields of a line say.
fn read_record(fields: &Vec<Vec<char>>) -> (r: AccountingRecord)
    requires
        fields@.len() >= 10,
    ensures
        r@ == record_of(texts(fields@)),
{
    let row = AccountingRecord {
        job_id: field(fields, 0),
        user: field(fields, 1),
        state: field(fields, 2),
        partition: field(fields, 3),
        name: field(fields, 4),
        cpus: read_leading(fields[5].as_slice()),
        memory: read_memory(fields[6].as_slice()),
        elapsed: field(fields, 7),
        start: field(fields, 8),
        end: field(fields, 9),
    };
    assert(row@ =~= record_of(texts(fields@)));
    row
}

/// The jobs that `squeue` printed. A line with fewer than eleven fields is left out with a warning.
#[must_use]
pub fn parse_squeue(output: &str) -> (r: Parsed<Job>)
    requires
        squeue_fits(output@),
    ensures
        parsed_is(r, output@, squeue_reading()),
{
    let chars = to_chars(output);
    let all = split_lines(chars.as_slice());
    let ghost shown = texts(all@);
    let ghost f = squeue_reading();
    let mut jobs: Vec<Job> = Vec::new();
    let mut warnings: Vec<String> = Vec::new();
    let mut i: usize = 0;
    assert(views(jobs@) =~= rows_of(shown.take(0), f));
    assert(strings(warnings@) =~= warnings_of(shown.take(0), f));
    while i < all.len()
        invariant
            i <= all@.len(),
            shown == texts(all@),
            shown == lines(output@),
            f == squeue_reading(),
            squeue_fits(output@),
            views(jobs@) == rows_of(shown.take(i as int), f),
            strings(warnings@) == warnings_of(shown.take(i as int), f),
        decreases all@.len() - i,
    {
        let ghost rows_before = views(jobs@);
        let ghost warnings_before = strings(warnings@);
        assert(shown.take(i + 1).drop_last() =~= shown.take(i as int));
        assert(squeue_line_fits(shown[i as int]));
        assert(f(i as int, shown[i as int]) == squeue_line(i as int, shown[i as int]));
        let line = strip(all[i].as_slice());
        if line.len() != 0 && !looks_like_header(line, "JOBID") {
            let fields = split_fields(line);
            if fields.len() < 11 {
                warnings.push(say_short_line("squeue", i, fields.len(), line));
                assert(strings(warnings@) =~= warnings_before.push(
                    short_line("squeue"@, i as int, fields@.len(), line@),
                ));
            } else {
                jobs.push(read_job(&fields));
                assert(views(jobs@) =~= rows_before.push(job_of(texts(fields@))));
            }
        }
        i += 1;
    }
    assert(shown.take(i as int) =~= shown);
    Parsed::new(jobs, warnings)
}

/// The nodes that `sinfo` printed. A line with fewer than seven fields is left out with a warning.
#[must_use]
pub fn parse_sinfo(output: &str) -> (r: Parsed<Node>)
    requires
        sinfo_fits(output@),
    ensures
        parsed_is(r, output@, sinfo_reading()),
{
    let chars = to_chars(output);
    let all = split_lines(chars.as_slice());
    let ghost shown = texts(all@);
    let ghost f = sinfo_reading();
    let mut nodes: Vec<Node> = Vec::new();
    let mut warnings: Vec<String> = Vec::new();
    let mut i: usize = 0;
    assert(views(nodes@) =~= rows_of(shown.take(0), f));
    assert(strings(warnings@) =~= warnings_of(shown.take(0), f));
    while i < all.len()
        invariant
            i <= all@.len(),
            shown == texts(all@),
            shown == lines(output@),
            f == sinfo_reading(),
            sinfo_fits(output@),
            views(nodes@) == rows_of(shown.take(i as int), f),
            strings(warnings@) == warnings_of(shown.take(i as int), f),
        decreases all@.len() - i,
    {
        let ghost rows_before = views(nodes@);
        let ghost warnings_before = strings(warnings@);
        assert(shown.take(i + 1).drop_last() =~= shown.take(i as int));
        assert(sinfo_line_fits(shown[i as int]));
        assert(f(i as int, shown[i as int]) == sinfo_line(i as int, shown[i as int]));
        let line = strip(all[i].as_slice());
        if line.len() != 0 && !looks_like_header(line, "NODELIST") && !looks_like_header(
            line,
            "HOSTNAMES",
        ) {
            let fields = split_fields(line);
            if fields.len() < 7 {
                warnings.push(say_short_line("sinfo", i, fields.len(), line));
                assert(strings(warnings@) =~= warnings_before.push(
                    short_line("sinfo"@, i as int, fields@.len(), line@),
                ));
            } else {
                nodes.push(read_node(&fields));
                assert(views(nodes@) =~= rows_before.push(node_of(texts(fields@))));
            }
        }
        i += 1;
    }
    assert(shown.take(i as int) =~= shown);
    Parsed::new(nodes, warnings)
}

/// The accounting records that `sacct` printed. A line with fewer than ten fields is left out with
/// a warning.
#[must_use]
pub fn parse_sacct(output: &str) -> (r: Parsed<AccountingRecord>)
    ensures
        parsed_is(r, output@, sacct_reading()),
{
    let chars = to_chars(output);
    let all = split_lines(chars.as_slice());
    let ghost shown = texts(all@);
    let ghost f = sacct_reading();
    let mut rows: Vec<AccountingRecord> = Vec::new();
    let mut warnings: Vec<String> = Vec::new();
    let mut i: usize = 0;
    assert(views(rows@) =~= rows_of(shown.take(0), f));
    assert(strings(warnings@) =~= warnings_of(shown.take(0), f));
    while i < all.len()
        invariant
            i <= all@.len(),
            shown == texts(all@),
            shown == lines(output@),
            f == sacct_reading(),
            views(rows@) == rows_of(shown.take(i as int), f),
            strings(warnings@) == warnings_of(shown.take(i as int), f),
        decreases all@.len() - i,
    {
        let ghost rows_before = views(rows@);
        let ghost warnings_before = strings(warnings@);
        assert(shown.take(i + 1).drop_last() =~= shown.take(i as int));
        assert(f(i as int, shown[i as int]) == sacct_line(i as int, shown[i as int]));
        let line = strip(all[i].as_slice());
        if line.len() != 0 && !looks_like_header(line, "JobID") {
            let fields = split_fields(line);
            if fields.len() < 10 {
                warnings.push(say_short_line("sacct", i, fields.len(), line));
                assert(strings(warnings@) =~= warnings_before.push(
                    short_line("sacct"@, i as int, fields@.len(), line@),
                ));
            } else {
                rows.push(read_record(&fields));
                assert(views(rows@) =~= rows_before.push(record_of(texts(fields@))));
            }
        }
        i += 1;
    }
    assert(shown.take(i as int) =~= shown);
    Parsed::new(rows, warnings)
}

/// The jobs that `squeue` printed, where their GPU counts fit.
pub fn checked_squeue(output: &str) -> (r: Option<Parsed<Job>>)
    ensures
        match r {
            Some(parsed) => squeue_fits(output@) && parsed_is(parsed, output@, squeue_reading()),
            None => !squeue_fits(output@),
        },
{
    let chars = to_chars(output);
    let all = split_lines(chars.as_slice());
    let ghost shown = texts(all@);
    let mut i: usize = 0;
    while i < all.len()
        invariant
            i <= all@.len(),
            shown == texts(all@),
            shown == lines(output@),
            forall|k: int| 0 <= k < i ==> squeue_line_fits(#[trigger] shown[k]),
        decreases all@.len() - i,
    {
        let line = strip(all[i].as_slice());
        assert(shown[i as int] == all@[i as int]@);
        if line.len() != 0 && !looks_like_header(line, "JOBID") {
            let fields = split_fields(line);
            if fields.len() >= 11 {
                if !gpu_counts_fit(fields[8].as_slice()) {
                    assert(!squeue_line_fits(lines(output@)[i as int]));
                    return None;
                }
            }
        }
        i += 1;
    }
    Some(parse_squeue(output))
}

/// The nodes that `sinfo` printed, where their GPU and CPU counts fit.
pub fn checked_sinfo(output: &str) -> (r: Option<Parsed<Node>>)
    ensures
        match r {
            Some(parsed) => sinfo_fits(output@) && parsed_is(parsed, output@, sinfo_reading()),
            None => !sinfo_fits(output@),
        },
{
    let chars = to_chars(output);
    let all = split_lines(chars.as_slice());
    let ghost shown = texts(all@);
    let mut i: usize = 0;
    while i < all.len()
        invariant
            i <= all@.len(),
            shown == texts(all@),
            shown == lines(output@),
            forall|k: int| 0 <= k < i ==> sinfo_line_fits(#[trigger] shown[k]),
        decreases all@.len() - i,
    {
        let line = strip(all[i].as_slice());
        assert(shown[i as int] == all@[i as int]@);
        if line.len() != 0 && !looks_like_header(line, "NODELIST") && !looks_like_header(
            line,
            "HOSTNAMES",
        ) {
            let fields = split_fields(line);
            if fields.len() >= 7 {
                let count: u64 = read_leading(fields[2].as_slice());
                let fits: bool = gpu_counts_fit(fields[6].as_slice()) && (fields.len() <= 8
                    || gpu_counts_fit(fields[8].as_slice())) && checked_cpu_state(
                    fields[3].as_slice(),
                    count,
                ).is_some();
                if !fits {
                    assert(!sinfo_line_fits(lines(output@)[i as int]));
                    return None;
                }
            }
        }
        i += 1;
    }
    Some(parse_sinfo(output))
}

} // verus!
