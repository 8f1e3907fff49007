//! What the output of the Slurm commands means: which field of a line says what.

use vstd::prelude::*;

use crate::amount::cpu_counts;
use crate::amount::leading_number;
use crate::amount::memory_said;
use crate::gres::gpus_said;
use crate::laws::states::begins_so;
use crate::laws::states::lemma_begins;
use crate::laws::texts::law_fields_come_back;
use crate::laws::texts::lemma_first_behind;
use crate::laws::texts::without;
use crate::model::JobView;
use crate::number::decimal;
use crate::rows::rows_of;
use crate::rows::warnings_of;
use crate::rows::LineView;
use crate::tables::fields_of;
use crate::tables::is_header;
use crate::tables::sacct_line;
use crate::tables::sinfo_line;
use crate::tables::squeue_line;
use crate::text::ascii_upper;
use crate::text::in_class;
use crate::text::join;
use crate::text::lines;
use crate::text::split;
use crate::text::trim;
use crate::text::CharClass;

verus! {

/// The lines of a text are what stands between line ends; a carriage return in front of a line end
/// belongs to it.
#[verifier::rlimit(40)]
pub proof fn law_lines(line: Seq<char>, rest: Seq<char>)
    requires
        without(line, CharClass::Exactly('\n')),
    ensures
        lines(seq![]) == Seq::<Seq<char>>::empty(),
        line.len() > 0 && line.last() != '\r' ==> lines(line + "\n"@ + rest) == seq![line] + lines(rest),
        line.len() > 0 ==> lines(line) == seq![line],
        lines(line + "\r\n"@ + rest) == seq![line] + lines(rest),
        lines("\n"@ + rest) == seq![Seq::<char>::empty()] + lines(rest),
{
    reveal_strlit("\n");
    reveal_strlit("\r\n");
    let end = CharClass::Exactly('\n');
    assert("\n"@ =~= seq!['\n']);
    let none: Seq<char> = seq![];
    lemma_first_behind(line, "\n"@ + rest, end);
    let s = line + "\n"@ + rest;
    assert(s =~= line + ("\n"@ + rest));
    assert(s.take(line.len() as int) =~= line);
    assert(s.skip(line.len() as int + 1) =~= rest);
    lemma_first_behind(line, none, end);
    assert(line + none =~= line);
    let long = line + seq!['\r'];
    assert(without(long, end)) by {
        assert forall|i: int| 0 <= i < long.len() implies !in_class(end, #[trigger] long[i]) by {
            if i < line.len() {
                assert(long[i] == line[i]);
            }
        }
    }
    lemma_first_behind(long, "\n"@ + rest, end);
    let t = line + "\r\n"@ + rest;
    assert(t =~= long + ("\n"@ + rest));
    assert(t.take(long.len() as int) =~= long);
    assert(long.drop_last() =~= line);
    assert(t.skip(long.len() as int + 1) =~= rest);
    lemma_first_behind(none, "\n"@ + rest, end);
    let u = "\n"@ + rest;
    assert(none + u =~= u);
    assert(u.take(0) =~= none);
    assert(u.skip(1) =~= rest);
}

/// A table is read line by line: a line that says a row adds that row, one that cannot be read adds a
/// warning, and one that says nothing adds neither.
pub proof fn law_line_by_line<T>(
    all: Seq<Seq<char>>,
    line: Seq<char>,
    f: spec_fn(int, Seq<char>) -> LineView<T>,
)
    ensures
        rows_of(seq![], f).len() == 0,
        warnings_of(seq![], f).len() == 0,
        match f(all.len() as int, line) {
            LineView::Row(row) => rows_of(all.push(line), f) == rows_of(all, f).push(row) && warnings_of(
                all.push(line),
                f,
            ) == warnings_of(all, f),
            LineView::Warn(text) => rows_of(all.push(line), f) == rows_of(all, f) && warnings_of(
                all.push(line),
                f,
            ) == warnings_of(all, f).push(text),
            LineView::Skip => rows_of(all.push(line), f) == rows_of(all, f) && warnings_of(
                all.push(line),
                f,
            ) == warnings_of(all, f),
        },
{
    assert(all.push(line).drop_last() =~= all);
}

/// Whether these are the fields of a line: without bars, and without white space around them or around
/// the line.
pub open spec fn good_fields(fields: Seq<Seq<char>>) -> bool {
    &&& fields.len() > 0
    &&& forall|i: int|
        0 <= i < fields.len() ==> without(#[trigger] fields[i], CharClass::Exactly('|')) && trim(fields[i])
            == fields[i]
    &&& trim(join(fields, "|"@)) == join(fields, "|"@)
    &&& join(fields, "|"@).len() > 0
}

proof fn lemma_fields(fields: Seq<Seq<char>>)
    requires
        good_fields(fields),
    ensures
        fields_of(join(fields, "|"@)) == fields,
{
    reveal_strlit("|");
    assert("|"@ =~= seq!['|']);
    law_fields_come_back(fields, '|');
    let line = join(fields, "|"@);
    assert(split(line, CharClass::Exactly('|')) == fields);
    assert forall|i: int| 0 <= i < fields.len() implies trim(#[trigger] fields[i]) == fields[i] by {}
    assert(fields_of(line) =~= fields);
}

proof fn lemma_headers(line: Seq<char>)
    ensures
        is_header(line, "JOBID"@) <==> begins_so(line, "jobid"@, "JOBID"@),
        is_header(line, "JobID"@) <==> begins_so(line, "jobid"@, "JOBID"@),
        is_header(line, "NODELIST"@) <==> begins_so(line, "nodelist"@, "NODELIST"@),
        is_header(line, "HOSTNAMES"@) <==> begins_so(line, "hostnames"@, "HOSTNAMES"@),
{
    reveal_strlit("JOBID");
    reveal_strlit("JobID");
    reveal_strlit("jobid");
    reveal_strlit("NODELIST");
    reveal_strlit("nodelist");
    reveal_strlit("HOSTNAMES");
    reveal_strlit("hostnames");
    assert(ascii_upper("JOBID"@) =~= "JOBID"@);
    assert(ascii_upper("JobID"@) =~= "JOBID"@);
    assert(ascii_upper("NODELIST"@) =~= "NODELIST"@);
    assert(ascii_upper("HOSTNAMES"@) =~= "HOSTNAMES"@);
    lemma_begins(line, "jobid"@, "JOBID"@);
    lemma_begins(line, "nodelist"@, "NODELIST"@);
    lemma_begins(line, "hostnames"@, "HOSTNAMES"@);
}

/// The field at an index, where there is one and it is not empty.
pub open spec fn optional(fields: Seq<Seq<char>>, i: int) -> Option<Seq<char>> {
    if i < fields.len() && fields[i].len() > 0 {
        Some(fields[i])
    } else {
        None
    }
}

/// A line of `squeue` with at least eleven fields that is no header is the job that the fields say, in
/// the order identifier, user, state, partition, name, nodes, CPUs, memory, resources, time used, node
/// list, reason and time limit; the last two may be missing.
#[verifier::rlimit(40)]
pub proof fn law_squeue_line(fields: Seq<Seq<char>>, index: int)
    requires
        good_fields(fields),
        fields.len() >= 11,
        !begins_so(join(fields, "|"@), "jobid"@, "JOBID"@),
    ensures
        squeue_line(index, join(fields, "|"@)) matches LineView::Row(job) && {
            &&& job.id == fields[0]
            &&& job.user == fields[1]
            &&& job.state == fields[2]
            &&& job.partition == fields[3]
            &&& job.name == fields[4]
            &&& job.nodes == fields[5]
            &&& job.cpus == leading_number(fields[6]) as u64
            &&& job.memory.0 == memory_said(fields[7]) as u64
            &&& job.gpus == gpus_said(fields[8])
            &&& job.gres_raw == fields[8]
            &&& job.time_used == fields[9]
            &&& job.node_list == fields[10]
            &&& job.reason == optional(fields, 11)
            &&& fields.len() > 12 ==> job.time_limit == fields[12]
            &&& fields.len() <= 12 ==> job.time_limit.len() == 0
        },
{
    lemma_fields(fields);
    lemma_headers(join(fields, "|"@));
}

/// A line of `sinfo` with at least seven fields that is no header is the node that the fields say, in
/// the order name, state, CPUs, state of the CPUs, memory, free memory, resources, reason and resources
/// in use; the last two may be missing. Memory that is not free is reserved.
#[verifier::rlimit(40)]
pub proof fn law_sinfo_line(fields: Seq<Seq<char>>, index: int)
    requires
        good_fields(fields),
        fields.len() >= 7,
        !begins_so(join(fields, "|"@), "nodelist"@, "NODELIST"@),
        !begins_so(join(fields, "|"@), "hostnames"@, "HOSTNAMES"@),
        memory_said(fields[4]) <= u64::MAX,
        memory_said(fields[5]) <= u64::MAX,
    ensures
        sinfo_line(index, join(fields, "|"@)) matches LineView::Row(node) && {
            &&& node.name == fields[0]
            &&& node.state == fields[1]
            &&& node.cpus == cpu_counts(fields[3], leading_number(fields[2]) as u64)
            &&& node.memory_total.0 == memory_said(fields[4])
            &&& node.memory_free.0 == memory_said(fields[5])
            &&& node.memory_total.0 >= node.memory_free.0 ==> node.memory_reserved.0 + node.memory_free.0
                == node.memory_total.0
            &&& node.memory_total.0 < node.memory_free.0 ==> node.memory_reserved.0 == 0
            &&& node.gpus == gpus_said(fields[6])
            &&& node.gres_raw == fields[6]
            &&& node.reason == optional(fields, 7)
            &&& fields.len() > 8 ==> node.gpus_allocated == gpus_said(fields[8])
            &&& fields.len() <= 8 ==> node.gpus_allocated.len() == 0
        },
{
    lemma_fields(fields);
    lemma_headers(join(fields, "|"@));
}

/// A line of `sacct` with at least ten fields that is no header is the record that the fields say, in
/// the order identifier, user, state, partition, name, CPUs, memory, time, start and end.
pub proof fn law_sacct_line(fields: Seq<Seq<char>>, index: int)
    requires
        good_fields(fields),
        fields.len() >= 10,
        !begins_so(join(fields, "|"@), "jobid"@, "JOBID"@),
    ensures
        sacct_line(index, join(fields, "|"@)) matches LineView::Row(row) && {
            &&& row.job_id == fields[0]
            &&& row.user == fields[1]
            &&& row.state == fields[2]
            &&& row.partition == fields[3]
            &&& row.name == fields[4]
            &&& row.cpus == leading_number(fields[5]) as u64
            &&& row.memory.0 == memory_said(fields[6]) as u64
            &&& row.elapsed == fields[7]
            &&& row.start == fields[8]
            &&& row.end == fields[9]
        },
{
    lemma_fields(fields);
    lemma_headers(join(fields, "|"@));
}

/// A line with too few fields is left out, and a warning says which line it is, counted from one, and
/// how many fields it has; headers and blank lines are left out without a warning.
#[verifier::rlimit(40)]
pub proof fn law_other_lines(fields: Seq<Seq<char>>, index: nat, space: Seq<char>)
    requires
        good_fields(fields),
        trim(space).len() == 0,
    ensures
        squeue_line(index as int, space) is Skip,
        sinfo_line(index as int, space) is Skip,
        sacct_line(index as int, space) is Skip,
        begins_so(join(fields, "|"@), "jobid"@, "JOBID"@) ==> squeue_line(index as int, join(fields, "|"@)) is Skip
            && sacct_line(index as int, join(fields, "|"@)) is Skip,
        begins_so(join(fields, "|"@), "nodelist"@, "NODELIST"@) || begins_so(
            join(fields, "|"@),
            "hostnames"@,
            "HOSTNAMES"@,
        ) ==> sinfo_line(index as int, join(fields, "|"@)) is Skip,
        fields.len() < 11 && !begins_so(join(fields, "|"@), "jobid"@, "JOBID"@) ==> squeue_line(
            index as int,
            join(fields, "|"@),
        ) == LineView::<JobView>::Warn(
            "squeue line "@ + decimal(index + 1) + " has "@ + decimal(fields.len()) + " fields: "@ + join(
                fields,
                "|"@,
            ),
        ),
        fields.len() < 7 && !begins_so(join(fields, "|"@), "nodelist"@, "NODELIST"@) && !begins_so(
            join(fields, "|"@),
            "hostnames"@,
            "HOSTNAMES"@,
        ) ==> sinfo_line(index as int, join(fields, "|"@)) is Warn,
        fields.len() < 10 && !begins_so(join(fields, "|"@), "jobid"@, "JOBID"@) ==> sacct_line(
            index as int,
            join(fields, "|"@),
        ) is Warn,
{
    let line = join(fields, "|"@);
    lemma_fields(fields);
    lemma_headers(line);
    reveal_strlit("squeue");
    reveal_strlit(" line ");
    reveal_strlit("squeue line ");
    assert("squeue"@ + " line "@ =~= "squeue line "@);
}

} // verus!
