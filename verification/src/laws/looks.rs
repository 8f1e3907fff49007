//! What the dashboard looks like and says.

use vstd::prelude::*;

use crate::clock::Span;
use crate::columns::marked_headers;
use crate::columns::shown_of;
use crate::columns::DiskColumn::Space;
use crate::columns::DiskUsageColumn::Used;
use crate::columns::GpuColumn::Type;
use crate::dashboard::first_cursors;
use crate::dashboard::first_sorting;
use crate::filter::no_filter;
use crate::filter::FilterKey;
use crate::filter::FilterView;
use crate::laws::filters::free_text;
use crate::laws::filters::one_key;
use crate::laws::states::begins_so;
use crate::laws::states::initial;
use crate::laws::states::lemma_begins;
use crate::number::decimal;
use crate::number::zero_padded;
use crate::panel::PanelId;
use crate::slurm::span_text;
use crate::slurm::SlurmError;
use crate::sorting::JobColumn::JobId;
use crate::sorting::NodeColumn::State;
use crate::stamp::day_number;
use crate::stamp::offset_text;
use crate::stamp::stamp_text;
use crate::stamp::CivilTime;
use crate::text::ascii_lower;
use crate::text::contains;
use crate::text::join;
use crate::theme::job_state_style;
use crate::theme::node_state_style;
use crate::theme::Theme;
use crate::units::SortDirection;
use crate::wording::cut_text;
use crate::wording::filter_parts;
use crate::wording::filter_text;

verus! {

/// A job looks as running, pending or failed jobs do by the first letters of its state, and a node as
/// idle nodes do where its state says `idle`, as lost ones where it says `down` or `drain`, and else as
/// one in use.
#[verifier::rlimit(40)]
pub proof fn law_states_look(theme: Theme, state: Seq<char>)
    ensures
        initial(state, 'r', 'R') ==> job_state_style(theme, state) == theme.state_running,
        initial(state, 'p', 'P') ==> job_state_style(theme, state) == theme.state_pending,
        initial(state, 'f', 'F') || begins_so(state, "cancel"@, "CANCEL"@) ==> job_state_style(theme, state)
            == theme.state_failed,
        contains(ascii_lower(state), "idle"@) ==> node_state_style(theme, state) == theme.node_idle,
        !contains(ascii_lower(state), "idle"@) && (contains(ascii_lower(state), "down"@) || contains(
            ascii_lower(state),
            "drain"@,
        )) ==> node_state_style(theme, state) == theme.node_down,
        !contains(ascii_lower(state), "idle"@) && !contains(ascii_lower(state), "down"@) && !contains(
            ascii_lower(state),
            "drain"@,
        ) ==> node_state_style(theme, state) == theme.node_mixed,
{
    reveal_strlit("r");
    reveal_strlit("R");
    reveal_strlit("p");
    reveal_strlit("P");
    reveal_strlit("f");
    reveal_strlit("F");
    reveal_strlit("cancel");
    reveal_strlit("CANCEL");
    lemma_begins(state, "r"@, "R"@);
    lemma_begins(state, "p"@, "P"@);
    lemma_begins(state, "f"@, "F"@);
    lemma_begins(state, "cancel"@, "CANCEL"@);
    if state.len() > 0 {
        let c = state[0];
        assert(begins_so(state, "r"@, "R"@) <==> c == 'r' || c == 'R') by {
            assert("r"@[0] == 'r' && "R"@[0] == 'R');
        }
        assert(begins_so(state, "p"@, "P"@) <==> c == 'p' || c == 'P') by {
            assert("p"@[0] == 'p' && "P"@[0] == 'P');
        }
        assert(begins_so(state, "f"@, "F"@) <==> c == 'f' || c == 'F') by {
            assert("f"@[0] == 'f' && "F"@[0] == 'F');
        }
        if begins_so(state, "cancel"@, "CANCEL"@) {
            assert(state[0] == "cancel"@[0] || state[0] == "CANCEL"@[0]);
        }
    }
}

/// At first, the jobs with the highest numbers, the largest disks and the most used space come first, the
/// nodes are sorted by their state and the GPUs by their type, and every table is on its first row.
pub proof fn law_first_look()
    ensures
        first_sorting().columns.jobs == JobId,
        first_sorting().directions.jobs == SortDirection::Desc,
        first_sorting().columns.nodes == State,
        first_sorting().directions.nodes == SortDirection::Asc,
        first_sorting().columns.gpus == Type,
        first_sorting().directions.gpus == SortDirection::Asc,
        first_sorting().columns.disks == Space,
        first_sorting().directions.disks == SortDirection::Desc,
        first_sorting().columns.usage == Used,
        first_sorting().usage_direction == SortDirection::Desc,
        forall|p: PanelId|
            (#[trigger] first_cursors().panels.at(p)).selected == Some(0usize),
{
}

/// The header of the column that a table is sorted by has the mark of the direction behind it, and no
/// other has one.
pub proof fn law_sorted_header_is_marked(headers: Seq<Seq<char>>, column: usize, direction: SortDirection, i: int)
    requires
        0 <= i < headers.len(),
    ensures
        marked_headers(headers, column, direction).len() == headers.len(),
        i != column ==> marked_headers(headers, column, direction)[i] == headers[i],
        i == column && direction == SortDirection::Asc ==> marked_headers(headers, column, direction)[i]
            == headers[i] + " ▲"@,
        i == column && direction == SortDirection::Desc ==> marked_headers(headers, column, direction)[i]
            == headers[i] + " ▼"@,
{
}

/// Of the cells of a row, those of the shown columns are kept, in their order.
pub proof fn law_hidden_columns<T>(values: Seq<T>, value: T, visible: Seq<bool>)
    ensures
        shown_of(Seq::<T>::empty(), visible).len() == 0,
        shown_of(values.push(value), visible) == if values.len() < visible.len() && !visible[values.len() as int] {
            shown_of(values, visible)
        } else {
            shown_of(values, visible).push(value)
        },
{
    assert(values.push(value).drop_last() =~= values);
}

/// A filter is shown in short: `none` where it is empty, and else each part behind its key.
#[verifier::rlimit(40)]
pub proof fn law_filter_label(value: Seq<char>)
    requires
        value.len() > 0,
    ensures
        filter_text(no_filter()) == "none"@,
        filter_text(free_text(value)) == "q="@ + value,
        filter_text(one_key(FilterKey::Owner, value)) == "owner="@ + value,
        filter_text(one_key(FilterKey::State, value)) == "state="@ + value,
        filter_text(one_key(FilterKey::Partition, value)) == "part="@ + value,
        filter_text(one_key(FilterKey::GpuType, value)) == "gpu="@ + value,
        filter_text(one_key(FilterKey::NodeState, value)) == "node_state="@ + value,
{
    lemma_one_part(free_text(value), "q="@ + value);
    lemma_one_part(one_key(FilterKey::Owner, value), "owner="@ + value);
    lemma_one_part(one_key(FilterKey::State, value), "state="@ + value);
    lemma_one_part(one_key(FilterKey::Partition, value), "part="@ + value);
    lemma_one_part(one_key(FilterKey::GpuType, value), "gpu="@ + value);
    lemma_one_part(one_key(FilterKey::NodeState, value), "node_state="@ + value);
}

proof fn lemma_one_part(f: FilterView, text: Seq<char>)
    requires
        f != no_filter(),
        filter_parts(f) =~= seq![text],
    ensures
        filter_text(f) == text,
{
    assert(filter_parts(f) == seq![text]);
    assert(join(seq![text], ","@) == text);
}

/// A text that is not too long is shown whole, and of one that is, the beginning and an ellipsis.
pub proof fn law_cut_text(text: Seq<char>, width: int)
    requires
        width > 0,
    ensures
        text.len() <= width ==> cut_text(text, width) == text,
        text.len() > width ==> cut_text(text, width) == text.take(width - 1) + "…"@,
{
}

/// A date is year, month and day, a time hour and minute, and behind them the distance from universal
/// time.
pub proof fn law_stamp(c: CivilTime, hours: nat, minutes: nat)
    requires
        c.year >= 0,
        hours < 26,
        minutes < 60,
    ensures
        stamp_text(c, 0) == zero_padded(decimal(c.year as nat), 4) + "-"@ + zero_padded(
            decimal(c.month as nat),
            2,
        ) + "-"@ + zero_padded(decimal(c.day as nat), 2) + " "@ + zero_padded(decimal(c.hour as nat), 2) + ":"@
            + zero_padded(decimal(c.minute as nat), 2) + " "@ + "UTC"@,
        hours + minutes > 0 ==> offset_text((hours * 3600 + minutes * 60) as int) == "UTC"@ + "+"@
            + zero_padded(decimal(hours), 2) + ":"@ + zero_padded(decimal(minutes), 2),
        hours + minutes > 0 ==> offset_text(-((hours * 3600 + minutes * 60) as int)) == "UTC"@ + "-"@
            + zero_padded(decimal(hours), 2) + ":"@ + zero_padded(decimal(minutes), 2),
{
}

/// The calendar begins on the first of January of 1970, and a day of a month is the one after the day
/// before it.
pub proof fn law_calendar(year: int, month: int, day: int)
    ensures
        day_number(1970, 1, 1) == 0,
        day_number(year, month, day + 1) == day_number(year, month, day) + 1,
        1 <= month < 12 ==> day_number(year, month + 1, 1) == day_number(year, month, 1) + if month == 2 {
            if year % 4 == 0 && (year % 100 != 0 || year % 400 == 0) {
                29int
            } else {
                28
            }
        } else if month == 4 || month == 6 || month == 9 || month == 11 {
            30
        } else {
            31
        },
{
}

/// An error says what went wrong, and with which command.
pub proof fn law_errors_say(command: String, span: Span, code: Option<i32>, said: String)
    ensures
        (SlurmError::Timeout { command, timeout: span }).words() == "backend command timed out after "@
            + span_text(span.secs, span.nanos) + ": "@ + command@,
        (SlurmError::Io { command, source: said }).words() == "backend IO error while running "@ + command@
            + ": "@ + said@,
        (SlurmError::Parse(said)).words() == "backend parse error: "@ + said@,
        (SlurmError::Other(said)).words() == said@,
        (SlurmError::CommandFailed { command, exit_code: None, stderr: said }).words()
            == "backend command failed: "@ + command@ + " (exit "@ + "None"@ + ") stderr="@ + said@,
{
}

} // verus!
