//! Texts of the dashboard.

use vstd::prelude::*;

use crate::clock::Span;
use crate::filter::no_filter;
use crate::filter::FilterExpression;
use crate::filter::FilterView;
use crate::map::GpuMap;
use crate::model::opt_view;
use crate::model::views;
use crate::model::DiskUserUsage;
use crate::model::UsageView;
use crate::number::decimal;
use crate::number::show;
use crate::slurm::DiskUsageProgress;
use crate::slurm::DiskUsageProgressStage;
use crate::text::ascii_lower;
use crate::text::contains;
use crate::text::has_literal;
use crate::text::is_text;
use crate::text::join;
use crate::text::join_texts;
use crate::text::lower;
use crate::text::strings;
use crate::text::strip;
use crate::text::to_chars;
use crate::text::to_text;
use crate::text::trim;
use crate::units::human_bytes;
use crate::units::human_size;
use vstd::slice::slice_subrange;

verus! {

/// The parts of a filter, each as it would be typed.
pub open spec fn filter_parts(f: FilterView) -> Seq<Seq<char>> {
    let none = Seq::<Seq<char>>::empty();
    (if f.query.len() > 0 {
        seq!["q="@ + f.query]
    } else {
        none
    }) + part("owner="@, f.owner) + part("state="@, f.state) + part("part="@, f.partition) + part(
        "gpu="@,
        f.gpu_type,
    ) + part("node_state="@, f.node_state)
}

/// One part of a filter, where it is set.
pub open spec fn part(key: Seq<char>, value: Option<Seq<char>>) -> Seq<Seq<char>> {
    match value {
        Some(v) => seq![key + v],
        None => seq![],
    }
}

/// A filter in short.
pub open spec fn filter_text(f: FilterView) -> Seq<char> {
    if f == no_filter() {
        "none"@
    } else {
        join(filter_parts(f), ","@)
    }
}

/// Adds a part of a filter, where it is set.
fn add_part(parts: &mut Vec<String>, key: &str, value: &Option<String>)
    ensures
        strings(final(parts)@) == strings(old(parts)@) + part(key@, opt_view(*value)),
{
    let ghost before = strings(parts@);
    if let Some(v) = value {
        let mut text = key.to_string();
        text.append(v.as_str());
        parts.push(text);
    }
    assert(strings(parts@) =~= before + part(key@, opt_view(*value)));
}

/// A filter in short.
pub fn filter_label(filter: &FilterExpression) -> (r: String)
    ensures
        r@ == filter_text(filter@),
{
    if filter.is_empty() {
        return "none".to_string();
    }
    let mut parts: Vec<String> = Vec::new();
    if !filter.query.as_str().is_empty() {
        let mut text = "q=".to_string();
        text.append(filter.query.as_str());
        parts.push(text);
    }
    assert(strings(parts@) =~= if filter@.query.len() > 0 {
        seq!["q="@ + filter@.query]
    } else {
        seq![]
    });
    add_part(&mut parts, "owner=", &filter.owner);
    add_part(&mut parts, "state=", &filter.state);
    add_part(&mut parts, "part=", &filter.partition);
    add_part(&mut parts, "gpu=", &filter.gpu_type);
    add_part(&mut parts, "node_state=", &filter.node_state);
    assert(strings(parts@) =~= filter_parts(filter@));
    join_texts(&parts, ",")
}

/// A text of at most `max_chars` characters, the last an ellipsis where it is cut.
pub open spec fn cut_text(text: Seq<char>, max_chars: int) -> Seq<char> {
    if text.len() <= max_chars {
        text
    } else if max_chars <= 0 {
        "…"@
    } else {
        text.take(max_chars - 1) + "…"@
    }
}

/// A text of at most `max_chars` characters.
pub fn truncate_text(text: &str, max_chars: usize) -> (r: String)
    ensures
        r@ == cut_text(text@, max_chars as int),
{
    let chars = to_chars(text);
    if chars.len() <= max_chars {
        return text.to_string();
    }
    let kept: usize = max_chars.saturating_sub(1);
    let head = slice_subrange(chars.as_slice(), 0, kept);
    assert(head@ =~= text@.take(kept as int));
    let mut out = to_text(head);
    out.append("…");
    proof {
        assert(text@.take(0) + "…"@ =~= "…"@);
    }
    out
}

/// A cut text is not longer than what it is cut to.
pub proof fn law_cut_text_fits(text: Seq<char>, max_chars: int)
    requires
        max_chars >= 1,
    ensures
        cut_text(text, max_chars).len() <= max_chars,
        text.len() <= max_chars ==> cut_text(text, max_chars) == text,
{
    reveal_strlit("…");
}

/// The counts of a map, as `type:count`.
pub open spec fn count_texts(gpus: Seq<(Seq<char>, u64)>) -> Seq<Seq<char>> {
    Seq::new(gpus.len(), |i: int| gpus[i].0 + ":"@ + decimal(gpus[i].1 as nat))
}

/// The counts of a map with `sep` between them, or zero.
pub open spec fn gpus_text(gpus: Seq<(Seq<char>, u64)>, sep: Seq<char>) -> Seq<char> {
    if gpus.len() == 0 {
        "0"@
    } else {
        join(count_texts(gpus), sep)
    }
}

/// The counts of a map with `sep` between them, or zero.
pub fn gpu_map_display(gpus: &GpuMap, sep: &str) -> (r: String)
    ensures
        r@ == gpus_text(gpus@, sep@),
{
    if gpus.is_empty() {
        return "0".to_string();
    }
    let n: usize = gpus.len();
    let mut parts: Vec<String> = Vec::new();
    let mut i: usize = 0;
    while i < n
        invariant
            i <= n,
            n == gpus@.len(),
            parts@.len() == i,
            forall|k: int| 0 <= k < i ==> (#[trigger] parts@[k])@ == count_texts(gpus@)[k],
        decreases n - i,
    {
        let mut text = gpus.key_at(i).clone();
        text.append(":");
        text.append(show(*gpus.value_at(i)).as_str());
        parts.push(text);
        i += 1;
    }
    assert(strings(parts@) =~= count_texts(gpus@));
    join_texts(&parts, sep)
}

/// A time of Slurm, or a dash where there is none.
pub open spec fn time_text(value: Seq<char>) -> Seq<char> {
    let v = trim(value);
    let l = ascii_lower(v);
    if v.len() == 0 || l == "none"@ || l == "n/a"@ || l == "(null)"@ || l == "null"@ {
        "—"@
    } else {
        v
    }
}

/// A time of Slurm, or a dash where there is none.
#[must_use]
pub fn slurm_time_display(value: &str) -> (r: String)
    ensures
        r@ == time_text(value@),
{
    let chars = to_chars(value);
    let v = strip(chars.as_slice());
    let lowered = lower(v);
    let l = lowered.as_slice();
    if v.len() == 0 || is_text(l, "none") || is_text(l, "n/a") || is_text(l, "(null)") || is_text(
        l,
        "null",
    ) {
        "—".to_string()
    } else {
        to_text(v)
    }
}

/// A time limit of a scan.
pub open spec fn limit_text(timeout: Option<Span>) -> Seq<char> {
    match timeout {
        Some(t) => decimal(t.secs as nat) + "s"@,
        None => "no timeout"@,
    }
}

/// A time limit of a scan.
pub fn disk_usage_timeout_label(timeout: Option<Span>) -> (r: String)
    ensures
        r@ == limit_text(timeout),
{
    match timeout {
        Some(t) => {
            let mut out = show(t.secs);
            out.append("s");
            out
        },
        None => "no timeout".to_string(),
    }
}

/// How far a scan is, in a sentence.
pub open spec fn progress_detail(progress: Option<DiskUsageProgress>) -> Seq<char> {
    match progress {
        None => "Preparing disk usage scan."@,
        Some(p) => match p.stage {
            DiskUsageProgressStage::Starting => "Preparing disk usage scan."@,
            DiskUsageProgressStage::Quota => "Checking filesystem quota for the current user."@,
            DiskUsageProgressStage::UserDirectory => "Measuring the user's directory with du; item counts are not available for this fast path."@,
            DiskUsageProgressStage::Traversal => if p.scanned_entries == 0 {
                "Scanning filesystem tree for files owned by the current user."@
            } else {
                "Scanned "@ + decimal(p.scanned_entries as nat) + " items; matched "@ + decimal(
                    p.matched_entries as nat,
                ) + " owned entries ("@ + human_size(p.bytes as nat) + ") so far."@
            },
        },
    }
}

/// How far a scan is, in a sentence.
pub fn disk_usage_progress_detail(progress: Option<DiskUsageProgress>) -> (r: String)
    ensures
        r@ == progress_detail(progress),
{
    match progress {
        None => "Preparing disk usage scan.".to_string(),
        Some(p) => match p.stage {
            DiskUsageProgressStage::Starting => "Preparing disk usage scan.".to_string(),
            DiskUsageProgressStage::Quota => "Checking filesystem quota for the current user.".to_string(),
            DiskUsageProgressStage::UserDirectory => "Measuring the user's directory with du; item counts are not available for this fast path.".to_string(),
            DiskUsageProgressStage::Traversal => if p.scanned_entries == 0 {
                "Scanning filesystem tree for files owned by the current user.".to_string()
            } else {
                let mut out = "Scanned ".to_string();
                out.append(show(p.scanned_entries).as_str());
                out.append(" items; matched ");
                out.append(show(p.matched_entries).as_str());
                out.append(" owned entries (");
                out.append(human_bytes(p.bytes).as_str());
                out.append(") so far.");
                out
            },
        },
    }
}

/// How far a scan is, in short.
pub open spec fn progress_short(p: DiskUsageProgress) -> Seq<char> {
    match p.stage {
        DiskUsageProgressStage::Starting => "starting"@,
        DiskUsageProgressStage::Quota => "checking quota"@,
        DiskUsageProgressStage::UserDirectory => "measuring user directory with du"@,
        DiskUsageProgressStage::Traversal => if p.scanned_entries == 0 {
            "traversing filesystem"@
        } else {
            "scanned "@ + decimal(p.scanned_entries as nat) + " items; matched "@ + decimal(
                p.matched_entries as nat,
            ) + " ("@ + human_size(p.bytes as nat) + ")"@
        },
    }
}

/// How far a scan is, in short.
pub fn disk_usage_progress_summary(p: DiskUsageProgress) -> (r: String)
    ensures
        r@ == progress_short(p),
{
    match p.stage {
        DiskUsageProgressStage::Starting => "starting".to_string(),
        DiskUsageProgressStage::Quota => "checking quota".to_string(),
        DiskUsageProgressStage::UserDirectory => "measuring user directory with du".to_string(),
        DiskUsageProgressStage::Traversal => if p.scanned_entries == 0 {
            "traversing filesystem".to_string()
        } else {
            let mut out = "scanned ".to_string();
            out.append(show(p.scanned_entries).as_str());
            out.append(" items; matched ");
            out.append(show(p.matched_entries).as_str());
            out.append(" (");
            out.append(human_bytes(p.bytes).as_str());
            out.append(")");
            out
        },
    }
}

/// The lines of a scan without a result yet.
pub open spec fn loading_text(timeout: Option<Span>, progress: Option<DiskUsageProgress>) -> Seq<Seq<char>> {
    seq![progress_detail(progress), "Timeout mode: "@ + limit_text(timeout)]
}

/// The lines of a scan without a result yet.
pub fn disk_usage_loading_lines(timeout: Option<Span>, progress: Option<DiskUsageProgress>) -> (r: Vec<
    String,
>)
    ensures
        strings(r@) == loading_text(timeout, progress),
{
    let mut mode = "Timeout mode: ".to_string();
    mode.append(disk_usage_timeout_label(timeout).as_str());
    let out = vec![disk_usage_progress_detail(progress), mode];
    assert(strings(out@) =~= loading_text(timeout, progress));
    out
}

/// The lines of a scan that refreshes a result.
pub open spec fn refreshing_text(timeout: Option<Span>, progress: Option<DiskUsageProgress>) -> Seq<
    Seq<char>,
> {
    seq![
        "Refreshing in background; timeout "@ + limit_text(timeout) + "."@,
        progress_detail(progress),
    ]
}

/// The lines of a scan that refreshes a result.
pub fn disk_usage_scan_progress_lines(timeout: Option<Span>, progress: Option<DiskUsageProgress>) -> (r: Vec<
    String,
>)
    ensures
        strings(r@) == refreshing_text(timeout, progress),
{
    let mut first = "Refreshing in background; timeout ".to_string();
    first.append(disk_usage_timeout_label(timeout).as_str());
    first.append(".");
    let out = vec![first, disk_usage_progress_detail(progress)];
    assert(strings(out@) =~= refreshing_text(timeout, progress));
    out
}

/// The lines of a result without rows.
pub open spec fn nothing_found_text(user: Seq<char>) -> Seq<Seq<char>> {
    seq![
        "No files owned by "@ + user + " were found on this mount."@,
        "The scan only includes directories the current process can traverse."@,
    ]
}

/// The lines of a result without rows.
pub fn disk_usage_empty_lines(user: &str) -> (r: Vec<String>)
    ensures
        strings(r@) == nothing_found_text(user@),
{
    let mut first = "No files owned by ".to_string();
    first.append(user);
    first.append(" were found on this mount.");
    let out = vec![
        first,
        "The scan only includes directories the current process can traverse.".to_string(),
    ];
    assert(strings(out@) =~= nothing_found_text(user@));
    out
}

/// Whether a result says nothing: one row without bytes and without entries.
pub open spec fn inconclusive(rows: Seq<UsageView>) -> bool {
    rows.len() == 1 && rows[0].bytes == 0 && rows[0].entries == 0
}

/// Whether a result says nothing.
pub fn is_inconclusive_zero_usage(rows: &[DiskUserUsage]) -> (r: bool)
    ensures
        r == inconclusive(views(rows@)),
{
    rows.len() == 1 && rows[0].bytes == 0 && rows[0].entries == 0
}

/// An error of a scan in words for a user.
pub open spec fn friendly_error(error: Seq<char>) -> Seq<char> {
    let l = ascii_lower(error);
    if contains(l, "timed out"@) || contains(l, "timeout"@) {
        "Usage scan timed out. This filesystem is too large to scan directly, and no quick user-directory result was available. Press n in this popup, or start with --disk-usage-no-timeout, to let scans run until completion."@
    } else if contains(l, "find "@) || contains(l, " du "@) || contains(l, "backend command"@) {
        "Usage scan failed in the background. Command details are hidden; try a narrower user/project directory or a filesystem quota tool."@
    } else {
        error
    }
}

/// An error of a scan in words for a user.
pub fn friendly_disk_usage_error(error: &str) -> (r: String)
    ensures
        r@ == friendly_error(error@),
{
    let chars = to_chars(error);
    let lowered = lower(chars.as_slice());
    let l = lowered.as_slice();
    if has_literal(l, "timed out") || has_literal(l, "timeout") {
        return "Usage scan timed out. This filesystem is too large to scan directly, and no quick user-directory result was available. Press n in this popup, or start with --disk-usage-no-timeout, to let scans run until completion.".to_string();
    }
    if has_literal(l, "find ") || has_literal(l, " du ") || has_literal(l, "backend command") {
        return "Usage scan failed in the background. Command details are hidden; try a narrower user/project directory or a filesystem quota tool.".to_string();
    }
    error.to_string()
}

/// One of four marks that follow each other every fifth of a second.
pub open spec fn spinner_mark(millis: int) -> Seq<char> {
    let frame = (millis / 200) % 4;
    if frame == 0 {
        "|"@
    } else if frame == 1 {
        "/"@
    } else if frame == 2 {
        "-"@
    } else {
        "\\"@
    }
}

/// One of four marks that follow each other every fifth of a second.
pub fn spinner(millis: u64) -> (r: &'static str)
    ensures
        r@ == spinner_mark(millis as int),
{
    let frame: u64 = (millis / 200) % 4;
    if frame == 0 {
        "|"
    } else if frame == 1 {
        "/"
    } else if frame == 2 {
        "-"
    } else {
        "\\"
    }
}

} // verus!
