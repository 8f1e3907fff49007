//! Points in time as dates and hours.

use vstd::prelude::*;

use crate::clock::Timestamp;
use crate::number::decimal;
use crate::number::show_padded;
use crate::number::zero_padded;

verus! {

/// A minute of the calendar.
#[derive(Debug, Clone, Copy, PartialEq, Eq, Structural)]
pub struct CivilTime {
    pub year: i32,
    pub month: u8,
    pub day: u8,
    pub hour: u8,
    pub minute: u8,
}

/// Whether a year has a leap day.
pub open spec fn is_leap(year: int) -> bool {
    year % 4 == 0 && (year % 100 != 0 || year % 400 == 0)
}

/// The days of a month.
pub open spec fn month_days(year: int, month: int) -> int {
    if month == 2 {
        if is_leap(year) {
            29
        } else {
            28
        }
    } else if month == 4 || month == 6 || month == 9 || month == 11 {
        30
    } else {
        31
    }
}

/// The days of a year in front of a month.
pub open spec fn days_before_month(year: int, month: int) -> int
    decreases month,
{
    if month <= 1 {
        0
    } else {
        days_before_month(year, month - 1) + month_days(year, month - 1)
    }
}

/// The days from the first of January of the year 1970 to a day.
pub open spec fn day_number(year: int, month: int, day: int) -> int {
    let y = year - 1;
    365 * y + y / 4 - y / 100 + y / 400 + days_before_month(year, month) + (day - 1) - 719_162
}

/// Whether the calendar and the clock show this minute, so many seconds after the beginning of the
/// year 1970.
pub open spec fn shows_minute(local: int, c: CivilTime) -> bool {
    &&& 1 <= c.month <= 12
    &&& 1 <= c.day <= month_days(c.year as int, c.month as int)
    &&& c.hour < 24
    &&& c.minute < 60
    &&& 0 <= local - (day_number(c.year as int, c.month as int, c.day as int) * 86_400 + c.hour * 3_600
        + c.minute * 60) < 60
}

/// The first second that has a date: the beginning of the year -9999.
pub open spec fn first_second() -> int {
    -377_705_116_800
}

/// The last second that has a date: the end of the year 9999.
pub open spec fn last_second() -> int {
    253_402_300_799
}

/// The largest distance of a local time from universal time, in seconds.
pub open spec fn largest_offset() -> int {
    93_599
}

/// Whether a second has a date at every offset.
pub open spec fn has_date(secs: int) -> bool {
    first_second() + largest_offset() <= secs <= last_second() - largest_offset()
}

/// The seconds from the epoch to a time, rounded down.
pub open spec fn whole_seconds(t: Timestamp) -> int {
    t.since_epoch() / 1_000_000_000
}

/// Whether a time has a date, wherever it is shown.
pub open spec fn displayable(t: Timestamp) -> bool {
    has_date(whole_seconds(t))
}

/// The seconds from the epoch to a time, rounded down, where they have a date.
pub fn checked_seconds(t: Timestamp) -> (r: Option<i64>)
    ensures
        match r {
            Some(n) => n == whole_seconds(t) && displayable(t),
            None => !displayable(t),
        },
{
    let nanos: i128 = t.secs as i128 * 1_000_000_000 + t.nanos as i128;
    let secs: i128 = if t.before_epoch {
        let whole: i128 = nanos / 1_000_000_000;
        if nanos % 1_000_000_000 == 0 {
            -whole
        } else {
            -whole - 1
        }
    } else {
        nanos / 1_000_000_000
    };
    proof {
        if t.before_epoch {
            let n = nanos as int;
            let q = n / 1_000_000_000;
            let m = n % 1_000_000_000;
            assert(n == q * 1_000_000_000 + m);
            assert(whole_seconds(t) == (-n) / 1_000_000_000);
            assert((-n) / 1_000_000_000 == if m == 0 {
                -q
            } else {
                -q - 1
            }) by (nonlinear_arith)
                requires
                    n == q * 1_000_000_000 + m,
                    0 <= m < 1_000_000_000,
            {
            }
        }
    }
    if secs < -377_705_116_800 + 93_599 || secs > 253_402_300_799 - 93_599 {
        None
    } else {
        Some(secs as i64)
    }
}

/// Whether a time has a date, wherever it is shown.
pub fn is_displayable(t: Timestamp) -> (r: bool)
    ensures
        r == displayable(t),
{
    checked_seconds(t).is_some()
}

/// `time::UtcOffset::local_offset_at`, on the time that `time::OffsetDateTime::from_unix_timestamp`
/// makes of the seconds: how far the local time is from universal time, or zero where that cannot
/// be told. It depends on the machine; only its bounds are known.
#[verifier::external_body]
fn local_offset(secs: i64) -> (r: i32)
    requires
        first_second() <= secs <= last_second(),
    ensures
        -largest_offset() <= r <= largest_offset(),
{
    let utc = time::OffsetDateTime::from_unix_timestamp(secs)
        .unwrap_or(time::OffsetDateTime::UNIX_EPOCH);
    time::UtcOffset::local_offset_at(utc).unwrap_or(time::UtcOffset::UTC).whole_seconds()
}

/// `time::OffsetDateTime::to_offset`, on the time that `time::OffsetDateTime::from_unix_timestamp`
/// makes of the seconds: the minute that the calendar and the clock show at an offset from
/// universal time.
#[verifier::external_body]
fn civil_time(secs: i64, offset: i32) -> (r: CivilTime)
    requires
        first_second() <= secs <= last_second(),
        -largest_offset() <= offset <= largest_offset(),
        first_second() <= secs + offset <= last_second(),
    ensures
        shows_minute(secs + offset, r),
{
    let utc = time::OffsetDateTime::from_unix_timestamp(secs)
        .unwrap_or(time::OffsetDateTime::UNIX_EPOCH);
    let zone = time::UtcOffset::from_whole_seconds(offset).unwrap_or(time::UtcOffset::UTC);
    let local = utc.to_offset(zone);
    CivilTime {
        year: local.year(),
        month: u8::from(local.month()),
        day: local.day(),
        hour: local.hour(),
        minute: local.minute(),
    }
}

/// A year with four characters at least, a sign among them.
pub open spec fn year_text(year: int) -> Seq<char> {
    if year < 0 {
        "-"@ + zero_padded(decimal((-year) as nat), 3)
    } else {
        zero_padded(decimal(year as nat), 4)
    }
}

/// Two digits at least.
pub open spec fn two_digits(n: nat) -> Seq<char> {
    zero_padded(decimal(n), 2)
}

/// An offset from universal time, in hours and minutes.
pub open spec fn offset_text(seconds: int) -> Seq<char> {
    if seconds == 0 {
        "UTC"@
    } else {
        let size: nat = if seconds < 0 {
            (-seconds) as nat
        } else {
            seconds as nat
        };
        let sign = if seconds < 0 {
            "-"@
        } else {
            "+"@
        };
        "UTC"@ + sign + two_digits(size / 3_600) + ":"@ + two_digits((size % 3_600) / 60)
    }
}

/// A minute of the calendar at an offset from universal time.
pub open spec fn stamp_text(c: CivilTime, offset: int) -> Seq<char> {
    year_text(c.year as int) + "-"@ + two_digits(c.month as nat) + "-"@ + two_digits(c.day as nat)
        + " "@ + two_digits(c.hour as nat) + ":"@ + two_digits(c.minute as nat) + " "@ + offset_text(
        offset,
    )
}

/// An offset from universal time, in hours and minutes.
pub fn format_utc_offset(seconds: i32) -> (r: String)
    ensures
        r@ == offset_text(seconds as int),
{
    if seconds == 0 {
        return "UTC".to_string();
    }
    let size: u64 = if seconds < 0 {
        (-(seconds as i64)) as u64
    } else {
        seconds as u64
    };
    let mut out = "UTC".to_string();
    if seconds < 0 {
        out.append("-");
    } else {
        out.append("+");
    }
    out.append(show_padded(size / 3_600, 2).as_str());
    out.append(":");
    out.append(show_padded((size % 3_600) / 60, 2).as_str());
    out
}

/// A minute of the calendar at an offset from universal time.
pub fn show_minute(c: CivilTime, offset: i32) -> (r: String)
    ensures
        r@ == stamp_text(c, offset as int),
{
    let mut out = String::new();
    if c.year < 0 {
        out.append("-");
        out.append(show_padded((-(c.year as i64)) as u64, 3).as_str());
    } else {
        out.append(show_padded(c.year as u64, 4).as_str());
    }
    assert(out@ =~= year_text(c.year as int));
    out.append("-");
    out.append(show_padded(c.month as u64, 2).as_str());
    out.append("-");
    out.append(show_padded(c.day as u64, 2).as_str());
    out.append(" ");
    out.append(show_padded(c.hour as u64, 2).as_str());
    out.append(":");
    out.append(show_padded(c.minute as u64, 2).as_str());
    out.append(" ");
    out.append(format_utc_offset(offset).as_str());
    out
}

/// Whether a text shows a time at an offset from universal time.
pub open spec fn shows_time(text: Seq<char>, t: Timestamp, offset: int) -> bool {
    exists|c: CivilTime| #[trigger]
        shows_minute(whole_seconds(t) + offset, c) && text == stamp_text(c, offset)
}

/// A time at an offset from universal time.
pub fn format_at_offset(t: Timestamp, offset: i32) -> (r: String)
    requires
        displayable(t),
        -largest_offset() <= offset <= largest_offset(),
    ensures
        shows_time(r@, t, offset as int),
{
    let secs: i64 = match checked_seconds(t) {
        Some(n) => n,
        None => 0,
    };
    let c = civil_time(secs, offset);
    show_minute(c, offset)
}

/// Whether a text shows a time at some offset from universal time.
pub open spec fn shows_locally(text: Seq<char>, t: Timestamp) -> bool {
    exists|offset: int|
        -largest_offset() <= offset <= largest_offset() && #[trigger] shows_time(text, t, offset)
}

/// A time as the local clock shows it.
pub fn format_timestamp(t: Timestamp) -> (r: String)
    requires
        displayable(t),
    ensures
        shows_locally(r@, t),
{
    let secs: i64 = match checked_seconds(t) {
        Some(n) => n,
        None => 0,
    };
    let offset: i32 = local_offset(secs);
    let r = format_at_offset(t, offset);
    assert(shows_time(r@, t, offset as int));
    r
}

proof fn lemma_month_grows(year: int, a: int, b: int)
    requires
        1 <= a <= b,
    ensures
        days_before_month(year, a) + (b - a) * 28 <= days_before_month(year, b),
        a < b ==> days_before_month(year, a) + month_days(year, a) <= days_before_month(year, b),
    decreases b - a,
{
    if a < b {
        lemma_month_grows(year, a, b - 1);
    }
}

proof fn lemma_year_length(year: int)
    ensures
        days_before_month(year, 13) == if is_leap(year) {
            366int
        } else {
            365
        },
{
    reveal_with_fuel(days_before_month, 14);
}

/// From one year to the next, the leap days that the three rules count grow as the rules say.
proof fn lemma_leap_days_step(year: int)
    ensures
        year / 4 == (year - 1) / 4 + if year % 4 == 0 { 1int } else { 0 },
        year / 100 == (year - 1) / 100 + if year % 100 == 0 { 1int } else { 0 },
        year / 400 == (year - 1) / 400 + if year % 400 == 0 { 1int } else { 0 },
{
}

proof fn lemma_leap_rules(year: int)
    ensures
        year % 400 == 0 ==> year % 100 == 0,
        year % 100 == 0 ==> year % 4 == 0,
{
    if year % 400 == 0 {
        assert(year == 400 * (year / 400));
    }
    if year % 100 == 0 {
        assert(year == 100 * (year / 100));
    }
}

/// The leap days of the years up to a year.
#[verifier::opaque]
spec fn leap_days(year: int) -> int {
    year / 4 - year / 100 + year / 400
}

proof fn lemma_leap_days(year: int)
    ensures
        leap_days(year) == leap_days(year - 1) + if is_leap(year) { 1int } else { 0 },
{
    reveal(leap_days);
    lemma_leap_days_step(year);
    lemma_leap_rules(year);
}

proof fn lemma_first_day(year: int)
    ensures
        day_number(year, 1, 1) == 365 * (year - 1) + leap_days(year - 1) - 719_162,
{
    reveal(leap_days);
}

proof fn lemma_next_year(year: int)
    ensures
        day_number(year + 1, 1, 1) == day_number(year, 1, 1) + days_before_month(year, 13),
{
    lemma_leap_days(year);
    lemma_year_length(year);
    lemma_first_day(year);
    lemma_first_day(year + 1);
}

proof fn lemma_year_grows(a: int, b: int)
    requires
        a < b,
    ensures
        day_number(a, 1, 1) + days_before_month(a, 13) <= day_number(b, 1, 1),
    decreases b - a,
{
    lemma_next_year(b - 1);
    if a + 1 < b {
        lemma_year_grows(a, b - 1);
        lemma_year_length(b - 1);
    }
}

/// The calendar and the clock show one minute at a time: what is shown of a time is fixed by the
/// time and the offset.
pub proof fn law_one_minute_at_a_time(local: int, a: CivilTime, b: CivilTime)
    requires
        shows_minute(local, a),
        shows_minute(local, b),
    ensures
        a == b,
{
    let (da, db) = (
        day_number(a.year as int, a.month as int, a.day as int),
        day_number(b.year as int, b.month as int, b.day as int),
    );
    assert(da == db);
    lemma_day_in_year(a);
    lemma_day_in_year(b);
    if a.year < b.year {
        lemma_year_grows(a.year as int, b.year as int);
    } else if b.year < a.year {
        lemma_year_grows(b.year as int, a.year as int);
    }
    assert(a.year == b.year);
    if a.month < b.month {
        lemma_month_grows(a.year as int, a.month as int, b.month as int);
    } else if b.month < a.month {
        lemma_month_grows(a.year as int, b.month as int, a.month as int);
    }
}

proof fn lemma_day_in_year(c: CivilTime)
    requires
        1 <= c.month <= 12,
        1 <= c.day <= month_days(c.year as int, c.month as int),
    ensures
        day_number(c.year as int, 1, 1) <= day_number(c.year as int, c.month as int, c.day as int),
        day_number(c.year as int, c.month as int, c.day as int) < day_number(c.year as int, 1, 1)
            + days_before_month(c.year as int, 13),
{
    let (y, m) = (c.year as int, c.month as int);
    lemma_month_grows(y, 1, m);
    lemma_month_grows(y, m, 13);
}

} // verus!
