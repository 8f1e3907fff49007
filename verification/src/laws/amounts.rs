//! What numbers, amounts and times in texts mean.

use vstd::prelude::*;

use crate::amount::amount_digits;
use crate::amount::amount_unit;
use crate::amount::cpu_counts;
use crate::amount::leading_number;
use crate::amount::memory_said;
use crate::amount::quota_bytes;
use crate::amount::quota_unit;
use crate::laws::texts::law_cut_at_first;
use crate::laws::texts::law_pieces_are_runs;
use crate::laws::texts::law_trim;
use crate::laws::texts::lemma_first_behind;
use crate::laws::texts::made_of;
use crate::laws::texts::without;
use crate::model::job_number;
use crate::model::slurm_seconds;
use crate::number::all_digits;
use crate::number::at_most;
use crate::number::decimal;
use crate::number::digit_char;
use crate::number::digits_value;
use crate::number::parse_64;
use crate::number::parse_64_or_zero;
use crate::number::ten_to;
use crate::number::zero_padded;
use crate::text::ascii_lower;
use crate::text::char_upper;
use crate::text::in_class;
use crate::text::is_digit;
use crate::text::is_letter;
use crate::text::is_space;
use crate::text::lead;
use crate::text::lead_len;
use crate::text::split;
use crate::text::trim;
use crate::text::CharClass;
use crate::units::human_memory;
use crate::units::human_size;

verus! {

/// A number in decimal is its digits, the last one behind those of a tenth of it.
pub proof fn law_decimal_digits(n: nat, d: nat)
    requires
        d < 10,
    ensures
        decimal(d) == seq!["0123456789"@[d as int]],
        n > 0 ==> decimal(10 * n + d) == decimal(n) + seq!["0123456789"@[d as int]],
{
    reveal_strlit("0123456789");
    assert(decimal(d) =~= seq!["0123456789"@[d as int]]);
    if n > 0 {
        assert((10 * n + d) / 10 == n && (10 * n + d) % 10 == d);
        assert(decimal(10 * n + d) =~= decimal(n) + seq!["0123456789"@[d as int]]);
    }
}

/// Digits write the number of which the last one is the ones; zeros in front count for nothing, and
/// ten to a power is so many times ten.
pub proof fn law_digits_value(s: Seq<char>, d: nat, e: nat)
    requires
        d < 10,
    ensures
        digits_value(seq![]) == 0,
        digits_value(s + decimal(d)) == 10 * digits_value(s) + d,
        digits_value("0"@ + s) == digits_value(s),
        ten_to(0) == 1,
        ten_to(e + 1) == 10 * ten_to(e),
    decreases s.len(),
{
    reveal_strlit("0");
    let t = s + decimal(d);
    assert(decimal(d) =~= seq![digit_char(d)]);
    assert(t.drop_last() =~= s);
    assert(t.last() == digit_char(d));
    let z = "0"@ + s;
    if s.len() == 0 {
        assert(z =~= seq!['0']);
        assert(z.drop_last() =~= seq![]);
        reveal_with_fuel(digits_value, 2);
    } else {
        law_digits_value(s.drop_last(), d, e);
        assert(z.drop_last() =~= "0"@ + s.drop_last());
        assert(z.last() == s.last());
    }
}

/// Whether a text is a number in digits that fits.
pub open spec fn number_text(s: Seq<char>) -> bool {
    s.len() > 0 && all_digits(s) && digits_value(s) <= u64::MAX
}

proof fn lemma_number_text(s: Seq<char>)
    requires
        number_text(s),
    ensures
        parse_64(s) == Some(digits_value(s)),
        parse_64_or_zero(s) == digits_value(s),
        without(s, CharClass::Space),
        without(s, CharClass::NotDigit),
        without(s, CharClass::Letter),
        without(s, CharClass::Exactly('-')),
        without(s, CharClass::Exactly(':')),
        without(s, CharClass::Exactly('.')),
        without(s, CharClass::Exactly('/')),
        !is_space(s[0]) && !is_space(s.last()) && is_digit(s[0]) && is_digit(s.last()),
{
    assert(is_digit(s[0]));
    assert(is_digit(s[s.len() - 1]));
    assert forall|i: int| 0 <= i < s.len() implies is_digit(#[trigger] s[i]) by {}
}

/// A job is ordered by the first number in its identifier, and a task of an array by the second;
/// without a second one it is zero.
#[verifier::rlimit(40)]
pub proof fn law_job_number(front: Seq<char>, job: Seq<char>, between: Seq<char>, task: Seq<char>, back: Seq<char>)
    requires
        made_of(front, CharClass::NotDigit),
        made_of(between, CharClass::NotDigit),
        between.len() > 0,
        number_text(job),
        number_text(task),
        back.len() > 0 ==> !is_digit(back[0]),
    ensures
        job_number(front + job + between + task + back) == (digits_value(job) as u64, digits_value(task) as u64),
        job_number(front + job + between) == (digits_value(job) as u64, 0u64),
        job_number(front + job) == (digits_value(job) as u64, 0u64),
        job_number(front) == (u64::MAX, 0u64),
{
    let class = CharClass::NotDigit;
    lemma_number_text(job);
    lemma_number_text(task);
    let none: Seq<char> = seq![];
    let tail = between + task + back;
    assert(in_class(class, between[0]));
    law_pieces_are_runs(front, job, tail, class);
    assert(front + job + tail =~= front + job + between + task + back);
    law_pieces_are_runs(between, task, back, class);
    law_pieces_are_runs(front, job, between, class);
    law_pieces_are_runs(front, job, none, class);
    law_pieces_are_runs(none, job, none, class);
    assert(front + job + none =~= front + job);
}

/// Whether these are the texts of the parts of a time.
pub open spec fn times(d: Seq<char>, h: Seq<char>, m: Seq<char>, s: Seq<char>) -> bool {
    number_text(d) && number_text(h) && number_text(m) && number_text(s)
}

proof fn lemma_no_sign(s: Seq<char>, c: char)
    requires
        number_text(s),
        !is_digit(c),
    ensures
        without(s, CharClass::Exactly(c)),
{
    assert forall|i: int| 0 <= i < s.len() implies !in_class(CharClass::Exactly(c), #[trigger] s[i]) by {
        assert(is_digit(s[i]));
    }
}

proof fn lemma_no_dash(a: Seq<char>, b: Seq<char>)
    requires
        number_text(a),
        without(b, CharClass::Exactly('-')),
    ensures
        without(a + seq![':'] + b, CharClass::Exactly('-')),
{
    let t = a + seq![':'] + b;
    lemma_no_sign(a, '-');
    assert forall|i: int| 0 <= i < t.len() implies !in_class(CharClass::Exactly('-'), #[trigger] t[i]) by {
        if i < a.len() {
            assert(t[i] == a[i]);
        } else if i > a.len() {
            assert(t[i] == b[i - a.len() - 1]);
        }
    }
}

proof fn lemma_short_time(m: Seq<char>, s: Seq<char>)
    requires
        number_text(m),
        number_text(s),
    ensures
        split(m + seq![':'] + s, CharClass::Exactly(':')) == seq![m, s],
        without(m + seq![':'] + s, CharClass::Exactly('-')),
{
    let colon = CharClass::Exactly(':');
    lemma_no_sign(m, ':');
    lemma_no_sign(s, ':');
    lemma_no_sign(s, '-');
    law_cut_at_first(s, ':', seq![], colon);
    law_cut_at_first(m, ':', s, colon);
    assert(seq![m] + seq![s] =~= seq![m, s]);
    lemma_no_dash(m, s);
}

proof fn lemma_long_time(h: Seq<char>, m: Seq<char>, s: Seq<char>)
    requires
        number_text(h),
        number_text(m),
        number_text(s),
    ensures
        split(h + seq![':'] + (m + seq![':'] + s), CharClass::Exactly(':')) == seq![h, m, s],
        without(h + seq![':'] + (m + seq![':'] + s), CharClass::Exactly('-')),
{
    let short = m + seq![':'] + s;
    lemma_short_time(m, s);
    lemma_no_sign(h, ':');
    law_cut_at_first(h, ':', short, CharClass::Exactly(':'));
    assert(seq![h] + seq![m, s] =~= seq![h, m, s]);
    lemma_no_dash(h, short);
}

/// A time of Slurm is days, hours, minutes and seconds; the days and then the hours may be left out.
pub proof fn law_slurm_time(d: Seq<char>, h: Seq<char>, m: Seq<char>, s: Seq<char>)
    requires
        times(d, h, m, s),
    ensures
        slurm_seconds(d + "-"@ + h + ":"@ + m + ":"@ + s) == ((digits_value(d) * 24 + digits_value(h)) * 60
            + digits_value(m)) * 60 + digits_value(s),
        slurm_seconds(h + ":"@ + m + ":"@ + s) == (digits_value(h) * 60 + digits_value(m)) * 60 + digits_value(
            s,
        ),
        slurm_seconds(m + ":"@ + s) == digits_value(m) * 60 + digits_value(s),
{
    reveal_strlit("-");
    reveal_strlit(":");
    assert("-"@ =~= seq!['-']);
    assert(":"@ =~= seq![':']);
    let short = m + seq![':'] + s;
    let long = h + seq![':'] + short;
    assert(long =~= h + ":"@ + m + ":"@ + s);
    assert(d + seq!['-'] + long =~= d + "-"@ + h + ":"@ + m + ":"@ + s);
    lemma_numbers(d, h, m, s);
    lemma_time_short(m, s);
    lemma_time_long(h, m, s);
    lemma_time_days(d, h, m, s);
}

proof fn lemma_numbers(d: Seq<char>, h: Seq<char>, m: Seq<char>, s: Seq<char>)
    requires
        times(d, h, m, s),
    ensures
        parse_64_or_zero(d) == digits_value(d),
        parse_64_or_zero(h) == digits_value(h),
        parse_64_or_zero(m) == digits_value(m),
        parse_64_or_zero(s) == digits_value(s),
{
    assert(is_digit(d[0]) && is_digit(h[0]) && is_digit(m[0]) && is_digit(s[0]));
}

proof fn lemma_time_short(m: Seq<char>, s: Seq<char>)
    requires
        number_text(m),
        number_text(s),
    ensures
        slurm_seconds(m + seq![':'] + s) == parse_64_or_zero(m) * 60 + parse_64_or_zero(s),
{
    lemma_short_time(m, s);
    law_cut_at_first(m + seq![':'] + s, '-', seq![], CharClass::Exactly('-'));
}

proof fn lemma_time_long(h: Seq<char>, m: Seq<char>, s: Seq<char>)
    requires
        number_text(h),
        number_text(m),
        number_text(s),
    ensures
        slurm_seconds(h + seq![':'] + (m + seq![':'] + s)) == parse_64_or_zero(h) * 3600 + parse_64_or_zero(m) * 60
            + parse_64_or_zero(s),
{
    lemma_long_time(h, m, s);
    law_cut_at_first(h + seq![':'] + (m + seq![':'] + s), '-', seq![], CharClass::Exactly('-'));
}

proof fn lemma_time_days(d: Seq<char>, h: Seq<char>, m: Seq<char>, s: Seq<char>)
    requires
        times(d, h, m, s),
    ensures
        slurm_seconds(d + seq!['-'] + (h + seq![':'] + (m + seq![':'] + s))) == parse_64_or_zero(d) * 86400
            + parse_64_or_zero(h) * 3600 + parse_64_or_zero(m) * 60 + parse_64_or_zero(s),
{
    lemma_long_time(h, m, s);
    lemma_no_sign(d, '-');
    law_cut_at_first(d, '-', h + seq![':'] + (m + seq![':'] + s), CharClass::Exactly('-'));
}

/// What is in front of what does not belong to a class is its lead.
pub proof fn lemma_lead(s: Seq<char>, rest: Seq<char>, class: CharClass)
    requires
        made_of(s, class),
        rest.len() > 0 ==> !in_class(class, rest[0]),
    ensures
        lead_len(s + rest, class) == s.len(),
        lead(s + rest, class) == s,
    decreases s.len(),
{
    let t = s + rest;
    if s.len() > 0 {
        let fewer = s.drop_first();
        assert(in_class(class, s[0]));
        assert(t[0] == s[0]);
        assert(t.drop_first() =~= fewer + rest);
        assert forall|i: int| 0 <= i < fewer.len() implies in_class(class, #[trigger] fewer[i]) by {
            assert(fewer[i] == s[i + 1]);
        }
        lemma_lead(fewer, rest, class);
    } else {
        assert(t =~= rest);
    }
    assert(t.take(s.len() as int) =~= s);
}

/// Whether a text may stand behind a number: it does not begin with a digit, and does not end with
/// white space.
pub open spec fn may_follow(rest: Seq<char>) -> bool {
    rest.len() > 0 ==> !is_digit(rest[0]) && !is_space(rest.last())
}

/// The number in front of a text is read, and white space around it passed over.
pub proof fn law_leading_number(front: Seq<char>, s: Seq<char>, rest: Seq<char>, back: Seq<char>)
    requires
        made_of(front, CharClass::Space),
        made_of(back, CharClass::Space),
        number_text(s),
        may_follow(rest),
    ensures
        leading_number(front + s + rest + back) == digits_value(s),
{
    lemma_number_text(s);
    let t = s + rest;
    assert(t[0] == s[0]);
    assert(t.last() == if rest.len() > 0 {
        rest.last()
    } else {
        s.last()
    });
    law_trim(front, t, back);
    assert(front + t + back =~= front + s + rest + back);
    assert(made_of(s, CharClass::Digit));
    lemma_lead(s, rest, CharClass::Digit);
}

/// What is read of an amount: the digits in front of its unit, and the unit in upper case.
proof fn lemma_amount(s: Seq<char>, unit: Seq<char>)
    requires
        forall|i: int| 0 <= i < s.len() ==> is_digit(#[trigger] s[i]) || s[i] == '.',
        unit.len() > 0 ==> is_letter(unit[0]),
    ensures
        amount_digits(s + unit) == s,
        amount_unit(s + unit) == if unit.len() > 0 {
            Some(char_upper(unit[0]))
        } else {
            None
        },
{
    let v = s + unit;
    assert(without(s, CharClass::Letter));
    lemma_first_behind(s, unit, CharClass::Letter);
    assert(v.take(s.len() as int) =~= s);
    let keep = |c: char| is_digit(c) || c == '.';
    lemma_all_kept(s, keep);
    if unit.len() > 0 {
        assert(v[s.len() as int] == unit[0]);
    }
}

proof fn lemma_all_kept(s: Seq<char>, keep: spec_fn(char) -> bool)
    requires
        forall|i: int| 0 <= i < s.len() ==> keep(#[trigger] s[i]),
    ensures
        s.filter(keep) == s,
    decreases s.len(),
{
    reveal(Seq::filter);
    if s.len() > 0 {
        let fewer = s.drop_last();
        assert forall|i: int| 0 <= i < fewer.len() implies keep(#[trigger] fewer[i]) by {
            assert(fewer[i] == s[i]);
        }
        lemma_all_kept(fewer, keep);
        assert(keep(s[s.len() - 1]));
        assert(fewer.push(s.last()) =~= s);
    } else {
        assert(s.filter(keep) =~= s);
    }
}

/// Whether a text is a unit: it begins with a letter, in either case, and does not end with white
/// space.
pub open spec fn unit_text(unit: Seq<char>, small: char, large: char) -> bool {
    unit.len() > 0 && (unit[0] == small || unit[0] == large) && !is_space(unit.last())
}

proof fn lemma_plain_amount(s: Seq<char>, unit: Seq<char>)
    requires
        s.len() > 0 && is_digit(s[0]) && (is_digit(s.last()) || s.last() == '.'),
        unit.len() > 0 ==> !is_space(unit.last()),
    ensures
        trim(s + unit) == s + unit,
        ascii_lower(s + unit) != "n/a"@,
        ascii_lower(s + unit) != "(null)"@,
        ascii_lower(s + unit) != "unknown"@,
{
    reveal_strlit("n/a");
    reveal_strlit("(null)");
    reveal_strlit("unknown");
    let v = s + unit;
    assert(v[0] == s[0]);
    assert(v.last() == if unit.len() > 0 {
        unit.last()
    } else {
        s.last()
    });
    let none: Seq<char> = seq![];
    law_trim(none, v, none);
    assert(ascii_lower(v)[0] == s[0]);
}

/// An amount of memory is in MiB without a unit or with one that is none of the others, a 1024th of
/// that in KiB, 1024 times in GiB and 1024 times that in TiB, as far as it fits.
pub proof fn law_memory_units(s: Seq<char>, unit: Seq<char>)
    requires
        number_text(s),
        unit.len() > 0 ==> is_letter(unit[0]) && !is_space(unit.last()),
    ensures
        unit.len() == 0 || unit_text(unit, 'm', 'M') ==> memory_said(s + unit) == digits_value(s),
        unit_text(unit, 'k', 'K') ==> memory_said(s + unit) == digits_value(s) / 1024,
        unit_text(unit, 'g', 'G') ==> memory_said(s + unit) == at_most(digits_value(s) * 1024, u64::MAX as nat),
        unit_text(unit, 't', 'T') ==> memory_said(s + unit) == at_most(
            digits_value(s) * 1024 * 1024,
            u64::MAX as nat,
        ),
{
    lemma_number_text(s);
    lemma_plain_amount(s, unit);
    lemma_amount(s, unit);
    law_cut_at_first(s, '.', seq![], CharClass::Exactly('.'));
    assert(digits_value(s) * (1024 * 1024) == digits_value(s) * 1024 * 1024) by (nonlinear_arith);
    assert(0nat / 1 == 0);
}

/// Memory that is not known is none.
pub proof fn law_unknown_memory(value: Seq<char>)
    requires
        trim(value).len() == 0 || ascii_lower(trim(value)) == "n/a"@ || ascii_lower(trim(value)) == "(null)"@
            || ascii_lower(trim(value)) == "unknown"@,
    ensures
        memory_said(value) == 0,
{
}

/// A number may have a plus sign in front; with anything else in it, it is no number, and neither is one
/// that does not fit.
pub proof fn law_numbers_read(s: Seq<char>, i: int)
    requires
        s.len() > 0,
        all_digits(s),
        0 <= i < s.len(),
    ensures
        digits_value(s) <= u64::MAX ==> parse_64(s) == Some(digits_value(s)) && parse_64("+"@ + s) == Some(
            digits_value(s),
        ),
        digits_value(s) > u64::MAX ==> parse_64(s) is None,
        parse_64("-"@ + s) is None,
        parse_64(s.update(i, 'x')) is None,
        parse_64(seq![]) is None,
{
    reveal_strlit("+");
    reveal_strlit("-");
    assert(is_digit(s[0]));
    assert(("+"@ + s).drop_first() =~= s);
    let minus = "-"@ + s;
    assert(minus[0] == '-' && !is_digit(minus[0]));
    let other = s.update(i, 'x');
    assert(other[i] == 'x' && !is_digit(other[i]));
    assert(other[0] == 'x' || other[0] == s[0]);
}

/// A fraction of an amount of memory counts in GiB and TiB, cut off to whole MiB.
#[verifier::rlimit(40)]
pub proof fn law_memory_fractions(s: Seq<char>, f: Seq<char>, unit: Seq<char>)
    requires
        number_text(s),
        number_text(f),
        f.len() <= 12,
        digits_value(s) <= 0xffff_ffff,
        digits_value(f) <= 0xff_ffff_ffff,
        unit_text(unit, 'g', 'G') || unit_text(unit, 't', 'T'),
    ensures
        unit_text(unit, 'g', 'G') ==> memory_said(s + "."@ + f + unit) == digits_value(s) * 1024 + digits_value(f)
            * 1024 / ten_to(f.len()),
        unit_text(unit, 't', 'T') ==> memory_said(s + "."@ + f + unit) == digits_value(s) * 1024 * 1024
            + digits_value(f) * (1024 * 1024) / ten_to(f.len()),
{
    reveal_strlit(".");
    assert("."@ =~= seq!['.']);
    lemma_number_text(s);
    lemma_number_text(f);
    let v = s + "."@ + f;
    assert(v.last() == f.last() && v[0] == s[0]);
    assert forall|i: int| 0 <= i < v.len() implies is_digit(#[trigger] v[i]) || v[i] == '.' by {
        if i < s.len() {
            assert(v[i] == s[i]);
        } else if i > s.len() {
            assert(v[i] == f[i - s.len() - 1]);
        }
    }
    lemma_plain_amount(v, unit);
    lemma_amount(v, unit);
    law_cut_at_first(s, '.', f, CharClass::Exactly('.'));
    lemma_all_kept(f, |c: char| is_digit(c));
    lemma_ten_to(f.len());
    let (a, b, t) = (digits_value(s), digits_value(f), ten_to(f.len()));
    assert(b * 1024 / t <= b * 1024) by (nonlinear_arith)
        requires
            t >= 1,
    ;
    assert(b * (1024 * 1024) / t <= b * (1024 * 1024)) by (nonlinear_arith)
        requires
            t >= 1,
    ;
    assert(a * (1024 * 1024) == a * 1024 * 1024) by (nonlinear_arith);
    assert(a * 1024 * 1024 <= 0xffff_ffff * 0x10_0000) by (nonlinear_arith)
        requires
            a <= 0xffff_ffff,
    ;
    assert(b * (1024 * 1024) <= 0xff_ffff_ffff * 0x10_0000) by (nonlinear_arith)
        requires
            b <= 0xff_ffff_ffff,
    ;
}

proof fn lemma_ten_to(e: nat)
    requires
        e <= 12,
    ensures
        1 <= ten_to(e) <= 1_000_000_000_000,
{
    reveal_with_fuel(ten_to, 13);
}

/// An amount of disk space is in bytes without a unit, and 1024 times as much with each unit from K to
/// P, as far as it fits.
#[verifier::rlimit(40)]
pub proof fn law_quota_units(s: Seq<char>, unit: Seq<char>)
    requires
        number_text(s),
        unit.len() > 0 ==> is_letter(unit[0]) && !is_space(unit.last()),
    ensures
        unit.len() == 0 || unit_text(unit, 'b', 'B') ==> quota_bytes(s + unit) == Some(digits_value(s)),
        unit_text(unit, 'k', 'K') ==> quota_bytes(s + unit) == Some(
            at_most(digits_value(s) * 0x400, u64::MAX as nat),
        ),
        unit_text(unit, 'm', 'M') ==> quota_bytes(s + unit) == Some(
            at_most(digits_value(s) * 0x10_0000, u64::MAX as nat),
        ),
        unit_text(unit, 'g', 'G') ==> quota_bytes(s + unit) == Some(
            at_most(digits_value(s) * 0x4000_0000, u64::MAX as nat),
        ),
        unit_text(unit, 't', 'T') ==> quota_bytes(s + unit) == Some(
            at_most(digits_value(s) * 0x100_0000_0000, u64::MAX as nat),
        ),
        unit_text(unit, 'p', 'P') ==> quota_bytes(s + unit) == Some(
            at_most(digits_value(s) * 0x4_0000_0000_0000, u64::MAX as nat),
        ),
{
    lemma_number_text(s);
    lemma_plain_amount(s, unit);
    lemma_amount(s, unit);
    law_cut_at_first(s, '.', seq![], CharClass::Exactly('.'));
    let size = quota_unit(amount_unit(s + unit));
    let n = digits_value(s);
    assert(0 * size == 0) by (nonlinear_arith);
    assert(n * 1 == n);
    assert(quota_bytes(s + unit) == Some(at_most(n * size, u64::MAX as nat)));
    if unit.len() > 0 {
        let c = char_upper(unit[0]);
        assert(unit_text(unit, 'k', 'K') ==> c == 'K');
        assert(unit_text(unit, 'm', 'M') ==> c == 'M');
        assert(unit_text(unit, 'g', 'G') ==> c == 'G');
        assert(unit_text(unit, 't', 'T') ==> c == 'T');
        assert(unit_text(unit, 'p', 'P') ==> c == 'P');
        assert(unit_text(unit, 'b', 'B') ==> c == 'B');
    }
}

/// The state of the CPUs of a node is those that are allocated, idle and other, between slashes; the
/// total is the one given, or their sum where that is zero.
#[verifier::rlimit(40)]
pub proof fn law_cpu_state(a: Seq<char>, i: Seq<char>, o: Seq<char>, rest: Seq<char>, total: u64)
    requires
        number_text(a),
        number_text(i),
        number_text(o),
        digits_value(a) + digits_value(i) + digits_value(o) <= u64::MAX,
        rest.len() > 0 ==> rest[0] == '/',
    ensures
        cpu_counts(a + "/"@ + i + "/"@ + o + rest, total).allocated == digits_value(a),
        cpu_counts(a + "/"@ + i + "/"@ + o + rest, total).idle == digits_value(i),
        cpu_counts(a + "/"@ + i + "/"@ + o + rest, total).other == digits_value(o),
        total > 0 ==> cpu_counts(a + "/"@ + i + "/"@ + o + rest, total).total == total,
        cpu_counts(a + "/"@ + i + "/"@ + o + rest, 0).total == digits_value(a) + digits_value(i) + digits_value(
            o,
        ),
{
    reveal_strlit("/");
    assert("/"@ =~= seq!['/']);
    lemma_number_text(a);
    lemma_number_text(i);
    lemma_number_text(o);
    let none: Seq<char> = seq![];
    let slash = CharClass::Exactly('/');
    let text = a + "/"@ + i + "/"@ + o + rest;
    let tail = i + "/"@ + (o + rest);
    law_cut_at_first(a, '/', tail, slash);
    assert(text =~= a + "/"@ + tail);
    law_cut_at_first(i, '/', o + rest, slash);
    if rest.len() > 0 {
        law_cut_at_first(o, '/', rest.drop_first(), slash);
        assert(o + rest =~= o + seq!['/'] + rest.drop_first());
    } else {
        law_cut_at_first(o, '/', none, slash);
        assert(o + rest =~= o);
    }
    let fields = split(text, slash);
    assert(fields[0] == a);
    assert(fields[1] == i);
    assert(fields[2] == o);
    law_leading_number(none, a, none, none);
    law_leading_number(none, i, none, none);
    law_leading_number(none, o, none, none);
    assert(none + a + none + none =~= a);
    assert(none + i + none + none =~= i);
    assert(none + o + none + none =~= o);
}

/// Memory is shown in whole MiB below one GiB, in tenths of GiB below one TiB, and in hundredths of TiB
/// from there on; what is shown is never more than there is, and less by less than its last digit.
pub proof fn law_memory_shown(mb: nat, whole: nat, part: nat)
    ensures
        mb < 1024 ==> human_memory(mb) == decimal(mb) + "M"@,
        1024 <= mb < 1_048_576 && part < 10 && (10 * whole + part) * 1024 <= 10 * mb < (10 * whole + part + 1)
            * 1024 ==> human_memory(mb) == decimal(whole) + "."@ + decimal(part) + "G"@,
        1_048_576 <= mb <= 0x28f_5c28_f5c2_8f5c && part < 100 && (100 * whole + part) * 1_048_576 <= 100 * mb < (
        100 * whole + part + 1) * 1_048_576 ==> human_memory(mb) == decimal(whole) + "."@ + zero_padded(
            decimal(part),
            2,
        ) + "T"@,
{
}

/// Bytes are shown as such below 1024, and else in tenths of the largest unit of which there is one;
/// what is shown is never more than there is, and less by less than its last digit.
pub proof fn law_bytes_shown(bytes: nat, whole: nat, tenth: nat, size: nat)
    requires
        tenth < 10,
        (10 * whole + tenth) * size <= 10 * bytes,
        10 * bytes < (10 * whole + tenth + 1) * size,
        10 * bytes <= u64::MAX,
    ensures
        bytes < 1024 ==> human_size(bytes) == decimal(bytes) + "B"@,
        0x400 <= bytes < 0x10_0000 && size == 0x400 ==> human_size(bytes) == decimal(whole) + "."@ + decimal(
            tenth,
        ) + "K"@,
        0x10_0000 <= bytes < 0x4000_0000 && size == 0x10_0000 ==> human_size(bytes) == decimal(whole) + "."@
            + decimal(tenth) + "M"@,
        0x4000_0000 <= bytes < 0x100_0000_0000 && size == 0x4000_0000 ==> human_size(bytes) == decimal(whole)
            + "."@ + decimal(tenth) + "G"@,
        0x100_0000_0000 <= bytes < 0x4_0000_0000_0000 && size == 0x100_0000_0000 ==> human_size(bytes)
            == decimal(whole) + "."@ + decimal(tenth) + "T"@,
        0x4_0000_0000_0000 <= bytes && size == 0x4_0000_0000_0000 ==> human_size(bytes) == decimal(whole)
            + "."@ + decimal(tenth) + "P"@,
{
    let q = 10 * whole + tenth;
    if size > 0 {
        assert(10 * bytes / size == q) by (nonlinear_arith)
            requires
                size > 0,
                q * size <= 10 * bytes < (q + 1) * size,
        ;
    }
    assert(q / 10 == whole && q % 10 == tenth);
}

} // verus!
