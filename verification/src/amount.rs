//! Amounts of memory and disk space, CPU counts and other numbers in Slurm's output.

use vstd::prelude::*;

use crate::number::at_most;
use crate::number::parse_64;
use crate::number::parse_64_or_zero;
use crate::number::power_of_ten;
use crate::number::read_64;
use crate::number::read_64_or_zero;
use crate::number::ten_to;
use crate::number::times;
use crate::text::ascii_lower;
use crate::text::char_upper;
use crate::text::class_holds;
use crate::text::count_lead;
use crate::text::cut_once;
use crate::text::find_class;
use crate::text::first_in;
use crate::text::is_digit;
use crate::text::is_text;
use crate::text::lead;
use crate::text::lower;
use crate::text::raise;
use crate::text::split;
use crate::text::split_chars;
use crate::text::split_once;
use crate::text::strip;
use crate::text::texts;
use crate::text::to_chars;
use crate::text::trim;
use crate::text::CharClass;
use crate::units::CpuCounts;
use crate::units::MemoryMb;
use vstd::slice::slice_subrange;

verus! {

/// The number that the leading digits of a text write, after white space, or zero.
pub open spec fn leading_number(value: Seq<char>) -> nat {
    parse_64_or_zero(lead(trim(value), CharClass::Digit))
}

/// The number that the leading digits of a text write, after white space, or zero.
#[must_use]
pub fn parse_u64(value: &str) -> (r: u64)
    ensures
        r == leading_number(value@),
{
    let chars = to_chars(value);
    read_leading(chars.as_slice())
}

/// The number that the leading digits of a text write, after white space, or zero.
pub fn read_leading(value: &[char]) -> (r: u64)
    ensures
        r == leading_number(value@),
{
    let trimmed = strip(value);
    let n: usize = count_lead(trimmed, CharClass::Digit);
    assert(trimmed@.subrange(0, n as int) =~= trimmed@.take(n as int));
    read_64_or_zero(slice_subrange(trimmed, 0, n))
}

/// The digits and points in front of the first letter.
pub open spec fn amount_digits(value: Seq<char>) -> Seq<char> {
    value.take(first_in(value, CharClass::Letter)).filter(|c: char| is_digit(c) || c == '.')
}

/// The first letter, in upper case.
pub open spec fn amount_unit(value: Seq<char>) -> Option<char> {
    let k = first_in(value, CharClass::Letter);
    if 0 <= k < value.len() {
        Some(char_upper(value[k]))
    } else {
        None
    }
}

/// The digits and points in front of the first letter, and that letter in upper case.
pub fn scan_amount(value: &[char]) -> (r: (Vec<char>, Option<char>))
    ensures
        r.0@ == amount_digits(value@),
        r.1 == amount_unit(value@),
{
    let k: usize = find_class(value, CharClass::Letter);
    let mut number: Vec<char> = Vec::new();
    let ghost keep = |c: char| is_digit(c) || c == '.';
    let mut i: usize = 0;
    assert(number@ =~= value@.take(0).filter(keep));
    while i < k
        invariant
            i <= k <= value@.len(),
            keep == (|c: char| is_digit(c) || c == '.'),
            number@ == value@.take(i as int).filter(keep),
        decreases k - i,
    {
        proof {
            assert(value@.take(i + 1).drop_last() =~= value@.take(i as int));
            reveal(Seq::filter);
        }
        let c = value[i];
        if class_holds(CharClass::Digit, c) || c == '.' {
            number.push(c);
        }
        i += 1;
    }
    let unit = if k < value.len() {
        Some(raise(value[k]))
    } else {
        None
    };
    (number, unit)
}

/// The product, or the largest 64-bit number where it would be larger.
pub open spec fn sat_mul(a: nat, b: nat) -> nat {
    at_most(a * b, u64::MAX as nat)
}

/// The sum, or the largest 64-bit number where it would be larger.
pub open spec fn sat_add(a: nat, b: nat) -> nat {
    at_most(a + b, u64::MAX as nat)
}

/// Ten to the power of a length, or the largest 64-bit number where it would be larger; one where
/// the length does not fit 32 bits.
pub open spec fn scale_of(len: nat) -> nat {
    if len <= u32::MAX {
        at_most(ten_to(len), u64::MAX as nat)
    } else {
        1
    }
}

/// Ten to the power of a length.
fn read_scale(len: usize) -> (r: u64)
    ensures
        r == scale_of(len as nat),
        r >= 1,
{
    if len <= u32::MAX as usize {
        power_of_ten(len as u32)
    } else {
        1
    }
}

/// The whole part, the fraction and the scale of the fraction. Points after the first are passed
/// over.
pub open spec fn memory_parts(number: Seq<char>) -> (nat, nat, nat) {
    match split_once(number, CharClass::Exactly('.')) {
        None => (parse_64_or_zero(number), 0, 1),
        Some((whole, rest)) => {
            let digits = rest.filter(|c: char| is_digit(c));
            if digits.len() == 0 {
                (parse_64_or_zero(whole), 0, 1)
            } else {
                (parse_64_or_zero(whole), parse_64_or_zero(digits), scale_of(digits.len()))
            }
        },
    }
}

/// The digits of a text.
pub fn digits_of(s: &[char]) -> (r: Vec<char>)
    ensures
        r@ == s@.filter(|c: char| is_digit(c)),
{
    let mut out: Vec<char> = Vec::new();
    let ghost keep = |c: char| is_digit(c);
    let mut i: usize = 0;
    assert(out@ =~= s@.take(0).filter(keep));
    while i < s.len()
        invariant
            i <= s@.len(),
            keep == (|c: char| is_digit(c)),
            out@ == s@.take(i as int).filter(keep),
        decreases s@.len() - i,
    {
        proof {
            assert(s@.take(i + 1).drop_last() =~= s@.take(i as int));
            reveal(Seq::filter);
        }
        if class_holds(CharClass::Digit, s[i]) {
            out.push(s[i]);
        }
        i += 1;
    }
    assert(s@.take(i as int) =~= s@);
    out
}

/// The whole part, the fraction and the scale of the fraction.
fn parse_decimal_parts(number: &[char]) -> (r: (u64, u64, u64))
    ensures
        memory_parts(number@) == (r.0 as nat, r.1 as nat, r.2 as nat),
        r.2 >= 1,
{
    match cut_once(number, CharClass::Exactly('.')) {
        None => (read_64_or_zero(number), 0, 1),
        Some((whole, rest)) => {
            let digits = digits_of(rest);
            if digits.len() == 0 {
                (read_64_or_zero(whole), 0, 1)
            } else {
                (
                    read_64_or_zero(whole),
                    read_64_or_zero(digits.as_slice()),
                    read_scale(digits.len()),
                )
            }
        },
    }
}

/// The MiB that a number of a unit says: KiB, MiB, GiB or TiB, and MiB for any other unit. A
/// fraction of a KiB or MiB counts for nothing.
pub open spec fn memory_of(number: Seq<char>, unit: char) -> nat {
    let (whole, fraction, scale) = memory_parts(number);
    if unit == 'K' {
        whole / 1024
    } else if unit == 'G' {
        sat_add(sat_mul(whole, 1024), sat_mul(fraction, 1024) / scale)
    } else if unit == 'T' {
        sat_add(sat_mul(whole, 1024 * 1024), sat_mul(fraction, 1024 * 1024) / scale)
    } else {
        sat_add(whole, fraction / scale)
    }
}

/// The MiB that a number of a unit says.
fn decimal_memory_to_mb(number: &[char], unit: char) -> (r: u64)
    ensures
        r == memory_of(number@, unit),
{
    let (whole, fraction, scale): (u64, u64, u64) = parse_decimal_parts(number);
    if unit == 'K' {
        whole / 1024
    } else if unit == 'G' {
        times(whole, 1024).saturating_add(times(fraction, 1024) / scale)
    } else if unit == 'T' {
        times(whole, 1024 * 1024).saturating_add(times(fraction, 1024 * 1024) / scale)
    } else {
        whole.saturating_add(fraction / scale)
    }
}

/// The MiB that an amount of memory says: nothing where it is unknown; MiB where it names no unit.
pub open spec fn memory_said(value: Seq<char>) -> nat {
    let v = trim(value);
    let l = ascii_lower(v);
    if v.len() == 0 || l == "n/a"@ || l == "(null)"@ || l == "unknown"@ {
        0
    } else {
        memory_of(
            amount_digits(v),
            match amount_unit(v) {
                Some(u) => u,
                None => 'M',
            },
        )
    }
}

/// The MiB that an amount of memory says.
#[must_use]
pub fn parse_memory_mb(value: &str) -> (r: MemoryMb)
    ensures
        r.0 == memory_said(value@),
{
    let chars = to_chars(value);
    read_memory(chars.as_slice())
}

/// The MiB that an amount of memory says.
pub fn read_memory(value: &[char]) -> (r: MemoryMb)
    ensures
        r.0 == memory_said(value@),
{
    let v = strip(value);
    let l = lower(v);
    let l = l.as_slice();
    if v.len() == 0 || is_text(l, "n/a") || is_text(l, "(null)") || is_text(l, "unknown") {
        return MemoryMb::zero();
    }
    let (number, unit) = scan_amount(v);
    let unit = match unit {
        Some(u) => u,
        None => 'M',
    };
    MemoryMb(decimal_memory_to_mb(number.as_slice(), unit))
}

/// The size of a unit of disk space in bytes.
pub open spec fn quota_unit(unit: Option<char>) -> nat {
    match unit {
        Some('K') => 0x400,
        Some('M') => 0x10_0000,
        Some('G') => 0x4000_0000,
        Some('T') => 0x100_0000_0000,
        Some('P') => 0x4_0000_0000_0000,
        _ => 1,
    }
}

/// The whole part, the fraction and the scale of the fraction. A fraction with a second point
/// counts as zero.
pub open spec fn quota_parts(number: Seq<char>) -> (nat, nat, nat) {
    match split_once(number, CharClass::Exactly('.')) {
        None => (parse_64_or_zero(number), 0, 1),
        Some((whole, rest)) => (
            parse_64_or_zero(whole),
            parse_64_or_zero(rest),
            scale_of(rest.len()),
        ),
    }
}

/// The whole part, the fraction and the scale of the fraction.
fn decimal_parts_u64(number: &[char]) -> (r: (u64, u64, u64))
    ensures
        quota_parts(number@) == (r.0 as nat, r.1 as nat, r.2 as nat),
        r.2 >= 1,
{
    match cut_once(number, CharClass::Exactly('.')) {
        None => (read_64_or_zero(number), 0, 1),
        Some((whole, rest)) => (
            read_64_or_zero(whole),
            read_64_or_zero(rest),
            read_scale(rest.len()),
        ),
    }
}

/// The bytes that an amount of disk space says, where it has a digit or a point in front of its
/// first letter.
pub open spec fn quota_bytes(value: Seq<char>) -> Option<nat> {
    let v = trim(value);
    let number = amount_digits(v);
    if number.len() == 0 {
        None
    } else {
        let (whole, fraction, scale) = quota_parts(number);
        let unit = quota_unit(amount_unit(v));
        Some(sat_add(sat_mul(whole, unit), sat_mul(fraction, unit) / scale))
    }
}

/// The bytes that an amount of disk space says.
pub fn quota_size_to_bytes(value: &[char]) -> (r: Option<u64>)
    ensures
        match r {
            Some(n) => quota_bytes(value@) == Some(n as nat),
            None => quota_bytes(value@) is None,
        },
{
    let (number, unit) = scan_amount(strip(value));
    if number.len() == 0 {
        return None;
    }
    let (whole, fraction, scale): (u64, u64, u64) = decimal_parts_u64(number.as_slice());
    let size: u64 = match unit {
        Some('K') => 0x400,
        Some('M') => 0x10_0000,
        Some('G') => 0x4000_0000,
        Some('T') => 0x100_0000_0000,
        Some('P') => 0x4_0000_0000_0000,
        _ => 1,
    };
    Some(times(whole, size).saturating_add(times(fraction, size) / scale))
}

/// The number that the leading digits of a count write, where there are any and it fits.
pub open spec fn quota_count(value: Seq<char>) -> Option<nat> {
    let digits = lead(value, CharClass::Digit);
    if digits.len() == 0 {
        None
    } else {
        parse_64(digits)
    }
}

/// The number that the leading digits of a count write.
pub fn parse_quota_count(value: &[char]) -> (r: Option<u64>)
    ensures
        match r {
            Some(n) => quota_count(value@) == Some(n as nat),
            None => quota_count(value@) is None,
        },
{
    let n: usize = count_lead(value, CharClass::Digit);
    assert(value@.subrange(0, n as int) =~= value@.take(n as int));
    if n == 0 {
        return None;
    }
    read_64(slice_subrange(value, 0, n))
}

/// The fields of a CPU state, as numbers; those that are missing are zero.
pub open spec fn cpu_field(value: Seq<char>, i: int) -> nat {
    let fields = split(value, CharClass::Exactly('/'));
    if i < fields.len() {
        leading_number(fields[i])
    } else {
        0
    }
}

/// The CPU counts that a state of the form `allocated/idle/other` and a total say; where the total
/// is zero, it is the sum of the three.
pub open spec fn cpu_counts(value: Seq<char>, total: u64) -> CpuCounts {
    let (allocated, idle, other) = (cpu_field(value, 0), cpu_field(value, 1), cpu_field(value, 2));
    CpuCounts {
        total: if total == 0 {
            (allocated + idle + other) as u64
        } else {
            total
        },
        allocated: allocated as u64,
        idle: idle as u64,
        other: other as u64,
    }
}

/// Whether the total of a CPU state fits.
pub open spec fn cpu_state_fits(value: Seq<char>, total: u64) -> bool {
    total == 0 ==> cpu_field(value, 0) + cpu_field(value, 1) + cpu_field(value, 2) <= u64::MAX
}

/// The three fields of a CPU state.
fn read_cpu_fields(value: &[char]) -> (r: (u64, u64, u64))
    ensures
        r.0 == cpu_field(value@, 0),
        r.1 == cpu_field(value@, 1),
        r.2 == cpu_field(value@, 2),
{
    let fields = split_chars(value, CharClass::Exactly('/'));
    let ghost shown = texts(fields@);
    assert(shown.len() == fields@.len());
    assert(shown[0] == fields@[0]@);
    let allocated: u64 = read_leading(fields[0].as_slice());
    let mut idle: u64 = 0;
    let mut other: u64 = 0;
    if fields.len() > 1 {
        assert(shown[1] == fields@[1]@);
        idle = read_leading(fields[1].as_slice());
    }
    if fields.len() > 2 {
        assert(shown[2] == fields@[2]@);
        other = read_leading(fields[2].as_slice());
    }
    (allocated, idle, other)
}

/// The CPU counts that a state and a total say, where they fit.
pub fn checked_cpu_state(value: &[char], total: u64) -> (r: Option<CpuCounts>)
    ensures
        match r {
            Some(counts) => cpu_state_fits(value@, total) && counts == cpu_counts(value@, total),
            None => !cpu_state_fits(value@, total),
        },
{
    let (allocated, idle, other): (u64, u64, u64) = read_cpu_fields(value);
    let mut sum: u64 = total;
    if total == 0 {
        let three: u128 = allocated as u128 + idle as u128 + other as u128;
        if three > u64::MAX as u128 {
            return None;
        }
        sum = three as u64;
    }
    Some(CpuCounts { total: sum, allocated, idle, other })
}

/// The CPU counts that a state and a total say.
#[must_use]
pub fn parse_cpu_state(value: &str, total: u64) -> (r: CpuCounts)
    requires
        cpu_state_fits(value@, total),
    ensures
        r == cpu_counts(value@, total),
{
    let chars = to_chars(value);
    match checked_cpu_state(chars.as_slice(), total) {
        Some(counts) => counts,
        None => CpuCounts::default(),
    }
}

} // verus!
