//! Decimal numbers: reading, writing and saturating arithmetic.

use vstd::prelude::*;
use vstd::slice::slice_subrange;
use crate::text::{is_digit, to_text};

verus! {

/// The value of one decimal digit.
pub open spec fn digit_value(c: char) -> nat {
    (c as u32 - '0' as u32) as nat
}

/// The character of one decimal digit.
pub open spec fn digit_char(d: nat) -> char {
    ((d + 48) as u8) as char
}

/// Whether `s` holds ASCII digits only.
pub open spec fn all_digits(s: Seq<char>) -> bool {
    forall|i: int| 0 <= i < s.len() ==> is_digit(#[trigger] s[i])
}

/// The number that a sequence of digits writes.
pub open spec fn digits_value(s: Seq<char>) -> nat
    decreases s.len(),
{
    if s.len() == 0 {
        0
    } else {
        10 * digits_value(s.drop_last()) + digit_value(s.last())
    }
}

/// `s` without one leading plus sign.
pub open spec fn unsigned_body(s: Seq<char>) -> Seq<char> {
    if s.len() > 0 && s[0] == '+' {
        s.drop_first()
    } else {
        s
    }
}

/// The number not above `max` that `s` writes: digits, at least one, after an optional plus sign.
pub open spec fn parse_max(s: Seq<char>, max: nat) -> Option<nat> {
    let body = unsigned_body(s);
    if body.len() > 0 && all_digits(body) && digits_value(body) <= max {
        Some(digits_value(body))
    } else {
        None
    }
}

/// The 64-bit number that `s` writes.
pub open spec fn parse_64(s: Seq<char>) -> Option<nat> {
    parse_max(s, u64::MAX as nat)
}

/// The 64-bit number that `s` writes, or zero.
pub open spec fn parse_64_or_zero(s: Seq<char>) -> nat {
    match parse_64(s) {
        Some(n) => n,
        None => 0,
    }
}

/// The 128-bit number that `s` writes, or zero.
pub open spec fn parse_128_or_zero(s: Seq<char>) -> nat {
    match parse_max(s, u128::MAX as nat) {
        Some(n) => n,
        None => 0,
    }
}

/// `n` in decimal, without leading zeros.
pub open spec fn decimal(n: nat) -> Seq<char>
    decreases n,
{
    if n < 10 {
        seq![digit_char(n)]
    } else {
        decimal(n / 10).push(digit_char(n % 10))
    }
}

/// `s` with zeros put in front until it has `width` characters.
pub open spec fn zero_padded(s: Seq<char>, width: nat) -> Seq<char> {
    if s.len() >= width {
        s
    } else {
        Seq::new((width - s.len()) as nat, |i: int| '0') + s
    }
}

/// Ten to the power `e`.
pub open spec fn ten_to(e: nat) -> nat
    decreases e,
{
    if e == 0 {
        1
    } else {
        10 * ten_to((e - 1) as nat)
    }
}

/// The smaller of `n` and `max`.
pub open spec fn at_most(n: nat, max: nat) -> nat {
    if n <= max {
        n
    } else {
        max
    }
}

/// A text that begins with digits writes a number at least as large as they do.
proof fn lemma_digits_value_grows(s: Seq<char>, k: int)
    requires
        0 <= k <= s.len(),
    ensures
        digits_value(s.take(k)) <= digits_value(s),
    decreases s.len() - k,
{
    if k < s.len() {
        lemma_digits_value_grows(s, k + 1);
        assert(s.take(k + 1).drop_last() =~= s.take(k));
    } else {
        assert(s.take(k) =~= s);
    }
}

/// What `decimal` writes is digits, and they write the number back.
pub proof fn lemma_decimal_round_trip(n: nat)
    ensures
        decimal(n).len() > 0,
        all_digits(decimal(n)),
        digits_value(decimal(n)) == n,
    decreases n,
{
    reveal_with_fuel(digits_value, 2);
    if n < 10 {
        assert(decimal(n).drop_last() =~= Seq::<char>::empty());
    } else {
        lemma_decimal_round_trip(n / 10);
        assert(decimal(n).drop_last() =~= decimal(n / 10));
    }
}

/// Reading back a number that was written gives the number.
pub proof fn law_decimal_reads_back(n: nat, max: nat)
    requires
        n <= max,
    ensures
        parse_max(decimal(n), max) == Some(n),
{
    lemma_decimal_round_trip(n);
    assert(is_digit(decimal(n)[0]));
}

/// The number not above `max` that the text writes.
pub fn read_max(s: &[char], max: u128) -> (r: Option<u128>)
    ensures
        match r {
            Some(n) => parse_max(s@, max as nat) == Some(n as nat),
            None => parse_max(s@, max as nat) is None,
        },
{
    let mut body: &[char] = s;
    if s.len() > 0 && s[0] == '+' {
        body = slice_subrange(s, 1, s.len());
    }
    assert(body@ =~= unsigned_body(s@));
    if body.len() == 0 {
        return None;
    }
    let mut value: u128 = 0;
    let mut i: usize = 0;
    assert(body@.take(0) =~= Seq::<char>::empty());
    while i < body.len()
        invariant
            i <= body@.len(),
            body@ == unsigned_body(s@),
            forall|j: int| 0 <= j < i ==> is_digit(#[trigger] body@[j]),
            value == digits_value(body@.take(i as int)),
            value <= max,
        decreases body@.len() - i,
    {
        let c = body[i];
        if !('0' <= c && c <= '9') {
            return None;
        }
        let d: u128 = (c as u32 - 48) as u128;
        let ghost next = body@.take(i + 1);
        proof {
            assert(next.drop_last() =~= body@.take(i as int));
            assert(digits_value(next) == 10 * value + d);
            lemma_digits_value_grows(body@, i + 1);
        }
        match value.checked_mul(10) {
            Some(tens) => match tens.checked_add(d) {
                Some(n) => {
                    if n > max {
                        return None;
                    }
                    value = n;
                },
                None => {
                    return None;
                },
            },
            None => {
                return None;
            },
        }
        i += 1;
    }
    assert(body@.take(i as int) =~= body@);
    Some(value)
}

/// The 64-bit number that the text writes.
pub fn read_64(s: &[char]) -> (r: Option<u64>)
    ensures
        match r {
            Some(n) => parse_64(s@) == Some(n as nat),
            None => parse_64(s@) is None,
        },
{
    match read_max(s, u64::MAX as u128) {
        Some(n) => Some(n as u64),
        None => None,
    }
}

/// The 64-bit number that the text writes, or zero.
pub fn read_64_or_zero(s: &[char]) -> (r: u64)
    ensures
        r == parse_64_or_zero(s@),
{
    match read_64(s) {
        Some(n) => n,
        None => 0,
    }
}

/// The 128-bit number that the text writes, or zero.
pub fn read_128_or_zero(s: &[char]) -> (r: u128)
    ensures
        r == parse_128_or_zero(s@),
{
    match read_max(s, u128::MAX) {
        Some(n) => n,
        None => 0,
    }
}

/// The number in decimal.
pub fn decimal_chars(n: u128) -> (r: Vec<char>)
    ensures
        r@ == decimal(n as nat),
    decreases n,
{
    if n < 10 {
        let mut out: Vec<char> = Vec::new();
        out.push(((n as u8) + 48) as char);
        assert(out@ =~= decimal(n as nat));
        out
    } else {
        let mut out = decimal_chars(n / 10);
        out.push((((n % 10) as u8) + 48) as char);
        out
    }
}

/// The number in decimal, as a string.
pub fn show(n: u64) -> (r: String)
    ensures
        r@ == decimal(n as nat),
{
    let chars = decimal_chars(n as u128);
    to_text(chars.as_slice())
}

/// The number in decimal, with zeros in front up to `width` characters.
pub fn show_padded(n: u64, width: usize) -> (r: String)
    ensures
        r@ == zero_padded(decimal(n as nat), width as nat),
{
    let chars = decimal_chars(n as u128);
    let mut out: Vec<char> = Vec::new();
    let mut i: usize = chars.len();
    while i < width
        invariant
            chars@.len() <= i,
            chars@.len() < width ==> i <= width,
            chars@.len() >= width ==> i == chars@.len(),
            out@.len() == i - chars@.len(),
            forall|j: int| 0 <= j < out@.len() ==> out@[j] == '0',
        decreases width - i,
    {
        out.push('0');
        i += 1;
    }
    let mut k: usize = 0;
    let ghost zeros = out@;
    while k < chars.len()
        invariant
            k <= chars@.len(),
            out@ == zeros + chars@.take(k as int),
        decreases chars@.len() - k,
    {
        out.push(chars[k]);
        k += 1;
        assert(out@ =~= zeros + chars@.take(k as int));
    }
    assert(out@ =~= zero_padded(decimal(n as nat), width as nat));
    to_text(out.as_slice())
}

/// The product, or the largest 64-bit number where it would be larger.
pub fn times(a: u64, b: u64) -> (r: u64)
    ensures
        r == at_most(a as nat * b as nat, u64::MAX as nat),
{
    match a.checked_mul(b) {
        Some(n) => n,
        None => u64::MAX,
    }
}

/// The product, or the largest 128-bit number where it would be larger.
pub fn times_128(a: u128, b: u128) -> (r: u128)
    ensures
        r == at_most(a as nat * b as nat, u128::MAX as nat),
{
    match a.checked_mul(b) {
        Some(n) => n,
        None => u128::MAX,
    }
}

/// Ten to the power `e`, or the largest 64-bit number where it would be larger.
pub fn power_of_ten(e: u32) -> (r: u64)
    ensures
        r == at_most(ten_to(e as nat), u64::MAX as nat),
        r >= 1,
{
    let mut value: u64 = 1;
    let mut i: u32 = 0;
    while i < e
        invariant
            i <= e,
            value == at_most(ten_to(i as nat), u64::MAX as nat),
            value >= 1,
        decreases e - i,
    {
        value = times(value, 10);
        i += 1;
    }
    value
}

/// Ten to the power `e`, or the largest 128-bit number where it would be larger.
pub fn power_of_ten_128(e: u32) -> (r: u128)
    ensures
        r == at_most(ten_to(e as nat), u128::MAX as nat),
        r >= 1,
{
    let mut value: u128 = 1;
    let mut i: u32 = 0;
    while i < e
        invariant
            i <= e,
            value == at_most(ten_to(i as nat), u128::MAX as nat),
            value >= 1,
        decreases e - i,
    {
        value = times_128(value, 10);
        i += 1;
    }
    value
}

} // verus!
