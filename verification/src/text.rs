//! Text as sequences of characters: classification, trimming, splitting and searching.

use vstd::prelude::*;
use vstd::slice::slice_subrange;
use vstd::slice::slice_to_vec;

verus! {

/// `String::push`: the character is appended, the rest stays as it was.
pub assume_specification[ String::push ](s: &mut String, ch: char)
    ensures
        final(s)@ == old(s)@.push(ch),
;

/// What `str::to_lowercase` makes of a text that holds a character outside ASCII.
pub uninterp spec fn unicode_lower(s: Seq<char>) -> Seq<char>;

/// `str::to_lowercase`: ASCII text has its letters in lower case; of other text the result is
/// named, and depends on the text alone. Each character has one or more in lower case, so text
/// that is not empty stays so.
pub assume_specification[ str::to_lowercase ](s: &str) -> (r: String)
    ensures
        all_ascii(s@) ==> r@ == ascii_lower(s@),
        !all_ascii(s@) ==> r@ == unicode_lower(s@),
        s@.len() > 0 ==> r@.len() > 0,
;

/// `s` in lower case.
pub open spec fn lowercase(s: Seq<char>) -> Seq<char> {
    if all_ascii(s) {
        ascii_lower(s)
    } else {
        unicode_lower(s)
    }
}

/// The characters that splitting and trimming tell apart.
#[derive(Debug, Clone, Copy)]
pub enum CharClass {
    /// One given character.
    Exactly(char),
    /// White space, as Unicode's `White_Space` property lists it.
    Space,
    /// An ASCII decimal digit.
    Digit,
    /// Anything but an ASCII decimal digit.
    NotDigit,
    /// An ASCII letter.
    Letter,
}

/// Whether `c` is an ASCII decimal digit.
pub open spec fn is_digit(c: char) -> bool {
    '0' <= c <= '9'
}

/// Whether `c` is an ASCII letter.
pub open spec fn is_letter(c: char) -> bool {
    'a' <= c <= 'z' || 'A' <= c <= 'Z'
}

/// Whether `c` has Unicode's `White_Space` property.
pub open spec fn is_space(c: char) -> bool {
    let n = c as u32;
    ||| 0x09 <= n <= 0x0d
    ||| n == 0x20
    ||| n == 0x85
    ||| n == 0xa0
    ||| n == 0x1680
    ||| 0x2000 <= n <= 0x200a
    ||| n == 0x2028
    ||| n == 0x2029
    ||| n == 0x202f
    ||| n == 0x205f
    ||| n == 0x3000
}

/// Whether `c` belongs to `class`.
pub open spec fn in_class(class: CharClass, c: char) -> bool {
    match class {
        CharClass::Exactly(d) => c == d,
        CharClass::Space => is_space(c),
        CharClass::Digit => is_digit(c),
        CharClass::NotDigit => !is_digit(c),
        CharClass::Letter => is_letter(c),
    }
}

/// The contents of a list of character vectors.
pub open spec fn texts(v: Seq<Vec<char>>) -> Seq<Seq<char>> {
    Seq::new(v.len(), |i: int| v[i]@)
}

/// The contents of a list of strings.
pub open spec fn strings(v: Seq<String>) -> Seq<Seq<char>> {
    Seq::new(v.len(), |i: int| v[i]@)
}

/// How many characters at the front of `s` belong to `class`.
pub open spec fn lead_len(s: Seq<char>, class: CharClass) -> int
    decreases s.len(),
{
    if s.len() > 0 && in_class(class, s[0]) {
        1 + lead_len(s.drop_first(), class)
    } else {
        0
    }
}

/// How many characters at the back of `s` belong to `class`.
pub open spec fn tail_len(s: Seq<char>, class: CharClass) -> int
    decreases s.len(),
{
    if s.len() > 0 && in_class(class, s.last()) {
        1 + tail_len(s.drop_last(), class)
    } else {
        0
    }
}

/// The longest prefix of `s` whose characters all belong to `class`.
pub open spec fn lead(s: Seq<char>, class: CharClass) -> Seq<char> {
    s.take(lead_len(s, class))
}

/// `s` without its leading characters of `class`.
pub open spec fn trim_start(s: Seq<char>, class: CharClass) -> Seq<char> {
    s.skip(lead_len(s, class))
}

/// `s` without its trailing characters of `class`.
pub open spec fn trim_end(s: Seq<char>, class: CharClass) -> Seq<char> {
    s.take(s.len() - tail_len(s, class))
}

/// `s` without its leading and trailing characters of `class`.
pub open spec fn trim_both(s: Seq<char>, class: CharClass) -> Seq<char> {
    trim_end(trim_start(s, class), class)
}

/// `s` without surrounding white space.
pub open spec fn trim(s: Seq<char>) -> Seq<char> {
    trim_both(s, CharClass::Space)
}

/// The index of the first character of `s` in `class`, or the length of `s`.
pub open spec fn first_in(s: Seq<char>, class: CharClass) -> int
    decreases s.len(),
{
    if s.len() == 0 || in_class(class, s[0]) {
        0
    } else {
        1 + first_in(s.drop_first(), class)
    }
}

/// The pieces of `s` between characters of `class`; there is always at least one.
pub open spec fn split(s: Seq<char>, class: CharClass) -> Seq<Seq<char>>
    decreases s.len(),
{
    let k = first_in(s, class);
    if 0 <= k < s.len() {
        seq![s.take(k)] + split(s.skip(k + 1), class)
    } else {
        seq![s]
    }
}

/// The nonempty pieces of `s` between characters of `class`.
pub open spec fn pieces(s: Seq<char>, class: CharClass) -> Seq<Seq<char>> {
    split(s, class).filter(|p: Seq<char>| p.len() > 0)
}

/// The maximal runs of characters that are not white space.
pub open spec fn words(s: Seq<char>) -> Seq<Seq<char>> {
    pieces(s, CharClass::Space)
}

/// `s` cut at its first character of `class`, which belongs to neither part.
pub open spec fn split_once(s: Seq<char>, class: CharClass) -> Option<(Seq<char>, Seq<char>)> {
    let k = first_in(s, class);
    if 0 <= k < s.len() {
        Some((s.take(k), s.skip(k + 1)))
    } else {
        None
    }
}

/// `s` without a final carriage return.
pub open spec fn strip_cr(s: Seq<char>) -> Seq<char> {
    if s.len() > 0 && s.last() == '\r' {
        s.drop_last()
    } else {
        s
    }
}

/// The lines of `s`: each ends in `\n` or `\r\n`, which is not part of it; the last may end in
/// neither, and is left out where it is empty.
pub open spec fn lines(s: Seq<char>) -> Seq<Seq<char>>
    decreases s.len(),
{
    let k = first_in(s, CharClass::Exactly('\n'));
    if s.len() == 0 {
        seq![]
    } else if 0 <= k < s.len() {
        seq![strip_cr(s.take(k))] + lines(s.skip(k + 1))
    } else {
        seq![s]
    }
}

/// The parts one after the other, with `sep` between neighbours.
pub open spec fn join(parts: Seq<Seq<char>>, sep: Seq<char>) -> Seq<char>
    decreases parts.len(),
{
    if parts.len() == 0 {
        seq![]
    } else if parts.len() == 1 {
        parts[0]
    } else {
        join(parts.drop_last(), sep) + sep + parts.last()
    }
}

/// Whether `s` begins with `prefix`.
pub open spec fn starts_with(s: Seq<char>, prefix: Seq<char>) -> bool {
    prefix.len() <= s.len() && s.take(prefix.len() as int) == prefix
}

/// Whether `needle` stands in `s` at index `i`.
pub open spec fn occurs_at(s: Seq<char>, needle: Seq<char>, i: int) -> bool {
    0 <= i <= s.len() - needle.len() && s.subrange(i, i + needle.len()) == needle
}

/// Whether `needle` stands somewhere in `s`.
pub open spec fn contains(s: Seq<char>, needle: Seq<char>) -> bool {
    exists|i: int| occurs_at(s, needle, i)
}

/// `c` in lower case, where it is an ASCII letter.
pub open spec fn char_lower(c: char) -> char {
    if 'A' <= c <= 'Z' {
        ((c as u32 + 32) as u8) as char
    } else {
        c
    }
}

/// `c` in upper case, where it is an ASCII letter.
pub open spec fn char_upper(c: char) -> char {
    if 'a' <= c <= 'z' {
        ((c as u32 - 32) as u8) as char
    } else {
        c
    }
}

/// `s` with its ASCII letters in lower case.
pub open spec fn ascii_lower(s: Seq<char>) -> Seq<char> {
    Seq::new(s.len(), |i: int| char_lower(s[i]))
}

/// `s` with its ASCII letters in upper case.
pub open spec fn ascii_upper(s: Seq<char>) -> Seq<char> {
    Seq::new(s.len(), |i: int| char_upper(s[i]))
}

/// Whether every character of `s` is an ASCII character.
pub open spec fn all_ascii(s: Seq<char>) -> bool {
    forall|i: int| 0 <= i < s.len() ==> (#[trigger] s[i]) as u32 <= 127
}

/// Whether `a` and `b` differ in the case of ASCII letters only.
pub open spec fn same_ignoring_case(a: Seq<char>, b: Seq<char>) -> bool {
    ascii_lower(a) == ascii_lower(b)
}

/// Whether every character of `s` is white space.
pub open spec fn blank(s: Seq<char>) -> bool {
    forall|i: int| 0 <= i < s.len() ==> is_space(#[trigger] s[i])
}

/// The pieces of `s` are made of its characters, and are all empty where all of those belong to
/// `class`.
proof fn lemma_split_pieces(s: Seq<char>, class: CharClass)
    ensures
        all_ascii(s) ==> forall|i: int|
            0 <= i < split(s, class).len() ==> all_ascii(#[trigger] split(s, class)[i]),
        (forall|i: int| 0 <= i < s.len() ==> in_class(class, #[trigger] s[i])) <==> (forall|i: int|
            0 <= i < split(s, class).len() ==> (#[trigger] split(s, class)[i]).len() == 0),
    decreases s.len(),
{
    let k = first_in(s, class);
    lemma_lead_tail_bounds(s, class);
    lemma_first_in(s, class);
    let all = split(s, class);
    if k < s.len() {
        let head = s.take(k);
        let rest = s.skip(k + 1);
        lemma_split_pieces(rest, class);
        let later = split(rest, class);
        assert(all == seq![head] + later);
        assert(all[0] == head);
        assert forall|i: int| 0 <= i < later.len() implies all[i + 1] == #[trigger] later[i] by {}
        if all_ascii(s) {
            assert forall|i: int| 0 <= i < all.len() implies all_ascii(#[trigger] all[i]) by {
                if i > 0 {
                    assert(all[i] == later[i - 1]);
                }
            }
        }
        if forall|i: int| 0 <= i < s.len() ==> in_class(class, #[trigger] s[i]) {
            assert forall|i: int| 0 <= i < all.len() implies (#[trigger] all[i]).len() == 0 by {
                if k > 0 {
                    assert(in_class(class, s[0]));
                }
                if i > 0 {
                    assert(all[i] == later[i - 1]);
                }
            }
        }
        if forall|i: int| 0 <= i < all.len() ==> (#[trigger] all[i]).len() == 0 {
            assert(all[0].len() == 0);
            assert forall|i: int| 0 <= i < later.len() implies (#[trigger] later[i]).len() == 0 by {
                assert(all[i + 1] == later[i]);
            }
            assert forall|i: int| 0 <= i < s.len() implies in_class(class, #[trigger] s[i]) by {
                if i > 0 {
                    assert(rest[i - 1] == s[i]);
                }
            }
        }
    } else {
        assert(all[0] == s);
        if s.len() > 0 {
            assert(!in_class(class, s[0]));
        }
    }
}

/// No character in front of the first one in `class` belongs to it.
proof fn lemma_first_in(s: Seq<char>, class: CharClass)
    ensures
        forall|i: int| 0 <= i < first_in(s, class) ==> !in_class(class, #[trigger] s[i]),
        0 <= first_in(s, class) <= s.len(),
        first_in(s, class) < s.len() ==> in_class(class, s[first_in(s, class)]),
    decreases s.len(),
{
    if s.len() > 0 && !in_class(class, s[0]) {
        let rest = s.drop_first();
        lemma_first_in(rest, class);
        assert forall|i: int| 0 <= i < first_in(s, class) implies !in_class(class, #[trigger] s[i]) by {
            if i > 0 {
                assert(rest[i - 1] == s[i]);
            }
        }
    }
}

/// Words are not empty and are made of the characters of the text; only a blank text has none.
pub proof fn lemma_words(s: Seq<char>)
    ensures
        forall|i: int| 0 <= i < words(s).len() ==> (#[trigger] words(s)[i]).len() > 0,
        all_ascii(s) ==> forall|i: int| 0 <= i < words(s).len() ==> all_ascii(#[trigger] words(s)[i]),
        words(s).len() == 0 <==> blank(s),
{
    broadcast use vstd::seq_lib::group_filter_ensures;

    let all = split(s, CharClass::Space);
    let full = |p: Seq<char>| p.len() > 0;
    lemma_split_pieces(s, CharClass::Space);
    assert(words(s) == all.filter(full));
    assert forall|i: int| 0 <= i < words(s).len() implies all.contains(#[trigger] words(s)[i]) by {
        assert(all.filter(full).contains(words(s)[i]));
        all.lemma_filter_contains_rev(full, words(s)[i]);
    }
    assert forall|i: int| 0 <= i < words(s).len() implies (#[trigger] words(s)[i]).len() > 0 by {
        assert(full(all.filter(full)[i]));
    }
    if words(s).len() == 0 {
        assert forall|i: int| 0 <= i < all.len() implies (#[trigger] all[i]).len() == 0 by {
            if full(all[i]) {
                assert(all.filter(full).contains(all[i]));
            }
        }
        assert(forall|i: int| 0 <= i < s.len() ==> in_class(CharClass::Space, #[trigger] s[i]));
    }
    if blank(s) {
        assert(forall|i: int| 0 <= i < s.len() ==> in_class(CharClass::Space, #[trigger] s[i]));
        if words(s).len() > 0 {
            assert(all.contains(words(s)[0]));
        }
    }
}

/// A text that is joined from parts with a last one that is not empty is not empty, and is ASCII
/// where the parts are.
pub proof fn lemma_joined(parts: Seq<Seq<char>>)
    ensures
        parts.len() > 0 && parts.last().len() > 0 ==> join(parts, " "@).len() > 0,
        (forall|i: int| 0 <= i < parts.len() ==> all_ascii(#[trigger] parts[i])) ==> all_ascii(
            join(parts, " "@),
        ),
    decreases parts.len(),
{
    reveal_strlit(" ");
    if parts.len() > 1 {
        let fewer = parts.drop_last();
        lemma_joined(fewer);
        if forall|i: int| 0 <= i < parts.len() ==> all_ascii(#[trigger] parts[i]) {
            assert forall|i: int| 0 <= i < fewer.len() implies all_ascii(#[trigger] fewer[i]) by {
                assert(fewer[i] == parts[i]);
            }
            assert(all_ascii(parts[parts.len() - 1]));
        }
    }
}

/// The bounds of the counting functions.
pub proof fn lemma_lead_tail_bounds(s: Seq<char>, class: CharClass)
    ensures
        0 <= lead_len(s, class) <= s.len(),
        0 <= tail_len(s, class) <= s.len(),
        0 <= first_in(s, class) <= s.len(),
    decreases s.len(),
{
    if s.len() > 0 {
        lemma_lead_tail_bounds(s.drop_first(), class);
        lemma_lead_tail_bounds(s.drop_last(), class);
    }
}

/// Whether `c` belongs to `class`.
pub fn class_holds(class: CharClass, c: char) -> (r: bool)
    ensures
        r == in_class(class, c),
{
    match class {
        CharClass::Exactly(d) => c == d,
        CharClass::Space => {
            let n: u32 = c as u32;
            (0x09 <= n && n <= 0x0d) || n == 0x20 || n == 0x85 || n == 0xa0 || n == 0x1680
                || (0x2000 <= n && n <= 0x200a) || n == 0x2028 || n == 0x2029 || n == 0x202f
                || n == 0x205f || n == 0x3000
        },
        CharClass::Digit => '0' <= c && c <= '9',
        CharClass::NotDigit => !('0' <= c && c <= '9'),
        CharClass::Letter => ('a' <= c && c <= 'z') || ('A' <= c && c <= 'Z'),
    }
}

/// The characters of a string slice.
pub fn to_chars(s: &str) -> (r: Vec<char>)
    ensures
        r@ == s@,
{
    let mut out: Vec<char> = Vec::new();
    for c in it: s.chars()
        invariant
            out@ == it.seq().take(it.index() as int),
            it.seq() == s@,
    {
        out.push(c);
    }
    out
}

/// A string with the given characters.
pub fn to_text(chars: &[char]) -> (r: String)
    ensures
        r@ == chars@,
{
    let mut out = String::new();
    let mut i: usize = 0;
    while i < chars.len()
        invariant
            i <= chars@.len(),
            out@ == chars@.take(i as int),
        decreases chars@.len() - i,
    {
        out.push(chars[i]);
        i += 1;
        assert(out@ =~= chars@.take(i as int));
    }
    assert(out@ =~= chars@);
    out
}

/// How many characters at the front belong to `class`.
pub fn count_lead(s: &[char], class: CharClass) -> (r: usize)
    ensures
        r == lead_len(s@, class),
        r <= s@.len(),
{
    let mut i: usize = 0;
    assert(s@.skip(0) =~= s@);
    while i < s.len() && class_holds(class, s[i])
        invariant
            i <= s@.len(),
            lead_len(s@, class) == i + lead_len(s@.skip(i as int), class),
        decreases s@.len() - i,
    {
        assert(s@.skip(i as int).drop_first() =~= s@.skip(i + 1));
        i += 1;
    }
    i
}

/// How many characters at the back belong to `class`.
pub fn count_tail(s: &[char], class: CharClass) -> (r: usize)
    ensures
        r == tail_len(s@, class),
        r <= s@.len(),
{
    let mut n: usize = s.len();
    assert(s@.take(n as int) =~= s@);
    while n > 0 && class_holds(class, s[n - 1])
        invariant
            n <= s@.len(),
            tail_len(s@, class) == (s@.len() - n) + tail_len(s@.take(n as int), class),
        decreases n,
    {
        assert(s@.take(n as int).drop_last() =~= s@.take(n - 1));
        n -= 1;
    }
    s.len() - n
}

/// The index of the first character in `class`, or the length.
pub fn find_class(s: &[char], class: CharClass) -> (r: usize)
    ensures
        r == first_in(s@, class),
        r <= s@.len(),
{
    let mut i: usize = 0;
    assert(s@.skip(0) =~= s@);
    while i < s.len() && !class_holds(class, s[i])
        invariant
            i <= s@.len(),
            first_in(s@, class) == i + first_in(s@.skip(i as int), class),
        decreases s@.len() - i,
    {
        assert(s@.skip(i as int).drop_first() =~= s@.skip(i + 1));
        i += 1;
    }
    i
}

/// The slice without its leading characters of `class`.
pub fn strip_start<'a>(s: &'a [char], class: CharClass) -> (r: &'a [char])
    ensures
        r@ == trim_start(s@, class),
{
    let n: usize = count_lead(s, class);
    assert(s@.subrange(n as int, s@.len() as int) =~= s@.skip(n as int));
    slice_subrange(s, n, s.len())
}

/// The slice without its trailing characters of `class`.
pub fn strip_end<'a>(s: &'a [char], class: CharClass) -> (r: &'a [char])
    ensures
        r@ == trim_end(s@, class),
{
    let n: usize = count_tail(s, class);
    assert(s@.subrange(0, s@.len() - n) =~= s@.take(s@.len() - n));
    slice_subrange(s, 0, s.len() - n)
}

/// The slice without its leading and trailing characters of `class`.
pub fn strip_both<'a>(s: &'a [char], class: CharClass) -> (r: &'a [char])
    ensures
        r@ == trim_both(s@, class),
{
    strip_end(strip_start(s, class), class)
}

/// The slice without surrounding white space.
pub fn strip<'a>(s: &'a [char]) -> (r: &'a [char])
    ensures
        r@ == trim(s@),
{
    strip_both(s, CharClass::Space)
}

/// The pieces between characters of `class`.
pub fn split_chars(s: &[char], class: CharClass) -> (r: Vec<Vec<char>>)
    ensures
        texts(r@) == split(s@, class),
        r@.len() >= 1,
{
    let mut out: Vec<Vec<char>> = Vec::new();
    let mut rest: &[char] = s;
    assert(texts(out@) + split(rest@, class) =~= split(s@, class));
    loop
        invariant
            texts(out@) + split(rest@, class) == split(s@, class),
        decreases rest@.len(),
    {
        let k: usize = find_class(rest, class);
        let ghost before = texts(out@);
        if k == rest.len() {
            out.push(slice_to_vec(rest));
            assert(texts(out@) =~= before + seq![rest@]);
            return out;
        }
        let piece = slice_subrange(rest, 0, k);
        assert(piece@ =~= rest@.take(k as int));
        out.push(slice_to_vec(piece));
        assert(texts(out@) =~= before.push(rest@.take(k as int)));
        assert(rest@.subrange(k + 1, rest@.len() as int) =~= rest@.skip(k + 1));
        assert(before.push(rest@.take(k as int)) + split(rest@.skip(k + 1), class) =~= before + (
        seq![rest@.take(k as int)] + split(rest@.skip(k + 1), class)));
        rest = slice_subrange(rest, k + 1, rest.len());
    }
}


/// The nonempty pieces between characters of `class`.
pub fn split_pieces(s: &[char], class: CharClass) -> (r: Vec<Vec<char>>)
    ensures
        texts(r@) == pieces(s@, class),
{
    let all = split_chars(s, class);
    let mut out: Vec<Vec<char>> = Vec::new();
    let ghost keep = |p: Seq<char>| p.len() > 0;
    let mut i: usize = 0;
    assert(texts(out@) =~= texts(all@).take(0).filter(keep));
    while i < all.len()
        invariant
            i <= all@.len(),
            keep == (|p: Seq<char>| p.len() > 0),
            texts(out@) == texts(all@).take(i as int).filter(keep),
        decreases all@.len() - i,
    {
        let ghost before = texts(out@);
        proof {
            assert(texts(all@).take(i + 1).drop_last() =~= texts(all@).take(i as int));
            reveal(Seq::filter);
        }
        if all[i].len() > 0 {
            let piece = slice_to_vec(all[i].as_slice());
            out.push(piece);
            assert(texts(out@) =~= before.push(all@[i as int]@));
        }
        i += 1;
    }
    assert(texts(all@).take(all@.len() as int) =~= texts(all@));
    out
}

/// The words of a text.
pub fn split_words(s: &[char]) -> (r: Vec<Vec<char>>)
    ensures
        texts(r@) == words(s@),
{
    split_pieces(s, CharClass::Space)
}

/// The text cut at its first character of `class`.
pub fn cut_once<'a>(s: &'a [char], class: CharClass) -> (r: Option<(&'a [char], &'a [char])>)
    ensures
        match r {
            Some((a, b)) => split_once(s@, class) == Some((a@, b@)),
            None => split_once(s@, class) is None,
        },
{
    let k: usize = find_class(s, class);
    if k == s.len() {
        return None;
    }
    assert(s@.subrange(0, k as int) =~= s@.take(k as int));
    assert(s@.subrange(k + 1, s@.len() as int) =~= s@.skip(k + 1));
    Some((slice_subrange(s, 0, k), slice_subrange(s, k + 1, s.len())))
}

/// The lines of a text.
pub fn split_lines(s: &[char]) -> (r: Vec<Vec<char>>)
    ensures
        texts(r@) == lines(s@),
{
    let mut out: Vec<Vec<char>> = Vec::new();
    let mut rest: &[char] = s;
    assert(texts(out@) + lines(rest@) =~= lines(s@));
    while rest.len() > 0
        invariant
            texts(out@) + lines(rest@) == lines(s@),
        decreases rest@.len(),
    {
        let k: usize = find_class(rest, CharClass::Exactly('\n'));
        let ghost before = texts(out@);
        if k == rest.len() {
            out.push(slice_to_vec(rest));
            assert(texts(out@) =~= before + seq![rest@]);
            return out;
        }
        let mut end: usize = k;
        if k > 0 && rest[k - 1] == '\r' {
            end = k - 1;
        }
        let line = slice_subrange(rest, 0, end);
        assert(line@ =~= strip_cr(rest@.take(k as int)));
        out.push(slice_to_vec(line));
        assert(texts(out@) =~= before.push(line@));
        assert(rest@.subrange(k + 1, rest@.len() as int) =~= rest@.skip(k + 1));
        assert(before.push(line@) + lines(rest@.skip(k + 1)) =~= before + (seq![line@] + lines(
            rest@.skip(k + 1),
        )));
        rest = slice_subrange(rest, k + 1, rest.len());
    }
    assert(lines(rest@) =~= Seq::<Seq<char>>::empty());
    assert(texts(out@) =~= lines(s@));
    out
}

/// Whether two texts are the same.
pub fn same(a: &[char], b: &[char]) -> (r: bool)
    ensures
        r == (a@ == b@),
{
    if a.len() != b.len() {
        return false;
    }
    let mut i: usize = 0;
    while i < a.len()
        invariant
            i <= a@.len(),
            a@.len() == b@.len(),
            a@.take(i as int) =~= b@.take(i as int),
        decreases a@.len() - i,
    {
        if a[i] != b[i] {
            return false;
        }
        i += 1;
        assert(a@.take(i as int) =~= a@.take(i - 1).push(a@[i - 1]));
        assert(b@.take(i as int) =~= b@.take(i - 1).push(b@[i - 1]));
    }
    assert(a@ =~= a@.take(i as int));
    assert(b@ =~= b@.take(i as int));
    true
}

/// Whether the text is the given literal.
pub fn is_text(a: &[char], b: &str) -> (r: bool)
    ensures
        r == (a@ == b@),
{
    let chars = to_chars(b);
    same(a, chars.as_slice())
}

/// Whether two string slices are the same.
pub fn same_str(a: &str, b: &str) -> (r: bool)
    ensures
        r == (a@ == b@),
{
    let left = to_chars(a);
    is_text(left.as_slice(), b)
}

/// Whether the text begins with `prefix`.
pub fn has_prefix(s: &[char], prefix: &[char]) -> (r: bool)
    ensures
        r == starts_with(s@, prefix@),
{
    if prefix.len() > s.len() {
        return false;
    }
    assert(s@.subrange(0, prefix@.len() as int) =~= s@.take(prefix@.len() as int));
    same(slice_subrange(s, 0, prefix.len()), prefix)
}

/// Whether the text begins with the given literal.
pub fn begins(s: &[char], prefix: &str) -> (r: bool)
    ensures
        r == starts_with(s@, prefix@),
{
    let chars = to_chars(prefix);
    has_prefix(s, chars.as_slice())
}

/// Whether `needle` stands somewhere in the text.
pub fn has_text(s: &[char], needle: &[char]) -> (r: bool)
    ensures
        r == contains(s@, needle@),
{
    if needle.len() > s.len() {
        return false;
    }
    let last: usize = s.len() - needle.len();
    let mut i: usize = 0;
    while i <= last
        invariant
            i <= last + 1,
            last + needle@.len() == s@.len(),
            s@.len() == s.len(),
            forall|j: int| 0 <= j < i ==> !occurs_at(s@, needle@, j),
        decreases last + 1 - i,
    {
        if same(slice_subrange(s, i, i + needle.len()), needle) {
            assert(occurs_at(s@, needle@, i as int));
            return true;
        }
        if i == last {
            return false;
        }
        i += 1;
    }
    false
}

/// Whether the literal stands somewhere in the text.
pub fn has_literal(s: &[char], needle: &str) -> (r: bool)
    ensures
        r == contains(s@, needle@),
{
    let chars = to_chars(needle);
    has_text(s, chars.as_slice())
}

/// The text with its ASCII letters in lower case.
pub fn lower(s: &[char]) -> (r: Vec<char>)
    ensures
        r@ == ascii_lower(s@),
{
    let mut out: Vec<char> = Vec::new();
    let mut i: usize = 0;
    while i < s.len()
        invariant
            i <= s@.len(),
            out@.len() == i,
            forall|j: int| 0 <= j < i ==> #[trigger] out@[j] == char_lower(s@[j]),
        decreases s@.len() - i,
    {
        let c = s[i];
        if 'A' <= c && c <= 'Z' {
            out.push(((c as u32 + 32) as u8) as char);
        } else {
            out.push(c);
        }
        i += 1;
    }
    assert(out@ =~= ascii_lower(s@));
    out
}

/// The text with its ASCII letters in upper case.
pub fn upper(s: &[char]) -> (r: Vec<char>)
    ensures
        r@ == ascii_upper(s@),
{
    let mut out: Vec<char> = Vec::new();
    let mut i: usize = 0;
    while i < s.len()
        invariant
            i <= s@.len(),
            out@.len() == i,
            forall|j: int| 0 <= j < i ==> #[trigger] out@[j] == char_upper(s@[j]),
        decreases s@.len() - i,
    {
        out.push(raise(s[i]));
        i += 1;
    }
    assert(out@ =~= ascii_upper(s@));
    out
}

/// The character in upper case, where it is an ASCII letter.
pub fn raise(c: char) -> (r: char)
    ensures
        r == char_upper(c),
{
    if 'a' <= c && c <= 'z' {
        ((c as u32 - 32) as u8) as char
    } else {
        c
    }
}

/// The characters of a string slice in lower case.
pub fn lowered(s: &str) -> (r: Vec<char>)
    ensures
        r@ == lowercase(s@),
{
    let text = s.to_lowercase();
    to_chars(text.as_str())
}

/// Whether two texts differ in the case of ASCII letters only.
pub fn same_any_case(a: &[char], b: &[char]) -> (r: bool)
    ensures
        r == same_ignoring_case(a@, b@),
{
    let x = lower(a);
    let y = lower(b);
    same(x.as_slice(), y.as_slice())
}

/// The parts one after the other, with `sep` between neighbours.
pub fn join_texts(parts: &Vec<String>, sep: &str) -> (r: String)
    ensures
        r@ == join(strings(parts@), sep@),
{
    let mut out = String::new();
    let mut i: usize = 0;
    while i < parts.len()
        invariant
            i <= parts@.len(),
            out@ == join(strings(parts@).take(i as int), sep@),
        decreases parts@.len() - i,
    {
        assert(strings(parts@).take(i + 1).drop_last() =~= strings(parts@).take(i as int));
        if i > 0 {
            out.append(sep);
        }
        out.append(parts[i].as_str());
        i += 1;
    }
    assert(strings(parts@).take(i as int) =~= strings(parts@));
    out
}

} // verus!
