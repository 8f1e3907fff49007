//! GPU counts in Slurm's lists of generic resources.

use vstd::prelude::*;

use crate::map::ascending;
use crate::map::count_of;
use crate::map::law_lookup_after_put;
use crate::map::law_put_keeps_order;
use crate::map::lookup;
use crate::map::put;
use crate::map::GpuMap;
use crate::model::opt_view;
use crate::number::all_digits;
use crate::number::decimal;
use crate::number::digits_value;
use crate::number::lemma_decimal_round_trip;
use crate::number::parse_64_or_zero;
use crate::number::read_64_or_zero;
use crate::text::ascii_lower;
use crate::text::char_lower;
use crate::text::contains;
use crate::text::in_class;
use crate::text::is_digit;
use crate::text::is_space;
use crate::text::is_text;
use crate::text::join;
use crate::text::lower;
use crate::text::strip;
use crate::text::strip_both;
use crate::text::to_chars;
use crate::text::to_text;
use crate::text::trim;
use crate::text::trim_both;
use crate::text::CharClass;
use vstd::slice::slice_to_vec;

verus! {

/// What the groups of one match captured.
pub open spec fn groups_view(groups: Seq<Option<String>>) -> Seq<Option<Seq<char>>> {
    Seq::new(groups.len(), |i: int| opt_view(groups[i]))
}

/// What the groups of each match captured.
pub open spec fn matches_view(found: Seq<Vec<Option<String>>>) -> Seq<Seq<Option<Seq<char>>>> {
    Seq::new(found.len(), |i: int| groups_view(found[i]@))
}

/// What the groups of each match captured, where the pattern could be compiled.
pub open spec fn captures_view(found: Option<Vec<Vec<Option<String>>>>) -> Option<Seq<Seq<Option<Seq<char>>>>> {
    match found {
        Some(list) => Some(matches_view(list@)),
        None => None,
    }
}

/// What the groups of a pattern capture in each of its successive matches in a text, the whole
/// match first; nothing where the pattern cannot be compiled.
pub uninterp spec fn captures_of(
    pattern: Seq<char>,
    text: Seq<char>,
) -> Option<Seq<Seq<Option<Seq<char>>>>>;

/// One GPU count of a list of resources: a type where it has one, a sign and a number, with what
/// stands in front and behind.
pub struct GpuCount {
    pub front: Seq<char>,
    pub kind: Option<Seq<char>>,
    pub sign: char,
    pub digits: Seq<char>,
    pub back: Seq<char>,
}

impl GpuCount {
    /// Whether the count is one that a list of resources can hold: nothing in front of it or behind it
    /// speaks of a GPU, and what stands behind it is in brackets.
    pub open spec fn wf(self) -> bool {
        &&& !contains(self.front, "gpu"@)
        &&& self.kind matches Some(t) ==> t.len() > 0 && forall|i: int|
            0 <= i < t.len() ==> #[trigger] t[i] != ',' && t[i] != '=' && t[i] != '(' && t[i] != ')' && t[i]
                != ':'
        &&& self.sign == ':' || self.sign == '='
        &&& self.digits.len() > 0 && all_digits(self.digits)
        &&& self.back.len() > 0 ==> self.back[0] == '(' && !contains(self.back, "gpu"@)
    }

    /// What speaks of the GPUs.
    pub open spec fn heart(self) -> Seq<char> {
        "gpu"@ + (match self.kind {
            Some(t) => ":"@ + t,
            None => seq![],
        }) + seq![self.sign] + self.digits
    }

    /// The count as it is written.
    pub open spec fn text(self) -> Seq<char> {
        self.front + self.heart() + self.back
    }
}

/// Whether all these counts are ones that a list of resources can hold.
pub open spec fn counts_wf(counts: Seq<GpuCount>) -> bool {
    forall|i: int| 0 <= i < counts.len() ==> (#[trigger] counts[i]).wf()
}

/// A list of resources with these counts.
pub open spec fn written(counts: Seq<GpuCount>) -> Seq<char> {
    join(Seq::new(counts.len(), |i: int| counts[i].text()), ","@)
}

/// `regex::Regex::captures_iter`, on the pattern that `regex::Regex::new` compiles: for each match
/// from left to right, the text that each group captured. The result is named: it depends on the
/// pattern and the text alone. Of the pattern of a GPU count, it is known what it finds in a list of
/// such counts between commas: each of them, with its type and its number.
#[verifier::external_body]
fn find_captures(pattern: &str, text: &str) -> (r: Option<Vec<Vec<Option<String>>>>)
    ensures
        captures_view(r) == captures_of(pattern@, text@),
        pattern@ == "gpu(?::([^,=():]+))?"@ + "[=:](\\d+)"@ ==> forall|counts: Seq<GpuCount>|
            counts_wf(counts) && text@ == #[trigger] written(counts) ==> captures_view(r) == Some(
                Seq::new(
                    counts.len(),
                    |i: int| seq![Some(counts[i].heart()), counts[i].kind, Some(counts[i].digits)],
                ),
            ),
{
    let regex = regex::Regex::new(pattern).ok()?;
    Some(
        regex.captures_iter(text).map(
            |found| found.iter().map(|group| group.map(|m| m.as_str().to_string())).collect(),
        ).collect(),
    )
}

/// The pattern of a GPU count: the type, where there is one, and the number.
pub open spec fn gpu_pattern() -> Seq<char> {
    "gpu(?::([^,=():]+))?[=:](\\d+)"@
}

/// The text that a group captured.
pub open spec fn group_at(groups: Seq<Option<Seq<char>>>, i: int) -> Option<Seq<char>> {
    if i < groups.len() {
        groups[i]
    } else {
        None
    }
}

/// The type and the count that one match says. Without a type, or with one of slashes and white
/// space only, it is `generic`; a count that does not fit is zero.
pub open spec fn gpu_item(groups: Seq<Option<Seq<char>>>) -> (Seq<char>, u64) {
    let named = match group_at(groups, 1) {
        Some(t) => trim_both(trim(t), CharClass::Exactly('/')),
        None => trim_both("generic"@, CharClass::Exactly('/')),
    };
    let kind = if named.len() == 0 {
        "generic"@
    } else {
        named
    };
    let count = match group_at(groups, 2) {
        Some(n) => parse_64_or_zero(n),
        None => 0,
    };
    (kind, count as u64)
}

/// The types and counts that the matches say.
pub open spec fn gpu_items(found: Seq<Seq<Option<Seq<char>>>>) -> Seq<(Seq<char>, u64)> {
    Seq::new(found.len(), |i: int| gpu_item(found[i]))
}

/// The sum of the counts of one type.
pub open spec fn kind_sum(items: Seq<(Seq<char>, u64)>, kind: Seq<char>) -> nat
    decreases items.len(),
{
    if items.len() == 0 {
        0
    } else {
        kind_sum(items.drop_last(), kind) + if items.last().0 == kind {
            items.last().1 as nat
        } else {
            0
        }
    }
}

/// Whether the sum of the counts of each type fits.
pub open spec fn sums_fit(items: Seq<(Seq<char>, u64)>) -> bool {
    forall|kind: Seq<char>| #[trigger] kind_sum(items, kind) <= u64::MAX
}

/// The counts by type, each the sum of the counts of that type; a count of zero makes no entry.
pub open spec fn summed(items: Seq<(Seq<char>, u64)>) -> Seq<(Seq<char>, u64)>
    decreases items.len(),
{
    if items.len() == 0 {
        seq![]
    } else {
        let before = summed(items.drop_last());
        let (kind, count) = items.last();
        if count == 0 {
            before
        } else {
            put(before, kind, (count_of(before, kind) + count) as u64)
        }
    }
}

/// The map of counts has an entry for each type with a count above zero, and it is their sum.
pub proof fn law_summed_counts(items: Seq<(Seq<char>, u64)>, kind: Seq<char>)
    requires
        sums_fit(items),
    ensures
        ascending(summed(items)),
        count_of(summed(items), kind) == kind_sum(items, kind),
        lookup(summed(items), kind) is Some <==> kind_sum(items, kind) > 0,
    decreases items.len(),
{
    if items.len() > 0 {
        let fewer = items.drop_last();
        let (last, count) = items.last();
        assert forall|k: Seq<char>| #[trigger] kind_sum(fewer, k) <= u64::MAX by {
            assert(kind_sum(items, k) <= u64::MAX);
        }
        law_summed_counts(fewer, kind);
        law_summed_counts(fewer, last);
        assert(kind_sum(items, last) <= u64::MAX);
        if count > 0 {
            let value = (count_of(summed(fewer), last) + count) as u64;
            law_put_keeps_order(summed(fewer), last, value);
            law_lookup_after_put(summed(fewer), last, value, kind);
        }
    }
}

/// The counts by type that a list of resources says: none where it names none, and else those that
/// the matches of the pattern say.
pub open spec fn gpus_said(value: Seq<char>) -> Seq<(Seq<char>, u64)> {
    summed(items_said(value))
}

/// The types and counts that a list of resources says.
pub open spec fn items_said(value: Seq<char>) -> Seq<(Seq<char>, u64)> {
    let text = ascii_lower(trim(value));
    if text.len() == 0 || text == "n/a"@ || text == "(null)"@ || text == "none"@ {
        seq![]
    } else {
        match captures_of(gpu_pattern(), text) {
            Some(found) => gpu_items(found),
            None => seq![],
        }
    }
}

/// A list of resources that is empty or says that there are none has no GPUs.
pub proof fn law_no_resources(value: Seq<char>)
    requires
        trim(value).len() == 0 || ascii_lower(trim(value)) == "n/a"@ || ascii_lower(trim(value)) == "(null)"@
            || ascii_lower(trim(value)) == "none"@,
    ensures
        gpus_said(value) == Seq::<(Seq<char>, u64)>::empty(),
{
}

/// A count without a type is of the type `generic`, and one with a type of that type, without white space
/// and slashes around it.
pub proof fn law_untyped_is_generic(whole: Seq<char>, kind: Seq<char>, digits: Seq<char>)
    requires
        kind.len() > 0 && !is_space(kind[0]) && !is_space(kind.last()) && kind[0] != '/' && kind.last() != '/',
        digits.len() > 0 && all_digits(digits) && digits_value(digits) <= u64::MAX,
    ensures
        gpu_item(seq![Some(whole), None, Some(digits)]) == ("generic"@, digits_value(digits) as u64),
        gpu_item(seq![Some(whole), Some(kind), Some(digits)]) == (kind, digits_value(digits) as u64),
{
    reveal_strlit("generic");
    lemma_nothing_trimmed("generic"@, CharClass::Exactly('/'));
    lemma_nothing_trimmed(kind, CharClass::Space);
    lemma_nothing_trimmed(kind, CharClass::Exactly('/'));
    assert(is_digit(digits[0]));
    let a = seq![Some(whole), None::<Seq<char>>, Some(digits)];
    let b = seq![Some(whole), Some(kind), Some(digits)];
    assert(a[1] is None && a[2] == Some(digits));
    assert(b[1] == Some(kind) && b[2] == Some(digits));
}

/// The type and the count that one match says.
fn read_item(groups: &Vec<Option<String>>) -> (r: (Vec<char>, u64))
    ensures
        gpu_item(groups_view(groups@)) == (r.0@, r.1),
{
    let ghost shown = groups_view(groups@);
    let mut kind: Vec<char> = to_chars("generic");
    if groups.len() > 1 {
        assert(shown[1] == opt_view(groups@[1]));
        if let Some(t) = &groups[1] {
            let chars = to_chars(t.as_str());
            kind = slice_to_vec(strip(chars.as_slice()));
        }
    }
    let named = strip_both(kind.as_slice(), CharClass::Exactly('/'));
    let kind = if named.len() == 0 {
        to_chars("generic")
    } else {
        slice_to_vec(named)
    };
    let mut count: u64 = 0;
    if groups.len() > 2 {
        assert(shown[2] == opt_view(groups@[2]));
        if let Some(n) = &groups[2] {
            let chars = to_chars(n.as_str());
            count = read_64_or_zero(chars.as_slice());
        }
    }
    (kind, count)
}

/// The counts by type that the matches of the pattern say, where they fit.
pub fn gpu_map_from(found: &Vec<Vec<Option<String>>>) -> (r: Option<GpuMap>)
    ensures
        match r {
            Some(map) => sums_fit(gpu_items(matches_view(found@))) && map@ == summed(
                gpu_items(matches_view(found@)),
            ),
            None => !sums_fit(gpu_items(matches_view(found@))),
        },
{
    let ghost items = gpu_items(matches_view(found@));
    let mut map: GpuMap = GpuMap::new();
    let mut i: usize = 0;
    assert(summed(items.take(0)) =~= Seq::empty());
    while i < found.len()
        invariant
            i <= found@.len(),
            items == gpu_items(matches_view(found@)),
            sums_fit(items.take(i as int)),
            map@ == summed(items.take(i as int)),
        decreases found@.len() - i,
    {
        let (kind, count) = read_item(&found[i]);
        let ghost fewer = items.take(i as int);
        let ghost more = items.take(i + 1);
        assert(items[i as int] == (kind@, count));
        assert(more.drop_last() =~= fewer);
        proof {
            law_summed_counts(fewer, kind@);
        }
        if count > 0 {
            let name = to_text(kind.as_slice());
            let held: u64 = match map.get(name.as_str()) {
                Some(n) => *n,
                None => 0,
            };
            match held.checked_add(count) {
                Some(sum) => {
                    map.insert(name.as_str(), sum);
                },
                None => {
                    proof {
                        assert(kind_sum(more, kind@) > u64::MAX);
                        lemma_kind_sum_grows(items, i + 1, kind@);
                    }
                    return None;
                },
            }
        }
        proof {
            assert forall|k: Seq<char>| #[trigger] kind_sum(more, k) <= u64::MAX by {
                assert(kind_sum(fewer, k) <= u64::MAX);
            }
        }
        i += 1;
    }
    assert(items.take(i as int) =~= items);
    Some(map)
}

proof fn lemma_kind_sum_grows(items: Seq<(Seq<char>, u64)>, n: int, kind: Seq<char>)
    requires
        0 <= n <= items.len(),
    ensures
        kind_sum(items.take(n), kind) <= kind_sum(items, kind),
    decreases items.len(),
{
    if n < items.len() {
        assert(items.drop_last().take(n) =~= items.take(n));
        lemma_kind_sum_grows(items.drop_last(), n, kind);
    } else {
        assert(items.take(n) =~= items);
    }
}

/// The type and the number of a count; without a type it is `generic`, and a number that does not fit
/// is zero.
pub open spec fn count_said(count: GpuCount) -> (Seq<char>, u64) {
    (
        match count.kind {
            Some(t) => t,
            None => "generic"@,
        },
        if digits_value(count.digits) <= u64::MAX {
            digits_value(count.digits) as u64
        } else {
            0
        },
    )
}

/// Whether these are counts with types that hold no white space and no slash.
pub open spec fn plain_counts(counts: Seq<GpuCount>) -> bool {
    counts_wf(counts) && forall|i: int, k: int|
        0 <= i < counts.len() && (#[trigger] counts[i]).kind is Some && 0 <= k < counts[i].kind->0.len()
            ==> !is_space(#[trigger] counts[i].kind->0[k]) && counts[i].kind->0[k] != '/'
}

/// The types and the numbers of counts.
pub open spec fn counts_said(counts: Seq<GpuCount>) -> Seq<(Seq<char>, u64)> {
    Seq::new(counts.len(), |i: int| count_said(counts[i]))
}

/// What is trimmed of a text that neither begins nor ends with what is trimmed.
proof fn lemma_nothing_trimmed(t: Seq<char>, class: CharClass)
    requires
        t.len() > 0 ==> !in_class(class, t[0]) && !in_class(class, t.last()),
    ensures
        trim_both(t, class) == t,
{
    assert(t.skip(0) =~= t);
    assert(t.take(t.len() as int) =~= t);
}

/// What one count says is what is read of its groups.
proof fn lemma_count_read(count: GpuCount)
    requires
        count.wf(),
        forall|k: int|
            count.kind is Some && 0 <= k < count.kind->0.len() ==> !is_space(#[trigger] count.kind->0[k])
                && count.kind->0[k] != '/',
    ensures
        gpu_item(seq![Some(count.heart()), count.kind, Some(count.digits)]) == count_said(count),
{
    let groups = seq![Some(count.heart()), count.kind, Some(count.digits)];
    assert(groups[1] == count.kind && groups[2] == Some(count.digits));
    match count.kind {
        Some(t) => {
            assert(!is_space(t[0]) && t[0] != '/');
            assert(!is_space(t[t.len() - 1]) && t[t.len() - 1] != '/');
            lemma_nothing_trimmed(t, CharClass::Space);
            lemma_nothing_trimmed(t, CharClass::Exactly('/'));
        },
        None => {
            reveal_strlit("generic");
            lemma_nothing_trimmed("generic"@, CharClass::Exactly('/'));
        },
    }
    assert(is_digit(count.digits[0]));
}

/// A list of counts speaks of GPUs.
proof fn lemma_speaks(counts: Seq<GpuCount>)
    requires
        counts.len() > 0,
    ensures
        exists|i: int| 0 <= i < written(counts).len() && written(counts)[i] == 'g',
{
    reveal_strlit("gpu");
    let texts = Seq::new(counts.len(), |i: int| counts[i].text());
    let last = counts.last();
    let k = last.front.len() as int;
    assert(last.text()[k] == 'g');
    assert(texts.last() == last.text());
    let text = written(counts);
    if counts.len() == 1 {
        assert(text == last.text());
        assert(text[k] == 'g');
    } else {
        let front = join(texts.drop_last(), ","@) + ","@;
        assert(text == front + last.text());
        assert(text[front.len() + k] == 'g');
    }
}

/// The matches of the pattern in a list of resources; none where it names no resources.
fn find_gpus(value: &[char]) -> (r: Vec<Vec<Option<String>>>)
    ensures
        gpu_items(matches_view(r@)) == items_said(value@),
        forall|counts: Seq<GpuCount>|
            plain_counts(counts) && ascii_lower(trim(value@)) == #[trigger] written(counts) ==> items_said(
                value@,
            ) == counts_said(counts),
{
    let text = lower(strip(value));
    let t = text.as_slice();
    let none: Vec<Vec<Option<String>>> = Vec::new();
    assert(gpu_items(matches_view(none@)) =~= seq![]);
    if t.len() == 0 || is_text(t, "n/a") || is_text(t, "(null)") || is_text(t, "none") {
        proof {
            reveal_strlit("n/a");
            reveal_strlit("(null)");
            reveal_strlit("none");
            assert forall|counts: Seq<GpuCount>|
                plain_counts(counts) && ascii_lower(trim(value@)) == #[trigger] written(
                    counts,
                ) implies items_said(value@) == counts_said(counts) by {
                if counts.len() > 0 {
                    lemma_speaks(counts);
                    let i = choose|i: int| 0 <= i < written(counts).len() && written(counts)[i] == 'g';
                    assert(t@[i] == 'g');
                }
                assert(counts_said(counts) =~= seq![]);
            }
        }
        return none;
    }
    let line = to_text(t);
    let found = find_captures("gpu(?::([^,=():]+))?[=:](\\d+)", line.as_str());
    proof {
        reveal_strlit("gpu(?::([^,=():]+))?[=:](\\d+)");
        reveal_strlit("gpu(?::([^,=():]+))?");
        reveal_strlit("[=:](\\d+)");
        assert(gpu_pattern() =~= "gpu(?::([^,=():]+))?"@ + "[=:](\\d+)"@);
        assert forall|counts: Seq<GpuCount>|
            plain_counts(counts) && ascii_lower(trim(value@)) == #[trigger] written(
                counts,
            ) implies items_said(value@) == counts_said(counts) by {
            let groups = Seq::new(
                counts.len(),
                |i: int| seq![Some(counts[i].heart()), counts[i].kind, Some(counts[i].digits)],
            );
            assert(captures_view(found) == Some(groups));
            assert forall|i: int| 0 <= i < counts.len() implies gpu_item(#[trigger] groups[i]) == count_said(
                counts[i],
            ) by {
                assert(counts[i].wf());
                lemma_count_read(counts[i]);
            }
            assert(gpu_items(groups) =~= counts_said(counts));
        }
    }
    match found {
        Some(found) => found,
        None => none,
    }
}

/// A single count of a plain type is a list of resources with that count.
proof fn lemma_single_count(value: Seq<char>, kind: Seq<char>, n: u64)
    requires
        plain_kind(kind),
        n > 0,
        value == "gpu:"@ + kind + ":"@ + decimal(n as nat),
    ensures
        ({
            let counts = seq![
                GpuCount {
                    front: seq![],
                    kind: Some(kind),
                    sign: ':',
                    digits: decimal(n as nat),
                    back: seq![],
                },
            ];
            &&& plain_counts(counts)
            &&& ascii_lower(trim(value)) == written(counts)
            &&& summed(counts_said(counts)) == seq![(kind, n)]
        }),
{
    reveal_strlit("gpu:");
    reveal_strlit("gpu");
    reveal_strlit(":");
    lemma_decimal_round_trip(n as nat);
    let digits = decimal(n as nat);
    let one = GpuCount { front: seq![], kind: Some(kind), sign: ':', digits, back: seq![] };
    let counts = seq![one];
    assert(one.wf());
    assert(plain_counts(counts));
    let texts = Seq::new(counts.len(), |i: int| counts[i].text());
    assert(texts.len() == 1 && texts[0] == one.text());
    assert(one.text() =~= value);
    assert(written(counts) == value);
    assert(value[0] == 'g');
    assert(is_digit(digits[digits.len() - 1]));
    assert(value.last() == digits[digits.len() - 1]);
    lemma_nothing_trimmed(value, CharClass::Space);
    assert forall|i: int| 0 <= i < value.len() implies char_lower(#[trigger] value[i]) == value[i] by {
        if 4 <= i < 4 + kind.len() {
            assert(value[i] == kind[i - 4]);
        } else if i >= 5 + kind.len() {
            assert(value[i] == digits[i - 5 - kind.len()]);
            assert(is_digit(digits[i - 5 - kind.len()]));
        }
    }
    assert(ascii_lower(value) =~= value);
    let items = counts_said(counts);
    assert(items.len() == 1 && items[0] == (kind, n));
    assert(items.drop_last() =~= seq![]);
    assert(summed(items.drop_last()) =~= seq![]);
    let none: Seq<(Seq<char>, u64)> = seq![];
    assert(summed(items) == put(none, kind, (count_of(none, kind) + n) as u64));
}

/// Whether a type of GPU is a plain one: small letters and other characters, but no white space and
/// none of those that lists of resources are made of.
pub open spec fn plain_kind(kind: Seq<char>) -> bool {
    kind.len() > 0 && forall|i: int|
        0 <= i < kind.len() ==> {
            &&& !is_space(#[trigger] kind[i])
            &&& !('A' <= kind[i] <= 'Z')
            &&& kind[i] != ','
            &&& kind[i] != '='
            &&& kind[i] != '('
            &&& kind[i] != ')'
            &&& kind[i] != ':'
            &&& kind[i] != '/'
        }
}

/// Whether the counts of a list of resources fit.
pub fn gpu_counts_fit(value: &[char]) -> (r: bool)
    ensures
        r == sums_fit(items_said(value@)),
        forall|counts: Seq<GpuCount>|
            plain_counts(counts) && ascii_lower(trim(value@)) == #[trigger] written(counts) ==> items_said(
                value@,
            ) == counts_said(counts),
{
    let found = find_gpus(value);
    gpu_map_from(&found).is_some()
}

/// The counts by type that a list of resources says.
pub fn read_gpus(value: &[char]) -> (r: GpuMap)
    requires
        sums_fit(items_said(value@)),
    ensures
        r@ == gpus_said(value@),
        forall|counts: Seq<GpuCount>|
            plain_counts(counts) && ascii_lower(trim(value@)) == #[trigger] written(counts) ==> r@ == summed(
                counts_said(counts),
            ),
{
    let found = find_gpus(value);
    match gpu_map_from(&found) {
        Some(map) => map,
        None => GpuMap::new(),
    }
}

/// The counts by type that a list of resources says, such as `gpu:a100:2,gpu:h100=1`.
#[must_use]
pub fn parse_gpu_map(value: &str) -> (r: GpuMap)
    requires
        sums_fit(items_said(value@)),
    ensures
        r@ == gpus_said(value@),
        forall|counts: Seq<GpuCount>|
            plain_counts(counts) && ascii_lower(trim(value@)) == #[trigger] written(counts) ==> r@ == summed(
                counts_said(counts),
            ),
        forall|kind: Seq<char>, n: u64|
            plain_kind(kind) && n > 0 && value@ == #[trigger] ("gpu:"@ + kind + ":"@ + decimal(n as nat))
                ==> r@ == seq![(kind, n)],
{
    let chars = to_chars(value);
    let r = read_gpus(chars.as_slice());
    proof {
        assert forall|kind: Seq<char>, n: u64|
            plain_kind(kind) && n > 0 && value@ == #[trigger] ("gpu:"@ + kind + ":"@ + decimal(n as nat)) implies r@
            == seq![(kind, n)] by {
            lemma_single_count(value@, kind, n);
        }
    }
    r
}

/// The counts by type that a list of resources says, where the sum of each type fits.
pub fn checked_gpu_map(value: &str) -> (r: Option<GpuMap>)
    ensures
        match r {
            Some(map) => sums_fit(items_said(value@)) && map@ == gpus_said(value@),
            None => !sums_fit(items_said(value@)),
        },
        forall|counts: Seq<GpuCount>|
            plain_counts(counts) && ascii_lower(trim(value@)) == #[trigger] written(counts) ==> match r {
                Some(map) => map@ == summed(counts_said(counts)),
                None => !sums_fit(counts_said(counts)),
            },
        forall|kind: Seq<char>, n: u64|
            plain_kind(kind) && n > 0 && value@ == #[trigger] ("gpu:"@ + kind + ":"@ + decimal(n as nat))
                ==> r is Some && r->0@ == seq![(kind, n)],
{
    let chars = to_chars(value);
    let fits = gpu_counts_fit(chars.as_slice());
    proof {
        assert forall|kind: Seq<char>, n: u64|
            plain_kind(kind) && n > 0 && value@ == #[trigger] ("gpu:"@ + kind + ":"@ + decimal(n as nat)) implies fits by {
            lemma_single_count(value@, kind, n);
            let counts = seq![
                GpuCount {
                    front: seq![],
                    kind: Some(kind),
                    sign: ':',
                    digits: decimal(n as nat),
                    back: seq![],
                },
            ];
            let items = counts_said(counts);
            lemma_decimal_round_trip(n as nat);
            assert(items_said(value@) == items);
            assert forall|k: Seq<char>| #[trigger] kind_sum(items, k) <= u64::MAX by {
                assert(items.drop_last() =~= seq![]);
                assert(kind_sum(items.drop_last(), k) == 0);
            }
        }
    }
    if fits {
        Some(parse_gpu_map(value))
    } else {
        None
    }
}

} // verus!
