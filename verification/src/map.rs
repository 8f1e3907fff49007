//! A map from texts to values, kept in the order of its keys.

use vstd::prelude::*;

use crate::order::lemma_text_before_total;
use crate::order::lemma_text_before_transitive;
use crate::order::rank_texts;
use crate::order::text_before;
use crate::order::Rank;
use crate::text::to_chars;

verus! {

/// One key and its value.
#[derive(Debug, PartialEq, Eq)]
struct Entry<V> {
    key: String,
    value: V,
}

/// A map from texts to values. Its entries stand in ascending order of their keys, and no key
/// occurs twice.
#[derive(Debug, PartialEq, Eq)]
pub struct TextMap<V> {
    entries: Vec<Entry<V>>,
}

/// Whether the keys ascend, without repetition.
pub open spec fn ascending<V>(s: Seq<(Seq<char>, V)>) -> bool {
    forall|i: int, j: int| 0 <= i < j < s.len() ==> text_before(#[trigger] s[i].0, #[trigger] s[j].0)
}

/// The value that stands beside `key`.
pub open spec fn lookup<V>(s: Seq<(Seq<char>, V)>, key: Seq<char>) -> Option<V>
    decreases s.len(),
{
    if s.len() == 0 {
        None
    } else if s[0].0 == key {
        Some(s[0].1)
    } else {
        lookup(s.drop_first(), key)
    }
}

/// The entries with `value` beside `key`, put in its place in the order where `key` is new.
pub open spec fn put<V>(s: Seq<(Seq<char>, V)>, key: Seq<char>, value: V) -> Seq<(Seq<char>, V)>
    decreases s.len(),
{
    if s.len() == 0 {
        seq![(key, value)]
    } else if s[0].0 == key {
        seq![(key, value)] + s.drop_first()
    } else if text_before(key, s[0].0) {
        seq![(key, value)] + s
    } else {
        seq![s[0]] + put(s.drop_first(), key, value)
    }
}

/// The first entry that is not before `key` gives way to the new one where it has that key, and
/// stands behind it where it has not.
proof fn lemma_put_there<V>(s: Seq<(Seq<char>, V)>, key: Seq<char>, value: V, n: int)
    requires
        0 <= n <= s.len(),
        forall|i: int| 0 <= i < n ==> s[i].0 != key && !text_before(key, #[trigger] s[i].0),
        n < s.len() ==> s[n].0 == key || text_before(key, s[n].0),
    ensures
        put(s, key, value) == if n < s.len() && s[n].0 == key {
            s.update(n, (key, value))
        } else {
            s.insert(n, (key, value))
        },
    decreases s.len(),
{
    if n == 0 {
        if s.len() == 0 {
            assert(put(s, key, value) =~= s.insert(0, (key, value)));
        } else if s[0].0 == key {
            assert(put(s, key, value) =~= s.update(0, (key, value)));
        } else {
            assert(put(s, key, value) =~= s.insert(0, (key, value)));
        }
    } else {
        let rest = s.drop_first();
        assert forall|i: int| 0 <= i < n - 1 implies rest[i].0 != key && !text_before(
            key,
            #[trigger] rest[i].0,
        ) by {
            assert(rest[i] == s[i + 1]);
        }
        lemma_put_there(rest, key, value, n - 1);
        assert(s[0].0 != key && !text_before(key, s[0].0));
        if n < s.len() && s[n].0 == key {
            assert(put(s, key, value) =~= s.update(n, (key, value)));
        } else {
            assert(put(s, key, value) =~= s.insert(n, (key, value)));
        }
    }
}

proof fn lemma_lookup_index<V>(s: Seq<(Seq<char>, V)>, key: Seq<char>, n: int)
    requires
        0 <= n <= s.len(),
        forall|i: int| 0 <= i < n ==> (#[trigger] s[i]).0 != key,
        n < s.len() ==> s[n].0 == key,
    ensures
        lookup(s, key) == if n < s.len() { Some(s[n].1) } else { None::<V> },
    decreases s.len(),
{
    if n > 0 {
        assert forall|i: int| 0 <= i < n - 1 implies (#[trigger] s.drop_first()[i]).0 != key by {
            assert(s.drop_first()[i] == s[i + 1]);
        }
        lemma_lookup_index(s.drop_first(), key, n - 1);
    }
}

/// A map of counts by type of GPU.
pub type GpuMap = TextMap<u64>;

/// The sum of the counts of a map.
pub open spec fn count_sum(s: Seq<(Seq<char>, u64)>) -> nat
    decreases s.len(),
{
    if s.len() == 0 {
        0
    } else {
        count_sum(s.drop_last()) + s.last().1 as nat
    }
}

/// The count beside `key`, or zero.
pub open spec fn count_of(s: Seq<(Seq<char>, u64)>, key: Seq<char>) -> nat {
    match lookup(s, key) {
        Some(n) => n as nat,
        None => 0,
    }
}

/// A map gives back what was put into it, and keeps what it held beside other keys.
pub proof fn law_lookup_after_put<V>(s: Seq<(Seq<char>, V)>, key: Seq<char>, value: V, other: Seq<char>)
    ensures
        lookup(put(s, key, value), key) == Some(value),
        other != key ==> lookup(put(s, key, value), other) == lookup(s, other),
    decreases s.len(),
{
    if s.len() > 0 {
        let out = put(s, key, value);
        law_lookup_after_put(s.drop_first(), key, value, other);
        if s[0].0 == key {
            assert(out.drop_first() =~= s.drop_first());
        } else if text_before(key, s[0].0) {
            assert(out.drop_first() =~= s);
        } else {
            assert(out.drop_first() =~= put(s.drop_first(), key, value));
        }
    } else {
        assert(put(s, key, value).drop_first() =~= s);
    }
}

/// The keys of the map after a `put` are those of before and the new one.
proof fn lemma_put_keys<V>(s: Seq<(Seq<char>, V)>, key: Seq<char>, value: V, bound: Seq<char>)
    requires
        text_before(bound, key),
        forall|i: int| 0 <= i < s.len() ==> text_before(bound, #[trigger] s[i].0),
    ensures
        forall|i: int|
            0 <= i < put(s, key, value).len() ==> text_before(bound, #[trigger] put(s, key, value)[i].0),
    decreases s.len(),
{
    if s.len() > 0 {
        assert forall|i: int| 0 <= i < s.drop_first().len() implies text_before(
            bound,
            #[trigger] s.drop_first()[i].0,
        ) by {
            assert(s.drop_first()[i] == s[i + 1]);
        }
        lemma_put_keys(s.drop_first(), key, value, bound);
        let out = put(s, key, value);
        let tail = put(s.drop_first(), key, value);
        assert forall|i: int| 0 <= i < out.len() implies text_before(bound, #[trigger] out[i].0) by {
            if s[0].0 == key {
                assert(out[i].0 == s[i].0);
            } else if text_before(key, s[0].0) {
                assert(i > 0 ==> out[i] == s[i - 1]);
            } else {
                assert(text_before(bound, s[0].0));
                assert(i > 0 ==> out[i] == tail[i - 1]);
            }
        }
    }
}

/// Putting a value keeps the keys in ascending order.
pub proof fn law_put_keeps_order<V>(s: Seq<(Seq<char>, V)>, key: Seq<char>, value: V)
    requires
        ascending(s),
    ensures
        ascending(put(s, key, value)),
    decreases s.len(),
{
    let out = put(s, key, value);
    if s.len() > 0 {
        let rest = s.drop_first();
        lemma_rest_ascends(s);
        law_put_keeps_order(rest, key, value);
        if s[0].0 == key {
            assert forall|i: int, j: int| 0 <= i < j < out.len() implies text_before(
                #[trigger] out[i].0,
                #[trigger] out[j].0,
            ) by {
                assert(out[i].0 == s[i].0 && out[j].0 == s[j].0);
            }
        } else if text_before(key, s[0].0) {
            assert forall|i: int, j: int| 0 <= i < j < out.len() implies text_before(
                #[trigger] out[i].0,
                #[trigger] out[j].0,
            ) by {
                assert(out[j] == s[j - 1]);
                if i > 0 {
                    assert(out[i] == s[i - 1]);
                } else if j > 1 {
                    lemma_text_before_transitive(key, s[0].0, s[j - 1].0);
                }
            }
        } else {
            lemma_text_before_total(key, s[0].0);
            assert forall|i: int| 0 <= i < rest.len() implies text_before(s[0].0, #[trigger] rest[i].0) by {
                assert(rest[i] == s[i + 1]);
            }
            lemma_put_keys(rest, key, value, s[0].0);
            let tail = put(rest, key, value);
            assert forall|i: int, j: int| 0 <= i < j < out.len() implies text_before(
                #[trigger] out[i].0,
                #[trigger] out[j].0,
            ) by {
                assert(out[j] == tail[j - 1]);
                if i > 0 {
                    assert(out[i] == tail[i - 1]);
                }
            }
        }
    }
}

impl<V> View for TextMap<V> {
    type V = Seq<(Seq<char>, V)>;

    closed spec fn view(&self) -> Seq<(Seq<char>, V)> {
        Seq::new(self.entries@.len(), |i: int| (self.entries@[i].key@, self.entries@[i].value))
    }
}

impl<V> TextMap<V> {
    #[verifier::type_invariant]
    spec fn in_order(self) -> bool {
        ascending(self@)
    }

    /// An empty map.
    pub fn new() -> (r: Self)
        ensures
            r@ == Seq::<(Seq<char>, V)>::empty(),
    {
        let r = TextMap { entries: Vec::new() };
        assert(r@ =~= Seq::<(Seq<char>, V)>::empty());
        r
    }

    /// How many keys the map holds; they ascend.
    pub fn len(&self) -> (r: usize)
        ensures
            r == self@.len(),
            ascending(self@),
    {
        proof {
            use_type_invariant(self);
        }
        self.entries.len()
    }

    /// Whether the map holds nothing.
    pub fn is_empty(&self) -> (r: bool)
        ensures
            r == (self@.len() == 0),
    {
        self.entries.len() == 0
    }

    /// The key at a position in the order of the keys.
    pub fn key_at(&self, i: usize) -> (r: &String)
        requires
            i < self@.len(),
        ensures
            r@ == self@[i as int].0,
    {
        &self.entries[i].key
    }

    /// The value at a position in the order of the keys.
    pub fn value_at(&self, i: usize) -> (r: &V)
        requires
            i < self@.len(),
        ensures
            *r == self@[i as int].1,
    {
        &self.entries[i].value
    }

    /// The value beside a key.
    pub fn get(&self, key: &str) -> (r: Option<&V>)
        ensures
            match r {
                Some(v) => lookup(self@, key@) == Some(*v),
                None => lookup(self@, key@) is None,
            },
    {
        let wanted = key.to_string();
        let mut i: usize = 0;
        while i < self.entries.len()
            invariant
                i <= self.entries@.len(),
                self@.len() == self.entries@.len(),
                forall|j: int| 0 <= j < i ==> (#[trigger] self@[j]).0 != key@,
                wanted@ == key@,
            decreases self.entries@.len() - i,
        {
            if self.entries[i].key == wanted {
                assert(self@[i as int].0 == key@);
                proof {
                    lemma_lookup_index(self@, key@, i as int);
                }
                return Some(&self.entries[i].value);
            }
            i += 1;
        }
        proof {
            lemma_lookup_index(self@, key@, i as int);
        }
        None
    }

    /// Puts a value beside a key.
    pub fn insert(&mut self, key: &str, value: V)
        ensures
            final(self)@ == put(old(self)@, key@, value),
    {
        proof {
            use_type_invariant(&*self);
            law_put_keeps_order(self@, key@, value);
        }
        let chars = to_chars(key);
        let mut i: usize = 0;
        let mut found: bool = false;
        let ghost before = self@;
        while i < self.entries.len()
            invariant_except_break
                !found,
            invariant
                i <= self.entries@.len(),
                chars@ == key@,
                self@ == before,
                before.len() == self.entries@.len(),
                forall|j: int|
                    0 <= j < i ==> before[j].0 != key@ && !text_before(key@, #[trigger] before[j].0),
            ensures
                found ==> i < before.len() && before[i as int].0 == key@,
                !found && i < before.len() ==> text_before(key@, before[i as int].0),
            decreases self.entries@.len() - i,
        {
            let here = to_chars(self.entries[i].key.as_str());
            assert(here@ == before[i as int].0);
            match rank_texts(chars.as_slice(), here.as_slice()) {
                Rank::Same => {
                    found = true;
                    break ;
                },
                Rank::Before => {
                    break ;
                },
                Rank::After => {
                    proof {
                        lemma_text_before_total(chars@, here@);
                    }
                },
            }
            i += 1;
        }
        proof {
            lemma_put_there(before, key@, value, i as int);
        }
        let entry = Entry { key: key.to_string(), value };
        let mut entries: Vec<Entry<V>> = Vec::new();
        assert(Seq::new(entries@.len(), |k: int| (entries@[k].key@, entries@[k].value)) =~= Seq::empty());
        std::mem::swap(&mut self.entries, &mut entries);
        if found {
            entries.set(i, entry);
        } else {
            proof {
                lemma_text_before_total(key@, key@);
            }
            entries.insert(i, entry);
        }
        assert(Seq::new(entries@.len(), |k: int| (entries@[k].key@, entries@[k].value)) =~= put(before, key@, value));
        self.entries = entries;
    }
}


impl<V: Copy> Clone for TextMap<V> {
    fn clone(&self) -> (r: Self)
        ensures
            r@ == self@,
    {
        proof {
            use_type_invariant(self);
        }
        let mut entries: Vec<Entry<V>> = Vec::new();
        let mut i: usize = 0;
        while i < self.entries.len()
            invariant
                i <= self.entries@.len(),
                entries@.len() == i,
                forall|k: int|
                    0 <= k < i ==> (#[trigger] entries@[k]).key@ == self.entries@[k].key@
                        && entries@[k].value == self.entries@[k].value,
            decreases self.entries@.len() - i,
        {
            entries.push(Entry { key: self.entries[i].key.clone(), value: self.entries[i].value });
            i += 1;
        }
        assert(Seq::new(entries@.len(), |k: int| (entries@[k].key@, entries@[k].value)) =~= self@);
        TextMap { entries }
    }
}

impl<V> Default for TextMap<V> {
    fn default() -> (r: Self)
        ensures
            r@ == Seq::<(Seq<char>, V)>::empty(),
    {
        TextMap::new()
    }
}

proof fn lemma_sum_front(s: Seq<(Seq<char>, u64)>)
    requires
        s.len() > 0,
    ensures
        count_sum(s) == s[0].1 + count_sum(s.drop_first()),
    decreases s.len(),
{
    if s.len() == 1 {
        assert(s.drop_first() =~= s.drop_last());
    } else {
        lemma_sum_front(s.drop_last());
        assert(s.drop_first().drop_last() =~= s.drop_last().drop_first());
    }
}

proof fn lemma_rest_ascends<V>(s: Seq<(Seq<char>, V)>)
    requires
        ascending(s),
        s.len() > 0,
    ensures
        ascending(s.drop_first()),
{
    let rest = s.drop_first();
    assert forall|i: int, j: int| 0 <= i < j < rest.len() implies text_before(
        #[trigger] rest[i].0,
        #[trigger] rest[j].0,
    ) by {
        assert(rest[i] == s[i + 1] && rest[j] == s[j + 1]);
    }
}

/// A key in front of every key of the map is not in it.
proof fn lemma_absent<V>(s: Seq<(Seq<char>, V)>, key: Seq<char>)
    requires
        ascending(s),
        s.len() > 0,
        text_before(key, s[0].0),
    ensures
        lookup(s, key) is None,
    decreases s.len(),
{
    lemma_text_before_total(key, s[0].0);
    let rest = s.drop_first();
    lemma_rest_ascends(s);
    if rest.len() > 0 {
        assert(rest[0] == s[1]);
        lemma_text_before_transitive(key, s[0].0, s[1].0);
        lemma_absent(rest, key);
    }
}

/// The value at a position is the one beside its key.
pub proof fn lemma_lookup_at<V>(s: Seq<(Seq<char>, V)>, i: int)
    requires
        ascending(s),
        0 <= i < s.len(),
    ensures
        lookup(s, s[i].0) == Some(s[i].1),
{
    assert forall|j: int| 0 <= j < i implies (#[trigger] s[j]).0 != s[i].0 by {
        lemma_text_before_total(s[j].0, s[i].0);
        assert(text_before(s[j].0, s[i].0));
        if s[j].0 == s[i].0 {
            lemma_text_before_total(s[i].0, s[i].0);
        }
    }
    lemma_lookup_index(s, s[i].0, i);
}

/// A key with a value beside it stands at some position.
pub proof fn lemma_lookup_position<V>(s: Seq<(Seq<char>, V)>, key: Seq<char>) -> (i: int)
    ensures
        lookup(s, key) matches Some(v) ==> 0 <= i < s.len() && s[i] == (key, v),
    decreases s.len(),
{
    if s.len() == 0 || s[0].0 == key {
        0
    } else {
        let i = lemma_lookup_position(s.drop_first(), key);
        i + 1
    }
}

/// Putting a value beside a key that is there changes that value alone.
pub proof fn lemma_put_at<V>(s: Seq<(Seq<char>, V)>, i: int, value: V)
    requires
        ascending(s),
        0 <= i < s.len(),
    ensures
        put(s, s[i].0, value) == s.update(i, (s[i].0, value)),
{
    assert forall|j: int| 0 <= j < i implies s[j].0 != s[i].0 && !text_before(s[i].0, #[trigger] s[j].0) by {
        assert(text_before(s[j].0, s[i].0));
        lemma_text_before_total(s[j].0, s[i].0);
        lemma_text_before_total(s[i].0, s[i].0);
    }
    lemma_put_there(s, s[i].0, value, i);
}

/// The count beside a key among the first entries grows with each entry by that of its key.
pub proof fn lemma_count_step(s: Seq<(Seq<char>, u64)>, n: int, key: Seq<char>)
    requires
        ascending(s),
        0 <= n < s.len(),
    ensures
        count_of(s.take(n + 1), key) == count_of(s.take(n), key) + if s[n].0 == key {
            s[n].1 as nat
        } else {
            0
        },
        lookup(s.take(n + 1), key) is Some <==> lookup(s.take(n), key) is Some || s[n].0 == key,
{
    let more = s.take(n + 1);
    let fewer = s.take(n);
    assert(ascending(more)) by {
        assert forall|i: int, j: int| 0 <= i < j < more.len() implies text_before(
            #[trigger] more[i].0,
            #[trigger] more[j].0,
        ) by {
            assert(more[i] == s[i] && more[j] == s[j]);
        }
    }
    assert(ascending(fewer)) by {
        assert forall|i: int, j: int| 0 <= i < j < fewer.len() implies text_before(
            #[trigger] fewer[i].0,
            #[trigger] fewer[j].0,
        ) by {
            assert(fewer[i] == s[i] && fewer[j] == s[j]);
        }
    }
    let i = lemma_lookup_position(more, key);
    let j = lemma_lookup_position(fewer, key);
    if s[n].0 == key {
        assert(more[n] == s[n]);
        lemma_lookup_at(more, n);
        if lookup(fewer, key) is Some {
            assert(more[j] == fewer[j]);
            lemma_lookup_at(more, j);
            assert(text_before(more[j].0, more[n].0));
            lemma_text_before_total(key, key);
        }
    } else {
        if lookup(fewer, key) is Some {
            assert(more[j] == fewer[j]);
            lemma_lookup_at(more, j);
        }
        if lookup(more, key) is Some {
            assert(i < n);
            assert(fewer[i] == more[i]);
            lemma_lookup_at(fewer, i);
        }
    }
}

/// One count is not more than the sum.
pub proof fn lemma_count_le_sum(s: Seq<(Seq<char>, u64)>, key: Seq<char>)
    ensures
        count_of(s, key) <= count_sum(s),
    decreases s.len(),
{
    if s.len() > 0 {
        lemma_sum_front(s);
        lemma_count_le_sum(s.drop_first(), key);
    }
}

/// Raising the count beside a key raises the sum by as much.
pub proof fn law_sum_after_put(s: Seq<(Seq<char>, u64)>, key: Seq<char>, value: u64)
    requires
        ascending(s),
        value >= count_of(s, key),
    ensures
        count_sum(put(s, key, value)) == count_sum(s) + (value - count_of(s, key)),
    decreases s.len(),
{
    let out = put(s, key, value);
    if s.len() == 0 {
        assert(out.drop_last() =~= s);
    } else {
        lemma_sum_front(s);
        lemma_sum_front(out);
        if s[0].0 == key {
            assert(out.drop_first() =~= s.drop_first());
        } else if text_before(key, s[0].0) {
            assert(out.drop_first() =~= s);
            lemma_absent(s, key);
        } else {
            lemma_rest_ascends(s);
            law_sum_after_put(s.drop_first(), key, value);
            assert(out.drop_first() =~= put(s.drop_first(), key, value));
        }
    }
}

impl TextMap<u64> {
    /// The sum of the counts, where it fits.
    pub fn checked_sum(&self) -> (r: Option<u64>)
        ensures
            match r {
                Some(n) => n == count_sum(self@),
                None => count_sum(self@) > u64::MAX,
            },
    {
        let mut total: u64 = 0;
        let mut i: usize = 0;
        assert(self@.take(0) =~= Seq::empty());
        while i < self.len()
            invariant
                i <= self@.len(),
                total == count_sum(self@.take(i as int)),
            decreases self@.len() - i,
        {
            assert(self@.take(i + 1).drop_last() =~= self@.take(i as int));
            match total.checked_add(*self.value_at(i)) {
                Some(n) => {
                    total = n;
                },
                None => {
                    proof {
                        lemma_sum_take(self@, i + 1);
                    }
                    return None;
                },
            }
            i += 1;
        }
        assert(self@.take(i as int) =~= self@);
        Some(total)
    }
}

proof fn lemma_sum_take(s: Seq<(Seq<char>, u64)>, n: int)
    requires
        0 <= n <= s.len(),
    ensures
        count_sum(s.take(n)) <= count_sum(s),
    decreases s.len(),
{
    if n < s.len() {
        assert(s.drop_last().take(n) =~= s.take(n));
        lemma_sum_take(s.drop_last(), n);
    } else {
        assert(s.take(n) =~= s);
    }
}

} // verus!
