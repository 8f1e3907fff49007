//! A map from a disk and a user to a value.

use vstd::prelude::*;

use crate::text::same_str;

verus! {

/// A disk and a user.
#[derive(Debug, PartialEq, Eq)]
pub struct DiskUsageKey {
    pub mount: String,
    pub user: String,
}

impl View for DiskUsageKey {
    type V = (Seq<char>, Seq<char>);

    open spec fn view(&self) -> (Seq<char>, Seq<char>) {
        (self.mount@, self.user@)
    }
}

impl Clone for DiskUsageKey {
    fn clone(&self) -> (r: Self)
        ensures
            r@ == self@,
    {
        DiskUsageKey { mount: self.mount.clone(), user: self.user.clone() }
    }
}

impl DiskUsageKey {
    /// The disk and the user together.
    pub fn new(mount: &str, user: &str) -> (r: Self)
        ensures
            r@ == (mount@, user@),
    {
        DiskUsageKey { mount: mount.to_string(), user: user.to_string() }
    }

    /// Whether two keys are the same.
    pub fn same(&self, other: &DiskUsageKey) -> (r: bool)
        ensures
            r == (self@ == other@),
    {
        same_str(self.mount.as_str(), other.mount.as_str()) && same_str(
            self.user.as_str(),
            other.user.as_str(),
        )
    }
}

/// A map from a disk and a user to a value.
#[derive(Debug)]
pub struct UsageMap<V> {
    keys: Vec<DiskUsageKey>,
    values: Vec<V>,
}

/// Whether a key stands in the list.
spec fn listed(keys: Seq<DiskUsageKey>, k: (Seq<char>, Seq<char>)) -> bool {
    exists|i: int| 0 <= i < keys.len() && (#[trigger] keys[i])@ == k
}

/// Where a key stands in the list.
spec fn place(keys: Seq<DiskUsageKey>, k: (Seq<char>, Seq<char>)) -> int {
    choose|i: int| 0 <= i < keys.len() && (#[trigger] keys[i])@ == k
}

/// Whether no key stands in the list twice.
spec fn distinct(keys: Seq<DiskUsageKey>) -> bool {
    forall|i: int, j: int| 0 <= i < j < keys.len() ==> (#[trigger] keys[i])@ != (#[trigger] keys[j])@
}

proof fn lemma_place(keys: Seq<DiskUsageKey>, i: int)
    requires
        distinct(keys),
        0 <= i < keys.len(),
    ensures
        listed(keys, keys[i]@),
        place(keys, keys[i]@) == i,
{
    let k = keys[i]@;
    let j = place(keys, k);
    assert(0 <= j < keys.len() && keys[j]@ == k);
    if j < i {
        assert(keys[j]@ != keys[i]@);
    } else if i < j {
        assert(keys[i]@ != keys[j]@);
    }
}

/// The map that keys and values make.
spec fn pairs<V>(keys: Seq<DiskUsageKey>, values: Seq<V>) -> Map<(Seq<char>, Seq<char>), V> {
    Map::new(|k: (Seq<char>, Seq<char>)| listed(keys, k), |k: (Seq<char>, Seq<char>)| values[place(keys, k)])
}

impl<V> View for UsageMap<V> {
    type V = Map<(Seq<char>, Seq<char>), V>;

    closed spec fn view(&self) -> Map<(Seq<char>, Seq<char>), V> {
        pairs(self.keys@, self.values@)
    }
}

impl<V> UsageMap<V> {
    #[verifier::type_invariant]
    spec fn paired(self) -> bool {
        self.keys@.len() == self.values@.len() && distinct(self.keys@)
    }

    /// An empty map.
    pub fn new() -> (r: Self)
        ensures
            r@ == Map::<(Seq<char>, Seq<char>), V>::empty(),
    {
        let r = UsageMap { keys: Vec::new(), values: Vec::new() };
        assert(r@ =~= Map::<(Seq<char>, Seq<char>), V>::empty());
        r
    }

    /// How many keys the map has.
    pub closed spec fn count(self) -> nat {
        self.keys@.len()
    }

    /// The key at a position.
    pub closed spec fn key(self, i: int) -> (Seq<char>, Seq<char>) {
        self.keys@[i]@
    }

    /// How many keys the map has: each position below that has one of them, and no two the same.
    pub fn len(&self) -> (r: usize)
        ensures
            r == self.count(),
            forall|k: (Seq<char>, Seq<char>)| #[trigger]
                self@.contains_key(k) <==> exists|i: int| 0 <= i < r && #[trigger] self.key(i) == k,
            forall|i: int, j: int| 0 <= i < j < r ==> #[trigger] self.key(i) != #[trigger] self.key(j),
    {
        proof {
            use_type_invariant(self);
            assert forall|k: (Seq<char>, Seq<char>)| #[trigger]
                self@.contains_key(k) <==> exists|i: int| 0 <= i < self.count() && #[trigger] self.key(i) == k by {
                if self@.contains_key(k) {
                    let i = place(self.keys@, k);
                    assert(self.key(i) == k);
                }
                if exists|i: int| 0 <= i < self.count() && #[trigger] self.key(i) == k {
                    let i = choose|i: int| 0 <= i < self.count() && #[trigger] self.key(i) == k;
                    assert(self.keys@[i]@ == k);
                }
            }
            assert forall|i: int, j: int| 0 <= i < j < self.count() implies #[trigger] self.key(i)
                != #[trigger] self.key(j) by {
                assert(self.keys@[i]@ != self.keys@[j]@);
            }
        }
        self.keys.len()
    }

    /// The key and the value at a position.
    pub fn entry(&self, i: usize) -> (r: (&DiskUsageKey, &V))
        requires
            i < self.count(),
        ensures
            r.0@ == self.key(i as int),
            self@.contains_key(r.0@),
            self@[r.0@] == *r.1,
    {
        proof {
            use_type_invariant(self);
            lemma_place(self.keys@, i as int);
        }
        (&self.keys[i], &self.values[i])
    }

    /// Where a key stands.
    fn find(&self, key: &DiskUsageKey) -> (r: Option<usize>)
        ensures
            match r {
                Some(i) => i < self.keys@.len() && self.keys@[i as int]@ == key@,
                None => !listed(self.keys@, key@),
            },
    {
        let mut i: usize = 0;
        while i < self.keys.len()
            invariant
                i <= self.keys@.len(),
                forall|k: int| 0 <= k < i ==> (#[trigger] self.keys@[k])@ != key@,
            decreases self.keys@.len() - i,
        {
            if self.keys[i].same(key) {
                return Some(i);
            }
            i += 1;
        }
        None
    }

    /// The value of a key.
    pub fn get(&self, key: &DiskUsageKey) -> (r: Option<&V>)
        ensures
            match r {
                Some(v) => self@.contains_key(key@) && self@[key@] == *v,
                None => !self@.contains_key(key@),
            },
    {
        proof {
            use_type_invariant(self);
        }
        match self.find(key) {
            Some(i) => {
                proof {
                    lemma_place(self.keys@, i as int);
                }
                Some(&self.values[i])
            },
            None => None,
        }
    }

    /// Sets the value of a key.
    pub fn insert(&mut self, key: DiskUsageKey, value: V)
        ensures
            final(self)@ == old(self)@.insert(key@, value),
    {
        proof {
            use_type_invariant(&*self);
        }
        let found = self.find(&key);
        let mut keys: Vec<DiskUsageKey> = Vec::new();
        let mut values: Vec<V> = Vec::new();
        self.take(&mut keys, &mut values);
        let ghost before = (keys@, values@);
        match found {
            Some(i) => {
                values.set(i, value);
                proof {
                    assert forall|q: (Seq<char>, Seq<char>)| #[trigger] listed(keys@, q) implies pairs(
                        keys@,
                        values@,
                    )[q] == pairs(before.0, before.1).insert(key@, value)[q] by {
                        lemma_place(keys@, i as int);
                    }
                    lemma_place(keys@, i as int);
                }
            },
            None => {
                let ghost k = key@;
                keys.push(key);
                values.push(value);
                proof {
                    let n = before.0.len() as int;
                    assert(keys@[n]@ == k);
                    assert forall|i: int, j: int| 0 <= i < j < keys@.len() implies (#[trigger] keys@[i])@
                        != (#[trigger] keys@[j])@ by {
                        assert(keys@[i] == before.0[i]);
                        if j < n {
                            assert(keys@[j] == before.0[j]);
                        }
                    }
                    assert forall|q: (Seq<char>, Seq<char>)| #[trigger]
                        listed(keys@, q) <==> listed(before.0, q) || q == k by {
                        if listed(before.0, q) {
                            let i = place(before.0, q);
                            assert(keys@[i] == before.0[i]);
                        }
                        if listed(keys@, q) && q != k {
                            let i = place(keys@, q);
                            assert(before.0[i] == keys@[i]);
                        }
                    }
                    assert forall|q: (Seq<char>, Seq<char>)| #[trigger] listed(keys@, q) implies pairs(
                        keys@,
                        values@,
                    )[q] == pairs(before.0, before.1).insert(k, value)[q] by {
                        lemma_place(keys@, n);
                        if q != k {
                            let i = place(before.0, q);
                            assert(keys@[i] == before.0[i]);
                            lemma_place(keys@, i);
                        }
                    }
                }
            },
        }
        assert(pairs(keys@, values@) =~= pairs(before.0, before.1).insert(key@, value));
        self.put_back(keys, values);
    }

    /// Takes a key out.
    pub fn remove(&mut self, key: &DiskUsageKey) -> (r: Option<V>)
        ensures
            final(self)@ == old(self)@.remove(key@),
            match r {
                Some(v) => old(self)@.contains_key(key@) && old(self)@[key@] == v,
                None => !old(self)@.contains_key(key@),
            },
    {
        proof {
            use_type_invariant(&*self);
        }
        match self.find(key) {
            Some(i) => {
                let mut keys: Vec<DiskUsageKey> = Vec::new();
                let mut values: Vec<V> = Vec::new();
                self.take(&mut keys, &mut values);
                let ghost before = (keys@, values@);
                proof {
                    lemma_place(keys@, i as int);
                }
                keys.remove(i);
                let value = values.remove(i);
                proof {
                    let after = keys@;
                    assert forall|a: int, b: int| 0 <= a < b < after.len() implies (#[trigger] after[a])@
                        != (#[trigger] after[b])@ by {
                        let x = if a < i { a } else { a + 1 };
                        let y = if b < i { b } else { b + 1 };
                        assert(after[a] == before.0[x] && after[b] == before.0[y]);
                    }
                    assert forall|q: (Seq<char>, Seq<char>)| #[trigger]
                        listed(after, q) <==> listed(before.0, q) && q != key@ by {
                        if listed(after, q) {
                            let a = place(after, q);
                            let x = if a < i { a } else { a + 1 };
                            assert(after[a] == before.0[x]);
                            if q == key@ {
                                assert(before.0[x]@ == before.0[i as int]@);
                                if x < i {
                                    assert(before.0[x]@ != before.0[i as int]@);
                                } else {
                                    assert(before.0[i as int]@ != before.0[x]@);
                                }
                            }
                        }
                        if listed(before.0, q) && q != key@ {
                            let x = place(before.0, q);
                            let a = if x < i { x } else { x - 1 };
                            assert(after[a] == before.0[x]);
                        }
                    }
                    assert forall|q: (Seq<char>, Seq<char>)| #[trigger] listed(after, q) implies pairs(
                        after,
                        values@,
                    )[q] == pairs(before.0, before.1).remove(key@)[q] by {
                        let x = place(before.0, q);
                        let a = if x < i { x } else { x - 1 };
                        assert(listed(before.0, q) && q != key@);
                        assert(after[a] == before.0[x]);
                        lemma_place(after, a);
                    }
                }
                assert(pairs(keys@, values@) =~= pairs(before.0, before.1).remove(key@));
                self.put_back(keys, values);
                Some(value)
            },
            None => {
                assert(self@ =~= self@.remove(key@));
                None
            },
        }
    }

    /// Takes the keys and values out.
    fn take(&mut self, keys: &mut Vec<DiskUsageKey>, values: &mut Vec<V>)
        requires
            old(keys)@.len() == 0,
            old(values)@.len() == 0,
        ensures
            final(keys)@ == old(self).keys@,
            final(values)@ == old(self).values@,
            final(keys)@.len() == final(values)@.len(),
            distinct(final(keys)@),
    {
        let mut other: UsageMap<V> = UsageMap { keys: Vec::new(), values: Vec::new() };
        proof {
            use_type_invariant(&*self);
        }
        std::mem::swap(self, &mut other);
        *keys = other.keys;
        *values = other.values;
    }

    /// Puts keys and values in.
    fn put_back(&mut self, keys: Vec<DiskUsageKey>, values: Vec<V>)
        requires
            keys@.len() == values@.len(),
            distinct(keys@),
        ensures
            final(self)@ == pairs(keys@, values@),
    {
        *self = UsageMap { keys, values };
    }
}

} // verus!
