//! Sort keys, and a stable sort by key.

use vstd::prelude::*;

verus! {

/// One component of a sort key.
#[derive(Debug)]
pub enum KeyPart {
    /// A number, in numeric order.
    Number(u128),
    /// A text, in the order of its characters.
    Text(Vec<char>),
}

/// A sort key: the first component in which two keys differ decides.
#[derive(Debug)]
pub struct SortKey {
    pub parts: Vec<KeyPart>,
}

/// What a component of a sort key stands for.
pub enum PartView {
    Number(nat),
    Text(Seq<char>),
}

/// How two keys compare.
#[derive(Debug, Clone, Copy, PartialEq, Eq, Structural)]
pub enum Rank {
    Before,
    Same,
    After,
}

impl View for KeyPart {
    type V = PartView;

    open spec fn view(&self) -> PartView {
        match *self {
            KeyPart::Number(n) => PartView::Number(n as nat),
            KeyPart::Text(t) => PartView::Text(t@),
        }
    }
}

impl View for SortKey {
    type V = Seq<PartView>;

    open spec fn view(&self) -> Seq<PartView> {
        Seq::new(self.parts@.len(), |i: int| self.parts@[i]@)
    }
}

/// The keys of a list.
pub open spec fn keys_view(keys: Seq<SortKey>) -> Seq<Seq<PartView>> {
    Seq::new(keys.len(), |i: int| keys[i]@)
}

/// Whether the text `a` comes before `b`.
pub open spec fn text_before(a: Seq<char>, b: Seq<char>) -> bool
    decreases a.len(),
{
    if b.len() == 0 {
        false
    } else if a.len() == 0 {
        true
    } else if a[0] == b[0] {
        text_before(a.drop_first(), b.drop_first())
    } else {
        a[0] < b[0]
    }
}

/// Whether the component `a` comes before `b`; numbers come before texts.
pub open spec fn part_before(a: PartView, b: PartView) -> bool {
    match (a, b) {
        (PartView::Number(m), PartView::Number(n)) => m < n,
        (PartView::Text(s), PartView::Text(t)) => text_before(s, t),
        (PartView::Number(_), PartView::Text(_)) => true,
        (PartView::Text(_), PartView::Number(_)) => false,
    }
}

/// Whether the key `a` comes before `b`.
pub open spec fn key_before(a: Seq<PartView>, b: Seq<PartView>) -> bool
    decreases a.len(),
{
    if b.len() == 0 {
        false
    } else if a.len() == 0 {
        true
    } else if a[0] == b[0] {
        key_before(a.drop_first(), b.drop_first())
    } else {
        part_before(a[0], b[0])
    }
}

/// Whether the row at index `i` belongs in front of the one at `j`: by key, ascending or
/// descending, and by index where the keys are the same.
pub open spec fn row_before(keys: Seq<Seq<PartView>>, descending: bool, i: int, j: int) -> bool {
    if keys[i] == keys[j] {
        i < j
    } else if descending {
        key_before(keys[j], keys[i])
    } else {
        key_before(keys[i], keys[j])
    }
}

/// Whether `order` lists each index from `lo` up to `hi` once, in the order of `row_before`.
pub open spec fn is_run(
    keys: Seq<Seq<PartView>>,
    descending: bool,
    order: Seq<int>,
    lo: int,
    hi: int,
) -> bool {
    &&& order.len() == hi - lo
    &&& forall|i: int| 0 <= i < order.len() ==> lo <= #[trigger] order[i] < hi
    &&& forall|i: int, j: int|
        0 <= i < j < order.len() ==> row_before(keys, descending, #[trigger] order[i], #[trigger] order[j])
}

/// Whether `order` is the stable order of rows with these keys.
pub open spec fn is_stable_order(keys: Seq<Seq<PartView>>, descending: bool, order: Seq<int>) -> bool {
    is_run(keys, descending, order, 0, keys.len() as int)
}

/// The rows in the given order.
pub open spec fn arrange<T>(rows: Seq<T>, order: Seq<int>) -> Seq<T> {
    Seq::new(order.len(), |i: int| rows[order[i]])
}

/// Whether `new` holds the rows of `old`, sorted stably by their keys.
pub open spec fn sorted_stably<T>(
    old_rows: Seq<T>,
    new_rows: Seq<T>,
    keys: Seq<Seq<PartView>>,
    descending: bool,
) -> bool {
    exists|order: Seq<int>| #[trigger]
        is_stable_order(keys, descending, order) && new_rows == arrange(old_rows, order)
}

pub proof fn lemma_text_before_total(a: Seq<char>, b: Seq<char>)
    ensures
        !text_before(a, a),
        a != b ==> text_before(a, b) || text_before(b, a),
        !(text_before(a, b) && text_before(b, a)),
    decreases a.len(),
{
    if a.len() > 0 && b.len() > 0 {
        lemma_text_before_total(a.drop_first(), b.drop_first());
        if a[0] == b[0] && a.drop_first() == b.drop_first() {
            assert(a =~= seq![a[0]] + a.drop_first());
            assert(b =~= seq![b[0]] + b.drop_first());
        }
    } else if a.len() == 0 && b.len() == 0 {
        assert(a =~= b);
    }
    if a.len() > 0 {
        lemma_text_before_total(a.drop_first(), a.drop_first());
    }
}

pub proof fn lemma_text_before_transitive(a: Seq<char>, b: Seq<char>, c: Seq<char>)
    requires
        text_before(a, b),
        text_before(b, c),
    ensures
        text_before(a, c),
    decreases a.len(),
{
    if a.len() > 0 && a[0] == b[0] && b[0] == c[0] {
        lemma_text_before_transitive(a.drop_first(), b.drop_first(), c.drop_first());
    }
}

proof fn lemma_part_before_total(a: PartView, b: PartView)
    ensures
        !part_before(a, a),
        a != b ==> part_before(a, b) || part_before(b, a),
        !(part_before(a, b) && part_before(b, a)),
{
    match (a, b) {
        (PartView::Text(s), PartView::Text(t)) => {
            lemma_text_before_total(s, t);
        },
        (PartView::Text(s), _) => {
            lemma_text_before_total(s, s);
        },
        _ => {},
    }
}

proof fn lemma_part_before_transitive(a: PartView, b: PartView, c: PartView)
    requires
        part_before(a, b),
        part_before(b, c),
    ensures
        part_before(a, c),
{
    match (a, b, c) {
        (PartView::Text(s), PartView::Text(t), PartView::Text(u)) => {
            lemma_text_before_transitive(s, t, u);
        },
        _ => {},
    }
}

/// The order of keys is strict and total: no key comes before itself, and of two different keys
/// exactly one comes first.
pub proof fn law_key_order_total(a: Seq<PartView>, b: Seq<PartView>)
    ensures
        !key_before(a, a),
        a != b ==> key_before(a, b) || key_before(b, a),
        !(key_before(a, b) && key_before(b, a)),
    decreases a.len(),
{
    if a.len() > 0 && b.len() > 0 {
        law_key_order_total(a.drop_first(), b.drop_first());
        lemma_part_before_total(a[0], b[0]);
        if a[0] == b[0] && a.drop_first() == b.drop_first() {
            assert(a =~= seq![a[0]] + a.drop_first());
            assert(b =~= seq![b[0]] + b.drop_first());
        }
    } else if a.len() == 0 && b.len() == 0 {
        assert(a =~= b);
    }
    if a.len() > 0 {
        law_key_order_total(a.drop_first(), a.drop_first());
    }
}

/// The order of keys is transitive.
pub proof fn law_key_order_transitive(a: Seq<PartView>, b: Seq<PartView>, c: Seq<PartView>)
    requires
        key_before(a, b),
        key_before(b, c),
    ensures
        key_before(a, c),
    decreases a.len(),
{
    if a.len() > 0 && b.len() > 0 && c.len() > 0 {
        if a[0] == b[0] && b[0] == c[0] {
            law_key_order_transitive(a.drop_first(), b.drop_first(), c.drop_first());
        } else if a[0] != b[0] && b[0] != c[0] {
            lemma_part_before_transitive(a[0], b[0], c[0]);
            lemma_part_before_total(a[0], c[0]);
            if a[0] == c[0] {
                lemma_part_before_total(a[0], b[0]);
            }
        }
    }
}

proof fn lemma_row_before_total(keys: Seq<Seq<PartView>>, descending: bool, i: int, j: int)
    ensures
        !row_before(keys, descending, i, i),
        i != j ==> row_before(keys, descending, i, j) || row_before(keys, descending, j, i),
        !(row_before(keys, descending, i, j) && row_before(keys, descending, j, i)),
{
    law_key_order_total(keys[i], keys[j]);
}

proof fn lemma_row_before_transitive(keys: Seq<Seq<PartView>>, descending: bool, i: int, j: int, k: int)
    requires
        row_before(keys, descending, i, j),
        row_before(keys, descending, j, k),
    ensures
        row_before(keys, descending, i, k),
{
    let (a, b, c) = (keys[i], keys[j], keys[k]);
    law_key_order_total(a, b);
    law_key_order_total(b, c);
    law_key_order_total(a, c);
    if a != b && b != c {
        if descending {
            law_key_order_transitive(c, b, a);
        } else {
            law_key_order_transitive(a, b, c);
        }
    }
}

/// How two texts compare.
pub fn rank_texts(a: &[char], b: &[char]) -> (r: Rank)
    ensures
        r == Rank::Before <==> text_before(a@, b@),
        r == Rank::Same <==> a@ == b@,
        r == Rank::After <==> text_before(b@, a@),
{
    let mut i: usize = 0;
    assert(a@.skip(0) =~= a@);
    assert(b@.skip(0) =~= b@);
    proof {
        lemma_text_before_total(a@, b@);
    }
    while i < a.len() && i < b.len() && a[i] == b[i]
        invariant
            i <= a@.len(),
            i <= b@.len(),
            a@.take(i as int) =~= b@.take(i as int),
            text_before(a@, b@) == text_before(a@.skip(i as int), b@.skip(i as int)),
            text_before(b@, a@) == text_before(b@.skip(i as int), a@.skip(i as int)),
        decreases a@.len() - i,
    {
        assert(a@.skip(i as int).drop_first() =~= a@.skip(i + 1));
        assert(b@.skip(i as int).drop_first() =~= b@.skip(i + 1));
        i += 1;
        assert(a@.take(i as int) =~= a@.take(i - 1).push(a@[i - 1]));
        assert(b@.take(i as int) =~= b@.take(i - 1).push(b@[i - 1]));
    }
    if i == a.len() {
        if i == b.len() {
            assert(a@ =~= a@.take(i as int));
            assert(b@ =~= b@.take(i as int));
            Rank::Same
        } else {
            Rank::Before
        }
    } else if i == b.len() {
        Rank::After
    } else if a[i] < b[i] {
        Rank::Before
    } else {
        Rank::After
    }
}

/// How two components compare.
fn rank_parts(a: &KeyPart, b: &KeyPart) -> (r: Rank)
    ensures
        r == Rank::Before <==> part_before(a@, b@),
        r == Rank::Same <==> a@ == b@,
        r == Rank::After <==> part_before(b@, a@),
{
    match (a, b) {
        (KeyPart::Number(m), KeyPart::Number(n)) => {
            if *m < *n {
                Rank::Before
            } else if *m == *n {
                Rank::Same
            } else {
                Rank::After
            }
        },
        (KeyPart::Text(s), KeyPart::Text(t)) => rank_texts(s.as_slice(), t.as_slice()),
        (KeyPart::Number(_), KeyPart::Text(_)) => Rank::Before,
        (KeyPart::Text(_), KeyPart::Number(_)) => Rank::After,
    }
}

/// How two keys compare.
pub fn rank_keys(a: &SortKey, b: &SortKey) -> (r: Rank)
    ensures
        r == Rank::Before <==> key_before(a@, b@),
        r == Rank::Same <==> a@ == b@,
        r == Rank::After <==> key_before(b@, a@),
{
    let mut i: usize = 0;
    assert(a@.skip(0) =~= a@);
    assert(b@.skip(0) =~= b@);
    proof {
        law_key_order_total(a@, b@);
    }
    while i < a.parts.len() && i < b.parts.len()
        invariant
            i <= a@.len(),
            i <= b@.len(),
            a@.len() == a.parts@.len(),
            b@.len() == b.parts@.len(),
            a@.take(i as int) =~= b@.take(i as int),
            key_before(a@, b@) == key_before(a@.skip(i as int), b@.skip(i as int)),
            key_before(b@, a@) == key_before(b@.skip(i as int), a@.skip(i as int)),
        decreases a@.len() - i,
    {
        let ghost x = a@.skip(i as int);
        let ghost y = b@.skip(i as int);
        assert(x[0] == a@[i as int] && y[0] == b@[i as int]);
        match rank_parts(&a.parts[i], &b.parts[i]) {
            Rank::Before => {
                proof {
                    lemma_part_before_total(x[0], y[0]);
                    law_key_order_total(a@, b@);
                }
                return Rank::Before;
            },
            Rank::After => {
                proof {
                    lemma_part_before_total(x[0], y[0]);
                    law_key_order_total(a@, b@);
                }
                return Rank::After;
            },
            Rank::Same => {},
        }
        assert(x.drop_first() =~= a@.skip(i + 1));
        assert(y.drop_first() =~= b@.skip(i + 1));
        i += 1;
        assert(a@.take(i as int) =~= a@.take(i - 1).push(a@[i - 1]));
        assert(b@.take(i as int) =~= b@.take(i - 1).push(b@[i - 1]));
    }
    if i == a.parts.len() {
        if i == b.parts.len() {
            assert(a@ =~= a@.take(i as int));
            assert(b@ =~= b@.take(i as int));
            Rank::Same
        } else {
            Rank::Before
        }
    } else {
        Rank::After
    }
}

/// The indices as integers.
pub open spec fn as_ints(order: Seq<usize>) -> Seq<int> {
    Seq::new(order.len(), |i: int| order[i] as int)
}

/// A strictly ordered list of indices below `n` that holds them all is a stable order, and there is
/// only one: what `sorted_stably` holds of is fixed by the keys.
pub proof fn law_stable_order_unique(
    keys: Seq<Seq<PartView>>,
    descending: bool,
    a: Seq<int>,
    b: Seq<int>,
)
    requires
        is_stable_order(keys, descending, a),
        is_stable_order(keys, descending, b),
    ensures
        a == b,
{
    lemma_run_has(keys, descending, a, keys.len() as int);
    lemma_run_has(keys, descending, b, keys.len() as int);
    assert forall|i: int| 0 <= i < a.len() implies a[i] == b[i] by {
        lemma_runs_agree(keys, descending, a, b, i);
    }
    assert(a =~= b);
}

proof fn lemma_distinct_below(order: Seq<int>, n: int)
    requires
        0 <= n,
        order.len() == n,
        order.no_duplicates(),
        forall|i: int| 0 <= i < order.len() ==> 0 <= #[trigger] order[i] < n,
    ensures
        forall|k: int| 0 <= k < n ==> #[trigger] order.contains(k),
{
    vstd::set_lib::lemma_int_range(0, n);
    let have = order.to_set();
    order.unique_seq_to_set();
    assert(have.subset_of(vstd::set_lib::set_int_range(0, n))) by {
        assert forall|k: int| have.contains(k) implies vstd::set_lib::set_int_range(0, n).contains(k) by {
            let i = choose|i: int| 0 <= i < order.len() && order[i] == k;
        }
    }
    vstd::set_lib::lemma_subset_equality(have, vstd::set_lib::set_int_range(0, n));
    assert forall|k: int| 0 <= k < n implies #[trigger] order.contains(k) by {
        assert(vstd::set_lib::set_int_range(0, n).contains(k));
        assert(have.contains(k));
    }
}

/// A stable order lists every index.
pub proof fn lemma_run_has(keys: Seq<Seq<PartView>>, descending: bool, order: Seq<int>, n: int)
    requires
        0 <= n,
        is_run(keys, descending, order, 0, n),
    ensures
        order.no_duplicates(),
        forall|k: int| 0 <= k < n ==> #[trigger] order.contains(k),
{
    assert forall|i: int, j: int| 0 <= i < j < order.len() implies order[i] != order[j] by {
        lemma_row_before_total(keys, descending, order[i], order[i]);
    }
    lemma_distinct_below(order, n);
}

proof fn lemma_runs_agree(
    keys: Seq<Seq<PartView>>,
    descending: bool,
    a: Seq<int>,
    b: Seq<int>,
    i: int,
)
    requires
        is_stable_order(keys, descending, a),
        is_stable_order(keys, descending, b),
        forall|k: int| 0 <= k < keys.len() ==> #[trigger] a.contains(k),
        forall|k: int| 0 <= k < keys.len() ==> #[trigger] b.contains(k),
        0 <= i < a.len(),
    ensures
        a[i] == b[i],
    decreases i,
{
    assert forall|j: int| 0 <= j < i implies a[j] == b[j] by {
        lemma_runs_agree(keys, descending, a, b, j);
    }
    if a[i] != b[i] {
        assert(b.contains(a[i]));
        assert(a.contains(b[i]));
        let p = choose|p: int| 0 <= p < b.len() && b[p] == a[i];
        let q = choose|q: int| 0 <= q < a.len() && a[q] == b[i];
        lemma_row_before_total(keys, descending, a[i], b[i]);
        lemma_row_before_total(keys, descending, b[i], a[i]);
        if p < i {
            assert(a[p] == b[p]);
            assert(row_before(keys, descending, a[p], a[i]));
            lemma_row_before_total(keys, descending, a[i], a[i]);
        }
        if q < i {
            assert(a[q] == b[q]);
            assert(row_before(keys, descending, b[q], b[i]));
            lemma_row_before_total(keys, descending, b[i], b[i]);
        }
        assert(row_before(keys, descending, b[i], b[p]));
        assert(row_before(keys, descending, a[i], a[q]));
    }
}

/// Whether the row at `i` belongs in front of the one at `j`, where `i` is the smaller index.
fn goes_first(keys: &Vec<SortKey>, descending: bool, i: usize, j: usize) -> (r: bool)
    requires
        i < j < keys@.len(),
    ensures
        r == row_before(keys_view(keys@), descending, i as int, j as int),
{
    proof {
        law_key_order_total(keys@[i as int]@, keys@[j as int]@);
    }
    match rank_keys(&keys[i], &keys[j]) {
        Rank::Before => !descending,
        Rank::Same => true,
        Rank::After => descending,
    }
}

/// The stable order of the rows from `lo` up to `hi`, by merging the orders of the two halves.
fn sort_range(keys: &Vec<SortKey>, descending: bool, lo: usize, hi: usize) -> (r: Vec<usize>)
    requires
        lo <= hi <= keys@.len(),
    ensures
        is_run(keys_view(keys@), descending, as_ints(r@), lo as int, hi as int),
    decreases hi - lo,
{
    let ghost kv = keys_view(keys@);
    let mut out: Vec<usize> = Vec::new();
    if hi - lo == 0 {
        return out;
    }
    if hi - lo == 1 {
        out.push(lo);
        return out;
    }
    let mid: usize = lo + (hi - lo) / 2;
    let left = sort_range(keys, descending, lo, mid);
    let right = sort_range(keys, descending, mid, hi);
    let ghost lv = as_ints(left@);
    let ghost rv = as_ints(right@);
    let mut i: usize = 0;
    let mut j: usize = 0;
    while i < left.len() || j < right.len()
        invariant
            lo <= mid <= hi <= keys@.len(),
            kv == keys_view(keys@),
            lv == as_ints(left@),
            rv == as_ints(right@),
            is_run(kv, descending, lv, lo as int, mid as int),
            is_run(kv, descending, rv, mid as int, hi as int),
            i <= left@.len(),
            j <= right@.len(),
            out@.len() == i + j,
            forall|k: int| 0 <= k < out@.len() ==> lo <= #[trigger] as_ints(out@)[k] < hi,
            forall|k: int, m: int|
                0 <= k < m < out@.len() ==> row_before(
                    kv,
                    descending,
                    #[trigger] as_ints(out@)[k],
                    #[trigger] as_ints(out@)[m],
                ),
            forall|k: int, m: int|
                0 <= k < out@.len() && i <= m < left@.len() ==> row_before(
                    kv,
                    descending,
                    #[trigger] as_ints(out@)[k],
                    #[trigger] lv[m],
                ),
            forall|k: int, m: int|
                0 <= k < out@.len() && j <= m < right@.len() ==> row_before(
                    kv,
                    descending,
                    #[trigger] as_ints(out@)[k],
                    #[trigger] rv[m],
                ),
        decreases left@.len() - i + (right@.len() - j),
    {
        let ghost before = as_ints(out@);
        let from_left: bool = if i == left.len() {
            false
        } else if j == right.len() {
            true
        } else {
            assert(lv[i as int] == left@[i as int] && rv[j as int] == right@[j as int]);
            goes_first(keys, descending, left[i], right[j])
        };
        if from_left {
            let ghost x = lv[i as int];
            out.push(left[i]);
            assert(as_ints(out@) =~= before.push(x));
            proof {
                if j < right@.len() {
                    assert forall|m: int| j <= m < right@.len() implies row_before(kv, descending, x, #[trigger] rv[m]) by {
                        if j < m {
                            lemma_row_before_transitive(kv, descending, x, rv[j as int], rv[m]);
                        }
                    }
                }
            }
            i += 1;
        } else {
            let ghost x = rv[j as int];
            out.push(right[j]);
            assert(as_ints(out@) =~= before.push(x));
            proof {
                if i < left@.len() {
                    lemma_row_before_total(kv, descending, lv[i as int], x);
                    assert forall|m: int| i <= m < left@.len() implies row_before(kv, descending, x, #[trigger] lv[m]) by {
                        if i < m {
                            lemma_row_before_transitive(kv, descending, x, lv[i as int], lv[m]);
                        }
                    }
                }
            }
            j += 1;
        }
    }
    out
}

/// The rows, sorted stably by their keys.
pub fn sort_rows<T>(rows: Vec<T>, keys: &Vec<SortKey>, descending: bool) -> (r: Vec<T>)
    requires
        rows@.len() == keys@.len(),
    ensures
        sorted_stably(rows@, r@, keys_view(keys@), descending),
{
    let ghost kv = keys_view(keys@);
    let n: usize = rows.len();
    let order = sort_range(keys, descending, 0, n);
    let ghost order_view = as_ints(order@);
    assert(is_stable_order(kv, descending, order_view));
    let ghost originals = rows@;
    let mut rows = rows;
    let mut slots: Vec<Option<T>> = Vec::new();
    while rows.len() > 0
        invariant
            rows@.len() + slots@.len() == originals.len(),
            rows@ == originals.take(rows@.len() as int),
            forall|k: int| 0 <= k < slots@.len() ==> #[trigger] slots@[k] == Some(originals[originals.len() - 1 - k]),
        decreases rows@.len(),
    {
        let row = rows.pop();
        slots.push(row);
    }
    let mut out: Vec<T> = Vec::new();
    let mut k: usize = 0;
    proof {
        lemma_run_has(kv, descending, order_view, n as int);
    }
    while k < n
        invariant
            k <= n,
            n == originals.len(),
            order_view == as_ints(order@),
            order_view.len() == n,
            slots@.len() == n,
            order_view.no_duplicates(),
            forall|m: int| 0 <= m < n ==> 0 <= #[trigger] order_view[m] < n,
            out@.len() == k,
            forall|m: int| 0 <= m < k ==> out@[m] == originals[#[trigger] order_view[m]],
            forall|m: int| k <= m < n ==> slots@[n - 1 - #[trigger] order_view[m]] == Some(originals[order_view[m]]),
        decreases n - k,
    {
        assert(order_view[k as int] == order@[k as int]);
        let at: usize = n - 1 - order[k];
        let taken = slots[at].take();
        assert(taken == Some(originals[order_view[k as int]]));
        match taken {
            Some(row) => {
                out.push(row);
            },
            None => {},
        }
        k += 1;
    }
    assert(out@ =~= arrange(originals, order_view));
    out
}

/// Sorting keeps the rows: what comes out is a reordering of what went in.
pub proof fn law_sort_keeps_rows<T>(
    old_rows: Seq<T>,
    new_rows: Seq<T>,
    keys: Seq<Seq<PartView>>,
    descending: bool,
)
    requires
        old_rows.len() == keys.len(),
        sorted_stably(old_rows, new_rows, keys, descending),
    ensures
        new_rows.to_multiset() == old_rows.to_multiset(),
{
    let order = choose|order: Seq<int>| #[trigger]
        is_stable_order(keys, descending, order) && new_rows == arrange(old_rows, order);
    lemma_run_has(keys, descending, order, keys.len() as int);
    lemma_arrange_keeps(old_rows, order);
}

proof fn lemma_arrange_keeps<T>(rows: Seq<T>, order: Seq<int>)
    requires
        order.len() == rows.len(),
        order.no_duplicates(),
        forall|i: int| 0 <= i < order.len() ==> 0 <= #[trigger] order[i] < rows.len(),
        forall|k: int| 0 <= k < rows.len() ==> #[trigger] order.contains(k),
    ensures
        arrange(rows, order).to_multiset() == rows.to_multiset(),
    decreases rows.len(),
{
    if rows.len() == 0 {
        assert(arrange(rows, order) =~= rows);
    } else {
        let last = rows.len() - 1;
        assert(order.contains(last));
        let p = choose|p: int| 0 <= p < order.len() && order[p] == last;
        let shorter = order.remove(p);
        let fewer = rows.drop_last();
        assert forall|i: int| 0 <= i < shorter.len() implies 0 <= #[trigger] shorter[i] < fewer.len() by {
            let at = if i < p { i } else { i + 1 };
            assert(shorter[i] == order[at]);
            assert(order[at] != order[p]);
        }
        assert(shorter.no_duplicates()) by {
            assert forall|i: int, j: int| 0 <= i < j < shorter.len() implies shorter[i] != shorter[j] by {
                let ai = if i < p { i } else { i + 1 };
                let aj = if j < p { j } else { j + 1 };
                assert(shorter[i] == order[ai] && shorter[j] == order[aj]);
            }
        }
        assert forall|k: int| 0 <= k < fewer.len() implies #[trigger] shorter.contains(k) by {
            assert(order.contains(k));
            let at = choose|at: int| 0 <= at < order.len() && order[at] == k;
            let i = if at < p { at } else { at - 1 };
            assert(shorter[i] == k);
        }
        lemma_arrange_keeps(fewer, shorter);
        assert(arrange(fewer, shorter) =~= arrange(rows, order).remove(p)) by {
            assert forall|i: int| 0 <= i < shorter.len() implies arrange(fewer, shorter)[i] == arrange(rows, order).remove(p)[i] by {
                let at = if i < p { i } else { i + 1 };
                assert(shorter[i] == order[at]);
            }
        }
        let out = arrange(rows, order);
        vstd::seq_lib::to_multiset_remove(out, p);
        vstd::seq_lib::to_multiset_remove(rows, last);
        assert(rows.remove(last) =~= fewer);
        assert(out[p] == rows[last]);
        assert(out.to_multiset().count(out[p]) > 0) by {
            vstd::seq_lib::to_multiset_contains(out, out[p]);
        }
        assert(rows.to_multiset().count(rows[last]) > 0) by {
            vstd::seq_lib::to_multiset_contains(rows, rows[last]);
        }
        assert(out.to_multiset() =~= rows.to_multiset()) by {
            assert(out.to_multiset() =~= out.to_multiset().remove(out[p]).insert(out[p]));
            assert(rows.to_multiset() =~= rows.to_multiset().remove(rows[last]).insert(rows[last]));
        }
    }
}

} // verus!
