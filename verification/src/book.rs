//! The scans of disks: their results, those that run, and those that failed.

use vstd::prelude::*;

use crate::clock::Span;
use crate::clock::Timestamp;
use crate::events::Moment;
use crate::keyed::DiskUsageKey;
use crate::keyed::UsageMap;
use crate::model::copy_usage;
use crate::model::views;
use crate::model::DiskUserUsage;
use crate::model::UsageView;
use crate::slurm::DiskUsageProgress;
use crate::stamp::displayable;
use crate::stamp::is_displayable;
use crate::wording::inconclusive;
use crate::wording::is_inconclusive_zero_usage;

verus! {

/// A result of a scan.
#[derive(Debug)]
pub struct DiskUsageCacheEntry {
    pub rows: Vec<DiskUserUsage>,
    pub captured_at: Timestamp,
}

/// A scan that runs.
#[derive(Debug, Clone, Copy, PartialEq, Eq, Structural)]
pub struct DiskUsageScan {
    pub id: u64,
    pub started_at: Moment,
    pub timeout: Option<Span>,
    pub progress: Option<DiskUsageProgress>,
}

/// A scan that failed.
#[derive(Debug)]
pub struct DiskUsageError {
    pub message: String,
    pub occurred_at: Timestamp,
}

/// What is known of a disk and a user.
pub type Key = (Seq<char>, Seq<char>);

/// Whether every result has a date that can be shown.
pub open spec fn cache_dated(cache: Map<Key, DiskUsageCacheEntry>) -> bool {
    forall|k: Key| #[trigger] cache.contains_key(k) ==> displayable(cache[k].captured_at)
}

/// Whether every error has a date that can be shown.
pub open spec fn errors_dated(errors: Map<Key, DiskUsageError>) -> bool {
    forall|k: Key| #[trigger] errors.contains_key(k) ==> displayable(errors[k].occurred_at)
}

/// The rows that are kept of a result: none where it says nothing.
pub open spec fn kept_rows(rows: Seq<UsageView>) -> Seq<UsageView> {
    if inconclusive(rows) {
        seq![]
    } else {
        rows
    }
}

/// The scans of disks: their results, those that run, and those that failed.
#[derive(Debug)]
pub struct ScanBook {
    pub cache: UsageMap<DiskUsageCacheEntry>,
    pub scans: UsageMap<DiskUsageScan>,
    pub errors: UsageMap<DiskUsageError>,
    pub next_id: u64,
}

/// What comes of asking for a scan.
#[derive(Debug, Clone, Copy, PartialEq, Eq, Structural)]
pub enum ScanAnswer {
    /// One with this time limit runs already.
    Running(Option<Span>),
    /// One with this number is to be started, in place of the one with the other number.
    Start { id: u64, replaces: Option<u64> },
}

impl ScanBook {
    /// Whether results and errors have dates that can be shown.
    pub open spec fn wf(self) -> bool {
        cache_dated(self.cache@) && errors_dated(self.errors@)
    }

    /// Whether a scan with this number runs for this disk and user.
    pub open spec fn runs(self, key: Key, id: u64) -> bool {
        self.scans@.contains_key(key) && self.scans@[key].id == id
    }

    /// The rows of a result that is known.
    pub open spec fn rows_of(self, key: Key) -> Seq<UsageView> {
        if self.cache@.contains_key(key) {
            views(self.cache@[key].rows@)
        } else {
            seq![]
        }
    }

    /// A book with results from before.
    pub fn new(cache: UsageMap<DiskUsageCacheEntry>) -> (r: Self)
        requires
            cache_dated(cache@),
        ensures
            r.wf(),
            r.cache == cache,
            r.scans@ == Map::<Key, DiskUsageScan>::empty(),
            r.errors@ == Map::<Key, DiskUsageError>::empty(),
            r.next_id == 1,
    {
        ScanBook { cache, scans: UsageMap::new(), errors: UsageMap::new(), next_id: 1 }
    }

    /// Whether a scan with this number runs for this disk and user.
    pub fn is_running(&self, key: &DiskUsageKey, id: u64) -> (r: bool)
        ensures
            r == self.runs(key@, id),
    {
        match self.scans.get(key) {
            Some(scan) => scan.id == id,
            None => false,
        }
    }

    /// Whether `post` is the book after a scan came to a result.
    pub open spec fn finished(self, post: ScanBook, key: Key, rows: Seq<UsageView>, now: Timestamp) -> bool {
        let entry = post.cache@[key];
        &&& post.scans@ == self.scans@.remove(key)
        &&& post.errors@ == self.errors@.remove(key)
        &&& post.cache@ == self.cache@.insert(key, entry)
        &&& views(entry.rows@) == kept_rows(rows)
        &&& entry.captured_at == now
        &&& post.next_id == self.next_id
    }

    /// Keeps the result of a scan, which runs no longer; says how many rows it has.
    pub fn finish(&mut self, key: DiskUsageKey, rows: Vec<DiskUserUsage>, now: Timestamp) -> (r: usize)
        requires
            old(self).wf(),
            displayable(now),
        ensures
            old(self).finished(*final(self), key@, views(rows@), now),
            r == kept_rows(views(rows@)).len(),
            final(self).wf(),
    {
        let ghost given = views(rows@);
        let mut rows = rows;
        if is_inconclusive_zero_usage(rows.as_slice()) {
            rows.clear();
            assert(views(rows@) =~= seq![]);
        }
        assert(views(rows@) == kept_rows(given));
        let len: usize = rows.len();
        self.scans.remove(&key);
        self.errors.remove(&key);
        self.cache.insert(key, DiskUsageCacheEntry { rows, captured_at: now });
        len
    }

    /// Whether `post` is the book after a scan failed.
    pub open spec fn failed(self, post: ScanBook, key: Key, error: Seq<char>, now: Timestamp) -> bool {
        let entry = post.errors@[key];
        &&& post.scans@ == self.scans@.remove(key)
        &&& post.errors@ == self.errors@.insert(key, entry)
        &&& entry.message@ == error
        &&& entry.occurred_at == now
        &&& post.cache == self.cache
        &&& post.next_id == self.next_id
    }

    /// Keeps the error of a scan, which runs no longer.
    pub fn fail(&mut self, key: DiskUsageKey, error: String, now: Timestamp)
        requires
            old(self).wf(),
            displayable(now),
        ensures
            old(self).failed(*final(self), key@, error@, now),
            final(self).wf(),
    {
        self.scans.remove(&key);
        self.errors.insert(key, DiskUsageError { message: error, occurred_at: now });
    }

    /// Whether `post` is the book after a scan reported how far it is.
    pub open spec fn progressed(self, post: ScanBook, key: Key, id: u64, progress: DiskUsageProgress) -> bool {
        &&& post.scans@ == if self.runs(key, id) {
            self.scans@.insert(key, DiskUsageScan { progress: Some(progress), ..self.scans@[key] })
        } else {
            self.scans@
        }
        &&& post.cache == self.cache
        &&& post.errors == self.errors
        &&& post.next_id == self.next_id
    }

    /// Takes a report of a scan in, where it is the one that runs.
    pub fn note_progress(&mut self, key: DiskUsageKey, id: u64, progress: DiskUsageProgress)
        requires
            old(self).wf(),
        ensures
            old(self).progressed(*final(self), key@, id, progress),
            final(self).wf(),
    {
        let running: Option<DiskUsageScan> = match self.scans.get(&key) {
            Some(scan) => Some(*scan),
            None => None,
        };
        if let Some(scan) = running {
            if scan.id == id {
                self.scans.insert(
                    key,
                    DiskUsageScan {
                        id: scan.id,
                        started_at: scan.started_at,
                        timeout: scan.timeout,
                        progress: Some(progress),
                    },
                );
            }
        }
    }

    /// What comes of asking for a scan: one that runs is left alone, unless it has a time limit, the
    /// new one has none, and it may be replaced.
    pub open spec fn answer(self, key: Key, timeout: Option<Span>, replace: bool) -> ScanAnswer {
        let scan = self.scans@[key];
        if !self.scans@.contains_key(key) {
            ScanAnswer::Start { id: self.next_id, replaces: None }
        } else if replace && scan.timeout is Some && timeout is None {
            ScanAnswer::Start { id: self.next_id, replaces: Some(scan.id) }
        } else {
            ScanAnswer::Running(scan.timeout)
        }
    }

    /// Whether `post` is the book after a scan was asked for.
    pub open spec fn asked(
        self,
        post: ScanBook,
        key: Key,
        timeout: Option<Span>,
        replace: bool,
        now: Moment,
    ) -> bool {
        match self.answer(key, timeout, replace) {
            ScanAnswer::Running(_) => post == self,
            ScanAnswer::Start { id, .. } => {
                &&& post.errors@ == self.errors@.remove(key)
                &&& post.scans@ == self.scans@.insert(
                    key,
                    DiskUsageScan { id, started_at: now, timeout, progress: None },
                )
                &&& post.cache == self.cache
                &&& post.next_id == if id == u64::MAX {
                    0
                } else {
                    id + 1
                }
            },
        }
    }

    /// Asks for a scan.
    pub fn ask(&mut self, key: &DiskUsageKey, timeout: Option<Span>, replace: bool, now: Moment) -> (r:
        ScanAnswer)
        requires
            old(self).wf(),
        ensures
            r == old(self).answer(key@, timeout, replace),
            old(self).asked(*final(self), key@, timeout, replace, now),
            final(self).wf(),
    {
        let running: Option<DiskUsageScan> = match self.scans.get(key) {
            Some(scan) => Some(*scan),
            None => None,
        };
        let mut replaces: Option<u64> = None;
        if let Some(scan) = running {
            let replace_running: bool = replace && scan.timeout.is_some() && timeout.is_none();
            if !replace_running {
                return ScanAnswer::Running(scan.timeout);
            }
            replaces = Some(scan.id);
        }
        self.errors.remove(key);
        let id: u64 = self.next_id;
        self.next_id = id.wrapping_add(1);
        self.scans.insert(
            key.clone(),
            DiskUsageScan { id, started_at: now, timeout, progress: None },
        );
        ScanAnswer::Start { id, replaces }
    }

    /// Whether `post` is the book with one more error.
    pub open spec fn noted(self, post: ScanBook, key: Key, error: Seq<char>, now: Timestamp) -> bool {
        let entry = post.errors@[key];
        &&& post.errors@ == self.errors@.insert(key, entry)
        &&& entry.message@ == error
        &&& entry.occurred_at == now
        &&& post == (ScanBook { errors: post.errors, ..self })
    }

    /// Keeps an error without a scan.
    pub fn note_error(&mut self, key: DiskUsageKey, error: &str, now: Timestamp)
        requires
            old(self).wf(),
            displayable(now),
        ensures
            old(self).noted(*final(self), key@, error@, now),
            final(self).wf(),
    {
        self.errors.insert(key, DiskUsageError { message: error.to_string(), occurred_at: now });
    }
}

/// A scan that is replaced runs no longer, and its successor does.
pub proof fn law_replaced_scan_is_stale(
    pre: ScanBook,
    post: ScanBook,
    key: Key,
    now: Moment,
    old_id: u64,
)
    requires
        pre.runs(key, old_id),
        old_id != pre.next_id,
        pre.scans@[key].timeout is Some,
        pre.asked(post, key, None, true, now),
    ensures
        !post.runs(key, old_id),
        post.runs(key, pre.next_id),
{
}

/// A scan that finished or failed runs no longer, so a second result of it is stale.
pub proof fn law_finished_scan_is_stale(
    pre: ScanBook,
    post: ScanBook,
    key: Key,
    id: u64,
    rows: Seq<UsageView>,
    error: Seq<char>,
    now: Timestamp,
)
    requires
        pre.finished(post, key, rows, now) || pre.failed(post, key, error, now),
    ensures
        !post.runs(key, id),
{
}

/// What a scan came to is what is shown of the disk and user, with nothing of other disks changed.
pub proof fn law_result_is_kept(
    pre: ScanBook,
    post: ScanBook,
    key: Key,
    other: Key,
    rows: Seq<UsageView>,
    now: Timestamp,
)
    requires
        pre.finished(post, key, rows, now),
        other != key,
    ensures
        post.rows_of(key) == kept_rows(rows),
        post.rows_of(other) == pre.rows_of(other),
        !post.errors@.contains_key(key),
{
}

/// An entry of a cache file.
#[derive(Debug)]
pub struct CacheRecord {
    pub key: DiskUsageKey,
    pub value: DiskUsageCacheEntry,
}

/// Whether a record is worth keeping.
pub open spec fn worth_keeping(record: CacheRecord) -> bool {
    !inconclusive(views(record.value.rows@))
}

/// The results that the records of a cache file say, in a later record over an earlier one; those that
/// say nothing are left out.
pub open spec fn cache_of(records: Seq<CacheRecord>) -> Map<Key, DiskUsageCacheEntry>
    decreases records.len(),
{
    if records.len() == 0 {
        Map::empty()
    } else {
        let before = cache_of(records.drop_last());
        if worth_keeping(records.last()) {
            before.insert(records.last().key@, records.last().value)
        } else {
            before
        }
    }
}

/// Whether every record that is kept has a date that can be shown.
pub open spec fn records_dated(records: Seq<CacheRecord>) -> bool {
    forall|i: int|
        0 <= i < records.len() && worth_keeping(#[trigger] records[i]) ==> displayable(
            records[i].value.captured_at,
        )
}

/// Whether every record that is kept has a date that can be shown.
pub fn are_records_dated(records: &Vec<CacheRecord>) -> (r: bool)
    ensures
        r == records_dated(records@),
{
    let mut i: usize = 0;
    while i < records.len()
        invariant
            i <= records@.len(),
            forall|k: int|
                0 <= k < i && worth_keeping(#[trigger] records@[k]) ==> displayable(
                    records@[k].value.captured_at,
                ),
        decreases records@.len() - i,
    {
        if !is_inconclusive_zero_usage(records[i].value.rows.as_slice()) && !is_displayable(
            records[i].value.captured_at,
        ) {
            assert(worth_keeping(records@[i as int]));
            return false;
        }
        i += 1;
    }
    true
}

/// The items in reverse.
fn reversed<T>(items: Vec<T>) -> (r: Vec<T>)
    ensures
        r@.len() == items@.len(),
        forall|i: int| 0 <= i < r@.len() ==> #[trigger] r@[i] == items@[items@.len() - 1 - i],
{
    let ghost all = items@;
    let mut items = items;
    let mut out: Vec<T> = Vec::new();
    while items.len() > 0
        invariant
            items@.len() + out@.len() == all.len(),
            items@ == all.take(items@.len() as int),
            forall|i: int| 0 <= i < out@.len() ==> #[trigger] out@[i] == all[all.len() - 1 - i],
        decreases items@.len(),
    {
        if let Some(item) = items.pop() {
            out.push(item);
        }
    }
    out
}

/// The version of the cache file.
pub const CACHE_VERSION: u8 = 1;

/// The results that the records of a cache file say, and whether some were left out. A file of
/// another version says nothing.
pub fn load_cache(version: u8, records: Vec<CacheRecord>) -> (r: (UsageMap<DiskUsageCacheEntry>, bool))
    requires
        records_dated(records@),
    ensures
        r.0@ == if version == CACHE_VERSION {
            cache_of(records@)
        } else {
            Map::<Key, DiskUsageCacheEntry>::empty()
        },
        r.1 == (version == CACHE_VERSION && exists|i: int| 0 <= i < records@.len() && !worth_keeping(#[trigger] records@[i])),
        cache_dated(r.0@),
{
    let mut cache: UsageMap<DiskUsageCacheEntry> = UsageMap::new();
    let mut dropped: bool = false;
    if version != CACHE_VERSION {
        return (cache, dropped);
    }
    let ghost all = records@;
    let mut rest = reversed(records);
    let ghost mut done: int = 0;
    proof {
        assert(all.take(0) =~= Seq::empty());
    }
    while rest.len() > 0
        invariant
            0 <= done <= all.len(),
            rest@.len() == all.len() - done,
            forall|i: int| 0 <= i < rest@.len() ==> #[trigger] rest@[i] == all[all.len() - 1 - i],
            records_dated(all),
            cache@ == cache_of(all.take(done)),
            cache_dated(cache@),
            dropped == exists|i: int| 0 <= i < done && !worth_keeping(#[trigger] all[i]),
        decreases rest@.len(),
    {
        proof {
            assert(all.take(done + 1).drop_last() =~= all.take(done));
            assert(rest@.last() == all[done]);
        }
        if let Some(record) = rest.pop() {
            assert(record == all[done]);
            if is_inconclusive_zero_usage(record.value.rows.as_slice()) {
                dropped = true;
            } else {
                cache.insert(record.key, record.value);
            }
        }
        proof {
            done = done + 1;
        }
    }
    proof {
        assert(all.take(done) =~= all);
    }
    (cache, dropped)
}

/// What a result says, and when it came.
pub open spec fn said(entry: DiskUsageCacheEntry) -> (Seq<UsageView>, Timestamp) {
    (views(entry.rows@), entry.captured_at)
}

/// What the results of a cache say, and when they came.
pub open spec fn all_said(cache: Map<Key, DiskUsageCacheEntry>) -> Map<Key, (Seq<UsageView>, Timestamp)> {
    cache.map_values(|entry: DiskUsageCacheEntry| said(entry))
}

/// Whether every result of a cache says something.
pub open spec fn conclusive(cache: Map<Key, DiskUsageCacheEntry>) -> bool {
    forall|k: Key| #[trigger] cache.contains_key(k) ==> !inconclusive(views(cache[k].rows@))
}

/// Whether a record says what a cache says of its key.
pub open spec fn repeats(cache: Map<Key, DiskUsageCacheEntry>, record: CacheRecord) -> bool {
    cache.contains_key(record.key@) && said(record.value) == said(cache[record.key@])
}

/// Whether the records list the results of a cache: each of them once, and nothing else.
pub open spec fn lists(records: Seq<CacheRecord>, cache: Map<Key, DiskUsageCacheEntry>) -> bool {
    &&& forall|i: int| 0 <= i < records.len() ==> repeats(cache, #[trigger] records[i])
    &&& forall|i: int, j: int|
        0 <= i < j < records.len() ==> (#[trigger] records[i]).key@ != (#[trigger] records[j]).key@
    &&& forall|k: Key| #[trigger]
        cache.contains_key(k) ==> exists|i: int| 0 <= i < records.len() && (#[trigger] records[i]).key@ == k
}

/// The records of a cache file that hold the results of a cache.
pub fn cache_records(cache: &UsageMap<DiskUsageCacheEntry>) -> (r: Vec<CacheRecord>)
    ensures
        lists(r@, cache@),
{
    let n: usize = cache.len();
    let mut records: Vec<CacheRecord> = Vec::new();
    let mut i: usize = 0;
    while i < n
        invariant
            i <= n,
            n == cache.count(),
            records@.len() == i,
            forall|k: int|
                0 <= k < i ==> (#[trigger] records@[k]).key@ == cache.key(k) && repeats(cache@, records@[k]),
        decreases n - i,
    {
        let (key, value) = cache.entry(i);
        let entry = DiskUsageCacheEntry {
            rows: copy_usage(&value.rows),
            captured_at: value.captured_at,
        };
        records.push(CacheRecord { key: key.clone(), value: entry });
        i += 1;
    }
    assert forall|k: Key| #[trigger] cache@.contains_key(k) implies exists|i: int|
        0 <= i < records@.len() && (#[trigger] records@[i]).key@ == k by {
        let i = choose|i: int| 0 <= i < n && #[trigger] cache.key(i) == k;
        assert(records@[i].key@ == k);
    }
    assert forall|i: int, j: int| 0 <= i < j < records@.len() implies (#[trigger] records@[i]).key@
        != (#[trigger] records@[j]).key@ by {
        assert(cache.key(i) != cache.key(j));
    }
    records
}

/// The keys of a cache file's records, and what the last record of each says.
proof fn lemma_cache_of(records: Seq<CacheRecord>, cache: Map<Key, DiskUsageCacheEntry>)
    requires
        conclusive(cache),
        forall|i: int| 0 <= i < records.len() ==> repeats(cache, #[trigger] records[i]),
    ensures
        forall|k: Key| #[trigger]
            cache_of(records).contains_key(k) <==> exists|i: int|
                0 <= i < records.len() && (#[trigger] records[i]).key@ == k,
        forall|k: Key| #[trigger]
            cache_of(records).contains_key(k) ==> cache.contains_key(k) && said(cache_of(records)[k]) == said(
                cache[k],
            ),
    decreases records.len(),
{
    if records.len() > 0 {
        let fewer = records.drop_last();
        let last = records.last();
        assert forall|i: int| 0 <= i < fewer.len() implies repeats(cache, #[trigger] fewer[i]) by {
            assert(fewer[i] == records[i]);
        }
        lemma_cache_of(fewer, cache);
        assert(repeats(cache, records[records.len() - 1]));
        assert(worth_keeping(last));
        assert forall|k: Key| #[trigger]
            cache_of(records).contains_key(k) <==> exists|i: int|
                0 <= i < records.len() && (#[trigger] records[i]).key@ == k by {
            if cache_of(records).contains_key(k) {
                if k == last.key@ {
                    assert(records[records.len() - 1].key@ == k);
                } else {
                    assert(cache_of(fewer).contains_key(k));
                    let i = choose|i: int| 0 <= i < fewer.len() && (#[trigger] fewer[i]).key@ == k;
                    assert(records[i].key@ == k);
                }
            }
            if exists|i: int| 0 <= i < records.len() && (#[trigger] records[i]).key@ == k {
                let i = choose|i: int| 0 <= i < records.len() && (#[trigger] records[i]).key@ == k;
                if i < fewer.len() {
                    assert(fewer[i].key@ == k);
                    assert(cache_of(fewer).contains_key(k));
                }
            }
        }
        assert forall|k: Key| #[trigger] cache_of(records).contains_key(k) implies cache.contains_key(k)
            && said(cache_of(records)[k]) == said(cache[k]) by {
            if k != last.key@ {
                assert(cache_of(fewer).contains_key(k));
            }
        }
    }
}

/// A cache file gives back the results that it was written from.
pub proof fn law_cache_reads_back(records: Seq<CacheRecord>, cache: Map<Key, DiskUsageCacheEntry>)
    requires
        lists(records, cache),
        conclusive(cache),
    ensures
        all_said(cache_of(records)) == all_said(cache),
{
    lemma_cache_of(records, cache);
    assert forall|k: Key| #![auto] cache_of(records).contains_key(k) <==> cache.contains_key(k) by {
        if cache_of(records).contains_key(k) {
            let i = choose|i: int| 0 <= i < records.len() && (#[trigger] records[i]).key@ == k;
            assert(repeats(cache, records[i]));
        }
    }
    assert(all_said(cache_of(records)) =~= all_said(cache));
}

/// Every result that a cache file gives says something.
pub proof fn law_file_is_conclusive(records: Seq<CacheRecord>)
    ensures
        conclusive(cache_of(records)),
    decreases records.len(),
{
    if records.len() > 0 {
        law_file_is_conclusive(records.drop_last());
    }
}

/// Where every result says something, the result of another scan leaves it so.
pub proof fn law_scan_is_conclusive(
    pre: ScanBook,
    post: ScanBook,
    key: Key,
    rows: Seq<UsageView>,
    now: Timestamp,
)
    requires
        conclusive(pre.cache@),
        pre.finished(post, key, rows, now),
    ensures
        conclusive(post.cache@),
{
}

} // verus!
