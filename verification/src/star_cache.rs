//! The cache-file watcher's core logic: the watched-file name filter, the
//! bounded consistency-retry protocol that trusts a snapshot only after
//! two consecutive reads hash identically, and the sorted,
//! high-water-marked emission of new entries.
//!
//! Reading the cache is left to an outer shell: the game client mutates
//! the files concurrently, so a single read may be torn. The shell reads
//! a snapshot, hands its hash (or the fact that the read failed) to a
//! [`StabilityRound`], and repeats until the round accepts or gives up;
//! an accepted snapshot then goes through [`StarCache::accept_snapshot`].

use vstd::prelude::*;
use crate::snapshot::CacheEntry;
use crate::snapshot::entry_model;
use crate::snapshot::snapshot_model;
use crate::strutil::has_prefix;
use crate::strutil::is_prefix;
use crate::strutil::str_eq;

verus! {

/// The files that hold cache entries: `index` and `data_*`.
pub open spec fn cache_file_name(name: Seq<char>) -> bool {
    name == "index"@ || is_prefix("data_"@, name)
}

/// Is `name` one of the cache's entry files?
pub fn is_cache_file(name: &str) -> (r: bool)
    ensures
        r == cache_file_name(name@),
{
    str_eq(name, "index") || has_prefix(name, "data_")
}

/// What one read attempt did to a stability round.
#[derive(Debug, PartialEq, Eq, Structural)]
pub enum SnapshotOutcome {
    /// Two consecutive reads hashed identically: the snapshot is stable.
    Accepted,
    /// Not stable yet; read again.
    Retry,
    /// The retry budget is exhausted; report the cache as unstable.
    Unstable,
}

/// One round of the consistency-retry protocol, run per change
/// notification. A snapshot is accepted only when its content hash
/// equals the previous successful read's hash; each rejected or failed
/// read spends one attempt of a bounded budget, so a cache under
/// sustained writes surfaces `Unstable` instead of spinning forever.
#[derive(Debug)]
pub struct StabilityRound {
    pub previous: Option<u64>,
    pub attempts: u32,
    pub limit: u32,
}

impl StabilityRound {
    /// The attempt budget is never overspent.
    pub open spec fn inv(&self) -> bool {
        self.attempts <= self.limit
    }

    /// A fresh round with the given attempt budget.
    pub fn new(limit: u32) -> (r: Self)
        requires
            limit >= 1,
        ensures
            r.previous is None,
            r.attempts == 0,
            r.limit == limit,
            r.inv(),
    {
        StabilityRound { previous: None, attempts: 0, limit }
    }

    /// Offer the content hash of a successful read. The snapshot is
    /// accepted if and only if the previous read of this round hashed
    /// identically; otherwise the hash is kept for the next comparison
    /// and one attempt is spent.
    pub fn offer(&mut self, hash: u64) -> (r: SnapshotOutcome)
        requires
            old(self).attempts < old(self).limit,
        ensures
            (r == SnapshotOutcome::Accepted) <==> old(self).previous == Some(hash),
            r == SnapshotOutcome::Accepted ==> *final(self) == *old(self),
            r != SnapshotOutcome::Accepted ==> final(self).previous == Some(hash)
                && final(self).attempts == old(self).attempts + 1
                && final(self).limit == old(self).limit,
            (r == SnapshotOutcome::Unstable) <==> (old(self).previous != Some(hash)
                && old(self).attempts + 1 >= old(self).limit),
            final(self).inv(),
    {
        let accepted = match self.previous {
            Some(prev) => prev == hash,
            None => false,
        };
        if accepted {
            SnapshotOutcome::Accepted
        } else {
            self.previous = Some(hash);
            self.attempts = self.attempts + 1;
            if self.attempts >= self.limit {
                SnapshotOutcome::Unstable
            } else {
                SnapshotOutcome::Retry
            }
        }
    }

    /// Note a failed (torn or undecodable) read: one attempt is spent,
    /// the remembered hash is unchanged, and the snapshot is never
    /// accepted.
    pub fn note_failed_read(&mut self) -> (r: SnapshotOutcome)
        requires
            old(self).attempts < old(self).limit,
        ensures
            final(self).previous == old(self).previous,
            final(self).attempts == old(self).attempts + 1,
            final(self).limit == old(self).limit,
            r != SnapshotOutcome::Accepted,
            (r == SnapshotOutcome::Unstable) <==> old(self).attempts + 1 >= old(self).limit,
            final(self).inv(),
    {
        self.attempts = self.attempts + 1;
        if self.attempts >= self.limit {
            SnapshotOutcome::Unstable
        } else {
            SnapshotOutcome::Retry
        }
    }
}

/// Insert `x` into `s` from the right: after every element whose
/// timestamp is at most `x`'s, before every later one.
pub open spec fn insert_sorted(s: Seq<(Seq<char>, i64)>, x: (Seq<char>, i64)) -> Seq<
    (Seq<char>, i64),
>
    decreases s.len(),
{
    if s.len() == 0 {
        seq![x]
    } else if s.last().1 <= x.1 {
        s.push(x)
    } else {
        insert_sorted(s.drop_last(), x).push(s.last())
    }
}

/// Stable sort by last-used timestamp, ascending: entries with equal
/// timestamps keep their read order.
pub open spec fn sort_by_ts(s: Seq<(Seq<char>, i64)>) -> Seq<(Seq<char>, i64)>
    decreases s.len(),
{
    if s.len() == 0 {
        Seq::<(Seq<char>, i64)>::empty()
    } else {
        insert_sorted(sort_by_ts(s.drop_last()), s.last())
    }
}

/// Timestamps ascend.
pub open spec fn sorted_by_ts(s: Seq<(Seq<char>, i64)>) -> bool {
    forall|i: int, j: int| 0 <= i < j < s.len() ==> s[i].1 <= s[j].1
}

/// The subsequence of entries newer than the high-water mark.
pub open spec fn keep_new(s: Seq<(Seq<char>, i64)>, hwm: i64) -> Seq<(Seq<char>, i64)>
    decreases s.len(),
{
    if s.len() == 0 {
        Seq::<(Seq<char>, i64)>::empty()
    } else if s.last().1 > hwm {
        keep_new(s.drop_last(), hwm).push(s.last())
    } else {
        keep_new(s.drop_last(), hwm)
    }
}

/// The URL of each model entry, in order.
pub open spec fn model_urls(s: Seq<(Seq<char>, i64)>) -> Seq<Seq<char>> {
    s.map_values(|p: (Seq<char>, i64)| p.0)
}

/// The view of each owned string, in order.
pub open spec fn url_views(v: Seq<String>) -> Seq<Seq<char>> {
    v.map_values(|u: String| u@)
}

/// The new entries of a snapshot: sorted by timestamp, restricted to
/// those newer than the high-water mark.
pub open spec fn new_entries(s: Seq<(Seq<char>, i64)>, hwm: i64) -> Seq<(Seq<char>, i64)> {
    keep_new(sort_by_ts(s), hwm)
}

/// Inserting at the boundary position `j` — everything at or after `j`
/// strictly newer than `x`, the element just before `j` (if any) not —
/// is what `insert_sorted` does.
proof fn lemma_insert_at(s: Seq<(Seq<char>, i64)>, x: (Seq<char>, i64), j: int)
    requires
        0 <= j <= s.len(),
        forall|k: int| j <= k < s.len() ==> s[k].1 > x.1,
        j > 0 ==> s[j - 1].1 <= x.1,
    ensures
        insert_sorted(s, x) == s.insert(j, x),
    decreases s.len(),
{
    if s.len() == 0 {
        assert(insert_sorted(s, x) =~= s.insert(0, x));
    } else if s.last().1 <= x.1 {
        assert(j == s.len());
        assert(insert_sorted(s, x) =~= s.insert(j, x));
    } else {
        assert(j < s.len());
        lemma_insert_at(s.drop_last(), x, j);
        assert(insert_sorted(s, x) == s.drop_last().insert(j, x).push(s.last()));
        assert(s.drop_last().insert(j, x).push(s.last()) =~= s.insert(j, x));
    }
}

/// `insert_sorted` keeps a sorted sequence sorted, and introduces no
/// timestamp above the maximum of `x`'s and the old last one's.
proof fn lemma_insert_sorted_sorted(s: Seq<(Seq<char>, i64)>, x: (Seq<char>, i64))
    requires
        sorted_by_ts(s),
    ensures
        sorted_by_ts(insert_sorted(s, x)),
        forall|i: int| 0 <= i < insert_sorted(s, x).len() ==> insert_sorted(s, x)[i].1 <= (
        if s.len() > 0 && s.last().1 > x.1 {
            s.last().1
        } else {
            x.1
        }),
    decreases s.len(),
{
    if s.len() == 0 {
    } else if s.last().1 <= x.1 {
    } else {
        assert(sorted_by_ts(s.drop_last()));
        lemma_insert_sorted_sorted(s.drop_last(), x);
    }
}

/// The stable sort really sorts.
pub proof fn lemma_sort_by_ts_sorted(s: Seq<(Seq<char>, i64)>)
    ensures
        sorted_by_ts(sort_by_ts(s)),
    decreases s.len(),
{
    if s.len() > 0 {
        lemma_sort_by_ts_sorted(s.drop_last());
        lemma_insert_sorted_sorted(sort_by_ts(s.drop_last()), s.last());
    }
}

/// Restricting a sorted sequence to entries above the high-water mark
/// keeps it sorted and below its old maximum; so the watcher emits new
/// entries in chronological order.
pub proof fn lemma_keep_new_sorted(s: Seq<(Seq<char>, i64)>, hwm: i64)
    requires
        sorted_by_ts(s),
    ensures
        sorted_by_ts(keep_new(s, hwm)),
        forall|i: int| 0 <= i < keep_new(s, hwm).len() ==> s.len() > 0 && keep_new(s, hwm)[i].1
            <= s.last().1,
    decreases s.len(),
{
    if s.len() > 0 {
        assert(sorted_by_ts(s.drop_last()));
        lemma_keep_new_sorted(s.drop_last(), hwm);
    }
}

/// Every new entry is newer than the high-water mark.
pub proof fn lemma_keep_new_above(s: Seq<(Seq<char>, i64)>, hwm: i64)
    ensures
        forall|i: int| 0 <= i < keep_new(s, hwm).len() ==> keep_new(s, hwm)[i].1 > hwm,
    decreases s.len(),
{
    if s.len() > 0 {
        lemma_keep_new_above(s.drop_last(), hwm);
        let kd = keep_new(s.drop_last(), hwm);
        if s.last().1 > hwm {
            assert forall|i: int| 0 <= i < keep_new(s, hwm).len() implies keep_new(s, hwm)[i].1
                > hwm by {
                if i < kd.len() {
                    assert(keep_new(s, hwm)[i] == kd[i]);
                } else {
                    assert(keep_new(s, hwm)[i] == s.last());
                }
            }
        }
    }
}

/// New entries are emitted in chronological order: what the watcher
/// emits for any snapshot and high-water mark ascends by timestamp.
pub proof fn lemma_new_entries_chronological(s: Seq<(Seq<char>, i64)>, hwm: i64)
    ensures
        sorted_by_ts(new_entries(s, hwm)),
{
    lemma_sort_by_ts_sorted(s);
    lemma_keep_new_sorted(sort_by_ts(s), hwm);
}

/// Sort a snapshot's entries by last-used timestamp, ascending and
/// stable.
fn sort_entries(entries: Vec<CacheEntry>) -> (out: Vec<CacheEntry>)
    ensures
        snapshot_model(out@) == sort_by_ts(snapshot_model(entries@)),
{
    let ghost m = snapshot_model(entries@);
    let mut out: Vec<CacheEntry> = Vec::new();
    proof {
        assert(snapshot_model(out@) =~= sort_by_ts(m.take(0)));
    }
    let n = entries.len();
    for i in 0..n
        invariant
            n == entries@.len(),
            m == snapshot_model(entries@),
            out@.len() == i,
            snapshot_model(out@) == sort_by_ts(m.take(i as int)),
    {
        let e = entries[i].clone();
        let ghost before = snapshot_model(out@);
        let mut j = out.len();
        while j > 0 && out[j - 1].last_used > e.last_used
            invariant
                j <= out@.len(),
                out@.len() == i,
                before == snapshot_model(out@),
                e.last_used == m[i as int].1,
                forall|k: int| j <= k < before.len() ==> before[k].1 > m[i as int].1,
            decreases j,
        {
            j = j - 1;
        }
        out.insert(j, e);
        proof {
            assert(entry_model(e) == m[i as int]);
            lemma_insert_at(before, m[i as int], j as int);
            assert(snapshot_model(out@) =~= before.insert(j as int, m[i as int]));
            assert(m.take(i + 1).drop_last() =~= m.take(i as int));
            assert(m.take(i + 1).last() == m[i as int]);
        }
    }
    proof {
        assert(m.take(n as int) =~= m);
    }
    out
}

/// The high-water-mark owner: turns an accepted snapshot into the list
/// of new URLs, in chronological order, and advances the mark.
#[derive(Debug)]
pub struct StarCache {
    pub high_water: i64,
}

impl StarCache {
    /// Start watching: entries last used at or before `now` are never
    /// emitted.
    pub fn new(now: i64) -> (r: Self)
        ensures
            r.high_water == now,
    {
        StarCache { high_water: now }
    }

    /// Accept a stable snapshot: sort its entries by last-used
    /// timestamp, emit the URLs of those newer than the high-water mark
    /// in chronological order, and advance the mark to the newest
    /// emitted timestamp. The mark never decreases; with no new entries
    /// it is unchanged.
    pub fn accept_snapshot(&mut self, entries: Vec<CacheEntry>) -> (new_urls: Vec<String>)
        ensures
            ({
                let news = new_entries(snapshot_model(entries@), old(self).high_water);
                &&& url_views(new_urls@) == model_urls(news)
                &&& final(self).high_water == if news.len() == 0 {
                    old(self).high_water
                } else {
                    news.last().1
                }
                &&& old(self).high_water <= final(self).high_water
            }),
    {
        let ghost hwm0 = self.high_water;
        let ghost m = snapshot_model(entries@);
        let sorted = sort_entries(entries);
        let ghost ss = snapshot_model(sorted@);
        let mut new_urls: Vec<String> = Vec::new();
        let mut newest: i64 = self.high_water;
        proof {
            assert(keep_new(ss.take(0), hwm0) =~= Seq::<(Seq<char>, i64)>::empty());
            assert(url_views(new_urls@) =~= model_urls(keep_new(ss.take(0), hwm0)));
        }
        let n = sorted.len();
        for i in 0..n
            invariant
                n == sorted@.len(),
                ss == snapshot_model(sorted@),
                hwm0 == self.high_water,
                url_views(new_urls@) == model_urls(keep_new(ss.take(i as int), hwm0)),
                newest == if keep_new(ss.take(i as int), hwm0).len() == 0 {
                    hwm0
                } else {
                    keep_new(ss.take(i as int), hwm0).last().1
                },
                hwm0 <= newest,
        {
            proof {
                assert(ss.take(i + 1).drop_last() =~= ss.take(i as int));
                assert(ss.take(i + 1).last() == ss[i as int]);
                assert(ss[i as int] == entry_model(sorted@[i as int]));
            }
            if sorted[i].last_used > self.high_water {
                let ghost urls_before = new_urls@;
                new_urls.push(sorted[i].url.clone());
                newest = sorted[i].last_used;
                proof {
                    let prev = keep_new(ss.take(i as int), hwm0);
                    let cur = keep_new(ss.take(i + 1), hwm0);
                    assert(cur =~= prev.push(ss[i as int]));
                    assert(new_urls@ =~= urls_before.push(new_urls@.last()));
                    assert(new_urls@.last()@ == ss[i as int].0);
                    assert(url_views(urls_before).len() == urls_before.len());
                    assert(model_urls(prev).len() == prev.len());
                    assert(urls_before.len() == prev.len());
                    assert forall|k: int| 0 <= k < cur.len() implies url_views(new_urls@)[k]
                        == model_urls(cur)[k] by {
                        assert(url_views(new_urls@)[k] == new_urls@[k]@);
                        assert(model_urls(cur)[k] == cur[k].0);
                        if k < urls_before.len() {
                            assert(new_urls@[k] == urls_before[k]);
                            assert(cur[k] == prev[k]);
                            assert(url_views(urls_before)[k] == urls_before[k]@);
                            assert(model_urls(prev)[k] == prev[k].0);
                        } else {
                            assert(new_urls@[k] == new_urls@.last());
                            assert(cur[k] == ss[i as int]);
                        }
                    }
                    assert(url_views(new_urls@) =~= model_urls(cur));
                }
            }
        }
        proof {
            assert(ss.take(n as int) =~= ss);
        }
        self.high_water = newest;
        new_urls
    }
}

} // verus!
