//! The on-disk replay cache's index: a bounded least-recently-used map
//! from replay URL to cached file path. The files themselves are
//! written, copied and removed by the outer shell; this module owns the
//! index — kept in an `lru::LruCache` behind trusted wrappers — and the
//! deterministic path naming.

use vstd::prelude::*;
use std::collections::hash_map::RandomState;
use std::num::NonZeroUsize;
use crate::snapshot::fnv_fold;
use crate::snapshot::fnv_fold_bytes;
use crate::snapshot::FNV_OFFSET;

verus! {

#[verifier::external_type_specification]
#[verifier::external_body]
#[verifier::reject_recursive_types(K)]
#[verifier::reject_recursive_types(V)]
#[verifier::reject_recursive_types(S)]
pub struct ExLruCache<K, V, S>(lru::LruCache<K, V, S>);

/// What the index holds: `(url, path)` pairs, most recently used first.
pub uninterp spec fn lru_entries(c: lru::LruCache<String, String, RandomState>) -> Seq<(Seq<char>, Seq<char>)>;

/// The capacity the index was created with.
pub uninterp spec fn lru_capacity(c: lru::LruCache<String, String, RandomState>) -> nat;

/// Some pair carries key `k`.
pub open spec fn has_lru_key(s: Seq<(Seq<char>, Seq<char>)>, k: Seq<char>) -> bool {
    exists|i: int| 0 <= i < s.len() && s[i].0 == k
}

/// The position of the pair carrying key `k`.
pub open spec fn lru_key_index(s: Seq<(Seq<char>, Seq<char>)>, k: Seq<char>) -> int {
    choose|i: int| 0 <= i < s.len() && s[i].0 == k
}

/// No two pairs carry the same key.
pub open spec fn distinct_keys(s: Seq<(Seq<char>, Seq<char>)>) -> bool {
    forall|i: int, j: int| 0 <= i < j < s.len() ==> s[i].0 != s[j].0
}

/// Relies on lru::LruCache::with_hasher: a fresh, empty cache holding
/// at most `cap` entries.
#[verifier::external_body]
fn lru_new(cap: usize) -> (c: lru::LruCache<String, String, RandomState>)
    requires
        1 <= cap,
    ensures
        lru_entries(c) == Seq::<(Seq<char>, Seq<char>)>::empty(),
        lru_capacity(c) == cap,
{
    lru::LruCache::with_hasher(NonZeroUsize::new(cap).unwrap(), RandomState::new())
}

/// Relies on lru::LruCache::get: returns the key's value and promotes
/// the entry to most-recently-used; absent keys leave the cache
/// unchanged.
#[verifier::external_body]
fn lru_get(c: &mut lru::LruCache<String, String, RandomState>, k: &String) -> (r: Option<String>)
    ensures
        lru_capacity(*final(c)) == lru_capacity(*old(c)),
        !has_lru_key(lru_entries(*old(c)), k@) ==> r is None && lru_entries(*final(c))
            == lru_entries(*old(c)),
        has_lru_key(lru_entries(*old(c)), k@) ==> ({
            let s = lru_entries(*old(c));
            let i = lru_key_index(s, k@);
            &&& r matches Some(v) && v@ == s[i].1
            &&& lru_entries(*final(c)) == s.remove(i).insert(0, s[i])
        }),
{
    c.get(k).cloned()
}

/// Relies on lru::LruCache::put: an existing key's value is replaced and
/// the entry promoted, the old value returned; a new key is inserted in
/// front, evicting the least-recently-used entry when the cache is full.
#[verifier::external_body]
fn lru_put(c: &mut lru::LruCache<String, String, RandomState>, k: String, v: String) -> (r: Option<String>)
    ensures
        lru_capacity(*final(c)) == lru_capacity(*old(c)),
        has_lru_key(lru_entries(*old(c)), k@) ==> ({
            let s = lru_entries(*old(c));
            let i = lru_key_index(s, k@);
            &&& r matches Some(ov) && ov@ == s[i].1
            &&& lru_entries(*final(c)) == s.remove(i).insert(0, (k@, v@))
        }),
        !has_lru_key(lru_entries(*old(c)), k@) && lru_entries(*old(c)).len() < lru_capacity(
            *old(c),
        ) ==> r is None && lru_entries(*final(c)) == lru_entries(*old(c)).insert(0, (k@, v@)),
        !has_lru_key(lru_entries(*old(c)), k@) && lru_entries(*old(c)).len() >= lru_capacity(
            *old(c),
        ) ==> r is None && lru_entries(*final(c)) == lru_entries(*old(c)).drop_last().insert(
            0,
            (k@, v@),
        ),
{
    c.put(k, v)
}

/// Relies on lru::LruCache::pop: removes the key's entry and returns its
/// value; absent keys leave the cache unchanged.
#[verifier::external_body]
fn lru_pop(c: &mut lru::LruCache<String, String, RandomState>, k: &String) -> (r: Option<String>)
    ensures
        lru_capacity(*final(c)) == lru_capacity(*old(c)),
        !has_lru_key(lru_entries(*old(c)), k@) ==> r is None && lru_entries(*final(c))
            == lru_entries(*old(c)),
        has_lru_key(lru_entries(*old(c)), k@) ==> ({
            let s = lru_entries(*old(c));
            let i = lru_key_index(s, k@);
            &&& r matches Some(v) && v@ == s[i].1
            &&& lru_entries(*final(c)) == s.remove(i)
        }),
{
    c.pop(k)
}

/// Relies on lru::LruCache::iter: yields every entry, most recently
/// used first.
#[verifier::external_body]
fn lru_values(c: &lru::LruCache<String, String, RandomState>) -> (r: Vec<String>)
    ensures
        r@.len() == lru_entries(*c).len(),
        forall|i: int| 0 <= i < r@.len() ==> r@[i]@ == lru_entries(*c)[i].1,
{
    c.iter().map(|(_k, v)| v.clone()).collect()
}

/// Relies on lru::LruCache::clear: removes every entry.
#[verifier::external_body]
fn lru_clear(c: &mut lru::LruCache<String, String, RandomState>)
    ensures
        lru_capacity(*final(c)) == lru_capacity(*old(c)),
        lru_entries(*final(c)) == Seq::<(Seq<char>, Seq<char>)>::empty(),
{
    c.clear()
}

/// Relies on String::push_str: appends the slice's characters.
#[verifier::external_body]
fn append_str(s: &mut String, t: &str)
    ensures
        final(s)@ == old(s)@ + t@,
{
    s.push_str(t)
}

/// The character each ASCII byte decodes to.
pub open spec fn byte_chars(b: Seq<u8>) -> Seq<char> {
    b.map_values(|x: u8| x as char)
}

/// Relies on String::from_utf8: ASCII bytes decode to one character per
/// byte.
#[verifier::external_body]
fn ascii_to_string(bytes: Vec<u8>) -> (r: String)
    requires
        forall|i: int| 0 <= i < bytes@.len() ==> bytes@[i] < 128,
    ensures
        r@ == byte_chars(bytes@),
{
    String::from_utf8(bytes).unwrap()
}

/// The ASCII byte of one lower-case hex digit.
pub open spec fn hex_digit(d: u8) -> u8 {
    if d < 10 {
        (48 + d) as u8
    } else {
        (87 + d) as u8
    }
}

/// The sixteen hex digits of `h`, most significant first, as ASCII
/// bytes.
pub open spec fn hex16(h: u64) -> Seq<u8> {
    Seq::new(16, |i: int| hex_digit((((h >> (((15 - i) * 4) as u64)) & 0xf) as u8)))
}

/// The file name a URL's replay is cached under, inside `dir`: sixteen
/// hex digits of the URL's hash, with a `.rep` extension.
pub open spec fn hashed_path_spec(dir: Seq<char>, url: Seq<char>) -> Seq<char> {
    dir + "/"@ + byte_chars(hex16(fnv_fold(FNV_OFFSET, vstd::utf8::encode_utf8(url)))) + ".rep"@
}

proof fn lemma_remove_key(s: Seq<(Seq<char>, Seq<char>)>, i: int)
    requires
        distinct_keys(s),
        0 <= i < s.len(),
    ensures
        distinct_keys(s.remove(i)),
        forall|k: int| 0 <= k < s.remove(i).len() ==> s.remove(i)[k].0 != s[i].0,
    decreases s.len(),
{
    s.remove_ensures(i);
    let t = s.remove(i);
    assert forall|a: int, b: int| 0 <= a < b < t.len() implies t[a].0 != t[b].0 by {
        if a < i {
            assert(t[a] == s[a]);
        } else {
            assert(t[a] == s[a + 1]);
        }
        if b < i {
            assert(t[b] == s[b]);
        } else {
            assert(t[b] == s[b + 1]);
        }
    }
    assert forall|k: int| 0 <= k < t.len() implies t[k].0 != s[i].0 by {
        if k < i {
            assert(t[k] == s[k]);
        } else {
            assert(t[k] == s[k + 1]);
        }
    }
}

proof fn lemma_insert_front_distinct(t: Seq<(Seq<char>, Seq<char>)>, x: (Seq<char>, Seq<char>))
    requires
        distinct_keys(t),
        forall|k: int| 0 <= k < t.len() ==> t[k].0 != x.0,
    ensures
        distinct_keys(t.insert(0, x)),
{
    t.insert_ensures(0, x);
    let u = t.insert(0, x);
    assert forall|a: int, b: int| 0 <= a < b < u.len() implies u[a].0 != u[b].0 by {
        if a == 0 {
            assert(u[0] == x);
            assert(u[b] == t[b - 1]);
        } else {
            assert(u[a] == t[a - 1]);
            assert(u[b] == t[b - 1]);
        }
    }
}

/// The on-disk replay cache's index. `dir` is the cache directory; the
/// index maps each replay URL to the path its bytes were cached under.
pub struct ReplayCache {
    pub dir: String,
    pub lru: lru::LruCache<String, String, RandomState>,
}

impl ReplayCache {
    /// The `(url, path)` pairs of the index, most recently used first.
    pub open spec fn entries(&self) -> Seq<(Seq<char>, Seq<char>)> {
        lru_entries(self.lru)
    }

    /// The index's capacity.
    pub open spec fn cap(&self) -> nat {
        lru_capacity(self.lru)
    }

    /// Keys are unique, the capacity is positive, and the index never
    /// outgrows it.
    pub open spec fn inv(&self) -> bool {
        &&& distinct_keys(self.entries())
        &&& self.entries().len() <= self.cap()
        &&& self.cap() >= 1
    }

    /// A fresh, empty cache over `dir`. A zero capacity falls back to
    /// 1000 entries.
    pub fn new(dir: String, cap: usize) -> (r: Self)
        ensures
            r.dir@ == dir@,
            r.entries() == Seq::<(Seq<char>, Seq<char>)>::empty(),
            r.cap() == if cap == 0 {
                1000nat
            } else {
                cap as nat
            },
            r.inv(),
    {
        let effective = if cap == 0 {
            1000
        } else {
            cap
        };
        ReplayCache { dir, lru: lru_new(effective) }
    }

    /// The path a URL's replay is cached under.
    pub fn hashed_path_for(&self, url: &String) -> (p: String)
        ensures
            p@ == hashed_path_spec(self.dir@, url@),
    {
        let bytes = url.as_str().as_bytes_vec();
        let h = fnv_fold_bytes(FNV_OFFSET, bytes.as_slice());
        let mut hx: Vec<u8> = Vec::new();
        proof {
            assert(hx@ =~= hex16(h).take(0));
        }
        for k in 0..16usize
            invariant
                hx@ == hex16(h).take(k as int),
                forall|i: int| 0 <= i < hx@.len() ==> hx@[i] < 128,
        {
            let shift = ((15 - k) * 4) as u64;
            #[verifier::truncate]
            let d: u8 = ((h >> shift) & 0xf) as u8;
            proof {
                assert(((h >> shift) & 0xf) < 16) by (bit_vector);
            }
            let digit: u8 = if d < 10 {
                48 + d
            } else {
                87 + d
            };
            hx.push(digit);
            proof {
                assert(hex16(h).take(k + 1).drop_last() =~= hex16(h).take(k as int));
                assert(hex16(h)[k as int] == hex_digit(d));
                assert(hx@ =~= hex16(h).take(k + 1));
            }
        }
        proof {
            assert(hex16(h).take(16) =~= hex16(h));
        }
        let hex = ascii_to_string(hx);
        let mut p = String::new();
        append_str(&mut p, self.dir.as_str());
        append_str(&mut p, "/");
        append_str(&mut p, hex.as_str());
        append_str(&mut p, ".rep");
        proof {
            assert(p@ =~= hashed_path_spec(self.dir@, url@));
        }
        p
    }

    /// Look the URL up: a hit returns the cached path and promotes the
    /// entry; a miss changes nothing. Whether the path still exists on
    /// disk is the caller's to check — see [`Self::invalidate`].
    pub fn get(&mut self, url: &String) -> (r: Option<String>)
        requires
            old(self).inv(),
        ensures
            final(self).inv(),
            final(self).dir@ == old(self).dir@,
            final(self).cap() == old(self).cap(),
            !has_lru_key(old(self).entries(), url@) ==> r is None && final(self).entries()
                == old(self).entries(),
            has_lru_key(old(self).entries(), url@) ==> ({
                let s = old(self).entries();
                let i = lru_key_index(s, url@);
                &&& r matches Some(p) && p@ == s[i].1
                &&& final(self).entries() == s.remove(i).insert(0, s[i])
            }),
    {
        let ghost s = lru_entries(self.lru);
        let r = lru_get(&mut self.lru, url);
        proof {
            if has_lru_key(s, url@) {
                let i = lru_key_index(s, url@);
                lemma_remove_key(s, i);
                lemma_insert_front_distinct(s.remove(i), s[i]);
                s.remove_ensures(i);
                s.remove(i).insert_ensures(0, s[i]);
            }
        }
        r
    }

    /// Drop a stale entry (its file no longer exists on disk); returns
    /// the forgotten path, if the URL was cached.
    pub fn invalidate(&mut self, url: &String) -> (r: Option<String>)
        requires
            old(self).inv(),
        ensures
            final(self).inv(),
            final(self).dir@ == old(self).dir@,
            final(self).cap() == old(self).cap(),
            !has_lru_key(old(self).entries(), url@) ==> r is None && final(self).entries()
                == old(self).entries(),
            has_lru_key(old(self).entries(), url@) ==> ({
                let s = old(self).entries();
                let i = lru_key_index(s, url@);
                &&& r matches Some(p) && p@ == s[i].1
                &&& final(self).entries() == s.remove(i)
            }),
    {
        let ghost s = lru_entries(self.lru);
        let r = lru_pop(&mut self.lru, url);
        proof {
            if has_lru_key(s, url@) {
                let i = lru_key_index(s, url@);
                lemma_remove_key(s, i);
                s.remove_ensures(i);
            }
        }
        r
    }

    /// Record the URL's replay under its hashed path and return that
    /// path; the caller writes the bytes there. A new entry evicts the
    /// least-recently-used one when the cache is full.
    pub fn put(&mut self, url: &String) -> (p: String)
        requires
            old(self).inv(),
        ensures
            final(self).inv(),
            final(self).dir@ == old(self).dir@,
            final(self).cap() == old(self).cap(),
            p@ == hashed_path_spec(old(self).dir@, url@),
            has_lru_key(old(self).entries(), url@) ==> ({
                let s = old(self).entries();
                let i = lru_key_index(s, url@);
                final(self).entries() == s.remove(i).insert(0, (url@, p@))
            }),
            !has_lru_key(old(self).entries(), url@) && old(self).entries().len() < old(
                self,
            ).cap() ==> final(self).entries() == old(self).entries().insert(0, (url@, p@)),
            !has_lru_key(old(self).entries(), url@) && old(self).entries().len() >= old(
                self,
            ).cap() ==> final(self).entries() == old(self).entries().drop_last().insert(
                0,
                (url@, p@),
            ),
    {
        let ghost s = lru_entries(self.lru);
        let p = self.hashed_path_for(url);
        let _ = lru_put(&mut self.lru, url.clone(), p.clone());
        proof {
            if has_lru_key(s, url@) {
                let i = lru_key_index(s, url@);
                lemma_remove_key(s, i);
                lemma_insert_front_distinct(s.remove(i), (url@, p@));
                s.remove_ensures(i);
                s.remove(i).insert_ensures(0, (url@, p@));
            } else if s.len() < lru_capacity(self.lru) {
                lemma_insert_front_distinct(s, (url@, p@));
                s.insert_ensures(0, (url@, p@));
            } else {
                let t = s.drop_last();
                assert(distinct_keys(t)) by {
                    assert forall|a: int, b: int| 0 <= a < b < t.len() implies t[a].0 != t[b].0 by {
                        assert(t[a] == s[a]);
                        assert(t[b] == s[b]);
                    }
                }
                assert forall|k: int| 0 <= k < t.len() implies t[k].0 != url@ by {
                    assert(t[k] == s[k]);
                }
                lemma_insert_front_distinct(t, (url@, p@));
                t.insert_ensures(0, (url@, p@));
            }
        }
        p
    }

    /// Forget every entry and hand back the cached paths (most recently
    /// used first), so the caller can delete the files.
    pub fn clear(&mut self) -> (paths: Vec<String>)
        requires
            old(self).inv(),
        ensures
            final(self).inv(),
            final(self).dir@ == old(self).dir@,
            final(self).cap() == old(self).cap(),
            final(self).entries() == Seq::<(Seq<char>, Seq<char>)>::empty(),
            paths@.len() == old(self).entries().len(),
            forall|i: int| 0 <= i < paths@.len() ==> paths@[i]@ == old(self).entries()[i].1,
    {
        let paths = lru_values(&self.lru);
        lru_clear(&mut self.lru);
        paths
    }
}

} // verus!
