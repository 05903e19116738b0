//! Cache snapshots: raw entries read from the game client's browser cache
//! and the deterministic content hash used by the stability protocol.

use vstd::prelude::*;

verus! {

/// One raw entry from the client's browser cache: the URL key and the
/// last-used timestamp in whole seconds.
#[derive(Debug)]
pub struct CacheEntry {
    pub url: String,
    pub last_used: i64,
}

/// The mathematical model of an entry: its URL as a character sequence,
/// paired with its last-used timestamp.
pub open spec fn entry_model(e: CacheEntry) -> (Seq<char>, i64) {
    (e.url@, e.last_used)
}

/// The model of a whole snapshot, entry by entry, in read order.
pub open spec fn snapshot_model(s: Seq<CacheEntry>) -> Seq<(Seq<char>, i64)> {
    s.map_values(|e: CacheEntry| entry_model(e))
}

impl Clone for CacheEntry {
    fn clone(&self) -> (r: Self)
        ensures
            entry_model(r) == entry_model(*self),
    {
        CacheEntry { url: self.url.clone(), last_used: self.last_used }
    }
}

/// 64-bit FNV-1a offset basis.
pub const FNV_OFFSET: u64 = 0xcbf29ce484222325;

/// 64-bit FNV-1a prime.
pub const FNV_PRIME: u64 = 0x100000001b3;

/// One FNV-1a step: fold a byte into the running hash.
pub open spec fn fnv_byte(h: u64, b: u8) -> u64 {
    (h ^ (b as u64)).wrapping_mul(FNV_PRIME)
}

/// Fold a byte sequence into the running hash, left to right.
pub open spec fn fnv_fold(h: u64, bytes: Seq<u8>) -> u64
    decreases bytes.len(),
{
    if bytes.len() == 0 {
        h
    } else {
        fnv_byte(fnv_fold(h, bytes.drop_last()), bytes.last())
    }
}

/// The timestamp's eight bytes, least significant first.
pub open spec fn ts_bytes(ts: i64) -> Seq<u8> {
    Seq::new(8, |k: int| (((ts as u64) >> ((8 * k) as u64)) & 0xff) as u8)
}

/// The hash contribution of one entry: its URL's UTF-8 bytes, then the
/// eight bytes of its timestamp.
pub open spec fn entry_fold(h: u64, url: Seq<char>, ts: i64) -> u64 {
    fnv_fold(fnv_fold(h, vstd::utf8::encode_utf8(url)), ts_bytes(ts))
}

/// The content hash of a snapshot: a deterministic fold over every
/// entry's URL bytes and last-used timestamp. Used only to compare
/// consecutive reads for equality; never persisted.
pub open spec fn snapshot_hash_spec(s: Seq<(Seq<char>, i64)>) -> u64
    decreases s.len(),
{
    if s.len() == 0 {
        FNV_OFFSET
    } else {
        entry_fold(snapshot_hash_spec(s.drop_last()), s.last().0, s.last().1)
    }
}

/// Fold a byte slice into the running hash.
pub fn fnv_fold_bytes(h0: u64, bytes: &[u8]) -> (h: u64)
    ensures
        h == fnv_fold(h0, bytes@),
{
    let mut h: u64 = h0;
    let n = bytes.len();
    for i in 0..n
        invariant
            n == bytes@.len(),
            h == fnv_fold(h0, bytes@.take(i as int)),
    {
        let b = bytes[i];
        h = (h ^ (b as u64)).wrapping_mul(FNV_PRIME);
        proof {
            assert(bytes@.take(i + 1).drop_last() =~= bytes@.take(i as int));
            assert(bytes@.take(i + 1).last() == b);
        }
    }
    proof {
        assert(bytes@.take(n as int) =~= bytes@);
    }
    h
}

/// Fold one timestamp's eight bytes into the running hash.
fn fnv_fold_ts(h0: u64, ts: i64) -> (h: u64)
    ensures
        h == fnv_fold(h0, ts_bytes(ts)),
{
    #[verifier::truncate]
    let t: u64 = ts as u64;
    let mut h: u64 = h0;
    for k in 0..8usize
        invariant
            t == ts as u64,
            h == fnv_fold(h0, ts_bytes(ts).take(k as int)),
    {
        #[verifier::truncate]
        let b: u8 = ((t >> ((8 * k) as u64)) & 0xff) as u8;
        h = (h ^ (b as u64)).wrapping_mul(FNV_PRIME);
        proof {
            assert(ts_bytes(ts).take(k + 1).drop_last() =~= ts_bytes(ts).take(k as int));
            assert(ts_bytes(ts).take(k + 1).last() == b);
        }
    }
    proof {
        assert(ts_bytes(ts).take(8) =~= ts_bytes(ts));
    }
    h
}

/// Compute the content hash of a snapshot.
pub fn snapshot_hash(entries: &Vec<CacheEntry>) -> (h: u64)
    ensures
        h == snapshot_hash_spec(snapshot_model(entries@)),
{
    let mut h: u64 = FNV_OFFSET;
    let n = entries.len();
    for i in 0..n
        invariant
            n == entries@.len(),
            h == snapshot_hash_spec(snapshot_model(entries@.take(i as int))),
    {
        let url_bytes = entries[i].url.as_str().as_bytes_vec();
        h = fnv_fold_bytes(h, url_bytes.as_slice());
        h = fnv_fold_ts(h, entries[i].last_used);
        proof {
            let m1 = snapshot_model(entries@.take(i + 1));
            assert(m1.drop_last() =~= snapshot_model(entries@.take(i as int)));
            assert(m1.last() == entry_model(entries@[i as int]));
        }
    }
    proof {
        assert(entries@.take(n as int) =~= entries@);
    }
    h
}

} // verus!
