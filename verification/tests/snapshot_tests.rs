use cwal_core::snapshot::snapshot_hash;
use cwal_core::snapshot::CacheEntry;
use cwal_core::star_cache::is_cache_file;
use cwal_core::star_cache::SnapshotOutcome;
use cwal_core::star_cache::StabilityRound;
use cwal_core::star_cache::StarCache;

fn entry(url: &str, last_used: i64) -> CacheEntry {
    CacheEntry { url: url.to_string(), last_used }
}

#[test]
fn hash_is_deterministic() {
    let a = vec![entry("http://x/a", 10), entry("http://x/b", 20)];
    let b = vec![entry("http://x/a", 10), entry("http://x/b", 20)];
    assert_eq!(snapshot_hash(&a), snapshot_hash(&b));
}

#[test]
fn hash_depends_on_urls_and_timestamps() {
    let a = vec![entry("http://x/a", 10)];
    let b = vec![entry("http://x/b", 10)];
    let c = vec![entry("http://x/a", 11)];
    assert_ne!(snapshot_hash(&a), snapshot_hash(&b));
    assert_ne!(snapshot_hash(&a), snapshot_hash(&c));
}

#[test]
fn empty_snapshot_hashes_to_offset() {
    let a: Vec<CacheEntry> = Vec::new();
    assert_eq!(snapshot_hash(&a), cwal_core::snapshot::FNV_OFFSET);
}

#[test]
fn hash_matches_an_independent_fnv_fold() {
    // FNV-1a over the URL's bytes, then the timestamp's eight bytes,
    // least significant first.
    let mut expected: u64 = 0xcbf29ce484222325;
    for b in "http://x/ab".bytes().chain(1i64.to_le_bytes()) {
        expected = (expected ^ (b as u64)).wrapping_mul(0x100000001b3);
    }
    assert_eq!(snapshot_hash(&vec![entry("http://x/ab", 1)]), expected);
}

#[test]
fn budget_of_one_read_is_immediately_unstable() {
    let mut round = StabilityRound::new(1);
    assert_eq!(round.offer(5), SnapshotOutcome::Unstable);
}

#[test]
fn differing_reads_never_accept_only_matching_third_does() {
    let mut round = StabilityRound::new(10);
    let h1 = snapshot_hash(&vec![entry("http://x/a", 10)]);
    let h2 = snapshot_hash(&vec![entry("http://x/a", 10), entry("http://x/b", 20)]);
    assert_ne!(h1, h2);
    assert_eq!(round.offer(h1), SnapshotOutcome::Retry);
    assert_eq!(round.offer(h2), SnapshotOutcome::Retry);
    assert_eq!(round.offer(h2), SnapshotOutcome::Accepted);
}

#[test]
fn failed_reads_spend_attempts_but_keep_the_hash() {
    let mut round = StabilityRound::new(10);
    assert_eq!(round.offer(42), SnapshotOutcome::Retry);
    assert_eq!(round.note_failed_read(), SnapshotOutcome::Retry);
    assert_eq!(round.offer(42), SnapshotOutcome::Accepted);
}

#[test]
fn retry_budget_exhaustion_reports_unstable() {
    let mut round = StabilityRound::new(3);
    assert_eq!(round.offer(1), SnapshotOutcome::Retry);
    assert_eq!(round.offer(2), SnapshotOutcome::Retry);
    assert_eq!(round.offer(3), SnapshotOutcome::Unstable);
}

#[test]
fn new_entries_are_sorted_and_filtered_by_high_water_mark() {
    let mut star = StarCache::new(100);
    let urls = star.accept_snapshot(vec![
        entry("http://x/c", 300),
        entry("http://x/old", 50),
        entry("http://x/a", 150),
        entry("http://x/b", 200),
    ]);
    assert_eq!(urls, vec!["http://x/a", "http://x/b", "http://x/c"]);
    assert_eq!(star.high_water, 300);
}

#[test]
fn accepted_entries_are_not_reemitted() {
    let mut star = StarCache::new(100);
    let snapshot = vec![entry("http://x/a", 150), entry("http://x/b", 200)];
    let first = star.accept_snapshot(snapshot.clone());
    assert_eq!(first.len(), 2);
    let second = star.accept_snapshot(snapshot);
    assert_eq!(second.len(), 0);
    assert_eq!(star.high_water, 200);
}

#[test]
fn no_new_entries_leaves_mark_unchanged() {
    let mut star = StarCache::new(1000);
    let urls = star.accept_snapshot(vec![entry("http://x/a", 150)]);
    assert_eq!(urls.len(), 0);
    assert_eq!(star.high_water, 1000);
}

#[test]
fn equal_timestamps_keep_read_order() {
    let mut star = StarCache::new(0);
    let urls = star.accept_snapshot(vec![
        entry("http://x/first", 10),
        entry("http://x/second", 10),
    ]);
    assert_eq!(urls, vec!["http://x/first", "http://x/second"]);
}

#[test]
fn cache_file_names() {
    assert!(is_cache_file("index"));
    assert!(is_cache_file("data_0"));
    assert!(is_cache_file("data_1"));
    assert!(is_cache_file("data_2"));
    assert!(is_cache_file("data_3"));
    assert!(is_cache_file("data_extra"));
    assert!(!is_cache_file("journal"));
    assert!(!is_cache_file("inde"));
    assert!(!is_cache_file("data"));
}
