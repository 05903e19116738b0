use cwal_core::cache::ReplayCache;
use cwal_core::snapshot::fnv_fold_bytes;
use cwal_core::snapshot::FNV_OFFSET;

fn expected_path(dir: &str, url: &str) -> String {
    let h = fnv_fold_bytes(FNV_OFFSET, url.as_bytes());
    format!("{}/{:016x}.rep", dir, h)
}

#[test]
fn put_returns_the_hashed_path() {
    let mut cache = ReplayCache::new("/tmp/replays".to_string(), 10);
    let url = "https://replays.example/abc".to_string();
    let path = cache.put(&url);
    assert_eq!(path, expected_path("/tmp/replays", &url));
    assert!(path.ends_with(".rep"));
}

#[test]
fn get_returns_the_stored_path_on_a_hit() {
    let mut cache = ReplayCache::new("/tmp/replays".to_string(), 10);
    let url = "https://replays.example/abc".to_string();
    let path = cache.put(&url);
    assert_eq!(cache.get(&url), Some(path));
}

#[test]
fn get_misses_unknown_urls() {
    let mut cache = ReplayCache::new("/tmp/replays".to_string(), 10);
    assert_eq!(cache.get(&"https://replays.example/other".to_string()), None);
}

#[test]
fn invalidate_forgets_a_stale_entry() {
    let mut cache = ReplayCache::new("/tmp/replays".to_string(), 10);
    let url = "https://replays.example/abc".to_string();
    let path = cache.put(&url);
    assert_eq!(cache.invalidate(&url), Some(path));
    assert_eq!(cache.get(&url), None);
}

#[test]
fn capacity_overflow_evicts_least_recently_used() {
    let mut cache = ReplayCache::new("/tmp/replays".to_string(), 2);
    let a = "https://replays.example/a".to_string();
    let b = "https://replays.example/b".to_string();
    let c = "https://replays.example/c".to_string();
    cache.put(&a);
    cache.put(&b);
    cache.put(&c);
    assert_eq!(cache.get(&a), None);
    assert!(cache.get(&b).is_some());
    assert!(cache.get(&c).is_some());
}

#[test]
fn get_promotes_an_entry_against_eviction() {
    let mut cache = ReplayCache::new("/tmp/replays".to_string(), 2);
    let a = "https://replays.example/a".to_string();
    let b = "https://replays.example/b".to_string();
    let c = "https://replays.example/c".to_string();
    cache.put(&a);
    cache.put(&b);
    assert!(cache.get(&a).is_some());
    cache.put(&c);
    assert!(cache.get(&a).is_some());
    assert_eq!(cache.get(&b), None);
}

#[test]
fn zero_capacity_falls_back_to_a_thousand() {
    let mut cache = ReplayCache::new("/tmp/replays".to_string(), 0);
    let a = "https://replays.example/a".to_string();
    let b = "https://replays.example/b".to_string();
    cache.put(&a);
    cache.put(&b);
    assert!(cache.get(&a).is_some());
    assert!(cache.get(&b).is_some());
}

#[test]
fn clear_returns_every_cached_path_and_empties_the_index() {
    let mut cache = ReplayCache::new("/tmp/replays".to_string(), 10);
    let a = "https://replays.example/a".to_string();
    let b = "https://replays.example/b".to_string();
    let pa = cache.put(&a);
    let pb = cache.put(&b);
    let mut paths = cache.clear();
    paths.sort();
    let mut expected = vec![pa, pb];
    expected.sort();
    assert_eq!(paths, expected);
    assert_eq!(cache.get(&a), None);
    assert_eq!(cache.get(&b), None);
}

#[test]
fn different_urls_name_different_paths() {
    let mut cache = ReplayCache::new("/tmp/replays".to_string(), 10);
    let a = "https://replays.example/a".to_string();
    let b = "https://replays.example/b".to_string();
    let pa = cache.put(&a);
    let pb = cache.put(&b);
    assert_ne!(pa, pb);
}

#[test]
fn hashed_path_is_stable_for_a_url() {
    let cache = ReplayCache::new("/data".to_string(), 10);
    let url = "https://replays.example/match-42".to_string();
    assert_eq!(cache.hashed_path_for(&url), cache.hashed_path_for(&url));
    assert_eq!(cache.hashed_path_for(&url), expected_path("/data", &url));
}
