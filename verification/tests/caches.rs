use fasb::cache::Cache;
use std::sync::Mutex;

#[test]
fn cache_new() {
    Cache::new(1_000);
}

#[test]
fn cache() {
    let cache = Mutex::new(Cache::new(1_000));
    assert!(cache.lock().is_ok());
}
