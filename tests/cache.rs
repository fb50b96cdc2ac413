use bsearch::cache::AppCache;
use bsearch::record::AppInfo;

fn app(name: &str) -> AppInfo {
    AppInfo::new(name.to_string(), format!("{}.exe", name), None, false)
}

#[test]
fn second_refresh_request_is_a_no_op() {
    let mut cache = AppCache::new();
    assert!(cache.update_if_needed(0));
    assert!(cache.is_updating());
    assert!(!cache.update_if_needed(1));
    assert!(!cache.update_if_needed(10_000));
}

#[test]
fn refresh_publishes_and_clears_flag() {
    let mut cache = AppCache::new();
    assert!(cache.update_if_needed(5));
    cache.finish_refresh(vec![app("Paint")], 10);
    assert!(!cache.is_updating());
    let apps = cache.get_apps().unwrap();
    assert_eq!(apps.len(), 1);
    assert_eq!(apps[0].name, "Paint");
}

#[test]
fn staleness_follows_five_minutes() {
    let mut cache = AppCache::new();
    assert!(cache.is_stale(0));
    cache.finish_refresh(vec![app("Paint")], 100);
    assert!(!cache.is_stale(100));
    assert!(!cache.is_stale(400));
    assert!(cache.is_stale(401));
    assert!(!cache.update_if_needed(400));
    assert!(cache.update_if_needed(401));
}

#[test]
fn cold_start_scans_inline_once() {
    let mut cache = AppCache::new();
    assert!(cache.get_apps().is_none());
    let served = cache.fill_cold(vec![app("Paint"), app("Calc")]);
    assert_eq!(served.len(), 2);
    let again = cache.get_apps().unwrap();
    assert_eq!(again.len(), 2);
    assert_eq!(again[1].name, "Calc");
}

#[test]
fn empty_cache_with_refresh_running_serves_empty() {
    let mut cache = AppCache::new();
    assert!(cache.update_if_needed(0));
    let apps = cache.get_apps().unwrap();
    assert!(apps.is_empty());
}
