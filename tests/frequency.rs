use bsearch::frequency::FrequencyTable;
use bsearch::rank::{frequent_paths, frequent_result, frequent_title};

#[test]
fn unseen_paths_count_zero() {
    let tracker = FrequencyTable::new();
    assert_eq!(tracker.get("nothing.exe"), 0);
}

#[test]
fn launch_adds_exactly_one() {
    let mut tracker = FrequencyTable::new();
    tracker.increment("a.exe");
    tracker.increment("b.exe");
    assert_eq!(tracker.get("a.exe"), 1);
    tracker.increment("a.exe");
    assert_eq!(tracker.get("a.exe"), 2);
    assert_eq!(tracker.get("b.exe"), 1);
    assert_eq!(tracker.get("c.exe"), 0);
}

#[test]
fn most_frequent_orders_by_count() {
    let mut tracker = FrequencyTable::new();
    for (path, n) in [("a", 1), ("b", 3), ("c", 2)] {
        for _ in 0..n {
            tracker.increment(path);
        }
    }
    let top = tracker.most_frequent(10);
    assert_eq!(
        top,
        vec![("b".to_string(), 3), ("c".to_string(), 2), ("a".to_string(), 1)]
    );
    assert_eq!(tracker.most_frequent(1), vec![("b".to_string(), 3)]);
    assert!(tracker.most_frequent(0).is_empty());
}

#[test]
fn frequent_view_holds_at_most_six() {
    let mut tracker = FrequencyTable::new();
    for i in 0..8u32 {
        for _ in 0..=i {
            tracker.increment(&format!("app{}.exe", i));
        }
    }
    let paths = frequent_paths(&tracker);
    assert_eq!(paths.len(), 6);
    assert_eq!(paths[0], "app7.exe");
    assert_eq!(paths[5], "app2.exe");
}

#[test]
fn frequent_results_name_by_stem() {
    assert_eq!(frequent_title(Some("notepad".to_string())), "notepad");
    assert_eq!(frequent_title(None), "Unknown App");
    let r = frequent_result("C:\\x\\notepad.exe".to_string(), None, Some("icon_1.png".to_string()));
    assert_eq!(r.result_type, "app");
    assert_eq!(r.title, "Unknown App");
    assert_eq!(r.path, "C:\\x\\notepad.exe");
    assert_eq!(r.icon_path, Some("icon_1.png".to_string()));
}
