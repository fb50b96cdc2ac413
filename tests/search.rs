use bsearch::frequency::FrequencyTable;
use bsearch::rank::{convert_to_results, rank_scored, search_apps, search_windows_apps};
use bsearch::record::{AppInfo, AppResult};

fn app(name: &str, path: &str, is_shortcut: bool) -> AppInfo {
    AppInfo::new(name.to_string(), path.to_string(), None, is_shortcut)
}

fn titles(results: &[AppResult]) -> Vec<String> {
    results.iter().map(|r| r.title.clone()).collect()
}

#[test]
fn calc_scenario_prefers_frequent_shortcut() {
    let apps = vec![
        app("Calculator", "C:\\Windows\\System32\\calc.exe", false),
        app("Calc Notes", "C:\\Tools\\calcnotes.exe", true),
    ];
    let mut tracker = FrequencyTable::new();
    for _ in 0..5 {
        tracker.increment("C:\\Tools\\calcnotes.exe");
    }
    let results = search_apps("calc", &apps, &tracker);
    assert_eq!(titles(&results), vec!["Calc Notes".to_string(), "Calculator".to_string()]);
    assert_eq!(results[0].result_type, "app");
    assert_eq!(results[0].path, "C:\\Tools\\calcnotes.exe");
}

#[test]
fn non_matching_names_never_appear() {
    let apps = vec![
        app("Calculator", "calc.exe", false),
        app("Paint", "paint.exe", false),
        app("Notepad", "notepad.exe", true),
    ];
    let tracker = FrequencyTable::new();
    assert!(search_apps("xyz", &apps, &tracker).is_empty());
    assert_eq!(titles(&search_apps("ctr", &apps, &tracker)), vec!["Calculator".to_string()]);
    assert!(search_apps("rtc", &apps, &tracker).is_empty());
}

#[test]
fn matching_ignores_case() {
    let apps = vec![app("Calculator", "calc.exe", false), app("Paint", "paint.exe", false)];
    let tracker = FrequencyTable::new();
    assert_eq!(titles(&search_apps("CALC", &apps, &tracker)), vec!["Calculator".to_string()]);
    assert_eq!(titles(&search_apps("pNt", &apps, &tracker)), vec!["Paint".to_string()]);
}

#[test]
fn search_returns_at_most_ten() {
    let apps: Vec<AppInfo> = (0..15).map(|i| app(&format!("app {}", i), &format!("p{}", i), false)).collect();
    let tracker = FrequencyTable::new();
    assert_eq!(search_apps("app", &apps, &tracker).len(), 10);
    assert_eq!(search_apps("", &apps, &tracker).len(), 10);
    assert_eq!(search_apps("app", &apps[..3].iter().map(|a| a.duplicate()).collect(), &tracker).len(), 3);
}

#[test]
fn empty_query_ranks_by_origin_and_launches() {
    let apps = vec![
        app("Plain", "plain.exe", false),
        app("Link", "link.exe", true),
        app("Busy", "busy.exe", false),
    ];
    let mut tracker = FrequencyTable::new();
    for _ in 0..6 {
        tracker.increment("busy.exe");
    }
    let results = search_apps("", &apps, &tracker);
    assert_eq!(
        titles(&results),
        vec!["Busy".to_string(), "Link".to_string(), "Plain".to_string()]
    );
    let again = convert_to_results(&apps, &tracker);
    assert_eq!(titles(&again), titles(&results));
}

#[test]
fn shortcut_outranks_executable_on_equal_score() {
    let apps = vec![app("Editor", "a.exe", false), app("Editor", "b.exe", true)];
    let tracker = FrequencyTable::new();
    let results = search_apps("edit", &apps, &tracker);
    assert_eq!(results[0].path, "b.exe");
    assert_eq!(results[1].path, "a.exe");
}

#[test]
fn launches_outrank_equal_fuzzy_scores() {
    let apps = vec![app("Editor", "a.exe", true), app("Editor", "b.exe", true)];
    let mut tracker = FrequencyTable::new();
    tracker.increment("b.exe");
    let results = search_apps("editor", &apps, &tracker);
    assert_eq!(results[0].path, "b.exe");
}

#[test]
fn exact_ties_keep_candidate_order() {
    let apps = vec![app("Same", "first.exe", false), app("Same", "second.exe", false)];
    let tracker = FrequencyTable::new();
    let results = search_apps("same", &apps, &tracker);
    assert_eq!(results[0].path, "first.exe");
    assert_eq!(results[1].path, "second.exe");
}

#[test]
fn rank_scored_uses_given_scores() {
    let apps = vec![
        app("A", "a.exe", false),
        app("B", "b.exe", false),
        app("C", "c.exe", true),
    ];
    let tracker = FrequencyTable::new();
    let results = rank_scored(&apps, &vec![Some(10), None, Some(-45)], &tracker, 10);
    assert_eq!(titles(&results), vec!["A".to_string(), "C".to_string()]);
    let limited = rank_scored(&apps, &vec![Some(1), Some(2), Some(3)], &tracker, 2);
    assert_eq!(titles(&limited), vec!["C".to_string(), "B".to_string()]);
    assert!(rank_scored(&apps, &vec![Some(1), Some(2), Some(3)], &tracker, 0).is_empty());
}

#[test]
fn results_carry_icon_paths() {
    let apps = vec![AppInfo::new("Paint".to_string(), "paint.exe".to_string(), Some("icon_3.png".to_string()), false)];
    let tracker = FrequencyTable::new();
    let results = search_apps("paint", &apps, &tracker);
    assert_eq!(results[0].icon_path, Some("icon_3.png".to_string()));
}

#[test]
fn windows_search_filters_and_orders_by_score() {
    let apps = vec![
        app("Paint", "paint.exe", false),
        app("Calc Notes", "notes.exe", true),
        app("Calculator", "calc.exe", false),
    ];
    let all = search_windows_apps("", apps.iter().map(|a| a.duplicate()).collect());
    assert_eq!(all.len(), 3);
    assert_eq!(all[0].name, "Paint");
    let found = search_windows_apps("CALC", apps);
    let names: Vec<String> = found.iter().map(|a| a.name.clone()).collect();
    assert_eq!(names.len(), 2);
    assert!(names.contains(&"Calc Notes".to_string()));
    assert!(names.contains(&"Calculator".to_string()));
}
