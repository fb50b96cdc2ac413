use bsearch::collect::{
    app_path_record, collect_all_apps, first_executable, is_exe_extension, is_shortcut_extension,
    shortcut_record, special_folder_parts, uninstall_location,
};
use bsearch::record::AppInfo;

#[test]
fn special_folders_skip_unknown_roots() {
    let parts = special_folder_parts(
        Some("C:\\Users\\me".to_string()),
        None,
        Some("C:\\Users\\me\\AppData\\Roaming".to_string()),
        Some("C:\\ProgramData".to_string()),
    );
    assert_eq!(
        parts,
        vec![
            ("C:\\Users\\me".to_string(), "Desktop".to_string()),
            (
                "C:\\Users\\me\\AppData\\Roaming".to_string(),
                "Microsoft\\Windows\\Start Menu\\Programs".to_string()
            ),
            ("C:\\ProgramData".to_string(), "Microsoft\\Windows\\Start Menu\\Programs".to_string()),
        ]
    );
    assert!(special_folder_parts(None, None, None, None).is_empty());
}

#[test]
fn shortcut_extension_ignores_case() {
    assert!(is_shortcut_extension("lnk"));
    assert!(is_shortcut_extension("LNK"));
    assert!(is_shortcut_extension("Lnk"));
    assert!(!is_shortcut_extension("exe"));
    assert!(!is_shortcut_extension("lnk2"));
}

#[test]
fn exe_extension_is_exact() {
    assert!(is_exe_extension("exe"));
    assert!(!is_exe_extension("EXE"));
    assert!(!is_exe_extension("ex"));
}

#[test]
fn shortcut_records_use_stem_or_unknown() {
    let r = shortcut_record(Some("Paint".to_string()), "C:\\paint.exe".to_string());
    assert_eq!(r.name, "Paint");
    assert_eq!(r.path, "C:\\paint.exe");
    assert!(r.is_shortcut);
    assert_eq!(r.icon_path, None);
    assert_eq!(shortcut_record(None, "x".to_string()).name, "Unknown");
}

#[test]
fn app_path_records_fall_back_to_key() {
    let r = app_path_record("chrome.exe", Some("chrome".to_string()), "C:\\chrome.exe".to_string());
    assert_eq!(r.name, "chrome");
    assert!(!r.is_shortcut);
    assert_eq!(app_path_record("odd", None, "p".to_string()).name, "odd");
}

#[test]
fn uninstall_records_need_name_and_location() {
    assert_eq!(
        uninstall_location(Some("Tool".to_string()), Some("C:\\Tool".to_string())),
        Some(("Tool".to_string(), "C:\\Tool".to_string()))
    );
    assert_eq!(uninstall_location(Some("Tool".to_string()), Some(String::new())), None);
    assert_eq!(uninstall_location(None, Some("C:\\Tool".to_string())), None);
    assert_eq!(uninstall_location(Some("Tool".to_string()), None), None);
}

#[test]
fn first_executable_takes_the_first_exe() {
    let entries = vec![
        ("C:\\Tool".to_string(), None),
        ("C:\\Tool\\readme.txt".to_string(), Some("txt".to_string())),
        ("C:\\Tool\\tool.exe".to_string(), Some("exe".to_string())),
        ("C:\\Tool\\helper.exe".to_string(), Some("exe".to_string())),
    ];
    let r = first_executable("Tool", &entries).unwrap();
    assert_eq!(r.name, "Tool");
    assert_eq!(r.path, "C:\\Tool\\tool.exe");
    assert!(!r.is_shortcut);
    assert!(first_executable("Tool", &entries[..2].to_vec()).is_none());
}

#[test]
fn scans_put_shortcuts_first() {
    let s = vec![AppInfo::new("A".to_string(), "a".to_string(), None, true)];
    let r = vec![
        AppInfo::new("B".to_string(), "b".to_string(), None, false),
        AppInfo::new("A".to_string(), "a".to_string(), None, false),
    ];
    let all = collect_all_apps(s, r);
    let names: Vec<&str> = all.iter().map(|a| a.name.as_str()).collect();
    assert_eq!(names, vec!["A", "B", "A"]);
}
