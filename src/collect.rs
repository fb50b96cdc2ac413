use vstd::prelude::*;

use crate::record::AppInfo;
use crate::text::{lower_of, lowercase};

verus! {

/// Where the start menu's programs live below a profile or data root.
pub open spec fn start_menu_programs() -> Seq<char> {
    "Microsoft\\Windows\\Start Menu\\Programs"@
}

/// One (root, subpath) pair where the root is known, none otherwise.
pub open spec fn folder_part(root: Option<String>, sub: Seq<char>) -> Seq<(Seq<char>, Seq<char>)> {
    match root {
        Some(r) => seq![(r@, sub)],
        None => seq![],
    }
}

/// The characters of (root, subpath) pairs.
pub open spec fn parts_view(parts: Seq<(String, String)>) -> Seq<(Seq<char>, Seq<char>)> {
    parts.map_values(|e: (String, String)| (e.0@, e.1@))
}

fn push_part(parts: &mut Vec<(String, String)>, root: Option<String>, sub: &str)
    ensures
        parts_view(final(parts)@) == parts_view(old(parts)@) + folder_part(root, sub@),
{
    match root {
        Some(r) => {
            let ghost r_view = r@;
            parts.push((r, String::from_str(sub)));
            assert(parts_view(final(parts)@) =~= parts_view(old(parts)@) + seq![(r_view, sub@)]);
        },
        None => {
            assert(parts_view(final(parts)@) =~= parts_view(old(parts)@) + folder_part(root, sub@));
        },
    }
}

/// The folders scanned for shortcuts, as (root, subpath) pairs to join:
/// the user's and the public desktop, then the user's and the common start
/// menu, each where its root directory is known.
pub fn special_folder_parts(
    user_profile: Option<String>,
    public: Option<String>,
    app_data: Option<String>,
    program_data: Option<String>,
) -> (r: Vec<(String, String)>)
    ensures
        parts_view(r@) == folder_part(user_profile, "Desktop"@) + folder_part(public, "Desktop"@)
            + folder_part(app_data, start_menu_programs()) + folder_part(program_data, start_menu_programs()),
{
    let mut r: Vec<(String, String)> = Vec::new();
    assert(parts_view(r@) =~= Seq::empty());
    push_part(&mut r, user_profile, "Desktop");
    push_part(&mut r, public, "Desktop");
    push_part(&mut r, app_data, "Microsoft\\Windows\\Start Menu\\Programs");
    push_part(&mut r, program_data, "Microsoft\\Windows\\Start Menu\\Programs");
    r
}

/// A file extension names a shortcut: "lnk" in any case.
pub fn is_shortcut_extension(ext: &str) -> (r: bool)
    ensures
        r == (lower_of(ext@) == "lnk"@),
{
    let lower = lowercase(ext);
    let lnk = String::from_str("lnk");
    lower == lnk
}

/// A file extension names an executable: exactly "exe".
pub fn is_exe_extension(ext: &str) -> (r: bool)
    ensures
        r == (ext@ == "exe"@),
{
    let e = String::from_str(ext);
    let exe = String::from_str("exe");
    e == exe
}

/// The optional string is exactly `text`.
pub open spec fn is_text(o: Option<String>, text: Seq<char>) -> bool {
    o is Some && o->Some_0@ == text
}

/// The record of a resolved shortcut: named by the shortcut file's stem
/// ("Unknown" where it has none), pointing at the target.
pub fn shortcut_record(stem: Option<String>, target: String) -> (r: AppInfo)
    ensures
        stem is Some ==> r.name == stem->Some_0,
        stem is None ==> r.name@ == "Unknown"@,
        r.path == target,
        r.icon_path is None,
        r.is_shortcut,
{
    let name = match stem {
        Some(s) => s,
        None => String::from_str("Unknown"),
    };
    AppInfo { name, path: target, icon_path: None, is_shortcut: true }
}

/// The record of an application-path alias: named by the stem of the alias
/// key (the key itself where it has none), pointing at the registered path.
pub fn app_path_record(key: &str, stem: Option<String>, path: String) -> (r: AppInfo)
    ensures
        stem is Some ==> r.name == stem->Some_0,
        stem is None ==> r.name@ == key@,
        r.path == path,
        r.icon_path is None,
        !r.is_shortcut,
{
    let name = match stem {
        Some(s) => s,
        None => String::from_str(key),
    };
    AppInfo { name, path, icon_path: None, is_shortcut: false }
}

/// An uninstall record is kept when it has a display name and a non-empty
/// install location; the result is the pair (name, location).
pub fn uninstall_location(display_name: Option<String>, location: Option<String>) -> (r: Option<(String, String)>)
    ensures
        r is Some <==> (display_name is Some && location is Some && location->Some_0@.len() > 0),
        r is Some ==> r->Some_0.0 == display_name->Some_0 && r->Some_0.1 == location->Some_0,
{
    match (display_name, location) {
        (Some(n), Some(l)) => {
            if l.as_str().is_empty() {
                None
            } else {
                Some((n, l))
            }
        },
        _ => None,
    }
}

/// The record for an installed application: the first of the directory
/// `entries` (path, extension) whose extension is "exe", under `app_name`.
pub fn first_executable(app_name: &str, entries: &Vec<(String, Option<String>)>) -> (r: Option<AppInfo>)
    ensures
        r is None <==> forall|i: int| 0 <= i < entries.len() ==> !is_text(#[trigger] entries@[i].1, "exe"@),
        r is Some ==> exists|i: int|
            0 <= i < entries.len() && is_text(entries@[i].1, "exe"@) && (forall|j: int|
                0 <= j < i ==> !is_text(#[trigger] entries@[j].1, "exe"@)) && r->Some_0.path
                == entries@[i].0,
        r is Some ==> r->Some_0.name@ == app_name@ && r->Some_0.icon_path is None && !r->Some_0.is_shortcut,
{
    let mut i: usize = 0;
    while i < entries.len()
        invariant
            i <= entries.len(),
            forall|j: int| 0 <= j < i ==> !is_text(#[trigger] entries@[j].1, "exe"@),
        decreases entries.len() - i,
    {
        let found = match &entries[i].1 {
            Some(ext) => is_exe_extension(ext.as_str()),
            None => false,
        };
        if found {
            return Some(
                AppInfo {
                    name: String::from_str(app_name),
                    path: entries[i].0.clone(),
                    icon_path: None,
                    is_shortcut: false,
                },
            );
        }
        i = i + 1;
    }
    None
}

/// All candidates of one scan: the shortcuts first, then the registry's
/// applications, duplicates kept.
pub fn collect_all_apps(shortcuts: Vec<AppInfo>, registry: Vec<AppInfo>) -> (r: Vec<AppInfo>)
    ensures
        r@ == shortcuts@ + registry@,
{
    let mut r = shortcuts;
    let mut rest = registry;
    r.append(&mut rest);
    r
}

} // verus!
