use vstd::prelude::*;

verus! {

/// One launchable application found by a collector.
#[derive(Debug)]
pub struct AppInfo {
    pub name: String,
    pub path: String,
    pub icon_path: Option<String>,
    pub is_shortcut: bool,
}

/// The external-facing projection of an application, as handed to a UI.
#[derive(Debug)]
pub struct AppResult {
    pub result_type: String,
    pub title: String,
    pub path: String,
    pub icon_path: Option<String>,
}

/// The characters of an optional string.
pub open spec fn opt_view(o: Option<String>) -> Option<Seq<char>> {
    match o {
        Some(s) => Some(s@),
        None => None,
    }
}

pub fn copy_opt_string(o: &Option<String>) -> (r: Option<String>)
    ensures
        r == *o,
{
    match o {
        Some(s) => Some(s.clone()),
        None => None,
    }
}

impl AppInfo {
    pub fn new(name: String, path: String, icon_path: Option<String>, is_shortcut: bool) -> (r: AppInfo)
        ensures
            r.name == name,
            r.path == path,
            r.icon_path == icon_path,
            r.is_shortcut == is_shortcut,
    {
        AppInfo { name, path, icon_path, is_shortcut }
    }

    /// An equal copy of the record.
    pub fn duplicate(&self) -> (r: AppInfo)
        ensures
            r == *self,
    {
        AppInfo {
            name: self.name.clone(),
            path: self.path.clone(),
            icon_path: copy_opt_string(&self.icon_path),
            is_shortcut: self.is_shortcut,
        }
    }
}

/// `res` shows `app` as an application result.
pub open spec fn presents(res: AppResult, app: AppInfo) -> bool {
    &&& res.result_type@ == "app"@
    &&& res.title@ == app.name@
    &&& res.path@ == app.path@
    &&& opt_view(res.icon_path) == opt_view(app.icon_path)
}

impl AppResult {
    /// The result that shows `app`.
    pub fn from_app(app: &AppInfo) -> (r: AppResult)
        ensures
            presents(r, *app),
    {
        AppResult {
            result_type: String::from_str("app"),
            title: app.name.clone(),
            path: app.path.clone(),
            icon_path: copy_opt_string(&app.icon_path),
        }
    }
}

/// Copies every record of `apps`.
pub fn duplicate_all(apps: &Vec<AppInfo>) -> (r: Vec<AppInfo>)
    ensures
        r@ == apps@,
{
    let mut r: Vec<AppInfo> = Vec::new();
    let mut i: usize = 0;
    while i < apps.len()
        invariant
            i <= apps.len(),
            r@ == apps@.take(i as int),
        decreases apps.len() - i,
    {
        r.push(apps[i].duplicate());
        i = i + 1;
        assert(apps@.take(i as int) == apps@.take(i - 1).push(apps@[i - 1]));
    }
    assert(apps@.take(apps.len() as int) == apps@);
    r
}

} // verus!
