use vstd::prelude::*;

use crate::record::{duplicate_all, AppInfo};

verus! {

/// Seconds after a refresh during which the application list counts as fresh.
pub const REFRESH_INTERVAL_SECS: u64 = 300;

/// The list is stale at `now`: never refreshed, or refreshed more than the
/// refresh interval before `now`.
pub open spec fn is_stale_at(last: Option<u64>, now: u64) -> bool {
    match last {
        None => true,
        Some(t) => now > t && now - t > REFRESH_INTERVAL_SECS,
    }
}

/// A refresh request at `now` starts a background scan.
pub open spec fn starts_refresh(refreshing: bool, last: Option<u64>, now: u64) -> bool {
    !refreshing && is_stale_at(last, now)
}

/// A read must scan inline: nothing is cached and no refresh will bring anything.
pub open spec fn needs_cold_scan(apps: Seq<AppInfo>, refreshing: bool) -> bool {
    apps.len() == 0 && !refreshing
}

/// The application list of a launcher, with the time of its last refresh
/// and whether a background refresh is running. Times are seconds on a
/// monotonic clock. The scans themselves run outside: this type decides
/// when one starts and what is served meanwhile.
pub struct AppCache {
    apps: Vec<AppInfo>,
    last_update: Option<u64>,
    is_updating: bool,
}

/// `after` is `before` after a refresh request at `now` that answered `started`.
pub open spec fn after_request(before: AppCache, after: AppCache, now: u64, started: bool) -> bool {
    &&& started == starts_refresh(before.refreshing(), before.last_refresh(), now)
    &&& after.refreshing() == (before.refreshing() || started)
    &&& after.apps_view() == before.apps_view()
    &&& after.last_refresh() == before.last_refresh()
}

/// `after` is `before` once the inline scan `scan` was installed.
pub open spec fn after_cold_fill(before: AppCache, after: AppCache, scan: Seq<AppInfo>) -> bool {
    &&& after.apps_view() == scan
    &&& after.refreshing() == before.refreshing()
    &&& after.last_refresh() == before.last_refresh()
}

impl AppCache {
    /// The published application list.
    pub closed spec fn apps_view(&self) -> Seq<AppInfo> {
        self.apps@
    }

    /// When the last background refresh was published.
    pub closed spec fn last_refresh(&self) -> Option<u64> {
        self.last_update
    }

    /// A background refresh is running.
    pub closed spec fn refreshing(&self) -> bool {
        self.is_updating
    }

    /// An empty cache that has never been refreshed.
    pub fn new() -> (r: AppCache)
        ensures
            r.apps_view().len() == 0,
            r.last_refresh() is None,
            !r.refreshing(),
    {
        AppCache { apps: Vec::new(), last_update: None, is_updating: false }
    }

    pub fn is_stale(&self, now: u64) -> (r: bool)
        ensures
            r == is_stale_at(self.last_refresh(), now),
    {
        match self.last_update {
            None => true,
            Some(t) => now > t && now - t > REFRESH_INTERVAL_SECS,
        }
    }

    pub fn is_updating(&self) -> (r: bool)
        ensures
            r == self.refreshing(),
    {
        self.is_updating
    }

    /// A refresh request at `now`: when the list is stale and no refresh is
    /// running, marks a refresh as running and returns `true`; the caller
    /// then runs the scan and hands it to `finish_refresh`. Otherwise
    /// changes nothing and returns `false`.
    pub fn update_if_needed(&mut self, now: u64) -> (started: bool)
        ensures
            after_request(*old(self), *final(self), now, started),
    {
        if !self.is_updating && self.is_stale(now) {
            self.is_updating = true;
            true
        } else {
            false
        }
    }

    /// Publishes the scan of a background refresh that finished at `now`.
    pub fn finish_refresh(&mut self, apps: Vec<AppInfo>, now: u64)
        ensures
            final(self).apps_view() == apps@,
            final(self).last_refresh() == Some(now),
            !final(self).refreshing(),
    {
        self.apps = apps;
        self.last_update = Some(now);
        self.is_updating = false;
    }

    /// The published list, or `None` when the caller must scan inline
    /// (nothing cached and no refresh running) and hand the scan to
    /// `fill_cold`.
    pub fn get_apps(&self) -> (r: Option<Vec<AppInfo>>)
        ensures
            r is None <==> needs_cold_scan(self.apps_view(), self.refreshing()),
            r is Some ==> r->Some_0@ == self.apps_view(),
    {
        if self.apps.len() == 0 && !self.is_updating {
            None
        } else {
            Some(duplicate_all(&self.apps))
        }
    }

    /// Installs the result of an inline scan and returns it.
    pub fn fill_cold(&mut self, apps: Vec<AppInfo>) -> (r: Vec<AppInfo>)
        ensures
            after_cold_fill(*old(self), *final(self), apps@),
            r@ == apps@,
    {
        self.apps = apps;
        duplicate_all(&self.apps)
    }
}

/// Single flight: of two refresh requests in a row, at most one starts a
/// scan, and none starts while a refresh is already running.
pub proof fn lemma_refresh_single_flight(
    c0: AppCache,
    c1: AppCache,
    c2: AppCache,
    now1: u64,
    now2: u64,
    started1: bool,
    started2: bool,
)
    requires
        after_request(c0, c1, now1, started1),
        after_request(c1, c2, now2, started2),
    ensures
        !(started1 && started2),
        c0.refreshing() ==> !started1 && !started2,
        c2.refreshing() == (c0.refreshing() || started1 || started2),
{
}

/// Cold start: once a non-empty inline scan is installed, reads are served
/// from the cache and return that scan.
pub proof fn lemma_cold_start_fills(c0: AppCache, c1: AppCache, scan: Seq<AppInfo>)
    requires
        needs_cold_scan(c0.apps_view(), c0.refreshing()),
        after_cold_fill(c0, c1, scan),
        scan.len() > 0,
    ensures
        !needs_cold_scan(c1.apps_view(), c1.refreshing()),
        c1.apps_view() == scan,
{
}

} // verus!
