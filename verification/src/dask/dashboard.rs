//! Dask diagnostics dashboard integration: links into the official dashboard.

use vstd::prelude::*;

use crate::dask::settings::{dashboard_url_of, DaskSettings};

verus! {

#[derive(Debug, Clone)]
pub struct DashboardView {
    pub base_url: String,
    pub tabs: Vec<DashboardTab>,
}

#[derive(Debug, Clone)]
pub struct DashboardTab {
    pub id: String,
    pub label: String,
    pub path: String,
    pub url: String,
}

pub open spec fn tab_ids() -> Seq<Seq<char>> {
    seq!["status"@, "workers"@, "graph"@, "progress"@, "system"@, "profile"@]
}

pub open spec fn tab_labels() -> Seq<Seq<char>> {
    seq!["Task Stream"@, "Worker Memory"@, "Graph"@, "Progress"@, "System"@, "Profile"@]
}

pub open spec fn tab_paths() -> Seq<Seq<char>> {
    seq!["/status"@, "/workers"@, "/graph"@, "/individual-progress"@, "/system"@, "/profile"@]
}

/// Tab `i` of a dashboard whose base URL is `base`.
pub open spec fn is_tab(t: DashboardTab, i: int, base: Seq<char>) -> bool {
    &&& t.id@ == tab_ids()[i]
    &&& t.label@ == tab_labels()[i]
    &&& t.path@ == tab_paths()[i]
    &&& t.url@ == base + tab_paths()[i]
}

fn tab(base: &str, id: &str, label: &str, path: &str) -> (t: DashboardTab)
    ensures
        t.id@ == id@,
        t.label@ == label@,
        t.path@ == path@,
        t.url@ == base@ + path@,
{
    let mut url = String::from_str(base);
    url.append(path);
    DashboardTab {
        id: String::from_str(id),
        label: String::from_str(label),
        path: String::from_str(path),
        url,
    }
}

pub fn dashboard_view(settings: &DaskSettings) -> (v: DashboardView)
    ensures
        v.base_url@ == dashboard_url_of(settings.dashboard_port),
        v.tabs@.len() == 6,
        forall|i: int| 0 <= i < 6 ==> is_tab(#[trigger] v.tabs@[i], i, v.base_url@),
{
    let base = settings.dashboard_url();
    let mut tabs: Vec<DashboardTab> = Vec::new();
    tabs.push(tab(base.as_str(), "status", "Task Stream", "/status"));
    tabs.push(tab(base.as_str(), "workers", "Worker Memory", "/workers"));
    tabs.push(tab(base.as_str(), "graph", "Graph", "/graph"));
    tabs.push(tab(base.as_str(), "progress", "Progress", "/individual-progress"));
    tabs.push(tab(base.as_str(), "system", "System", "/system"));
    tabs.push(tab(base.as_str(), "profile", "Profile", "/profile"));
    DashboardView { base_url: base, tabs }
}

} // verus!
