//! The registry of plugins shown to the user: what is registered, in which
//! state, listed in a stable order.

use vstd::prelude::*;

use crate::store::KeyedStore;
use crate::text::{copy_strings, lemma_seq_lt_total, lemma_seq_lt_transitive, seq_lt, str_eq, str_lt};

verus! {

/// Lifecycle state of a plugin.
#[derive(Debug, Clone, Copy, PartialEq, Eq, Structural)]
pub enum PluginStatus {
    Discovered,
    Validated,
    Loaded,
    Initializing,
    Running,
    Error,
    Disabled,
}

/// What the registry knows of a plugin.
#[derive(Debug, Clone)]
pub struct PluginInfo {
    pub id: String,
    pub name: String,
    pub version: String,
    pub status: PluginStatus,
    pub author: String,
    pub description: String,
    /// Optional list of capability tags shown in the UI.
    pub capabilities: Vec<String>,
    /// Plugin type, e.g. "Runtime", "Scheduler", "Exporter"
    pub plugin_type: String,
}

/// A plugin description as plain values.
pub struct PluginInfoView {
    pub id: Seq<char>,
    pub name: Seq<char>,
    pub version: Seq<char>,
    pub status: PluginStatus,
    pub author: Seq<char>,
    pub description: Seq<char>,
    pub capabilities: Seq<Seq<char>>,
    pub plugin_type: Seq<char>,
}

impl View for PluginInfo {
    type V = PluginInfoView;

    open spec fn view(&self) -> PluginInfoView {
        PluginInfoView {
            id: self.id@,
            name: self.name@,
            version: self.version@,
            status: self.status,
            author: self.author@,
            description: self.description@,
            capabilities: crate::text::string_views(self.capabilities@),
            plugin_type: self.plugin_type@,
        }
    }
}

impl PluginInfo {
    /// A copy of the description.
    pub fn duplicate(&self) -> (r: PluginInfo)
        ensures
            r@ == self@,
    {
        let caps = copy_strings(&self.capabilities);
        PluginInfo {
            id: self.id.clone(),
            name: self.name.clone(),
            version: self.version.clone(),
            status: self.status,
            author: self.author.clone(),
            description: self.description.clone(),
            capabilities: caps,
            plugin_type: self.plugin_type.clone(),
        }
    }
}

/// The id under which the Python runtime registers.
pub open spec fn python_runtime_id() -> Seq<char> {
    "plugin-python-runtime"@
}

/// The listing order: the Python runtime comes first, the other plugins by
/// name. `listed_before(a, b)` holds when `a` may stand before `b`.
pub open spec fn listed_before(a: PluginInfoView, b: PluginInfoView) -> bool {
    a.id == python_runtime_id() || (b.id != python_runtime_id() && !seq_lt(b.name, a.name))
}

/// Two plugins can always be put in order.
pub proof fn lemma_listed_before_total(a: PluginInfoView, b: PluginInfoView)
    ensures
        listed_before(a, b) || listed_before(b, a),
{
    lemma_seq_lt_total(a.name, b.name);
}

/// The listing order is transitive.
pub proof fn lemma_listed_before_transitive(a: PluginInfoView, b: PluginInfoView, c: PluginInfoView)
    requires
        listed_before(a, b),
        listed_before(b, c),
    ensures
        listed_before(a, c),
{
    if a.id != python_runtime_id() {
        lemma_seq_lt_total(a.name, b.name);
        lemma_seq_lt_total(b.name, c.name);
        lemma_seq_lt_total(a.name, c.name);
        if seq_lt(c.name, a.name) {
            if seq_lt(c.name, b.name) {
            } else if c.name == b.name {
            } else {
                lemma_seq_lt_transitive(b.name, c.name, a.name);
            }
        }
    }
}

/// A list in listing order.
pub open spec fn in_listing_order(s: Seq<PluginInfoView>) -> bool {
    forall|i: int, j: int| 0 <= i < j < s.len() ==> listed_before(#[trigger] s[i], #[trigger] s[j])
}

/// The views of a list of plugin descriptions.
pub open spec fn info_views(v: Seq<PluginInfo>) -> Seq<PluginInfoView> {
    Seq::new(v.len(), |i: int| v[i]@)
}

/// Inserts `x` into a list in listing order, after every entry that may
/// stand before it; hands back where it went.
fn insert_in_order(r: &mut Vec<PluginInfo>, x: PluginInfo) -> (p: usize)
    requires
        in_listing_order(info_views(old(r)@)),
    ensures
        p <= old(r)@.len(),
        final(r)@ == old(r)@.insert(p as int, x),
        in_listing_order(info_views(final(r)@)),
{
    let mut p: usize = r.len();
    while p > 0 && !listed_before_exec(&r[p - 1], &x)
        invariant
            p <= r@.len(),
            forall|t: int| p <= t < r@.len() ==> listed_before(x@, #[trigger] r@[t]@),
        decreases p,
    {
        proof {
            lemma_listed_before_total(r@[p - 1]@, x@);
        }
        p = p - 1;
    }
    let ghost old_r = r@;
    proof {
        assert forall|t: int| 0 <= t < p implies listed_before(#[trigger] old_r[t]@, x@) by {
            if t < p - 1 {
                assert(listed_before(info_views(old_r)[t], info_views(old_r)[p - 1]));
                lemma_listed_before_transitive(old_r[t]@, old_r[p - 1]@, x@);
            }
        }
    }
    r.insert(p, x);
    proof {
        assert forall|a: int, b: int| 0 <= a < b < r@.len() implies listed_before(
            #[trigger] info_views(r@)[a],
            #[trigger] info_views(r@)[b],
        ) by {
            if a < p && b < p {
                assert(info_views(old_r)[a] == r@[a]@);
                assert(info_views(old_r)[b] == r@[b]@);
            } else if a < p && b == p {
            } else if a < p && b > p {
                assert(r@[b] == old_r[b - 1]);
                assert(info_views(old_r)[a] == r@[a]@);
                assert(info_views(old_r)[b - 1] == r@[b]@);
            } else if a == p {
                assert(r@[b] == old_r[b - 1]);
            } else {
                assert(r@[a] == old_r[a - 1]);
                assert(r@[b] == old_r[b - 1]);
                assert(info_views(old_r)[a - 1] == r@[a]@);
                assert(info_views(old_r)[b - 1] == r@[b]@);
            }
        }
    }
    p
}

/// `x` is a copy of one of `vals[0..i]`.
spec fn copy_of_first(x: PluginInfoView, vals: Seq<PluginInfo>, i: int) -> bool {
    exists|q: int| 0 <= q < i && vals[q]@ == x
}

/// `x` is a copy of an entry of `r`.
spec fn listed_in(x: PluginInfoView, r: Seq<PluginInfo>) -> bool {
    exists|j: int| 0 <= j < r.len() && r[j]@ == x
}

/// `r` holds copies of exactly `vals[0..i]`.
spec fn copies_of_first(r: Seq<PluginInfo>, vals: Seq<PluginInfo>, i: int) -> bool {
    &&& forall|j: int| 0 <= j < r.len() ==> #[trigger] copy_of_first(r[j]@, vals, i)
    &&& forall|q: int| 0 <= q < i ==> #[trigger] listed_in(vals[q]@, r)
}

/// After inserting the copy of `vals[i]`, the list holds copies of exactly
/// `vals[0..=i]`.
proof fn lemma_insert_members(old_r: Seq<PluginInfo>, p: int, x: PluginInfo, vals: Seq<PluginInfo>, i: int)
    requires
        0 <= p <= old_r.len(),
        0 <= i < vals.len(),
        x@ == vals[i]@,
        copies_of_first(old_r, vals, i),
    ensures
        copies_of_first(old_r.insert(p, x), vals, i + 1),
{
    let r = old_r.insert(p, x);
    assert forall|j: int| 0 <= j < r.len() implies #[trigger] copy_of_first(r[j]@, vals, i + 1) by {
        if j < p {
            assert(r[j] == old_r[j]);
            assert(copy_of_first(old_r[j]@, vals, i));
        } else if j == p {
            assert(vals[i]@ == r[j]@);
        } else {
            assert(r[j] == old_r[j - 1]);
            assert(copy_of_first(old_r[j - 1]@, vals, i));
        }
    }
    assert forall|q: int| 0 <= q < i + 1 implies #[trigger] listed_in(vals[q]@, r) by {
        if q < i {
            assert(listed_in(vals[q]@, old_r));
            let j = choose|j: int| 0 <= j < old_r.len() && old_r[j]@ == vals[q]@;
            if j < p {
                assert(r[j] == old_r[j]);
            } else {
                assert(r[j + 1] == old_r[j]);
            }
        } else {
            assert(r[p]@ == vals[q]@);
        }
    }
}

fn listed_before_exec(a: &PluginInfo, b: &PluginInfo) -> (r: bool)
    ensures
        r == listed_before(a@, b@),
{
    proof {
        reveal_strlit("plugin-python-runtime");
    }
    if str_eq(a.id.as_str(), "plugin-python-runtime") {
        true
    } else if str_eq(b.id.as_str(), "plugin-python-runtime") {
        false
    } else {
        !str_lt(b.name.as_str(), a.name.as_str())
    }
}

/// The registry of plugin descriptions, by plugin id.
pub struct PluginRegistry {
    info: KeyedStore<PluginInfo>,
}

impl PluginRegistry {
    /// The registered plugins by id.
    pub closed spec fn view(&self) -> Map<Seq<char>, PluginInfoView> {
        Map::new(|k: Seq<char>| self.info.view().contains_key(k), |k: Seq<char>| self.info.view()[k]@)
    }

    /// Each plugin is stored under its own id.
    pub closed spec fn wf(&self) -> bool {
        &&& self.info.wf()
        &&& forall|k: Seq<char>| #[trigger] self.info.view().contains_key(k) ==> self.info.view()[k].id@ == k
    }

    pub fn new() -> (r: PluginRegistry)
        ensures
            r.wf(),
            r.view() == Map::<Seq<char>, PluginInfoView>::empty(),
    {
        let r = PluginRegistry { info: KeyedStore::new() };
        assert(r.view() =~= Map::<Seq<char>, PluginInfoView>::empty());
        r
    }

    /// All registered plugins: the Python runtime first, the others by name.
    pub fn list_plugins(&self) -> (r: Vec<PluginInfo>)
        requires
            self.wf(),
        ensures
            r@.len() == self.view().len(),
            forall|j: int|
                0 <= j < r@.len() ==> self.view().contains_key(#[trigger] r@[j].id@)
                    && self.view()[r@[j].id@] == r@[j]@,
            forall|k: Seq<char>|
                #[trigger] self.view().contains_key(k) ==> exists|j: int|
                    0 <= j < r@.len() && r@[j].id@ == k,
            in_listing_order(info_views(r@)),
    {
        let n = self.info.len();
        proof {
            self.info.lemma_order();
        }
        let ghost keys = self.info.keys_seq();
        let ghost vals = self.info.values_seq();
        let mut r: Vec<PluginInfo> = Vec::new();
        let mut i: usize = 0;
        while i < n
            invariant
                n == vals.len() == keys.len(),
                n == self.info.view().len(),
                keys == self.info.keys_seq(),
                vals == self.info.values_seq(),
                self.wf(),
                keys.no_duplicates(),
                forall|q: int|
                    0 <= q < keys.len() ==> self.info.view()[#[trigger] keys[q]] == vals[q],
                forall|k: Seq<char>| self.info.view().contains_key(k) <==> keys.contains(k),
                i <= n,
                r@.len() == i,
                copies_of_first(r@, vals, i as int),
                in_listing_order(info_views(r@)),
            decreases n - i,
        {
            let (_, v) = self.info.entry_at(i);
            let x = v.duplicate();
            let ghost old_r = r@;
            let p = insert_in_order(&mut r, x);
            proof {
                lemma_insert_members(old_r, p as int, x, vals, i as int);
            }
            i = i + 1;
        }
        proof {
            assert forall|j: int| 0 <= j < r@.len() implies self.view().contains_key(
                #[trigger] r@[j].id@,
            ) && self.view()[r@[j].id@] == r@[j]@ by {
                assert(copy_of_first(r@[j]@, vals, n as int));
                let q = choose|q: int| 0 <= q < n && vals[q]@ == r@[j]@;
                assert(keys.contains(keys[q]));
                assert(self.info.view()[keys[q]] == vals[q]);
                assert(vals[q].id@ == keys[q]);
            }
            assert forall|k: Seq<char>| #[trigger] self.view().contains_key(k) implies exists|j: int|
                0 <= j < r@.len() && r@[j].id@ == k by {
                assert(keys.contains(k));
                let q = choose|q: int| 0 <= q < keys.len() && keys[q] == k;
                assert(self.info.view()[keys[q]] == vals[q]);
                assert(listed_in(vals[q]@, r@));
                let j = choose|j: int| 0 <= j < r@.len() && r@[j]@ == vals[q]@;
                assert(r@[j].id@ == k);
            }
            assert(self.view().dom() =~= self.info.view().dom());
        }
        r
    }

    /// The description of a registered plugin.
    pub fn get_plugin_info(&self, id: &str) -> (r: Option<&PluginInfo>)
        requires
            self.wf(),
        ensures
            match r {
                Some(p) => self.view().contains_key(id@) && self.view()[id@] == p@,
                None => !self.view().contains_key(id@),
            },
    {
        self.info.get(id)
    }

    /// Sets the status of a registered plugin; an unknown id changes nothing.
    pub fn update_plugin_status(&mut self, id: &str, status: PluginStatus)
        requires
            old(self).wf(),
        ensures
            final(self).wf(),
            final(self).view() == if old(self).view().contains_key(id@) {
                old(self).view().insert(id@, PluginInfoView { status, ..old(self).view()[id@] })
            } else {
                old(self).view()
            },
    {
        match self.info.remove(id) {
            Some(p) => {
                let key = p.id.clone();
                let updated = PluginInfo { status, ..p };
                self.info.insert(key, updated);
                proof {
                    assert(self.view() =~= old(self).view().insert(
                        id@,
                        PluginInfoView { status, ..old(self).view()[id@] },
                    ));
                }
            },
            None => {
                assert(self.view() =~= old(self).view());
            },
        }
    }

    /// Records how a plugin's start-up went: running when it initialized,
    /// in error otherwise.
    pub fn record_initialization(&mut self, id: &str, ok: bool)
        requires
            old(self).wf(),
        ensures
            final(self).wf(),
            final(self).view() == if old(self).view().contains_key(id@) {
                old(self).view().insert(
                    id@,
                    PluginInfoView {
                        status: if ok {
                            PluginStatus::Running
                        } else {
                            PluginStatus::Error
                        },
                        ..old(self).view()[id@]
                    },
                )
            } else {
                old(self).view()
            },
    {
        let status = if ok {
            PluginStatus::Running
        } else {
            PluginStatus::Error
        };
        self.update_plugin_status(id, status);
    }

    /// Without a Python interpreter the Python runtime and the schedulers
    /// built on it (Dask, Ray) are in error.
    pub fn mark_python_unavailable(&mut self)
        requires
            old(self).wf(),
        ensures
            final(self).wf(),
            final(self).view().dom() == old(self).view().dom(),
            forall|k: Seq<char>|
                #[trigger] final(self).view().contains_key(k) ==> final(self).view()[k] == if k
                    == python_runtime_id() || k == dask_scheduler_id() || k == "plugin-ray"@ {
                    PluginInfoView { status: PluginStatus::Error, ..old(self).view()[k] }
                } else {
                    old(self).view()[k]
                },
    {
        proof {
            reveal_strlit("plugin-python-runtime");
            reveal_strlit("plugin-dask-scheduler");
            reveal_strlit("plugin-ray");
        }
        self.update_plugin_status("plugin-python-runtime", PluginStatus::Error);
        self.update_plugin_status("plugin-dask-scheduler", PluginStatus::Error);
        self.update_plugin_status("plugin-ray", PluginStatus::Error);
        proof {
            assert(final(self).view().dom() =~= old(self).view().dom());
        }
    }

    /// Registers (or re-registers) a plugin under its own id.
    fn register(&mut self, info: PluginInfo)
        requires
            old(self).wf(),
        ensures
            final(self).wf(),
            final(self).view() == old(self).view().insert(info.id@, info@),
    {
        let key = info.id.clone();
        self.info.insert(key, info);
        assert(self.view() =~= old(self).view().insert(info.id@, info@));
    }

    /// Registers the Python runtime plugin, initializing.
    pub fn register_python_runtime(&mut self)
        requires
            old(self).wf(),
        ensures
            final(self).wf(),
            final(self).view() == old(self).view().insert(python_runtime_id(), python_runtime_info()),
    {
        proof {
            reveal_strlit("plugin-python-runtime");
        }
        let mut capabilities: Vec<String> = Vec::new();
        capabilities.push(String::from_str("Python Execution"));
        capabilities.push(String::from_str("Package Management"));
        capabilities.push(String::from_str("Virtual Environment Management"));
        capabilities.push(String::from_str("Script Execution"));
        let info = PluginInfo {
            id: String::from_str("plugin-python-runtime"),
            name: String::from_str("Python Runtime"),
            version: String::from_str("0.1.0"),
            status: PluginStatus::Initializing,
            author: String::from_str("Cluster Runtime Team"),
            description: String::from_str(
                "Embedded Python 3.13 runtime with virtual environment, package management, and code execution.",
            ),
            capabilities,
            plugin_type: String::from_str("Runtime"),
        };
        assert(info@.capabilities =~= python_runtime_info().capabilities);
        self.register(info);
    }

    /// Registers the Dask scheduler plugin, initializing until its packages
    /// are ready.
    pub fn register_dask_scheduler(&mut self)
        requires
            old(self).wf(),
        ensures
            final(self).wf(),
            final(self).view() == old(self).view().insert(dask_scheduler_id(), dask_scheduler_info()),
    {
        let mut capabilities: Vec<String> = Vec::new();
        capabilities.push(String::from_str("Distributed Scheduling"));
        capabilities.push(String::from_str("Distributed Workers"));
        capabilities.push(String::from_str("Task Submission"));
        capabilities.push(String::from_str("Cluster Monitoring"));
        capabilities.push(String::from_str("Dashboard Integration"));
        let info = PluginInfo {
            id: String::from_str("plugin-dask-scheduler"),
            name: String::from_str("Dask Scheduler"),
            version: String::from_str("0.1.0"),
            status: PluginStatus::Initializing,
            author: String::from_str("Cluster Runtime Team"),
            description: String::from_str(
                "Distributed scheduling via Dask. Uses the Python Runtime Plugin for all execution and package management.",
            ),
            capabilities,
            plugin_type: String::from_str("Scheduler"),
        };
        assert(info@.capabilities =~= dask_scheduler_info().capabilities);
        self.register(info);
    }
}

impl Default for PluginRegistry {
    fn default() -> (r: Self)
        ensures
            r.wf(),
            r.view() == Map::<Seq<char>, PluginInfoView>::empty(),
    {
        PluginRegistry::new()
    }
}

/// The description the Python runtime registers with.
pub open spec fn python_runtime_info() -> PluginInfoView {
    PluginInfoView {
        id: "plugin-python-runtime"@,
        name: "Python Runtime"@,
        version: "0.1.0"@,
        status: PluginStatus::Initializing,
        author: "Cluster Runtime Team"@,
        description: "Embedded Python 3.13 runtime with virtual environment, package management, and code execution."@,
        capabilities: seq![
            "Python Execution"@,
            "Package Management"@,
            "Virtual Environment Management"@,
            "Script Execution"@,
        ],
        plugin_type: "Runtime"@,
    }
}

/// The id under which the Dask scheduler registers.
pub open spec fn dask_scheduler_id() -> Seq<char> {
    "plugin-dask-scheduler"@
}

/// The description the Dask scheduler registers with.
pub open spec fn dask_scheduler_info() -> PluginInfoView {
    PluginInfoView {
        id: "plugin-dask-scheduler"@,
        name: "Dask Scheduler"@,
        version: "0.1.0"@,
        status: PluginStatus::Initializing,
        author: "Cluster Runtime Team"@,
        description: "Distributed scheduling via Dask. Uses the Python Runtime Plugin for all execution and package management."@,
        capabilities: seq![
            "Distributed Scheduling"@,
            "Distributed Workers"@,
            "Task Submission"@,
            "Cluster Monitoring"@,
            "Dashboard Integration"@,
        ],
        plugin_type: "Scheduler"@,
    }
}

/// In the listing order the Python runtime, when registered, comes first.
pub proof fn lemma_python_runtime_first(s: Seq<PluginInfoView>, j: int)
    requires
        in_listing_order(s),
        0 <= j < s.len(),
        s[j].id == python_runtime_id(),
    ensures
        s[0].id == python_runtime_id(),
{
    if j > 0 {
        assert(listed_before(s[0], s[j]));
    }
}

/// In the listing order the plugins other than the Python runtime come by
/// name.
pub proof fn lemma_listing_by_name(s: Seq<PluginInfoView>, a: int, b: int)
    requires
        in_listing_order(s),
        0 <= a < b < s.len(),
        s[a].id != python_runtime_id(),
    ensures
        !seq_lt(s[b].name, s[a].name),
{
    assert(listed_before(s[a], s[b]));
}

} // verus!
