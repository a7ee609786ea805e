//! Node descriptions for the cluster view.

use vstd::prelude::*;

use crate::text::{ascii_lower_seq, str_eq, to_ascii_lowercase};

verus! {

#[derive(Debug, Clone, Copy, PartialEq, Eq, Structural)]
pub enum NodeStatus {
    Online,
    Offline,
    Degraded,
    Maintenance,
}

#[derive(Debug, Clone, Copy, PartialEq, Eq, Structural)]
pub enum NodePlatform {
    Windows,
    Linux,
    MacOS,
    Android,
    RaspberryPi,
    Other,
}

/// The node status a worker's reported state maps to (case-insensitive).
pub open spec fn worker_status_of(status: Seq<char>) -> NodeStatus {
    let s = ascii_lower_seq(status);
    if s == "running"@ || s == "ready"@ || s == "alive"@ {
        NodeStatus::Online
    } else if s == "busy"@ || s == "paused"@ {
        NodeStatus::Degraded
    } else if s == "closed"@ || s == "stopped"@ || s == "offline"@ {
        NodeStatus::Offline
    } else {
        NodeStatus::Online
    }
}

pub fn map_worker_status(status: &str) -> (r: NodeStatus)
    ensures
        r == worker_status_of(status@),
{
    let lowered = to_ascii_lowercase(status);
    let s = lowered.as_str();
    if str_eq(s, "running") || str_eq(s, "ready") || str_eq(s, "alive") {
        NodeStatus::Online
    } else if str_eq(s, "busy") || str_eq(s, "paused") {
        NodeStatus::Degraded
    } else if str_eq(s, "closed") || str_eq(s, "stopped") || str_eq(s, "offline") {
        NodeStatus::Offline
    } else {
        NodeStatus::Online
    }
}

/// The platform named by a target operating system (`std::env::consts::OS`).
pub open spec fn platform_of_os(os: Seq<char>) -> NodePlatform {
    if os == "windows"@ {
        NodePlatform::Windows
    } else if os == "macos"@ {
        NodePlatform::MacOS
    } else if os == "linux"@ {
        NodePlatform::Linux
    } else {
        NodePlatform::Other
    }
}

/// The platform of the machine whose operating system is `os`.
pub fn platform_for_os(os: &str) -> (r: NodePlatform)
    ensures
        r == platform_of_os(os@),
{
    if str_eq(os, "windows") {
        NodePlatform::Windows
    } else if str_eq(os, "macos") {
        NodePlatform::MacOS
    } else if str_eq(os, "linux") {
        NodePlatform::Linux
    } else {
        NodePlatform::Other
    }
}

// ───────────────────────── nodes of a Dask cluster ─────────────────────────

/// The local scheduler as the node list needs it.
pub struct SchedulerView {
    pub running: bool,
    pub process_id: Option<String>,
    pub host: String,
    pub address: Option<String>,
}

/// A worker the scheduler reports.
pub struct WorkerView {
    pub id: String,
    pub name: String,
    pub status: String,
    pub address: String,
}

/// The local worker process.
pub struct LocalWorkerView {
    pub running: bool,
    pub process_id: Option<String>,
    pub name: String,
    pub scheduler_address: String,
}

/// A node of the cluster view, without its load figures and time.
#[derive(Debug, Clone)]
pub struct NodeEntry {
    pub id: String,
    pub name: String,
    pub platform: NodePlatform,
    pub status: NodeStatus,
    pub backend: String,
    pub version: String,
}

/// A node entry as plain values.
pub struct NodeEntryView {
    pub id: Seq<char>,
    pub name: Seq<char>,
    pub platform: NodePlatform,
    pub status: NodeStatus,
    pub backend: Seq<char>,
    pub version: Seq<char>,
}

impl View for NodeEntry {
    type V = NodeEntryView;

    open spec fn view(&self) -> NodeEntryView {
        NodeEntryView {
            id: self.id@,
            name: self.name@,
            platform: self.platform,
            status: self.status,
            backend: self.backend@,
            version: self.version@,
        }
    }
}

pub open spec fn entry_views(v: Seq<NodeEntry>) -> Seq<NodeEntryView> {
    Seq::new(v.len(), |i: int| v[i]@)
}

/// The scheduler's node: named after its host, versioned by its address.
pub open spec fn scheduler_node(s: SchedulerView, platform: NodePlatform) -> NodeEntryView {
    NodeEntryView {
        id: match s.process_id {
            Some(p) => p@,
            None => "local-scheduler"@,
        },
        name: "scheduler ("@ + s.host@ + ")"@,
        platform,
        status: NodeStatus::Online,
        backend: "dask-scheduler"@,
        version: match s.address {
            Some(a) => a@,
            None => "tcp://127.0.0.1:8786"@,
        },
    }
}

/// A reported worker's node.
pub open spec fn worker_node(w: WorkerView) -> NodeEntryView {
    NodeEntryView {
        id: w.id@,
        name: w.name@,
        platform: NodePlatform::Other,
        status: worker_status_of(w.status@),
        backend: "dask-worker"@,
        version: w.address@,
    }
}

/// The local worker's node.
pub open spec fn local_worker_node(l: LocalWorkerView, platform: NodePlatform) -> NodeEntryView {
    NodeEntryView {
        id: match l.process_id {
            Some(p) => p@,
            None => "local-"@ + l.name@,
        },
        name: l.name@,
        platform,
        status: NodeStatus::Online,
        backend: "dask-worker"@,
        version: l.scheduler_address@,
    }
}

/// Whether a node of the list has the given name.
pub open spec fn has_name(listed: Seq<NodeEntryView>, name: Seq<char>) -> bool {
    exists|i: int| 0 <= i < listed.len() && #[trigger] listed[i].name == name
}

/// The nodes of a Dask cluster: the scheduler when it runs, every reported
/// worker, and the local worker when it runs and no listed node has its
/// name yet.
pub open spec fn dask_nodes_of(
    s: SchedulerView,
    workers: Seq<WorkerView>,
    local: LocalWorkerView,
    platform: NodePlatform,
) -> Seq<NodeEntryView> {
    let head: Seq<NodeEntryView> = if s.running {
        seq![scheduler_node(s, platform)]
    } else {
        seq![]
    };
    let listed = head + Seq::new(workers.len(), |i: int| worker_node(workers[i]));
    if local.running && !has_name(listed, local.name@) {
        listed.push(local_worker_node(local, platform))
    } else {
        listed
    }
}

pub fn nodes_from_dask(
    scheduler: &SchedulerView,
    workers: &Vec<WorkerView>,
    local: &LocalWorkerView,
    platform: NodePlatform,
) -> (r: Vec<NodeEntry>)
    ensures
        entry_views(r@) == dask_nodes_of(*scheduler, workers@, *local, platform),
{
    let mut r: Vec<NodeEntry> = Vec::new();
    if scheduler.running {
        let mut name = String::from_str("scheduler (");
        name.append(scheduler.host.as_str());
        name.append(")");
        r.push(
            NodeEntry {
                id: match &scheduler.process_id {
                    Some(p) => p.clone(),
                    None => String::from_str("local-scheduler"),
                },
                name,
                platform,
                status: NodeStatus::Online,
                backend: String::from_str("dask-scheduler"),
                version: match &scheduler.address {
                    Some(a) => a.clone(),
                    None => String::from_str("tcp://127.0.0.1:8786"),
                },
            },
        );
    }
    let ghost head = entry_views(r@);
    assert(head =~= if scheduler.running {
        seq![scheduler_node(*scheduler, platform)]
    } else {
        Seq::<NodeEntryView>::empty()
    });
    let mut i: usize = 0;
    while i < workers.len()
        invariant
            i <= workers@.len(),
            entry_views(r@) == head + Seq::new(i as nat, |j: int| worker_node(workers@[j])),
        decreases workers@.len() - i,
    {
        let w = &workers[i];
        let ghost before = r@;
        r.push(
            NodeEntry {
                id: w.id.clone(),
                name: w.name.clone(),
                platform: NodePlatform::Other,
                status: map_worker_status(w.status.as_str()),
                backend: String::from_str("dask-worker"),
                version: w.address.clone(),
            },
        );
        proof {
            let ws = Seq::new((i + 1) as nat, |j: int| worker_node(workers@[j]));
            let ws0 = Seq::new(i as nat, |j: int| worker_node(workers@[j]));
            assert(entry_views(before) == head + ws0);
            assert(r@ == before.push(r@[before.len() as int]));
            assert(r@[before.len() as int]@ == worker_node(workers@[i as int]));
            assert forall|j: int| 0 <= j < r@.len() implies #[trigger] entry_views(r@)[j] == (head + ws)[j] by {
                if j < before.len() {
                    assert(entry_views(r@)[j] == entry_views(before)[j]);
                    if j >= head.len() {
                        assert(ws[j - head.len()] == ws0[j - head.len()]);
                    }
                }
            }
            assert(entry_views(r@) =~= head + ws);
        }
        i = i + 1;
    }
    let ghost listed = entry_views(r@);
    assert(listed == head + Seq::new(workers@.len(), |j: int| worker_node(workers@[j])));
    if local.running {
        let mut seen = false;
        let mut k: usize = 0;
        while k < r.len()
            invariant
                k <= r@.len(),
                listed == entry_views(r@),
                seen <==> has_name(listed.take(k as int), local.name@),
            decreases r@.len() - k,
        {
            if str_eq(r[k].name.as_str(), local.name.as_str()) {
                seen = true;
            }
            proof {
                assert(listed[k as int].name == r@[k as int].name@);
                let t0 = listed.take(k as int);
                let t1 = listed.take(k + 1);
                assert(t1[k as int] == listed[k as int]);
                if has_name(t0, local.name@) {
                    let j = choose|j: int| 0 <= j < t0.len() && #[trigger] t0[j].name == local.name@;
                    assert(t1[j] == t0[j]);
                }
                if has_name(t1, local.name@) {
                    let j = choose|j: int| 0 <= j < t1.len() && #[trigger] t1[j].name == local.name@;
                    if j < k {
                        assert(t0[j] == t1[j]);
                    }
                }
            }
            k = k + 1;
        }
        assert(k == listed.len());
        assert(listed.take(k as int) =~= listed);
        if seen {
            assert(dask_nodes_of(*scheduler, workers@, *local, platform) == listed);
        }
        if !seen {
            r.push(
                NodeEntry {
                    id: match &local.process_id {
                        Some(p) => p.clone(),
                        None => {
                            let mut id = String::from_str("local-");
                            id.append(local.name.as_str());
                            id
                        },
                    },
                    name: local.name.clone(),
                    platform,
                    status: NodeStatus::Online,
                    backend: String::from_str("dask-worker"),
                    version: local.scheduler_address.clone(),
                },
            );
            assert(entry_views(r@) =~= listed.push(local_worker_node(*local, platform)));
        }
    }
    else {
        assert(dask_nodes_of(*scheduler, workers@, *local, platform) == listed);
    }
    r
}

} // verus!
