//! Cluster health as seen from this node.

use vstd::prelude::*;

use crate::clock::Timestamp;
use crate::dask::client::{ClusterInfoFields, WorkerEntry};
use crate::dask::components::{SchedulerInfo, WorkerInfo};
use crate::dask::types::{ClusterHealth, ComponentStatus};

verus! {

/// The health rule: a running scheduler with workers is healthy; a running
/// scheduler without any is degraded; an errored one is unhealthy; a
/// starting or stopping one is degraded; with no local scheduler, a running
/// local worker makes the node healthy when workers are visible and degraded
/// otherwise; anything else is unknown.
pub open spec fn health_of(
    scheduler: ComponentStatus,
    worker_count: nat,
    local_worker: ComponentStatus,
) -> ClusterHealth {
    match scheduler {
        ComponentStatus::Running => if worker_count > 0 {
            ClusterHealth::Healthy
        } else {
            ClusterHealth::Degraded
        },
        ComponentStatus::Error => ClusterHealth::Unhealthy,
        ComponentStatus::Starting | ComponentStatus::Stopping => ClusterHealth::Degraded,
        _ => if local_worker == ComponentStatus::Running {
            if worker_count > 0 {
                ClusterHealth::Healthy
            } else {
                ClusterHealth::Degraded
            }
        } else {
            ClusterHealth::Unknown
        },
    }
}

pub fn compute_health(
    scheduler: &ComponentStatus,
    worker_count: usize,
    local_worker: &ComponentStatus,
) -> (h: ClusterHealth)
    ensures
        h == health_of(*scheduler, worker_count as nat, *local_worker),
{
    match scheduler {
        ComponentStatus::Running => {
            if worker_count > 0 {
                ClusterHealth::Healthy
            } else if *local_worker == ComponentStatus::Running {
                ClusterHealth::Degraded
            } else {
                ClusterHealth::Degraded
            }
        },
        ComponentStatus::Error => ClusterHealth::Unhealthy,
        ComponentStatus::Starting | ComponentStatus::Stopping => ClusterHealth::Degraded,
        _ => {
            if *local_worker == ComponentStatus::Running {
                // Worker-only node joined a remote scheduler.
                if worker_count > 0 {
                    ClusterHealth::Healthy
                } else {
                    ClusterHealth::Degraded
                }
            } else {
                ClusterHealth::Unknown
            }
        },
    }
}

/// A cluster is healthy only when workers are visible, and an errored
/// scheduler always makes it unhealthy.
pub proof fn lemma_health(scheduler: ComponentStatus, worker_count: nat, local_worker: ComponentStatus)
    ensures
        health_of(scheduler, worker_count, local_worker) == ClusterHealth::Healthy ==> worker_count > 0,
        scheduler == ComponentStatus::Error ==> health_of(scheduler, worker_count, local_worker)
            == ClusterHealth::Unhealthy,
        health_of(scheduler, worker_count, local_worker) == ClusterHealth::Unhealthy ==> scheduler
            == ComponentStatus::Error,
{
}

/// Where a snapshot probes the cluster: the local scheduler's address,
/// else, when the local worker runs, the scheduler it joined; nowhere
/// otherwise.
pub fn probe_address(
    scheduler_address: Option<String>,
    local_worker: ComponentStatus,
    worker_scheduler_address: &str,
) -> (r: Option<String>)
    ensures
        scheduler_address is Some ==> r == scheduler_address,
        scheduler_address is None ==> (r is Some <==> local_worker == ComponentStatus::Running),
        scheduler_address is None && r is Some ==> r->Some_0@ == worker_scheduler_address@,
{
    match scheduler_address {
        Some(a) => Some(a),
        None => {
            if local_worker == ComponentStatus::Running {
                Some(String::from_str(worker_scheduler_address))
            } else {
                None
            }
        },
    }
}

/// The sum of a list of counts.
pub open spec fn total_of(s: Seq<nat>) -> nat
    decreases s.len(),
{
    if s.len() == 0 {
        0
    } else {
        total_of(s.drop_last()) + s.last()
    }
}

proof fn lemma_total_prefix(s: Seq<nat>, k: int)
    requires
        0 <= k <= s.len(),
    ensures
        total_of(s.take(k)) <= total_of(s),
    decreases s.len(),
{
    if k < s.len() {
        assert(s.drop_last().take(k) =~= s.take(k));
        lemma_total_prefix(s.drop_last(), k);
    } else {
        assert(s.take(k) =~= s);
    }
}

/// The workers' threads and memory limits added up.
pub fn worker_totals(nthreads: &Vec<usize>, memory_limits: &Vec<u64>) -> (r: (usize, u64))
    requires
        total_of(nthreads@.map_values(|n: usize| n as nat)) <= usize::MAX,
        total_of(memory_limits@.map_values(|m: u64| m as nat)) <= u64::MAX,
    ensures
        r.0 == total_of(nthreads@.map_values(|n: usize| n as nat)),
        r.1 == total_of(memory_limits@.map_values(|m: u64| m as nat)),
{
    let ghost ts = nthreads@.map_values(|n: usize| n as nat);
    let ghost ms = memory_limits@.map_values(|m: u64| m as nat);
    let mut cores: usize = 0;
    let mut i: usize = 0;
    while i < nthreads.len()
        invariant
            i <= nthreads@.len(),
            ts == nthreads@.map_values(|n: usize| n as nat),
            total_of(ts) <= usize::MAX,
            cores == total_of(ts.take(i as int)),
        decreases nthreads@.len() - i,
    {
        assert(ts.take(i + 1).drop_last() =~= ts.take(i as int));
        proof {
            lemma_total_prefix(ts, i + 1);
        }
        cores = cores + nthreads[i];
        i = i + 1;
    }
    assert(ts.take(nthreads@.len() as int) =~= ts);
    let mut memory: u64 = 0;
    let mut j: usize = 0;
    while j < memory_limits.len()
        invariant
            j <= memory_limits@.len(),
            ms == memory_limits@.map_values(|m: u64| m as nat),
            total_of(ms) <= u64::MAX,
            memory == total_of(ms.take(j as int)),
        decreases memory_limits@.len() - j,
    {
        assert(ms.take(j + 1).drop_last() =~= ms.take(j as int));
        proof {
            lemma_total_prefix(ms, j + 1);
        }
        memory = memory + memory_limits[j];
        j = j + 1;
    }
    assert(ms.take(memory_limits@.len() as int) =~= ms);
    (cores, memory)
}

/// A worker the cluster reports. Its CPU load is the bit pattern of its
/// `f64` value: it is carried, never computed with.
#[derive(Debug, Clone)]
pub struct ConnectedWorker {
    pub id: String,
    pub name: String,
    pub address: String,
    pub nthreads: usize,
    pub memory_limit: u64,
    pub memory_used: u64,
    pub cpu_bits: u64,
    pub status: String,
}

impl ConnectedWorker {
    /// A copy of the worker.
    pub fn duplicate(&self) -> (r: ConnectedWorker)
        ensures
            r == *self,
    {
        ConnectedWorker {
            id: self.id.clone(),
            name: self.name.clone(),
            address: self.address.clone(),
            nthreads: self.nthreads,
            memory_limit: self.memory_limit,
            memory_used: self.memory_used,
            cpu_bits: self.cpu_bits,
            status: self.status.clone(),
        }
    }
}

/// `w` is the worker that the answer's entry `f` describes: a missing text
/// is empty (the status `unknown`), a missing number is 0.
pub open spec fn worker_from(f: WorkerEntry, w: ConnectedWorker) -> bool {
    &&& w.id@ == (match f.id {
        Some(x) => x@,
        None => Seq::<char>::empty(),
    })
    &&& w.name@ == (match f.name {
        Some(x) => x@,
        None => Seq::<char>::empty(),
    })
    &&& w.address@ == (match f.address {
        Some(x) => x@,
        None => Seq::<char>::empty(),
    })
    &&& w.nthreads == (match f.nthreads {
        Some(n) => n as usize,
        None => 0usize,
    })
    &&& w.memory_limit == (match f.memory_limit {
        Some(n) => n,
        None => 0u64,
    })
    &&& w.memory_used == (match f.memory_used {
        Some(n) => n,
        None => 0u64,
    })
    &&& w.cpu_bits == (match f.cpu_bits {
        Some(n) => n,
        None => 0u64,
    })
    &&& w.status@ == (match f.status {
        Some(x) => x@,
        None => "unknown"@,
    })
}

/// A worker from what the answer says of it: a missing text is empty (the
/// status `unknown`), a missing number is 0.
pub fn connected_worker(f: WorkerEntry) -> (w: ConnectedWorker)
    ensures
        worker_from(f, w),
{
    ConnectedWorker {
        id: match f.id {
            Some(x) => x,
            None => String::new(),
        },
        name: match f.name {
            Some(x) => x,
            None => String::new(),
        },
        address: match f.address {
            Some(x) => x,
            None => String::new(),
        },
        nthreads: match f.nthreads {
            Some(n) => #[verifier::truncate] (n as usize),
            None => 0,
        },
        memory_limit: match f.memory_limit {
            Some(n) => n,
            None => 0,
        },
        memory_used: match f.memory_used {
            Some(n) => n,
            None => 0,
        },
        cpu_bits: match f.cpu_bits {
            Some(n) => n,
            None => 0,
        },
        status: match f.status {
            Some(x) => x,
            None => String::from_str("unknown"),
        },
    }
}

/// A view of the cluster at one moment. The bandwidth is not measured
/// here; completed and failed task counts are not reported by the probe.
#[derive(Debug, Clone)]
pub struct ClusterSnapshot {
    pub health: ClusterHealth,
    pub scheduler: SchedulerInfo,
    pub local_worker: WorkerInfo,
    pub workers: Vec<ConnectedWorker>,
    pub total_cores: usize,
    pub total_memory: u64,
    pub active_tasks: u64,
    pub completed_tasks: u64,
    pub failed_tasks: u64,
    pub client_connected: bool,
    pub updated_at: Option<Timestamp>,
}

/// Two snapshots say the same: equal fields, the same workers.
pub open spec fn same_snapshot(a: ClusterSnapshot, b: ClusterSnapshot) -> bool {
    &&& a.health == b.health
    &&& a.scheduler == b.scheduler
    &&& a.local_worker == b.local_worker
    &&& a.workers@ == b.workers@
    &&& a.total_cores == b.total_cores
    &&& a.total_memory == b.total_memory
    &&& a.active_tasks == b.active_tasks
    &&& a.completed_tasks == b.completed_tasks
    &&& a.failed_tasks == b.failed_tasks
    &&& a.client_connected == b.client_connected
    &&& a.updated_at == b.updated_at
}

impl ClusterSnapshot {
    /// A copy of the snapshot.
    pub fn duplicate(&self) -> (r: ClusterSnapshot)
        ensures
            same_snapshot(r, *self),
    {
        let mut workers: Vec<ConnectedWorker> = Vec::new();
        let mut i: usize = 0;
        while i < self.workers.len()
            invariant
                i <= self.workers@.len(),
                workers@ == self.workers@.take(i as int),
            decreases self.workers@.len() - i,
        {
            workers.push(self.workers[i].duplicate());
            assert(workers@ =~= self.workers@.take(i + 1));
            i = i + 1;
        }
        assert(workers@ =~= self.workers@);
        ClusterSnapshot {
            health: self.health,
            scheduler: self.scheduler.duplicate(),
            local_worker: self.local_worker.duplicate(),
            workers,
            total_cores: self.total_cores,
            total_memory: self.total_memory,
            active_tasks: self.active_tasks,
            completed_tasks: self.completed_tasks,
            failed_tasks: self.failed_tasks,
            client_connected: self.client_connected,
            updated_at: self.updated_at,
        }
    }
}

/// How the probe of the cluster went.
pub enum ProbeOutcome {
    /// There was nothing to probe: no scheduler address is known.
    NoAddress,
    /// The probe failed.
    Failed,
    /// The cluster answered with these workers and, maybe, its active task
    /// count.
    Answered { workers: Vec<ConnectedWorker>, active_tasks: Option<u64> },
}

/// The probe outcome of a cluster-info answer (`None`: the probe failed):
/// the workers its `workers` array describes (none without the array), in
/// order, and its active task count.
pub fn probe_from_answer(answer: Option<ClusterInfoFields>) -> (p: ProbeOutcome)
    ensures
        answer is None ==> p is Failed,
        answer matches Some(f) ==> {
            &&& p matches ProbeOutcome::Answered { workers, active_tasks }
            &&& active_tasks == f.active_tasks
            &&& match f.workers {
                Some(es) => workers@.len() == es@.len() && forall|i: int|
                    0 <= i < es@.len() ==> #[trigger] worker_from(es@[i], workers@[i]),
                None => workers@.len() == 0,
            }
        },
{
    match answer {
        None => ProbeOutcome::Failed,
        Some(f) => {
            let mut workers: Vec<ConnectedWorker> = Vec::new();
            match f.workers {
                Some(es) => {
                    let ghost es0 = es@;
                    let mut rest = es;
                    let mut taken: Vec<WorkerEntry> = Vec::new();
                    let n = rest.len();
                    // Take the entries from the back, then turn the list around.
                    while rest.len() > 0
                        invariant
                            rest@ == es0.take(rest@.len() as int),
                            n == es0.len(),
                            taken@.len() == n - rest@.len(),
                            forall|j: int| 0 <= j < taken@.len() ==> #[trigger] taken@[j] == es0[n - 1 - j],
                        decreases rest@.len(),
                    {
                        let e = rest.pop().unwrap();
                        taken.push(e);
                        assert(rest@ =~= es0.take(rest@.len() as int));
                    }
                    while taken.len() > 0
                        invariant
                            n == es0.len(),
                            workers@.len() + taken@.len() == n,
                            forall|j: int| 0 <= j < taken@.len() ==> #[trigger] taken@[j] == es0[n - 1 - j],
                            forall|i: int| 0 <= i < workers@.len() ==> #[trigger] worker_from(es0[i], workers@[i]),
                        decreases taken@.len(),
                    {
                        let k = taken.len();
                        let e = taken.pop().unwrap();
                        assert(e == es0[n - k]);
                        workers.push(connected_worker(e));
                    }
                },
                None => {},
            }
            ProbeOutcome::Answered { workers, active_tasks: f.active_tasks }
        },
    }
}

/// The workers' threads added up.
pub open spec fn cores_of(ws: Seq<ConnectedWorker>) -> nat {
    total_of(ws.map_values(|w: ConnectedWorker| w.nthreads as nat))
}

/// The workers' memory limits added up.
pub open spec fn memory_of(ws: Seq<ConnectedWorker>) -> nat {
    total_of(ws.map_values(|w: ConnectedWorker| w.memory_limit as nat))
}

/// The monitor's memory: the last snapshot it built from a probe.
pub struct MonitorState {
    pub last: Option<ClusterSnapshot>,
    /// The scheduler address the client was last pointed at.
    pub client_address: Option<String>,
}

impl MonitorState {
    pub fn new() -> (m: MonitorState)
        ensures
            m.last is None,
            m.client_address is None,
    {
        MonitorState { last: None, client_address: None }
    }

    /// Where a snapshot probes: the local scheduler's address, else, when
    /// the local worker runs, the scheduler it joined. The client is pointed
    /// at that address; with none, nothing is probed and the client keeps its
    /// address.
    pub fn probe_target(&mut self, scheduler: &SchedulerInfo, local_worker: &WorkerInfo) -> (a: Option<String>)
        ensures
            scheduler.address is Some ==> a == scheduler.address,
            scheduler.address is None ==> (a is Some <==> local_worker.status == ComponentStatus::Running),
            scheduler.address is None && a is Some ==> a->Some_0@ == local_worker.scheduler_address@,
            a is Some ==> final(self).client_address == a,
            a is None ==> final(self).client_address == old(self).client_address,
            final(self).last == old(self).last,
    {
        let a = probe_address(
            crate::dask::components::copy_opt(&scheduler.address),
            local_worker.status,
            local_worker.scheduler_address.as_str(),
        );
        match &a {
            Some(x) => {
                self.client_address = Some(x.clone());
            },
            None => {},
        }
        a
    }

    /// What an overlapping poll serves: the last snapshot with the local
    /// components' current records and the moment `now`, or, with none yet,
    /// an empty snapshot of unknown health.
    pub fn cached_or_local(&self, scheduler: SchedulerInfo, local_worker: WorkerInfo, now: Timestamp) -> (s:
        ClusterSnapshot)
        ensures
            s.scheduler == scheduler,
            s.local_worker == local_worker,
            s.updated_at == Some(now),
            match self.last {
                Some(l) => same_snapshot(s, ClusterSnapshot { scheduler, local_worker, updated_at: Some(now), ..l }),
                None => s.health == ClusterHealth::Unknown && s.workers@.len() == 0 && s.total_cores == 0
                    && s.total_memory == 0 && s.active_tasks == 0 && s.completed_tasks == 0 && s.failed_tasks
                    == 0 && !s.client_connected,
            },
    {
        match &self.last {
            Some(l) => {
                let mut c = l.duplicate();
                c.scheduler = scheduler;
                c.local_worker = local_worker;
                c.updated_at = Some(now);
                c
            },
            None => ClusterSnapshot {
                health: ClusterHealth::Unknown,
                scheduler,
                local_worker,
                workers: Vec::new(),
                total_cores: 0,
                total_memory: 0,
                active_tasks: 0,
                completed_tasks: 0,
                failed_tasks: 0,
                client_connected: false,
                updated_at: Some(now),
            },
        }
    }

    /// Builds the snapshot from the local components' records and the probe.
    /// A failed probe with an earlier snapshot serves that snapshot again
    /// (with the current records and `now`) and keeps the memory as it is.
    /// Otherwise the snapshot lists the answered workers (none without an
    /// answer) with their threads and memory added up, the active task
    /// count (0 when not given), whether the probe answered, and the health
    /// of the scheduler, the worker count and the local worker; it becomes
    /// the remembered one.
    pub fn snapshot(
        &mut self,
        scheduler: SchedulerInfo,
        local_worker: WorkerInfo,
        probe: ProbeOutcome,
        now: Timestamp,
    ) -> (s: ClusterSnapshot)
        requires
            probe matches ProbeOutcome::Answered { workers, .. } ==> cores_of(workers@) <= usize::MAX
                && memory_of(workers@) <= u64::MAX,
        ensures
            s.scheduler == scheduler,
            s.local_worker == local_worker,
            s.updated_at == Some(now),
            match (probe, old(self).last) {
                (ProbeOutcome::Failed, Some(l)) => {
                    &&& same_snapshot(s, ClusterSnapshot { scheduler, local_worker, updated_at: Some(now), ..l })
                    &&& final(self).last == old(self).last
                },
                _ => {
                    let ws = match probe {
                        ProbeOutcome::Answered { workers, .. } => workers@,
                        _ => Seq::<ConnectedWorker>::empty(),
                    };
                    &&& s.workers@ == ws
                    &&& s.total_cores == cores_of(ws)
                    &&& s.total_memory == memory_of(ws)
                    &&& s.active_tasks == (match probe {
                        ProbeOutcome::Answered { active_tasks: Some(t), .. } => t,
                        _ => 0u64,
                    })
                    &&& s.completed_tasks == 0
                    &&& s.failed_tasks == 0
                    &&& s.client_connected == (probe is Answered)
                    &&& s.health == health_of(scheduler.status, ws.len(), local_worker.status)
                    &&& final(self).last matches Some(c) && same_snapshot(c, s)
                },
            },
    {
        let answered = match &probe {
            ProbeOutcome::Answered { .. } => true,
            _ => false,
        };
        match probe {
            ProbeOutcome::Failed => {
                if self.last.is_some() {
                    return self.cached_or_local(scheduler, local_worker, now);
                }
            },
            _ => {},
        }
        let (workers, active_tasks) = match probe {
            ProbeOutcome::Answered { workers, active_tasks } => (
                workers,
                match active_tasks {
                    Some(t) => t,
                    None => 0,
                },
            ),
            _ => (Vec::new(), 0),
        };
        let mut nthreads: Vec<usize> = Vec::new();
        let mut limits: Vec<u64> = Vec::new();
        let mut i: usize = 0;
        while i < workers.len()
            invariant
                i <= workers@.len(),
                nthreads@ == workers@.take(i as int).map_values(|w: ConnectedWorker| w.nthreads),
                limits@ == workers@.take(i as int).map_values(|w: ConnectedWorker| w.memory_limit),
            decreases workers@.len() - i,
        {
            nthreads.push(workers[i].nthreads);
            limits.push(workers[i].memory_limit);
            assert(nthreads@ =~= workers@.take(i + 1).map_values(|w: ConnectedWorker| w.nthreads));
            assert(limits@ =~= workers@.take(i + 1).map_values(|w: ConnectedWorker| w.memory_limit));
            i = i + 1;
        }
        assert(workers@.take(i as int) =~= workers@);
        assert(nthreads@.map_values(|n: usize| n as nat) =~= workers@.map_values(
            |w: ConnectedWorker| w.nthreads as nat,
        ));
        assert(limits@.map_values(|m: u64| m as nat) =~= workers@.map_values(|w: ConnectedWorker| w.memory_limit as nat));
        let (cores, memory) = worker_totals(&nthreads, &limits);
        let health = compute_health(&scheduler.status, workers.len(), &local_worker.status);
        let s = ClusterSnapshot {
            health,
            scheduler,
            local_worker,
            workers,
            total_cores: cores,
            total_memory: memory,
            active_tasks,
            completed_tasks: 0,
            failed_tasks: 0,
            client_connected: answered,
            updated_at: Some(now),
        };
        self.last = Some(s.duplicate());
        s
    }
}

} // verus!
