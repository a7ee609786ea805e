//! Node health as judged from heartbeats.

use vstd::prelude::*;

verus! {

/// Node health status.
#[derive(Debug, Clone, Copy, PartialEq, Eq, Structural)]
pub enum HealthStatus {
    Healthy,
    Degraded,
    Unhealthy,
    Offline,
}

/// Whether a heartbeat last received at `last` is overdue at time `now`.
pub open spec fn timed_out(now: i64, last: i64, timeout_seconds: i64) -> bool {
    now - last > timeout_seconds
}

/// The time-out rule of the heartbeat monitor.
pub fn is_timed_out_at(now: i64, last_heartbeat: i64, timeout_seconds: i64) -> (b: bool)
    ensures
        b == timed_out(now, last_heartbeat, timeout_seconds),
{
    let age: i128 = now as i128 - last_heartbeat as i128;
    age > timeout_seconds as i128
}

} // verus!

use crate::clock::unix_now;
use crate::store::KeyedStore;
use crate::text::{lemma_string_views_push, string_views};

verus! {

/// Heartbeat information for a node. The reported CPU usage is kept as the
/// bit pattern of its `f32` value: it is carried, never computed with.
#[derive(Debug, Clone)]
pub struct HeartbeatInfo {
    pub node_id: String,
    pub last_heartbeat: i64,
    pub status: HealthStatus,
    pub cpu_usage_bits: u32,
    pub ram_usage: u64,
    pub ram_total: u64,
    pub worker_count: usize,
    pub active_jobs: usize,
}

/// A fresh record: healthy, heard from at `now`, reporting nothing yet.
pub open spec fn fresh_heartbeat(node_id: String, now: i64) -> HeartbeatInfo {
    HeartbeatInfo {
        node_id,
        last_heartbeat: now,
        status: HealthStatus::Healthy,
        cpu_usage_bits: 0,
        ram_usage: 0,
        ram_total: 0,
        worker_count: 0,
        active_jobs: 0,
    }
}

/// The record after a heartbeat at `now` with the given figures.
pub open spec fn beat(
    node_id: String,
    now: i64,
    cpu_usage_bits: u32,
    ram_usage: u64,
    ram_total: u64,
    worker_count: usize,
    active_jobs: usize,
) -> HeartbeatInfo {
    HeartbeatInfo {
        node_id,
        last_heartbeat: now,
        status: HealthStatus::Healthy,
        cpu_usage_bits,
        ram_usage,
        ram_total,
        worker_count,
        active_jobs,
    }
}

impl HeartbeatInfo {
    pub fn new_at(node_id: String, now: i64) -> (h: HeartbeatInfo)
        ensures
            h == fresh_heartbeat(node_id, now),
    {
        HeartbeatInfo {
            node_id,
            last_heartbeat: now,
            status: HealthStatus::Healthy,
            cpu_usage_bits: 0,
            ram_usage: 0,
            ram_total: 0,
            worker_count: 0,
            active_jobs: 0,
        }
    }

    /// A fresh record heard from now.
    pub fn new(node_id: String) -> (h: HeartbeatInfo)
        ensures
            h == fresh_heartbeat(node_id, h.last_heartbeat),
    {
        let now = unix_now();
        HeartbeatInfo::new_at(node_id, now)
    }

    /// A copy of the record.
    pub fn duplicate(&self) -> (r: HeartbeatInfo)
        ensures
            r == *self,
    {
        HeartbeatInfo {
            node_id: self.node_id.clone(),
            last_heartbeat: self.last_heartbeat,
            status: self.status,
            cpu_usage_bits: self.cpu_usage_bits,
            ram_usage: self.ram_usage,
            ram_total: self.ram_total,
            worker_count: self.worker_count,
            active_jobs: self.active_jobs,
        }
    }

    /// Records a heartbeat at `now`: the figures are replaced and the node
    /// is healthy again.
    pub fn update_at(
        &mut self,
        now: i64,
        cpu_usage_bits: u32,
        ram_usage: u64,
        ram_total: u64,
        worker_count: usize,
        active_jobs: usize,
    )
        ensures
            *final(self) == beat(
                old(self).node_id,
                now,
                cpu_usage_bits,
                ram_usage,
                ram_total,
                worker_count,
                active_jobs,
            ),
    {
        self.last_heartbeat = now;
        self.cpu_usage_bits = cpu_usage_bits;
        self.ram_usage = ram_usage;
        self.ram_total = ram_total;
        self.worker_count = worker_count;
        self.active_jobs = active_jobs;
        self.status = HealthStatus::Healthy;
    }

    /// Records a heartbeat received now.
    pub fn update(
        &mut self,
        cpu_usage_bits: u32,
        ram_usage: u64,
        ram_total: u64,
        worker_count: usize,
        active_jobs: usize,
    )
        ensures
            *final(self) == beat(
                old(self).node_id,
                final(self).last_heartbeat,
                cpu_usage_bits,
                ram_usage,
                ram_total,
                worker_count,
                active_jobs,
            ),
    {
        let now = unix_now();
        self.update_at(now, cpu_usage_bits, ram_usage, ram_total, worker_count, active_jobs);
    }

    pub fn mark_unhealthy(&mut self)
        ensures
            *final(self) == (HeartbeatInfo { status: HealthStatus::Unhealthy, ..*old(self) }),
    {
        self.status = HealthStatus::Unhealthy;
    }

    pub fn mark_offline(&mut self)
        ensures
            *final(self) == (HeartbeatInfo { status: HealthStatus::Offline, ..*old(self) }),
    {
        self.status = HealthStatus::Offline;
    }

    /// Whether the last heartbeat is older than `timeout_seconds` at `now`.
    pub fn is_timed_out_at(&self, now: i64, timeout_seconds: i64) -> (b: bool)
        ensures
            b == timed_out(now, self.last_heartbeat, timeout_seconds),
    {
        is_timed_out_at(now, self.last_heartbeat, timeout_seconds)
    }

    /// Whether the last heartbeat is older than `timeout_seconds` by the
    /// clock.
    pub fn is_timed_out(&self, timeout_seconds: i64) -> (b: bool)
        ensures
            exists|now: i64| b == timed_out(now, self.last_heartbeat, timeout_seconds),
    {
        let now = unix_now();
        let b = is_timed_out_at(now, self.last_heartbeat, timeout_seconds);
        assert(b == timed_out(now, self.last_heartbeat, timeout_seconds));
        b
    }
}

/// The records after a time-out sweep at `now`: every overdue node is
/// offline, the others are unchanged.
pub open spec fn swept(m: Map<Seq<char>, HeartbeatInfo>, now: i64, timeout: i64) -> Map<
    Seq<char>,
    HeartbeatInfo,
> {
    Map::new(
        |k: Seq<char>| m.contains_key(k),
        |k: Seq<char>|
            if timed_out(now, m[k].last_heartbeat, timeout) {
                HeartbeatInfo { status: HealthStatus::Offline, ..m[k] }
            } else {
                m[k]
            },
    )
}

/// A time-out sweep at `now` turned the records `before` into `after` and
/// reported `reported`: each overdue node once, and no other.
pub open spec fn sweep_outcome(
    before: Map<Seq<char>, HeartbeatInfo>,
    after: Map<Seq<char>, HeartbeatInfo>,
    reported: Seq<Seq<char>>,
    now: i64,
    timeout: i64,
) -> bool {
    &&& after == swept(before, now, timeout)
    &&& reported.no_duplicates()
    &&& forall|k: Seq<char>|
        reported.contains(k) <==> before.contains_key(k) && timed_out(now, before[k].last_heartbeat, timeout)
}

/// Heartbeat records of the tracked nodes, with the expected interval and
/// the time-out, in seconds.
pub struct HeartbeatManager {
    heartbeats: KeyedStore<HeartbeatInfo>,
    interval: u64,
    timeout: u64,
}

impl HeartbeatManager {
    pub closed spec fn view(&self) -> Map<Seq<char>, HeartbeatInfo> {
        self.heartbeats.view()
    }

    pub closed spec fn wf(&self) -> bool {
        &&& self.heartbeats.wf()
        &&& forall|k: Seq<char>| #[trigger] self.heartbeats.view().contains_key(k) ==> self.heartbeats.view()[k].node_id@ == k
    }

    pub closed spec fn interval_secs(&self) -> u64 {
        self.interval
    }

    pub closed spec fn timeout_secs(&self) -> u64 {
        self.timeout
    }

    pub fn new(interval: u64, timeout: u64) -> (m: HeartbeatManager)
        ensures
            m.wf(),
            m.view() == Map::<Seq<char>, HeartbeatInfo>::empty(),
            m.interval_secs() == interval,
            m.timeout_secs() == timeout,
    {
        HeartbeatManager { heartbeats: KeyedStore::new(), interval, timeout }
    }

    pub fn interval(&self) -> (s: u64)
        ensures
            s == self.interval_secs(),
    {
        self.interval
    }

    pub fn timeout(&self) -> (s: u64)
        ensures
            s == self.timeout_secs(),
    {
        self.timeout
    }

    /// Starts tracking a node heard from at `now`; a tracked node keeps its
    /// record.
    pub fn register_node_at(&mut self, node_id: String, now: i64)
        requires
            old(self).wf(),
        ensures
            final(self).wf(),
            final(self).interval_secs() == old(self).interval_secs(),
            final(self).timeout_secs() == old(self).timeout_secs(),
            final(self).view() == if old(self).view().contains_key(node_id@) {
                old(self).view()
            } else {
                old(self).view().insert(node_id@, fresh_heartbeat(node_id, now))
            },
    {
        if !self.heartbeats.contains_key(node_id.as_str()) {
            let key = node_id.clone();
            self.heartbeats.insert(key, HeartbeatInfo::new_at(node_id, now));
        }
    }

    /// Starts tracking a node, heard from now.
    pub fn register_node(&mut self, node_id: String)
        requires
            old(self).wf(),
        ensures
            final(self).wf(),
            final(self).interval_secs() == old(self).interval_secs(),
            final(self).timeout_secs() == old(self).timeout_secs(),
            old(self).view().contains_key(node_id@) ==> final(self).view() == old(self).view(),
            !old(self).view().contains_key(node_id@) ==> exists|now: i64|
                final(self).view() == old(self).view().insert(node_id@, #[trigger] fresh_heartbeat(node_id, now)),
    {
        let now = unix_now();
        self.register_node_at(node_id, now);
        assert(!old(self).view().contains_key(node_id@) ==> final(self).view() == old(self).view().insert(
            node_id@,
            fresh_heartbeat(node_id, now),
        ));
    }

    /// Records a heartbeat of a node at `now`, tracking it if it was not.
    pub fn update_heartbeat_at(
        &mut self,
        node_id: &str,
        now: i64,
        cpu_usage_bits: u32,
        ram_usage: u64,
        ram_total: u64,
        worker_count: usize,
        active_jobs: usize,
    )
        requires
            old(self).wf(),
        ensures
            final(self).wf(),
            final(self).interval_secs() == old(self).interval_secs(),
            final(self).timeout_secs() == old(self).timeout_secs(),
            final(self).view().dom() == old(self).view().dom().insert(node_id@),
            final(self).view()[node_id@].node_id@ == node_id@,
            final(self).view()[node_id@] == beat(
                final(self).view()[node_id@].node_id,
                now,
                cpu_usage_bits,
                ram_usage,
                ram_total,
                worker_count,
                active_jobs,
            ),
            forall|k: Seq<char>|
                k != node_id@ && old(self).view().contains_key(k) ==> final(self).view()[k]
                    == old(self).view()[k],
    {
        let record = match self.heartbeats.get(node_id) {
            Some(h) => h.duplicate(),
            None => HeartbeatInfo::new_at(String::from_str(node_id), now),
        };
        let mut record = record;
        assert(record.node_id@ == node_id@) by {
            if old(self).view().contains_key(node_id@) {
                assert(self.heartbeats.view()[node_id@].node_id@ == node_id@);
            }
        }
        record.update_at(now, cpu_usage_bits, ram_usage, ram_total, worker_count, active_jobs);
        self.heartbeats.insert(String::from_str(node_id), record);
        assert(self.view().dom() =~= old(self).view().dom().insert(node_id@));
    }

    /// Records a heartbeat of a node now, tracking it if it was not.
    pub fn update_heartbeat(
        &mut self,
        node_id: &str,
        cpu_usage_bits: u32,
        ram_usage: u64,
        ram_total: u64,
        worker_count: usize,
        active_jobs: usize,
    )
        requires
            old(self).wf(),
        ensures
            final(self).wf(),
            final(self).interval_secs() == old(self).interval_secs(),
            final(self).timeout_secs() == old(self).timeout_secs(),
            final(self).view().dom() == old(self).view().dom().insert(node_id@),
            final(self).view()[node_id@].node_id@ == node_id@,
            exists|now: i64|
                final(self).view()[node_id@] == #[trigger] beat(
                    final(self).view()[node_id@].node_id,
                    now,
                    cpu_usage_bits,
                    ram_usage,
                    ram_total,
                    worker_count,
                    active_jobs,
                ),
            forall|k: Seq<char>|
                k != node_id@ && old(self).view().contains_key(k) ==> final(self).view()[k]
                    == old(self).view()[k],
    {
        let now = unix_now();
        self.update_heartbeat_at(node_id, now, cpu_usage_bits, ram_usage, ram_total, worker_count, active_jobs);
    }

    /// The record of a node.
    pub fn get_heartbeat(&self, node_id: &str) -> (r: Option<HeartbeatInfo>)
        requires
            self.wf(),
        ensures
            r == if self.view().contains_key(node_id@) {
                Some(self.view()[node_id@])
            } else {
                None::<HeartbeatInfo>
            },
    {
        match self.heartbeats.get(node_id) {
            Some(h) => Some(h.duplicate()),
            None => None,
        }
    }

    /// Copies of all records.
    pub fn get_all_heartbeats(&self) -> (r: Vec<HeartbeatInfo>)
        requires
            self.wf(),
        ensures
            r@.len() == self.view().len(),
            forall|i: int|
                0 <= i < r@.len() ==> self.view().contains_key(#[trigger] r@[i].node_id@)
                    && self.view()[r@[i].node_id@] == r@[i],
            forall|k: Seq<char>|
                #[trigger] self.view().contains_key(k) ==> exists|i: int| 0 <= i < r@.len() && r@[i].node_id@ == k,
    {
        let n = self.heartbeats.len();
        proof {
            self.heartbeats.lemma_order();
        }
        let mut r: Vec<HeartbeatInfo> = Vec::new();
        let mut i: usize = 0;
        while i < n
            invariant
                self.wf(),
                n == self.heartbeats.values_seq().len() == self.heartbeats.keys_seq().len(),
                forall|q: int|
                    0 <= q < self.heartbeats.keys_seq().len() ==> self.heartbeats.view()[
                        #[trigger] self.heartbeats.keys_seq()[q]]
                        == self.heartbeats.values_seq()[q],
                forall|k: Seq<char>|
                    self.heartbeats.view().contains_key(k) <==> self.heartbeats.keys_seq().contains(k),
                i <= n,
                r@.len() == i,
                forall|j: int| 0 <= j < i ==> #[trigger] r@[j] == self.heartbeats.values_seq()[j],
            decreases n - i,
        {
            let (_, h) = self.heartbeats.entry_at(i);
            r.push(h.duplicate());
            i = i + 1;
        }
        proof {
            assert forall|j: int| 0 <= j < r@.len() implies self.view().contains_key(#[trigger] r@[j].node_id@)
                && self.view()[r@[j].node_id@] == r@[j] by {
                let k = self.heartbeats.keys_seq()[j];
                assert(self.heartbeats.keys_seq().contains(k));
                assert(self.heartbeats.view()[self.heartbeats.keys_seq()[j]] == self.heartbeats.values_seq()[j]);
                assert(self.heartbeats.view().contains_key(k));
            }
            assert forall|k: Seq<char>| #[trigger] self.view().contains_key(k) implies exists|i: int|
                0 <= i < r@.len() && r@[i].node_id@ == k by {
                assert(self.heartbeats.keys_seq().contains(k));
                let q = choose|q: int| 0 <= q < self.heartbeats.keys_seq().len() && self.heartbeats.keys_seq()[q] == k;
                assert(self.heartbeats.view()[self.heartbeats.keys_seq()[q]] == self.heartbeats.values_seq()[q]);
                assert(r@[q] == self.heartbeats.values_seq()[q]);
            }
        }
        r
    }

    /// Marks every node whose last heartbeat is older than the time-out at
    /// `now` offline, and hands back their ids.
    pub fn check_timeouts_at(&mut self, now: i64) -> (r: Vec<String>)
        requires
            old(self).wf(),
        ensures
            final(self).wf(),
            final(self).interval_secs() == old(self).interval_secs(),
            final(self).timeout_secs() == old(self).timeout_secs(),
            final(self).view() == swept(old(self).view(), now, old(self).timeout_secs() as i64),
            string_views(r@).no_duplicates(),
            forall|k: Seq<char>|
                string_views(r@).contains(k) <==> old(self).view().contains_key(k) && timed_out(
                    now,
                    old(self).view()[k].last_heartbeat,
                    old(self).timeout_secs() as i64,
                ),
    {
        let timeout = self.timeout as i64;
        let ghost start = self.heartbeats.view();
        let keys = self.heartbeats.keys();
        proof {
            self.heartbeats.lemma_order();
        }
        let ghost ks = string_views(keys@);
        let mut out: Vec<String> = Vec::new();
        let mut i: usize = 0;
        while i < keys.len()
            invariant
                i <= keys@.len(),
                ks == string_views(keys@),
                ks.no_duplicates(),
                forall|k: Seq<char>| start.contains_key(k) <==> ks.contains(k),
                self.wf(),
                self.interval == old(self).interval,
                self.timeout == old(self).timeout,
                timeout == old(self).timeout as i64,
                start == old(self).heartbeats.view(),
                self.heartbeats.view().dom() == start.dom(),
                forall|k: Seq<char>|
                    #[trigger] self.heartbeats.view().contains_key(k) ==> self.heartbeats.view()[k] == if ks.take(
                        i as int,
                    ).contains(k) {
                        swept(start, now, timeout)[k]
                    } else {
                        start[k]
                    },
                string_views(out@).no_duplicates(),
                forall|k: Seq<char>|
                    string_views(out@).contains(k) <==> ks.take(i as int).contains(k) && timed_out(
                        now,
                        start[k].last_heartbeat,
                        timeout,
                    ),
            decreases keys@.len() - i,
        {
            let key = keys[i].as_str();
            let ghost before_out = out@;
            let ghost before = self.heartbeats.view();
            assert(ks[i as int] == key@);
            assert(start.contains_key(key@)) by {
                assert(ks.contains(ks[i as int]));
            }
            assert(!ks.take(i as int).contains(key@)) by {
                if ks.take(i as int).contains(key@) {
                    let j = choose|j: int| 0 <= j < i && #[trigger] ks.take(i as int)[j] == key@;
                    assert(ks[j] == ks[i as int]);
                }
            }
            assert(self.heartbeats.view().contains_key(key@));
            assert(self.heartbeats.view()[key@] == start[key@]);
            let expired = match self.heartbeats.get(key) {
                Some(h) => h.is_timed_out_at(now, timeout),
                None => false,
            };
            if expired {
                let h = self.heartbeats.get(key).unwrap().duplicate();
                let mut h = h;
                h.mark_offline();
                self.heartbeats.set_value(key, h);
                let name = keys[i].clone();
                out.push(name);
                proof {
                    lemma_string_views_push(before_out, name);
                    assert(!string_views(before_out).contains(key@));
                    lemma_no_dup_push(string_views(before_out), key@);
                    assert forall|k: Seq<char>| string_views(out@).contains(k) == (string_views(before_out).contains(k) || k == key@) by {
                        let so = string_views(before_out);
                        if string_views(out@).contains(k) {
                            let j = choose|j: int| 0 <= j < so.push(key@).len() && #[trigger] so.push(key@)[j] == k;
                            if j < so.len() {
                                assert(so[j] == k);
                            }
                        }
                        if so.contains(k) {
                            let j = choose|j: int| 0 <= j < so.len() && #[trigger] so[j] == k;
                            assert(so.push(key@)[j] == k);
                        }
                        if k == key@ {
                            assert(so.push(key@)[so.len() as int] == k);
                        }
                    }
                }
            }
            proof {
                assert forall|k: Seq<char>| ks.take(i + 1).contains(k) == (ks.take(i as int).contains(k) || k == key@) by {
                    if ks.take(i + 1).contains(k) {
                        let j = choose|j: int| 0 <= j < i + 1 && #[trigger] ks.take(i + 1)[j] == k;
                        if j < i {
                            assert(ks.take(i as int)[j] == k);
                        }
                    }
                    if ks.take(i as int).contains(k) {
                        let j = choose|j: int| 0 <= j < i && #[trigger] ks.take(i as int)[j] == k;
                        assert(ks.take(i + 1)[j] == k);
                    }
                    if k == key@ {
                        assert(ks.take(i + 1)[i as int] == k);
                    }
                }
                assert(self.heartbeats.view().dom() =~= start.dom());
                assert(expired == timed_out(now, start[key@].last_heartbeat, timeout));
                if !expired {
                    assert(out@ == before_out);
                }
                assert forall|k: Seq<char>| string_views(out@).contains(k) <==> ks.take(i + 1).contains(k)
                    && timed_out(now, start[k].last_heartbeat, timeout) by {
                    assert(string_views(before_out).contains(k) <==> ks.take(i as int).contains(k)
                        && timed_out(now, start[k].last_heartbeat, timeout));
                }
            }
            i = i + 1;
        }
        proof {
            assert(ks.take(keys@.len() as int) =~= ks);
            assert(self.heartbeats.view() =~= swept(start, now, timeout));
        }
        out
    }

    /// Marks the overdue nodes offline by the clock, handing back their ids.
    pub fn check_timeouts(&mut self) -> (r: Vec<String>)
        requires
            old(self).wf(),
        ensures
            final(self).wf(),
            final(self).interval_secs() == old(self).interval_secs(),
            final(self).timeout_secs() == old(self).timeout_secs(),
            exists|now: i64|
                #[trigger] sweep_outcome(
                    old(self).view(),
                    final(self).view(),
                    string_views(r@),
                    now,
                    old(self).timeout_secs() as i64,
                ),
    {
        let now = unix_now();
        let r = self.check_timeouts_at(now);
        assert(sweep_outcome(old(self).view(), final(self).view(), string_views(r@), now, old(self).timeout_secs() as i64));
        r
    }

    /// Stops tracking a node.
    pub fn remove_node(&mut self, node_id: &str)
        requires
            old(self).wf(),
        ensures
            final(self).wf(),
            final(self).interval_secs() == old(self).interval_secs(),
            final(self).timeout_secs() == old(self).timeout_secs(),
            final(self).view() == old(self).view().remove(node_id@),
    {
        self.heartbeats.remove(node_id);
    }
}

impl Default for HeartbeatManager {
    /// A five-second interval and a thirty-second time-out.
    fn default() -> (m: Self)
        ensures
            m.wf(),
            m.view() == Map::<Seq<char>, HeartbeatInfo>::empty(),
            m.interval_secs() == 5,
            m.timeout_secs() == 30,
    {
        HeartbeatManager::new(5, 30)
    }
}

/// Appending a value that does not occur keeps a list free of repetitions.
proof fn lemma_no_dup_push(s: Seq<Seq<char>>, x: Seq<char>)
    requires
        s.no_duplicates(),
        !s.contains(x),
    ensures
        s.push(x).no_duplicates(),
{
    assert forall|a: int, b: int| 0 <= a < b < s.push(x).len() implies s.push(x)[a] != s.push(x)[b] by {
        if b == s.len() {
            assert(s.contains(s[a]));
        }
    }
}

/// After a time-out sweep every overdue node is offline, no node appears or
/// disappears, and sweeping again at the same moment changes nothing.
pub proof fn lemma_sweep(m: Map<Seq<char>, HeartbeatInfo>, now: i64, timeout: i64)
    ensures
        swept(m, now, timeout).dom() == m.dom(),
        forall|k: Seq<char>|
            #[trigger] swept(m, now, timeout).contains_key(k) && timed_out(now, m[k].last_heartbeat, timeout)
                ==> swept(m, now, timeout)[k].status == HealthStatus::Offline,
        swept(swept(m, now, timeout), now, timeout) == swept(m, now, timeout),
{
    assert(swept(m, now, timeout).dom() =~= m.dom());
    assert(swept(swept(m, now, timeout), now, timeout) =~= swept(m, now, timeout));
}

/// A heartbeat brings a node back: the record it leaves is healthy and not
/// overdue at the moment it was received, for any non-negative time-out.
pub proof fn lemma_beat_revives(
    node_id: String,
    now: i64,
    cpu_usage_bits: u32,
    ram_usage: u64,
    ram_total: u64,
    worker_count: usize,
    active_jobs: usize,
    timeout: i64,
)
    requires
        timeout >= 0,
    ensures
        beat(node_id, now, cpu_usage_bits, ram_usage, ram_total, worker_count, active_jobs).status
            == HealthStatus::Healthy,
        !timed_out(
            now,
            beat(node_id, now, cpu_usage_bits, ram_usage, ram_total, worker_count, active_jobs).last_heartbeat,
            timeout,
        ),
{
}

} // verus!
