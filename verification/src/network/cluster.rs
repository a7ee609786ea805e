//! Cluster membership as this node sees it, and the totals it reports.

use vstd::prelude::*;

use crate::clock::{now_timestamp, Timestamp};
use crate::network::authentication::{Authenticator, Session, SessionManager};
use crate::network::discovery::DiscoveryConfig;
use crate::network::heartbeat::{HeartbeatInfo, HeartbeatManager};
use crate::network::peers::{PeerConnection, PeerManager};
use crate::network::types::{NetworkConfig, NodeIdentity, NodeStatus};
use crate::store::KeyedStore;

verus! {

/// Resources a node advertises. The CPU usage is kept as the bit pattern of
/// its `f32` value: it is carried, never computed with.
#[derive(Debug, Clone, Copy, PartialEq, Eq, Structural)]
pub struct ResourceInfo {
    pub cpu_cores: usize,
    pub cpu_usage_bits: u32,
    pub ram_total: u64,
    pub ram_used: u64,
    pub ram_available: u64,
    pub gpu_count: usize,
    pub worker_count: usize,
    pub active_jobs: usize,
}

impl Default for ResourceInfo {
    /// Nothing advertised.
    fn default() -> (r: Self)
        ensures
            r == (ResourceInfo {
                cpu_cores: 0,
                cpu_usage_bits: 0,
                ram_total: 0,
                ram_used: 0,
                ram_available: 0,
                gpu_count: 0,
                worker_count: 0,
                active_jobs: 0,
            }),
    {
        ResourceInfo {
            cpu_cores: 0,
            cpu_usage_bits: 0,
            ram_total: 0,
            ram_used: 0,
            ram_available: 0,
            gpu_count: 0,
            worker_count: 0,
            active_jobs: 0,
        }
    }
}

/// What this node knows of a peer.
#[derive(Debug, Clone)]
pub struct PeerInfo {
    pub node_id: String,
    pub node_name: String,
    pub host: String,
    pub port: u16,
    pub status: NodeStatus,
    pub resources: ResourceInfo,
    pub version: String,
    pub connected_since: Timestamp,
    pub last_heartbeat: Timestamp,
    pub latency_ms: u32,
}

impl PeerInfo {
    /// A copy of the record.
    pub fn duplicate(&self) -> (r: PeerInfo)
        ensures
            r == *self,
    {
        PeerInfo {
            node_id: self.node_id.clone(),
            node_name: self.node_name.clone(),
            host: self.host.clone(),
            port: self.port,
            status: self.status,
            resources: self.resources,
            version: self.version.clone(),
            connected_since: self.connected_since,
            last_heartbeat: self.last_heartbeat,
            latency_ms: self.latency_ms,
        }
    }
}

/// Totals over the cluster.
#[derive(Debug, Clone, Copy, PartialEq, Eq, Structural)]
pub struct ClusterSummary {
    pub total_nodes: usize,
    pub online_nodes: usize,
    pub total_cpus: usize,
    pub total_ram: u64,
    pub total_gpus: usize,
    pub total_workers: usize,
}

/// A figure of a node's resources.
pub enum Figure {
    Cpus,
    RamAvailable,
    Gpus,
    Workers,
}

pub open spec fn figure_of(r: ResourceInfo, f: Figure) -> nat {
    match f {
        Figure::Cpus => r.cpu_cores as nat,
        Figure::RamAvailable => r.ram_available as nat,
        Figure::Gpus => r.gpu_count as nat,
        Figure::Workers => r.worker_count as nat,
    }
}

/// The sum of a figure over the online peers of a list.
pub open spec fn online_total(s: Seq<PeerInfo>, f: Figure) -> nat
    decreases s.len(),
{
    if s.len() == 0 {
        0
    } else {
        online_total(s.drop_last(), f) + if s.last().status == NodeStatus::Online {
            figure_of(s.last().resources, f)
        } else {
            0
        }
    }
}

/// The number of online peers of a list.
pub open spec fn online_count(s: Seq<PeerInfo>) -> nat
    decreases s.len(),
{
    if s.len() == 0 {
        0
    } else {
        online_count(s.drop_last()) + if s.last().status == NodeStatus::Online {
            1nat
        } else {
            0nat
        }
    }
}

/// No more peers are online than are known.
pub proof fn lemma_online_count_bound(s: Seq<PeerInfo>)
    ensures
        online_count(s) <= s.len(),
    decreases s.len(),
{
    if s.len() > 0 {
        lemma_online_count_bound(s.drop_last());
    }
}

/// Cluster state: the known peers by node id.
pub struct ClusterState {
    nodes: KeyedStore<PeerInfo>,
    local_node_id: String,
    updated_at: Timestamp,
}

impl ClusterState {
    pub closed spec fn view(&self) -> Map<Seq<char>, PeerInfo> {
        self.nodes.view()
    }

    /// The id of this node.
    pub closed spec fn local_id(&self) -> String {
        self.local_node_id
    }

    /// When membership last changed.
    pub closed spec fn last_update(&self) -> Timestamp {
        self.updated_at
    }

    pub fn local_node_id(&self) -> (r: &String)
        ensures
            *r == self.local_id(),
    {
        &self.local_node_id
    }

    pub fn updated_at(&self) -> (t: Timestamp)
        ensures
            t == self.last_update(),
    {
        self.updated_at
    }

    /// The known peers, each once, in the order they are kept.
    pub closed spec fn peers_seq(&self) -> Seq<PeerInfo> {
        self.nodes.values_seq()
    }

    /// Each peer is kept under its own node id.
    pub closed spec fn wf(&self) -> bool {
        &&& self.nodes.wf()
        &&& forall|k: Seq<char>| #[trigger] self.nodes.view().contains_key(k) ==> self.nodes.view()[k].node_id@ == k
    }

    /// The kept order lists exactly the known peers.
    pub proof fn lemma_peers_seq(&self)
        requires
            self.wf(),
        ensures
            self.peers_seq().len() == self.view().len(),
            forall|i: int|
                0 <= i < self.peers_seq().len() ==> self.view().contains_key(#[trigger] self.peers_seq()[i].node_id@)
                    && self.view()[self.peers_seq()[i].node_id@] == self.peers_seq()[i],
            forall|k: Seq<char>|
                #[trigger] self.view().contains_key(k) ==> exists|i: int|
                    0 <= i < self.peers_seq().len() && self.peers_seq()[i].node_id@ == k,
    {
        self.nodes.lemma_order();
        self.nodes.keys_seq().unique_seq_to_set();
        assert(self.nodes.keys_seq().to_set() =~= self.nodes.view().dom());
        assert forall|i: int| 0 <= i < self.peers_seq().len() implies self.view().contains_key(
            #[trigger] self.peers_seq()[i].node_id@,
        ) && self.view()[self.peers_seq()[i].node_id@] == self.peers_seq()[i] by {
            let k = self.nodes.keys_seq()[i];
            assert(self.nodes.keys_seq().contains(k));
            assert(self.nodes.view()[self.nodes.keys_seq()[i]] == self.nodes.values_seq()[i]);
        }
        assert forall|k: Seq<char>| #[trigger] self.view().contains_key(k) implies exists|i: int|
            0 <= i < self.peers_seq().len() && self.peers_seq()[i].node_id@ == k by {
            assert(self.nodes.keys_seq().contains(k));
            let q = choose|q: int| 0 <= q < self.nodes.keys_seq().len() && self.nodes.keys_seq()[q] == k;
            assert(self.nodes.view()[self.nodes.keys_seq()[q]] == self.nodes.values_seq()[q]);
        }
    }

    pub fn new_at(local_node_id: String, now: Timestamp) -> (s: ClusterState)
        ensures
            s.wf(),
            s.view() == Map::<Seq<char>, PeerInfo>::empty(),
            s.local_id() == local_node_id,
            s.last_update() == now,
    {
        ClusterState { nodes: KeyedStore::new(), local_node_id, updated_at: now }
    }

    pub fn new(local_node_id: String) -> (s: ClusterState)
        ensures
            s.wf(),
            s.view() == Map::<Seq<char>, PeerInfo>::empty(),
            s.local_id() == local_node_id,
    {
        ClusterState::new_at(local_node_id, now_timestamp())
    }

    /// Adds a peer, replacing what was known under its id, at time `now`.
    pub fn add_node_at(&mut self, peer: PeerInfo, now: Timestamp)
        requires
            old(self).wf(),
        ensures
            final(self).wf(),
            final(self).view() == old(self).view().insert(peer.node_id@, peer),
            final(self).local_id() == old(self).local_id(),
            final(self).last_update() == now,
    {
        let key = peer.node_id.clone();
        self.nodes.insert(key, peer);
        self.updated_at = now;
    }

    /// Adds a peer, replacing what was known under its id.
    pub fn add_node(&mut self, peer: PeerInfo)
        requires
            old(self).wf(),
        ensures
            final(self).wf(),
            final(self).view() == old(self).view().insert(peer.node_id@, peer),
            final(self).local_id() == old(self).local_id(),
    {
        self.add_node_at(peer, now_timestamp());
    }

    /// Records what is known of a peer: the same as adding it.
    pub fn update_node(&mut self, peer: PeerInfo)
        requires
            old(self).wf(),
        ensures
            final(self).wf(),
            final(self).view() == old(self).view().insert(peer.node_id@, peer),
            final(self).local_id() == old(self).local_id(),
    {
        self.add_node_at(peer, now_timestamp());
    }

    /// Forgets a peer.
    pub fn remove_node(&mut self, node_id: &str)
        requires
            old(self).wf(),
        ensures
            final(self).wf(),
            final(self).view() == old(self).view().remove(node_id@),
            final(self).local_id() == old(self).local_id(),
    {
        self.nodes.remove(node_id);
        self.updated_at = now_timestamp();
    }

    pub fn get_node(&self, node_id: &str) -> (r: Option<&PeerInfo>)
        requires
            self.wf(),
        ensures
            match r {
                Some(p) => self.view().contains_key(node_id@) && self.view()[node_id@] == *p,
                None => !self.view().contains_key(node_id@),
            },
    {
        self.nodes.get(node_id)
    }

    /// Copies of the known peers, in the order they are kept.
    pub fn get_peers(&self) -> (r: Vec<PeerInfo>)
        requires
            self.wf(),
        ensures
            r@ == self.peers_seq(),
    {
        let n = self.nodes.len();
        let mut r: Vec<PeerInfo> = Vec::new();
        let mut i: usize = 0;
        while i < n
            invariant
                self.wf(),
                n == self.peers_seq().len(),
                i <= n,
                r@ == self.peers_seq().take(i as int),
            decreases n - i,
        {
            let (_, p) = self.nodes.entry_at(i);
            r.push(p.duplicate());
            assert(r@ =~= self.peers_seq().take(i + 1));
            i = i + 1;
        }
        assert(self.peers_seq().take(n as int) =~= self.peers_seq());
        r
    }

    /// Copies of the online peers, in the order they are kept.
    pub fn get_online_nodes(&self) -> (r: Vec<PeerInfo>)
        requires
            self.wf(),
        ensures
            r@ == online_peers(self.peers_seq()),
    {
        let n = self.nodes.len();
        let mut r: Vec<PeerInfo> = Vec::new();
        let mut i: usize = 0;
        while i < n
            invariant
                self.wf(),
                n == self.peers_seq().len(),
                i <= n,
                r@ == online_peers(self.peers_seq().take(i as int)),
            decreases n - i,
        {
            let (_, p) = self.nodes.entry_at(i);
            let ghost prefix = self.peers_seq().take(i as int);
            assert(self.peers_seq().take(i + 1).drop_last() =~= prefix);
            assert(self.peers_seq().take(i + 1).last() == *p);
            assert(online_peers(self.peers_seq().take(i + 1)) == if p.status == NodeStatus::Online {
                online_peers(prefix).push(*p)
            } else {
                online_peers(prefix)
            }) by {
                reveal(Seq::filter);
            }
            if p.status == NodeStatus::Online {
                r.push(p.duplicate());
            }
            i = i + 1;
        }
        assert(self.peers_seq().take(n as int) =~= self.peers_seq());
        r
    }

    /// Sets the status of a known peer; an unknown id changes nothing.
    pub fn set_node_status(&mut self, node_id: &str, status: NodeStatus)
        requires
            old(self).wf(),
        ensures
            final(self).wf(),
            final(self).local_id() == old(self).local_id(),
            final(self).last_update() == old(self).last_update(),
            final(self).view() == if old(self).view().contains_key(node_id@) {
                old(self).view().insert(node_id@, PeerInfo { status, ..old(self).view()[node_id@] })
            } else {
                old(self).view()
            },
    {
        match self.nodes.get(node_id) {
            Some(p) => {
                let mut q = p.duplicate();
                q.status = status;
                self.nodes.set_value(node_id, q);
            },
            None => {},
        }
    }

    /// Replaces the resources of a known peer and marks it heard from at
    /// `now`; an unknown id changes nothing.
    pub fn sync_resources_at(&mut self, node_id: &str, resources: ResourceInfo, now: Timestamp)
        requires
            old(self).wf(),
        ensures
            final(self).wf(),
            final(self).local_id() == old(self).local_id(),
            final(self).last_update() == old(self).last_update(),
            final(self).view() == if old(self).view().contains_key(node_id@) {
                old(self).view().insert(
                    node_id@,
                    PeerInfo { resources, last_heartbeat: now, ..old(self).view()[node_id@] },
                )
            } else {
                old(self).view()
            },
    {
        match self.nodes.get(node_id) {
            Some(p) => {
                let mut q = p.duplicate();
                q.resources = resources;
                q.last_heartbeat = now;
                self.nodes.set_value(node_id, q);
            },
            None => {},
        }
    }

    /// Totals over the known peers: how many there are, how many are online,
    /// and the CPUs, available memory, GPUs and workers of the online ones.
    pub fn get_summary(&self) -> (s: ClusterSummary)
        requires
            self.wf(),
            online_total(self.peers_seq(), Figure::Cpus) <= usize::MAX,
            online_total(self.peers_seq(), Figure::RamAvailable) <= u64::MAX,
            online_total(self.peers_seq(), Figure::Gpus) <= usize::MAX,
            online_total(self.peers_seq(), Figure::Workers) <= usize::MAX,
        ensures
            s.total_nodes == self.view().len(),
            s.online_nodes == online_count(self.peers_seq()),
            s.total_cpus == online_total(self.peers_seq(), Figure::Cpus),
            s.total_ram == online_total(self.peers_seq(), Figure::RamAvailable),
            s.total_gpus == online_total(self.peers_seq(), Figure::Gpus),
            s.total_workers == online_total(self.peers_seq(), Figure::Workers),
    {
        let n = self.nodes.len();
        let ghost ps = self.peers_seq();
        let mut online: usize = 0;
        let mut cpus: usize = 0;
        let mut ram: u64 = 0;
        let mut gpus: usize = 0;
        let mut workers: usize = 0;
        let mut i: usize = 0;
        while i < n
            invariant
                self.wf(),
                ps == self.peers_seq(),
                n == ps.len(),
                i <= n,
                online_total(ps, Figure::Cpus) <= usize::MAX,
                online_total(ps, Figure::RamAvailable) <= u64::MAX,
                online_total(ps, Figure::Gpus) <= usize::MAX,
                online_total(ps, Figure::Workers) <= usize::MAX,
                online == online_count(ps.take(i as int)),
                cpus == online_total(ps.take(i as int), Figure::Cpus),
                ram == online_total(ps.take(i as int), Figure::RamAvailable),
                gpus == online_total(ps.take(i as int), Figure::Gpus),
                workers == online_total(ps.take(i as int), Figure::Workers),
            decreases n - i,
        {
            let (_, p) = self.nodes.entry_at(i);
            assert(ps.take(i + 1).drop_last() =~= ps.take(i as int));
            proof {
                lemma_online_total_prefix(ps, i + 1, Figure::Cpus);
                lemma_online_total_prefix(ps, i + 1, Figure::RamAvailable);
                lemma_online_total_prefix(ps, i + 1, Figure::Gpus);
                lemma_online_total_prefix(ps, i + 1, Figure::Workers);
                lemma_online_count_bound(ps.take(i as int));
            }
            if p.status == NodeStatus::Online {
                online = online + 1;
                cpus = cpus + p.resources.cpu_cores;
                ram = ram + p.resources.ram_available;
                gpus = gpus + p.resources.gpu_count;
                workers = workers + p.resources.worker_count;
            }
            i = i + 1;
        }
        assert(ps.take(n as int) =~= ps);
        ClusterSummary {
            total_nodes: n,
            online_nodes: online,
            total_cpus: cpus,
            total_ram: ram,
            total_gpus: gpus,
            total_workers: workers,
        }
    }

    /// The CPU usage bit patterns of the online peers, in the order they are
    /// kept, for averaging.
    pub fn online_cpu_usage_bits(&self) -> (r: Vec<u32>)
        requires
            self.wf(),
        ensures
            r@ == online_peers(self.peers_seq()).map_values(
                |p: PeerInfo| p.resources.cpu_usage_bits,
            ),
    {
        let online = self.get_online_nodes();
        let mut r: Vec<u32> = Vec::new();
        let mut i: usize = 0;
        while i < online.len()
            invariant
                i <= online@.len(),
                r@ == online@.take(i as int).map_values(|p: PeerInfo| p.resources.cpu_usage_bits),
            decreases online@.len() - i,
        {
            r.push(online[i].resources.cpu_usage_bits);
            assert(r@ =~= online@.take(i + 1).map_values(|p: PeerInfo| p.resources.cpu_usage_bits));
            i = i + 1;
        }
        assert(online@.take(online@.len() as int) =~= online@);
        r
    }
}

/// The online peers of a list, in order.
pub open spec fn online_peers(s: Seq<PeerInfo>) -> Seq<PeerInfo> {
    s.filter(|p: PeerInfo| p.status == NodeStatus::Online)
}

/// A prefix's total is at most the whole list's.
proof fn lemma_online_total_prefix(s: Seq<PeerInfo>, k: int, f: Figure)
    requires
        0 <= k <= s.len(),
    ensures
        online_total(s.take(k), f) <= online_total(s, f),
    decreases s.len(),
{
    if k < s.len() {
        assert(s.drop_last().take(k) =~= s.take(k));
        lemma_online_total_prefix(s.drop_last(), k, f);
    } else {
        assert(s.take(k) =~= s);
    }
}

/// The identity this node announces: its id, key, name and host, with the
/// configured runtime port.
pub fn local_identity(
    config: &NetworkConfig,
    node_id: String,
    node_name: String,
    host: String,
    public_key: String,
) -> (i: NodeIdentity)
    ensures
        i == (NodeIdentity { node_id, public_key, node_name, host, port: config.runtime_port }),
{
    NodeIdentity { node_id, public_key, node_name, host, port: config.runtime_port }
}

/// The discovery settings of the cluster: the configured port and interval,
/// and peers forgotten after a minute of silence.
pub fn cluster_discovery_config(config: &NetworkConfig) -> (d: DiscoveryConfig)
    ensures
        d == (DiscoveryConfig {
            discovery_port: config.discovery_port,
            discovery_interval: config.discovery_interval,
            peer_timeout: 60,
        }),
{
    DiscoveryConfig {
        discovery_port: config.discovery_port,
        discovery_interval: config.discovery_interval,
        peer_timeout: 60,
    }
}

/// A node is considered gone after six missed heartbeats.
pub fn heartbeat_timeout(heartbeat_interval: u64) -> (t: u64)
    requires
        heartbeat_interval * 6 <= u64::MAX,
    ensures
        t == heartbeat_interval * 6,
{
    heartbeat_interval * 6
}

/// A peer's record after its resources are synchronised at `now`.
pub open spec fn resynced(p: PeerInfo, resources: ResourceInfo, now: Timestamp) -> PeerInfo {
    PeerInfo { resources, last_heartbeat: now, ..p }
}

/// Central coordination of this node's view of the cluster: its identity,
/// the membership it knows, and the monitors and managers that keep it. The
/// discovery service, which owns a socket, runs beside it.
pub struct ClusterManager {
    local_node: NodeIdentity,
    config: NetworkConfig,
    heartbeat_manager: HeartbeatManager,
    authenticator: Authenticator,
    session_manager: SessionManager,
    peer_manager: PeerManager,
    cluster_state: ClusterState,
}

impl ClusterManager {
    pub closed spec fn local(&self) -> NodeIdentity {
        self.local_node
    }

    pub closed spec fn network_config(&self) -> NetworkConfig {
        self.config
    }

    pub closed spec fn heartbeats(&self) -> HeartbeatManager {
        self.heartbeat_manager
    }

    pub closed spec fn auth(&self) -> Authenticator {
        self.authenticator
    }

    pub closed spec fn sessions(&self) -> SessionManager {
        self.session_manager
    }

    pub closed spec fn peers(&self) -> PeerManager {
        self.peer_manager
    }

    pub closed spec fn state(&self) -> ClusterState {
        self.cluster_state
    }

    /// Every part is well formed, and the membership is this node's.
    pub open spec fn wf(&self) -> bool {
        &&& self.heartbeats().wf()
        &&& self.auth().wf()
        &&& self.sessions().wf()
        &&& self.peers().wf()
        &&& self.state().wf()
        &&& self.state().local_id() == self.local().node_id
    }

    /// A manager for this node, knowing no peers yet. Its heartbeat monitor
    /// beats at the configured interval and gives a node up after six missed
    /// beats.
    pub fn new(config: NetworkConfig, node_id: String, node_name: String, host: String, public_key: String) -> (m:
        ClusterManager)
        requires
            config.heartbeat_interval * 6 <= u64::MAX,
        ensures
            m.wf(),
            m.local() == (NodeIdentity { node_id, public_key, node_name, host, port: config.runtime_port }),
            m.network_config() == config,
            m.heartbeats().view() == Map::<Seq<char>, HeartbeatInfo>::empty(),
            m.heartbeats().interval_secs() == config.heartbeat_interval,
            m.heartbeats().timeout_secs() == config.heartbeat_interval * 6,
            m.auth().known_keys() == Map::<Seq<char>, String>::empty(),
            m.auth().challenges() == Map::<Seq<char>, (String, i64)>::empty(),
            m.sessions().sessions() == Map::<Seq<char>, Session>::empty(),
            m.peers().connections() == Map::<Seq<char>, PeerConnection>::empty(),
            m.peers().infos() == Map::<Seq<char>, PeerInfo>::empty(),
            m.state().view() == Map::<Seq<char>, PeerInfo>::empty(),
    {
        let state_id = node_id.clone();
        let local_node = local_identity(&config, node_id, node_name, host, public_key);
        let timeout = heartbeat_timeout(config.heartbeat_interval);
        let heartbeat_manager = HeartbeatManager::new(config.heartbeat_interval, timeout);
        let cluster_state = ClusterState::new(state_id);
        ClusterManager {
            local_node,
            config,
            heartbeat_manager,
            authenticator: Authenticator::new(),
            session_manager: SessionManager::new(),
            peer_manager: PeerManager::new(),
            cluster_state,
        }
    }

    /// Starts monitoring this node's own heartbeat; the rest of start-up
    /// (discovery) belongs to the caller.
    pub fn register_local_node(&mut self)
        requires
            old(self).wf(),
        ensures
            final(self).wf(),
            final(self).local() == old(self).local(),
            final(self).state() == old(self).state(),
            final(self).peers() == old(self).peers(),
            final(self).heartbeats().view().contains_key(old(self).local().node_id@),
            final(self).heartbeats().view().dom() == old(self).heartbeats().view().dom().insert(
                old(self).local().node_id@,
            ),
    {
        let id = self.local_node.node_id.clone();
        self.heartbeat_manager.register_node(id);
    }

    pub fn get_local_node(&self) -> (r: &NodeIdentity)
        ensures
            *r == self.local(),
    {
        &self.local_node
    }

    pub fn get_cluster_state(&self) -> (r: &ClusterState)
        ensures
            *r == self.state(),
    {
        &self.cluster_state
    }

    pub fn get_summary(&self) -> (s: ClusterSummary)
        requires
            self.wf(),
            online_total(self.state().peers_seq(), Figure::Cpus) <= usize::MAX,
            online_total(self.state().peers_seq(), Figure::RamAvailable) <= u64::MAX,
            online_total(self.state().peers_seq(), Figure::Gpus) <= usize::MAX,
            online_total(self.state().peers_seq(), Figure::Workers) <= usize::MAX,
        ensures
            s.total_nodes == self.state().view().len(),
            s.online_nodes == online_count(self.state().peers_seq()),
            s.total_cpus == online_total(self.state().peers_seq(), Figure::Cpus),
            s.total_ram == online_total(self.state().peers_seq(), Figure::RamAvailable),
            s.total_gpus == online_total(self.state().peers_seq(), Figure::Gpus),
            s.total_workers == online_total(self.state().peers_seq(), Figure::Workers),
    {
        self.cluster_state.get_summary()
    }

    /// Sets the status of a known peer; an unknown id changes nothing.
    pub fn update_node_status(&mut self, node_id: &str, status: NodeStatus)
        requires
            old(self).wf(),
        ensures
            final(self).wf(),
            final(self).local() == old(self).local(),
            final(self).heartbeats() == old(self).heartbeats(),
            final(self).peers() == old(self).peers(),
            final(self).state().view() == if old(self).state().view().contains_key(node_id@) {
                old(self).state().view().insert(node_id@, PeerInfo { status, ..old(self).state().view()[node_id@] })
            } else {
                old(self).state().view()
            },
    {
        self.cluster_state.set_node_status(node_id, status);
    }

    /// Adds a peer to the membership, replacing what was known under its id.
    pub fn add_peer(&mut self, peer_info: PeerInfo)
        requires
            old(self).wf(),
        ensures
            final(self).wf(),
            final(self).local() == old(self).local(),
            final(self).heartbeats() == old(self).heartbeats(),
            final(self).peers() == old(self).peers(),
            final(self).state().view() == old(self).state().view().insert(peer_info.node_id@, peer_info),
    {
        self.cluster_state.add_node(peer_info);
    }

    /// Forgets a peer everywhere: in the membership, among the connections
    /// and in the heartbeat monitor.
    pub fn remove_peer(&mut self, node_id: &str)
        requires
            old(self).wf(),
        ensures
            final(self).wf(),
            final(self).local() == old(self).local(),
            final(self).state().view() == old(self).state().view().remove(node_id@),
            final(self).peers().connections() == old(self).peers().connections().remove(node_id@),
            final(self).peers().infos() == old(self).peers().infos().remove(node_id@),
            final(self).heartbeats().view() == old(self).heartbeats().view().remove(node_id@),
            final(self).heartbeats().interval_secs() == old(self).heartbeats().interval_secs(),
            final(self).heartbeats().timeout_secs() == old(self).heartbeats().timeout_secs(),
    {
        self.cluster_state.remove_node(node_id);
        self.peer_manager.remove_peer(node_id);
        self.heartbeat_manager.remove_node(node_id);
    }

    pub fn get_peer(&self, node_id: &str) -> (r: Option<PeerInfo>)
        requires
            self.wf(),
        ensures
            r == if self.state().view().contains_key(node_id@) {
                Some(self.state().view()[node_id@])
            } else {
                None::<PeerInfo>
            },
    {
        match self.cluster_state.get_node(node_id) {
            Some(p) => Some(p.duplicate()),
            None => None,
        }
    }

    pub fn get_peers(&self) -> (r: Vec<PeerInfo>)
        requires
            self.wf(),
        ensures
            r@ == self.state().peers_seq(),
    {
        self.cluster_state.get_peers()
    }

    pub fn get_online_peers(&self) -> (r: Vec<PeerInfo>)
        requires
            self.wf(),
        ensures
            r@ == online_peers(self.state().peers_seq()),
    {
        self.cluster_state.get_online_nodes()
    }

    /// Replaces the resources of a known peer and marks it heard from now;
    /// an unknown id changes nothing.
    pub fn sync_resources(&mut self, node_id: &str, resources: ResourceInfo)
        requires
            old(self).wf(),
        ensures
            final(self).wf(),
            final(self).local() == old(self).local(),
            final(self).heartbeats() == old(self).heartbeats(),
            final(self).peers() == old(self).peers(),
            old(self).state().view().contains_key(node_id@) ==> exists|now: Timestamp|
                final(self).state().view() == old(self).state().view().insert(
                    node_id@,
                    #[trigger] resynced(old(self).state().view()[node_id@], resources, now),
                ),
            !old(self).state().view().contains_key(node_id@) ==> final(self).state().view() == old(self).state().view(),
    {
        let now = now_timestamp();
        self.cluster_state.sync_resources_at(node_id, resources, now);
        assert(old(self).state().view().contains_key(node_id@) ==> final(self).state().view()
            == old(self).state().view().insert(node_id@, resynced(old(self).state().view()[node_id@], resources, now)));
    }

    pub fn authenticator(&self) -> (r: &Authenticator)
        ensures
            *r == self.auth(),
    {
        &self.authenticator
    }

    pub fn session_manager(&self) -> (r: &SessionManager)
        ensures
            *r == self.sessions(),
    {
        &self.session_manager
    }

    pub fn peer_manager(&self) -> (r: &PeerManager)
        ensures
            *r == self.peers(),
    {
        &self.peer_manager
    }

    pub fn heartbeat_manager(&self) -> (r: &HeartbeatManager)
        ensures
            *r == self.heartbeats(),
    {
        &self.heartbeat_manager
    }

    pub fn config(&self) -> (r: &NetworkConfig)
        ensures
            *r == self.network_config(),
    {
        &self.config
    }
}

} // verus!
