//! Peer tracking events.

use vstd::prelude::*;

use crate::clock::{now_timestamp, Timestamp};
use crate::network::cluster::PeerInfo;
use crate::network::types::NodeStatus;
use crate::store::KeyedStore;

verus! {

/// Peer event.
#[derive(Debug, Clone, PartialEq, Eq)]
pub enum PeerEvent {
    PeerAdded(String),
    PeerConnected(String),
    PeerDisconnected(String),
    PeerRemoved(String),
    PeerUpdated(String),
}

/// A peer of the WAN mesh as shown to the user.
#[derive(Debug, Clone)]
pub struct PeerSnapshot {
    pub peer_id: String,
    pub addresses: Vec<String>,
    pub connected: bool,
}

/// The state of the connection to a peer.
#[derive(Debug, Clone)]
pub struct PeerConnection {
    pub peer_id: String,
    pub address: String,
    pub port: u16,
    pub connected: bool,
    pub connected_since: Option<Timestamp>,
    pub last_seen: Timestamp,
    pub latency_ms: u32,
}

impl PeerConnection {
    /// A peer not connected yet, seen at `now`.
    pub fn new_at(peer_id: String, address: String, port: u16, now: Timestamp) -> (c: PeerConnection)
        ensures
            c == (PeerConnection {
                peer_id,
                address,
                port,
                connected: false,
                connected_since: None,
                last_seen: now,
                latency_ms: 0,
            }),
    {
        PeerConnection {
            peer_id,
            address,
            port,
            connected: false,
            connected_since: None,
            last_seen: now,
            latency_ms: 0,
        }
    }

    pub fn duplicate(&self) -> (r: PeerConnection)
        ensures
            r == *self,
    {
        PeerConnection {
            peer_id: self.peer_id.clone(),
            address: self.address.clone(),
            port: self.port,
            connected: self.connected,
            connected_since: self.connected_since,
            last_seen: self.last_seen,
            latency_ms: self.latency_ms,
        }
    }

    /// Connected since and seen at `now`.
    pub fn mark_connected_at(&mut self, now: Timestamp)
        ensures
            *final(self) == (PeerConnection {
                connected: true,
                connected_since: Some(now),
                last_seen: now,
                ..*old(self)
            }),
    {
        self.connected = true;
        self.connected_since = Some(now);
        self.last_seen = now;
    }

    /// Disconnected, seen at `now`.
    pub fn mark_disconnected_at(&mut self, now: Timestamp)
        ensures
            *final(self) == (PeerConnection {
                connected: false,
                connected_since: None,
                last_seen: now,
                ..*old(self)
            }),
    {
        self.connected = false;
        self.connected_since = None;
        self.last_seen = now;
    }

    /// A latency measured at `now`.
    pub fn update_latency_at(&mut self, latency_ms: u32, now: Timestamp)
        ensures
            *final(self) == (PeerConnection { latency_ms, last_seen: now, ..*old(self) }),
    {
        self.latency_ms = latency_ms;
        self.last_seen = now;
    }
}

/// The peers of the cluster: connection states and what they reported.
pub struct PeerManager {
    peers: KeyedStore<PeerConnection>,
    peer_info: KeyedStore<PeerInfo>,
}

impl PeerManager {
    pub closed spec fn connections(&self) -> Map<Seq<char>, PeerConnection> {
        self.peers.view()
    }

    pub closed spec fn infos(&self) -> Map<Seq<char>, PeerInfo> {
        self.peer_info.view()
    }

    pub closed spec fn wf(&self) -> bool {
        &&& self.peers.wf()
        &&& self.peer_info.wf()
        &&& forall|k: Seq<char>| #[trigger] self.peers.view().contains_key(k) ==> self.peers.view()[k].peer_id@ == k
    }

    pub fn new() -> (m: PeerManager)
        ensures
            m.wf(),
            m.connections() == Map::<Seq<char>, PeerConnection>::empty(),
            m.infos() == Map::<Seq<char>, PeerInfo>::empty(),
    {
        PeerManager { peers: KeyedStore::new(), peer_info: KeyedStore::new() }
    }

    /// Adds a peer seen at `now`; a known peer is kept as it is.
    pub fn add_peer_at(&mut self, node_id: String, address: String, port: u16, now: Timestamp)
        requires
            old(self).wf(),
        ensures
            final(self).wf(),
            final(self).infos() == old(self).infos(),
            final(self).connections() == if old(self).connections().contains_key(node_id@) {
                old(self).connections()
            } else {
                old(self).connections().insert(
                    node_id@,
                    PeerConnection {
                        peer_id: node_id,
                        address,
                        port,
                        connected: false,
                        connected_since: None,
                        last_seen: now,
                        latency_ms: 0,
                    },
                )
            },
    {
        if !self.peers.contains_key(node_id.as_str()) {
            let key = node_id.clone();
            self.peers.insert(key, PeerConnection::new_at(node_id, address, port, now));
        }
    }

    /// Adds a peer seen now; a known peer is kept as it is.
    pub fn add_peer(&mut self, node_id: String, address: String, port: u16)
        requires
            old(self).wf(),
        ensures
            final(self).wf(),
            final(self).infos() == old(self).infos(),
            final(self).connections().dom() == old(self).connections().dom().insert(node_id@),
            old(self).connections().contains_key(node_id@) ==> final(self).connections() == old(self).connections(),
    {
        self.add_peer_at(node_id, address, port, now_timestamp());
        assert(final(self).connections().dom() =~= old(self).connections().dom().insert(node_id@));
    }

    /// Forgets a peer and what it reported.
    pub fn remove_peer(&mut self, node_id: &str)
        requires
            old(self).wf(),
        ensures
            final(self).wf(),
            final(self).connections() == old(self).connections().remove(node_id@),
            final(self).infos() == old(self).infos().remove(node_id@),
    {
        self.peers.remove(node_id);
        self.peer_info.remove(node_id);
    }

    /// Marks a known peer connected since `now`.
    pub fn mark_connected_at(&mut self, node_id: &str, now: Timestamp)
        requires
            old(self).wf(),
        ensures
            final(self).wf(),
            final(self).infos() == old(self).infos(),
            final(self).connections() == if old(self).connections().contains_key(node_id@) {
                old(self).connections().insert(
                    node_id@,
                    PeerConnection {
                        connected: true,
                        connected_since: Some(now),
                        last_seen: now,
                        ..old(self).connections()[node_id@]
                    },
                )
            } else {
                old(self).connections()
            },
    {
        match self.peers.get(node_id) {
            Some(p) => {
                let mut q = p.duplicate();
                q.mark_connected_at(now);
                self.peers.set_value(node_id, q);
            },
            None => {},
        }
    }

    /// Marks a known peer connected since now.
    pub fn mark_connected(&mut self, node_id: &str)
        requires
            old(self).wf(),
        ensures
            final(self).wf(),
            final(self).infos() == old(self).infos(),
            final(self).connections().dom() == old(self).connections().dom(),
            old(self).connections().contains_key(node_id@) ==> final(self).connections()[node_id@].connected,
    {
        self.mark_connected_at(node_id, now_timestamp());
        assert(final(self).connections().dom() =~= old(self).connections().dom());
    }

    /// Marks a known peer disconnected at `now`.
    pub fn mark_disconnected_at(&mut self, node_id: &str, now: Timestamp)
        requires
            old(self).wf(),
        ensures
            final(self).wf(),
            final(self).infos() == old(self).infos(),
            final(self).connections() == if old(self).connections().contains_key(node_id@) {
                old(self).connections().insert(
                    node_id@,
                    PeerConnection {
                        connected: false,
                        connected_since: None,
                        last_seen: now,
                        ..old(self).connections()[node_id@]
                    },
                )
            } else {
                old(self).connections()
            },
    {
        match self.peers.get(node_id) {
            Some(p) => {
                let mut q = p.duplicate();
                q.mark_disconnected_at(now);
                self.peers.set_value(node_id, q);
            },
            None => {},
        }
    }

    /// Marks a known peer disconnected now.
    pub fn mark_disconnected(&mut self, node_id: &str)
        requires
            old(self).wf(),
        ensures
            final(self).wf(),
            final(self).infos() == old(self).infos(),
            final(self).connections().dom() == old(self).connections().dom(),
            old(self).connections().contains_key(node_id@) ==> !final(self).connections()[node_id@].connected,
    {
        self.mark_disconnected_at(node_id, now_timestamp());
        assert(final(self).connections().dom() =~= old(self).connections().dom());
    }

    /// Records a latency measured at `now` for a known peer.
    pub fn update_latency_at(&mut self, node_id: &str, latency_ms: u32, now: Timestamp)
        requires
            old(self).wf(),
        ensures
            final(self).wf(),
            final(self).infos() == old(self).infos(),
            final(self).connections() == if old(self).connections().contains_key(node_id@) {
                old(self).connections().insert(
                    node_id@,
                    PeerConnection { latency_ms, last_seen: now, ..old(self).connections()[node_id@] },
                )
            } else {
                old(self).connections()
            },
    {
        match self.peers.get(node_id) {
            Some(p) => {
                let mut q = p.duplicate();
                q.update_latency_at(latency_ms, now);
                self.peers.set_value(node_id, q);
            },
            None => {},
        }
    }

    /// Records a latency measured now for a known peer.
    pub fn update_latency(&mut self, node_id: &str, latency_ms: u32)
        requires
            old(self).wf(),
        ensures
            final(self).wf(),
            final(self).infos() == old(self).infos(),
            final(self).connections().dom() == old(self).connections().dom(),
            old(self).connections().contains_key(node_id@) ==> final(self).connections()[node_id@].latency_ms
                == latency_ms,
    {
        self.update_latency_at(node_id, latency_ms, now_timestamp());
        assert(final(self).connections().dom() =~= old(self).connections().dom());
    }

    /// Records what a peer reported.
    pub fn update_peer_info(&mut self, node_id: String, info: PeerInfo)
        requires
            old(self).wf(),
        ensures
            final(self).wf(),
            final(self).connections() == old(self).connections(),
            final(self).infos() == old(self).infos().insert(node_id@, info),
    {
        self.peer_info.insert(node_id, info);
    }

    pub fn get_peer(&self, node_id: &str) -> (r: Option<PeerConnection>)
        requires
            self.wf(),
        ensures
            r == if self.connections().contains_key(node_id@) {
                Some(self.connections()[node_id@])
            } else {
                None::<PeerConnection>
            },
    {
        match self.peers.get(node_id) {
            Some(p) => Some(p.duplicate()),
            None => None,
        }
    }

    pub fn get_peer_info(&self, node_id: &str) -> (r: Option<PeerInfo>)
        requires
            self.wf(),
        ensures
            r == if self.infos().contains_key(node_id@) {
                Some(self.infos()[node_id@])
            } else {
                None::<PeerInfo>
            },
    {
        match self.peer_info.get(node_id) {
            Some(p) => Some(p.duplicate()),
            None => None,
        }
    }

    pub fn has_peer(&self, node_id: &str) -> (b: bool)
        requires
            self.wf(),
        ensures
            b == self.connections().contains_key(node_id@),
    {
        self.peers.contains_key(node_id)
    }

    pub fn total_count(&self) -> (n: usize)
        requires
            self.wf(),
        ensures
            n == self.connections().len(),
    {
        self.peers.len()
    }

    /// The connections, each once, in the order they are kept.
    pub closed spec fn connections_seq(&self) -> Seq<PeerConnection> {
        self.peers.values_seq()
    }

    /// The kept order lists exactly the known connections.
    pub proof fn lemma_connections_seq(&self)
        requires
            self.wf(),
        ensures
            self.connections_seq().len() == self.connections().len(),
            forall|i: int|
                0 <= i < self.connections_seq().len() ==> self.connections().contains_key(
                    #[trigger] self.connections_seq()[i].peer_id@,
                ) && self.connections()[self.connections_seq()[i].peer_id@] == self.connections_seq()[i],
            forall|k: Seq<char>|
                #[trigger] self.connections().contains_key(k) ==> exists|i: int|
                    0 <= i < self.connections_seq().len() && self.connections_seq()[i].peer_id@ == k,
    {
        self.peers.lemma_order();
        self.peers.keys_seq().unique_seq_to_set();
        assert(self.peers.keys_seq().to_set() =~= self.peers.view().dom());
        assert forall|i: int| 0 <= i < self.connections_seq().len() implies self.connections().contains_key(
            #[trigger] self.connections_seq()[i].peer_id@,
        ) && self.connections()[self.connections_seq()[i].peer_id@] == self.connections_seq()[i] by {
            let k = self.peers.keys_seq()[i];
            assert(self.peers.keys_seq().contains(k));
            assert(self.peers.view()[self.peers.keys_seq()[i]] == self.peers.values_seq()[i]);
        }
        assert forall|k: Seq<char>| #[trigger] self.connections().contains_key(k) implies exists|i: int|
            0 <= i < self.connections_seq().len() && self.connections_seq()[i].peer_id@ == k by {
            assert(self.peers.keys_seq().contains(k));
            let q = choose|q: int| 0 <= q < self.peers.keys_seq().len() && self.peers.keys_seq()[q] == k;
            assert(self.peers.view()[self.peers.keys_seq()[q]] == self.peers.values_seq()[q]);
        }
    }

    /// Copies of the connections a listing keeps, in the order they are kept.
    fn select(&self, keep: Selection, status: NodeStatus) -> (r: Vec<PeerConnection>)
        requires
            self.wf(),
        ensures
            r@ == selected_seq(self.connections_seq(), keep, status, self.infos()),
    {
        let n = self.peers.len();
        proof {
            self.peers.lemma_order();
        }
        let ghost vals = self.peers.values_seq();
        let mut r: Vec<PeerConnection> = Vec::new();
        let mut i: usize = 0;
        while i < n
            invariant
                self.wf(),
                vals == self.peers.values_seq(),
                n == vals.len(),
                i <= n,
                r@ == selected_seq(vals.take(i as int), keep, status, self.infos()),
            decreases n - i,
        {
            let (_, p) = self.peers.entry_at(i);
            let take = match keep {
                Selection::All => true,
                Selection::Connected => p.connected,
                Selection::WithStatus => match self.peer_info.get(p.peer_id.as_str()) {
                    Some(info) => info.status == status,
                    None => false,
                },
            };
            assert(vals.take(i + 1).drop_last() =~= vals.take(i as int));
            assert(vals.take(i + 1).last() == *p);
            if take {
                r.push(p.duplicate());
            }
            i = i + 1;
        }
        assert(vals.take(n as int) =~= vals);
        r
    }

    /// Copies of all connections, in the order they are kept.
    pub fn get_peers(&self) -> (r: Vec<PeerConnection>)
        requires
            self.wf(),
        ensures
            r@ == self.connections_seq(),
    {
        let r = self.select(Selection::All, NodeStatus::Online);
        proof {
            lemma_select_all(self.connections_seq(), NodeStatus::Online, self.infos());
        }
        r
    }

    /// Copies of the open connections, in the order they are kept.
    pub fn get_connected_peers(&self) -> (r: Vec<PeerConnection>)
        requires
            self.wf(),
        ensures
            r@ == selected_seq(self.connections_seq(), Selection::Connected, NodeStatus::Online, self.infos()),
    {
        self.select(Selection::Connected, NodeStatus::Online)
    }

    /// How many connections are open.
    pub fn connected_count(&self) -> (n: usize)
        requires
            self.wf(),
        ensures
            n == selected_seq(self.connections_seq(), Selection::Connected, NodeStatus::Online, self.infos()).len(),
    {
        let r = self.get_connected_peers();
        r.len()
    }

    /// Copies of the connections whose peer reported `status`, in the order
    /// they are kept.
    pub fn get_peers_by_status(&self, status: NodeStatus) -> (r: Vec<PeerConnection>)
        requires
            self.wf(),
        ensures
            r@ == selected_seq(self.connections_seq(), Selection::WithStatus, status, self.infos()),
    {
        self.select(Selection::WithStatus, status)
    }

    /// Copies of the connections whose peer reported being online.
    pub fn get_online_peers(&self) -> (r: Vec<PeerConnection>)
        requires
            self.wf(),
        ensures
            r@ == selected_seq(self.connections_seq(), Selection::WithStatus, NodeStatus::Online, self.infos()),
    {
        self.get_peers_by_status(NodeStatus::Online)
    }

    /// Forgets every peer.
    pub fn clear(&mut self)
        ensures
            final(self).wf(),
            final(self).connections() == Map::<Seq<char>, PeerConnection>::empty(),
            final(self).infos() == Map::<Seq<char>, PeerInfo>::empty(),
    {
        self.peers = KeyedStore::new();
        self.peer_info = KeyedStore::new();
    }
}

impl Default for PeerManager {
    fn default() -> (m: PeerManager)
        ensures
            m.wf(),
            m.connections() == Map::<Seq<char>, PeerConnection>::empty(),
            m.infos() == Map::<Seq<char>, PeerInfo>::empty(),
    {
        PeerManager::new()
    }
}

/// Which connections a listing keeps.
#[derive(Clone, Copy)]
pub enum Selection {
    All,
    Connected,
    WithStatus,
}

/// Whether a listing keeps a connection: all of them, the open ones, or
/// those whose peer reported `status`.
pub open spec fn selected(keep: Selection, status: NodeStatus, c: PeerConnection, infos: Map<Seq<char>, PeerInfo>) -> bool {
    match keep {
        Selection::All => true,
        Selection::Connected => c.connected,
        Selection::WithStatus => infos.contains_key(c.peer_id@) && infos[c.peer_id@].status == status,
    }
}

/// The connections of a list that a listing keeps, in order.
pub open spec fn selected_seq(
    s: Seq<PeerConnection>,
    keep: Selection,
    status: NodeStatus,
    infos: Map<Seq<char>, PeerInfo>,
) -> Seq<PeerConnection>
    decreases s.len(),
{
    if s.len() == 0 {
        s
    } else if selected(keep, status, s.last(), infos) {
        selected_seq(s.drop_last(), keep, status, infos).push(s.last())
    } else {
        selected_seq(s.drop_last(), keep, status, infos)
    }
}

proof fn lemma_select_all(s: Seq<PeerConnection>, status: NodeStatus, infos: Map<Seq<char>, PeerInfo>)
    ensures
        selected_seq(s, Selection::All, status, infos) == s,
    decreases s.len(),
{
    if s.len() > 0 {
        lemma_select_all(s.drop_last(), status, infos);
        assert(s.drop_last().push(s.last()) =~= s);
    }
}

} // verus!
