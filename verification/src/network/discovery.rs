//! LAN discovery announcements.

use vstd::prelude::*;

use crate::store::KeyedStore;
use crate::text::{dec, decimal, str_eq, string_views};

verus! {

/// Discovery message sent over UDP.
#[derive(Debug, Clone)]
pub struct DiscoveryMessage {
    pub node_id: String,
    pub node_name: String,
    pub runtime_port: u16,
    pub timestamp: i64,
}

/// Discovery configuration.
#[derive(Debug, Clone, Copy, PartialEq, Eq, Structural)]
pub struct DiscoveryConfig {
    /// UDP port for discovery
    pub discovery_port: u16,
    /// Discovery interval in seconds
    pub discovery_interval: u64,
    /// Peer timeout in seconds (remove after this many seconds of no response)
    pub peer_timeout: u64,
}

impl Default for DiscoveryConfig {
    fn default() -> (c: DiscoveryConfig)
        ensures
            c == (DiscoveryConfig { discovery_port: 54322, discovery_interval: 10, peer_timeout: 30 }),
    {
        DiscoveryConfig { discovery_port: 54322, discovery_interval: 10, peer_timeout: 30 }
    }
}

/// Whether a peer last seen at `last_seen` is still kept at time `now`.
pub open spec fn peer_is_fresh(now: i64, last_seen: i64, timeout: u64) -> bool {
    now - last_seen < timeout
}

/// The stale-peer rule of the discovery sweep.
pub fn peer_still_fresh(now: i64, last_seen: i64, timeout: u64) -> (b: bool)
    ensures
        b == peer_is_fresh(now, last_seen, timeout),
{
    let age: i128 = now as i128 - last_seen as i128;
    age < timeout as i128
}

/// A node heard on the LAN: where its runtime listens, when it was last
/// heard, and whether a connection to it is open.
#[derive(Debug, Clone)]
pub struct DiscoveredPeer {
    pub node_id: String,
    pub node_name: String,
    /// The sender's IP address, in its textual form.
    pub ip: String,
    pub runtime_port: u16,
    pub last_seen: i64,
    pub connected: bool,
}

impl DiscoveredPeer {
    pub fn duplicate(&self) -> (r: DiscoveredPeer)
        ensures
            r == *self,
    {
        DiscoveredPeer {
            node_id: self.node_id.clone(),
            node_name: self.node_name.clone(),
            ip: self.ip.clone(),
            runtime_port: self.runtime_port,
            last_seen: self.last_seen,
            connected: self.connected,
        }
    }
}

/// The announcement this node broadcasts at time `now`.
pub fn announcement(node_id: &str, node_name: &str, runtime_port: u16, now: i64) -> (m: DiscoveryMessage)
    ensures
        m.node_id@ == node_id@,
        m.node_name@ == node_name@,
        m.runtime_port == runtime_port,
        m.timestamp == now,
{
    DiscoveryMessage {
        node_id: String::from_str(node_id),
        node_name: String::from_str(node_name),
        runtime_port,
        timestamp: now,
    }
}

/// Where announcements go: the LAN broadcast address and this machine, on
/// the discovery port.
pub fn broadcast_targets(discovery_port: u16) -> (r: (String, String))
    ensures
        r.0@ == "255.255.255.255:"@ + dec(discovery_port as nat),
        r.1@ == "127.0.0.1:"@ + dec(discovery_port as nat),
{
    let port = decimal(discovery_port as u64);
    let mut a = String::from_str("255.255.255.255:");
    a.append(port.as_str());
    let mut b = String::from_str("127.0.0.1:");
    b.append(port.as_str());
    (a, b)
}

/// The peers of `m` still fresh at time `now`.
pub open spec fn fresh_peers(m: Map<Seq<char>, DiscoveredPeer>, now: i64, timeout: u64) -> Map<
    Seq<char>,
    DiscoveredPeer,
> {
    m.restrict(m.dom().filter(|k: Seq<char>| peer_is_fresh(now, m[k].last_seen, timeout)))
}

/// The nodes heard on the LAN, by node id.
pub struct DiscoveredPeers {
    peers: KeyedStore<DiscoveredPeer>,
}

impl DiscoveredPeers {
    pub closed spec fn view(&self) -> Map<Seq<char>, DiscoveredPeer> {
        self.peers.view()
    }

    pub closed spec fn wf(&self) -> bool {
        &&& self.peers.wf()
        &&& forall|k: Seq<char>| #[trigger] self.peers.view().contains_key(k) ==> self.peers.view()[k].node_id@ == k
    }

    pub fn new() -> (d: DiscoveredPeers)
        ensures
            d.wf(),
            d.view() == Map::<Seq<char>, DiscoveredPeer>::empty(),
    {
        DiscoveredPeers { peers: KeyedStore::new() }
    }

    /// Records an announcement heard at `now` from `sender_ip`. This node's
    /// own announcements are ignored; another node is (re)recorded as not
    /// connected.
    pub fn record_announcement(&mut self, own_id: &str, message: DiscoveryMessage, sender_ip: String, now: i64)
        requires
            old(self).wf(),
        ensures
            final(self).wf(),
            message.node_id@ == own_id@ ==> final(self).view() == old(self).view(),
            message.node_id@ != own_id@ ==> final(self).view() == old(self).view().insert(
                message.node_id@,
                DiscoveredPeer {
                    node_id: message.node_id,
                    node_name: message.node_name,
                    ip: sender_ip,
                    runtime_port: message.runtime_port,
                    last_seen: now,
                    connected: false,
                },
            ),
    {
        if !str_eq(message.node_id.as_str(), own_id) {
            let key = message.node_id.clone();
            let peer = DiscoveredPeer {
                node_id: message.node_id,
                node_name: message.node_name,
                ip: sender_ip,
                runtime_port: message.runtime_port,
                last_seen: now,
                connected: false,
            };
            self.peers.insert(key, peer);
        }
    }

    /// Forgets the peers not heard from within `timeout` seconds of `now`.
    pub fn sweep(&mut self, now: i64, timeout: u64)
        requires
            old(self).wf(),
        ensures
            final(self).wf(),
            final(self).view() == fresh_peers(old(self).view(), now, timeout),
    {
        let ghost start = self.peers.view();
        let keys = self.peers.keys();
        proof {
            self.peers.lemma_order();
        }
        let ghost ks = string_views(keys@);
        let mut i: usize = 0;
        while i < keys.len()
            invariant
                i <= keys@.len(),
                ks == string_views(keys@),
                ks.no_duplicates(),
                forall|k: Seq<char>| start.contains_key(k) <==> ks.contains(k),
                self.wf(),
                start == old(self).peers.view(),
                self.peers.view() == start.restrict(
                    start.dom().filter(
                        |k: Seq<char>|
                            !(!peer_is_fresh(now, start[k].last_seen, timeout) && ks.take(i as int).contains(k)),
                    ),
                ),
            decreases keys@.len() - i,
        {
            let key = keys[i].as_str();
            let stale = match self.peers.get(key) {
                Some(p) => !peer_still_fresh(now, p.last_seen, timeout),
                None => false,
            };
            if stale {
                self.peers.remove(key);
            }
            assert(ks[i as int] == key@);
            assert(self.peers.view() =~= start.restrict(
                start.dom().filter(
                    |k: Seq<char>|
                        !(!peer_is_fresh(now, start[k].last_seen, timeout) && ks.take(i + 1).contains(k)),
                ),
            )) by {
                assert forall|k: Seq<char>| ks.take(i + 1).contains(k) == (ks.take(i as int).contains(k) || k == key@) by {
                    if ks.take(i + 1).contains(k) {
                        let j = choose|j: int| 0 <= j < i + 1 && #[trigger] ks.take(i + 1)[j] == k;
                        if j < i {
                            assert(ks.take(i as int)[j] == k);
                        }
                    }
                    if ks.take(i as int).contains(k) {
                        let j = choose|j: int| 0 <= j < i && #[trigger] ks.take(i as int)[j] == k;
                        assert(ks.take(i + 1)[j] == k);
                    }
                    if k == key@ {
                        assert(ks.take(i + 1)[i as int] == k);
                    }
                }
                assert forall|k: Seq<char>| ks.take(i as int).contains(k) implies k != key@ by {
                    let j = choose|j: int| 0 <= j < i && #[trigger] ks.take(i as int)[j] == k;
                    assert(ks[j] == k);
                }
            }
            i = i + 1;
        }
        assert(ks.take(keys@.len() as int) =~= ks);
        assert(self.peers.view() =~= fresh_peers(start, now, timeout));
    }

    /// Sets whether a connection to a known peer is open; an unknown id
    /// changes nothing.
    pub fn set_connected(&mut self, node_id: &str, connected: bool)
        requires
            old(self).wf(),
        ensures
            final(self).wf(),
            final(self).view() == if old(self).view().contains_key(node_id@) {
                old(self).view().insert(node_id@, DiscoveredPeer { connected, ..old(self).view()[node_id@] })
            } else {
                old(self).view()
            },
    {
        match self.peers.get(node_id) {
            Some(p) => {
                let mut q = p.duplicate();
                q.connected = connected;
                self.peers.set_value(node_id, q);
            },
            None => {},
        }
    }

    pub fn mark_connected(&mut self, node_id: &str)
        requires
            old(self).wf(),
        ensures
            final(self).wf(),
            final(self).view() == if old(self).view().contains_key(node_id@) {
                old(self).view().insert(node_id@, DiscoveredPeer { connected: true, ..old(self).view()[node_id@] })
            } else {
                old(self).view()
            },
    {
        self.set_connected(node_id, true);
    }

    pub fn mark_disconnected(&mut self, node_id: &str)
        requires
            old(self).wf(),
        ensures
            final(self).wf(),
            final(self).view() == if old(self).view().contains_key(node_id@) {
                old(self).view().insert(node_id@, DiscoveredPeer { connected: false, ..old(self).view()[node_id@] })
            } else {
                old(self).view()
            },
    {
        self.set_connected(node_id, false);
    }

    pub fn remove_peer(&mut self, node_id: &str)
        requires
            old(self).wf(),
        ensures
            final(self).wf(),
            final(self).view() == old(self).view().remove(node_id@),
    {
        self.peers.remove(node_id);
    }

    pub fn get_peer(&self, node_id: &str) -> (r: Option<DiscoveredPeer>)
        requires
            self.wf(),
        ensures
            r == if self.view().contains_key(node_id@) {
                Some(self.view()[node_id@])
            } else {
                None::<DiscoveredPeer>
            },
    {
        match self.peers.get(node_id) {
            Some(p) => Some(p.duplicate()),
            None => None,
        }
    }

    /// Copies of all known peers.
    pub fn get_peers(&self) -> (r: Vec<DiscoveredPeer>)
        requires
            self.wf(),
        ensures
            r@.len() == self.view().len(),
            forall|i: int|
                0 <= i < r@.len() ==> self.view().contains_key(#[trigger] r@[i].node_id@)
                    && self.view()[r@[i].node_id@] == r@[i],
            forall|k: Seq<char>|
                #[trigger] self.view().contains_key(k) ==> exists|i: int| 0 <= i < r@.len() && r@[i].node_id@ == k,
    {
        let n = self.peers.len();
        proof {
            self.peers.lemma_order();
        }
        let mut r: Vec<DiscoveredPeer> = Vec::new();
        let mut i: usize = 0;
        while i < n
            invariant
                self.wf(),
                n == self.peers.values_seq().len() == self.peers.keys_seq().len(),
                forall|q: int|
                    0 <= q < self.peers.keys_seq().len() ==> self.peers.view()[#[trigger] self.peers.keys_seq()[q]]
                        == self.peers.values_seq()[q],
                forall|k: Seq<char>| self.peers.view().contains_key(k) <==> self.peers.keys_seq().contains(k),
                i <= n,
                r@.len() == i,
                forall|j: int| 0 <= j < i ==> #[trigger] r@[j] == self.peers.values_seq()[j],
            decreases n - i,
        {
            let (_, p) = self.peers.entry_at(i);
            r.push(p.duplicate());
            i = i + 1;
        }
        proof {
            assert forall|j: int| 0 <= j < r@.len() implies self.view().contains_key(#[trigger] r@[j].node_id@)
                && self.view()[r@[j].node_id@] == r@[j] by {
                let k = self.peers.keys_seq()[j];
                assert(self.peers.keys_seq().contains(k));
                assert(self.peers.view()[self.peers.keys_seq()[j]] == self.peers.values_seq()[j]);
                assert(self.peers.view().contains_key(k));
            }
            assert forall|k: Seq<char>| #[trigger] self.view().contains_key(k) implies exists|i: int|
                0 <= i < r@.len() && r@[i].node_id@ == k by {
                assert(self.peers.keys_seq().contains(k));
                let q = choose|q: int| 0 <= q < self.peers.keys_seq().len() && self.peers.keys_seq()[q] == k;
                assert(self.peers.view()[self.peers.keys_seq()[q]] == self.peers.values_seq()[q]);
                assert(r@[q] == self.peers.values_seq()[q]);
            }
        }
        r
    }
}

/// Every peer left after a sweep is fresh, and a second sweep at the same
/// moment changes nothing.
pub proof fn lemma_sweep_fresh(m: Map<Seq<char>, DiscoveredPeer>, now: i64, timeout: u64)
    ensures
        forall|k: Seq<char>|
            #[trigger] fresh_peers(m, now, timeout).contains_key(k) ==> peer_is_fresh(
                now,
                fresh_peers(m, now, timeout)[k].last_seen,
                timeout,
            ),
        fresh_peers(fresh_peers(m, now, timeout), now, timeout) == fresh_peers(m, now, timeout),
{
    assert(fresh_peers(fresh_peers(m, now, timeout), now, timeout) =~= fresh_peers(m, now, timeout));
}

/// A node that announced itself at `heard` survives every sweep made before
/// `timeout` seconds have passed, and is gone after a sweep made later.
pub proof fn lemma_announced_peer_kept_until_silent(
    m: Map<Seq<char>, DiscoveredPeer>,
    peer: DiscoveredPeer,
    heard: i64,
    now: i64,
    timeout: u64,
)
    requires
        peer.last_seen == heard,
    ensures
        now - heard < timeout ==> fresh_peers(m.insert(peer.node_id@, peer), now, timeout).contains_key(peer.node_id@),
        now - heard >= timeout ==> !fresh_peers(m.insert(peer.node_id@, peer), now, timeout).contains_key(peer.node_id@),
{
}

} // verus!
