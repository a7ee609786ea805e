use cluster_runtime::clock::Timestamp;
use cluster_runtime::network::cluster::{PeerInfo, ResourceInfo};
use cluster_runtime::network::discovery::{announcement, broadcast_targets, DiscoveredPeers};
use cluster_runtime::network::identity::identity_path;
use cluster_runtime::network::peers::PeerManager;
use cluster_runtime::network::types::NodeStatus;

fn t(secs: i64) -> Timestamp {
    Timestamp { secs, nanos: 0 }
}

fn info(id: &str, status: NodeStatus) -> PeerInfo {
    PeerInfo {
        node_id: id.into(),
        node_name: id.into(),
        host: "h".into(),
        port: 1,
        status,
        resources: ResourceInfo::default(),
        version: "1".into(),
        connected_since: t(0),
        last_heartbeat: t(0),
        latency_ms: 0,
    }
}

#[test]
fn peer_connections() {
    let mut m = PeerManager::new();
    m.add_peer_at("a".into(), "10.0.0.1".into(), 1, t(1));
    m.add_peer_at("b".into(), "10.0.0.2".into(), 2, t(1));
    m.add_peer_at("a".into(), "other".into(), 9, t(5));
    assert_eq!(m.get_peer("a").unwrap().address, "10.0.0.1");
    assert_eq!(m.total_count(), 2);
    m.mark_connected_at("a", t(7));
    let a = m.get_peer("a").unwrap();
    assert!(a.connected);
    assert_eq!(a.connected_since, Some(t(7)));
    assert_eq!(m.connected_count(), 1);
    assert_eq!(m.get_connected_peers().len(), 1);
    m.update_latency_at("a", 12, t(8));
    assert_eq!(m.get_peer("a").unwrap().latency_ms, 12);
    m.mark_disconnected_at("a", t(9));
    assert!(!m.get_peer("a").unwrap().connected);
    assert_eq!(m.get_peer("a").unwrap().connected_since, None);
    assert_eq!(m.connected_count(), 0);
    assert!(m.has_peer("b"));
    m.remove_peer("b");
    assert!(!m.has_peer("b"));
    m.clear();
    assert_eq!(m.total_count(), 0);
}

#[test]
fn peers_by_reported_status() {
    let mut m = PeerManager::default();
    m.add_peer_at("a".into(), "x".into(), 1, t(1));
    m.add_peer_at("b".into(), "y".into(), 1, t(1));
    m.add_peer_at("c".into(), "z".into(), 1, t(1));
    m.update_peer_info("a".into(), info("a", NodeStatus::Online));
    m.update_peer_info("b".into(), info("b", NodeStatus::Offline));
    let online = m.get_online_peers();
    assert_eq!(online.len(), 1);
    assert_eq!(online[0].peer_id, "a");
    assert_eq!(m.get_peers_by_status(NodeStatus::Offline).len(), 1);
    assert_eq!(m.get_peers().len(), 3);
    assert_eq!(m.get_peer_info("b").unwrap().status, NodeStatus::Offline);
    assert!(m.get_peer_info("c").is_none());
}

#[test]
fn lan_discovery_table() {
    let mut d = DiscoveredPeers::new();
    d.record_announcement("me", announcement("me", "Me", 1, 100), "127.0.0.1".into(), 100);
    assert!(d.get_peers().is_empty());
    d.record_announcement("me", announcement("n1", "Node 1", 54321, 100), "10.0.0.5".into(), 100);
    d.record_announcement("me", announcement("n2", "Node 2", 54321, 130), "10.0.0.6".into(), 130);
    let p = d.get_peer("n1").unwrap();
    assert_eq!(p.ip, "10.0.0.5");
    assert!(!p.connected);
    d.mark_connected("n1");
    assert!(d.get_peer("n1").unwrap().connected);
    d.mark_disconnected("n1");
    assert!(!d.get_peer("n1").unwrap().connected);
    d.sweep(140, 30);
    assert!(d.get_peer("n1").is_none());
    assert!(d.get_peer("n2").is_some());
    d.sweep(140, 30);
    assert_eq!(d.get_peers().len(), 1);
    d.remove_peer("n2");
    assert!(d.get_peers().is_empty());
    assert_eq!(broadcast_targets(54322), ("255.255.255.255:54322".to_string(), "127.0.0.1:54322".to_string()));
}

#[test]
fn identity_file_location() {
    let p = identity_path("/var/data");
    assert_eq!(p, "/var/data/p2p/identity.key");
    assert_eq!(identity_path("/var/data/"), "/var/data/p2p/identity.key");
    assert_eq!(identity_path(""), "p2p/identity.key");
}
