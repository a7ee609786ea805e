use cluster_runtime::clock::Timestamp;
use cluster_runtime::network::authentication::{Authenticator, Session, SessionManager};
use cluster_runtime::network::cluster::{ClusterManager, ClusterState, PeerInfo, ResourceInfo};
use cluster_runtime::network::types::NetworkConfig;
use cluster_runtime::network::heartbeat::{HealthStatus, HeartbeatInfo, HeartbeatManager};
use cluster_runtime::network::types::NodeStatus;

fn peer(id: &str, status: NodeStatus, cpus: usize, ram: u64) -> PeerInfo {
    let t = Timestamp { secs: 0, nanos: 0 };
    PeerInfo {
        node_id: id.into(),
        node_name: id.into(),
        host: "10.0.0.1".into(),
        port: 1,
        status,
        resources: ResourceInfo {
            cpu_cores: cpus,
            ram_available: ram,
            gpu_count: 1,
            worker_count: 2,
            ..ResourceInfo::default()
        },
        version: "1".into(),
        connected_since: t,
        last_heartbeat: t,
        latency_ms: 0,
    }
}

#[test]
fn heartbeat_sweep_marks_overdue_nodes_offline() {
    let mut m = HeartbeatManager::new(5, 30);
    m.register_node_at("a".into(), 100);
    m.register_node_at("b".into(), 160);
    m.register_node_at("a".into(), 999);
    assert_eq!(m.get_heartbeat("a").unwrap().last_heartbeat, 100);
    let mut out = m.check_timeouts_at(140);
    out.sort();
    assert_eq!(out, vec!["a".to_string()]);
    assert_eq!(m.get_heartbeat("a").unwrap().status, HealthStatus::Offline);
    assert_eq!(m.get_heartbeat("b").unwrap().status, HealthStatus::Healthy);
    // Sweeping again at the same moment reports the same node and changes nothing else.
    assert_eq!(m.check_timeouts_at(140), vec!["a".to_string()]);
    assert_eq!(m.get_all_heartbeats().len(), 2);
}

#[test]
fn heartbeat_update_revives_and_tracks() {
    let mut m = HeartbeatManager::default();
    assert_eq!(m.timeout(), 30);
    assert_eq!(m.interval(), 5);
    m.register_node_at("a".into(), 0);
    m.check_timeouts_at(100);
    assert_eq!(m.get_heartbeat("a").unwrap().status, HealthStatus::Offline);
    m.update_heartbeat_at("a", 100, 7, 1, 2, 3, 4);
    let h = m.get_heartbeat("a").unwrap();
    assert_eq!(h.status, HealthStatus::Healthy);
    assert_eq!((h.last_heartbeat, h.cpu_usage_bits, h.ram_usage, h.ram_total, h.worker_count, h.active_jobs), (100, 7, 1, 2, 3, 4));
    m.update_heartbeat_at("new", 5, 0, 0, 0, 0, 0);
    assert_eq!(m.get_heartbeat("new").unwrap().node_id, "new");
    m.remove_node("a");
    assert!(m.get_heartbeat("a").is_none());
}

#[test]
fn heartbeat_info_rules() {
    let mut h = HeartbeatInfo::new_at("n".into(), 10);
    assert!(!h.is_timed_out_at(20, 30));
    assert!(h.is_timed_out_at(41, 30));
    assert!(!h.is_timed_out_at(40, 30));
    h.mark_unhealthy();
    assert_eq!(h.status, HealthStatus::Unhealthy);
    h.update_at(50, 1, 2, 3, 4, 5);
    assert_eq!(h.status, HealthStatus::Healthy);
    h.mark_offline();
    assert_eq!(h.status, HealthStatus::Offline);
}

#[test]
fn cluster_summary_counts_online_nodes() {
    let mut c = ClusterState::new("local".into());
    c.add_node(peer("a", NodeStatus::Online, 4, 100));
    c.add_node(peer("b", NodeStatus::Offline, 8, 200));
    c.add_node(peer("c", NodeStatus::Online, 2, 50));
    let s = c.get_summary();
    assert_eq!(s.total_nodes, 3);
    assert_eq!(s.online_nodes, 2);
    assert_eq!(s.total_cpus, 6);
    assert_eq!(s.total_ram, 150);
    assert_eq!(s.total_gpus, 2);
    assert_eq!(s.total_workers, 4);
    assert_eq!(c.get_online_nodes().len(), 2);
    c.set_node_status("b", NodeStatus::Online);
    assert_eq!(c.get_summary().online_nodes, 3);
    c.remove_node("a");
    assert_eq!(c.get_summary().total_nodes, 2);
    assert_eq!(c.local_node_id(), "local");
}

#[test]
fn cluster_updates_replace_records() {
    let mut c = ClusterState::new("local".into());
    c.add_node(peer("a", NodeStatus::Online, 4, 100));
    c.update_node(peer("a", NodeStatus::Online, 16, 100));
    assert_eq!(c.get_peers().len(), 1);
    assert_eq!(c.get_node("a").unwrap().resources.cpu_cores, 16);
    let t = Timestamp { secs: 9, nanos: 1 };
    c.sync_resources_at("a", ResourceInfo { cpu_cores: 1, ..ResourceInfo::default() }, t);
    assert_eq!(c.get_node("a").unwrap().resources.cpu_cores, 1);
    assert_eq!(c.get_node("a").unwrap().last_heartbeat, t);
    c.sync_resources_at("zzz", ResourceInfo::default(), t);
    assert!(c.get_node("zzz").is_none());
    assert_eq!(c.online_cpu_usage_bits().len(), 1);
}

#[test]
fn challenge_response_is_single_use() {
    let mut a = Authenticator::new();
    let c = a.generate_challenge("n1");
    assert_eq!(c.len(), 32);
    assert!(c.chars().all(|x| x.is_ascii_alphanumeric()));
    assert!(a.verify_challenge("n1", "sig", &c));
    assert!(!a.verify_challenge("n1", "sig", &c));
}

#[test]
fn challenge_response_rules() {
    let mut a = Authenticator::new();
    let c = a.generate_challenge("n1");
    assert!(!a.verify_challenge("n1", "", &c));
    let c = a.generate_challenge("n1");
    assert!(!a.verify_challenge("n1", "sig", "wrong"));
    let _ = c;
    let c = a.generate_challenge("n1");
    assert!(!a.verify_challenge_at("n1", "sig", &c, i64::MAX));
    assert!(!a.verify_challenge("nobody", "sig", "x"));
}

#[test]
fn signatures_and_peers() {
    let s = Authenticator::sign_challenge("challenge", "key");
    assert_eq!(s.len(), 64);
    assert_eq!(s, Authenticator::sign_challenge("challenge", "key"));
    assert_ne!(s, Authenticator::sign_challenge("challenge", "other"));
    // HMAC-SHA256 of "The quick brown fox jumps over the lazy dog" keyed with "key".
    assert_eq!(
        Authenticator::sign_challenge("The quick brown fox jumps over the lazy dog", "key"),
        "f7bc83f430538424b13298e6aa6fb143ef4d59a14946175997479dbc2d1a3cd8"
    );
    let (public, private) = Authenticator::generate_key_pair();
    assert_eq!(public.len(), 64);
    assert_eq!(private.len(), 64);
    let mut a = Authenticator::new();
    assert!(a.validate_peer("n", "anything"));
    a.register_known_node("n".into(), "pk".into());
    assert!(a.validate_peer("n", "pk"));
    assert!(!a.validate_peer("n", "other"));
}

#[test]
fn expired_challenges_are_cleared() {
    let mut a = Authenticator::new();
    let c = a.generate_challenge("n1");
    a.clear_expired_at(i64::MAX);
    assert!(!a.verify_challenge("n1", "sig", &c));
    let c = a.generate_challenge("n2");
    a.clear_expired();
    assert!(a.verify_challenge("n2", "sig", &c));
}

#[test]
fn sessions() {
    let mut m = SessionManager::new();
    let s = m.create_session("n".into());
    assert_eq!(s.node_id, "n");
    assert_eq!(s.session_id.len(), 36);
    assert!(s.is_valid());
    assert!(s.is_valid_at(s.last_activity + 86399));
    assert!(!s.is_valid_at(s.last_activity + 86400));
    let got = m.get_session("n").unwrap();
    assert_eq!(got.session_id, s.session_id);
    m.update_activity_at("n", s.last_activity + 5);
    assert_eq!(m.get_session("n").unwrap().last_activity, s.last_activity + 5);
    m.remove_session("n");
    assert!(m.get_session("n").is_none());
    let mut t = Session::new("x".into());
    t.touch_at(12);
    assert_eq!(t.last_activity, 12);
}

#[test]
fn cluster_manager_starts_empty_with_configured_identity() {
    let m = ClusterManager::new(NetworkConfig::default(), "me".into(), "node".into(), "10.0.0.9".into(), "pk".into());
    let local = m.get_local_node();
    assert_eq!(local.node_id, "me");
    assert_eq!(local.node_name, "node");
    assert_eq!(local.host, "10.0.0.9");
    assert_eq!(local.public_key, "pk");
    assert_eq!(local.port, 54321);
    assert_eq!(m.heartbeat_manager().interval(), 5);
    assert_eq!(m.heartbeat_manager().timeout(), 30);
    assert_eq!(m.get_cluster_state().local_node_id(), "me");
    assert!(m.get_peers().is_empty());
    assert_eq!(m.peer_manager().total_count(), 0);
    assert_eq!(m.config().discovery_port, 54322);
}

#[test]
fn cluster_manager_remove_peer_forgets_everywhere() {
    let mut m = ClusterManager::new(NetworkConfig::default(), "me".into(), "node".into(), "h".into(), "pk".into());
    m.register_local_node();
    assert!(m.heartbeat_manager().get_heartbeat("me").is_some());
    m.add_peer(peer("p1", NodeStatus::Online, 4, 100));
    m.add_peer(peer("p2", NodeStatus::Offline, 8, 200));
    assert_eq!(m.get_peers().len(), 2);
    assert_eq!(m.get_online_peers().len(), 1);
    m.update_node_status("p2", NodeStatus::Online);
    assert_eq!(m.get_peer("p2").unwrap().status, NodeStatus::Online);
    m.update_node_status("nobody", NodeStatus::Online);
    assert_eq!(m.get_summary().online_nodes, 2);
    m.sync_resources("p1", ResourceInfo { cpu_cores: 16, ..ResourceInfo::default() });
    assert_eq!(m.get_peer("p1").unwrap().resources.cpu_cores, 16);
    m.remove_peer("p1");
    assert!(m.get_peer("p1").is_none());
    assert_eq!(m.get_peers().len(), 1);
    m.remove_peer("me");
    assert!(m.heartbeat_manager().get_heartbeat("me").is_none());
}
