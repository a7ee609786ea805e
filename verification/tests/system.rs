use cluster_runtime::config::{AppConfig, ConfigService};
use cluster_runtime::jobs::models::JobStatus;
use cluster_runtime::nodes::{map_worker_status, platform_for_os, NodePlatform, NodeStatus};
use cluster_runtime::system::{count_by_status, job_is_active, mock_system_status, node_is_online, ServiceStatus};

#[test]
fn system_status_and_counts() {
    let s = mock_system_status();
    assert_eq!(s.networking, ServiceStatus::Degraded);
    assert_eq!(s.api, ServiceStatus::Healthy);
    let items = [1, 2, 3, 4, 5];
    assert_eq!(count_by_status(&items, |x: &i32| *x % 2 == 1), 3);
    assert_eq!(count_by_status(&items[..0], |_: &i32| true), 0);
}

#[test]
fn node_and_job_activity() {
    assert!(node_is_online(&NodeStatus::Online));
    assert!(node_is_online(&NodeStatus::Degraded));
    assert!(!node_is_online(&NodeStatus::Offline));
    assert!(job_is_active(&JobStatus::Running));
    assert!(!job_is_active(&JobStatus::Completed));
    assert_eq!(map_worker_status("running"), NodeStatus::Online);
    assert_eq!(platform_for_os("linux"), NodePlatform::Linux);
}

#[test]
fn config_defaults() {
    let c = AppConfig::default();
    let svc = ConfigService::new(c);
    assert!(!svc.get().theme.is_empty());
}
