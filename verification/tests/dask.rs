use cluster_runtime::dask::dashboard::dashboard_view;
use cluster_runtime::dask::monitoring::compute_health;
use cluster_runtime::dask::scheduler::{component_status_for, local_connect_address, ready_payload};
use cluster_runtime::dask::scripts::{cluster_info_script, indent_body, scheduler_script, worker_script};
use cluster_runtime::dask::services::example_failure;
use cluster_runtime::dask::settings::DaskSettings;
use cluster_runtime::dask::types::{ClusterHealth, ComponentStatus, ProcessStatus};

#[test]
fn settings_defaults_and_addresses() {
    let s = DaskSettings::default();
    assert_eq!(s.scheduler_port, 8786);
    assert_eq!(s.dashboard_url(), "http://127.0.0.1:8787");
    assert_eq!(s.advertised_scheduler_address(), "tcp://127.0.0.1:8786");
    let other = DaskSettings { scheduler_address: "10.0.0.5:8786".into(), ..DaskSettings::default() };
    assert_eq!(other.advertised_scheduler_address(), "tcp://0.0.0.0:8786");
}

#[test]
fn dashboard_tabs() {
    let v = dashboard_view(&DaskSettings::default());
    assert_eq!(v.base_url, "http://127.0.0.1:8787");
    assert_eq!(v.tabs.len(), 6);
    assert_eq!(v.tabs[0].id, "status");
    assert_eq!(v.tabs[3].url, "http://127.0.0.1:8787/individual-progress");
    assert_eq!(v.tabs[5].label, "Profile");
}

#[test]
fn health_rules() {
    assert_eq!(compute_health(&ComponentStatus::Running, 2, &ComponentStatus::Stopped), ClusterHealth::Healthy);
    assert_eq!(compute_health(&ComponentStatus::Running, 0, &ComponentStatus::Running), ClusterHealth::Degraded);
    assert_eq!(compute_health(&ComponentStatus::Error, 5, &ComponentStatus::Running), ClusterHealth::Unhealthy);
    assert_eq!(compute_health(&ComponentStatus::Starting, 0, &ComponentStatus::Stopped), ClusterHealth::Degraded);
    assert_eq!(compute_health(&ComponentStatus::Stopped, 1, &ComponentStatus::Running), ClusterHealth::Healthy);
    assert_eq!(compute_health(&ComponentStatus::Stopped, 0, &ComponentStatus::Running), ClusterHealth::Degraded);
    assert_eq!(compute_health(&ComponentStatus::Stopped, 3, &ComponentStatus::Stopped), ClusterHealth::Unknown);
}

#[test]
fn process_polls() {
    assert_eq!(component_status_for(Some(ProcessStatus::Starting)), ComponentStatus::Running);
    assert_eq!(component_status_for(Some(ProcessStatus::Failed)), ComponentStatus::Error);
    assert_eq!(component_status_for(Some(ProcessStatus::Exited)), ComponentStatus::Stopped);
    assert_eq!(component_status_for(None), ComponentStatus::Unknown);
    assert_eq!(local_connect_address("0.0.0.0", 8786), "tcp://127.0.0.1:8786");
    assert_eq!(local_connect_address("10.1.2.3", 1), "tcp://10.1.2.3:1");
}

#[test]
fn ready_marker_payload() {
    let tail = "log\nDASK_SCHEDULER_READY {\"a\":1}\nmore\nDASK_SCHEDULER_READY {\"a\":2}\n";
    assert_eq!(ready_payload(tail, "DASK_SCHEDULER_READY "), Some("{\"a\":2}".to_string()));
    assert_eq!(ready_payload("nothing", "DASK_SCHEDULER_READY "), None);
}

#[test]
fn scripts_render() {
    let s = scheduler_script("0.0.0.0", 8786, 8787, "info");
    assert!(s.contains("8786"));
    assert!(s.contains("8787"));
    let c = cluster_info_script("tcp://1.2.3.4:8786");
    assert!(c.contains("tcp://1.2.3.4:8786"));
    assert_eq!(indent_body("a\r\n\n  b"), "        a\n\n          b");
    // Values are embedded as quoted string literals.
    let w = worker_script("tcp://h:1", "my \"w\"", 0, "", "", "info");
    assert!(w.contains("\"tcp://h:1\""));
    assert!(w.contains("\"my \\\"w\\\"\""));
    assert!(w.contains("\"info\""));
}

#[test]
fn example_failures() {
    let r = example_failure("mandelbrot", "boom".to_string());
    assert!(!r.success);
    assert_eq!(r.example_id, "mandelbrot");
    assert_eq!(r.error, Some("boom".to_string()));
}
