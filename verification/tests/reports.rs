use cluster_runtime::commands::{add_backend_totals, example_result_from_job, example_result_from_job_ray};
use cluster_runtime::dask::adapter::{dask_capabilities, errors_from, health_label, mpi_entry_refusal, outcome_status};
use cluster_runtime::dask::monitoring::{probe_address, worker_totals};
use cluster_runtime::dask::scheduler::{
    memory_limit_setting, readiness_step, scheduler_start_messages, worker_scheduler_address,
    worker_start_messages, ReadinessPoll, ReadinessStep,
};
use cluster_runtime::dask::services::{missing_packages, required_packages, scheduler_not_ready, workers_not_ready};
use cluster_runtime::dask::types::{ClusterHealth, ComponentStatus};
use cluster_runtime::jobs::models::JobStatus;
use cluster_runtime::network::cluster::ClusterSummary;

#[test]
fn example_results_from_jobs() {
    let errors = vec!["first".to_string(), "second".to_string()];
    let r = example_result_from_job("mandelbrot", "Mandelbrot Renderer", JobStatus::Completed, 1200, 3, Some("ok".into()), &errors);
    assert!(r.success);
    assert_eq!(r.result_summary, "ok");
    assert_eq!(r.error, Some("first".to_string()));
    let r = example_result_from_job_ray("x", "X", JobStatus::Failed, 0, 0, None, &vec![]);
    assert!(!r.success);
    assert_eq!(r.result_summary, "");
    assert_eq!(r.error, None);
}

#[test]
fn backend_totals_accumulate() {
    let mut s = ClusterSummary { total_nodes: 0, online_nodes: 0, total_cpus: 0, total_ram: 0, total_gpus: 0, total_workers: 0 };
    add_backend_totals(&mut s, 0, true, 8, 1024);
    assert_eq!((s.total_nodes, s.online_nodes, s.total_cpus, s.total_ram, s.total_workers), (1, 1, 8, 1024, 0));
    add_backend_totals(&mut s, 3, false, 4, 10);
    assert_eq!((s.total_nodes, s.online_nodes, s.total_cpus, s.total_ram, s.total_workers), (4, 4, 12, 1034, 3));
    add_backend_totals(&mut s, 0, false, 0, 0);
    assert_eq!((s.total_nodes, s.online_nodes), (5, 4));
}

#[test]
fn dask_reports() {
    assert!(dask_capabilities().supports_fault_tolerance);
    assert_eq!(health_label(ClusterHealth::Degraded), "degraded");
    assert_eq!(health_label(ClusterHealth::Unknown), "unknown");
    assert_eq!(outcome_status(true), JobStatus::Completed);
    assert_eq!(outcome_status(false), JobStatus::Failed);
    assert_eq!(errors_from(Some("e".into())), vec!["e".to_string()]);
    assert!(errors_from(None).is_empty());
    assert_eq!(mpi_entry_refusal(), "MpiExecutable jobs require the MPI scheduler");
}

#[test]
fn snapshot_probe_and_totals() {
    assert_eq!(probe_address(Some("tcp://a:1".into()), ComponentStatus::Running, "tcp://b:2"), Some("tcp://a:1".to_string()));
    assert_eq!(probe_address(None, ComponentStatus::Running, "tcp://b:2"), Some("tcp://b:2".to_string()));
    assert_eq!(probe_address(None, ComponentStatus::Stopped, "tcp://b:2"), None);
    assert_eq!(worker_totals(&vec![2, 4], &vec![100, 200, 300]), (6, 600));
    assert_eq!(worker_totals(&vec![], &vec![]), (0, 0));
}

#[test]
fn readiness_decisions() {
    let (exited, late) = scheduler_start_messages();
    assert!(matches!(readiness_step(0, ReadinessPoll::Ready, exited, late), ReadinessStep::Ready));
    assert!(matches!(readiness_step(0, ReadinessPoll::Pending, exited, late), ReadinessStep::Continue));
    match readiness_step(29, ReadinessPoll::Unreachable, exited, late) {
        ReadinessStep::TimedOut(m) => assert_eq!(m, "Scheduler did not become ready in time."),
        _ => panic!("the last poll times out"),
    }
    match readiness_step(3, ReadinessPoll::Exited(None), exited, late) {
        ReadinessStep::Failed(m) => assert_eq!(m, "Scheduler process exited before becoming ready"),
        _ => panic!("an exited process fails"),
    }
    match readiness_step(3, ReadinessPoll::Exited(Some("Traceback".into())), exited, late) {
        ReadinessStep::Failed(m) => assert_eq!(m, "Traceback"),
        _ => panic!("an exited process fails"),
    }
    let (w_exited, _) = worker_start_messages();
    assert_eq!(w_exited, "Worker process exited before becoming ready");
}

#[test]
fn worker_settings() {
    assert_eq!(worker_scheduler_address(Some("tcp://x:1".into()), "tcp://d:2"), "tcp://x:1");
    assert_eq!(worker_scheduler_address(Some("   ".into()), "tcp://d:2"), "tcp://d:2");
    assert_eq!(worker_scheduler_address(None, "tcp://d:2"), "tcp://d:2");
    assert_eq!(memory_limit_setting(""), None);
    assert_eq!(memory_limit_setting("4GB"), Some("4GB".to_string()));
}

#[test]
fn package_checks() {
    assert_eq!(required_packages(), vec!["dask", "distributed", "cloudpickle", "msgpack", "psutil", "numpy"]);
    let installed = vec!["Dask".to_string(), "numpy".to_string()];
    assert_eq!(missing_packages(&vec!["dask", "psutil", "NumPy"], &installed), vec!["psutil".to_string()]);
}

#[test]
fn example_readiness_messages() {
    assert_eq!(scheduler_not_ready(ComponentStatus::Running), None);
    assert_eq!(
        scheduler_not_ready(ComponentStatus::Stopped),
        Some("Start the Dask scheduler first (Cluster page \u{2192} Start Scheduler).".to_string())
    );
    assert_eq!(workers_not_ready(2), None);
    assert_eq!(
        workers_not_ready(0),
        Some("No workers are connected. Start at least one worker (Cluster page \u{2192} Start Worker).".to_string())
    );
}
