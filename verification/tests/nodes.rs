use cluster_runtime::nodes::{nodes_from_dask, LocalWorkerView, NodePlatform, NodeStatus, SchedulerView, WorkerView};

fn worker(id: &str, name: &str, status: &str) -> WorkerView {
    WorkerView { id: id.into(), name: name.into(), status: status.into(), address: format!("tcp://{}", id) }
}

#[test]
fn dask_nodes_list_scheduler_workers_and_local_worker() {
    let s = SchedulerView { running: true, process_id: None, host: "0.0.0.0".into(), address: None };
    let local = LocalWorkerView { running: true, process_id: None, name: "worker-1".into(), scheduler_address: "tcp://s".into() };
    let nodes = nodes_from_dask(&s, &vec![worker("w1", "a", "busy")], &local, NodePlatform::Linux);
    assert_eq!(nodes.len(), 3);
    assert_eq!(nodes[0].id, "local-scheduler");
    assert_eq!(nodes[0].name, "scheduler (0.0.0.0)");
    assert_eq!(nodes[0].version, "tcp://127.0.0.1:8786");
    assert_eq!(nodes[1].status, NodeStatus::Degraded);
    assert_eq!(nodes[1].platform, NodePlatform::Other);
    assert_eq!(nodes[2].id, "local-worker-1");
    assert_eq!(nodes[2].backend, "dask-worker");
}

#[test]
fn local_worker_already_listed_is_not_repeated() {
    let s = SchedulerView { running: false, process_id: None, host: "h".into(), address: None };
    let local = LocalWorkerView { running: true, process_id: Some("p1".into()), name: "a".into(), scheduler_address: "tcp://s".into() };
    let nodes = nodes_from_dask(&s, &vec![worker("w1", "a", "running")], &local, NodePlatform::Linux);
    assert_eq!(nodes.len(), 1);
    assert_eq!(nodes[0].status, NodeStatus::Online);
    let stopped = LocalWorkerView { running: false, ..local };
    assert!(nodes_from_dask(&s, &vec![], &stopped, NodePlatform::Linux).is_empty());
}
