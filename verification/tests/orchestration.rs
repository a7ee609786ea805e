use cluster_runtime::clock::Timestamp;
use cluster_runtime::dask::client::{
    job_result_from_output, parse_json_stdout, read_cluster_info, JobPayload, ScriptOutput, WorkerEntry,
};
use cluster_runtime::dask::components::{SchedulerInfo, WorkerInfo};
use cluster_runtime::dask::monitoring::{connected_worker, probe_from_answer, MonitorState, ProbeOutcome};
use cluster_runtime::dask::scripts::{scheduler_script, worker_script};
use cluster_runtime::dask::settings::DaskSettings;
use cluster_runtime::dask::types::{ClusterHealth, ComponentStatus, ProcessStatus};
use cluster_runtime::jobs::dependencies::{parse_imports, InstallAction, InstallRun};
use cluster_runtime::plugin_registry::{PluginRegistry, PluginStatus};
use cluster_runtime::startup::{InitAction, InitEvent, InitStage, SchedulerBackend, Startup};

fn strings(v: &[&str]) -> Vec<String> {
    v.iter().map(|s| s.to_string()).collect()
}

#[test]
fn install_run_installs_each_target_in_order() {
    let mut run = InstallRun::new(strings(&["numpy", "pandas"]), strings(&["numpy"]));
    match run.step(None) {
        InstallAction::Install(p) => assert_eq!(p, "numpy"),
        other => panic!("{:?}", other),
    }
    match run.step(Some(Ok(()))) {
        InstallAction::Install(p) => assert_eq!(p, "pandas"),
        other => panic!("{:?}", other),
    }
    match run.step(Some(Ok(()))) {
        InstallAction::Finished(v) => assert_eq!(v, strings(&["numpy", "pandas"])),
        other => panic!("{:?}", other),
    }
}

#[test]
fn install_run_stops_at_first_failure() {
    let mut run = InstallRun::new(strings(&["scikit-learn", "zzz"]), strings(&["sklearn"]));
    assert!(matches!(run.step(None), InstallAction::Install(_)));
    match run.step(Some(Err("no network".into()))) {
        InstallAction::Abort(m) => assert_eq!(
            m,
            "Failed to install package `scikit-learn` (detected from import `sklearn`): no network. Check the package name and network connectivity, then retry."
        ),
        other => panic!("{:?}", other),
    }
}

#[test]
fn install_run_with_nothing_to_install_finishes() {
    let mut run = InstallRun::new(Vec::new(), Vec::new());
    match run.step(None) {
        InstallAction::Finished(v) => assert!(v.is_empty()),
        other => panic!("{:?}", other),
    }
}

fn out(stdout: &str, stderr: &str) -> ScriptOutput {
    ScriptOutput { stdout: stdout.into(), stderr: stderr.into(), exit_code: 1, execution_time_ms: 77 }
}

#[test]
fn job_result_from_successful_answer() {
    let o = out("log line\n{\"ok\": true, \"result\": [1,2], \"executionTimeMs\": 5, \"workersUsed\": 3}", "");
    let p = parse_json_stdout(&o.stdout).unwrap();
    assert_eq!(p.ok, Some(true));
    let r = job_result_from_output("j".into(), &o, Ok(p));
    assert!(r.success);
    assert_eq!(r.execution_time_ms, 5);
    assert_eq!(r.workers_used, 3);
    assert!(r.error.is_none());
    assert_eq!(r.result.unwrap().to_string(), "[1,2]");
}

#[test]
fn job_result_from_failed_answer() {
    let o = out("{\"ok\": false, \"error\": \"boom\"}", "");
    let r = job_result_from_output("j".into(), &o, parse_json_stdout(&o.stdout));
    assert!(!r.success);
    assert_eq!(r.error.as_deref(), Some("boom"));
    assert_eq!(r.execution_time_ms, 77);
    let o = out("{\"ok\": 1}", "");
    let r = job_result_from_output("j".into(), &o, parse_json_stdout(&o.stdout));
    assert_eq!(r.error.as_deref(), Some("Job failed"));
}

#[test]
fn job_result_from_output_that_is_not_json() {
    let o = out("not json", "Traceback: bad");
    let parsed = parse_json_stdout(&o.stdout);
    let e = match &parsed {
        Err(e) => e.clone(),
        Ok(_) => panic!("not JSON"),
    };
    assert!(e.starts_with("Failed to parse client JSON: "));
    assert!(e.ends_with(" (stdout=\"not json\")"));
    let r = job_result_from_output("j".into(), &o, parsed);
    assert!(!r.success);
    assert_eq!(r.error.unwrap(), format!("{} Output: Traceback: bad", e));
    let long = "x".repeat(900);
    let o = out("", &long);
    let r = job_result_from_output("j".into(), &o, Err("E".into()));
    assert_eq!(r.error.unwrap(), format!("E Output: {}\u{2026}", "x".repeat(800)));
    let _unused: Option<JobPayload> = None;
}

#[test]
fn scheduler_record_lifecycle() {
    let s = DaskSettings::default();
    let mut info = SchedulerInfo::new();
    let code = info.begin_start(&s).expect("spawns");
    assert_eq!(code, scheduler_script("0.0.0.0", 8786, 8787, "info"));
    assert_eq!(info.status, ComponentStatus::Starting);
    assert_eq!(info.port, 8786);
    info.mark_started("p1".into(), Timestamp { secs: 5, nanos: 0 }, &s);
    assert_eq!(info.status, ComponentStatus::Running);
    assert_eq!(info.address.as_deref(), Some("tcp://127.0.0.1:8786"));
    assert_eq!(info.dashboard_url.as_deref(), Some("http://127.0.0.1:8787"));
    assert!(info.begin_start(&s).is_none());
    info.apply_poll(Some(ProcessStatus::Running), None, "x\nDASK_SCHEDULER_READY {\"address\": \"tcp://10.0.0.2:8786\", \"dashboard\": \"http://d\"}\n", "out".into());
    assert_eq!(info.logs, "out");
    assert_eq!(info.address.as_deref(), Some("tcp://10.0.0.2:8786"));
    assert_eq!(info.dashboard_url.as_deref(), Some("http://d"));
    info.apply_poll(Some(ProcessStatus::Failed), Some("crash".into()), "", "l2".into());
    assert_eq!(info.status, ComponentStatus::Error);
    assert_eq!(info.error.as_deref(), Some("crash"));
    info.apply_poll(Some(ProcessStatus::Exited), None, "", "l3".into());
    assert_eq!(info.status, ComponentStatus::Stopped);
    assert!(info.process_id.is_none());
    info.apply_poll(None, None, "", "ignored".into());
    assert_eq!(info.status, ComponentStatus::Unknown);
    assert_eq!(info.logs, "l3");
    info.mark_stopped();
    assert!(info.address.is_none());
}

#[test]
fn worker_record_lifecycle() {
    let s = DaskSettings::default();
    let mut w = WorkerInfo::new();
    let launch = w.begin_start(Some("  ".into()), &s).expect("spawns");
    assert!(launch.stop_first.is_none());
    assert_eq!(launch.code, worker_script("tcp://127.0.0.1:8786", "worker-1", 0, "", "", "info"));
    assert_eq!(w.scheduler_address, "tcp://127.0.0.1:8786");
    assert_eq!(w.name, "worker-1");
    assert!(w.memory_limit.is_none());
    w.mark_started("w1".into(), Timestamp { secs: 1, nanos: 0 });
    assert_eq!(w.status, ComponentStatus::Running);
    assert!(w.begin_start(Some("tcp://x:1".into()), &s).is_none());
    assert_eq!(w.scheduler_address, "tcp://127.0.0.1:8786");
    w.apply_poll(Some(ProcessStatus::Starting), None, "DASK_WORKER_READY {\"name\": \"w-a\"}", String::new());
    assert_eq!(w.name, "w-a");
    w.mark_failed("bad".into(), Some("trace".into()));
    assert_eq!(w.status, ComponentStatus::Error);
    assert_eq!(w.logs, "trace");
    // A start after a failure stops the old process first.
    let again = w.begin_start(Some("tcp://x:1".into()), &s).expect("spawns");
    assert_eq!(again.stop_first.as_deref(), Some("w1"));
    assert_eq!(w.scheduler_address, "tcp://x:1");
}

fn worker(n: u64) -> WorkerEntry {
    WorkerEntry {
        id: Some(format!("w{n}")),
        name: None,
        address: None,
        nthreads: Some(n),
        memory_limit: Some(100 * n),
        memory_used: None,
        cpu_bits: None,
        status: None,
    }
}

#[test]
fn snapshot_from_probe_and_cache() {
    let mut m = MonitorState::new();
    let now = Timestamp { secs: 9, nanos: 0 };
    let cold = m.cached_or_local(SchedulerInfo::new(), WorkerInfo::new(), now);
    assert_eq!(cold.health, ClusterHealth::Unknown);
    let w = connected_worker(worker(2));
    assert_eq!(w.status, "unknown");
    assert_eq!(w.memory_used, 0);
    let mut sched = SchedulerInfo::new();
    sched.status = ComponentStatus::Running;
    let s = m.snapshot(
        sched.clone(),
        WorkerInfo::new(),
        ProbeOutcome::Answered { workers: vec![connected_worker(worker(2)), connected_worker(worker(4))], active_tasks: None },
        now,
    );
    assert_eq!(s.total_cores, 6);
    assert_eq!(s.total_memory, 600);
    assert_eq!(s.active_tasks, 0);
    assert!(s.client_connected);
    assert_eq!(s.health, ClusterHealth::Healthy);
    // A failed probe serves the previous workers again.
    let later = Timestamp { secs: 10, nanos: 0 };
    let again = m.snapshot(sched, WorkerInfo::new(), ProbeOutcome::Failed, later);
    assert_eq!(again.workers.len(), 2);
    assert_eq!(again.updated_at, Some(later));
    // Nothing to probe: no workers, not connected.
    let none = m.snapshot(SchedulerInfo::new(), WorkerInfo::new(), ProbeOutcome::NoAddress, later);
    assert_eq!(none.workers.len(), 0);
    assert!(!none.client_connected);
    assert_eq!(none.health, ClusterHealth::Unknown);
}

#[test]
fn startup_sequences_backends_after_python() {
    let mut reg = PluginRegistry::new();
    reg.register_python_runtime();
    reg.register_dask_scheduler();
    let mut s = Startup::new();
    assert_eq!(s.step(&mut reg, InitEvent::Interpreter { found: true }), InitAction::StartPython);
    assert_eq!(s.step(&mut reg, InitEvent::PythonStarted { ok: true }), InitAction::StartDask);
    assert_eq!(reg.get_plugin_info("plugin-python-runtime").unwrap().status, PluginStatus::Running);
    assert_eq!(s.step(&mut reg, InitEvent::DaskStarted { ok: false }), InitAction::StartRay);
    assert_eq!(reg.get_plugin_info("plugin-dask-scheduler").unwrap().status, PluginStatus::Error);
    assert_eq!(s.step(&mut reg, InitEvent::RayStarted { ok: true }), InitAction::Finish);
    assert_eq!(s.stage, InitStage::Done);
    assert!(s.python_service && s.dask_service && s.ray_service);
    assert_eq!(s.adapters, vec![SchedulerBackend::Dask, SchedulerBackend::Ray]);
}

#[test]
fn startup_without_python_marks_backends_in_error() {
    let mut reg = PluginRegistry::new();
    reg.register_python_runtime();
    reg.register_dask_scheduler();
    let mut s = Startup::new();
    assert_eq!(s.step(&mut reg, InitEvent::Interpreter { found: false }), InitAction::Finish);
    assert_eq!(reg.get_plugin_info("plugin-python-runtime").unwrap().status, PluginStatus::Error);
    assert_eq!(reg.get_plugin_info("plugin-dask-scheduler").unwrap().status, PluginStatus::Error);
    assert!(!s.python_service && !s.dask_service && !s.ray_service);
    assert!(s.adapters.is_empty());
    // A late event changes nothing more.
    assert_eq!(s.step(&mut reg, InitEvent::DaskStarted { ok: true }), InitAction::Finish);
    assert!(!s.dask_service);
}

#[test]
fn imports_of_joined_sources_are_the_union() {
    let a = "import numpy as np\r";
    let b = "from pandas import DataFrame\nimport os, sys";
    let joined = format!("{a}\n{b}");
    let mut union = parse_imports(a);
    union.extend(parse_imports(b));
    union.sort();
    union.dedup();
    assert_eq!(parse_imports(&joined), union);
}

#[test]
fn snapshot_reads_the_cluster_answer() {
    let stdout = "noise\n{\"workers\": [{\"id\": \"a\", \"nthreads\": 4, \"memoryLimit\": 1000, \"cpu\": 12.5}, {\"name\": \"b\"}], \"activeTasks\": 3}";
    let info = read_cluster_info(stdout).expect("JSON");
    assert_eq!(info.active_tasks, Some(3));
    let probe = probe_from_answer(Some(info));
    let mut m = MonitorState::new();
    let mut sched = SchedulerInfo::new();
    sched.status = ComponentStatus::Running;
    sched.address = Some("tcp://10.0.0.1:8786".into());
    assert_eq!(m.probe_target(&sched, &WorkerInfo::new()).as_deref(), Some("tcp://10.0.0.1:8786"));
    assert_eq!(m.client_address.as_deref(), Some("tcp://10.0.0.1:8786"));
    let s = m.snapshot(sched, WorkerInfo::new(), probe, Timestamp { secs: 1, nanos: 0 });
    assert_eq!(s.workers.len(), 2);
    assert_eq!(s.workers[0].id, "a");
    assert_eq!(s.workers[0].cpu_bits, 12.5f64.to_bits());
    assert_eq!(s.workers[1].name, "b");
    assert_eq!(s.workers[1].status, "unknown");
    assert_eq!(s.total_cores, 4);
    assert_eq!(s.total_memory, 1000);
    assert_eq!(s.active_tasks, 3);
    assert!(read_cluster_info("not json").is_none());
    assert!(matches!(probe_from_answer(None), ProbeOutcome::Failed));
    let mut idle = MonitorState::new();
    assert!(idle.probe_target(&SchedulerInfo::new(), &WorkerInfo::new()).is_none());
    assert!(idle.client_address.is_none());
}
