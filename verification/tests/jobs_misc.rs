use cluster_runtime::jobs::dependencies::probe_script;
use cluster_runtime::jobs::history::{
    error_message, finished_duration_secs, finished_message, log_line, running_duration_secs,
    status_change_message, status_name,
};
use cluster_runtime::jobs::manager::{
    job_not_found, job_not_retryable, new_job_id, JobBook, JobDetails, StoredResult, SubmitOutcome, SubmitRun, submit_step, SubmitAction, SubmitEvent, SubmitStage,
};
use cluster_runtime::jobs::models::JobStatus;
use cluster_runtime::events::ClusterEvent;

#[test]
fn history_lines() {
    assert_eq!(status_name(JobStatus::Scheduling), "Scheduling");
    assert_eq!(log_line("2024-01-01T00:00:00Z", "Job created"), "[2024-01-01T00:00:00Z] Job created");
    assert_eq!(status_change_message(JobStatus::Queued), "Status \u{2192} Queued");
    assert_eq!(finished_message(JobStatus::Failed), "Job finished: Failed");
    assert_eq!(error_message("x"), "Error: x");
    assert_eq!(finished_duration_secs(0), 1);
    assert_eq!(finished_duration_secs(2500), 2);
    assert_eq!(running_duration_secs(-5), 0);
    assert_eq!(running_duration_secs(42), 42);
}

#[test]
fn manager_messages() {
    let id = new_job_id();
    assert!(id.starts_with("job-"));
    assert_eq!(id.len(), 40);
    assert_eq!(&id[18..19], "4");
    for i in [12, 17, 22, 27] {
        assert_eq!(&id[i..i + 1], "-");
    }
    assert!(id[4..].chars().all(|c| c == '-' || c.is_ascii_digit() || ('a'..='f').contains(&c)));
    assert_ne!(new_job_id(), new_job_id());
    assert_eq!(job_not_found("j1"), "Job 'j1' not found");
    assert_eq!(job_not_retryable("j1"), "Job 'j1' not found or has no spec");
}

#[test]
fn submission_steps() {
    let (stage, action) = submit_step(SubmitStage::ResolvingDependencies, SubmitEvent::DependenciesResolved, "dask");
    assert_eq!(stage, SubmitStage::Dispatched);
    match action {
        SubmitAction::Dispatch { log } => assert_eq!(log, "Dispatching to scheduler dask"),
        _ => panic!("resolved dependencies dispatch the job"),
    }
    let (stage, action) = submit_step(SubmitStage::ResolvingDependencies, SubmitEvent::DependenciesFailed("no pip".into()), "dask");
    assert_eq!(stage, SubmitStage::Done);
    match action {
        SubmitAction::RejectBeforeDispatch { error, summary, log } => {
            assert_eq!(error, "no pip");
            assert_eq!(summary, "Dependency resolution failed: no pip");
            assert_eq!(log, "Dependency install failed before dispatch: no pip");
        }
        _ => panic!("failed dependencies reject the job"),
    }
    let (stage, action) = submit_step(SubmitStage::Dispatched, SubmitEvent::Accepted, "dask");
    assert_eq!(stage, SubmitStage::AwaitingResult);
    assert!(matches!(action, SubmitAction::FetchResult));
    let (stage, action) = submit_step(SubmitStage::AwaitingResult, SubmitEvent::ResultReady(JobStatus::Completed), "dask");
    assert_eq!(stage, SubmitStage::Done);
    assert!(matches!(action, SubmitAction::Finish { success: true }));
    let (_, action) = submit_step(SubmitStage::AwaitingResult, SubmitEvent::ResultReady(JobStatus::Failed), "dask");
    assert!(matches!(action, SubmitAction::Finish { success: false }));
    let (stage, action) = submit_step(SubmitStage::Done, SubmitEvent::Accepted, "dask");
    assert_eq!(stage, SubmitStage::Done);
    assert!(matches!(action, SubmitAction::Fail { .. }));
}

#[test]
fn probe_script_embeds_the_candidates() {
    let s = probe_script("[\"numpy\"]");
    assert!(s.starts_with("\nimport json, sys, importlib.util\n\ncandidates = [\"numpy\"]\n"));
    assert!(s.ends_with("print(json.dumps({\"missing\": missing, \"present\": present, \"skipped\": skipped}))\n"));
}

fn book_entry(id: &str) -> cluster_runtime::jobs::history::JobEntry<String> {
    cluster_runtime::jobs::history::JobEntry {
        id: id.into(),
        status: JobStatus::Created,
        submitted_at: cluster_runtime::clock::Timestamp { secs: 1, nanos: 0 },
        started_at: None,
        finished_at: None,
        duration_secs: 0,
        details: "d".into(),
    }
}

#[test]
fn job_book_dispatch_then_finish() {
    let mut b: JobBook<String, String, String> = JobBook::new(10);
    b.record_dispatch(book_entry("job-1"), "spec".into(), Some("Dependencies resolved: detected=[numpy]"), "Dispatching to scheduler plugin-mpi");
    assert_eq!(b.queue.len(), 1);
    assert_eq!(b.events.recent_events(10), vec![ClusterEvent::JobStarted { job_id: "job-1".into() }]);
    let (job, logs, spec) = b.history.get("job-1").unwrap();
    assert_eq!(job.status, JobStatus::Running);
    assert!(job.started_at.is_some());
    assert_eq!(spec.as_deref(), Some("spec"));
    assert_eq!(logs.len(), 6);
    assert!(logs[1].ends_with("] Dependencies resolved: detected=[numpy]"));
    assert!(logs[2].ends_with("] Status \u{2192} Queued"));
    assert!(logs[3].ends_with("] Status \u{2192} Scheduling"));
    assert!(logs[4].ends_with("] Dispatching to scheduler plugin-mpi"));
    assert!(logs[5].ends_with("] Job started"));
    b.record_finish("job-1".into(), "result".into(), JobStatus::Completed, 3000, None);
    assert!(b.queue.is_empty());
    assert_eq!(b.results.get("job-1").as_deref(), Some("result"));
    assert_eq!(b.history.get("job-1").unwrap().0.status, JobStatus::Completed);
    assert_eq!(b.history.get("job-1").unwrap().0.duration_secs, 3);
    assert_eq!(
        b.events.recent_events(10)[1],
        ClusterEvent::JobFinished { job_id: "job-1".into(), success: true }
    );
}

#[test]
fn job_book_rejection_before_dispatch() {
    let mut b: JobBook<String, String, String> = JobBook::new(10);
    b.record_rejection(book_entry("job-2"), "spec".into(), "failed".into(), "no pip", "Dependency install failed before dispatch: no pip");
    assert!(b.queue.is_empty());
    assert_eq!(b.results.get("job-2").as_deref(), Some("failed"));
    let (job, logs, _) = b.history.get("job-2").unwrap();
    assert_eq!(job.status, JobStatus::Failed);
    assert_eq!(job.duration_secs, 1);
    assert_eq!(logs.len(), 4);
    assert!(logs[1].ends_with("] Job finished: Failed"));
    assert!(logs[2].ends_with("] Error: no pip"));
    assert!(logs[3].ends_with("] Dependency install failed before dispatch: no pip"));
    assert_eq!(b.events.recent_events(10), vec![ClusterEvent::JobFinished { job_id: "job-2".into(), success: false }]);
}

fn report(detected: &[&str]) -> cluster_runtime::jobs::models::DependencyReport {
    let mut r = cluster_runtime::jobs::models::DependencyReport::empty();
    r.detected = detected.iter().map(|s| s.to_string()).collect();
    r
}

#[test]
fn submission_run_success_records_everything() {
    use_submission_types();
}

fn use_submission_types() {
    let mut book: JobBook<JobDetails<String>, String, StoredResult<String>> = JobBook::new(10);
    let mut run = SubmitRun::new("job-9".into(), "plugin-mpi".into(), "rest".into(), "spec".into(), "none".into());
    let a = run.step(&mut book, SubmitOutcome::Dependencies(Ok(report(&["numpy"]))));
    assert!(matches!(a, SubmitAction::Dispatch { .. }));
    assert_eq!(book.queue.len(), 1);
    let (job, logs, _) = book.history.get("job-9").unwrap();
    assert_eq!(job.details.scheduler_id, "plugin-mpi");
    assert_eq!(job.details.dependencies.as_ref().unwrap().detected, vec!["numpy".to_string()]);
    assert!(logs.iter().any(|l| l.ends_with("] Dispatching to scheduler plugin-mpi")));
    assert!(matches!(run.step(&mut book, SubmitOutcome::Accepted(Ok(()))), SubmitAction::FetchResult));
    let result = StoredResult {
        job_id: "job-9".into(),
        status: JobStatus::Completed,
        errors: vec![],
        result_summary: None,
        execution_time_ms: 4000,
        rest: "out".into(),
    };
    let a = run.step(&mut book, SubmitOutcome::Outcome(Ok(result)));
    assert!(matches!(a, SubmitAction::Finish { success: true }));
    assert_eq!(book.results.get("job-9").unwrap().rest, "out");
    assert_eq!(book.history.get("job-9").unwrap().0.status, JobStatus::Completed);
    assert!(book.queue.is_empty());
    assert_eq!(
        book.events.recent_events(10),
        vec![
            ClusterEvent::JobStarted { job_id: "job-9".into() },
            ClusterEvent::JobFinished { job_id: "job-9".into(), success: true }
        ]
    );
}

#[test]
fn submission_run_dependency_failure_records_failed_result() {
    let mut book: JobBook<JobDetails<String>, String, StoredResult<String>> = JobBook::new(10);
    let mut run = SubmitRun::new("job-7".into(), "plugin-dask".into(), "rest".into(), "spec".into(), "none".into());
    let a = run.step(&mut book, SubmitOutcome::Dependencies(Err("pip broke".into())));
    match a {
        SubmitAction::RejectBeforeDispatch { error, .. } => assert_eq!(error, "pip broke"),
        _ => panic!("expected a rejection"),
    }
    let r = book.results.get("job-7").unwrap();
    assert_eq!(r.status, JobStatus::Failed);
    assert_eq!(r.errors, vec!["pip broke".to_string()]);
    assert_eq!(r.result_summary.as_deref(), Some("Dependency resolution failed: pip broke"));
    let (job, logs, _) = book.history.get("job-7").unwrap();
    assert_eq!(job.status, JobStatus::Failed);
    assert_eq!(job.details.scheduler_id, "plugin-dask");
    assert!(job.details.dependencies.is_none());
    assert!(logs[3].ends_with("] Dependency install failed before dispatch: pip broke"));
    assert!(book.queue.is_empty());
    assert_eq!(book.events.recent_events(10), vec![ClusterEvent::JobFinished { job_id: "job-7".into(), success: false }]);
    // Nothing further is recorded.
    assert!(matches!(run.step(&mut book, SubmitOutcome::Accepted(Ok(()))), SubmitAction::Fail { .. }));
    assert_eq!(book.events.recent_events(10).len(), 1);
}
