use cluster_runtime::jobs::models::JobStatus;
use cluster_runtime::jobs::tracking::{
    progress_percent, summary_duration_secs, summary_percent, task_counts, JobTracker,
};

#[test]
fn tracked_job_lifecycle() {
    let mut t: JobTracker<String, i64> = JobTracker::new();
    assert_eq!(t.status("j"), None);
    assert_eq!(t.ack_status("j"), JobStatus::Failed);
    t.track("j".into(), "name".into(), 7);
    assert_eq!(t.status("j"), Some(JobStatus::Scheduling));
    assert!(t.result("j").is_none());
    t.set_status("j", JobStatus::Running);
    assert_eq!(t.status("j"), Some(JobStatus::Running));
    t.record("j", JobStatus::Completed, "done".to_string());
    assert_eq!(t.ack_status("j"), JobStatus::Completed);
    assert_eq!(t.result("j"), Some(&"done".to_string()));
    t.set_status("j", JobStatus::Cancelled);
    assert_eq!(t.status("j"), Some(JobStatus::Cancelled));
    assert_eq!(t.result("j"), Some(&"done".to_string()));
    t.set_status("other", JobStatus::Running);
    assert_eq!(t.len(), 1);
    assert_eq!(t.ids(), vec!["j".to_string()]);
    let job = t.get("j").unwrap();
    assert_eq!(job.name, "name");
    assert_eq!(job.submitted_at, 7);
    assert!(t.get("other").is_none());
}

#[test]
fn progress_reporting() {
    assert_eq!(progress_percent(JobStatus::Queued), 0);
    assert_eq!(progress_percent(JobStatus::Scheduling), 5);
    assert_eq!(progress_percent(JobStatus::Running), 50);
    assert_eq!(progress_percent(JobStatus::Completed), 100);
    assert_eq!(progress_percent(JobStatus::Failed), 0);
    assert_eq!(task_counts(JobStatus::Running), (1, 0, 0));
    assert_eq!(task_counts(JobStatus::Completed), (0, 1, 0));
    assert_eq!(task_counts(JobStatus::Failed), (0, 0, 1));
    assert_eq!(summary_duration_secs(Some(2999)), 2);
    assert_eq!(summary_duration_secs(None), 0);
    assert_eq!(summary_percent(JobStatus::Completed), 100);
    assert_eq!(summary_percent(JobStatus::Running), 0);
}
