use cluster_runtime::clock::Timestamp;
use cluster_runtime::jobs::history::{running_duration_between, JobEntry, JobHistoryStore};
use cluster_runtime::jobs::models::JobStatus;
use cluster_runtime::jobs::results::ResultStore;

fn ts(secs: i64) -> Timestamp {
    Timestamp { secs, nanos: 0 }
}

fn entry(id: &str, status: JobStatus, submitted: i64) -> JobEntry<String> {
    JobEntry {
        id: id.into(),
        status,
        submitted_at: ts(submitted),
        started_at: None,
        finished_at: None,
        duration_secs: 0,
        details: format!("details of {id}"),
    }
}

fn ends_with(line: &str, tail: &str) -> bool {
    line.starts_with('[') && line.ends_with(tail)
}

#[test]
fn history_create_logs_and_returns_id() {
    let mut h: JobHistoryStore<String, String> = JobHistoryStore::new();
    assert_eq!(h.create(entry("j1", JobStatus::Queued, 100), "spec1".into()), "j1");
    let (job, logs, spec) = h.get("j1").unwrap();
    assert_eq!(job.id, "j1");
    assert_eq!(job.status, JobStatus::Queued);
    assert_eq!(job.details, "details of j1");
    assert_eq!(logs.len(), 1);
    assert!(ends_with(&logs[0], "] Job created"), "{}", logs[0]);
    assert_eq!(spec.as_deref(), Some("spec1"));
    assert_eq!(h.get_spec("j1").as_deref(), Some("spec1"));
    assert!(h.get("nope").is_none());
    assert!(h.get_spec("nope").is_none());
}

#[test]
fn history_status_start_finish_and_logs() {
    let mut h: JobHistoryStore<String, String> = JobHistoryStore::new();
    h.create(entry("a", JobStatus::Queued, 0), "s".into());
    h.create(entry("b", JobStatus::Queued, 0), "s".into());
    h.update_status("a", JobStatus::Scheduling);
    h.mark_started("a");
    h.append_log("a", "hello");
    h.finish("a", JobStatus::Failed, 2500, Some("boom"));
    let (job, logs, _) = h.get("a").unwrap();
    assert_eq!(job.status, JobStatus::Failed);
    assert!(job.started_at.is_some());
    assert!(job.finished_at.is_some());
    assert_eq!(job.duration_secs, 2);
    assert_eq!(logs.len(), 6);
    assert!(ends_with(&logs[1], "] Status \u{2192} Scheduling"), "{}", logs[1]);
    assert!(ends_with(&logs[2], "] Job started"));
    assert!(ends_with(&logs[3], "] hello"));
    assert!(ends_with(&logs[4], "] Job finished: Failed"));
    assert!(ends_with(&logs[5], "] Error: boom"));
    // The other job is untouched, and unknown ids change nothing.
    h.finish("zzz", JobStatus::Completed, 0, None);
    h.update_status("zzz", JobStatus::Running);
    let (other, other_logs, _) = h.get("b").unwrap();
    assert_eq!(other.status, JobStatus::Queued);
    assert_eq!(other_logs.len(), 1);
}

#[test]
fn history_finish_without_error_records_at_least_one_second() {
    let mut h: JobHistoryStore<String, String> = JobHistoryStore::new();
    h.create(entry("a", JobStatus::Running, 0), "s".into());
    h.finish("a", JobStatus::Completed, 10, None);
    let (job, logs, _) = h.get("a").unwrap();
    assert_eq!(job.duration_secs, 1);
    assert_eq!(job.status, JobStatus::Completed);
    assert_eq!(logs.len(), 2);
}

#[test]
fn history_first_record_with_an_id_is_the_one_changed() {
    let mut h: JobHistoryStore<String, String> = JobHistoryStore::new();
    h.create(entry("dup", JobStatus::Queued, 0), "first".into());
    h.create(entry("dup", JobStatus::Queued, 0), "second".into());
    h.update_status("dup", JobStatus::Cancelled);
    let listed = h.list_at(ts(0));
    assert_eq!(listed[0].status, JobStatus::Cancelled);
    assert_eq!(listed[1].status, JobStatus::Queued);
    assert_eq!(h.get_spec("dup").as_deref(), Some("first"));
}

#[test]
fn history_list_shows_running_durations() {
    let mut h: JobHistoryStore<String, String> = JobHistoryStore::new();
    let mut started = entry("r", JobStatus::Running, 100);
    started.started_at = Some(ts(150));
    h.create(started, "s".into());
    h.create(entry("q", JobStatus::Running, 100), "s".into());
    let mut done = entry("d", JobStatus::Completed, 100);
    done.duration_secs = 7;
    h.create(done, "s".into());
    let listed = h.list_at(Timestamp { secs: 200, nanos: 500 });
    assert_eq!(listed.len(), 3);
    assert_eq!(listed[0].duration_secs, 50);
    assert_eq!(listed[1].duration_secs, 100);
    assert_eq!(listed[2].duration_secs, 7);
    assert_eq!(listed[0].details, "details of r");
    // A clock behind the start shows zero.
    assert_eq!(h.list_at(ts(10))[0].duration_secs, 0);
    assert_eq!(h.list().len(), 3);
}

#[test]
fn running_duration_counts_whole_seconds() {
    assert_eq!(running_duration_between(Timestamp { secs: 10, nanos: 0 }, Timestamp { secs: 8, nanos: 500_000_000 }), 1);
    assert_eq!(running_duration_between(ts(10), ts(10)), 0);
    assert_eq!(running_duration_between(ts(5), ts(10)), 0);
    assert_eq!(running_duration_between(ts(i64::MAX), ts(i64::MIN)), u64::MAX);
}

#[test]
fn result_store_keeps_latest_result_per_job() {
    let mut s: ResultStore<String> = ResultStore::new();
    assert!(s.get("j").is_none());
    s.put("j".into(), "first".into());
    s.put("k".into(), "other".into());
    s.put("j".into(), "second".into());
    assert_eq!(s.get("j").as_deref(), Some("second"));
    assert_eq!(s.get("k").as_deref(), Some("other"));
}
