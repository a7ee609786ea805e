use cluster_runtime::jobs::models::JobStatus;
use cluster_runtime::jobs::queue::{can_transition, transition, JobQueue};

#[test]
fn queue_fifo() {
    let mut q = JobQueue::new();
    q.enqueue("a");
    q.enqueue("b");
    assert_eq!(q.dequeue(), Some("a".into()));
    assert_eq!(q.dequeue(), Some("b".into()));
}

#[test]
fn lifecycle_transitions() {
    assert!(can_transition(JobStatus::Created, JobStatus::Queued));
    assert!(can_transition(JobStatus::Running, JobStatus::Completed));
    assert!(!can_transition(JobStatus::Completed, JobStatus::Running));
}

#[test]
fn queue_order_is_preserved_for_many_ids() {
    let mut q = JobQueue::new();
    for id in ["j1", "j2", "j3", "j4"] {
        q.enqueue(id);
    }
    assert_eq!(q.len(), 4);
    for id in ["j1", "j2", "j3", "j4"] {
        assert_eq!(q.dequeue(), Some(id.to_string()));
    }
    assert!(q.is_empty());
    assert_eq!(q.dequeue(), None);
}

#[test]
fn remove_takes_out_every_occurrence_and_is_idempotent() {
    let mut q = JobQueue::new();
    for id in ["a", "b", "a", "c"] {
        q.enqueue(id);
    }
    q.remove("a");
    assert_eq!(q.len(), 2);
    q.remove("a");
    assert_eq!(q.len(), 2);
    q.remove("missing");
    assert_eq!(q.len(), 2);
    assert_eq!(q.dequeue(), Some("b".to_string()));
    assert_eq!(q.dequeue(), Some("c".to_string()));
}

#[test]
fn terminal_states_have_no_exit() {
    let all = [
        JobStatus::Created,
        JobStatus::Queued,
        JobStatus::Scheduling,
        JobStatus::Running,
        JobStatus::Completed,
        JobStatus::Failed,
        JobStatus::Cancelled,
    ];
    for to in all {
        assert!(!can_transition(JobStatus::Completed, to));
        assert!(!can_transition(JobStatus::Cancelled, to));
        if to != JobStatus::Queued {
            assert!(!can_transition(JobStatus::Failed, to));
        }
        assert!(!can_transition(to, to));
    }
    assert!(can_transition(JobStatus::Failed, JobStatus::Queued));
    for s in [JobStatus::Created, JobStatus::Queued, JobStatus::Scheduling, JobStatus::Running] {
        assert!(can_transition(s, JobStatus::Cancelled));
    }
}

#[test]
fn transition_accepts_allowed_and_same_state() {
    let mut s = JobStatus::Created;
    assert!(transition(&mut s, JobStatus::Queued));
    assert_eq!(s, JobStatus::Queued);
    assert!(transition(&mut s, JobStatus::Queued));
    assert_eq!(s, JobStatus::Queued);
    assert!(!transition(&mut s, JobStatus::Completed));
    assert_eq!(s, JobStatus::Queued);
}
