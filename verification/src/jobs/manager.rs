//! The decisions of a job submission, step by step, and the messages the
//! job manager reports.

use vstd::prelude::*;

use crate::clock::{is_uuid_v4_text, new_uuid_string, now_timestamp, Timestamp};
use crate::events::{keep_last, ClusterEvent, EventBus};
use crate::jobs::history::{
    finished, first_index, has_id, lemma_last_is_first, lemma_logs_at_push, log_text, logged, logs_at, logs_say, started,
    status_name_of, status_updated,
    JobEntry, JobHistoryStore, RecordView,
};
use crate::jobs::dependencies::{dependency_log_line, dependency_log_text};
use crate::jobs::models::{DependencyReport, JobStatus};
use crate::text::{opt_view, string_views};
use crate::jobs::queue::{enqueued, without, JobQueue};
use crate::jobs::results::ResultStore;

verus! {

/// A fresh job id: `job-` followed by a random UUID.
pub fn new_job_id() -> (r: String)
    ensures
        r@.len() == 40,
        r@.take(4) == "job-"@,
        is_uuid_v4_text(r@.skip(4)),
{
    let u = new_uuid_string();
    let mut r = String::from_str("job-");
    r.append(u.as_str());
    proof {
        reveal_strlit("job-");
        assert(r@.take(4) =~= "job-"@);
        assert(r@.skip(4) =~= u@);
    }
    r
}

/// The error of a request about a job that is not known.
pub fn job_not_found(job_id: &str) -> (r: String)
    ensures
        r@ == "Job '"@ + job_id@ + "' not found"@,
{
    let mut r = String::from_str("Job '");
    r.append(job_id);
    r.append("' not found");
    r
}

/// The error of a retry of a job that is not known or kept no spec.
pub fn job_not_retryable(job_id: &str) -> (r: String)
    ensures
        r@ == "Job '"@ + job_id@ + "' not found or has no spec"@,
{
    let mut r = String::from_str("Job '");
    r.append(job_id);
    r.append("' not found or has no spec");
    r
}

/// Where a submission stands.
#[derive(Debug, Clone, Copy, PartialEq, Eq, Structural)]
pub enum SubmitStage {
    /// The job's imports are being detected and installed.
    ResolvingDependencies,
    /// The job was handed to its scheduler.
    Dispatched,
    /// The scheduler accepted it; its result is awaited.
    AwaitingResult,
    /// The submission is over.
    Done,
}

/// What the outside work of a stage came back with.
#[derive(Debug, Clone)]
pub enum SubmitEvent {
    DependenciesResolved,
    DependenciesFailed(String),
    Accepted,
    Rejected(String),
    ResultReady(JobStatus),
    ResultUnavailable(String),
}

/// What the manager does next.
#[derive(Debug, Clone)]
pub enum SubmitAction {
    /// Record the job as failed before dispatch (history, result with the
    /// given summary, the given log line, a finished event without success)
    /// and answer with the error.
    RejectBeforeDispatch { error: String, summary: String, log: String },
    /// Record the job as created, queue it (announcing its start), move it
    /// to scheduling with the given log line, mark it running and dispatch.
    Dispatch { log: String },
    /// Ask the scheduler for the job's result.
    FetchResult,
    /// Store the result, finish the job, take it off the queue and announce
    /// its end, successful when it completed; answer with the acceptance.
    Finish { success: bool },
    /// Answer with the error, leaving the records as they are.
    Fail { error: String },
}

/// The step of a submission: from a stage and what its outside work gave,
/// the next stage and what to do. Events that do not belong to a stage end
/// the submission with an error.
pub fn submit_step(stage: SubmitStage, event: SubmitEvent, scheduler_id: &str) -> (r: (SubmitStage, SubmitAction))
    ensures
        r.0 == next_stage(stage, event),
        match (stage, event) {
            (SubmitStage::ResolvingDependencies, SubmitEvent::DependenciesResolved) => r.1 is Dispatch
                && r.1->Dispatch_log@ == "Dispatching to scheduler "@ + scheduler_id@,
            (SubmitStage::ResolvingDependencies, SubmitEvent::DependenciesFailed(e)) => r.1 is RejectBeforeDispatch
                && r.1->RejectBeforeDispatch_error@ == e@
                && r.1->RejectBeforeDispatch_summary@ == "Dependency resolution failed: "@ + e@
                && r.1->RejectBeforeDispatch_log@ == "Dependency install failed before dispatch: "@ + e@,
            (SubmitStage::Dispatched, SubmitEvent::Accepted) => r.1 is FetchResult,
            (SubmitStage::Dispatched, SubmitEvent::Rejected(e)) => r.1 is Fail && r.1->Fail_error@ == e@,
            (SubmitStage::AwaitingResult, SubmitEvent::ResultReady(s)) => r.1 is Finish
                && r.1->Finish_success == (s == JobStatus::Completed),
            (SubmitStage::AwaitingResult, SubmitEvent::ResultUnavailable(e)) => r.1 is Fail && r.1->Fail_error@ == e@,
            _ => r.1 is Fail,
        },
{
    match (stage, event) {
        (SubmitStage::ResolvingDependencies, SubmitEvent::DependenciesResolved) => {
            let mut log = String::from_str("Dispatching to scheduler ");
            log.append(scheduler_id);
            (SubmitStage::Dispatched, SubmitAction::Dispatch { log })
        },
        (SubmitStage::ResolvingDependencies, SubmitEvent::DependenciesFailed(e)) => {
            let mut summary = String::from_str("Dependency resolution failed: ");
            summary.append(e.as_str());
            let mut log = String::from_str("Dependency install failed before dispatch: ");
            log.append(e.as_str());
            (SubmitStage::Done, SubmitAction::RejectBeforeDispatch { error: e, summary, log })
        },
        (SubmitStage::Dispatched, SubmitEvent::Accepted) => (SubmitStage::AwaitingResult, SubmitAction::FetchResult),
        (SubmitStage::Dispatched, SubmitEvent::Rejected(e)) => (SubmitStage::Done, SubmitAction::Fail { error: e }),
        (SubmitStage::AwaitingResult, SubmitEvent::ResultReady(s)) => (
            SubmitStage::Done,
            SubmitAction::Finish { success: s == JobStatus::Completed },
        ),
        (SubmitStage::AwaitingResult, SubmitEvent::ResultUnavailable(e)) => (SubmitStage::Done, SubmitAction::Fail { error: e }),
        _ => (
            SubmitStage::Done,
            SubmitAction::Fail { error: String::from_str("Unexpected step of a job submission") },
        ),
    }
}

/// The stage a submission reaches from `stage` on `event`.
pub open spec fn next_stage(stage: SubmitStage, event: SubmitEvent) -> SubmitStage {
    match (stage, event) {
        (SubmitStage::ResolvingDependencies, SubmitEvent::DependenciesResolved) => SubmitStage::Dispatched,
        (SubmitStage::Dispatched, SubmitEvent::Accepted) => SubmitStage::AwaitingResult,
        _ => SubmitStage::Done,
    }
}

/// A submission always moves towards its end: every step from an unfinished
/// stage lowers the number of steps left, so it is over after at most three
/// steps whatever the outside work answers; a result is awaited only after
/// the scheduler accepted the job.
pub proof fn lemma_submit_terminates(stage: SubmitStage, event: SubmitEvent)
    ensures
        stage != SubmitStage::Done ==> rank(next_stage(stage, event)) < rank(stage),
        rank(stage) <= 3,
        next_stage(stage, event) == SubmitStage::AwaitingResult ==> stage == SubmitStage::Dispatched,
{
}

/// How many steps a stage is at most from the end.
pub open spec fn rank(stage: SubmitStage) -> nat {
    match stage {
        SubmitStage::ResolvingDependencies => 3,
        SubmitStage::Dispatched => 2,
        SubmitStage::AwaitingResult => 1,
        SubmitStage::Done => 0,
    }
}

/// The message logged when a job's status changes to `s`.
pub open spec fn status_msg(s: JobStatus) -> Seq<char> {
    "Status \u{2192} "@ + status_name_of(s)
}

/// What the log of a dispatched job says: created, the dependency line if
/// there is one, queued, scheduling, the dispatch line, started.
pub open spec fn dispatch_messages(dependency_log: Option<Seq<char>>, log: Seq<char>) -> Seq<Seq<char>> {
    seq!["Job created"@] + (match dependency_log {
        Some(d) => seq![d],
        None => Seq::<Seq<char>>::empty(),
    }) + seq![status_msg(JobStatus::Queued), status_msg(JobStatus::Scheduling), log, "Job started"@]
}

/// A job marked running since `at`.
pub open spec fn running_since<P>(job: JobEntry<P>, at: Timestamp) -> JobEntry<P> {
    JobEntry { status: JobStatus::Running, started_at: Some(at), ..job }
}

/// A job that failed at `at` before it ran: its recorded duration is the
/// least one, a second.
pub open spec fn failed_at<P>(job: JobEntry<P>, at: Timestamp) -> JobEntry<P> {
    JobEntry { status: JobStatus::Failed, finished_at: Some(at), duration_secs: 1, ..job }
}

/// What the log of a job rejected before dispatch says.
pub open spec fn rejection_messages(error: Seq<char>, log: Seq<char>) -> Seq<Seq<char>> {
    seq!["Job created"@, "Job finished: "@ + status_name_of(JobStatus::Failed), "Error: "@ + error, log]
}

/// What performing `SubmitAction::RejectBeforeDispatch` does to the books:
/// the result is stored, the queue is left alone, the job's end without
/// success is announced, and the history gains the job failed before it
/// ran, with its log (exactly so for a fresh job id).
pub open spec fn rejection_done<P, S, R>(
    b0: JobBook<P, S, R>,
    b1: JobBook<P, S, R>,
    job: JobEntry<P>,
    spec: S,
    result: R,
    error: Seq<char>,
    log: Seq<char>,
) -> bool {
    &&& b1.results.view() == b0.results.view().insert(job.id@, result)
    &&& b1.queue@ == b0.queue@
    &&& b1.events.capacity() == b0.events.capacity()
    &&& b1.events.history() == keep_last(
        b0.events.history().push(ClusterEvent::JobFinished { job_id: job.id, success: false }),
        b0.events.capacity(),
    )
    &&& b1.history.view().len() == b0.history.view().len() + 1
    &&& !has_id(b0.history.view(), job.id@) ==> {
        let rec = b1.history.view().last();
        &&& b1.history.view().take(b0.history.view().len() as int) == b0.history.view()
        &&& exists|at: Timestamp| rec.job == #[trigger] failed_at(job, at)
        &&& rec.original_spec == Some(spec)
        &&& logs_say(rec.logs, rejection_messages(error, log))
    }
}

/// What performing `SubmitAction::Finish` does to the books: the result is
/// stored, the job leaves the queue, its end is announced (successful when
/// it completed), and the first record with its id is finished.
pub open spec fn finish_done<P, S, R>(
    b0: JobBook<P, S, R>,
    b1: JobBook<P, S, R>,
    job_id: String,
    result: R,
    status: JobStatus,
    execution_time_ms: u64,
    first_error: Option<&str>,
) -> bool {
    &&& b1.results.view() == b0.results.view().insert(job_id@, result)
    &&& b1.queue@ == without(b0.queue@, job_id@)
    &&& b1.events.capacity() == b0.events.capacity()
    &&& b1.events.history() == keep_last(
        b0.events.history().push(ClusterEvent::JobFinished { job_id, success: status == JobStatus::Completed }),
        b0.events.capacity(),
    )
    &&& !has_id(b0.history.view(), job_id@) ==> b1.history.view() == b0.history.view()
    &&& has_id(b0.history.view(), job_id@) ==> exists|at: Timestamp, t1: Seq<char>, t2: Seq<char>|
        b1.history.view() == b0.history.view().update(
            first_index(b0.history.view(), job_id@),
            #[trigger] finished(
                b0.history.view()[first_index(b0.history.view(), job_id@)],
                status,
                execution_time_ms,
                first_error,
                at,
                t1,
                t2,
            ),
        )
}

/// What performing `SubmitAction::Dispatch` does to the books: results
/// unchanged, the job queued and its start announced, and the history gains
/// the job running, with its log (exactly so for a fresh job id).
pub open spec fn dispatch_done<P, S, R>(
    b0: JobBook<P, S, R>,
    b1: JobBook<P, S, R>,
    job: JobEntry<P>,
    spec: S,
    dependency_log: Option<Seq<char>>,
    log: Seq<char>,
) -> bool {
    &&& b1.results.view() == b0.results.view()
    &&& b1.queue@ == enqueued(b0.queue@, job.id@)
    &&& b1.events.capacity() == b0.events.capacity()
    &&& b1.events.history() == keep_last(
        b0.events.history().push(ClusterEvent::JobStarted { job_id: job.id }),
        b0.events.capacity(),
    )
    &&& b1.history.view().len() == b0.history.view().len() + 1
    &&& !has_id(b0.history.view(), job.id@) ==> {
        let rec = b1.history.view().last();
        &&& b1.history.view().take(b0.history.view().len() as int) == b0.history.view()
        &&& exists|at: Timestamp| rec.job == #[trigger] running_since(job, at)
        &&& rec.original_spec == Some(spec)
        &&& logs_say(rec.logs, dispatch_messages(dependency_log, log))
    }
}

/// The records a job submission keeps: the history, the results, the queue
/// of jobs in flight and the event bus.
pub struct JobBook<P, S, R> {
    pub history: JobHistoryStore<P, S>,
    pub results: ResultStore<R>,
    pub queue: JobQueue,
    pub events: EventBus,
}

impl<P, S, R> JobBook<P, S, R> {
    pub open spec fn wf(&self) -> bool {
        self.results.wf() && self.events.wf()
    }

    pub fn new(max_events: usize) -> (b: Self)
        ensures
            b.wf(),
            b.history.view() == Seq::<RecordView<P, S>>::empty(),
            b.results.view() == Map::<Seq<char>, R>::empty(),
            b.queue@ == Seq::<Seq<char>>::empty(),
            b.events.history() == Seq::<ClusterEvent>::empty(),
            b.events.capacity() == max_events,
    {
        JobBook {
            history: JobHistoryStore::new(),
            results: ResultStore::new(),
            queue: JobQueue::new(),
            events: EventBus::new(max_events),
        }
    }

    /// Performs `SubmitAction::RejectBeforeDispatch`: records the job, stores
    /// its failed result, finishes it as failed with `error` as its first
    /// error, logs `log` and announces that it finished without success. The
    /// queue is left alone. For a fresh job id the history gains exactly that
    /// record.
    pub fn record_rejection(&mut self, job: JobEntry<P>, spec: S, result: R, error: &str, log: &str)
        requires
            old(self).wf(),
        ensures
            final(self).wf(),
            rejection_done(*old(self), *final(self), job, spec, result, error@, log@),
    {
        let ghost h0 = self.history.view();
        let ghost n = h0.len() as int;
        let ghost fresh = !has_id(h0, job.id@);
        let ghost job0 = job;
        let id = self.history.create(job, spec);
        let ghost mut ts: Seq<Seq<char>> = Seq::empty();
        let ghost mut msgs: Seq<Seq<char>> = Seq::empty();
        proof {
            let v = self.history.view();
            let t = choose|t: Seq<char>| v.last().logs[0] == #[trigger] log_text(t, "Job created"@);
            ts = seq![t];
            msgs = seq!["Job created"@];
            assert(v.last().logs =~= logs_at(ts, msgs));
        }
        assert(self.history.view().take(n) == h0);
        self.results.put(id.clone(), result);
        let ghost v = self.history.view();
        proof {
            if fresh {
                assert forall|j: int| 0 <= j < v.len() - 1 implies v[j].job.id@ != id@ by {
                    assert(v[j] == h0[j]);
                }
                lemma_last_is_first(v, id@);
            }
        }
        self.history.finish(id.as_str(), JobStatus::Failed, 0, Some(error));
        let ghost mut at: Timestamp = Timestamp { secs: 0, nanos: 0 };
        proof {
            if fresh {
                let (a, t1, t2) = choose|a: Timestamp, t1: Seq<char>, t2: Seq<char>|
                    self.history.view() == v.update(n, #[trigger] finished(v[n], JobStatus::Failed, 0, Some(error), a, t1, t2));
                at = a;
                lemma_logs_at_push(ts, msgs, t1, "Job finished: "@ + status_name_of(JobStatus::Failed));
                ts = ts.push(t1);
                msgs = msgs.push("Job finished: "@ + status_name_of(JobStatus::Failed));
                lemma_logs_at_push(ts, msgs, t2, "Error: "@ + error@);
                ts = ts.push(t2);
                msgs = msgs.push("Error: "@ + error@);
                assert(self.history.view().take(n) =~= h0);
                assert(self.history.view().last().job == failed_at(job0, a));
            }
        }
        let ghost v = self.history.view();
        proof {
            if fresh {
                assert forall|j: int| 0 <= j < v.len() - 1 implies v[j].job.id@ != id@ by {
                    assert(v[j] == h0[j]);
                }
                lemma_last_is_first(v, id@);
            }
        }
        self.history.append_log(id.as_str(), log);
        proof {
            if fresh {
                let t = choose|t: Seq<char>| self.history.view() == v.update(n, #[trigger] logged(v[n], t, log@));
                lemma_logs_at_push(ts, msgs, t, log@);
                ts = ts.push(t);
                msgs = msgs.push(log@);
                assert(self.history.view().take(n) =~= h0);
                assert(msgs =~= rejection_messages(error@, log@));
                assert(self.history.view().last().job == failed_at(job0, at));
            }
        }
        self.events.publish(ClusterEvent::JobFinished { job_id: id, success: false });
    }

    /// Performs `SubmitAction::Finish`: stores the job's result, finishes the
    /// job in the history with its status, execution time and first error,
    /// takes it off the queue and announces its end, successful when it
    /// completed.
    pub fn record_finish(
        &mut self,
        job_id: String,
        result: R,
        status: JobStatus,
        execution_time_ms: u64,
        first_error: Option<&str>,
    )
        requires
            old(self).wf(),
        ensures
            final(self).wf(),
            finish_done(*old(self), *final(self), job_id, result, status, execution_time_ms, first_error),
    {
        self.results.put(job_id.clone(), result);
        self.history.finish(job_id.as_str(), status, execution_time_ms, first_error);
        self.queue.remove(job_id.as_str());
        self.events.publish(ClusterEvent::JobFinished { job_id, success: status == JobStatus::Completed });
    }

    /// Performs `SubmitAction::Dispatch`: records the job as created (with
    /// its dependency line, if any), queues it and announces its start,
    /// moves it to scheduling with the dispatch line `log`, and marks it
    /// running. For a fresh job id the history gains exactly that record.
    pub fn record_dispatch(&mut self, job: JobEntry<P>, spec: S, dependency_log: Option<&str>, log: &str)
        requires
            old(self).wf(),
        ensures
            final(self).wf(),
            dispatch_done(
                *old(self),
                *final(self),
                job,
                spec,
                match dependency_log {
                    Some(d) => Some(d@),
                    None => None,
                },
                log@,
            ),
    {
        let ghost h0 = self.history.view();
        let ghost n = h0.len() as int;
        let ghost fresh = !has_id(h0, job.id@);
        let ghost job0 = job;
        let id = self.history.create(job, spec);
        let ghost mut ts: Seq<Seq<char>> = Seq::empty();
        let ghost mut msgs: Seq<Seq<char>> = Seq::empty();
        proof {
            let v = self.history.view();
            let t = choose|t: Seq<char>| v.last().logs[0] == #[trigger] log_text(t, "Job created"@);
            ts = seq![t];
            msgs = seq!["Job created"@];
            assert(v.last().logs =~= logs_at(ts, msgs));
        }
        // Every step below changes only the last record, which keeps its id.
        assert(self.history.view().take(n) == h0);
        match dependency_log {
            Some(d) => {
                let ghost v = self.history.view();
                proof {
                    if fresh {
                        assert forall|j: int| 0 <= j < v.len() - 1 implies v[j].job.id@ != id@ by {
                            assert(v[j] == h0[j]);
                        }
                        lemma_last_is_first(v, id@);
                    }
                }
                self.history.append_log(id.as_str(), d);
                proof {
                    if fresh {
                        let t = choose|t: Seq<char>|
                            self.history.view() == v.update(n, #[trigger] logged(v[n], t, d@));
                        lemma_logs_at_push(ts, msgs, t, d@);
                        ts = ts.push(t);
                        msgs = msgs.push(d@);
                        assert(self.history.view().take(n) =~= h0);
                    }
                }
            },
            None => {},
        }
        let ghost v = self.history.view();
        proof {
            if fresh {
                assert forall|j: int| 0 <= j < v.len() - 1 implies v[j].job.id@ != id@ by {
                    assert(v[j] == h0[j]);
                }
                lemma_last_is_first(v, id@);
            }
        }
        self.history.update_status(id.as_str(), JobStatus::Queued);
        proof {
            if fresh {
                let t = choose|t: Seq<char>| self.history.view() == v.update(n, #[trigger] status_updated(v[n], JobStatus::Queued, t));
                lemma_logs_at_push(ts, msgs, t, status_msg(JobStatus::Queued));
                ts = ts.push(t);
                msgs = msgs.push(status_msg(JobStatus::Queued));
                assert(self.history.view().take(n) =~= h0);
            }
        }
        self.queue.enqueue(id.as_str());
        self.events.publish(ClusterEvent::JobStarted { job_id: id.clone() });
        let ghost v = self.history.view();
        proof {
            if fresh {
                assert forall|j: int| 0 <= j < v.len() - 1 implies v[j].job.id@ != id@ by {
                    assert(v[j] == h0[j]);
                }
                lemma_last_is_first(v, id@);
            }
        }
        self.history.update_status(id.as_str(), JobStatus::Scheduling);
        proof {
            if fresh {
                let t = choose|t: Seq<char>| self.history.view() == v.update(n, #[trigger] status_updated(v[n], JobStatus::Scheduling, t));
                lemma_logs_at_push(ts, msgs, t, status_msg(JobStatus::Scheduling));
                ts = ts.push(t);
                msgs = msgs.push(status_msg(JobStatus::Scheduling));
                assert(self.history.view().take(n) =~= h0);
            }
        }
        let ghost v = self.history.view();
        proof {
            if fresh {
                assert forall|j: int| 0 <= j < v.len() - 1 implies v[j].job.id@ != id@ by {
                    assert(v[j] == h0[j]);
                }
                lemma_last_is_first(v, id@);
            }
        }
        self.history.append_log(id.as_str(), log);
        proof {
            if fresh {
                let t = choose|t: Seq<char>| self.history.view() == v.update(n, #[trigger] logged(v[n], t, log@));
                lemma_logs_at_push(ts, msgs, t, log@);
                ts = ts.push(t);
                msgs = msgs.push(log@);
                assert(self.history.view().take(n) =~= h0);
            }
        }
        let ghost v = self.history.view();
        proof {
            if fresh {
                assert forall|j: int| 0 <= j < v.len() - 1 implies v[j].job.id@ != id@ by {
                    assert(v[j] == h0[j]);
                }
                lemma_last_is_first(v, id@);
            }
        }
        self.history.mark_started(id.as_str());
        proof {
            if fresh {
                let (at, t) = choose|at: Timestamp, t: Seq<char>| self.history.view() == v.update(n, #[trigger] started(v[n], at, t));
                lemma_logs_at_push(ts, msgs, t, "Job started"@);
                ts = ts.push(t);
                msgs = msgs.push("Job started"@);
                assert(self.history.view().take(n) =~= h0);
                let rec = self.history.view().last();
                assert(rec.job == running_since(job0, at));
                let dl = match dependency_log {
                    Some(d) => Some(d@),
                    None => None,
                };
                assert(msgs =~= dispatch_messages(dl, log@));
                assert(rec.logs == logs_at(ts, msgs));
            }
        }
    }
}

/// What the history keeps of a job besides its lifecycle: the scheduler it
/// went to, the dependency report of its submission, and the rest of it.
#[derive(Debug, Clone)]
pub struct JobDetails<D> {
    pub scheduler_id: String,
    pub dependencies: Option<DependencyReport>,
    pub rest: D,
}

/// A stored job result: what the submission reads of it, and the rest of it
/// (output, metrics) carried as it is.
#[derive(Debug, Clone)]
pub struct StoredResult<X> {
    pub job_id: String,
    pub status: JobStatus,
    pub errors: Vec<String>,
    pub result_summary: Option<String>,
    pub execution_time_ms: u64,
    pub rest: X,
}

/// The log line of a dependency report, if it has one.
pub open spec fn report_log(r: DependencyReport) -> Option<Seq<char>> {
    dependency_log_text(
        string_views(r.detected@),
        string_views(r.installed@),
        string_views(r.already_present@),
        string_views(r.skipped_stdlib@),
    )
}

/// The submission of job `job_id` to `scheduler_id` failed while resolving
/// its dependencies with `error`: the books hold the job as failed (details
/// with no dependency report), and its stored result is failed, with
/// `error` as its only error, the summary `Dependency resolution failed:
/// <error>`, no execution time and `result_rest`.
pub open spec fn submission_rejected<D, S, X>(
    b0: JobBook<JobDetails<D>, S, StoredResult<X>>,
    b1: JobBook<JobDetails<D>, S, StoredResult<X>>,
    job_id: String,
    scheduler_id: String,
    rest: D,
    spec: S,
    result_rest: X,
    error: Seq<char>,
) -> bool {
    exists|job: JobEntry<JobDetails<D>>, result: StoredResult<X>|
        #[trigger] rejection_done(
            b0,
            b1,
            job,
            spec,
            result,
            error,
            "Dependency install failed before dispatch: "@ + error,
        ) && {
            &&& job.id == job_id
            &&& job.status == JobStatus::Failed
            &&& job.details == (JobDetails { scheduler_id, dependencies: None, rest })
            &&& result.job_id == job_id
            &&& result.status == JobStatus::Failed
            &&& string_views(result.errors@) == seq![error]
            &&& opt_view(result.result_summary) == Some("Dependency resolution failed: "@ + error)
            &&& result.execution_time_ms == 0
            &&& result.rest == result_rest
        }
}

/// The submission of job `job_id` to `scheduler_id` resolved its
/// dependencies with `report` and was dispatched: the books hold the job
/// (created with that report in its details, then queued, scheduling and
/// running) and the dispatch line names the scheduler.
pub open spec fn submission_dispatched<D, S, X>(
    b0: JobBook<JobDetails<D>, S, StoredResult<X>>,
    b1: JobBook<JobDetails<D>, S, StoredResult<X>>,
    job_id: String,
    scheduler_id: String,
    rest: D,
    spec: S,
    report: DependencyReport,
) -> bool {
    exists|job: JobEntry<JobDetails<D>>|
        #[trigger] dispatch_done(
            b0,
            b1,
            job,
            spec,
            report_log(report),
            "Dispatching to scheduler "@ + scheduler_id@,
        ) && {
            &&& job.id == job_id
            &&& job.status == JobStatus::Created
            &&& job.details == (JobDetails { scheduler_id, dependencies: Some(report), rest })
        }
}

/// The scheduler's result `result` was recorded: stored as it is, the job
/// finished with its status, execution time and first error.
pub open spec fn submission_finished<D, S, X>(
    b0: JobBook<JobDetails<D>, S, StoredResult<X>>,
    b1: JobBook<JobDetails<D>, S, StoredResult<X>>,
    result: StoredResult<X>,
) -> bool {
    exists|first_error: Option<&str>|
        #[trigger] finish_done(
            b0,
            b1,
            result.job_id,
            result,
            result.status,
            result.execution_time_ms,
            first_error,
        ) && match first_error {
            Some(e) => result.errors@.len() > 0 && e@ == result.errors@[0]@,
            None => result.errors@.len() == 0,
        }
}

impl<D, S, X> JobBook<JobDetails<D>, S, StoredResult<X>> {
    /// Records a submission whose dependencies could not be resolved.
    pub fn reject_submission(
        &mut self,
        job_id: String,
        scheduler_id: String,
        rest: D,
        spec: S,
        result_rest: X,
        error: String,
    )
        requires
            old(self).wf(),
        ensures
            final(self).wf(),
            submission_rejected(*old(self), *final(self), job_id, scheduler_id, rest, spec, result_rest, error@),
    {
        let now = now_timestamp();
        let job = JobEntry {
            id: job_id.clone(),
            status: JobStatus::Failed,
            submitted_at: now,
            started_at: None,
            finished_at: Some(now),
            duration_secs: 0,
            details: JobDetails { scheduler_id, dependencies: None, rest },
        };
        let mut summary = String::from_str("Dependency resolution failed: ");
        summary.append(error.as_str());
        let mut log = String::from_str("Dependency install failed before dispatch: ");
        log.append(error.as_str());
        let mut errors: Vec<String> = Vec::new();
        errors.push(error.clone());
        let result = StoredResult {
            job_id: job_id.clone(),
            status: JobStatus::Failed,
            errors,
            result_summary: Some(summary),
            execution_time_ms: 0,
            rest: result_rest,
        };
        let ghost job0 = job;
        let ghost result0 = result;
        proof {
            reveal_strlit("Dependency install failed before dispatch: ");
            assert(string_views(result0.errors@) =~= seq![error@]);
        }
        self.record_rejection(job, spec, result, error.as_str(), log.as_str());
        assert(rejection_done(
            *old(self),
            *final(self),
            job0,
            spec,
            result0,
            error@,
            "Dependency install failed before dispatch: "@ + error@,
        ));
    }

    /// Records a submission whose dependencies were resolved with `report`
    /// and that is dispatched to its scheduler.
    pub fn dispatch_submission(
        &mut self,
        job_id: String,
        scheduler_id: String,
        rest: D,
        spec: S,
        report: DependencyReport,
    )
        requires
            old(self).wf(),
        ensures
            final(self).wf(),
            submission_dispatched(*old(self), *final(self), job_id, scheduler_id, rest, spec, report),
    {
        let dep_line = dependency_log_line(&report);
        let mut log = String::from_str("Dispatching to scheduler ");
        log.append(scheduler_id.as_str());
        let now = now_timestamp();
        let job = JobEntry {
            id: job_id.clone(),
            status: JobStatus::Created,
            submitted_at: now,
            started_at: None,
            finished_at: None,
            duration_secs: 0,
            details: JobDetails { scheduler_id, dependencies: Some(report), rest },
        };
        let ghost job0 = job;
        match dep_line {
            Some(l) => {
                self.record_dispatch(job, spec, Some(l.as_str()), log.as_str());
            },
            None => {
                self.record_dispatch(job, spec, None, log.as_str());
            },
        }
        assert(dispatch_done(
            *old(self),
            *final(self),
            job0,
            spec,
            report_log(report),
            "Dispatching to scheduler "@ + scheduler_id@,
        ));
    }

    /// Records the scheduler's result of a dispatched job.
    pub fn finish_submission(&mut self, result: StoredResult<X>)
        requires
            old(self).wf(),
        ensures
            final(self).wf(),
            submission_finished(*old(self), *final(self), result),
    {
        let ghost r0 = result;
        let job_id = result.job_id.clone();
        let status = result.status;
        let ms = result.execution_time_ms;
        let first: Option<String> = if result.errors.len() > 0 {
            Some(result.errors[0].clone())
        } else {
            None
        };
        match &first {
            Some(e) => {
                let es = e.as_str();
                self.record_finish(job_id, result, status, ms, Some(es));
                assert(finish_done(*old(self), *final(self), r0.job_id, r0, r0.status, r0.execution_time_ms, Some(es)));
            },
            None => {
                self.record_finish(job_id, result, status, ms, None);
                assert(finish_done(*old(self), *final(self), r0.job_id, r0, r0.status, r0.execution_time_ms, None));
            },
        }
    }
}

/// What the outside work of a submission step came back with.
pub enum SubmitOutcome<X> {
    /// The dependency resolution: its report, or why it failed.
    Dependencies(Result<DependencyReport, String>),
    /// The scheduler's answer to the dispatch.
    Accepted(Result<(), String>),
    /// The scheduler's result of the job.
    Outcome(Result<StoredResult<X>, String>),
}

/// One submission of a job to a scheduler, step by step: it holds the job
/// until the dependency resolution decides how it is recorded.
pub struct SubmitRun<D, S, X> {
    pub stage: SubmitStage,
    pub job_id: String,
    pub scheduler_id: String,
    pub pending: Option<(D, S, X)>,
}

impl<D, S, X> SubmitRun<D, S, X> {
    /// The job, its spec and the rest of a failed result, while the
    /// dependency resolution is awaited.
    pub open spec fn held(&self) -> Option<(D, S, X)> {
        self.pending
    }

    pub open spec fn wf(&self) -> bool {
        (self.stage == SubmitStage::ResolvingDependencies) == (self.held() is Some)
    }

    /// A submission of job `job_id` (with `rest` and `spec`) to
    /// `scheduler_id`; `failed_rest` is the rest of the result stored should
    /// the dependencies fail.
    pub fn new(job_id: String, scheduler_id: String, rest: D, spec: S, failed_rest: X) -> (r: Self)
        ensures
            r.wf(),
            r.stage == SubmitStage::ResolvingDependencies,
            r.job_id == job_id,
            r.scheduler_id == scheduler_id,
            r.held() == Some((rest, spec, failed_rest)),
    {
        SubmitRun { stage: SubmitStage::ResolvingDependencies, job_id, scheduler_id, pending: Some((rest, spec, failed_rest)) }
    }

    /// One step: takes what the outside work of the stage gave, records it
    /// in the books and says what to do next. Dependencies that failed
    /// reject the job before dispatch; resolved ones dispatch it; an
    /// accepted dispatch fetches the result; the result is recorded and
    /// ends the submission, successful when the job completed; a refused
    /// dispatch or an unavailable result ends it with that error and leaves
    /// the books as they are, as does an outcome that does not belong to
    /// the stage.
    pub fn step(&mut self, book: &mut JobBook<JobDetails<D>, S, StoredResult<X>>, outcome: SubmitOutcome<X>) -> (a:
        SubmitAction)
        requires
            old(self).wf(),
            old(book).wf(),
        ensures
            final(self).wf(),
            final(book).wf(),
            final(self).job_id == old(self).job_id,
            final(self).scheduler_id == old(self).scheduler_id,
            match (old(self).stage, outcome) {
                (SubmitStage::ResolvingDependencies, SubmitOutcome::Dependencies(Err(e))) => {
                    let (rest, spec, failed_rest) = old(self).held()->Some_0;
                    &&& final(self).stage == SubmitStage::Done
                    &&& a matches SubmitAction::RejectBeforeDispatch { error, .. } && error@ == e@
                    &&& submission_rejected(
                        *old(book),
                        *final(book),
                        old(self).job_id,
                        old(self).scheduler_id,
                        rest,
                        spec,
                        failed_rest,
                        e@,
                    )
                },
                (SubmitStage::ResolvingDependencies, SubmitOutcome::Dependencies(Ok(report))) => {
                    let (rest, spec, failed_rest) = old(self).held()->Some_0;
                    &&& final(self).stage == SubmitStage::Dispatched
                    &&& a is Dispatch
                    &&& submission_dispatched(
                        *old(book),
                        *final(book),
                        old(self).job_id,
                        old(self).scheduler_id,
                        rest,
                        spec,
                        report,
                    )
                },
                (SubmitStage::Dispatched, SubmitOutcome::Accepted(Ok(()))) => {
                    &&& final(self).stage == SubmitStage::AwaitingResult
                    &&& a is FetchResult
                    &&& *final(book) == *old(book)
                },
                (SubmitStage::AwaitingResult, SubmitOutcome::Outcome(Ok(r))) => {
                    &&& final(self).stage == SubmitStage::Done
                    &&& a matches SubmitAction::Finish { success } && success == (r.status == JobStatus::Completed)
                    &&& submission_finished(*old(book), *final(book), r)
                },
                (SubmitStage::Dispatched, SubmitOutcome::Accepted(Err(e)))
                | (SubmitStage::AwaitingResult, SubmitOutcome::Outcome(Err(e))) => {
                    &&& final(self).stage == SubmitStage::Done
                    &&& a matches SubmitAction::Fail { error } && error@ == e@
                    &&& *final(book) == *old(book)
                },
                _ => {
                    &&& final(self).stage == SubmitStage::Done
                    &&& a is Fail
                    &&& *final(book) == *old(book)
                },
            },
    {
        let stage = self.stage;
        match outcome {
            SubmitOutcome::Dependencies(Err(e)) => {
                if stage == SubmitStage::ResolvingDependencies {
                    let (rest, spec, failed_rest) = self.pending.take().unwrap();
                    let (next, a) = submit_step(stage, SubmitEvent::DependenciesFailed(e.clone()), self.scheduler_id.as_str());
                    book.reject_submission(self.job_id.clone(), self.scheduler_id.clone(), rest, spec, failed_rest, e);
                    self.stage = next;
                    return a;
                }
                let (next, a) = submit_step(stage, SubmitEvent::DependenciesFailed(e), self.scheduler_id.as_str());
                self.stage = SubmitStage::Done;
                self.pending = None;
                a
            },
            SubmitOutcome::Dependencies(Ok(report)) => {
                if stage == SubmitStage::ResolvingDependencies {
                    let (rest, spec, _failed_rest) = self.pending.take().unwrap();
                    let (next, a) = submit_step(stage, SubmitEvent::DependenciesResolved, self.scheduler_id.as_str());
                    book.dispatch_submission(self.job_id.clone(), self.scheduler_id.clone(), rest, spec, report);
                    self.stage = next;
                    return a;
                }
                let (next, a) = submit_step(stage, SubmitEvent::DependenciesResolved, self.scheduler_id.as_str());
                self.stage = SubmitStage::Done;
                self.pending = None;
                a
            },
            SubmitOutcome::Accepted(Ok(())) => {
                let (next, a) = submit_step(stage, SubmitEvent::Accepted, self.scheduler_id.as_str());
                if stage != SubmitStage::Dispatched {
                    self.pending = None;
                }
                self.stage = next;
                a
            },
            SubmitOutcome::Accepted(Err(e)) => {
                let (next, a) = submit_step(stage, SubmitEvent::Rejected(e), self.scheduler_id.as_str());
                self.pending = None;
                self.stage = next;
                a
            },
            SubmitOutcome::Outcome(Ok(r)) => {
                let (next, a) = submit_step(stage, SubmitEvent::ResultReady(r.status), self.scheduler_id.as_str());
                if stage == SubmitStage::AwaitingResult {
                    book.finish_submission(r);
                }
                self.pending = None;
                self.stage = next;
                a
            },
            SubmitOutcome::Outcome(Err(e)) => {
                let (next, a) = submit_step(stage, SubmitEvent::ResultUnavailable(e), self.scheduler_id.as_str());
                self.pending = None;
                self.stage = next;
                a
            },
        }
    }
}

} // verus!
