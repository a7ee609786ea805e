//! Jobs a scheduler backend has accepted: their state, their result once
//! known, and what progress and summaries report of them.

use vstd::prelude::*;

use crate::jobs::models::JobStatus;
use crate::store::KeyedStore;

verus! {

/// One job a backend tracks; `R` is the result it produced, `T` the moment
/// it was submitted.
pub struct TrackedJob<R, T> {
    pub status: JobStatus,
    pub result: Option<R>,
    pub name: String,
    pub submitted_at: T,
}

/// The jobs of one backend, by job id.
pub struct JobTracker<R, T> {
    jobs: KeyedStore<TrackedJob<R, T>>,
}

/// The job with its status replaced.
pub open spec fn with_status<R, T>(j: TrackedJob<R, T>, s: JobStatus) -> TrackedJob<R, T> {
    TrackedJob { status: s, ..j }
}

impl<R, T> JobTracker<R, T> {
    pub closed spec fn view(&self) -> Map<Seq<char>, TrackedJob<R, T>> {
        self.jobs.view()
    }

    pub closed spec fn wf(&self) -> bool {
        self.jobs.wf()
    }

    pub fn new() -> (t: Self)
        ensures
            t.wf(),
            t.view() == Map::<Seq<char>, TrackedJob<R, T>>::empty(),
    {
        JobTracker { jobs: KeyedStore::new() }
    }

    /// Starts tracking a job as `Scheduling`, with no result yet; a job
    /// tracked under the same id before is replaced.
    pub fn track(&mut self, job_id: String, name: String, submitted_at: T)
        requires
            old(self).wf(),
        ensures
            final(self).wf(),
            final(self).view() == old(self).view().insert(
                job_id@,
                TrackedJob { status: JobStatus::Scheduling, result: None, name, submitted_at },
            ),
    {
        self.jobs.insert(
            job_id,
            TrackedJob { status: JobStatus::Scheduling, result: None, name, submitted_at },
        );
    }

    /// Sets the status of a tracked job; an unknown id changes nothing.
    pub fn set_status(&mut self, job_id: &str, status: JobStatus)
        requires
            old(self).wf(),
        ensures
            final(self).wf(),
            final(self).view() == if old(self).view().contains_key(job_id@) {
                old(self).view().insert(job_id@, with_status(old(self).view()[job_id@], status))
            } else {
                old(self).view()
            },
    {
        match self.jobs.remove(job_id) {
            Some(j) => {
                let updated = TrackedJob {
                    status,
                    result: j.result,
                    name: j.name,
                    submitted_at: j.submitted_at,
                };
                self.jobs.insert(String::from_str(job_id), updated);
                proof {
                    assert(self.view() =~= old(self).view().insert(
                        job_id@,
                        with_status(old(self).view()[job_id@], status),
                    ));
                }
            },
            None => {
                assert(self.view() =~= old(self).view());
            },
        }
    }

    /// Records the outcome of a tracked job: its final status and result; an
    /// unknown id changes nothing.
    pub fn record(&mut self, job_id: &str, status: JobStatus, result: R)
        requires
            old(self).wf(),
        ensures
            final(self).wf(),
            final(self).view() == if old(self).view().contains_key(job_id@) {
                old(self).view().insert(
                    job_id@,
                    TrackedJob { status, result: Some(result), ..old(self).view()[job_id@] },
                )
            } else {
                old(self).view()
            },
    {
        match self.jobs.remove(job_id) {
            Some(j) => {
                let updated = TrackedJob {
                    status,
                    result: Some(result),
                    name: j.name,
                    submitted_at: j.submitted_at,
                };
                self.jobs.insert(String::from_str(job_id), updated);
                proof {
                    assert(self.view() =~= old(self).view().insert(
                        job_id@,
                        TrackedJob { status, result: Some(result), ..old(self).view()[job_id@] },
                    ));
                }
            },
            None => {
                assert(self.view() =~= old(self).view());
            },
        }
    }

    /// The bookkeeping of a submission before the backend runs the job: it
    /// is tracked as scheduling, then marked running (a job tracked under
    /// the same id before is replaced).
    pub fn begin_run(&mut self, job_id: String, name: String, submitted_at: T)
        requires
            old(self).wf(),
        ensures
            final(self).wf(),
            final(self).view() == old(self).view().insert(
                job_id@,
                TrackedJob { status: JobStatus::Running, result: None, name, submitted_at },
            ),
    {
        let id = job_id.clone();
        self.track(job_id, name, submitted_at);
        self.set_status(id.as_str(), JobStatus::Running);
    }

    /// The bookkeeping of a submission after the backend ran the job: the
    /// outcome is recorded, and the acknowledgement reports the status now
    /// tracked (`Failed` for a job that is not tracked).
    pub fn finish_run(&mut self, job_id: &str, status: JobStatus, result: R) -> (ack: JobStatus)
        requires
            old(self).wf(),
        ensures
            final(self).wf(),
            final(self).view() == if old(self).view().contains_key(job_id@) {
                old(self).view().insert(
                    job_id@,
                    TrackedJob { status, result: Some(result), ..old(self).view()[job_id@] },
                )
            } else {
                old(self).view()
            },
            ack == if old(self).view().contains_key(job_id@) {
                status
            } else {
                JobStatus::Failed
            },
    {
        self.record(job_id, status, result);
        self.ack_status(job_id)
    }

    /// The tracked job under an id.
    pub fn get(&self, job_id: &str) -> (r: Option<&TrackedJob<R, T>>)
        requires
            self.wf(),
        ensures
            match r {
                Some(j) => self.view().contains_key(job_id@) && self.view()[job_id@] == *j,
                None => !self.view().contains_key(job_id@),
            },
    {
        self.jobs.get(job_id)
    }

    /// The status of a job, if it is tracked.
    pub fn status(&self, job_id: &str) -> (r: Option<JobStatus>)
        requires
            self.wf(),
        ensures
            r == if self.view().contains_key(job_id@) {
                Some(self.view()[job_id@].status)
            } else {
                None
            },
    {
        match self.jobs.get(job_id) {
            Some(j) => Some(j.status),
            None => None,
        }
    }

    /// The status an acknowledgement reports: the tracked status, or
    /// `Failed` for a job that is not tracked.
    pub fn ack_status(&self, job_id: &str) -> (s: JobStatus)
        requires
            self.wf(),
        ensures
            s == if self.view().contains_key(job_id@) {
                self.view()[job_id@].status
            } else {
                JobStatus::Failed
            },
    {
        match self.status(job_id) {
            Some(s) => s,
            None => JobStatus::Failed,
        }
    }

    /// The result of a job, if it is tracked and has one.
    pub fn result(&self, job_id: &str) -> (r: Option<&R>)
        requires
            self.wf(),
        ensures
            match r {
                Some(v) => self.view().contains_key(job_id@) && self.view()[job_id@].result
                    == Some(*v),
                None => !self.view().contains_key(job_id@) || self.view()[job_id@].result is None,
            },
    {
        match self.jobs.get(job_id) {
            Some(j) => match &j.result {
                Some(v) => Some(v),
                None => None,
            },
            None => None,
        }
    }

    /// The number of tracked jobs.
    pub fn len(&self) -> (n: usize)
        requires
            self.wf(),
        ensures
            n == self.view().len(),
    {
        self.jobs.len()
    }

    /// The ids of the tracked jobs.
    pub fn ids(&self) -> (r: Vec<String>)
        requires
            self.wf(),
        ensures
            forall|k: Seq<char>|
                self.view().contains_key(k) <==> crate::text::string_views(r@).contains(k),
            crate::text::string_views(r@).no_duplicates(),
    {
        let r = self.jobs.keys();
        proof {
            self.jobs.lemma_order();
        }
        r
    }
}

// ───────────────────────── reporting ─────────────────────────

/// The progress a backend reports for each status, in percent.
pub open spec fn percent_for(status: JobStatus) -> u32 {
    match status {
        JobStatus::Scheduling => 5,
        JobStatus::Running => 50,
        JobStatus::Completed => 100,
        _ => 0,
    }
}

pub fn progress_percent(status: JobStatus) -> (p: u32)
    ensures
        p == percent_for(status),
{
    match status {
        JobStatus::Created | JobStatus::Queued => 0,
        JobStatus::Scheduling => 5,
        JobStatus::Running => 50,
        JobStatus::Completed => 100,
        JobStatus::Failed | JobStatus::Cancelled => 0,
    }
}

/// Task counts of a job in a status: (active, completed, failed); one task
/// per job.
pub fn task_counts(status: JobStatus) -> (c: (usize, usize, usize))
    ensures
        c.0 == (if status == JobStatus::Running { 1usize } else { 0usize }),
        c.1 == (if status == JobStatus::Completed { 1usize } else { 0usize }),
        c.2 == (if status == JobStatus::Failed { 1usize } else { 0usize }),
{
    (
        if status == JobStatus::Running { 1 } else { 0 },
        if status == JobStatus::Completed { 1 } else { 0 },
        if status == JobStatus::Failed { 1 } else { 0 },
    )
}

/// Whole seconds a job ran, from its result's execution time; zero without
/// a result.
pub fn summary_duration_secs(execution_time_ms: Option<u64>) -> (s: u64)
    ensures
        s == match execution_time_ms {
            Some(ms) => ms / 1000,
            None => 0,
        },
{
    match execution_time_ms {
        Some(ms) => ms / 1000,
        None => 0,
    }
}

/// A finished job counts as fully done in a summary, anything else as not
/// started.
pub fn summary_percent(status: JobStatus) -> (p: u32)
    ensures
        p == (if status == JobStatus::Completed { 100u32 } else { 0u32 }),
{
    if status == JobStatus::Completed {
        100
    } else {
        0
    }
}

/// Changing a tracked job's status keeps its result, name and submission
/// time.
pub proof fn lemma_status_change_keeps_result<R, T>(j: TrackedJob<R, T>, s: JobStatus)
    ensures
        with_status(j, s).status == s,
        with_status(j, s).result == j.result,
        with_status(j, s).name == j.name,
        with_status(j, s).submitted_at == j.submitted_at,
{
}

} // verus!
