//! What the job history records: log lines and durations.

use vstd::prelude::*;

use crate::clock::{now_timestamp, rfc3339_now, Timestamp};
use crate::jobs::models::JobStatus;
use crate::text::str_eq;
use vstd::pervasive::cloned;

verus! {

/// How a status is printed in the job log.
pub open spec fn status_name_of(s: JobStatus) -> Seq<char> {
    match s {
        JobStatus::Created => "Created"@,
        JobStatus::Queued => "Queued"@,
        JobStatus::Scheduling => "Scheduling"@,
        JobStatus::Running => "Running"@,
        JobStatus::Completed => "Completed"@,
        JobStatus::Failed => "Failed"@,
        JobStatus::Cancelled => "Cancelled"@,
    }
}

pub fn status_name(s: JobStatus) -> (r: &'static str)
    ensures
        r@ == status_name_of(s),
{
    match s {
        JobStatus::Created => "Created",
        JobStatus::Queued => "Queued",
        JobStatus::Scheduling => "Scheduling",
        JobStatus::Running => "Running",
        JobStatus::Completed => "Completed",
        JobStatus::Failed => "Failed",
        JobStatus::Cancelled => "Cancelled",
    }
}

/// A log line: the time in brackets, a space, the message.
pub open spec fn log_text(timestamp: Seq<char>, message: Seq<char>) -> Seq<char> {
    "["@ + timestamp + "] "@ + message
}

/// A log line: the time in brackets, a space, the message.
pub fn log_line(timestamp: &str, message: &str) -> (r: String)
    ensures
        r@ == log_text(timestamp@, message@),
{
    let mut r = String::from_str("[");
    r.append(timestamp);
    r.append("] ");
    r.append(message);
    r
}

/// The message logged when a job's status changes.
pub fn status_change_message(s: JobStatus) -> (r: String)
    ensures
        r@ == "Status \u{2192} "@ + status_name_of(s),
{
    let mut r = String::from_str("Status \u{2192} ");
    r.append(status_name(s));
    r
}

/// The message logged when a job finishes.
pub fn finished_message(s: JobStatus) -> (r: String)
    ensures
        r@ == "Job finished: "@ + status_name_of(s),
{
    let mut r = String::from_str("Job finished: ");
    r.append(status_name(s));
    r
}

/// The message logged for a job's first error.
pub fn error_message(error: &str) -> (r: String)
    ensures
        r@ == "Error: "@ + error@,
{
    let mut r = String::from_str("Error: ");
    r.append(error);
    r
}

/// The duration recorded for a finished job: its execution time in whole
/// seconds, at least one.
pub fn finished_duration_secs(execution_time_ms: u64) -> (d: u64)
    ensures
        d == (if execution_time_ms / 1000 >= 1 {
            execution_time_ms / 1000
        } else {
            1
        }),
        d >= 1,
{
    let s = execution_time_ms / 1000;
    if s >= 1 {
        s
    } else {
        1
    }
}

/// The duration shown for a running job from the seconds elapsed since it
/// started (never negative).
pub fn running_duration_secs(elapsed_secs: i64) -> (d: u64)
    ensures
        d == (if elapsed_secs > 0 {
            elapsed_secs as u64
        } else {
            0
        }),
{
    if elapsed_secs > 0 {
        elapsed_secs as u64
    } else {
        0
    }
}

/// Whole seconds from `since` to `now`, or zero if `now` is not later (and
/// at most `u64::MAX`).
pub open spec fn secs_between(now: Timestamp, since: Timestamp) -> int {
    let d = (now.secs - since.secs) * 1_000_000_000 + (now.nanos - since.nanos);
    if d <= 0 {
        0
    } else if d / 1_000_000_000 > u64::MAX {
        u64::MAX as int
    } else {
        d / 1_000_000_000
    }
}

/// The duration shown for a running job: whole seconds since `since`, never
/// negative.
pub fn running_duration_between(now: Timestamp, since: Timestamp) -> (d: u64)
    ensures
        d == secs_between(now, since),
{
    let d: i128 = (now.secs as i128 - since.secs as i128) * 1_000_000_000 + (now.nanos as i128
        - since.nanos as i128);
    if d <= 0 {
        0
    } else {
        let q: i128 = d / 1_000_000_000;
        if q > u64::MAX as i128 {
            u64::MAX
        } else {
            q as u64
        }
    }
}

/// A job as the history keeps it: what the history reads and changes, and
/// the rest of the job (`details`), carried as it is.
pub struct JobEntry<P> {
    pub id: String,
    pub status: JobStatus,
    pub submitted_at: Timestamp,
    pub started_at: Option<Timestamp>,
    pub finished_at: Option<Timestamp>,
    pub duration_secs: u64,
    pub details: P,
}

/// A job in the history, with its log and the specification it was
/// submitted with.
pub struct HistoryRecord<P, S> {
    pub job: JobEntry<P>,
    pub logs: Vec<String>,
    pub original_spec: Option<S>,
}

/// The abstract content of a record: its job, its log lines as text, and
/// its specification.
pub struct RecordView<P, S> {
    pub job: JobEntry<P>,
    pub logs: Seq<Seq<char>>,
    pub original_spec: Option<S>,
}

impl<P, S> HistoryRecord<P, S> {
    pub open spec fn view(&self) -> RecordView<P, S> {
        RecordView { job: self.job, logs: self.logs@.map_values(|l: String| l@), original_spec: self.original_spec }
    }
}

/// `i` is the first record with job id `id`.
pub open spec fn first_with_id<P, S>(s: Seq<RecordView<P, S>>, id: Seq<char>, i: int) -> bool {
    &&& 0 <= i < s.len()
    &&& s[i].job.id@ == id
    &&& forall|j: int| 0 <= j < i ==> s[j].job.id@ != id
}

/// Some record has job id `id`.
pub open spec fn has_id<P, S>(s: Seq<RecordView<P, S>>, id: Seq<char>) -> bool {
    exists|i: int| 0 <= i < s.len() && #[trigger] s[i].job.id@ == id
}

/// The first record with job id `id` (meaningful when there is one).
pub open spec fn first_index<P, S>(s: Seq<RecordView<P, S>>, id: Seq<char>) -> int {
    choose|i: int| first_with_id(s, id, i)
}

/// There is only one first record with a given id.
pub proof fn lemma_first_unique<P, S>(s: Seq<RecordView<P, S>>, id: Seq<char>, i: int)
    requires
        first_with_id(s, id, i),
    ensures
        has_id(s, id),
        first_index(s, id) == i,
{
    assert(s[i].job.id@ == id);
    let k = first_index(s, id);
    assert(first_with_id(s, id, k));
    if k < i {
        assert(s[k].job.id@ != id);
    }
    if i < k {
        assert(s[i].job.id@ != id);
    }
}

/// A record with a line logged at time text `t`.
pub open spec fn logged<P, S>(r: RecordView<P, S>, t: Seq<char>, message: Seq<char>) -> RecordView<P, S> {
    RecordView { logs: r.logs.push(log_text(t, message)), ..r }
}

/// A record whose job took status `status`, logged at `t`.
pub open spec fn status_updated<P, S>(r: RecordView<P, S>, status: JobStatus, t: Seq<char>) -> RecordView<P, S> {
    logged(
        RecordView { job: JobEntry { status, ..r.job }, ..r },
        t,
        "Status \u{2192} "@ + status_name_of(status),
    )
}

/// A record whose job started at `at`, logged at `t`.
pub open spec fn started<P, S>(r: RecordView<P, S>, at: Timestamp, t: Seq<char>) -> RecordView<P, S> {
    logged(
        RecordView { job: JobEntry { started_at: Some(at), status: JobStatus::Running, ..r.job }, ..r },
        t,
        "Job started"@,
    )
}

/// A record whose job finished at `at` with `status` after
/// `execution_time_ms`, the finish logged at `t1` and the first error, if
/// any, at `t2`.
pub open spec fn finished<P, S>(
    r: RecordView<P, S>,
    status: JobStatus,
    execution_time_ms: u64,
    first_error: Option<&str>,
    at: Timestamp,
    t1: Seq<char>,
    t2: Seq<char>,
) -> RecordView<P, S> {
    let done = logged(
        RecordView {
            job: JobEntry {
                status,
                finished_at: Some(at),
                duration_secs: (if execution_time_ms / 1000 >= 1 {
                    execution_time_ms / 1000
                } else {
                    1
                }) as u64,
                ..r.job
            },
            ..r
        },
        t1,
        "Job finished: "@ + status_name_of(status),
    );
    match first_error {
        Some(e) => logged(done, t2, "Error: "@ + e@),
        None => done,
    }
}

/// How a job is listed at time `now`: a running job shows the whole seconds
/// since it started (or, never started, since it was submitted).
pub open spec fn listed_duration<P>(j: JobEntry<P>, now: Timestamp) -> u64 {
    if j.status == JobStatus::Running {
        secs_between(
            now,
            match j.started_at {
                Some(t) => t,
                None => j.submitted_at,
            },
        ) as u64
    } else {
        j.duration_secs
    }
}

/// `c` is a copy of `j` showing the duration `duration`.
pub open spec fn copy_with_duration<P: Clone>(c: JobEntry<P>, j: JobEntry<P>, duration: u64) -> bool {
    &&& c.id == j.id
    &&& c.status == j.status
    &&& c.submitted_at == j.submitted_at
    &&& c.started_at == j.started_at
    &&& c.finished_at == j.finished_at
    &&& c.duration_secs == duration
    &&& cloned(j.details, c.details)
}

/// `c` is a copy of `j` as listed at `now`.
pub open spec fn listed_as<P: Clone>(c: JobEntry<P>, j: JobEntry<P>, now: Timestamp) -> bool {
    copy_with_duration(c, j, listed_duration(j, now))
}

/// `r` lists the jobs of `s` in order, as shown at `now`.
pub open spec fn listing_at<P: Clone, S>(r: Seq<JobEntry<P>>, s: Seq<RecordView<P, S>>, now: Timestamp) -> bool {
    &&& r.len() == s.len()
    &&& forall|i: int| 0 <= i < r.len() ==> listed_as(#[trigger] r[i], s[i].job, now)
}

/// `b` is a copy of the optional `a`.
pub open spec fn option_cloned<S: Clone>(a: Option<S>, b: Option<S>) -> bool {
    match (a, b) {
        (None, None) => true,
        (Some(x), Some(y)) => cloned(x, y),
        _ => false,
    }
}

/// Log lines written at the times `ts` saying `msgs`, in order.
pub open spec fn logs_at(ts: Seq<Seq<char>>, msgs: Seq<Seq<char>>) -> Seq<Seq<char>> {
    Seq::new(msgs.len(), |i: int| log_text(ts[i], msgs[i]))
}

/// The log lines say the messages `msgs`, in order, each under its own time.
pub open spec fn logs_say(logs: Seq<Seq<char>>, msgs: Seq<Seq<char>>) -> bool {
    exists|ts: Seq<Seq<char>>| ts.len() == msgs.len() && #[trigger] logs_at(ts, msgs) == logs
}

/// One more line at the end of a log written at known times.
pub proof fn lemma_logs_at_push(ts: Seq<Seq<char>>, msgs: Seq<Seq<char>>, t: Seq<char>, m: Seq<char>)
    requires
        ts.len() == msgs.len(),
    ensures
        logs_at(ts.push(t), msgs.push(m)) == logs_at(ts, msgs).push(log_text(t, m)),
{
    assert(logs_at(ts.push(t), msgs.push(m)) =~= logs_at(ts, msgs).push(log_text(t, m)));
}

/// When only the last record has id `id`, it is the first one with it.
pub proof fn lemma_last_is_first<P, S>(s: Seq<RecordView<P, S>>, id: Seq<char>)
    requires
        s.len() > 0,
        s.last().job.id@ == id,
        forall|j: int| 0 <= j < s.len() - 1 ==> s[j].job.id@ != id,
    ensures
        has_id(s, id),
        first_index(s, id) == s.len() - 1,
{
    lemma_first_unique(s, id, s.len() - 1);
}

/// The job history, oldest first. A lookup by id finds the first record
/// with that id.
pub struct JobHistoryStore<P, S> {
    records: Vec<HistoryRecord<P, S>>,
}

impl<P, S> JobHistoryStore<P, S> {
    pub closed spec fn view(&self) -> Seq<RecordView<P, S>> {
        self.records@.map_values(|r: HistoryRecord<P, S>| r.view())
    }

    pub fn new() -> (h: Self)
        ensures
            h.view() == Seq::<RecordView<P, S>>::empty(),
    {
        JobHistoryStore { records: Vec::new() }
    }

    /// Replaces the whole history, as when it is read back from disk.
    pub fn restore(&mut self, records: Vec<HistoryRecord<P, S>>)
        ensures
            final(self).view() == records@.map_values(|r: HistoryRecord<P, S>| r.view()),
    {
        self.records = records;
    }

    /// Index of the first record with job id `id`, if any.
    fn find(&self, id: &str) -> (r: Option<usize>)
        ensures
            match r {
                Some(i) => first_with_id(self.view(), id@, i as int),
                None => !has_id(self.view(), id@),
            },
    {
        let mut i: usize = 0;
        while i < self.records.len()
            invariant
                i <= self.records@.len(),
                forall|j: int| 0 <= j < i ==> #[trigger] self.view()[j].job.id@ != id@,
            decreases self.records@.len() - i,
        {
            if str_eq(self.records[i].job.id.as_str(), id) {
                assert(self.view()[i as int] == self.records@[i as int].view());
                return Some(i);
            }
            assert(self.view()[i as int] == self.records@[i as int].view());
            i = i + 1;
        }
        assert forall|j: int| 0 <= j < self.view().len() implies #[trigger] self.view()[j].job.id@ != id@ by {}
        None
    }

    /// Takes record `i` out.
    fn take(&mut self, i: usize) -> (r: HistoryRecord<P, S>)
        requires
            i < old(self).view().len(),
        ensures
            final(self).view() == old(self).view().remove(i as int),
            r.view() == old(self).view()[i as int],
    {
        let r = self.records.remove(i);
        assert(self.view() =~= old(self).view().remove(i as int));
        r
    }

    /// Puts a record back at position `i`.
    fn put(&mut self, i: usize, r: HistoryRecord<P, S>)
        requires
            i <= old(self).view().len(),
        ensures
            final(self).view() == old(self).view().insert(i as int, r.view()),
    {
        self.records.insert(i, r);
        assert(self.view() =~= old(self).view().insert(i as int, r.view()));
    }

    /// Sets the status of the first job with id `id`, logging the change; an
    /// unknown id changes nothing.
    pub fn update_status(&mut self, id: &str, status: JobStatus)
        ensures
            final(self).view().len() == old(self).view().len(),
            !has_id(old(self).view(), id@) ==> final(self).view() == old(self).view(),
            has_id(old(self).view(), id@) ==> exists|t: Seq<char>|
                final(self).view() == old(self).view().update(
                    first_index(old(self).view(), id@),
                    #[trigger] status_updated(old(self).view()[first_index(old(self).view(), id@)], status, t),
                ),
    {
        match self.find(id) {
            None => {},
            Some(i) => {
                proof {
                    lemma_first_unique(self.view(), id@, i as int);
                }
                let ghost v0 = self.view();
                let mut rec = self.take(i);
                rec.job.status = status;
                let stamp = rfc3339_now();
                let msg = status_change_message(status);
                let line = log_line(stamp.as_str(), msg.as_str());
                let ghost logs0 = rec.logs@;
                rec.logs.push(line);
                proof {
                    assert(rec.logs@.map_values(|l: String| l@) =~= logs0.map_values(|l: String| l@).push(line@));
                    assert(rec.view() == status_updated(v0[i as int], status, stamp@));
                }
                self.put(i, rec);
                proof {
                    assert(self.view() =~= v0.update(i as int, status_updated(v0[i as int], status, stamp@)));
                }
            },
        }
    }

    /// Marks the first job with id `id` running since now, logging the start;
    /// an unknown id changes nothing.
    pub fn mark_started(&mut self, id: &str)
        ensures
            final(self).view().len() == old(self).view().len(),
            !has_id(old(self).view(), id@) ==> final(self).view() == old(self).view(),
            has_id(old(self).view(), id@) ==> exists|at: Timestamp, t: Seq<char>|
                final(self).view() == old(self).view().update(
                    first_index(old(self).view(), id@),
                    #[trigger] started(old(self).view()[first_index(old(self).view(), id@)], at, t),
                ),
    {
        match self.find(id) {
            None => {},
            Some(i) => {
                proof {
                    lemma_first_unique(self.view(), id@, i as int);
                }
                let ghost v0 = self.view();
                let mut rec = self.take(i);
                let at = now_timestamp();
                rec.job.started_at = Some(at);
                rec.job.status = JobStatus::Running;
                let stamp = rfc3339_now();
                let line = log_line(stamp.as_str(), "Job started");
                let ghost logs0 = rec.logs@;
                rec.logs.push(line);
                proof {
                    assert(rec.logs@.map_values(|l: String| l@) =~= logs0.map_values(|l: String| l@).push(line@));
                    assert(rec.view() == started(v0[i as int], at, stamp@));
                }
                self.put(i, rec);
                proof {
                    assert(self.view() =~= v0.update(i as int, started(v0[i as int], at, stamp@)));
                }
            },
        }
    }

    /// Records how the first job with id `id` ended: its status, the moment,
    /// its duration in whole seconds (at least one) and the log lines for the
    /// finish and for its first error; an unknown id changes nothing.
    pub fn finish(&mut self, id: &str, status: JobStatus, execution_time_ms: u64, first_error: Option<&str>)
        ensures
            final(self).view().len() == old(self).view().len(),
            !has_id(old(self).view(), id@) ==> final(self).view() == old(self).view(),
            has_id(old(self).view(), id@) ==> exists|at: Timestamp, t1: Seq<char>, t2: Seq<char>|
                final(self).view() == old(self).view().update(
                    first_index(old(self).view(), id@),
                    #[trigger] finished(
                        old(self).view()[first_index(old(self).view(), id@)],
                        status,
                        execution_time_ms,
                        first_error,
                        at,
                        t1,
                        t2,
                    ),
                ),
    {
        match self.find(id) {
            None => {},
            Some(i) => {
                proof {
                    lemma_first_unique(self.view(), id@, i as int);
                }
                let ghost v0 = self.view();
                let mut rec = self.take(i);
                rec.job.status = status;
                let at = now_timestamp();
                rec.job.finished_at = Some(at);
                rec.job.duration_secs = finished_duration_secs(execution_time_ms);
                let stamp1 = rfc3339_now();
                let msg = finished_message(status);
                let line = log_line(stamp1.as_str(), msg.as_str());
                let ghost logs0 = rec.logs@;
                rec.logs.push(line);
                proof {
                    assert(rec.logs@.map_values(|l: String| l@) =~= logs0.map_values(|l: String| l@).push(line@));
                }
                let ghost mut stamp2: Seq<char> = Seq::empty();
                match first_error {
                    Some(e) => {
                        let stamp = rfc3339_now();
                        let emsg = error_message(e);
                        let eline = log_line(stamp.as_str(), emsg.as_str());
                        let ghost logs1 = rec.logs@;
                        rec.logs.push(eline);
                        proof {
                            stamp2 = stamp@;
                            assert(rec.logs@.map_values(|l: String| l@) =~= logs1.map_values(|l: String| l@).push(
                                eline@,
                            ));
                        }
                    },
                    None => {},
                }
                proof {
                    assert(rec.view() == finished(v0[i as int], status, execution_time_ms, first_error, at, stamp1@, stamp2));
                }
                self.put(i, rec);
                proof {
                    assert(self.view() =~= v0.update(
                        i as int,
                        finished(v0[i as int], status, execution_time_ms, first_error, at, stamp1@, stamp2),
                    ));
                }
            },
        }
    }

    /// Logs a message for the first job with id `id`; an unknown id changes
    /// nothing.
    pub fn append_log(&mut self, id: &str, message: &str)
        ensures
            final(self).view().len() == old(self).view().len(),
            !has_id(old(self).view(), id@) ==> final(self).view() == old(self).view(),
            has_id(old(self).view(), id@) ==> exists|t: Seq<char>|
                final(self).view() == old(self).view().update(
                    first_index(old(self).view(), id@),
                    #[trigger] logged(old(self).view()[first_index(old(self).view(), id@)], t, message@),
                ),
    {
        match self.find(id) {
            None => {},
            Some(i) => {
                proof {
                    lemma_first_unique(self.view(), id@, i as int);
                }
                let ghost v0 = self.view();
                let mut rec = self.take(i);
                let stamp = rfc3339_now();
                let line = log_line(stamp.as_str(), message);
                let ghost logs0 = rec.logs@;
                rec.logs.push(line);
                proof {
                    assert(rec.logs@.map_values(|l: String| l@) =~= logs0.map_values(|l: String| l@).push(line@));
                }
                self.put(i, rec);
                proof {
                    assert(self.view() =~= v0.update(i as int, logged(v0[i as int], stamp@, message@)));
                }
            },
        }
    }

    /// Adds a job with its specification, logging its creation, and gives
    /// back its id.
    pub fn create(&mut self, job: JobEntry<P>, spec: S) -> (id: String)
        ensures
            id == job.id,
            final(self).view().len() == old(self).view().len() + 1,
            final(self).view().take(old(self).view().len() as int) == old(self).view(),
            final(self).view().last().job == job,
            final(self).view().last().original_spec == Some(spec),
            final(self).view().last().logs.len() == 1,
            exists|t: Seq<char>| final(self).view().last().logs[0] == #[trigger] log_text(t, "Job created"@),
    {
        let id = job.id.clone();
        let stamp = rfc3339_now();
        let line = log_line(stamp.as_str(), "Job created");
        let mut logs: Vec<String> = Vec::new();
        logs.push(line);
        self.records.push(HistoryRecord { job, logs, original_spec: Some(spec) });
        proof {
            let v = final(self).view();
            assert(v.take(old(self).view().len() as int) =~= old(self).view());
            assert(v.last() == self.records@.last().view());
            assert(v.last().logs[0] == log_text(stamp@, "Job created"@));
        }
        id
    }
}

impl<P: Clone, S: Clone> JobHistoryStore<P, S> {
    /// A copy of a job, showing `duration`.
    fn copy_entry(j: &JobEntry<P>, duration: u64) -> (c: JobEntry<P>)
        ensures
            copy_with_duration(c, *j, duration),
    {
        JobEntry {
            id: j.id.clone(),
            status: j.status,
            submitted_at: j.submitted_at,
            started_at: j.started_at,
            finished_at: j.finished_at,
            duration_secs: duration,
            details: j.details.clone(),
        }
    }

    /// The jobs, oldest first, as shown at time `now`: a running job shows
    /// the whole seconds since it started, or since it was submitted if it
    /// never started.
    pub fn list_at(&self, now: Timestamp) -> (r: Vec<JobEntry<P>>)
        ensures
            listing_at(r@, self.view(), now),
    {
        let mut r: Vec<JobEntry<P>> = Vec::new();
        let mut i: usize = 0;
        while i < self.records.len()
            invariant
                i <= self.records@.len(),
                r@.len() == i,
                forall|k: int| 0 <= k < i ==> listed_as(#[trigger] r@[k], self.view()[k].job, now),
            decreases self.records@.len() - i,
        {
            let j = &self.records[i].job;
            assert(self.view()[i as int].job == *j);
            let duration = if j.status == JobStatus::Running {
                match j.started_at {
                    Some(t) => running_duration_between(now, t),
                    None => running_duration_between(now, j.submitted_at),
                }
            } else {
                j.duration_secs
            };
            r.push(Self::copy_entry(j, duration));
            i = i + 1;
        }
        r
    }

    /// The jobs, oldest first, as shown now.
    pub fn list(&self) -> (r: Vec<JobEntry<P>>)
        ensures
            exists|now: Timestamp| #[trigger] listing_at(r@, self.view(), now),
    {
        let now = now_timestamp();
        self.list_at(now)
    }

    /// The first job with id `id`, with its log and specification.
    pub fn get(&self, id: &str) -> (r: Option<(JobEntry<P>, Vec<String>, Option<S>)>)
        ensures
            r is None <==> !has_id(self.view(), id@),
            r matches Some((job, logs, spec)) ==> {
                let rec = self.view()[first_index(self.view(), id@)];
                &&& copy_with_duration(job, rec.job, rec.job.duration_secs)
                &&& logs@.map_values(|l: String| l@) == rec.logs
                &&& option_cloned(rec.original_spec, spec)
            },
    {
        match self.find(id) {
            None => None,
            Some(i) => {
                proof {
                    lemma_first_unique(self.view(), id@, i as int);
                }
                let rec = &self.records[i];
                assert(self.view()[i as int] == rec.view());
                let job = Self::copy_entry(&rec.job, rec.job.duration_secs);
                let mut logs: Vec<String> = Vec::new();
                let mut k: usize = 0;
                while k < rec.logs.len()
                    invariant
                        k <= rec.logs@.len(),
                        logs@.map_values(|l: String| l@) == rec.logs@.map_values(|l: String| l@).take(k as int),
                    decreases rec.logs@.len() - k,
                {
                    let line = rec.logs[k].clone();
                    let ghost before = logs@;
                    logs.push(line);
                    assert(logs@.map_values(|l: String| l@) =~= before.map_values(|l: String| l@).push(line@));
                    assert(line@ == rec.logs@[k as int]@);
                    assert(logs@.map_values(|l: String| l@) =~= rec.logs@.map_values(|l: String| l@).take(k + 1));
                    k = k + 1;
                }
                assert(rec.logs@.map_values(|l: String| l@).take(k as int) =~= rec.logs@.map_values(|l: String| l@));
                let spec = match &rec.original_spec {
                    Some(s) => Some(s.clone()),
                    None => None,
                };
                Some((job, logs, spec))
            },
        }
    }

    /// The specification of the first job with id `id`, if it has one.
    pub fn get_spec(&self, id: &str) -> (r: Option<S>)
        ensures
            !has_id(self.view(), id@) ==> r is None,
            has_id(self.view(), id@) ==> option_cloned(self.view()[first_index(self.view(), id@)].original_spec, r),
    {
        match self.find(id) {
            None => None,
            Some(i) => {
                proof {
                    lemma_first_unique(self.view(), id@, i as int);
                }
                let rec = &self.records[i];
                assert(self.view()[i as int] == rec.view());
                match &rec.original_spec {
                    Some(s) => Some(s.clone()),
                    None => None,
                }
            },
        }
    }
}

} // verus!
