//! FIFO queue of pending job ids and the job lifecycle rules.

use std::collections::VecDeque;
use vstd::prelude::*;

use crate::jobs::models::JobStatus;
use crate::text::str_eq;

verus! {

/// Pending job ids, oldest first.
pub struct JobQueue {
    pending: VecDeque<String>,
}

/// The ids a queue holds, oldest first.
pub open spec fn ids_of(v: Seq<String>) -> Seq<Seq<char>> {
    Seq::new(v.len(), |i: int| v[i]@)
}

/// The queue after an id is appended at the back.
pub open spec fn enqueued(q: Seq<Seq<char>>, id: Seq<char>) -> Seq<Seq<char>> {
    q.push(id)
}

/// What a dequeue hands out: the oldest id, if any.
pub open spec fn front(q: Seq<Seq<char>>) -> Option<Seq<char>> {
    if q.len() == 0 {
        None
    } else {
        Some(q[0])
    }
}

/// The queue after a dequeue.
pub open spec fn dequeued(q: Seq<Seq<char>>) -> Seq<Seq<char>> {
    if q.len() == 0 {
        q
    } else {
        q.drop_first()
    }
}

/// The queue after every occurrence of `id` is taken out.
pub open spec fn without(q: Seq<Seq<char>>, id: Seq<char>) -> Seq<Seq<char>>
    decreases q.len(),
{
    if q.len() == 0 {
        q
    } else if q.last() == id {
        without(q.drop_last(), id)
    } else {
        without(q.drop_last(), id).push(q.last())
    }
}

impl View for JobQueue {
    type V = Seq<Seq<char>>;

    closed spec fn view(&self) -> Seq<Seq<char>> {
        ids_of(self.pending@)
    }
}

impl JobQueue {
    pub fn new() -> (q: JobQueue)
        ensures
            q@ == Seq::<Seq<char>>::empty(),
    {
        let q = JobQueue { pending: VecDeque::new() };
        assert(q@ =~= Seq::<Seq<char>>::empty());
        q
    }

    pub fn enqueue(&mut self, job_id: &str)
        ensures
            final(self)@ == enqueued(old(self)@, job_id@),
    {
        self.pending.push_back(String::from_str(job_id));
        assert(self@ =~= enqueued(old(self)@, job_id@));
    }

    pub fn dequeue(&mut self) -> (r: Option<String>)
        ensures
            final(self)@ == dequeued(old(self)@),
            match r {
                Some(id) => front(old(self)@) == Some(id@),
                None => front(old(self)@) is None,
            },
    {
        let r = self.pending.pop_front();
        assert(self@ =~= dequeued(old(self)@));
        r
    }

    pub fn remove(&mut self, job_id: &str)
        ensures
            final(self)@ == without(old(self)@, job_id@),
    {
        let ghost start = self@;
        let mut kept: VecDeque<String> = VecDeque::new();
        let n = self.pending.len();
        let mut i: usize = 0;
        while i < n
            invariant
                i <= n == self.pending@.len(),
                start == ids_of(self.pending@),
                ids_of(kept@) == without(start.take(i as int), job_id@),
            decreases n - i,
        {
            let id = &self.pending[i];
            assert(start.take(i + 1).drop_last() =~= start.take(i as int));
            if !str_eq(id.as_str(), job_id) {
                kept.push_back(id.clone());
                assert(ids_of(kept@) =~= without(start.take(i as int), job_id@).push(id@));
            }
            i = i + 1;
        }
        assert(start.take(n as int) =~= start);
        self.pending = kept;
    }

    pub fn len(&self) -> (n: usize)
        ensures
            n == self@.len(),
    {
        self.pending.len()
    }

    pub fn is_empty(&self) -> (b: bool)
        ensures
            b == (self@.len() == 0),
    {
        self.pending.len() == 0
    }
}

impl Default for JobQueue {
    fn default() -> (q: JobQueue)
        ensures
            q@ == Seq::<Seq<char>>::empty(),
    {
        JobQueue::new()
    }
}

/// The lifecycle edges a job may take.
pub open spec fn allowed(from: JobStatus, to: JobStatus) -> bool {
    match (from, to) {
        (JobStatus::Created, JobStatus::Queued) => true,
        (JobStatus::Queued, JobStatus::Scheduling) => true,
        (JobStatus::Scheduling, JobStatus::Running) => true,
        (JobStatus::Running, JobStatus::Completed) => true,
        (JobStatus::Running, JobStatus::Failed) => true,
        (JobStatus::Running, JobStatus::Cancelled) => true,
        (JobStatus::Created, JobStatus::Cancelled) => true,
        (JobStatus::Queued, JobStatus::Cancelled) => true,
        (JobStatus::Scheduling, JobStatus::Cancelled) => true,
        (JobStatus::Failed, JobStatus::Queued) => true,
        _ => false,
    }
}

pub fn can_transition(from: JobStatus, to: JobStatus) -> (b: bool)
    ensures
        b == allowed(from, to),
{
    match (from, to) {
        (JobStatus::Created, JobStatus::Queued) => true,
        (JobStatus::Queued, JobStatus::Scheduling) => true,
        (JobStatus::Scheduling, JobStatus::Running) => true,
        (JobStatus::Running, JobStatus::Completed) => true,
        (JobStatus::Running, JobStatus::Failed) => true,
        (JobStatus::Running, JobStatus::Cancelled) => true,
        (JobStatus::Created, JobStatus::Cancelled) => true,
        (JobStatus::Queued, JobStatus::Cancelled) => true,
        (JobStatus::Scheduling, JobStatus::Cancelled) => true,
        (JobStatus::Failed, JobStatus::Queued) => true,
        _ => false,
    }
}

/// The status after a requested transition: the target when the lifecycle
/// allows the move, the current status otherwise.
pub open spec fn after_transition(from: JobStatus, to: JobStatus) -> JobStatus {
    if allowed(from, to) {
        to
    } else {
        from
    }
}

/// Moves a job's status to `to` when the lifecycle allows it. Staying in the
/// same state is accepted without change.
pub fn transition(status: &mut JobStatus, to: JobStatus) -> (ok: bool)
    ensures
        ok == (allowed(*old(status), to) || *old(status) == to),
        *final(status) == after_transition(*old(status), to),
{
    if can_transition(*status, to) {
        *status = to;
        true
    } else if *status == to {
        true
    } else {
        false
    }
}

// ───────────────────────── laws ─────────────────────────

/// The queue is first-in, first-out: appending an id does not change what
/// comes out next of a non-empty queue, and an id appended to an empty queue
/// is the next one out; dequeuing and appending commute on a non-empty queue.
/// An enqueue adds one to the length, a dequeue takes one off a non-empty
/// queue, and only an empty queue hands out nothing.
pub proof fn lemma_queue_fifo(q: Seq<Seq<char>>, id: Seq<char>)
    ensures
        front(enqueued(q, id)) == if q.len() == 0 {
            Some(id)
        } else {
            front(q)
        },
        q.len() > 0 ==> dequeued(enqueued(q, id)) == enqueued(dequeued(q), id),
        enqueued(q, id).len() == q.len() + 1,
        dequeued(q).len() == if q.len() > 0 {
            q.len() - 1
        } else {
            0
        },
        front(q) is None <==> q.len() == 0,
{
    if q.len() > 0 {
        assert(dequeued(enqueued(q, id)) =~= enqueued(dequeued(q), id));
    }
}

/// Ids enqueued one after the other into an empty queue come out in the
/// same order, and once they are all out the queue hands out nothing.
pub proof fn lemma_queue_order(ids: Seq<Seq<char>>)
    ensures
        forall|i: int|
            0 <= i < ids.len() ==> front(#[trigger] drain(ids, i)) == Some(ids[i]),
        front(drain(ids, ids.len() as int)) is None,
    decreases ids.len(),
{
    lemma_drain(ids, ids.len() as int);
    assert(ids.skip(ids.len() as int).len() == 0);
    assert forall|i: int| 0 <= i < ids.len() implies front(#[trigger] drain(ids, i)) == Some(ids[i]) by {
        lemma_drain(ids, i);
    }
}

/// The queue built by enqueuing `ids` into an empty queue, after `k`
/// dequeues.
pub open spec fn drain(ids: Seq<Seq<char>>, k: int) -> Seq<Seq<char>>
    decreases k,
{
    if k <= 0 {
        fill(ids)
    } else {
        dequeued(drain(ids, k - 1))
    }
}

/// The queue built by enqueuing `ids`, in order, into an empty queue.
pub open spec fn fill(ids: Seq<Seq<char>>) -> Seq<Seq<char>>
    decreases ids.len(),
{
    if ids.len() == 0 {
        Seq::empty()
    } else {
        enqueued(fill(ids.drop_last()), ids.last())
    }
}

proof fn lemma_fill(ids: Seq<Seq<char>>)
    ensures
        fill(ids) == ids,
    decreases ids.len(),
{
    if ids.len() > 0 {
        lemma_fill(ids.drop_last());
        assert(ids.drop_last().push(ids.last()) =~= ids);
    }
}

proof fn lemma_drain(ids: Seq<Seq<char>>, k: int)
    requires
        0 <= k <= ids.len(),
    ensures
        drain(ids, k) == ids.skip(k),
    decreases k,
{
    if k == 0 {
        lemma_fill(ids);
        assert(ids.skip(0) =~= ids);
    } else {
        lemma_drain(ids, k - 1);
        assert(ids.skip(k - 1).drop_first() =~= ids.skip(k));
    }
}

/// Removing an id takes out every occurrence of it and keeps the other ids
/// in their order; removing it again changes nothing.
pub proof fn lemma_remove(q: Seq<Seq<char>>, id: Seq<char>)
    ensures
        !without(q, id).contains(id),
        without(without(q, id), id) == without(q, id),
        forall|x: Seq<char>| x != id ==> (without(q, id).contains(x) <==> q.contains(x)),
        !q.contains(id) ==> without(q, id) == q,
    decreases q.len(),
{
    if q.len() > 0 {
        lemma_remove(q.drop_last(), id);
        let r = without(q.drop_last(), id);
        if q.last() != id {
            assert(without(r.push(q.last()), id) =~= without(r, id).push(q.last())) by {
                assert(r.push(q.last()).drop_last() =~= r);
            }
            assert forall|x: Seq<char>| x != id implies (r.push(q.last()).contains(x) <==> q.contains(x)) by {
                if q.contains(x) {
                    let j = choose|j: int| 0 <= j < q.len() && q[j] == x;
                    if j < q.len() - 1 {
                        assert(q.drop_last()[j] == x);
                        assert(q.drop_last().contains(x));
                    } else {
                        assert(r.push(q.last())[r.len() as int] == x);
                    }
                }
                if r.push(q.last()).contains(x) {
                    let j = choose|j: int| 0 <= j < r.len() + 1 && r.push(q.last())[j] == x;
                    if j < r.len() {
                        assert(r[j] == x);
                        assert(r.contains(x));
                        assert(q.drop_last().contains(x));
                        let t = choose|t: int| 0 <= t < q.drop_last().len() && q.drop_last()[t] == x;
                        assert(q[t] == x);
                    } else {
                        assert(q[q.len() - 1] == x);
                    }
                }
            }
            assert(!r.push(q.last()).contains(id)) by {
                if r.push(q.last()).contains(id) {
                    let j = choose|j: int| 0 <= j < r.len() + 1 && r.push(q.last())[j] == id;
                    if j < r.len() {
                        assert(r.contains(id));
                    }
                }
            }
            if !q.contains(id) {
                assert(!q.drop_last().contains(id)) by {
                    if q.drop_last().contains(id) {
                        let j = choose|j: int| 0 <= j < q.drop_last().len() && q.drop_last()[j] == id;
                        assert(q[j] == id);
                    }
                }
                assert(q.drop_last().push(q.last()) =~= q);
            }
        } else {
            assert(q.contains(id)) by {
                assert(q[q.len() - 1] == id);
            }
            assert forall|x: Seq<char>| x != id implies (r.contains(x) <==> q.contains(x)) by {
                if q.contains(x) {
                    let j = choose|j: int| 0 <= j < q.len() && q[j] == x;
                    assert(j < q.len() - 1);
                    assert(q.drop_last()[j] == x);
                }
                if q.drop_last().contains(x) {
                    let j = choose|j: int| 0 <= j < q.drop_last().len() && q.drop_last()[j] == x;
                    assert(q[j] == x);
                }
            }
        }
    }
}

/// Completed and cancelled jobs are final: no move leaves them.
pub proof fn lemma_terminal_states(to: JobStatus)
    ensures
        !allowed(JobStatus::Completed, to),
        !allowed(JobStatus::Cancelled, to),
{
}

/// No move stays in place, a failed job can only be queued again, and a job
/// completes only from running.
pub proof fn lemma_lifecycle_edges(from: JobStatus, to: JobStatus)
    ensures
        !allowed(from, from),
        allowed(JobStatus::Failed, to) ==> to == JobStatus::Queued,
        allowed(from, JobStatus::Completed) <==> from == JobStatus::Running,
        allowed(from, JobStatus::Running) <==> from == JobStatus::Scheduling,
        allowed(from, JobStatus::Cancelled) <==> (from == JobStatus::Created || from
            == JobStatus::Queued || from == JobStatus::Scheduling || from == JobStatus::Running),
{
}

/// Requesting the same transition twice has the effect of requesting it
/// once, and a transition that is accepted lands on its target.
pub proof fn lemma_transition_idempotent(from: JobStatus, to: JobStatus)
    ensures
        after_transition(after_transition(from, to), to) == after_transition(from, to),
        (allowed(from, to) || from == to) ==> after_transition(from, to) == to,
{
}

/// A job can run its whole course: each step of created, queued,
/// scheduling, running, completed is an allowed move, a failed job may be
/// queued again, and every state that is not final has a move onward that is
/// neither a failure nor a cancellation.
pub proof fn lemma_forward_path(s: JobStatus)
    ensures
        allowed(JobStatus::Created, JobStatus::Queued),
        allowed(JobStatus::Queued, JobStatus::Scheduling),
        allowed(JobStatus::Scheduling, JobStatus::Running),
        allowed(JobStatus::Running, JobStatus::Completed),
        allowed(JobStatus::Failed, JobStatus::Queued),
        s != JobStatus::Completed && s != JobStatus::Cancelled ==> exists|t: JobStatus|
            #[trigger] allowed(s, t) && t != JobStatus::Failed && t != JobStatus::Cancelled,
        after_transition(
            after_transition(
                after_transition(
                    after_transition(JobStatus::Created, JobStatus::Queued),
                    JobStatus::Scheduling,
                ),
                JobStatus::Running,
            ),
            JobStatus::Completed,
        ) == JobStatus::Completed,
{
    match s {
        JobStatus::Created => assert(allowed(s, JobStatus::Queued)),
        JobStatus::Queued => assert(allowed(s, JobStatus::Scheduling)),
        JobStatus::Scheduling => assert(allowed(s, JobStatus::Running)),
        JobStatus::Running => assert(allowed(s, JobStatus::Completed)),
        JobStatus::Failed => assert(allowed(s, JobStatus::Queued)),
        _ => {},
    }
}

} // verus!
