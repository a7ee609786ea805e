//! Laws over whole runs of queue calls.

use vstd::prelude::*;

use crate::jobs::queue::{dequeued, enqueued};

verus! {

/// One call on a queue: an enqueue of an id, or a dequeue.
pub enum QueueOp {
    Enqueue(Seq<char>),
    Dequeue,
}

/// The queue after one call.
pub open spec fn apply_op(q: Seq<Seq<char>>, op: QueueOp) -> Seq<Seq<char>> {
    match op {
        QueueOp::Enqueue(id) => enqueued(q, id),
        QueueOp::Dequeue => dequeued(q),
    }
}

/// The queue after a run of calls, in order.
pub open spec fn run_ops(q: Seq<Seq<char>>, ops: Seq<QueueOp>) -> Seq<Seq<char>>
    decreases ops.len(),
{
    if ops.len() == 0 {
        q
    } else {
        apply_op(run_ops(q, ops.drop_last()), ops.last())
    }
}

/// How many enqueues a run holds.
pub open spec fn enqueue_count(ops: Seq<QueueOp>) -> nat
    decreases ops.len(),
{
    if ops.len() == 0 {
        0
    } else {
        enqueue_count(ops.drop_last()) + if ops.last() is Enqueue {
            1nat
        } else {
            0nat
        }
    }
}

/// How many dequeues of a run handed out an id (found the queue non-empty).
pub open spec fn served_count(q: Seq<Seq<char>>, ops: Seq<QueueOp>) -> nat
    decreases ops.len(),
{
    if ops.len() == 0 {
        0
    } else {
        served_count(q, ops.drop_last()) + if ops.last() is Dequeue && run_ops(q, ops.drop_last()).len() > 0 {
            1nat
        } else {
            0nat
        }
    }
}

/// Over any run of enqueues and dequeues, the length grows by the enqueues
/// and shrinks by the dequeues that handed out an id: from an empty queue
/// its length is the number of enqueues less the number of successful
/// dequeues.
pub proof fn lemma_queue_len(q: Seq<Seq<char>>, ops: Seq<QueueOp>)
    ensures
        run_ops(q, ops).len() + served_count(q, ops) == q.len() + enqueue_count(ops),
    decreases ops.len(),
{
    if ops.len() > 0 {
        lemma_queue_len(q, ops.drop_last());
    }
}

} // verus!
