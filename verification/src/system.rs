//! System status summaries.

use vstd::prelude::*;

use crate::jobs::models::JobStatus;
use crate::nodes::NodeStatus;

verus! {

#[derive(Debug, Clone, Copy, PartialEq, Eq, Structural)]
pub enum ServiceStatus {
    Healthy,
    Degraded,
    Down,
}

#[derive(Debug, Clone, Copy, PartialEq, Eq, Structural)]
pub struct SystemStatus {
    pub api: ServiceStatus,
    pub storage: ServiceStatus,
    pub networking: ServiceStatus,
    pub plugin_manager: ServiceStatus,
}

pub fn mock_system_status() -> (s: SystemStatus)
    ensures
        s == (SystemStatus {
            api: ServiceStatus::Healthy,
            storage: ServiceStatus::Healthy,
            networking: ServiceStatus::Degraded,
            plugin_manager: ServiceStatus::Healthy,
        }),
{
    SystemStatus {
        api: ServiceStatus::Healthy,
        storage: ServiceStatus::Healthy,
        networking: ServiceStatus::Degraded,
        plugin_manager: ServiceStatus::Healthy,
    }
}

/// Number of `true` answers.
pub open spec fn count_true(answers: Seq<bool>) -> nat
    decreases answers.len(),
{
    if answers.len() == 0 {
        0
    } else {
        count_true(answers.drop_last()) + if answers.last() {
            1nat
        } else {
            0nat
        }
    }
}

/// How many items the predicate accepts, as a `u32` (wrapping past `u32::MAX`,
/// as the `as u32` of a count does). `answers` are the predicate's replies, one
/// per item, in order.
pub fn count_by_status<T, F: Fn(&T) -> bool>(items: &[T], predicate: F) -> (r: u32)
    requires
        forall|i: int| 0 <= i < items@.len() ==> predicate.requires((&items@[i],)),
    ensures
        exists|answers: Seq<bool>|
            {
                &&& answers.len() == items@.len()
                &&& forall|i: int|
                    0 <= i < items@.len() ==> predicate.ensures((&items@[i],), #[trigger] answers[i])
                &&& r as nat == count_true(answers) % 0x1_0000_0000
            },
{
    let mut count: u32 = 0;
    let ghost mut answers: Seq<bool> = Seq::empty();
    let mut i: usize = 0;
    while i < items.len()
        invariant
            i <= items@.len(),
            answers.len() == i,
            forall|k: int| 0 <= k < items@.len() ==> predicate.requires((&items@[k],)),
            forall|k: int| 0 <= k < i ==> predicate.ensures((&items@[k],), #[trigger] answers[k]),
            count as nat == count_true(answers) % 0x1_0000_0000,
        decreases items@.len() - i,
    {
        let b = predicate(&items[i]);
        let ghost before = count_true(answers);
        proof {
            let prev = answers;
            answers = answers.push(b);
            assert(answers.drop_last() =~= prev);
        }
        if b {
            proof {
                let c = count as int;
                let t = before as int;
                assert((t + 1) % 0x1_0000_0000 == if c + 1 == 0x1_0000_0000 {
                    0
                } else {
                    c + 1
                }) by (nonlinear_arith)
                    requires
                        c == t % 0x1_0000_0000,
                        0 <= c < 0x1_0000_0000,
                        t >= 0,
                ;
            }
            count = count.wrapping_add(1);
        }
        i = i + 1;
    }
    count
}

pub open spec fn online(status: NodeStatus) -> bool {
    status == NodeStatus::Online || status == NodeStatus::Degraded
}

pub fn node_is_online(status: &NodeStatus) -> (b: bool)
    ensures
        b == online(*status),
{
    match status {
        NodeStatus::Online | NodeStatus::Degraded => true,
        _ => false,
    }
}

/// A job that has not finished yet: running, or waiting to run.
pub open spec fn active(status: JobStatus) -> bool {
    match status {
        JobStatus::Created | JobStatus::Queued | JobStatus::Scheduling | JobStatus::Running => true,
        _ => false,
    }
}

pub fn job_is_active(status: &JobStatus) -> (b: bool)
    ensures
        b == active(*status),
{
    match status {
        JobStatus::Created | JobStatus::Queued | JobStatus::Scheduling | JobStatus::Running => true,
        _ => false,
    }
}

} // verus!
