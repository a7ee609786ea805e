//! Decisions of the scheduler / worker process managers.

use vstd::prelude::*;

use crate::dask::types::{ComponentStatus, ProcessStatus};
use crate::text::{dec, decimal, lines, lines_of, str_eq, str_views, strip_prefix};

verus! {

/// The component status that a process poll yields (`None`: the poll failed).
pub open spec fn component_status_of(poll: Option<ProcessStatus>) -> ComponentStatus {
    match poll {
        Some(ProcessStatus::Running) | Some(ProcessStatus::Starting) => ComponentStatus::Running,
        Some(ProcessStatus::Failed) => ComponentStatus::Error,
        Some(ProcessStatus::Exited) | Some(ProcessStatus::Stopped) => ComponentStatus::Stopped,
        None => ComponentStatus::Unknown,
    }
}

pub fn component_status_for(poll: Option<ProcessStatus>) -> (r: ComponentStatus)
    ensures
        r == component_status_of(poll),
{
    match poll {
        Some(ProcessStatus::Running) | Some(ProcessStatus::Starting) => ComponentStatus::Running,
        Some(ProcessStatus::Failed) => ComponentStatus::Error,
        Some(ProcessStatus::Exited) | Some(ProcessStatus::Stopped) => ComponentStatus::Stopped,
        None => ComponentStatus::Unknown,
    }
}

/// The address local clients use to reach a scheduler bound to `host`.
pub open spec fn local_address_of(host: Seq<char>, port: u16) -> Seq<char> {
    "tcp://"@ + (if host == "0.0.0.0"@ {
        "127.0.0.1"@
    } else {
        host
    }) + ":"@ + dec(port as nat)
}

pub fn local_connect_address(host: &str, port: u16) -> (r: String)
    ensures
        r@ == local_address_of(host@, port),
{
    let mut r = String::from_str("tcp://");
    if str_eq(host, "0.0.0.0") {
        r.append("127.0.0.1");
    } else {
        r.append(host);
    }
    r.append(":");
    let p = decimal(port as u64);
    r.append(p.as_str());
    r
}

/// `s.trim_start_matches(marker)`: every leading copy of `marker` removed.
pub open spec fn strip_all_prefix(s: Seq<char>, marker: Seq<char>) -> Seq<char>
    decreases s.len(),
{
    if marker.len() > 0 && strip_prefix(s, marker) is Some {
        strip_all_prefix(s.skip(marker.len() as int), marker)
    } else {
        s
    }
}

/// The last line starting with `marker`, searching from the end.
pub open spec fn last_marked(ls: Seq<Seq<char>>, marker: Seq<char>) -> Option<Seq<char>>
    decreases ls.len(),
{
    if ls.len() == 0 {
        None
    } else if strip_prefix(ls.last(), marker) is Some {
        Some(ls.last())
    } else {
        last_marked(ls.drop_last(), marker)
    }
}

/// The JSON payload of the last `READY` line in a process's stdout tail.
pub open spec fn ready_payload_of(stdout: Seq<char>, marker: Seq<char>) -> Option<Seq<char>> {
    match last_marked(lines(stdout), marker) {
        Some(l) => Some(strip_all_prefix(l, marker)),
        None => None,
    }
}

fn strip_all_prefix_str<'a>(s: &'a str, marker: &str) -> (r: &'a str)
    ensures
        r@ == strip_all_prefix(s@, marker@),
{
    let m = crate::text::chars_of(marker);
    if m.len() == 0 {
        return s;
    }
    let mut cur = s;
    let mut n = crate::text::chars_of(s).len();
    while crate::text::starts_with(cur, marker)
        invariant
            m@ == marker@,
            m@.len() > 0,
            n == cur@.len(),
            strip_all_prefix(s@, marker@) == strip_all_prefix(cur@, marker@),
        decreases n,
    {
        cur = cur.substring_char(m.len(), n);
        n = n - m.len();
    }
    cur
}

/// The payload after the marker on the last line that starts with it.
pub fn ready_payload(stdout_tail: &str, marker: &str) -> (r: Option<String>)
    ensures
        match r {
            Some(p) => ready_payload_of(stdout_tail@, marker@) == Some(p@),
            None => ready_payload_of(stdout_tail@, marker@) is None,
        },
{
    let ls = lines_of(stdout_tail);
    let ghost all = str_views(ls@);
    let mut k = ls.len();
    assert(all.take(k as int) =~= all);
    while k > 0
        invariant
            k <= ls@.len(),
            all == str_views(ls@),
            all == lines(stdout_tail@),
            last_marked(all, marker@) == last_marked(all.take(k as int), marker@),
        decreases k,
    {
        assert(all.take(k as int).drop_last() =~= all.take(k - 1));
        assert(all.take(k as int).last() == ls@[k - 1]@);
        if crate::text::starts_with(ls[k - 1], marker) {
            let payload = strip_all_prefix_str(ls[k - 1], marker);
            return Some(String::from_str(payload));
        }
        k = k - 1;
    }
    None
}

} // verus!

use crate::text::{is_blank, trim};

verus! {

/// How many times a starting process is polled for its ready marker.
pub const READY_POLLS: u32 = 30;

/// What one poll of a starting process showed.
#[derive(Debug, Clone)]
pub enum ReadinessPoll {
    /// The ready marker is in its output.
    Ready,
    /// It failed or exited, with the error its output shows, if any.
    Exited(Option<String>),
    /// It is still starting.
    Pending,
    /// The poll itself failed.
    Unreachable,
}

/// What to do after a poll.
#[derive(Debug, Clone)]
pub enum ReadinessStep {
    Continue,
    Ready,
    Failed(String),
    TimedOut(String),
}

/// The decision after poll number `attempt` (counting from zero): ready,
/// failed with the process's own error or `exited_msg`, timed out with
/// `timeout_msg` after the last allowed poll, or poll again.
pub fn readiness_step(attempt: u32, poll: ReadinessPoll, exited_msg: &str, timeout_msg: &str) -> (s:
    ReadinessStep)
    requires
        attempt < READY_POLLS,
    ensures
        match poll {
            ReadinessPoll::Ready => s is Ready,
            ReadinessPoll::Exited(e) => s is Failed && s->Failed_0@ == match e {
                Some(m) => m@,
                None => exited_msg@,
            },
            _ => if attempt + 1 >= READY_POLLS {
                s is TimedOut && s->TimedOut_0@ == timeout_msg@
            } else {
                s is Continue
            },
        },
        attempt + 1 == READY_POLLS ==> !(s is Continue),
{
    match poll {
        ReadinessPoll::Ready => ReadinessStep::Ready,
        ReadinessPoll::Exited(e) => ReadinessStep::Failed(
            match e {
                Some(m) => m,
                None => String::from_str(exited_msg),
            },
        ),
        _ => {
            if attempt + 1 >= READY_POLLS {
                ReadinessStep::TimedOut(String::from_str(timeout_msg))
            } else {
                ReadinessStep::Continue
            }
        },
    }
}

/// The messages of a scheduler start that did not succeed: exited early,
/// and not ready in time.
pub fn scheduler_start_messages() -> (m: (&'static str, &'static str))
    ensures
        m.0@ == "Scheduler process exited before becoming ready"@,
        m.1@ == "Scheduler did not become ready in time."@,
{
    ("Scheduler process exited before becoming ready", "Scheduler did not become ready in time.")
}

/// The messages of a worker start that did not succeed: exited early, and
/// not ready in time.
pub fn worker_start_messages() -> (m: (&'static str, &'static str))
    ensures
        m.0@ == "Worker process exited before becoming ready"@,
        m.1@ == "Worker did not become ready in time. Check that the scheduler is running and reachable."@,
{
    (
        "Worker process exited before becoming ready",
        "Worker did not become ready in time. Check that the scheduler is running and reachable.",
    )
}

/// The scheduler a worker joins: the requested address unless it is blank,
/// else the configured one.
pub fn worker_scheduler_address(requested: Option<String>, configured: &str) -> (r: String)
    ensures
        r@ == match requested {
            Some(a) => if trim(a@).len() > 0 {
                a@
            } else {
                configured@
            },
            None => configured@,
        },
{
    match requested {
        Some(a) => {
            if !is_blank(a.as_str()) {
                a
            } else {
                String::from_str(configured)
            }
        },
        None => String::from_str(configured),
    }
}

/// A worker's memory limit setting: none when it is empty.
pub fn memory_limit_setting(limit: &str) -> (r: Option<String>)
    ensures
        match r {
            Some(s) => limit@.len() > 0 && s@ == limit@,
            None => limit@.len() == 0,
        },
{
    if crate::text::chars_of(limit).len() == 0 {
        None
    } else {
        Some(String::from_str(limit))
    }
}

} // verus!
