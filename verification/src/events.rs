//! Strongly typed cluster events and the bounded event history.

use vstd::prelude::*;

verus! {

/// Strongly typed cluster events for the internal event bus.
#[derive(Debug, Clone, PartialEq, Eq)]
pub enum ClusterEvent {
    NodeConnected { node_id: String },
    NodeDisconnected { node_id: String },
    PluginInstalled { plugin_id: String },
    PluginRemoved { plugin_id: String },
    JobStarted { job_id: String },
    JobFinished { job_id: String, success: bool },
    MetricUpdated { metric_name: String },
}

impl ClusterEvent {
    /// A copy of the event.
    pub fn duplicate(&self) -> (r: ClusterEvent)
        ensures
            r == *self,
    {
        match self {
            ClusterEvent::NodeConnected { node_id } => ClusterEvent::NodeConnected {
                node_id: node_id.clone(),
            },
            ClusterEvent::NodeDisconnected { node_id } => ClusterEvent::NodeDisconnected {
                node_id: node_id.clone(),
            },
            ClusterEvent::PluginInstalled { plugin_id } => ClusterEvent::PluginInstalled {
                plugin_id: plugin_id.clone(),
            },
            ClusterEvent::PluginRemoved { plugin_id } => ClusterEvent::PluginRemoved {
                plugin_id: plugin_id.clone(),
            },
            ClusterEvent::JobStarted { job_id } => ClusterEvent::JobStarted { job_id: job_id.clone() },
            ClusterEvent::JobFinished { job_id, success } => ClusterEvent::JobFinished {
                job_id: job_id.clone(),
                success: *success,
            },
            ClusterEvent::MetricUpdated { metric_name } => ClusterEvent::MetricUpdated {
                metric_name: metric_name.clone(),
            },
        }
    }
}

/// Receives every published event.
pub trait EventHandler {
    fn handle(&self, event: &ClusterEvent);
}

/// The last `max` entries of `s` (all of it when it is shorter).
pub open spec fn keep_last(s: Seq<ClusterEvent>, max: nat) -> Seq<ClusterEvent> {
    if s.len() > max {
        s.skip(s.len() - max)
    } else {
        s
    }
}

/// Publish/subscribe event bus that remembers the most recent events.
pub struct EventBus {
    history: Vec<ClusterEvent>,
    max_history: usize,
}

impl EventBus {
    /// The remembered events, oldest first.
    pub closed spec fn history(&self) -> Seq<ClusterEvent> {
        self.history@
    }

    /// How many events are remembered at most.
    pub closed spec fn capacity(&self) -> nat {
        self.max_history as nat
    }

    pub closed spec fn wf(&self) -> bool {
        self.history@.len() <= self.max_history
    }

    pub fn new(max_history: usize) -> (b: EventBus)
        ensures
            b.wf(),
            b.history() == Seq::<ClusterEvent>::empty(),
            b.capacity() == max_history,
    {
        EventBus { history: Vec::new(), max_history }
    }

    /// Records an event; the oldest ones are dropped beyond the capacity.
    pub fn publish(&mut self, event: ClusterEvent)
        requires
            old(self).wf(),
        ensures
            final(self).wf(),
            final(self).capacity() == old(self).capacity(),
            final(self).history() == keep_last(old(self).history().push(event), old(self).capacity()),
    {
        self.history.push(event);
        let len = self.history.len();
        if len > self.max_history {
            let drain_count = len - self.max_history;
            let mut kept: Vec<ClusterEvent> = Vec::new();
            let mut i = drain_count;
            while i < len
                invariant
                    drain_count <= i <= len == self.history@.len(),
                    kept@ == self.history@.subrange(drain_count as int, i as int),
                decreases len - i,
            {
                kept.push(self.history[i].duplicate());
                assert(kept@ =~= self.history@.subrange(drain_count as int, i + 1));
                i = i + 1;
            }
            assert(kept@ =~= self.history@.skip(drain_count as int));
            self.history = kept;
        }
    }

    /// The last `limit` events (all of them when fewer are remembered).
    pub fn recent_events(&self, limit: usize) -> (r: Vec<ClusterEvent>)
        ensures
            r@ == keep_last(self.history(), limit as nat),
    {
        let len = self.history.len();
        let start = if limit >= len {
            0
        } else {
            len - limit
        };
        let mut r: Vec<ClusterEvent> = Vec::new();
        let mut i = start;
        while i < len
            invariant
                start <= i <= len == self.history@.len(),
                r@ == self.history@.subrange(start as int, i as int),
            decreases len - i,
        {
            r.push(self.history[i].duplicate());
            assert(r@ =~= self.history@.subrange(start as int, i + 1));
            i = i + 1;
        }
        assert(r@ =~= keep_last(self.history(), limit as nat));
        r
    }
}

impl Default for EventBus {
    fn default() -> (b: EventBus)
        ensures
            b.wf(),
            b.history() == Seq::<ClusterEvent>::empty(),
            b.capacity() == 100,
    {
        EventBus::new(100)
    }
}

/// Publishing keeps at most `capacity` events, the newest one last: with
/// room for at least one event, the history after a publish ends with that
/// event and holds the older events that still fit, in order.
pub proof fn lemma_publish_keeps_latest(h: Seq<ClusterEvent>, e: ClusterEvent, capacity: nat)
    requires
        capacity > 0,
    ensures
        keep_last(h.push(e), capacity).len() == if h.len() + 1 > capacity {
            capacity
        } else {
            h.len() + 1
        },
        keep_last(h.push(e), capacity).last() == e,
        keep_last(h.push(e), capacity).drop_last() == keep_last(h, (capacity - 1) as nat),
{
    let k = keep_last(h.push(e), capacity);
    if h.len() + 1 > capacity {
        assert(k.drop_last() =~= keep_last(h, (capacity - 1) as nat));
    } else {
        assert(k.drop_last() =~= h);
    }
}

/// The recent events are the newest ones, oldest first: asking for `n`
/// gives the last `n` events of the history, or all of them when there are
/// fewer.
pub proof fn lemma_recent_events(h: Seq<ClusterEvent>, n: nat)
    ensures
        keep_last(h, n).len() == if h.len() > n {
            n
        } else {
            h.len()
        },
        forall|i: int|
            0 <= i < keep_last(h, n).len() ==> #[trigger] keep_last(h, n)[i] == h[h.len()
                - keep_last(h, n).len() + i],
{
}

} // verus!
