//! Coordination between gateway nodes: the events that are broadcast
//! (session invalidation, WAF rule changes), the bus interface with its
//! single-node no-op form, the fan-out of a received event to the local
//! handlers, and the reconnect backoff of a subscriber.
use vstd::prelude::*;

verus! {

/// An event shared between nodes.
#[derive(Debug, Clone)]
pub enum BusEvent {
    /// Drop every session of this user.
    SessionInvalidateUser { user_id: String },
    /// Drop the session with this token digest.
    SessionInvalidateToken { hashed_token: String },
    /// A custom WAF rule was added.
    WafRuleAdded { id: u64, pattern: String, label: String },
    /// A custom WAF rule was removed.
    WafRuleRemoved { id: u64 },
}

/// A bus that events are published on.
pub trait XiraBus {
    /// Broadcasts an event; failures are not reported back.
    fn publish(&self, event: &BusEvent);

    /// What kind of bus this is.
    fn kind(&self) -> &'static str;
}

/// The bus of a single-node deployment: publishing does nothing.
pub struct NoOpBus;

impl XiraBus for NoOpBus {
    fn publish(&self, event: &BusEvent) {
    }

    fn kind(&self) -> (k: &'static str)
        ensures
            k@ == "noop"@,
    {
        "noop"
    }
}

/// A receiver of events from the bus.
pub trait BusEventHandler {
    /// Applies one event to local state.
    fn handle(&self, event: BusEvent);
}

/// Hands every received event to each registered handler, in order.
pub struct EventDispatcher {
    handlers: Vec<Box<dyn BusEventHandler>>,
}

impl EventDispatcher {
    /// A dispatcher over these handlers.
    pub fn new(handlers: Vec<Box<dyn BusEventHandler>>) -> (d: Self)
        ensures
            d.handler_count() == handlers@.len(),
    {
        EventDispatcher { handlers }
    }

    /// The number of handlers.
    pub closed spec fn handler_count(&self) -> nat {
        self.handlers@.len()
    }

    /// Gives each handler its own copy of the event.
    pub fn dispatch(&self, event: BusEvent) {
        let mut i: usize = 0;
        while i < self.handlers.len()
            invariant
                i <= self.handlers@.len(),
            decreases self.handlers@.len() - i,
        {
            self.handlers[i].handle(event.clone());
            i = i + 1;
        }
    }
}

/// The wait after a failed reconnect that waited `secs`.
pub open spec fn backoff_after(secs: int) -> int {
    if 2 * secs < 30 {
        2 * secs
    } else {
        30
    }
}

/// The wait before the next reconnect of a failed subscriber: doubled each
/// time, at most thirty seconds.
pub fn next_backoff(secs: u64) -> (n: u64)
    ensures
        n == backoff_after(secs as int),
{
    if secs < 15 {
        secs * 2
    } else {
        30
    }
}

/// Starting from one second, the subscriber's wait grows with each failure
/// and never passes thirty seconds.
pub proof fn law_backoff_bounded(secs: int)
    requires
        1 <= secs <= 30,
    ensures
        secs <= backoff_after(secs) <= 30,
{
}

} // verus!
