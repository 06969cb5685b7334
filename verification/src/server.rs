//! The dissemination policy: what a subscriber's forwarding task does with
//! each event its summary cursor yields.  The streaming transport itself is
//! outside the core and lives with the task wiring.

use vstd::prelude::*;

use crate::orderbook::Summary;
use crate::shutdown;

verus! {

/// The service boundary's task state: its handle on the shutdown
/// coordinator.
pub struct Server {
    pub shutdown_rx: shutdown::Receiver,
}

/// One event on a subscriber's summary cursor.
pub enum ForwardEvent {
    /// The next summary, in publish order.
    Received(Summary),
    /// The cursor fell behind and intermediate summaries were recycled.
    Lagged,
    /// The publish side is gone.
    Closed,
}

/// What the forwarding task does next.
pub enum ForwardAction {
    /// Hand this summary to the subscriber.
    Deliver(Summary),
    /// Log and keep reading: the subscriber continues from the next
    /// available summary, since each one is a complete snapshot.
    Skip,
    /// Retire this subscriber's task; others are unaffected.
    Stop,
}

/// A lagging cursor is logged and skips ahead, never retired; only a
/// closed channel ends the task.  Summaries that do arrive are delivered
/// unchanged, in the order received.
pub fn forward_step(ev: ForwardEvent) -> (a: ForwardAction)
    ensures
        ev matches ForwardEvent::Received(s) ==> a == ForwardAction::Deliver(s),
        ev is Lagged ==> a is Skip,
        ev is Closed ==> a is Stop,
{
    match ev {
        ForwardEvent::Received(s) => ForwardAction::Deliver(s),
        ForwardEvent::Lagged => ForwardAction::Skip,
        ForwardEvent::Closed => ForwardAction::Stop,
    }
}

} // verus!
