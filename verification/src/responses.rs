//! The base error taxonomy shared by command and event handlers.

use vstd::prelude::*;
use crate::message::Event;

verus! {

/// The base set of handler outcomes that the bus interprets.
///
/// The two stop sentinels are in-band control flow, not failures: a
/// sequential handler group halts on either, and the second also re-enqueues
/// its payload as a compensating event. The remaining variants are true
/// errors: a wrapped storage failure, a missing handler registration, and a
/// wrapped generic service failure.
pub enum BaseError {
    /// Intentional short-circuit of a sequential handler group.
    StopSentinel,
    /// Short-circuit carrying a compensating event.
    StopSentinelWithEvent(Event),
    /// Wrapped connection or transaction failure.
    DatabaseError(String),
    /// Wrapped generic handler failure.
    ServiceError,
    /// No handler group is registered for the topic.
    NotFound,
}

} // verus!
