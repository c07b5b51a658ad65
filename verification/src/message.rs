//! Events and commands as the bus carries them.
//!
//! An event is a plain tagged message: routing metadata, a serialized state
//! snapshot, and two independent notifiability capabilities. Application
//! event types implement [`TEvent`] and are turned into [`Event`] messages;
//! a handler registered for a topic recovers the concrete form from the
//! topic tag and the state snapshot, an explicit fallible cast rather than a
//! reflective one.

use vstd::prelude::*;

verus! {

/// Routing data carried by every event: the identity and name of the
/// aggregate that raised it, and the symbolic topic that keys handler
/// lookup.
pub struct EventMetadata {
    pub aggregate_id: String,
    pub aggregate_name: String,
    pub topic: String,
}

impl EventMetadata {
    /// A field-for-field copy.
    pub fn message_clone(&self) -> (r: EventMetadata)
        ensures
            r == *self,
    {
        EventMetadata {
            aggregate_id: self.aggregate_id.clone(),
            aggregate_name: self.aggregate_name.clone(),
            topic: self.topic.clone(),
        }
    }
}

/// An event message: metadata, a serialized state snapshot, and the two
/// notifiability capabilities.
pub struct Event {
    pub metadata: EventMetadata,
    /// Serialized snapshot of the aggregate state, recorded for outboxing.
    pub state: String,
    /// Whether the event is handled in process by the handler group
    /// registered for its topic.
    pub internally_notifiable: bool,
    /// Whether the event is recorded as an outbox row inside the same
    /// transaction as the mutation that raised it.
    pub externally_notifiable: bool,
}

impl Event {
    /// A field-for-field copy.
    pub fn message_clone(&self) -> (r: Event)
        ensures
            r == *self,
    {
        Event {
            metadata: self.metadata.message_clone(),
            state: self.state.clone(),
            internally_notifiable: self.internally_notifiable,
            externally_notifiable: self.externally_notifiable,
        }
    }
}

/// Interface of application event types: each declares its notifiability
/// capabilities, its routing metadata, and a serialized state snapshot.
pub trait TEvent {
    /// Whether the event asks for an outbox row.
    spec fn spec_externally_notifiable(&self) -> bool;

    /// Whether the event asks for in-process handling.
    spec fn spec_internally_notifiable(&self) -> bool;

    /// The routing metadata, as (aggregate id, aggregate name, topic).
    spec fn spec_metadata(&self) -> (Seq<char>, Seq<char>, Seq<char>);

    /// The serialized state snapshot.
    spec fn spec_state(&self) -> Seq<char>;

    fn externally_notifiable(&self) -> (r: bool)
        ensures
            r == self.spec_externally_notifiable(),
    ;

    fn internally_notifiable(&self) -> (r: bool)
        ensures
            r == self.spec_internally_notifiable(),
    ;

    fn metadata(&self) -> (r: EventMetadata)
        ensures
            (r.aggregate_id@, r.aggregate_name@, r.topic@) == self.spec_metadata(),
    ;

    fn state(&self) -> (r: String)
        ensures
            r@ == self.spec_state(),
    ;
}

/// Turns an application event into the plain message the bus carries.
pub fn to_message<T: TEvent>(event: &T) -> (r: Event)
    ensures
        (r.metadata.aggregate_id@, r.metadata.aggregate_name@, r.metadata.topic@) == event.spec_metadata(),
        r.state@ == event.spec_state(),
        r.internally_notifiable == event.spec_internally_notifiable(),
        r.externally_notifiable == event.spec_externally_notifiable(),
{
    Event {
        metadata: event.metadata(),
        state: event.state(),
        internally_notifiable: event.internally_notifiable(),
        externally_notifiable: event.externally_notifiable(),
    }
}

/// Every event message carries the event interface itself, so a message can
/// stand wherever an application event can.
impl TEvent for Event {
    open spec fn spec_externally_notifiable(&self) -> bool {
        self.externally_notifiable
    }

    open spec fn spec_internally_notifiable(&self) -> bool {
        self.internally_notifiable
    }

    open spec fn spec_metadata(&self) -> (Seq<char>, Seq<char>, Seq<char>) {
        (self.metadata.aggregate_id@, self.metadata.aggregate_name@, self.metadata.topic@)
    }

    open spec fn spec_state(&self) -> Seq<char> {
        self.state@
    }

    fn externally_notifiable(&self) -> (r: bool) {
        self.externally_notifiable
    }

    fn internally_notifiable(&self) -> (r: bool) {
        self.internally_notifiable
    }

    fn metadata(&self) -> (r: EventMetadata) {
        self.metadata.message_clone()
    }

    fn state(&self) -> (r: String) {
        self.state.clone()
    }
}

/// Marker interface of commands: a command enters the bus, is routed to the
/// one handler bound to its type, and yields a response or an error.
pub trait TCommand: Send + Sync {

}

/// The externally notifiable events among `events`, in order: those owed an
/// outbox row.
pub open spec fn external_events(events: Seq<Event>) -> Seq<Event>
    decreases events.len(),
{
    if events.len() == 0 {
        Seq::empty()
    } else if events.last().externally_notifiable {
        external_events(events.drop_last()).push(events.last())
    } else {
        external_events(events.drop_last())
    }
}

/// The internally notifiable events among `events`, in order: those owed
/// in-process delivery through the context queue.
pub open spec fn internal_events(events: Seq<Event>) -> Seq<Event>
    decreases events.len(),
{
    if events.len() == 0 {
        Seq::empty()
    } else if events.last().internally_notifiable {
        internal_events(events.drop_last()).push(events.last())
    } else {
        internal_events(events.drop_last())
    }
}

} // verus!
