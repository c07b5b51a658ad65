//! The transactional outbox: durable records of externally notifiable
//! events, written inside the same transaction as the mutation that raised
//! them and relayed to the outside by a separate process.

use vstd::prelude::*;
use crate::executor::{Executor, TxPhase};
use crate::message::Event;
use crate::responses::BaseError;
use crate::snowflake::SnowFlake;

verus! {

/// One pending externally notifiable event, keyed by a snowflake id. An
/// external relay later flips `processed`; the core only ever writes fresh
/// rows with `processed` false.
pub struct OutBox {
    pub id: i64,
    pub aggregate_id: String,
    pub aggregate_name: String,
    pub topic: String,
    pub state: String,
    pub processed: bool,
    /// Creation instant in milliseconds since the UNIX epoch; left at the
    /// default instant for the storage layer to stamp.
    pub create_dt: i64,
    pub trace_id: String,
}

impl OutBox {
    /// A fresh, unprocessed row under the given id.
    pub fn new(
        id: SnowFlake,
        aggregate_id: String,
        aggregate_name: String,
        topic: String,
        state: String,
        trace_id: String,
    ) -> (r: OutBox)
        ensures
            r.id == id.0,
            r.aggregate_id == aggregate_id,
            r.aggregate_name == aggregate_name,
            r.topic == topic,
            r.state == state,
            r.processed == false,
            r.create_dt == 0,
            r.trace_id == trace_id,
    {
        OutBox {
            id: id.0,
            aggregate_id,
            aggregate_name,
            topic,
            state,
            processed: false,
            create_dt: 0,
            trace_id,
        }
    }

    /// Builds the row for one event: the event's routing metadata and state
    /// snapshot under a fresh id, not yet processed.
    pub fn from_event(event: &Event, id: SnowFlake, trace_id: &String) -> (r: OutBox)
        ensures
            outbox_row_matches(r, *event, trace_id@),
    {
        OutBox::new(
            id,
            event.metadata.aggregate_id.clone(),
            event.metadata.aggregate_name.clone(),
            event.metadata.topic.clone(),
            event.state.clone(),
            trace_id.clone(),
        )
    }
}

/// The row records exactly the given event under the given trace, fresh and
/// unprocessed.
pub open spec fn outbox_row_matches(row: OutBox, event: Event, trace_id: Seq<char>) -> bool {
    &&& row.aggregate_id@ == event.metadata.aggregate_id@
    &&& row.aggregate_name@ == event.metadata.aggregate_name@
    &&& row.topic@ == event.metadata.topic@
    &&& row.state@ == event.state@
    &&& row.processed == false
    &&& row.trace_id@ == trace_id
}

/// The rows record exactly the externally notifiable events among `events`,
/// in order.
pub open spec fn outbox_rows_match(events: Seq<Event>, rows: Seq<OutBox>, trace_id: Seq<char>) -> bool {
    let external = crate::message::external_events(events);
    &&& rows.len() == external.len()
    &&& forall|i: int| 0 <= i < rows.len() ==> outbox_row_matches(#[trigger] rows[i], external[i], trace_id)
}

/// The outbox sink contract: given the executor of the currently open
/// transaction and a batch of rows, it stages them durably within that
/// transaction — they become visible exactly when the transaction commits.
pub trait IOutBox<E: Executor> {
    fn add(executor: &mut E, outboxes: Vec<OutBox>) -> (r: Result<(), BaseError>)
        requires
            old(executor).phase() is Begun,
        ensures
            final(executor).phase() is Begun,
            final(executor).stored() == old(executor).stored(),
            r matches Ok(_) ==> final(executor).staged() == old(executor).staged() + outboxes@,
            r matches Err(e) ==> final(executor).staged() == old(executor).staged() && e is DatabaseError,
    ;
}

} // verus!
