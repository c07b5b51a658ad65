//! Verified in-memory implementations of the storage contracts, for tests
//! and for embedding without a real database: an executor whose committed
//! and pending rows are plain vectors, a repository that collects events in
//! a vector, and an outbox sink that stages rows through that executor.

use vstd::prelude::*;
use crate::executor::{Executor, TxPhase};
use crate::message::Event;
use crate::outbox::{IOutBox, OutBox};
use crate::responses::BaseError;
use crate::unit_of_work::TRepository;

verus! {

/// An in-memory executor: rows made visible by commits, rows pending in the
/// open transaction, and the transaction phase.
pub struct MockDb {
    pub committed_rows: Vec<OutBox>,
    pub pending_rows: Vec<OutBox>,
    pub tx: TxPhase,
}

impl MockDb {
    /// Stages rows inside the open transaction; the sink calls this.
    pub fn stage(&mut self, mut rows: Vec<OutBox>)
        requires
            old(self).tx is Begun,
        ensures
            final(self).tx == old(self).tx,
            final(self).committed_rows == old(self).committed_rows,
            final(self).pending_rows@ == old(self).pending_rows@ + rows@,
    {
        self.pending_rows.append(&mut rows);
    }
}

impl Executor for MockDb {
    open spec fn phase(&self) -> TxPhase {
        self.tx
    }

    open spec fn stored(&self) -> Seq<OutBox> {
        self.committed_rows@
    }

    open spec fn staged(&self) -> Seq<OutBox> {
        self.pending_rows@
    }

    fn new() -> (r: MockDb) {
        MockDb { committed_rows: Vec::new(), pending_rows: Vec::new(), tx: TxPhase::NotBegun }
    }

    fn begin(&mut self) -> (r: Result<(), BaseError>) {
        self.pending_rows.clear();
        self.tx = TxPhase::Begun;
        Ok(())
    }

    fn commit(&mut self) -> (r: Result<(), BaseError>) {
        self.committed_rows.append(&mut self.pending_rows);
        self.tx = TxPhase::Committed;
        Ok(())
    }

    fn rollback(&mut self) -> (r: Result<(), BaseError>) {
        self.pending_rows.clear();
        self.tx = TxPhase::RolledBack;
        Ok(())
    }
}

/// An in-memory repository: the collected events, oldest first.
pub struct MockRepository {
    pub collected: Vec<Event>,
}

impl MockRepository {
    /// An empty repository.
    pub fn new() -> (r: MockRepository)
        ensures
            r.events() == Seq::<Event>::empty(),
    {
        MockRepository { collected: Vec::new() }
    }

    /// Records one event raised by a domain mutation.
    pub fn add_event(&mut self, event: Event)
        ensures
            final(self).events() == old(self).events().push(event),
    {
        self.collected.push(event);
    }
}

impl TRepository for MockRepository {
    open spec fn events(&self) -> Seq<Event> {
        self.collected@
    }

    fn get_events(&mut self) -> (r: Vec<Event>) {
        let mut drained: Vec<Event> = Vec::new();
        core::mem::swap(&mut drained, &mut self.collected);
        drained
    }

    fn set_events(&mut self, events: Vec<Event>) {
        self.collected = events;
    }
}

/// The in-memory outbox sink: stages rows through the [`MockDb`] executor.
pub struct MockOutBox {

}

impl IOutBox<MockDb> for MockOutBox {
    fn add(executor: &mut MockDb, outboxes: Vec<OutBox>) -> (r: Result<(), BaseError>) {
        executor.stage(outboxes);
        Ok(())
    }
}

} // verus!
