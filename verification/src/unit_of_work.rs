//! The transaction scope: one executor, one repository bound to it, and the
//! commit hook that turns collected events into outbox rows and forwarded
//! queue entries.
//!
//! A scope is begun by construction and is then committed or rolled back
//! exactly once: the terminal operations demand an open transaction, so a
//! verified caller can never reuse a closed scope. On commit, the outbox
//! rows for the externally notifiable events are staged through the same
//! executor as the business mutation and become visible with it in one
//! step; the internally notifiable events reach the context queue only
//! after the underlying commit has succeeded, so a failed transaction
//! forwards nothing. On rollback, no outbox row is written and the queue
//! receives nothing.

use vstd::prelude::*;
use crate::contexts::ContextManager;
use crate::executor::{Executor, TxPhase};
use crate::message::{internal_events, Event};
use crate::outbox::{outbox_rows_match, IOutBox, OutBox};
use crate::responses::BaseError;
use crate::snowflake::{NumericalUniqueIdGenerator, SnowFlake};

verus! {

/// The repository contract: bound to the scope's executor by the embedding
/// application, it performs aggregate retrieval and mutation, and collects
/// every event those mutations produce. The collected set can be drained and
/// replaced, which is what scope switching transplants.
pub trait TRepository: Sized {
    /// The events collected by the mutations this repository performed.
    spec fn events(&self) -> Seq<Event>;

    /// Drains the collected events, oldest first.
    fn get_events(&mut self) -> (r: Vec<Event>)
        ensures
            r@ == old(self).events(),
            final(self).events() == Seq::<Event>::empty(),
    ;

    /// Replaces the collected events.
    fn set_events(&mut self, events: Vec<Event>)
        ensures
            final(self).events() == events@,
    ;
}

/// A unit of work: the transaction scope that binds an executor and a
/// repository for the span of one command.
pub struct UnitOfWork<R, E> {
    /// Real transaction executor.
    executor: E,
    /// Event-local repository for the executor.
    pub repository: R,
}

impl<R: TRepository, E: Executor> UnitOfWork<R, E> {
    /// The bound repository, as the contracts see it.
    pub closed spec fn spec_repository(&self) -> R {
        self.repository
    }

    /// Where the scope's transaction stands.
    pub closed spec fn phase(&self) -> TxPhase {
        self.executor.phase()
    }

    /// Rows the scope's executor has made durably visible.
    pub closed spec fn stored(&self) -> Seq<OutBox> {
        self.executor.stored()
    }

    /// Rows pending in the scope's open transaction.
    pub closed spec fn staged(&self) -> Seq<OutBox> {
        self.executor.staged()
    }

    /// Opens a scope: acquires a fresh executor and begins its transaction.
    /// A failure to begin is fatal — no usable scope is handed out.
    pub fn new(repository: R) -> (r: Result<UnitOfWork<R, E>, BaseError>)
        ensures
            r matches Ok(uow) ==> uow.phase() is Begun
                && uow.stored() == Seq::<OutBox>::empty()
                && uow.staged() == Seq::<OutBox>::empty()
                && uow.spec_repository() == repository,
            r matches Err(e) ==> e is DatabaseError,
    {
        let mut executor: E = Executor::new();
        match executor.begin() {
            Ok(_) => Ok(UnitOfWork { executor, repository }),
            Err(e) => Err(e),
        }
    }

    /// Read access to the executor, for the embedding application to bind
    /// adapters to.
    pub fn executor(&self) -> (r: &E)
        ensures
            r.phase() == self.phase(),
            r.stored() == self.stored(),
            r.staged() == self.staged(),
    {
        &self.executor
    }

    /// Exclusive access to the repository for domain operations.
    pub fn repository(&mut self) -> (r: &mut R)
        ensures
            *r == old(self).spec_repository(),
            final(self).spec_repository() == *final(r),
            final(self).phase() == old(self).phase(),
            final(self).stored() == old(self).stored(),
            final(self).staged() == old(self).staged(),
    {
        &mut self.repository
    }

    /// Consumes the scope and rebinds its executor to a differently typed
    /// repository, transplanting the collected events — a multi-aggregate
    /// workflow inside one transaction, with no intermediate commit.
    pub fn switch_repository<DR: TRepository>(self, repository: DR) -> (r: UnitOfWork<DR, E>)
        ensures
            r.phase() == self.phase(),
            r.stored() == self.stored(),
            r.staged() == self.staged(),
            r.spec_repository().events() == self.spec_repository().events(),
    {
        let UnitOfWork { executor, repository: mut old_repository } = self;
        let mut repo = repository;
        let events = old_repository.get_events();
        repo.set_events(events);
        UnitOfWork { executor, repository: repo }
    }

    /// Terminal: runs the commit hook, then commits.
    ///
    /// The hook drains the collected events, stages an outbox row for each
    /// externally notifiable one through this scope's executor — atomicity
    /// with the business mutation — and, once the underlying commit has
    /// succeeded, forwards each internally notifiable one to the context
    /// queue for the bus to dispatch. On any failure the transaction is
    /// abandoned: nothing becomes visible and nothing is forwarded.
    pub fn commit<O: IOutBox<E>, C>(
        &mut self,
        context: &mut ContextManager<C>,
        generator: &NumericalUniqueIdGenerator,
        trace_id: &String,
    ) -> (r: Result<(), BaseError>)
        requires
            old(self).phase() is Begun,
            generator.wf(),
        ensures
            final(self).spec_repository().events() == Seq::<Event>::empty(),
            final(self).staged() == Seq::<OutBox>::empty(),
            r matches Ok(_) ==> ({
                &&& final(self).phase() is Committed
                &&& exists|rows: Seq<OutBox>|
                    (#[trigger] outbox_rows_match(old(self).spec_repository().events(), rows, trace_id@))
                        && final(self).stored() == old(self).stored() + old(self).staged() + rows
                &&& final(context).event_queue@ == old(context).event_queue@
                    + internal_events(old(self).spec_repository().events())
                &&& final(context).conn == old(context).conn
            }),
            r matches Err(e) ==> final(self).phase() is RolledBack
                && final(self).stored() == old(self).stored()
                && *final(context) == *old(context)
                && e is DatabaseError,
    {
        let ghost all_events = self.repository.events();
        let events = self.repository.get_events();
        let (outboxes, internals) = outbox_rows_for(events, generator, trace_id);

        let ghost rows = outboxes@;
        let ghost stored_before = self.executor.stored();
        let ghost staged_before = self.executor.staged();
        match O::add(&mut self.executor, outboxes) {
            Ok(_) => {}
            Err(e) => {
                let _discarded = self.executor.rollback();
                return Err(e);
            }
        }

        match self.executor.commit() {
            Ok(_) => {}
            Err(e) => {
                return Err(e);
            }
        }
        proof {
            assert(outbox_rows_match(all_events, rows, trace_id@)
                && self.executor.stored() == stored_before + staged_before + rows);
            assert(exists|witness: Seq<OutBox>|
                (#[trigger] outbox_rows_match(all_events, witness, trace_id@))
                    && self.executor.stored() == stored_before + staged_before + witness);
        }

        context.push_back_all(&internals);
        Ok(())
    }

    /// Terminal: abandons the transaction. The repository's collected state
    /// is discarded, outbox writes are never attempted, and the queue
    /// receives no forwarded events.
    pub fn rollback(&mut self) -> (r: Result<(), BaseError>)
        requires
            old(self).phase() is Begun,
        ensures
            final(self).phase() is RolledBack,
            final(self).stored() == old(self).stored(),
            final(self).staged() == Seq::<OutBox>::empty(),
            final(self).spec_repository().events() == Seq::<Event>::empty(),
            r matches Err(e) ==> e is DatabaseError,
    {
        let _discarded = self.repository.get_events();
        self.executor.rollback()
    }
}

/// The effects the commit hook owes for a batch of drained events: one
/// outbox row for each externally notifiable event, in order, fresh and
/// unprocessed under ids from the generator and the given trace; and the
/// internally notifiable events owed forwarding through the context queue,
/// in order.
pub fn outbox_rows_for(events: Vec<Event>, generator: &NumericalUniqueIdGenerator, trace_id: &String) -> (r: (Vec<OutBox>, Vec<Event>))
    requires
        generator.wf(),
    ensures
        outbox_rows_match(events@, r.0@, trace_id@),
        r.1@ == internal_events(events@),
{
    let ghost all_events = events@;
    let mut events = events;
    let mut outboxes: Vec<OutBox> = Vec::new();
    let mut internals: Vec<Event> = Vec::new();
    let ghost n: int = events@.len() as int;

    while events.len() > 0
        invariant
            all_events.len() == n,
            events@.len() <= n,
            events@ =~= all_events.subrange(n - events@.len(), n),
            outbox_rows_match(all_events.subrange(0, n - events@.len()), outboxes@, trace_id@),
            internals@ =~= internal_events(all_events.subrange(0, n - events@.len())),
            generator.wf(),
        decreases events@.len(),
    {
        let ghost done: int = n - events@.len();
        let event = events.remove(0);
        proof {
            assert(0 <= done < n);
            assert(event == all_events[done]);
            assert(all_events.subrange(0, done + 1).drop_last() =~= all_events.subrange(0, done));
            assert(all_events.subrange(0, done + 1).last() == event);
            assert(events@ =~= all_events.subrange(done + 1, n));
        }
        if event.externally_notifiable {
            let id = SnowFlake::generate(generator);
            outboxes.push(OutBox::from_event(&event, id, trace_id));
        }
        if event.internally_notifiable {
            internals.push(event);
        }
    }
    proof {
        assert(all_events.subrange(0, n) =~= all_events);
    }
    (outboxes, internals)
}

} // verus!
