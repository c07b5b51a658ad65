//! The transactional executor contract the core consumes from storage
//! adapters.
//!
//! An executor owns one logical transaction at a time. Its specification
//! tracks the rows this executor has made durably visible (`stored`) and the
//! rows written inside the currently open transaction (`staged`): a commit
//! makes all staged rows visible in one step, a rollback discards them all,
//! and nothing else moves rows between the two — which is exactly the
//! atomicity the outbox mechanism rests on.

use vstd::prelude::*;
use crate::outbox::OutBox;
use crate::responses::BaseError;

verus! {

/// The transaction states of one executor: a scope is begun once, and then
/// either committed or rolled back, never both and never twice.
#[derive(Clone, Copy)]
pub enum TxPhase {
    NotBegun,
    Begun,
    Committed,
    RolledBack,
}

/// A transactional executor. `stored` and `staged` describe the rows this
/// executor's session has persisted and the rows pending in its open
/// transaction; each operation says exactly how it moves them.
pub trait Executor: Sized {
    /// Where the executor stands in its transaction lifecycle.
    spec fn phase(&self) -> TxPhase;

    /// Rows this executor has made durably visible.
    spec fn stored(&self) -> Seq<OutBox>;

    /// Rows written inside the currently open transaction, not yet visible.
    spec fn staged(&self) -> Seq<OutBox>;

    /// A fresh executor: no transaction open, nothing persisted yet by this
    /// session.
    fn new() -> (r: Self)
        ensures
            r.phase() is NotBegun,
            r.stored() == Seq::<OutBox>::empty(),
            r.staged() == Seq::<OutBox>::empty(),
    ;

    /// Opens the transaction. Failure is a storage error and leaves the
    /// executor unbegun.
    fn begin(&mut self) -> (r: Result<(), BaseError>)
        requires
            old(self).phase() is NotBegun,
        ensures
            final(self).stored() == old(self).stored(),
            final(self).staged() == Seq::<OutBox>::empty(),
            r matches Ok(_) ==> final(self).phase() is Begun,
            r matches Err(e) ==> final(self).phase() is NotBegun && e is DatabaseError,
    ;

    /// Closes the transaction, making every staged row visible together; on
    /// failure the transaction is abandoned and nothing becomes visible.
    fn commit(&mut self) -> (r: Result<(), BaseError>)
        requires
            old(self).phase() is Begun,
        ensures
            final(self).staged() == Seq::<OutBox>::empty(),
            r matches Ok(_) ==> final(self).phase() is Committed
                && final(self).stored() == old(self).stored() + old(self).staged(),
            r matches Err(e) ==> final(self).phase() is RolledBack
                && final(self).stored() == old(self).stored() && e is DatabaseError,
    ;

    /// Abandons the transaction: every staged row is discarded and nothing
    /// becomes visible, whether or not the storage layer reports success.
    fn rollback(&mut self) -> (r: Result<(), BaseError>)
        requires
            old(self).phase() is Begun,
        ensures
            final(self).phase() is RolledBack,
            final(self).stored() == old(self).stored(),
            final(self).staged() == Seq::<OutBox>::empty(),
            r matches Err(e) ==> e is DatabaseError,
    ;
}

} // verus!
