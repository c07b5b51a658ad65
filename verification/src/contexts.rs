//! The per-request execution context: a FIFO queue of pending events and a
//! borrowed connection handle.
//!
//! One context lives for one top-level command or externally delivered
//! event. Business logic pushes events at the back; the bus drains from the
//! front, so cascades of any depth are delivered strictly in enqueue order.
//! Sharing the context across tasks (reference counting and locking) is left
//! to the embedding application; the context itself is plain data.

use vstd::prelude::*;
use std::collections::VecDeque;
use crate::message::Event;

verus! {

/// Task-local context: the pending event queue and the borrowed connection
/// handle, opaque to the bus.
pub struct ContextManager<C> {
    pub event_queue: VecDeque<Event>,
    pub conn: C,
}

impl<C> ContextManager<C> {
    /// A fresh context with an empty queue around the given connection.
    pub fn new(conn: C) -> (r: ContextManager<C>)
        ensures
            r.event_queue@ == Seq::<Event>::empty(),
            r.conn == conn,
    {
        ContextManager { event_queue: VecDeque::new(), conn }
    }

    /// Appends an event at the back of the queue.
    pub fn push_back(&mut self, event: Event)
        ensures
            final(self).event_queue@ == old(self).event_queue@.push(event),
            final(self).conn == old(self).conn,
    {
        self.event_queue.push_back(event);
    }

    /// Takes the oldest pending event, if any.
    pub fn pop_front(&mut self) -> (r: Option<Event>)
        ensures
            match r {
                Some(e) => old(self).event_queue@.len() > 0 && e == old(self).event_queue@[0]
                    && final(self).event_queue@ == old(self).event_queue@.drop_first(),
                None => old(self).event_queue@.len() == 0 && final(self).event_queue@ == old(self).event_queue@,
            },
            final(self).conn == old(self).conn,
    {
        self.event_queue.pop_front()
    }

    /// Appends a batch of events at the back of the queue, in order.
    pub fn push_back_all(&mut self, events: &Vec<Event>)
        ensures
            final(self).event_queue@ == old(self).event_queue@ + events@,
            final(self).conn == old(self).conn,
    {
        let ghost queue_before = self.event_queue@;
        let count = events.len();
        let mut k: usize = 0;
        while k < count
            invariant
                count == events@.len(),
                0 <= k <= count,
                self.event_queue@ =~= queue_before + events@.subrange(0, k as int),
                self.conn == old(self).conn,
            decreases count - k,
        {
            let event = events[k].message_clone();
            self.event_queue.push_back(event);
            proof {
                assert(events@.subrange(0, k + 1).drop_last() =~= events@.subrange(0, k as int));
            }
            k = k + 1;
        }
        proof {
            assert(events@.subrange(0, count as int) =~= events@);
        }
    }

    /// Read access to the borrowed connection handle.
    pub fn conn(&self) -> (r: &C)
        ensures
            *r == self.conn,
    {
        &self.conn
    }

    /// Whether no event is pending.
    pub fn is_empty(&self) -> (r: bool)
        ensures
            r == (self.event_queue@.len() == 0),
    {
        self.event_queue.len() == 0
    }
}

} // verus!
