//! The message bus: routes a command to its handler inside a transaction
//! scope, then drains the context queue through registered event-handler
//! groups, strictly in enqueue order, until it is empty.
//!
//! Event delivery is best effort: handler failures are recorded in the
//! returned trace and never flow back into the command's result. Two group
//! kinds exist — sequential groups run handlers in registration order and
//! honor the stop sentinels; fan-out groups deliver to every handler and
//! only record failures.

use vstd::prelude::*;
use crate::contexts::ContextManager;
use crate::executor::{Executor, TxPhase};
use crate::message::{internal_events, Event, TCommand};
use crate::outbox::{outbox_rows_match, IOutBox, OutBox};
use crate::responses::BaseError;
use crate::snowflake::{NumericalUniqueIdGenerator, SnowFlake};
use crate::unit_of_work::{TRepository, UnitOfWork};

verus! {

/// A handler group for one topic: either sequential (registration order,
/// stop sentinels honored) or fan-out (all handlers, best effort).
pub enum EventHandlers<H> {
    Sync(Vec<H>),
    Async(Vec<H>),
}

/// The event-handler registry: topics mapped to handler groups.
pub struct TEventHandler<H> {
    entries: Vec<(String, EventHandlers<H>)>,
}

/// First-match lookup in the entry list; later shadowed entries are
/// unreachable, so an insert at the front is a replacement.
pub closed spec fn lookup_in<H>(entries: Seq<(String, EventHandlers<H>)>, topic: Seq<char>) -> Option<EventHandlers<H>>
    decreases entries.len(),
{
    if entries.len() == 0 {
        None::<EventHandlers<H>>
    } else if entries[0].0@ == topic {
        Some(entries[0].1)
    } else {
        lookup_in(entries.drop_first(), topic)
    }
}

impl<H> TEventHandler<H> {
    /// The group registered for a topic, if any.
    pub closed spec fn lookup(&self, topic: Seq<char>) -> Option<EventHandlers<H>> {
        lookup_in(self.entries@, topic)
    }

    /// An empty registry.
    pub fn new() -> (r: TEventHandler<H>)
        ensures
            forall|topic: Seq<char>| r.lookup(topic) is None,
    {
        TEventHandler { entries: Vec::new() }
    }

    /// Registers (or replaces) the handler group for a topic.
    pub fn insert(&mut self, topic: String, handlers: EventHandlers<H>)
        ensures
            final(self).lookup(topic@) == Some(handlers),
            forall|other: Seq<char>| other != topic@ ==> final(self).lookup(other) == old(self).lookup(other),
    {
        self.entries.insert(0, (topic, handlers));
        proof {
            assert(self.entries@.drop_first() =~= old(self).entries@);
        }
    }

    /// Looks up the handler group for a topic.
    pub fn get(&self, topic: &String) -> (r: Option<&EventHandlers<H>>)
        ensures
            match r {
                Some(group) => self.lookup(topic@) == Some(*group),
                None => self.lookup(topic@) is None,
            },
    {
        let count = self.entries.len();
        proof {
            assert(self.entries@.subrange(0, count as int) =~= self.entries@);
        }
        let mut i: usize = 0;
        while i < count
            invariant
                count == self.entries@.len(),
                0 <= i <= count,
                lookup_in(self.entries@.subrange(i as int, count as int), topic@) == self.lookup(topic@),
            decreases count - i,
        {
            proof {
                assert(self.entries@.subrange(i as int, count as int).drop_first()
                    =~= self.entries@.subrange(i + 1, count as int));
            }
            if self.entries[i].0.eq(topic) {
                return Some(&self.entries[i].1);
            }
            i = i + 1;
        }
        None
    }
}

/// The uniform event-handler contract: a handler receives the event and the
/// shared context, and may append further events at the back of the queue —
/// and nothing else to it, which is what keeps delivery strictly FIFO.
pub trait THandler<C> {
    fn handle(&self, event: &Event, context: &mut ContextManager<C>) -> (r: Result<(), BaseError>)
        ensures
            old(context).event_queue@.is_prefix_of(final(context).event_queue@),
            final(context).conn == old(context).conn,
    ;
}

/// The uniform command-handler contract: a handler receives the command and
/// the scope's repository, mutates aggregates through it — the repository
/// collects the events those mutations raise — and reports a response or an
/// error.
pub trait TCommandHandler<Cmd: TCommand, Resp, Repo: TRepository> {
    fn handle_command(&mut self, cmd: Cmd, repository: &mut Repo) -> (r: Result<Resp, BaseError>);
}

/// The command-service interface the bus drives: some aspect wrapping the
/// actual work of one command.
pub trait TCommandService<Resp> {
    fn execute(&mut self) -> (r: Result<Resp, BaseError>);
}

/// A generic wrapper that aspects put around the pieces of a command
/// execution.
pub struct CommandHandler<T>(pub T);

impl<T> CommandHandler<T> {
    /// Takes the wrapped pieces back out.
    pub fn destruct(self) -> (r: T)
        ensures
            r == self.0,
    {
        self.0
    }
}

/// What one handler invocation came to, as the trace records it.
pub enum HandlerOutcome {
    /// The handler returned success, or its failure was logged and the
    /// group went on.
    Completed,
    /// The handler returned a true error in a sequential group; the group
    /// went on.
    Failed,
    /// The handler returned the plain stop sentinel; the group halted.
    Halted,
    /// The handler returned the stop sentinel with a compensating event;
    /// the event was re-enqueued and the group halted.
    HaltedWithEvent,
}

/// The record of one drained event: the event itself, whether a handler
/// group was registered for its topic, one outcome per handler that ran,
/// and — for the specification only — the events its handlers appended to
/// the queue while it was being handled.
pub struct EventRecord {
    pub event: Event,
    pub found: bool,
    pub outcomes: Vec<HandlerOutcome>,
    pub emitted: Ghost<Seq<Event>>,
}

/// A trace record is consistent with the registry: an unregistered topic
/// has no outcomes; a sequential group has outcomes for a prefix of its
/// handlers, every outcome before the last non-halting, and a halting last
/// outcome exactly when handlers were skipped; a fan-out group has one
/// non-halting outcome per handler.
pub open spec fn record_matches<H>(group: Option<EventHandlers<H>>, record: EventRecord) -> bool {
    match group {
        None => !record.found && record.outcomes@.len() == 0,
        Some(EventHandlers::Sync(handlers)) => {
            &&& record.found
            &&& record.outcomes@.len() <= handlers@.len()
            &&& forall|j: int| 0 <= j < record.outcomes@.len() - 1 ==> !is_halting(#[trigger] record.outcomes@[j])
            &&& record.outcomes@.len() < handlers@.len() ==> record.outcomes@.len() > 0
                && is_halting(record.outcomes@.last())
        },
        Some(EventHandlers::Async(handlers)) => {
            &&& record.found
            &&& record.outcomes@.len() == handlers@.len()
            &&& forall|j: int| 0 <= j < record.outcomes@.len() ==> !is_halting(#[trigger] record.outcomes@[j])
        },
    }
}

/// Whether an outcome halted its sequential group.
pub open spec fn is_halting(outcome: HandlerOutcome) -> bool {
    outcome is Halted || outcome is HaltedWithEvent
}

/// The events a trace processed, in order.
pub open spec fn trace_events(trace: Seq<EventRecord>) -> Seq<Event> {
    trace.map_values(|record: EventRecord| record.event)
}

/// The events known to the drain after `k` records: the initial events
/// followed by each record's emitted segment, in record order. Because
/// handlers append at the back and the drain pops from the front, this is
/// exactly the order in which the drain delivers — the queue-step fixpoint.
pub open spec fn drain_history(initial: Seq<Event>, trace: Seq<EventRecord>, k: int) -> Seq<Event>
    decreases k,
{
    if k <= 0 {
        initial
    } else {
        drain_history(initial, trace, k - 1) + trace[k - 1].emitted@
    }
}

/// The history after `k` records reads only the first `k` records.
proof fn lemma_drain_history_stable(initial: Seq<Event>, t1: Seq<EventRecord>, t2: Seq<EventRecord>, k: int)
    requires
        forall|i: int| 0 <= i < k ==> t1[i] == t2[i],
    ensures
        drain_history(initial, t1, k) == drain_history(initial, t2, k),
    decreases k,
{
    if k > 0 {
        lemma_drain_history_stable(initial, t1, t2, k - 1);
    }
}

/// The bus: the registered event-handler groups, driven by the execute
/// entry points.
pub struct DefaultMessageBus<H> {
    pub event_handler: TEventHandler<H>,
}

/// If `a` begins a concatenation whose middle part only grew at the back,
/// it still begins the grown concatenation.
proof fn lemma_prefix_through_append(a: Seq<Event>, x: Seq<Event>, q: Seq<Event>, q2: Seq<Event>)
    requires
        a.is_prefix_of(x + q),
        q.is_prefix_of(q2),
    ensures
        a.is_prefix_of(x + q2),
{
    assert forall|i: int| 0 <= i < a.len() implies a[i] == (x + q2)[i] by {
        assert(a[i] == (x + q).subrange(0, a.len() as int)[i]);
        assert(a[i] == (x + q)[i]);
        if i >= x.len() {
            assert((x + q)[i] == q[i - x.len()]);
            assert(q[i - x.len()] == q2.subrange(0, q.len() as int)[i - x.len()]);
        }
    }
    assert(a =~= (x + q2).subrange(0, a.len() as int));
}

/// If `a` begins a concatenation and is no longer than the front part, it
/// begins the front part alone.
proof fn lemma_prefix_within_front(a: Seq<Event>, x: Seq<Event>, q: Seq<Event>)
    requires
        a.is_prefix_of(x + q),
        a.len() <= x.len(),
    ensures
        a.is_prefix_of(x),
{
    assert forall|i: int| 0 <= i < a.len() implies a[i] == x[i] by {
        assert(a[i] == (x + q).subrange(0, a.len() as int)[i]);
        assert(a[i] == (x + q)[i]);
    }
    assert(a =~= x.subrange(0, a.len() as int));
}

impl<H> DefaultMessageBus<H> {
    /// Drains the context queue, starting from `msg`, until it is empty:
    /// pops the oldest event, runs the handler group registered for its
    /// topic, and repeats — breadth-first FIFO delivery across arbitrarily
    /// deep cascades. An unregistered topic is recorded and skipped, fatal
    /// to nothing. The returned trace lists every event in the order it was
    /// delivered, with one outcome per handler that ran, and equals the
    /// queue-step fixpoint: the initial events followed by every emitted
    /// segment, each event delivered at exactly its enqueue position.
    ///
    /// The drain budget exceeds any queue the process could ever build, so
    /// the loop always runs until the queue is empty; should it somehow run
    /// out, the remaining best-effort deliveries are abandoned, which is
    /// why the fixpoint clause carries the length guard.
    pub fn handle_event<C>(&self, msg: Event, context: &mut ContextManager<C>) -> (trace: Vec<EventRecord>)
        where H: THandler<C>,
        ensures
            final(context).event_queue@.len() == 0,
            final(context).conn == old(context).conn,
            (seq![msg] + old(context).event_queue@).is_prefix_of(trace_events(trace@)),
            trace@.len() < u128::MAX ==> trace_events(trace@)
                == drain_history(seq![msg] + old(context).event_queue@, trace@, trace@.len() as int),
            forall|i: int| 0 <= i < trace@.len() ==> record_matches(
                self.event_handler.lookup((#[trigger] trace@[i]).event.metadata.topic@),
                trace@[i],
            ),
    {
        let ghost initial = seq![msg] + context.event_queue@;
        proof {
            assert(initial.is_prefix_of(seq![msg] + context.event_queue@));
        }
        let initial_queue_len = context.event_queue.len();
        let mut trace: Vec<EventRecord> = Vec::new();
        let mut pending: Option<Event> = Some(msg);
        let mut fuel: u128 = u128::MAX;

        while pending.is_some() && fuel > 0
            invariant
                trace@.len() == u128::MAX - fuel,
                initial.len() == 1 + initial_queue_len,
                context.conn == old(context).conn,
                pending matches Some(cur) ==> initial.is_prefix_of(
                    trace_events(trace@) + seq![cur] + context.event_queue@,
                ),
                pending matches Some(cur) ==> drain_history(initial, trace@, trace@.len() as int)
                    == trace_events(trace@) + seq![cur] + context.event_queue@,
                pending is None ==> initial.is_prefix_of(trace_events(trace@))
                    && context.event_queue@.len() == 0
                    && drain_history(initial, trace@, trace@.len() as int) == trace_events(trace@),
                forall|i: int| 0 <= i < trace@.len() ==> record_matches(
                    self.event_handler.lookup((#[trigger] trace@[i]).event.metadata.topic@),
                    trace@[i],
                ),
            decreases fuel,
        {
            fuel = fuel - 1;
            let current = pending.unwrap();
            let ghost trace_head = trace_events(trace@) + seq![current];
            let ghost queue_at_start = context.event_queue@;
            let found: bool;
            let mut outcomes: Vec<HandlerOutcome> = Vec::new();

            match self.event_handler.get(&current.metadata.topic) {
                None => {
                    found = false;
                }
                Some(EventHandlers::Sync(handlers)) => {
                    found = true;
                    let total = handlers.len();
                    let mut j: usize = 0;
                    let mut halted = false;
                    while j < total && !halted
                        invariant
                            total == handlers@.len(),
                            0 <= j <= total,
                            outcomes@.len() == j,
                            forall|k: int| 0 <= k < j - 1 ==> !is_halting(#[trigger] outcomes@[k]),
                            halted ==> j > 0 && is_halting(outcomes@.last()),
                            !halted && j > 0 ==> !is_halting(outcomes@.last()),
                            queue_at_start.is_prefix_of(context.event_queue@),
                            context.conn == old(context).conn,
                        decreases total - j,
                    {
                        let ghost queue_mid = context.event_queue@;
                        match handlers[j].handle(&current, context) {
                            Ok(_) => {
                                outcomes.push(HandlerOutcome::Completed);
                            }
                            Err(e) => {
                                match e {
                                    BaseError::StopSentinel => {
                                        outcomes.push(HandlerOutcome::Halted);
                                        halted = true;
                                    }
                                    BaseError::StopSentinelWithEvent(event) => {
                                        context.push_back(event);
                                        outcomes.push(HandlerOutcome::HaltedWithEvent);
                                        halted = true;
                                    }
                                    _ => {
                                        outcomes.push(HandlerOutcome::Failed);
                                    }
                                }
                            }
                        }
                        proof {
                            lemma_prefix_through_append(
                                queue_at_start, Seq::empty(), queue_mid, context.event_queue@,
                            );
                            assert(Seq::empty() + queue_mid =~= queue_mid);
                            assert(Seq::empty() + context.event_queue@ =~= context.event_queue@);
                        }
                        j = j + 1;
                    }
                }
                Some(EventHandlers::Async(handlers)) => {
                    found = true;
                    let total = handlers.len();
                    let mut j: usize = 0;
                    while j < total
                        invariant
                            total == handlers@.len(),
                            0 <= j <= total,
                            outcomes@.len() == j,
                            forall|k: int| 0 <= k < j ==> !is_halting(#[trigger] outcomes@[k]),
                            queue_at_start.is_prefix_of(context.event_queue@),
                            context.conn == old(context).conn,
                        decreases total - j,
                    {
                        let ghost queue_mid = context.event_queue@;
                        match handlers[j].handle(&current, context) {
                            Ok(_) => {
                                outcomes.push(HandlerOutcome::Completed);
                            }
                            Err(_) => {
                                outcomes.push(HandlerOutcome::Failed);
                            }
                        }
                        proof {
                            lemma_prefix_through_append(
                                queue_at_start, Seq::empty(), queue_mid, context.event_queue@,
                            );
                            assert(Seq::empty() + queue_mid =~= queue_mid);
                            assert(Seq::empty() + context.event_queue@ =~= context.event_queue@);
                        }
                        j = j + 1;
                    }
                }
            }

            proof {
                lemma_prefix_through_append(initial, trace_head, queue_at_start, context.event_queue@);
                assert(trace_head + queue_at_start
                    =~= trace_events(trace@) + seq![current] + queue_at_start);
                assert(trace_head + context.event_queue@
                    =~= trace_events(trace@) + seq![current] + context.event_queue@);
            }
            let ghost emitted = context.event_queue@.skip(queue_at_start.len() as int);
            proof {
                assert(context.event_queue@ =~= queue_at_start + emitted);
            }
            let ghost trace_before = trace@;
            let record = EventRecord { event: current, found, outcomes, emitted: Ghost(emitted) };
            trace.push(record);
            proof {
                assert(trace_events(trace@) =~= trace_head);
                lemma_drain_history_stable(initial, trace@, trace_before, trace_before.len() as int);
                assert(drain_history(initial, trace@, trace@.len() as int)
                    == drain_history(initial, trace@, trace_before.len() as int) + emitted);
                assert(drain_history(initial, trace@, trace@.len() as int)
                    =~= trace_events(trace_before) + seq![current] + queue_at_start + emitted);
                assert(drain_history(initial, trace@, trace@.len() as int)
                    =~= trace_head + context.event_queue@);
            }
            pending = context.pop_front();
            proof {
                if pending is Some {
                    let next = pending->Some_0;
                    assert(trace_events(trace@) + seq![next] + context.event_queue@
                        =~= trace_head + (seq![next] + context.event_queue@));
                    assert(drain_history(initial, trace@, trace@.len() as int)
                        =~= trace_events(trace@) + seq![next] + context.event_queue@);
                } else {
                    assert(drain_history(initial, trace@, trace@.len() as int)
                        =~= trace_events(trace@));
                }
            }
        }

        if pending.is_some() {
            proof {
                assert(initial.len() <= trace@.len());
                let cur = pending.unwrap();
                lemma_prefix_within_front(
                    initial,
                    trace_events(trace@),
                    seq![cur] + context.event_queue@,
                );
                assert(trace_events(trace@) + (seq![cur] + context.event_queue@)
                    =~= trace_events(trace@) + seq![cur] + context.event_queue@);
            }
            context.event_queue.clear();
            pending = None;
        }
        trace
    }

    /// Delivers one externally arriving event on a fresh context around the
    /// given connection handle and drains its cascade. An event whose topic
    /// has no registered handler group is refused outright — the deliverer
    /// is told, rather than a cascade sibling.
    pub fn handle_incoming_event<C>(&self, msg: Event, conn: C) -> (r: Result<Vec<EventRecord>, BaseError>)
        where
            H: THandler<C>,
        ensures
            r matches Err(e) ==> e is NotFound
                && self.event_handler.lookup(msg.metadata.topic@) is None,
            r matches Ok(trace) ==> self.event_handler.lookup(msg.metadata.topic@) is Some
                && seq![msg].is_prefix_of(trace_events(trace@))
                && (trace@.len() < u128::MAX ==> trace_events(trace@)
                    == drain_history(seq![msg], trace@, trace@.len() as int))
                && (forall|i: int| 0 <= i < trace@.len() ==> record_matches(
                    self.event_handler.lookup((#[trigger] trace@[i]).event.metadata.topic@),
                    trace@[i],
                )),
    {
        if self.event_handler.get(&msg.metadata.topic).is_none() {
            return Err(BaseError::NotFound);
        }
        let mut context = ContextManager::new(conn);
        let ghost empty_queue = context.event_queue@;
        let trace = self.handle_event(msg, &mut context);
        proof {
            assert(seq![msg] + empty_queue =~= seq![msg]);
        }
        Ok(trace)
    }

    /// Execute-and-wait: runs the command through [`execute_command`], and
    /// on success drains the full event cascade before returning, so the
    /// caller sees the command result only after every in-process side
    /// effect was attempted. The drained trace is returned with the result;
    /// event-path outcomes never flow into the command's result.
    pub fn execute_and_wait<Cmd, Resp, Repo, E, O, CH, C>(
        &self,
        service: &mut CH,
        cmd: Cmd,
        uow: UnitOfWork<Repo, E>,
        context: &mut ContextManager<C>,
        generator: &NumericalUniqueIdGenerator,
        trace_id: &String,
    ) -> (r: (Result<Resp, BaseError>, UnitOfWork<Repo, E>, Vec<EventRecord>))
        where
            H: THandler<C>,
            Cmd: TCommand,
            Repo: TRepository,
            E: Executor,
            O: IOutBox<E>,
            CH: TCommandHandler<Cmd, Resp, Repo>,
        requires
            uow.phase() is Begun,
            generator.wf(),
            old(context).event_queue@.len() == 0,
        ensures
            ({
                let (res, fin, trace) = r;
                &&& res matches Ok(_) ==> ({
                    &&& fin.phase() is Committed
                    &&& exists|events: Seq<Event>, rows: Seq<OutBox>|
                        (#[trigger] outbox_rows_match(events, rows, trace_id@))
                            && fin.stored() == uow.stored() + uow.staged() + rows
                            && internal_events(events).is_prefix_of(trace_events(trace@))
                            && (internal_events(events).len() == 0 ==> trace@.len() == 0)
                    &&& final(context).event_queue@.len() == 0
                    &&& final(context).conn == old(context).conn
                    &&& forall|i: int| 0 <= i < trace@.len() ==> record_matches(
                        self.event_handler.lookup((#[trigger] trace@[i]).event.metadata.topic@),
                        trace@[i],
                    )
                })
                &&& res matches Err(e) ==> ({
                    &&& trace@.len() == 0
                    &&& fin.phase() is RolledBack
                    &&& fin.stored() == uow.stored()
                    &&& !(e is StopSentinelWithEvent) ==> *final(context) == *old(context)
                    &&& e matches BaseError::StopSentinelWithEvent(ev) ==> ({
                        &&& final(context).conn == old(context).conn
                        &&& ev.internally_notifiable ==> final(context).event_queue@
                            == old(context).event_queue@.push(ev)
                        &&& !ev.internally_notifiable ==> final(context).event_queue@
                            == old(context).event_queue@
                    })
                })
            }),
    {
        let (result, uow_after) = execute_command::<Cmd, Resp, Repo, E, O, CH, C>(
            service, cmd, uow, context, generator, trace_id,
        );
        match result {
            Ok(value) => {
                let ghost (events, rows) = choose|events: Seq<Event>, rows: Seq<OutBox>|
                    (#[trigger] outbox_rows_match(events, rows, trace_id@))
                        && uow_after.stored() == uow.stored() + uow.staged() + rows
                        && context.event_queue@ == old(context).event_queue@ + internal_events(events);
                proof {
                    assert(old(context).event_queue@ + internal_events(events) =~= internal_events(events));
                }
                if !context.is_empty() {
                    let first = context.pop_front().unwrap();
                    let ghost rest = context.event_queue@;
                    let trace = self.handle_event(first, context);
                    proof {
                        assert(seq![first] + rest =~= internal_events(events));
                    }
                    (Ok(value), uow_after, trace)
                } else {
                    let trace: Vec<EventRecord> = Vec::new();
                    proof {
                        assert(internal_events(events).is_prefix_of(trace_events(trace@)));
                    }
                    (Ok(value), uow_after, trace)
                }
            }
            Err(e) => (Err(e), uow_after, Vec::new()),
        }
    }
}

/// Runs one command inside the given transaction scope: invokes the handler
/// bound to the command with exclusive access to the scope's repository and
/// hands its outcome to [`settle_command`], whose contract pins what is
/// returned for each value of it.
pub fn execute_command<Cmd, Resp, Repo, E, O, CH, C>(
    service: &mut CH,
    cmd: Cmd,
    uow: UnitOfWork<Repo, E>,
    context: &mut ContextManager<C>,
    generator: &NumericalUniqueIdGenerator,
    trace_id: &String,
) -> (r: (Result<Resp, BaseError>, UnitOfWork<Repo, E>))
    where
        Cmd: TCommand,
        Repo: TRepository,
        E: Executor,
        O: IOutBox<E>,
        CH: TCommandHandler<Cmd, Resp, Repo>,
    requires
        uow.phase() is Begun,
        generator.wf(),
    ensures
        ({
            let (res, fin) = r;
            &&& res matches Ok(_) ==> ({
                &&& fin.phase() is Committed
                &&& exists|events: Seq<Event>, rows: Seq<OutBox>|
                    (#[trigger] outbox_rows_match(events, rows, trace_id@))
                        && fin.stored() == uow.stored() + uow.staged() + rows
                        && final(context).event_queue@ == old(context).event_queue@ + internal_events(events)
                &&& final(context).conn == old(context).conn
            })
            &&& res matches Err(e) ==> ({
                &&& fin.phase() is RolledBack
                &&& fin.stored() == uow.stored()
                &&& !(e is StopSentinelWithEvent) ==> *final(context) == *old(context)
                &&& e matches BaseError::StopSentinelWithEvent(ev) ==> ({
                    &&& final(context).conn == old(context).conn
                    &&& ev.internally_notifiable ==> final(context).event_queue@
                        == old(context).event_queue@.push(ev)
                    &&& !ev.internally_notifiable ==> final(context).event_queue@
                        == old(context).event_queue@
                })
            })
        }),
{
    let mut uow = uow;
    let outcome = service.handle_command(cmd, uow.repository());
    settle_command::<Resp, Repo, E, O, C>(outcome, uow, context, generator, trace_id)
}

/// Settles a command handler's outcome against its open scope — commit on
/// success, rollback with best-effort compensation on failure — and says
/// exactly what is returned for each value of the outcome: every error is
/// re-surfaced unchanged, and a success value is passed through unchanged
/// unless the commit itself fails with a storage error.
pub fn settle_command<Resp, Repo, E, O, C>(
    outcome: Result<Resp, BaseError>,
    uow: UnitOfWork<Repo, E>,
    context: &mut ContextManager<C>,
    generator: &NumericalUniqueIdGenerator,
    trace_id: &String,
) -> (r: (Result<Resp, BaseError>, UnitOfWork<Repo, E>))
    where
        Repo: TRepository,
        E: Executor,
        O: IOutBox<E>,
    requires
        uow.phase() is Begun,
        generator.wf(),
    ensures
        ({
            let (res, fin) = r;
            &&& match outcome {
                Ok(v) => res == Ok::<Resp, BaseError>(v)
                    || (res matches Err(e2) && e2 is DatabaseError),
                Err(e) => res == Err::<Resp, BaseError>(e),
            }
            &&& res matches Ok(_) ==> ({
                &&& fin.phase() is Committed
                &&& exists|events: Seq<Event>, rows: Seq<OutBox>|
                    (#[trigger] outbox_rows_match(events, rows, trace_id@))
                        && fin.stored() == uow.stored() + uow.staged() + rows
                        && final(context).event_queue@ == old(context).event_queue@ + internal_events(events)
                &&& final(context).conn == old(context).conn
            })
            &&& res matches Err(e) ==> ({
                &&& fin.phase() is RolledBack
                &&& fin.stored() == uow.stored()
                &&& !(e is StopSentinelWithEvent) ==> *final(context) == *old(context)
                &&& e matches BaseError::StopSentinelWithEvent(ev) ==> ({
                    &&& final(context).conn == old(context).conn
                    &&& ev.internally_notifiable ==> final(context).event_queue@
                        == old(context).event_queue@.push(ev)
                    &&& !ev.internally_notifiable ==> final(context).event_queue@
                        == old(context).event_queue@
                })
            })
        }),
{
    let mut uow = uow;
    match outcome {
        Ok(value) => {
            match uow.commit::<O, C>(context, generator, trace_id) {
                Ok(_) => (Ok(value), uow),
                Err(e) => (Err(e), uow),
            }
        }
        Err(err) => {
            // the scope is rolled back either way; the handler's error, not
            // the storage layer's, is what the caller is owed
            let _discarded = uow.rollback();
            match err {
                BaseError::StopSentinelWithEvent(event) => {
                    if event.internally_notifiable {
                        context.push_back(event.message_clone());
                    }
                    if event.externally_notifiable {
                        best_effort_outbox::<E, O>(&event, generator, trace_id);
                    }
                    (Err(BaseError::StopSentinelWithEvent(event)), uow)
                }
                other => (Err(other), uow),
            }
        }
    }
}

/// Best-effort compensating outbox write for a stop-with-event payload: a
/// fresh executor opens its own short transaction, dedicated to this one
/// row, and every failure along the way is swallowed — the caller's error
/// takes precedence and the write is not owed.
fn best_effort_outbox<E, O>(event: &Event, generator: &NumericalUniqueIdGenerator, trace_id: &String)
    where
        E: Executor,
        O: IOutBox<E>,
    requires
        generator.wf(),
{
    let mut fresh: E = Executor::new();
    match fresh.begin() {
        Ok(_) => {
            let id = SnowFlake::generate(generator);
            let row = OutBox::from_event(event, id, trace_id);
            let mut rows: Vec<OutBox> = Vec::new();
            rows.push(row);
            match O::add(&mut fresh, rows) {
                Ok(_) => {
                    let _ignored = fresh.commit();
                }
                Err(_) => {
                    let _ignored = fresh.rollback();
                }
            }
        }
        Err(_) => {}
    }
}

} // verus!
