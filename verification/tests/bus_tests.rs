use std::cell::RefCell;
use std::rc::Rc;

use ruva::contexts::ContextManager;
use ruva::message::{Event, EventMetadata, TCommand};
use ruva::messagebus::{
    execute_command, CommandHandler, DefaultMessageBus, EventHandlers, HandlerOutcome,
    TCommandHandler, TEventHandler, THandler,
};
use ruva::mock_db::{MockDb, MockOutBox, MockRepository};
use ruva::responses::BaseError;
use ruva::snowflake::NumericalUniqueIdGenerator;
use ruva::unit_of_work::UnitOfWork;

type Log = Rc<RefCell<Vec<String>>>;

fn make_event(topic: &str, internal: bool, external: bool) -> Event {
    Event {
        metadata: EventMetadata {
            aggregate_id: "7".to_string(),
            aggregate_name: "Order".to_string(),
            topic: topic.to_string(),
        },
        state: format!("{{\"topic\":\"{}\"}}", topic),
        internally_notifiable: internal,
        externally_notifiable: external,
    }
}

enum TestHandler {
    /// Logs "<label>:<topic>:<state>" and succeeds.
    Log(String, Log),
    /// Returns the plain stop sentinel.
    Stop,
    /// Returns the stop sentinel carrying an internally notifiable event.
    StopWith(String),
    /// Returns a generic failure.
    Fail,
    /// Logs, then enqueues an internally notifiable event under the topic.
    Enqueue(String, Log),
}

impl THandler<()> for TestHandler {
    fn handle(&self, event: &Event, context: &mut ContextManager<()>) -> Result<(), BaseError> {
        match self {
            TestHandler::Log(label, log) => {
                log.borrow_mut().push(format!("{}:{}:{}", label, event.metadata.topic, event.state));
                Ok(())
            }
            TestHandler::Stop => Err(BaseError::StopSentinel),
            TestHandler::StopWith(topic) => {
                Err(BaseError::StopSentinelWithEvent(make_event(topic, true, false)))
            }
            TestHandler::Fail => Err(BaseError::ServiceError),
            TestHandler::Enqueue(topic, log) => {
                log.borrow_mut().push(format!("enqueue:{}", topic));
                context.push_back(make_event(topic, true, false));
                Ok(())
            }
        }
    }
}

#[derive(Debug)]
struct CreateOrder;

impl TCommand for CreateOrder {}

/// A command handler that records the given events through the repository
/// and then reports the given result.
struct OrderService {
    emit: Vec<Event>,
    fail_with: Option<BaseError>,
}

impl TCommandHandler<CreateOrder, i64, MockRepository> for OrderService {
    fn handle_command(&mut self, _cmd: CreateOrder, repository: &mut MockRepository) -> Result<i64, BaseError> {
        for event in self.emit.drain(..) {
            repository.add_event(event);
        }
        match self.fail_with.take() {
            Some(err) => Err(err),
            None => Ok(42),
        }
    }
}

fn bus_with(entries: Vec<(&str, EventHandlers<TestHandler>)>) -> DefaultMessageBus<TestHandler> {
    let mut registry: TEventHandler<TestHandler> = TEventHandler::new();
    for (topic, group) in entries {
        registry.insert(topic.to_string(), group);
    }
    DefaultMessageBus { event_handler: registry }
}

fn fresh_uow() -> UnitOfWork<MockRepository, MockDb> {
    UnitOfWork::<MockRepository, MockDb>::new(MockRepository::new()).ok().unwrap()
}

fn topics(trace: &[ruva::messagebus::EventRecord]) -> Vec<String> {
    trace.iter().map(|r| r.event.metadata.topic.clone()).collect()
}

#[test]
fn order_created_reaches_outbox_and_handler_once() {
    let log: Log = Rc::new(RefCell::new(Vec::new()));
    let bus = bus_with(vec![(
        "OrderCreated",
        EventHandlers::Sync(vec![TestHandler::Log("h".to_string(), log.clone())]),
    )]);
    let mut service = OrderService { emit: vec![make_event("OrderCreated", true, true)], fail_with: None };
    let generator = NumericalUniqueIdGenerator::new(1, 1);
    let mut context = ContextManager::new(());
    let trace_id = "trace-1".to_string();

    let (result, scope, trace) = bus.execute_and_wait::<CreateOrder, i64, MockRepository, MockDb, MockOutBox, OrderService, ()>(
        &mut service,
        CreateOrder,
        fresh_uow(),
        &mut context,
        &generator,
        &trace_id,
    );

    assert_eq!(result.ok(), Some(42));

    // Exactly one outbox row, recording the event, not yet processed.
    let db = scope.executor();
    assert_eq!(db.committed_rows.len(), 1);
    let row = &db.committed_rows[0];
    assert_eq!(row.topic, "OrderCreated");
    assert_eq!(row.aggregate_id, "7");
    assert_eq!(row.aggregate_name, "Order");
    assert_eq!(row.state, "{\"topic\":\"OrderCreated\"}");
    assert!(!row.processed);
    assert_eq!(row.trace_id, "trace-1");
    assert!(row.id >= 0);
    assert!(db.pending_rows.is_empty());

    // The registered handler ran exactly once, with the event's content.
    assert_eq!(log.borrow().as_slice(), &["h:OrderCreated:{\"topic\":\"OrderCreated\"}".to_string()]);
    assert_eq!(topics(&trace), vec!["OrderCreated".to_string()]);
    assert!(trace[0].found);
    assert!(matches!(trace[0].outcomes[..], [HandlerOutcome::Completed]));
    assert!(context.is_empty());
}

#[test]
fn stop_sentinel_with_event_reenqueues_and_skips_rest() {
    let log: Log = Rc::new(RefCell::new(Vec::new()));
    let bus = bus_with(vec![
        (
            "PaymentRequested",
            EventHandlers::Sync(vec![
                TestHandler::StopWith("PaymentCompensated".to_string()),
                TestHandler::Log("skipped".to_string(), log.clone()),
            ]),
        ),
        (
            "PaymentCompensated",
            EventHandlers::Sync(vec![TestHandler::Log("comp".to_string(), log.clone())]),
        ),
    ]);
    let mut service = OrderService { emit: vec![make_event("PaymentRequested", true, false)], fail_with: None };
    let generator = NumericalUniqueIdGenerator::new(1, 1);
    let mut context = ContextManager::new(());
    let trace_id = "trace-2".to_string();

    let (result, _scope, trace) = bus.execute_and_wait::<CreateOrder, i64, MockRepository, MockDb, MockOutBox, OrderService, ()>(
        &mut service,
        CreateOrder,
        fresh_uow(),
        &mut context,
        &generator,
        &trace_id,
    );

    // The already-committed command result is unaffected by the cascade.
    assert_eq!(result.ok(), Some(42));

    // The group halted at the sentinel: the second handler never ran.
    assert_eq!(topics(&trace), vec!["PaymentRequested".to_string(), "PaymentCompensated".to_string()]);
    assert!(matches!(trace[0].outcomes[..], [HandlerOutcome::HaltedWithEvent]));
    assert!(matches!(trace[1].outcomes[..], [HandlerOutcome::Completed]));
    assert_eq!(log.borrow().len(), 1);
    assert!(log.borrow()[0].starts_with("comp:PaymentCompensated"));
    assert!(context.is_empty());
}

#[test]
fn fifo_order_across_nested_cascades() {
    let log: Log = Rc::new(RefCell::new(Vec::new()));
    let bus = bus_with(vec![
        (
            "A",
            EventHandlers::Sync(vec![
                TestHandler::Enqueue("A1".to_string(), log.clone()),
                TestHandler::Enqueue("A2".to_string(), log.clone()),
            ]),
        ),
        ("B", EventHandlers::Sync(vec![TestHandler::Log("b".to_string(), log.clone())])),
        ("A1", EventHandlers::Sync(vec![TestHandler::Enqueue("A1x".to_string(), log.clone())])),
        ("A2", EventHandlers::Sync(vec![TestHandler::Log("a2".to_string(), log.clone())])),
        ("A1x", EventHandlers::Sync(vec![TestHandler::Log("a1x".to_string(), log.clone())])),
    ]);
    let mut service = OrderService {
        emit: vec![make_event("A", true, false), make_event("B", true, false)],
        fail_with: None,
    };
    let generator = NumericalUniqueIdGenerator::new(1, 1);
    let mut context = ContextManager::new(());
    let trace_id = "trace-3".to_string();

    let (result, _scope, trace) = bus.execute_and_wait::<CreateOrder, i64, MockRepository, MockDb, MockOutBox, OrderService, ()>(
        &mut service,
        CreateOrder,
        fresh_uow(),
        &mut context,
        &generator,
        &trace_id,
    );

    assert_eq!(result.ok(), Some(42));
    // Events enqueued while handling A run after everything already queued,
    // in enqueue order, at every nesting depth.
    assert_eq!(
        topics(&trace),
        vec!["A".to_string(), "B".to_string(), "A1".to_string(), "A2".to_string(), "A1x".to_string()],
    );
    assert!(context.is_empty());
}

#[test]
fn plain_stop_sentinel_skips_rest_but_not_next_event() {
    let log: Log = Rc::new(RefCell::new(Vec::new()));
    let bus = bus_with(vec![
        (
            "X",
            EventHandlers::Sync(vec![
                TestHandler::Log("x0".to_string(), log.clone()),
                TestHandler::Stop,
                TestHandler::Log("x2".to_string(), log.clone()),
            ]),
        ),
        ("Y", EventHandlers::Sync(vec![TestHandler::Log("y".to_string(), log.clone())])),
    ]);
    let mut service = OrderService {
        emit: vec![make_event("X", true, false), make_event("Y", true, false)],
        fail_with: None,
    };
    let generator = NumericalUniqueIdGenerator::new(1, 1);
    let mut context = ContextManager::new(());
    let trace_id = "trace-4".to_string();

    let (result, _scope, trace) = bus.execute_and_wait::<CreateOrder, i64, MockRepository, MockDb, MockOutBox, OrderService, ()>(
        &mut service,
        CreateOrder,
        fresh_uow(),
        &mut context,
        &generator,
        &trace_id,
    );

    assert_eq!(result.ok(), Some(42));
    assert_eq!(topics(&trace), vec!["X".to_string(), "Y".to_string()]);
    // Handlers [0..1) ran, the sentinel halted the group, x2 was skipped,
    // and the next queued event was still processed.
    assert!(matches!(trace[0].outcomes[..], [HandlerOutcome::Completed, HandlerOutcome::Halted]));
    assert_eq!(log.borrow().len(), 2);
    assert!(log.borrow()[0].starts_with("x0:"));
    assert!(log.borrow()[1].starts_with("y:"));
}

#[test]
fn handler_errors_do_not_abort_sequential_group() {
    let log: Log = Rc::new(RefCell::new(Vec::new()));
    let bus = bus_with(vec![(
        "X",
        EventHandlers::Sync(vec![
            TestHandler::Fail,
            TestHandler::Log("after".to_string(), log.clone()),
        ]),
    )]);
    let mut service = OrderService { emit: vec![make_event("X", true, false)], fail_with: None };
    let generator = NumericalUniqueIdGenerator::new(1, 1);
    let mut context = ContextManager::new(());
    let trace_id = "trace-5".to_string();

    let (result, _scope, trace) = bus.execute_and_wait::<CreateOrder, i64, MockRepository, MockDb, MockOutBox, OrderService, ()>(
        &mut service,
        CreateOrder,
        fresh_uow(),
        &mut context,
        &generator,
        &trace_id,
    );

    assert_eq!(result.ok(), Some(42));
    assert!(matches!(trace[0].outcomes[..], [HandlerOutcome::Failed, HandlerOutcome::Completed]));
    assert_eq!(log.borrow().len(), 1);
}

#[test]
fn fanout_group_runs_every_handler() {
    let log: Log = Rc::new(RefCell::new(Vec::new()));
    let bus = bus_with(vec![(
        "X",
        EventHandlers::Async(vec![
            TestHandler::Log("f0".to_string(), log.clone()),
            TestHandler::Fail,
            TestHandler::Log("f2".to_string(), log.clone()),
        ]),
    )]);
    let mut service = OrderService { emit: vec![make_event("X", true, false)], fail_with: None };
    let generator = NumericalUniqueIdGenerator::new(1, 1);
    let mut context = ContextManager::new(());
    let trace_id = "trace-6".to_string();

    let (result, _scope, trace) = bus.execute_and_wait::<CreateOrder, i64, MockRepository, MockDb, MockOutBox, OrderService, ()>(
        &mut service,
        CreateOrder,
        fresh_uow(),
        &mut context,
        &generator,
        &trace_id,
    );

    assert_eq!(result.ok(), Some(42));
    assert!(matches!(
        trace[0].outcomes[..],
        [HandlerOutcome::Completed, HandlerOutcome::Failed, HandlerOutcome::Completed],
    ));
    assert_eq!(log.borrow().len(), 2);
}

#[test]
fn unregistered_topic_is_contained() {
    let bus = bus_with(vec![]);
    let mut service = OrderService { emit: vec![make_event("Nobody", true, false)], fail_with: None };
    let generator = NumericalUniqueIdGenerator::new(1, 1);
    let mut context = ContextManager::new(());
    let trace_id = "trace-7".to_string();

    let (result, _scope, trace) = bus.execute_and_wait::<CreateOrder, i64, MockRepository, MockDb, MockOutBox, OrderService, ()>(
        &mut service,
        CreateOrder,
        fresh_uow(),
        &mut context,
        &generator,
        &trace_id,
    );

    // The command result is untouched; the event is recorded as unhandled.
    assert_eq!(result.ok(), Some(42));
    assert_eq!(trace.len(), 1);
    assert!(!trace[0].found);
    assert!(trace[0].outcomes.is_empty());
}

#[test]
fn rollback_leaves_no_outbox_row_and_no_forwarded_event() {
    let bus = bus_with(vec![]);
    let mut service = OrderService {
        emit: vec![make_event("OrderCreated", true, true)],
        fail_with: Some(BaseError::ServiceError),
    };
    let generator = NumericalUniqueIdGenerator::new(1, 1);
    let mut context = ContextManager::new(());
    let trace_id = "trace-8".to_string();

    let (result, scope, trace) = bus.execute_and_wait::<CreateOrder, i64, MockRepository, MockDb, MockOutBox, OrderService, ()>(
        &mut service,
        CreateOrder,
        fresh_uow(),
        &mut context,
        &generator,
        &trace_id,
    );

    assert!(matches!(result, Err(BaseError::ServiceError)));
    let db = scope.executor();
    assert!(db.committed_rows.is_empty());
    assert!(db.pending_rows.is_empty());
    assert!(context.is_empty());
    assert!(trace.is_empty());
}

#[test]
fn command_stop_sentinel_with_event_compensates_and_resurfaces() {
    let mut service = OrderService {
        emit: vec![],
        fail_with: Some(BaseError::StopSentinelWithEvent(make_event("Compensation", true, true))),
    };
    let generator = NumericalUniqueIdGenerator::new(1, 1);
    let mut context = ContextManager::new(());
    let trace_id = "trace-9".to_string();

    let (result, scope) = execute_command::<CreateOrder, i64, MockRepository, MockDb, MockOutBox, OrderService, ()>(
        &mut service,
        CreateOrder,
        fresh_uow(),
        &mut context,
        &generator,
        &trace_id,
    );

    // The original error is re-surfaced, nothing of the transaction became
    // visible, and the payload went to the internal queue.
    match result {
        Err(BaseError::StopSentinelWithEvent(event)) => {
            assert_eq!(event.metadata.topic, "Compensation");
        }
        _ => panic!("expected the stop sentinel to resurface"),
    }
    assert!(scope.executor().committed_rows.is_empty());
    assert_eq!(context.pop_front().map(|e| e.metadata.topic), Some("Compensation".to_string()));
    assert!(context.is_empty());
}

#[test]
fn switch_repository_transplants_collected_events() {
    let mut scope = fresh_uow();
    scope.repository().add_event(make_event("Moved", true, false));
    let switched = scope.switch_repository(MockRepository::new());
    assert_eq!(switched.repository.collected.len(), 1);
    assert_eq!(switched.repository.collected[0].metadata.topic, "Moved");
}

#[test]
fn command_handler_wrapper_destructs() {
    let wrapped = CommandHandler((CreateOrder, 7i64));
    let (cmd, dep) = wrapped.destruct();
    assert!(matches!(cmd, CreateOrder));
    assert_eq!(dep, 7);
}

#[test]
fn incoming_event_without_handler_is_not_found() {
    let log: Log = Rc::new(RefCell::new(Vec::new()));
    let bus = bus_with(vec![(
        "Known",
        EventHandlers::Sync(vec![TestHandler::Log("k".to_string(), log.clone())]),
    )]);

    match bus.handle_incoming_event(make_event("Unknown", true, false), ()) {
        Err(BaseError::NotFound) => {}
        _ => panic!("expected NotFound for an unregistered topic"),
    }

    let trace = bus.handle_incoming_event(make_event("Known", true, false), ()).ok().unwrap();
    assert_eq!(topics(&trace), vec!["Known".to_string()]);
    assert_eq!(log.borrow().len(), 1);
}

#[test]
fn command_with_no_events_commits_cleanly() {
    let bus = bus_with(vec![]);
    let mut service = OrderService { emit: vec![], fail_with: None };
    let generator = NumericalUniqueIdGenerator::new(1, 1);
    let mut context = ContextManager::new(());
    let trace_id = "trace-10".to_string();

    let (result, scope, trace) = bus.execute_and_wait::<CreateOrder, i64, MockRepository, MockDb, MockOutBox, OrderService, ()>(
        &mut service,
        CreateOrder,
        fresh_uow(),
        &mut context,
        &generator,
        &trace_id,
    );

    assert_eq!(result.ok(), Some(42));
    assert!(scope.executor().committed_rows.is_empty());
    assert!(trace.is_empty());
    assert!(context.is_empty());
}

/// An executor whose transaction refuses to open.
struct RefusingDb;

impl ruva::executor::Executor for RefusingDb {
    // The spec items exist only for the verifier; they are never run.
    fn phase(&self) -> ruva::executor::TxPhase {
        unreachable!()
    }

    fn stored(&self) -> vstd::seq::Seq<ruva::outbox::OutBox> {
        unreachable!()
    }

    fn staged(&self) -> vstd::seq::Seq<ruva::outbox::OutBox> {
        unreachable!()
    }

    fn new() -> RefusingDb {
        RefusingDb
    }

    fn begin(&mut self) -> Result<(), BaseError> {
        Err(BaseError::DatabaseError("no connection".to_string()))
    }

    fn commit(&mut self) -> Result<(), BaseError> {
        Err(BaseError::DatabaseError("no connection".to_string()))
    }

    fn rollback(&mut self) -> Result<(), BaseError> {
        Err(BaseError::DatabaseError("no connection".to_string()))
    }
}

#[test]
fn failure_to_begin_yields_no_scope() {
    match UnitOfWork::<MockRepository, RefusingDb>::new(MockRepository::new()) {
        Err(BaseError::DatabaseError(message)) => assert_eq!(message, "no connection"),
        _ => panic!("expected the storage error to surface"),
    }
}

struct OrderCreated {
    id: i64,
}

impl ruva::message::TEvent for OrderCreated {
    // The spec items exist only for the verifier; they are never run.
    fn spec_externally_notifiable(&self) -> bool {
        unreachable!()
    }

    fn spec_internally_notifiable(&self) -> bool {
        unreachable!()
    }

    fn spec_metadata(&self) -> (vstd::seq::Seq<char>, vstd::seq::Seq<char>, vstd::seq::Seq<char>) {
        unreachable!()
    }

    fn spec_state(&self) -> vstd::seq::Seq<char> {
        unreachable!()
    }

    fn externally_notifiable(&self) -> bool {
        true
    }

    fn internally_notifiable(&self) -> bool {
        false
    }

    fn metadata(&self) -> EventMetadata {
        EventMetadata {
            aggregate_id: self.id.to_string(),
            aggregate_name: "Order".to_string(),
            topic: "OrderCreated".to_string(),
        }
    }

    fn state(&self) -> String {
        format!("{{\"id\":{}}}", self.id)
    }
}

#[test]
fn to_message_carries_event_fields() {
    let event = OrderCreated { id: 11 };
    let message = ruva::message::to_message(&event);
    assert_eq!(message.metadata.aggregate_id, "11");
    assert_eq!(message.metadata.aggregate_name, "Order");
    assert_eq!(message.metadata.topic, "OrderCreated");
    assert_eq!(message.state, "{\"id\":11}");
    assert!(message.externally_notifiable);
    assert!(!message.internally_notifiable);
}

#[test]
fn outbox_row_records_event_unprocessed() {
    let row = ruva::outbox::OutBox::new(
        ruva::snowflake::SnowFlake(77),
        "11".to_string(),
        "Order".to_string(),
        "OrderCreated".to_string(),
        "{}".to_string(),
        "trace-x".to_string(),
    );
    assert_eq!(row.id, 77);
    assert_eq!(row.aggregate_id, "11");
    assert_eq!(row.aggregate_name, "Order");
    assert_eq!(row.topic, "OrderCreated");
    assert_eq!(row.state, "{}");
    assert!(!row.processed);
    assert_eq!(row.create_dt, 0);
    assert_eq!(row.trace_id, "trace-x");
}

#[test]
fn registry_insert_replaces_group() {
    let mut registry: TEventHandler<TestHandler> = TEventHandler::new();
    registry.insert("T".to_string(), EventHandlers::Sync(vec![TestHandler::Stop]));
    registry.insert("T".to_string(), EventHandlers::Sync(vec![TestHandler::Fail, TestHandler::Stop]));
    match registry.get(&"T".to_string()) {
        Some(EventHandlers::Sync(handlers)) => assert_eq!(handlers.len(), 2),
        _ => panic!("expected the replaced sequential group"),
    }
    assert!(registry.get(&"U".to_string()).is_none());
}
