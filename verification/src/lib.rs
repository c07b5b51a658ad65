//! A transactional command/event processing core: a unit of work binding a
//! transaction to a repository and a shared event queue, a message bus that
//! routes commands to handlers and drains cascading events in FIFO order, a
//! transactional outbox for reliable external notification, and a
//! time-ordered unique id allocator.

pub mod contexts;
pub mod executor;
pub mod message;
pub mod messagebus;
pub mod mock_db;
pub mod outbox;
pub mod responses;
pub mod snowflake;
pub mod unit_of_work;
