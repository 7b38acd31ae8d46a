//! A durable task queue's core: the task variants and their identifiers, the
//! event store with its due-selection query, the single writer that applies
//! write intents to it, and the decisions of the polling executor.
pub mod task;
pub mod store;
pub mod actor;
pub mod executor;

pub use task::Task;
pub use store::{Db, DbId, Record};
pub use actor::{Event, Write, apply_event, apply_event_now};
pub use executor::{Action, Executor};
