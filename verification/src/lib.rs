//! Engine for a small shared sign-up queue with an overflow waitlist.
//!
//! A queue is identified by a (guild, channel) pair and holds an ordered,
//! duplicate-free list of member identifiers. The first `QUEUE_FULL` members
//! form the active set; everyone beyond that is on the waitlist. The engine
//! owns the business rules: membership transitions, milestone notifications,
//! waitlist promotion on departure, and the stale-message guard. Storage is
//! an in-memory table of records; rendering and network transport belong to
//! the surrounding application.

pub mod messages;
pub mod queue;
pub mod store;
pub mod text;
pub mod translations;
