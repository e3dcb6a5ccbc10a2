//! A moderation command pipeline with a live-update broadcast hub.
//!
//! The crate has two halves that meet in [`pipeline`]:
//! - a command side: operations are authorized by an ordered guard chain,
//!   applied to an in-memory state store together with an audit record
//!   (atomically, as one unit), and
//! - a live side: a session registry tracks which connections are members of
//!   which rooms, and a room hub fans a notification out to every current
//!   member of a room, in publish order.

pub mod guard;
pub mod hub;
pub mod lookup;
pub mod ops;
pub mod pipeline;
pub mod registry;
pub mod store;
