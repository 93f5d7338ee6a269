//! A relay hub for one room: three kinds of subscribers (push connections,
//! event streams and poll waiters), fan-out with self-exclusion, pruning of
//! dead subscribers and the liveness rules around them.

pub mod config;
pub mod hub;
pub mod laws;
pub mod message;
pub mod query;
pub mod session;
pub mod text;
pub mod users;
