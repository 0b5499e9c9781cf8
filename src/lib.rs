//! State layer of a chat bot: vote tallies kept in memory, the process
//! configuration read from the environment at startup, and a key-value
//! record store that snapshots of the tallies are written behind to.

pub mod text;
pub mod store;
pub mod secrets;
pub mod persist;
pub mod config;
pub mod unranked;
pub mod cohort;
pub mod list_ops;
