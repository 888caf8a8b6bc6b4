//! A verified two-party rock-paper-scissors ledger.
//!
//! Open matches are kept in a keyed store, guarded by an admin and a
//! blacklist, and settled by a total outcome function.

pub mod contract;
pub mod error;
pub mod game;
pub mod laws;
pub mod ledger;
pub mod msg;
pub mod storage;
