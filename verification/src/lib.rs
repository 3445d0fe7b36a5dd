//! A dual-indexed order ledger.
//!
//! A party deposits an amount of a token, names a recipient, may attach an
//! execution fee, and later has the order filled or cancels it. Every order
//! is filed twice, once under the identity of its creator and once under the
//! identity of the contract that runs the ledger, and the two copies are kept
//! in agreement while fees are attached and orders are cancelled.
//!
//! - [`ledger`] keeps the position counters and the order records.
//! - [`contract`] holds the operations on orders and the queries.
//! - [`laws`] proves what holds of every ledger that the operations build.
//! - [`messages`] builds the messages that carry refunds and registrations
//!   to the token contracts.
//! - [`tokens`] keeps the registry of tokens.
//! - [`keys`] lays down the keys under which counters and orders persist.

pub mod byte_map;
pub mod bytes;
pub mod contract;
pub mod errors;
pub mod keys;
pub mod laws;
pub mod ledger;
pub mod messages;
pub mod padding;
pub mod state;
pub mod tokens;
pub mod validations;
