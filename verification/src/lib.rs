//! Decision logic of a KV-aware router.
//!
//! The router sends requests to the workers that already hold their prefix. This crate holds
//! what it decides: how cache events get into the index and how gaps in them are recovered,
//! which workers an index answer favours, and how the optional encoder and prefill hops are
//! used. Whatever waits, connects or listens is left to the caller, who performs the steps that
//! come back and reports their outcomes.
pub mod adapters;
pub mod encoder_router;
pub mod hop;
pub mod indexer;
mod lists;
pub mod load_mailbox;
pub mod membership;
pub mod metrics;
pub mod prefill_router;
pub mod protocols;
pub mod table;
