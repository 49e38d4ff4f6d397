//! Verified core of a market-data feed ingester.
//!
//! The library covers the ingestion pipeline: request signing for the
//! streaming endpoint, per-connection session logic that enforces per-symbol
//! sequence contiguity on delta frames, the routing and flush policy of the
//! per-symbol persistence worker, and the partitioning of the symbol list
//! into connection batches. Network and file I/O live outside the library;
//! the functions here compute every decision those loops carry out.

pub mod assoc;
pub mod auth;
pub mod commands;
pub mod error;
pub mod frame;
pub mod numeral;
pub mod orchestrator;
pub mod persist;
pub mod session;

pub use numeral::u64_to_dec;
