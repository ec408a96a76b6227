//! Reconciliation of on-chain snapshot commitments against locally computed
//! snapshots.
//!
//! The library ingests decoded contract events, stores them with idempotent
//! upsert semantics, answers filtered queries over the store, and records a
//! verification verdict for each snapshot submission by comparing the hash
//! committed on-chain with the hash the backend computed over the same
//! epoch's canonical data.
//!
//! All I/O (the JSON-RPC transport, durable persistence, alert delivery)
//! lives outside this crate; the library works on plain decoded values and
//! is verified end to end.

pub mod alerts;
pub mod api;
pub mod hashing;
pub mod indexer;
pub mod job;
pub mod listener;
pub mod model;
pub mod snapshots;
pub mod text;
