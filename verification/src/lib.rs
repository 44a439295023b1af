//! Observer core for an Ethereum-compatible chain.
//!
//! The crate normalizes heterogeneous on-chain transaction shapes into one
//! canonical record, stores blocks and transactions idempotently, answers
//! aggregate queries (top senders, windowed gas statistics, recent
//! transactions), tracks ingestion counters, and drives the time-boxed,
//! bounded, filtered pending-transaction sampling session as a state machine.
//! Chain RPC, WebSocket subscriptions, HTTP serving and persistence I/O are
//! collaborators that live outside this crate; they hand plain values in and
//! take plain values back.

pub mod cli;
pub mod config;
pub mod ingest;
pub mod ingest_stats;
pub mod models;
pub mod normalize;
pub mod sampler;
pub mod storage;
pub mod text;
