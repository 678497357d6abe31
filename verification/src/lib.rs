//! The decision-making core of HTTPTester: a webhook inbox that forwards every
//! request it receives to a browser over Web Push.
//!
//! The crate holds what can be decided without touching the network or the disk:
//! which subscriptions are accepted, how a request body is cut into push-sized
//! chunks, how chunks are laid out on disk, which records the queue workers
//! claim, retry and drop, how push messages are made, and how often a hook may be
//! called.
pub mod chunking;
pub mod clock;
pub mod config;
pub mod db;
pub mod envelope;
pub mod error;
pub mod handlers;
pub mod hook;
pub mod meta;
pub mod models;
pub mod number;
pub mod outside;
pub mod push;
pub mod queue;
pub mod rate_limiter;
pub mod record;
pub mod text;
pub mod worker;
