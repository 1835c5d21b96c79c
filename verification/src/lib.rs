//! Observes which sessions are active on a remote access concentrator,
//! tracks round-trip latency to each connected peer, and keeps a shared
//! cache of that state consistent while sessions come and go.
//!
//! The heart of the crate is the reconciliation engine in [`usecase`]: on
//! every pass it diffs a freshly fetched session list against the cached
//! one, starts and stops per-peer latency monitoring accordingly, and
//! swaps the cache atomically.  The cache, the monitor registry and the
//! engine are verified; talking to the device and pushing notifications
//! to subscribers happen outside, and their results are handed in as
//! plain values.

pub mod auth;
pub mod cache;
pub mod config;
pub mod decimal;
pub mod ipv4;
pub mod mikrotik;
pub mod models;
pub mod monitor;
pub mod repository;
pub mod session_set;
pub mod usecase;
