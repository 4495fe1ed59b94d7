//! A health-tracking synchronization core: symptoms and time-stamped
//! metrics kept across intermittently connected devices.
//!
//! The heart of the crate is the dual-timestamp change-tracking model —
//! a server-owned `published_at` clock next to a client-owned
//! `updated_at` — and the bulk sync protocol built on it: a cursor-based
//! pull of everything published since an instant, and a batch push with
//! per-item outcome reporting and last-writer-wins upserts.  Every
//! operation is specified against a mathematical view of the store, and
//! the protocol's guarantees are proved in [`laws`].

pub mod all;
pub mod config;
pub mod db;
pub mod domain;
pub mod errors;
pub mod ids;
pub mod laws;
pub mod metrics;
pub mod security;
pub mod store;
pub mod symptoms;
pub mod timestamp;
