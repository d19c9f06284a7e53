//! Offline-first data bridge for a clinic dashboard shell.
//!
//! The bridge pairs a durable local key-value store with a connectivity-aware
//! pass-through proxy to a remote REST backend, plus file persistence
//! primitives. A flat command dispatch surface validates every request from
//! the hosted UI before it can reach any of those components. The surrounding
//! shell performs the actual disk, dialog and network work and feeds the
//! outcomes back in as plain values.

pub mod dispatch;
pub mod errors;
pub mod files;
pub mod remote;
pub mod store;
