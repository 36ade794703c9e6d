//! A minimal message relay: a request names a destination and carries a body,
//! is acknowledged at once with a fresh message identifier, and the body is
//! later delivered to the destination by a single background worker.
//!
//! This crate holds the relay's rules: what the delivery target of a request
//! is, what a delivery job is and which states it passes through, what the
//! worker does on each event, and which reply each outcome earns.

pub mod config;
pub mod ident;
pub mod ingest;
pub mod job;
pub mod reply;
pub mod target;
pub mod text;
pub mod worker;
