//! A verified core for an SMPP v3.4 load generator.
//!
//! The crate holds the traffic driver's decision and accounting layer: the
//! per-bind status registry, the monotone metrics aggregator, the delivery
//! receipt parser and classifier, the token-bucket submit window, and the
//! per-session correlation of submissions with their receipts.  Connection
//! handling, task scheduling and terminal output live outside the library and
//! call into it with plain values.

pub mod bind_tracker;
pub mod config;
pub mod dlr;
pub mod metrics;
pub mod pdu;
pub mod session;
pub mod throttle;
