//! A small log-aggregation service: newline-framed requests arrive on client
//! connections, a single dispatcher executes them against a log store, and
//! replies or broadcasts go back out through per-client writers.
//!
//! This crate holds the decisions of that service: framing, record
//! conversion, the client registry and the dispatcher's state machine.
//! Sockets, channels, the database and JSON encoding are driven by the
//! program around it.
pub mod store_error;
pub mod log;
pub mod framing;
pub mod connection;
pub mod error;
pub mod dto;
pub mod actions;
pub mod state;
pub mod dispatch;
