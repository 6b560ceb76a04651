//! A durable telemetry relay: metric batches come in over a named pipe, wait in
//! an embedded ordered store, and leave over mutually authenticated TLS.
//!
//! This crate holds the decisions of the relay, each with its contract. Reading
//! pipes, touching the store, posting to the sink and calling the Windows
//! certificate functions is left to the program around it.
pub mod audit;
pub mod bytes;
pub mod config;
pub mod lifecycle;
pub mod relay;
pub mod text;
pub mod tls;
