//! The mutually authenticated TLS channel to the sink.
pub mod client;
pub mod der;
pub mod hexadecimal;
pub mod identity;
pub mod pin;
pub mod scheme;
pub mod signature;
pub mod suites;
