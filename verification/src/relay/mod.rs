//! The relay proper: what is stored for a message, when it leaves, when it is dropped.
pub mod egress;
pub mod history;
pub mod ingest;
pub mod record;
pub mod retention;
pub mod store;
