//! Idempotent write path of an event-ingestion service: payload encoding with
//! an integrity digest, identifier assignment, and duplicate-safe appends.

pub mod model;
pub mod cbor;
pub mod digest;
pub mod compression;
pub mod codec;
pub mod ident;
pub mod store;
pub mod ingest;
pub mod transaction;
