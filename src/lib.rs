//! Ingestion and query pipeline for semantic search: corpus chunking,
//! embedding requests, collection provisioning and top-1 lookup, with the
//! network work left to the caller.
pub mod chunker;
pub mod embedding;
pub mod error;
pub mod index;
pub mod ingest;
