//! A terminal client's core for a Reticulum-style mesh network: announce
//! ingestion and classification, the saved-node registry, the page-fetch
//! state machine with its chunked-resource assembler, and the wire codec
//! for requests and responses.
pub mod announce;
pub mod assembler;
pub mod cache;
pub mod config;
pub mod fetch;
pub mod format;
pub mod hashing;
pub mod history;
pub mod links;
pub mod registry;
pub mod types;
pub mod views;
pub mod wire;
