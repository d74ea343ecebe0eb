//! Indexing and querying of blockchain key/value state entries.
//!
//! The crate models a typed filter/sort query language with semantic
//! validation and compilation into textual SQL predicates, a compound-key
//! tokenization codec that splits opaque key strings into typed positional
//! fragments, a height-tracked ingestion reconciler, and the historical
//! resolution logic for point-in-time lookups.

pub mod api;
pub mod codec;
pub mod config;
pub mod entries;
pub mod errors;
pub mod escape;
pub mod historical;
pub mod model;
pub mod reconciler;
pub mod repo;
pub mod sql;
pub mod strfmt;
pub mod validate;
