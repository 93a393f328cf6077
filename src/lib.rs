//! Ingestion core of a compressed-asset indexer: instruction routing,
//! per-tree changelog sequencing, sequence-fenced state application and
//! all-or-nothing processing of each instruction bundle.

pub mod types;
pub mod filter;
pub mod bundle;
pub mod leaf;
pub mod model;
pub mod store;
pub mod decoder;
pub mod pipeline;
pub mod laws;
