//! Knowledge from web pages: chunks, their sources and their upkeep.

pub mod chunker;
pub mod formatting;
pub mod manager;
pub mod store;
pub mod types;
