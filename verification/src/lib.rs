//! Semantic memory store: data model, scoring, ranking and storage decisions.

pub mod bytes;
pub mod clock;
pub mod config;
pub mod embedding;
pub mod expmath;
pub mod fixed;
pub mod ident;
pub mod knowledge;
pub mod mcp;
pub mod memory;
pub mod order;
pub mod storage;
pub mod text;
pub mod vector_optimizer;
