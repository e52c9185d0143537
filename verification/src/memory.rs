//! Memories: their data model, decay, search signals and storage rules.

pub mod filters;
pub mod git_utils;
pub mod graph;
pub mod hybrid;
pub mod keyword;
pub mod laws;
pub mod ranking;
pub mod reranker_integration;
pub mod rows;
pub mod store;
pub mod types;
