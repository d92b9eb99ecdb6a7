//! The language server gateway's decisions: workspace configuration, URI
//! and path handling, routing of messages, and cross-language queries over
//! the symbol graph.

pub mod config;
pub mod diagnostics;
pub mod gateway;
pub mod graph;
pub mod paths;
