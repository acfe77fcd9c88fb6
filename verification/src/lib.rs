//! Offline long-term memory store for AI agents: the verified core.
//!
//! The library holds the memory records, the operations that add, list,
//! delete and clear them, the ranking of search hits, the request and
//! response logic of the tool protocol and of the web dashboard, and the
//! decisions of the interactive menu. Reading and writing files, the
//! terminal, the network and the embedding model live outside it.

pub mod config;
pub mod text;
pub mod query;
pub mod ids;
pub mod record;
pub mod store;
pub mod ranking;
pub mod json;
pub mod payload;
pub mod mcp;
pub mod dashboard;
pub mod menu;
