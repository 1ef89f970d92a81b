//! Verified core of the Stellux blog backend: configuration, the response
//! and error shapes, request parameters, text processing for search and
//! import, the directory tree, data import and export, and the MCP access
//! rules.

pub mod text;
pub mod natural_order;
pub mod sorting;
pub mod config;
pub mod error;
pub mod models;
pub mod repositories;
pub mod handlers;
pub mod mcp;
