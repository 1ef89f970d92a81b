//! The MCP endpoint: who may reach it, and the checks its tools apply to
//! their arguments.

pub mod auth;
pub mod tools;
