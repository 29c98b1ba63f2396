//! Verified core of a command-line and MCP front end for the Things 3 task manager.

pub mod text;
pub mod applescript;
pub mod url_scheme;
pub mod types;
pub mod ops;
pub mod display;
pub mod serve;
pub mod mcp;
