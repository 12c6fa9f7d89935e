//! MCP client tools: naming, framing, configuration and the session protocol.

pub mod protocol;
pub mod config;
pub mod client;
pub mod mock;
