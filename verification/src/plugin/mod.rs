//! Plugins: manifests, lifecycle, MCP server configuration, skill discovery
//! and secret injection.

pub mod secret;
pub mod manifest;
pub mod lifecycle;
pub mod mcp;
pub mod resolver;
