//! Verified core of an MCP server that manages Docker Compose stacks on a
//! Portainer instance: environment-variable redaction, the shape of every
//! Portainer API request, and the classification of API responses.

pub mod models;
pub mod text;
pub mod wire;
pub mod redact;
pub mod client;
pub mod server;
