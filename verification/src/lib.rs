//! A client for the Model Context Protocol.
//!
//! The library holds everything of the client but the reading and the writing: the messages and
//! their JSON, the open requests, the opening of a connection, and the framing of messages on the
//! standard streams of a process and on a stream of server-sent events.
pub mod client;
pub mod codec;
pub mod decode;
pub mod error;
pub mod json;
pub mod laws;
pub mod message;
pub mod rpc;
pub mod text;
pub mod transport;
pub mod types;

pub use client::McpClient;
pub use error::Error;
pub use json::Json;
pub use types::{
    ContentBlock, Double, EmbeddedResource, ProgressUpdate, Prompt, PromptArgument, Resource, ServerCapabilities, Tool,
    ToolEvent, ToolResult,
};
