//! A verified JSON-RPC 2.0 adapter core.
//!
//! The crate models the wire protocol (requests, responses, notifications,
//! errors, ids, batches), validates messages against the JSON-RPC 2.0 rules,
//! converts between wire messages and domain capability invocations, maps
//! internal errors to wire error codes, and drives the per-message dispatch
//! pipeline. Transport I/O stays outside; the library consumes and produces
//! whole message texts.

pub mod conversion;
pub mod error;
pub mod json;
pub mod processor;
pub mod protocol;
pub mod text;

pub use error::{McpError, McpResult, Severity};
pub use processor::{JsonRpcProcessor, Tool, ToolRegistry, ToolRegistryBuilder};
pub use protocol::{
    parse_id, JsonRpcBatch, JsonRpcError, JsonRpcId, JsonRpcNotification, JsonRpcRequest,
    JsonRpcResponse,
};
