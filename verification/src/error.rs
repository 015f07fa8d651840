//! The internal error model and the mapping from internal errors to wire
//! error codes.
//!
//! An internal error carries a severity, a short categorical reference tag,
//! and a message. The mapper selects the wire code by substring matching on
//! the reference tag, in a fixed priority order.
use vstd::prelude::*;
use vstd::string::StringExecFns;
use crate::text::{contains_seq, str_contains};

verus! {

/// Invalid JSON was received by the server.
pub const PARSE_ERROR: i32 = -32700;

/// The JSON sent is not a valid Request object.
pub const INVALID_REQUEST: i32 = -32600;

/// The method does not exist / is not available.
pub const METHOD_NOT_FOUND: i32 = -32601;

/// Invalid method parameter(s).
pub const INVALID_PARAMS: i32 = -32602;

/// Internal JSON-RPC error.
pub const INTERNAL_ERROR: i32 = -32603;

/// First code reserved for implementation-defined server errors.
pub const SERVER_ERROR_START: i32 = -32000;

/// Last code reserved for implementation-defined server errors.
pub const SERVER_ERROR_END: i32 = -32099;

/// How grave an internal error is.
#[derive(Clone, Copy, PartialEq, Eq, Structural, Debug)]
pub enum Severity {
    Error,
    Critical,
}

/// An internal error: a severity, a reference tag selecting its category,
/// and a human-readable message.
#[derive(Debug)]
pub struct McpError {
    pub severity: Severity,
    pub reference: String,
    pub message: String,
}

/// The rendered text of an internal error: its reference tag, then its
/// message.
pub open spec fn error_text(e: McpError) -> Seq<char> {
    e.reference@ + ": "@ + e.message@
}

impl McpError {
    /// Builds an error from its parts.
    pub fn new(severity: Severity, reference: &str, message: &str) -> (r: McpError)
        ensures
            r.severity == severity,
            r.reference@ == reference@,
            r.message@ == message@,
    {
        McpError {
            severity,
            reference: String::from_str(reference),
            message: String::from_str(message),
        }
    }

    /// The rendered text of the error.
    pub fn render(&self) -> (r: String)
        ensures
            r@ == error_text(*self),
    {
        let mut out = self.reference.clone();
        out.append(": ");
        out.append(self.message.as_str());
        out
    }
}

impl Clone for McpError {
    /// A copy with the same severity, reference and message.
    fn clone(&self) -> (r: Self)
        ensures
            r.severity == self.severity,
            r.reference@ == self.reference@,
            r.message@ == self.message@,
    {
        McpError { severity: self.severity, reference: self.reference.clone(), message: self.message.clone() }
    }
}

/// A result whose error is the internal error type.
pub type McpResult<T> = Result<T, McpError>;

/// Builds an error for unparseable JSON text; the detail names what failed.
pub fn json_error(detail: &str) -> (r: McpError)
    ensures
        r.severity == Severity::Error,
        r.reference@ == "JSONRPC-001"@,
        r.message@ == "JSON processing error: "@ + detail@,
{
    let mut msg = String::from_str("JSON processing error: ");
    msg.append(detail);
    McpError { severity: Severity::Error, reference: String::from_str("JSONRPC-001"), message: msg }
}

/// Builds a transport error.
pub fn transport_error(msg: &str) -> (r: McpError)
    ensures
        r.severity == Severity::Error,
        r.reference@ == "JSONRPC-002"@,
        r.message@ == msg@,
{
    McpError::new(Severity::Error, "JSONRPC-002", msg)
}

/// Builds a conversion error.
pub fn conversion_error(msg: &str) -> (r: McpError)
    ensures
        r.severity == Severity::Error,
        r.reference@ == "JSONRPC-003"@,
        r.message@ == msg@,
{
    McpError::new(Severity::Error, "JSONRPC-003", msg)
}

/// Builds a protocol-violation error.
pub fn protocol_error(msg: &str) -> (r: McpError)
    ensures
        r.severity == Severity::Error,
        r.reference@ == "JSONRPC-004"@,
        r.message@ == msg@,
{
    McpError::new(Severity::Error, "JSONRPC-004", msg)
}

/// Builds an internal error.
pub fn internal_error(msg: &str) -> (r: McpError)
    ensures
        r.severity == Severity::Critical,
        r.reference@ == "JSONRPC-005"@,
        r.message@ == msg@,
{
    McpError::new(Severity::Critical, "JSONRPC-005", msg)
}

/// Wraps a domain failure; the detail is the underlying failure's text.
pub fn domain_error(detail: &str, msg: &str) -> (r: McpError)
    ensures
        r.severity == Severity::Error,
        r.reference@ == "JSONRPC-006"@,
        r.message@ == msg@ + ": "@ + detail@,
{
    let mut m = String::from_str(msg);
    m.append(": ");
    m.append(detail);
    McpError { severity: Severity::Error, reference: String::from_str("JSONRPC-006"), message: m }
}

/// The wire code an internal error maps to, selected by substring matching
/// on the reference tag, first match winning.
pub open spec fn mapped_code(reference: Seq<char>) -> int {
    if contains_seq(reference, "TOOL-NOTFOUND"@) {
        -32601
    } else if contains_seq(reference, "PARAM-INVALID"@) {
        -32602
    } else if contains_seq(reference, "TOOL-ERROR"@) {
        -32000
    } else if contains_seq(reference, "INTERNAL"@) || contains_seq(reference, "JSONRPC-005"@) {
        -32603
    } else if contains_seq(reference, "JSONRPC-001"@) {
        -32700
    } else if contains_seq(reference, "JSONRPC-004"@) {
        -32600
    } else {
        -32603
    }
}

/// The short wire message that goes with the mapped code; an unmatched tag
/// embeds the rendered internal error.
pub open spec fn mapped_message(e: McpError) -> Seq<char> {
    let reference = e.reference@;
    if contains_seq(reference, "TOOL-NOTFOUND"@) {
        "Method not found"@
    } else if contains_seq(reference, "PARAM-INVALID"@) {
        "Invalid params"@
    } else if contains_seq(reference, "TOOL-ERROR"@) {
        "Server error"@
    } else if contains_seq(reference, "INTERNAL"@) || contains_seq(reference, "JSONRPC-005"@) {
        "Internal error"@
    } else if contains_seq(reference, "JSONRPC-001"@) {
        "Parse error"@
    } else if contains_seq(reference, "JSONRPC-004"@) {
        "Invalid Request"@
    } else {
        "Internal error: "@ + error_text(e)
    }
}

/// Maps an internal error to its wire error code and short message.
pub fn error_to_json_rpc(err: &McpError) -> (r: (i32, String))
    ensures
        r.0 as int == mapped_code(err.reference@),
        r.1@ == mapped_message(*err),
{
    let reference = err.reference.as_str();
    if str_contains(reference, "TOOL-NOTFOUND") {
        (METHOD_NOT_FOUND, String::from_str("Method not found"))
    } else if str_contains(reference, "PARAM-INVALID") {
        (INVALID_PARAMS, String::from_str("Invalid params"))
    } else if str_contains(reference, "TOOL-ERROR") {
        (SERVER_ERROR_START, String::from_str("Server error"))
    } else if str_contains(reference, "INTERNAL") || str_contains(reference, "JSONRPC-005") {
        (INTERNAL_ERROR, String::from_str("Internal error"))
    } else if str_contains(reference, "JSONRPC-001") {
        (PARSE_ERROR, String::from_str("Parse error"))
    } else if str_contains(reference, "JSONRPC-004") {
        (INVALID_REQUEST, String::from_str("Invalid Request"))
    } else {
        let mut msg = String::from_str("Internal error: ");
        let rendered = err.render();
        msg.append(rendered.as_str());
        (INTERNAL_ERROR, msg)
    }
}

} // verus!
