//! Tests of the protocol model: validation rules, id handling, error-code
//! mapping, and the JSON codec.
use mcp_jsonrpc::error::{error_to_json_rpc, McpError, Severity};
use mcp_jsonrpc::json::{parse_json_text, to_json_text, JsonValue};
use mcp_jsonrpc::protocol::{parse_id, JsonRpcError, JsonRpcId, JsonRpcRequest, JsonRpcResponse};

fn request(jsonrpc: &str, method: &str, id: JsonRpcId) -> JsonRpcRequest {
    JsonRpcRequest {
        jsonrpc: String::from(jsonrpc),
        method: String::from(method),
        params: None,
        id,
    }
}

#[test]
fn request_validate_accepts_well_formed() {
    assert!(request("2.0", "echo", JsonRpcId::Number(1)).validate().is_ok());
    assert!(request("2.0", "a", JsonRpcId::Null).validate().is_ok());
    // "rpc" without the dot is not reserved
    assert!(request("2.0", "rpc", JsonRpcId::Null).validate().is_ok());
    assert!(request("2.0", "rpcx.free", JsonRpcId::Null).validate().is_ok());
}

#[test]
fn request_validate_rejects_bad_version() {
    assert!(request("1.0", "echo", JsonRpcId::Number(1)).validate().is_err());
    assert!(request("2.1", "echo", JsonRpcId::Number(1)).validate().is_err());
    assert!(request("", "echo", JsonRpcId::Number(1)).validate().is_err());
}

#[test]
fn request_validate_rejects_empty_method() {
    assert!(request("2.0", "", JsonRpcId::Number(1)).validate().is_err());
}

#[test]
fn request_validate_rejects_reserved_prefix() {
    assert!(request("2.0", "rpc.internal", JsonRpcId::Number(1)).validate().is_err());
    assert!(request("2.0", "rpc.", JsonRpcId::Number(1)).validate().is_err());
}

fn response(result: Option<JsonValue>, error: Option<JsonRpcError>) -> JsonRpcResponse {
    JsonRpcResponse {
        jsonrpc: String::from("2.0"),
        result,
        error,
        id: JsonRpcId::Number(1),
    }
}

fn wire_error(code: i32) -> JsonRpcError {
    JsonRpcError { code, message: String::from("boom"), data: None }
}

#[test]
fn response_validate_requires_exactly_one_of_result_and_error() {
    assert!(response(Some(JsonValue::Null), None).validate().is_ok());
    assert!(response(None, Some(wire_error(-32600))).validate().is_ok());
    assert!(response(Some(JsonValue::Null), Some(wire_error(-32600))).validate().is_err());
    assert!(response(None, None).validate().is_err());
}

#[test]
fn response_validate_checks_version_and_error_object() {
    let mut r = response(Some(JsonValue::Bool(true)), None);
    r.jsonrpc = String::from("1.0");
    assert!(r.validate().is_err());
    // an illegal code inside the error object is caught too
    assert!(response(None, Some(wire_error(42))).validate().is_err());
}

#[test]
fn error_validate_accepts_exactly_the_legal_codes() {
    for code in [-32700, -32600, -32601, -32602, -32603, -32000, -32050, -32099] {
        assert!(wire_error(code).validate().is_ok(), "code {} should be legal", code);
    }
    for code in [0, 1, -1, -32100, -31999, -32604, -32699, -32701, 32700] {
        assert!(wire_error(code).validate().is_err(), "code {} should be illegal", code);
    }
}

#[test]
fn error_validate_rejects_empty_message() {
    let e = JsonRpcError { code: -32700, message: String::new(), data: None };
    assert!(e.validate().is_err());
}

#[test]
fn parse_id_null_number_string() {
    assert!(matches!(parse_id("null"), JsonRpcId::Null));
    assert!(matches!(parse_id("42"), JsonRpcId::Number(42)));
    assert!(matches!(parse_id("-7"), JsonRpcId::Number(-7)));
    match parse_id("abc") {
        JsonRpcId::String(s) => assert_eq!(s, "abc"),
        _ => panic!("expected a string id"),
    }
    // i64 overflow falls back to a string id
    match parse_id("99999999999999999999") {
        JsonRpcId::String(s) => assert_eq!(s, "99999999999999999999"),
        _ => panic!("expected a string id"),
    }
}

#[test]
fn id_to_string_forms() {
    assert_eq!(JsonRpcId::Null.to_string(), "null");
    assert_eq!(JsonRpcId::Number(42).to_string(), "42");
    assert_eq!(JsonRpcId::Number(-5).to_string(), "-5");
    assert_eq!(JsonRpcId::Number(i64::MIN).to_string(), "-9223372036854775808");
    assert_eq!(JsonRpcId::String(String::from("abc")).to_string(), "abc");
}

#[test]
fn id_round_trip_is_lossy_for_numeric_strings() {
    // a string id spelling an integer is re-inferred as the numeric id
    let textual = JsonRpcId::String(String::from("42"));
    let reparsed = parse_id(&textual.to_string());
    assert!(matches!(reparsed, JsonRpcId::Number(42)));
    // null and numeric ids round-trip exactly
    assert!(matches!(parse_id(&JsonRpcId::Null.to_string()), JsonRpcId::Null));
    assert!(matches!(parse_id(&JsonRpcId::Number(-3).to_string()), JsonRpcId::Number(-3)));
}

fn mcp_error(reference: &str) -> McpError {
    McpError::new(Severity::Error, reference, "something went wrong")
}

#[test]
fn error_mapper_table() {
    assert_eq!(error_to_json_rpc(&mcp_error("TOOL-NOTFOUND")).0, -32601);
    assert_eq!(error_to_json_rpc(&mcp_error("PARAM-INVALID")).0, -32602);
    assert_eq!(error_to_json_rpc(&mcp_error("TOOL-ERROR")).0, -32000);
    assert_eq!(error_to_json_rpc(&mcp_error("INTERNAL")).0, -32603);
    assert_eq!(error_to_json_rpc(&mcp_error("JSONRPC-005")).0, -32603);
    assert_eq!(error_to_json_rpc(&mcp_error("JSONRPC-001")).0, -32700);
    assert_eq!(error_to_json_rpc(&mcp_error("JSONRPC-004")).0, -32600);
    // substring matching: the tag may be embedded
    assert_eq!(error_to_json_rpc(&mcp_error("core/TOOL-NOTFOUND/x")).0, -32601);
    // priority: TOOL-NOTFOUND wins over TOOL-ERROR
    assert_eq!(error_to_json_rpc(&mcp_error("TOOL-ERROR TOOL-NOTFOUND")).0, -32601);
    let (code, message) = error_to_json_rpc(&mcp_error("SOMETHING-ELSE"));
    assert_eq!(code, -32603);
    assert_eq!(message, "Internal error: SOMETHING-ELSE: something went wrong");
}

#[test]
fn json_parses_scalars() {
    assert!(matches!(parse_json_text("null"), Some(JsonValue::Null)));
    assert!(matches!(parse_json_text("true"), Some(JsonValue::Bool(true))));
    assert!(matches!(parse_json_text("false"), Some(JsonValue::Bool(false))));
    assert!(matches!(parse_json_text("42"), Some(JsonValue::Int(42))));
    assert!(matches!(parse_json_text("-17"), Some(JsonValue::Int(-17))));
    assert!(matches!(parse_json_text("0"), Some(JsonValue::Int(0))));
    assert!(matches!(parse_json_text("  null  "), Some(JsonValue::Null)));
    match parse_json_text("\"hi\"") {
        Some(JsonValue::Str(s)) => assert_eq!(s, "hi"),
        _ => panic!("expected a string"),
    }
}

#[test]
fn json_rejects_malformed_text() {
    assert!(parse_json_text("not json").is_none());
    assert!(parse_json_text("").is_none());
    assert!(parse_json_text("nul").is_none());
    assert!(parse_json_text("{\"a\":1").is_none());
    assert!(parse_json_text("[1,]").is_none());
    assert!(parse_json_text("42 garbage").is_none());
    assert!(parse_json_text("\"unterminated").is_none());
    // numbers outside the model: fractions, exponents, leading zeros,
    // values beyond 64-bit signed range
    assert!(parse_json_text("1.5").is_none());
    assert!(parse_json_text("1e3").is_none());
    assert!(parse_json_text("01").is_none());
    assert!(parse_json_text("9223372036854775808").is_none());
    assert!(parse_json_text("-9223372036854775809").is_none());
}

#[test]
fn json_parses_at_i64_bounds() {
    assert!(matches!(
        parse_json_text("9223372036854775807"),
        Some(JsonValue::Int(9223372036854775807))
    ));
    assert!(matches!(
        parse_json_text("-9223372036854775808"),
        Some(JsonValue::Int(-9223372036854775808))
    ));
}

#[test]
fn json_parses_structures() {
    let v = parse_json_text(" { \"a\" : [ 1 , true , \"x\" ] , \"b\" : { } } ").expect("parses");
    assert_eq!(to_json_text(&v), "{\"a\":[1,true,\"x\"],\"b\":{}}");
    let v2 = parse_json_text("[]").expect("parses");
    assert_eq!(to_json_text(&v2), "[]");
}

#[test]
fn json_string_escapes_round_trip() {
    let v = parse_json_text("\"a\\n\\t\\\"\\\\b\\u0041\\u00e9\"").expect("parses");
    match &v {
        JsonValue::Str(s) => assert_eq!(s, "a\n\t\"\\bA\u{e9}"),
        _ => panic!("expected a string"),
    }
    assert_eq!(to_json_text(&v), "\"a\\n\\t\\\"\\\\bA\u{e9}\"");
    // a surrogate pair decodes to one character
    let w = parse_json_text("\"\\ud83d\\ude00\"").expect("parses");
    match &w {
        JsonValue::Str(s) => assert_eq!(s, "\u{1f600}"),
        _ => panic!("expected a string"),
    }
    // a lone surrogate is rejected, as is a control character in the raw text
    assert!(parse_json_text("\"\\ud83d\"").is_none());
    assert!(parse_json_text("\"a\nb\"").is_none());
}

#[test]
fn json_serializer_escapes_controls() {
    let v = JsonValue::Str(String::from("a\u{1}b\u{8}c"));
    assert_eq!(to_json_text(&v), "\"a\\u0001b\\bc\"");
    let n = JsonValue::Int(i64::MIN);
    assert_eq!(to_json_text(&n), "-9223372036854775808");
}
