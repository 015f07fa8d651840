//! Tests of the registry, the conversion layer and the dispatch engine,
//! including whole-message round trips.
use mcp_jsonrpc::conversion::{
    domain_to_json_rpc_response, json_rpc_to_domain_request, SimpleDomainResponse,
};
use mcp_jsonrpc::error::{McpError, McpResult, Severity};
use mcp_jsonrpc::json::JsonValue;
use mcp_jsonrpc::processor::{JsonRpcProcessor, Tool, ToolRegistry};
use mcp_jsonrpc::protocol::{JsonRpcBatch, JsonRpcId, JsonRpcNotification, JsonRpcRequest};

/// A test capability: echoes its parameters, fails, or counts as absent.
enum TestTool {
    Echo,
    Fail,
}

impl Tool for TestTool {
    fn execute(&self, params: JsonValue) -> McpResult<JsonValue> {
        match self {
            TestTool::Echo => Ok(params),
            TestTool::Fail => Err(McpError::new(Severity::Error, "TOOL-ERROR", "boom")),
        }
    }
}

fn engine() -> JsonRpcProcessor<TestTool> {
    let registry = ToolRegistry::builder()
        .with_tool("echo", TestTool::Echo)
        .with_tool("fail", TestTool::Fail)
        .build();
    JsonRpcProcessor::new(registry)
}

fn request(method: &str, params: Option<JsonValue>, id: JsonRpcId) -> JsonRpcRequest {
    JsonRpcRequest {
        jsonrpc: String::from("2.0"),
        method: String::from(method),
        params,
        id,
    }
}

#[test]
fn registry_lookup_and_shadowing() {
    let mut registry = ToolRegistry::builder().with_tool("echo", TestTool::Echo).build();
    assert!(registry.get("echo").is_some());
    assert!(registry.get("nope").is_none());
    // a later insert shadows the earlier registration
    registry.insert("echo", TestTool::Fail);
    match registry.get("echo") {
        Some(TestTool::Fail) => {},
        _ => panic!("expected the shadowing registration"),
    }
    let empty: ToolRegistry<TestTool> = ToolRegistry::new();
    assert!(empty.get("echo").is_none());
}

#[test]
fn conversion_to_domain_request() {
    let req = request("echo", Some(JsonValue::Bool(true)), JsonRpcId::Number(9));
    let d = json_rpc_to_domain_request(&req).expect("valid request converts");
    assert_eq!(d.id, "9");
    assert_eq!(d.tool_name, "echo");
    assert!(matches!(d.params, JsonValue::Bool(true)));
    // a missing params member becomes the null value
    let req2 = request("echo", None, JsonRpcId::Null);
    let d2 = json_rpc_to_domain_request(&req2).expect("valid request converts");
    assert_eq!(d2.id, "null");
    assert!(matches!(d2.params, JsonValue::Null));
    // an invalid request does not convert
    let bad = request("rpc.x", None, JsonRpcId::Null);
    assert!(json_rpc_to_domain_request(&bad).is_err());
}

#[test]
fn conversion_to_wire_response() {
    let ok = SimpleDomainResponse { id: String::from("3"), result: Ok(JsonValue::Int(5)) };
    let w = domain_to_json_rpc_response(&ok).expect("conversion succeeds");
    assert!(matches!(w.id, JsonRpcId::Number(3)));
    assert!(matches!(w.result, Some(JsonValue::Int(5))));
    assert!(w.error.is_none());
    assert!(w.validate().is_ok());

    let failed = SimpleDomainResponse {
        id: String::from("3"),
        result: Err(McpError::new(Severity::Error, "TOOL-ERROR", "boom")),
    };
    let w2 = domain_to_json_rpc_response(&failed).expect("conversion succeeds");
    let e = w2.error.expect("an error object");
    assert_eq!(e.code, -32000);
    assert_eq!(e.message, "Server error");
    assert!(w2.result.is_none());
}

#[test]
fn process_request_invalid_request() {
    let resp = engine().process_request(request("rpc.x", None, JsonRpcId::Number(4)));
    assert!(resp.validate().is_ok());
    let e = resp.error.expect("an error object");
    assert_eq!(e.code, -32600);
    assert_eq!(e.message, "Invalid request");
    assert!(matches!(resp.id, JsonRpcId::Number(4)));
}

#[test]
fn process_request_unknown_capability() {
    let resp = engine().process_request(request("nope", None, JsonRpcId::Number(7)));
    let e = resp.error.expect("an error object");
    assert_eq!(e.code, -32601);
    assert_eq!(e.message, "Method not found");
    assert!(matches!(resp.id, JsonRpcId::Number(7)));
}

#[test]
fn process_request_failing_capability() {
    let resp = engine().process_request(request("fail", None, JsonRpcId::Number(2)));
    let e = resp.error.expect("an error object");
    assert_eq!(e.code, -32000);
    assert_eq!(e.message, "Server error");
    // the data carries the original failure's text
    match e.data {
        Some(JsonValue::Obj(fields)) => {
            assert_eq!(fields.len(), 1);
            assert_eq!(fields[0].0, "error_type");
            match &fields[0].1 {
                JsonValue::Str(s) => assert!(s.contains("boom")),
                _ => panic!("expected the failure text"),
            }
        },
        _ => panic!("expected structured data"),
    }
}

#[test]
fn process_notification_outcomes() {
    let p = engine();
    let good = JsonRpcNotification {
        jsonrpc: String::from("2.0"),
        method: String::from("echo"),
        params: None,
    };
    assert!(p.process_notification(good).is_ok());
    // an unknown capability is silently best-effort
    let unknown = JsonRpcNotification {
        jsonrpc: String::from("2.0"),
        method: String::from("nope"),
        params: None,
    };
    assert!(p.process_notification(unknown).is_ok());
    // a failing capability is reported to the caller, never to the wire
    let failing = JsonRpcNotification {
        jsonrpc: String::from("2.0"),
        method: String::from("fail"),
        params: None,
    };
    assert!(p.process_notification(failing).is_err());
    // an invalid notification is a protocol violation
    let invalid = JsonRpcNotification {
        jsonrpc: String::from("1.0"),
        method: String::from("echo"),
        params: None,
    };
    assert!(p.process_notification(invalid).is_err());
}

#[test]
fn batch_of_requests_answers_each_in_order() {
    let p = engine();
    let reqs = vec![
        request("echo", Some(JsonValue::Int(1)), JsonRpcId::Number(1)),
        request("nope", None, JsonRpcId::Number(2)),
        request("echo", Some(JsonValue::Int(3)), JsonRpcId::Number(3)),
    ];
    let responses = p.process_batch(JsonRpcBatch::Requests(reqs));
    assert_eq!(responses.len(), 3);
    assert!(matches!(responses[0].id, JsonRpcId::Number(1)));
    assert!(matches!(responses[1].id, JsonRpcId::Number(2)));
    assert!(matches!(responses[2].id, JsonRpcId::Number(3)));
    assert!(responses[0].error.is_none());
    assert_eq!(responses[1].error.as_ref().expect("an error").code, -32601);
    assert!(responses[2].error.is_none());
}

#[test]
fn batch_of_notifications_yields_no_output() {
    let p = engine();
    let notes = vec![
        JsonRpcNotification {
            jsonrpc: String::from("2.0"),
            method: String::from("fail"),
            params: None,
        },
        JsonRpcNotification {
            jsonrpc: String::from("2.0"),
            method: String::from("fail"),
            params: None,
        },
    ];
    let responses = p.process_batch(JsonRpcBatch::Notifications(notes));
    assert_eq!(responses.len(), 0);
}

#[test]
fn message_echo_end_to_end() {
    let out = engine()
        .process_message("{\"jsonrpc\":\"2.0\",\"method\":\"echo\",\"params\":{\"text\":\"hi\"},\"id\":1}")
        .expect("a single request is answered");
    assert_eq!(out, "{\"jsonrpc\":\"2.0\",\"result\":{\"text\":\"hi\"},\"id\":1}");
}

#[test]
fn message_reserved_method_end_to_end() {
    let out = engine()
        .process_message("{\"jsonrpc\":\"2.0\",\"method\":\"rpc.internal\",\"id\":1}")
        .expect("an invalid request is answered");
    assert_eq!(
        out,
        "{\"jsonrpc\":\"2.0\",\"error\":{\"code\":-32600,\"message\":\"Invalid request\",\"data\":{\"error\":\"JSONRPC-004: Method names that begin with 'rpc.' are reserved\"}},\"id\":1}"
    );
}

#[test]
fn message_malformed_end_to_end() {
    let out = engine().process_message("not json").expect("malformed text is answered");
    assert_eq!(
        out,
        "{\"jsonrpc\":\"2.0\",\"error\":{\"code\":-32700,\"message\":\"Parse error\",\"data\":{\"error\":\"JSONRPC-001: JSON processing error: the message is not valid JSON-RPC\"}},\"id\":null}"
    );
}

#[test]
fn message_batch_end_to_end() {
    let p = engine();
    let out = p
        .process_message(
            "[{\"jsonrpc\":\"2.0\",\"method\":\"echo\",\"params\":1,\"id\":1},{\"jsonrpc\":\"2.0\",\"method\":\"echo\",\"params\":2,\"id\":2}]",
        )
        .expect("a requests batch is answered");
    assert_eq!(
        out,
        "[{\"jsonrpc\":\"2.0\",\"result\":1,\"id\":1},{\"jsonrpc\":\"2.0\",\"result\":2,\"id\":2}]"
    );
}

#[test]
fn message_notification_and_batches_of_them_yield_nothing() {
    let p = engine();
    assert!(p.process_message("{\"jsonrpc\":\"2.0\",\"method\":\"echo\"}").is_none());
    // every invocation failing changes nothing
    assert!(
        p.process_message(
            "[{\"jsonrpc\":\"2.0\",\"method\":\"fail\"},{\"jsonrpc\":\"2.0\",\"method\":\"fail\"}]"
        ).is_none()
    );
    // an empty array parses as an empty requests batch: nothing to answer
    assert!(p.process_message("[]").is_none());
}

#[test]
fn message_mixed_batch_is_treated_as_notifications() {
    // an id-less element rules out a requests batch; ids on the others are
    // ignored in the notification reading, so no output results
    let p = engine();
    let out = p.process_message(
        "[{\"jsonrpc\":\"2.0\",\"method\":\"echo\",\"id\":1},{\"jsonrpc\":\"2.0\",\"method\":\"echo\"}]",
    );
    assert!(out.is_none());
}

#[test]
fn engine_clones_share_the_registry() {
    let p = engine();
    let q = p.clone();
    let out = q
        .process_message("{\"jsonrpc\":\"2.0\",\"method\":\"echo\",\"params\":7,\"id\":1}")
        .expect("answered");
    assert_eq!(out, "{\"jsonrpc\":\"2.0\",\"result\":7,\"id\":1}");
    assert!(p.process_message("{\"jsonrpc\":\"2.0\",\"method\":\"echo\"}").is_none());
}

#[test]
fn message_tolerates_whitespace_and_nesting() {
    let out = engine()
        .process_message(
            " { \"jsonrpc\" : \"2.0\" , \"method\" : \"echo\" , \"params\" : [ { \"a\" : [ 1 , 2 ] } , null ] , \"id\" : 5 } ",
        )
        .expect("answered");
    assert_eq!(out, "{\"jsonrpc\":\"2.0\",\"result\":[{\"a\":[1,2]},null],\"id\":5}");
}

#[test]
fn message_duplicate_member_uses_first_occurrence() {
    let out = engine()
        .process_message(
            "{\"jsonrpc\":\"2.0\",\"method\":\"echo\",\"method\":\"nope\",\"params\":0,\"id\":1}",
        )
        .expect("answered");
    assert_eq!(out, "{\"jsonrpc\":\"2.0\",\"result\":0,\"id\":1}");
}

#[test]
fn message_extreme_numeric_id_round_trips() {
    let out = engine()
        .process_message(
            "{\"jsonrpc\":\"2.0\",\"method\":\"echo\",\"params\":0,\"id\":-9223372036854775808}",
        )
        .expect("answered");
    assert_eq!(out, "{\"jsonrpc\":\"2.0\",\"result\":0,\"id\":-9223372036854775808}");
}

#[test]
fn message_lossy_string_id_round_trip() {
    // the documented fidelity gap: a request whose id is the string "42"
    // is answered under the numeric id 42
    let out = engine()
        .process_message("{\"jsonrpc\":\"2.0\",\"method\":\"echo\",\"params\":null,\"id\":\"42\"}")
        .expect("answered");
    assert_eq!(out, "{\"jsonrpc\":\"2.0\",\"result\":null,\"id\":42}");
}
