//! The capability registry and the dispatch engine: per message, parse,
//! validate, convert, invoke, convert back, re-validate, serialize.
use std::sync::Arc;
use vstd::prelude::*;
use vstd::string::StringExecFns;
use crate::conversion::{
    domain_to_json_rpc_response, json_rpc_to_domain_request, SimpleDomainResponse,
};
use crate::error::{
    error_text, error_to_json_rpc, internal_error, json_error, mapped_code, mapped_message,
    protocol_error, McpError, McpResult, Severity, INVALID_REQUEST,
};
use crate::json::{json_of, parse_json_text, JsonModel, JsonValue};
use crate::protocol::{
    batch_from_json, id_text_model, method_line_violation, notification_from_json,
    notification_wf, parsed_id,
    request_from_json, request_wf, response_text, response_to_text, responses_text,
    responses_to_text, BatchModel, ErrorModel, JsonRpcBatch, JsonRpcError, JsonRpcId,
    JsonRpcNotification, JsonRpcRequest, JsonRpcResponse, RequestModel, ResponseModel,
    response_wf,
};
use crate::text::{contains_seq, lemma_no_occurrence, str_eq};

verus! {

/// A capability: a named unit of business logic, invocable with a
/// structured value and producing a structured value or a failure. What an
/// implementation computes is its own affair; the engine promises nothing
/// about it.
pub trait Tool {
    /// Executes the capability with the given parameters.
    fn execute(&self, params: JsonValue) -> (r: McpResult<JsonValue>);
}

/// The first tool registered under the given name, if any.
pub open spec fn lookup_spec<T>(s: Seq<(String, T)>, name: Seq<char>) -> Option<T>
    decreases s.len(),
{
    if s.len() == 0 {
        None
    } else if s[0].0@ == name {
        Some(s[0].1)
    } else {
        lookup_spec(s.drop_first(), name)
    }
}

/// A name-keyed registry of capabilities, built once and then read-only.
pub struct ToolRegistry<T: Tool> {
    tools: Vec<(String, T)>,
}

/// An accumulating builder for a registry.
pub struct ToolRegistryBuilder<T: Tool> {
    tools: Vec<(String, T)>,
}

impl<T: Tool> ToolRegistry<T> {
    /// The tool registered under a name. A later registration of the same
    /// name shadows an earlier one.
    pub closed spec fn lookup(self, name: Seq<char>) -> Option<T> {
        lookup_spec(self.tools@, name)
    }

    /// Creates an empty registry.
    pub fn new() -> (r: Self)
        ensures
            forall|n: Seq<char>| r.lookup(n) is None,
    {
        ToolRegistry { tools: Vec::new() }
    }

    /// Creates a new registry builder for fluent tool registration.
    pub fn builder() -> (r: ToolRegistryBuilder<T>)
        ensures
            forall|n: Seq<char>| r.lookup(n) is None,
    {
        ToolRegistryBuilder::new()
    }

    /// Gets a tool by name.
    #[verifier::loop_isolation(false)]
    pub fn get(&self, name: &str) -> (r: Option<&T>)
        ensures
            match r {
                Some(t) => self.lookup(name@) == Some(*t),
                None => self.lookup(name@) is None,
            },
    {
        let mut j: usize = 0;
        proof {
            assert(self.tools@.skip(0) =~= self.tools@);
        }
        while j < self.tools.len()
            invariant
                j <= self.tools@.len(),
                lookup_spec(self.tools@, name@) == lookup_spec(self.tools@.skip(j as int), name@),
            decreases self.tools@.len() - j,
        {
            proof {
                assert(self.tools@.skip(j as int)[0] == self.tools@[j as int]);
            }
            if str_eq(self.tools[j].0.as_str(), name) {
                return Some(&self.tools[j].1);
            }
            proof {
                assert(self.tools@.skip(j as int).drop_first() =~= self.tools@.skip(j + 1));
            }
            j = j + 1;
        }
        proof {
            assert(self.tools@.skip(self.tools@.len() as int) =~= Seq::<(String, T)>::empty());
        }
        None
    }

    /// Registers a tool under a name, shadowing any existing registration.
    /// An administrative escape hatch: the steady-state registry is built
    /// once and then only read.
    pub fn insert(&mut self, name: &str, tool: T)
        ensures
            final(self).lookup(name@) == Some(tool),
            forall|n: Seq<char>| n != name@ ==> final(self).lookup(n) == old(self).lookup(n),
    {
        self.tools.insert(0, (String::from_str(name), tool));
        proof {
            assert(self.tools@.drop_first() =~= old(self).tools@);
        }
    }
}

impl<T: Tool> ToolRegistryBuilder<T> {
    /// What the registry built so far would answer for a name.
    pub closed spec fn lookup(self, name: Seq<char>) -> Option<T> {
        lookup_spec(self.tools@, name)
    }

    /// Creates an empty builder.
    pub fn new() -> (r: Self)
        ensures
            forall|n: Seq<char>| r.lookup(n) is None,
    {
        ToolRegistryBuilder { tools: Vec::new() }
    }

    /// Registers a tool under a name, shadowing any existing registration.
    pub fn with_tool(self, name: &str, tool: T) -> (r: Self)
        ensures
            r.lookup(name@) == Some(tool),
            forall|n: Seq<char>| n != name@ ==> r.lookup(n) == self.lookup(n),
    {
        let mut b = self;
        b.tools.insert(0, (String::from_str(name), tool));
        proof {
            assert(b.tools@.drop_first() =~= self.tools@);
        }
        b
    }

    /// Builds the final registry.
    pub fn build(self) -> (r: ToolRegistry<T>)
        ensures
            forall|n: Seq<char>| #![auto] r.lookup(n) == self.lookup(n),
    {
        ToolRegistry { tools: self.tools }
    }
}

/// The dispatch engine for one connection: shares the immutable registry
/// and processes one message at a time.
pub struct JsonRpcProcessor<T: Tool> {
    /// The shared registry the engine resolves capability names against.
    pub tool_registry: Arc<ToolRegistry<T>>,
}

impl<T: Tool> Clone for JsonRpcProcessor<T> {
    /// A cheap copy sharing the same registry, one per connection.
    fn clone(&self) -> (r: Self)
        ensures
            r == *self,
    {
        JsonRpcProcessor { tool_registry: Arc::clone(&self.tool_registry) }
    }
}

#[verifier::spinoff_prover]
proof fn lemma_tag_without_tool_error()
    ensures
        !contains_seq("JSONRPC-001"@, "TOOL-ERROR"@),
{
    reveal_strlit("JSONRPC-001");
    reveal_strlit("TOOL-ERROR");
    let tag = "JSONRPC-001"@;
    assert forall|k: int| 0 <= k <= tag.len() - "TOOL-ERROR"@.len() implies #[trigger] tag[k + 0]
        != "TOOL-ERROR"@[0] by {}
    lemma_no_occurrence(tag, "TOOL-ERROR"@, 0);
}

#[verifier::spinoff_prover]
proof fn lemma_tag_without_internal()
    ensures
        !contains_seq("JSONRPC-001"@, "INTERNAL"@),
{
    reveal_strlit("JSONRPC-001");
    reveal_strlit("INTERNAL");
    let tag = "JSONRPC-001"@;
    assert forall|k: int| 0 <= k <= tag.len() - "INTERNAL"@.len() implies #[trigger] tag[k + 0]
        != "INTERNAL"@[0] by {}
    lemma_no_occurrence(tag, "INTERNAL"@, 0);
}

#[verifier::spinoff_prover]
proof fn lemma_tag_without_internal_code()
    ensures
        !contains_seq("JSONRPC-001"@, "JSONRPC-005"@),
{
    reveal_strlit("JSONRPC-001");
    reveal_strlit("JSONRPC-005");
    let tag = "JSONRPC-001"@;
    assert forall|k: int| 0 <= k <= tag.len() - "JSONRPC-005"@.len() implies #[trigger] tag[k + 10]
        != "JSONRPC-005"@[10] by {}
    lemma_no_occurrence(tag, "JSONRPC-005"@, 10);
}

#[verifier::spinoff_prover]
proof fn lemma_parse_error_mapping(e: McpError)
    requires
        e.reference@ == "JSONRPC-001"@,
    ensures
        mapped_code(e.reference@) == -32700,
        mapped_message(e) == "Parse error"@,
{
    let tag = "JSONRPC-001"@;
    assert(tag.subrange(0, 0 + tag.len() as int) =~= tag);
    assert(contains_seq(tag, tag));
    lemma_tag_without_tool_error();
    lemma_tag_without_internal();
    lemma_tag_without_internal_code();
    assert("JSONRPC-001"@.len() == 11 && "TOOL-NOTFOUND"@.len() == 13 && "PARAM-INVALID"@.len()
        == 13) by {
        reveal_strlit("JSONRPC-001");
        reveal_strlit("TOOL-NOTFOUND");
        reveal_strlit("PARAM-INVALID");
    }
}

#[verifier::spinoff_prover]
proof fn lemma_malformed_rendering()
    ensures
        "JSONRPC-001"@ + ": "@ + ("JSON processing error: "@
            + "the message is not valid JSON-RPC"@)
            =~= "JSONRPC-001: JSON processing error: the message is not valid JSON-RPC"@,
{
    reveal_strlit("JSONRPC-001: JSON processing error: the message is not valid JSON-RPC");
    reveal_strlit("JSONRPC-001");
    reveal_strlit(": ");
    reveal_strlit("JSON processing error: ");
    reveal_strlit("the message is not valid JSON-RPC");
}

/// The response sent for text that parses as no JSON-RPC message at all.
pub open spec fn malformed_response_model() -> ResponseModel {
    ResponseModel {
        jsonrpc: "2.0"@,
        result: None,
        error: Some(
            ErrorModel {
                code: -32700,
                message: "Parse error"@,
                data: Some(
                    JsonModel::Obj(
                        seq![
                            (
                                "error"@,
                                JsonModel::Str(
                                    "JSONRPC-001: JSON processing error: the message is not valid JSON-RPC"@,
                                ),
                            ),
                        ],
                    ),
                ),
            },
        ),
        id: JsonModel::Null,
    }
}

impl<T: Tool> JsonRpcProcessor<T> {
    /// Creates a new engine over the given registry.
    pub fn new(tool_registry: ToolRegistry<T>) -> (r: Self)
        ensures
            *r.tool_registry == tool_registry,
    {
        JsonRpcProcessor { tool_registry: Arc::new(tool_registry) }
    }

    /// What processing a request promises of its response: the response is
    /// spec-valid; an invalid request is answered with the invalid-request
    /// code under the original id; an unknown capability with the
    /// method-not-found code; and an invocation that the capability fails is
    /// answered with the server-error code, carrying the failure's text,
    /// under the re-parsed id.
    pub open spec fn request_answered(self, req: RequestModel, resp: ResponseModel) -> bool {
        &&& response_wf(resp)
        &&& resp.jsonrpc == "2.0"@
        &&& if !request_wf(req) {
            resp.id == req.id && (resp.error matches Some(e) && e.code == -32600 && e.message
                == "Invalid request"@ && e.data == Some(
                JsonModel::Obj(
                    seq![
                        (
                            "error"@,
                            JsonModel::Str(
                                "JSONRPC-004"@ + ": "@ + method_line_violation(
                                    req.jsonrpc,
                                    req.method,
                                ),
                            ),
                        ),
                    ],
                ),
            ))
        } else if self.tool_registry.lookup(req.method) is None {
            resp.id == req.id && (resp.error matches Some(e) && e.code == -32601 && e.message
                == "Method not found"@ && e.data == Some(
                JsonModel::Obj(
                    seq![
                        (
                            "error"@,
                            JsonModel::Str(
                                "TOOL-NOTFOUND"@ + ": "@ + ("Method '"@ + req.method
                                    + "' not found"@),
                            ),
                        ),
                    ],
                ),
            ))
        } else {
            resp.id == parsed_id(id_text_model(req.id)) && (resp.error matches Some(e)
                ==> e.code == -32000 && e.message == "Server error"@ && (e.data matches Some(d)
                && d matches JsonModel::Obj(fs) && fs.len() == 1 && fs[0].0 == "error_type"@
                && fs[0].1 is Str))
        }
    }

    /// Processes a single request: validate, convert, resolve, invoke,
    /// convert back, and re-validate; every outcome is a spec-valid
    /// response.
    #[verifier::rlimit(100)]
    pub fn process_request(&self, request: JsonRpcRequest) -> (r: JsonRpcResponse)
        ensures
            self.request_answered(request@, r@),
    {
        if let Err(e) = request.validate() {
            let rendered = e.render();
            let mut df: Vec<(String, JsonValue)> = Vec::new();
            df.push((String::from_str("error"), JsonValue::Str(rendered)));
            proof {
                reveal_strlit("Invalid request");
                crate::json::lemma_model_fields(df@);
                assert(crate::json::model_fields(df@) =~= seq![
                    (
                        "error"@,
                        JsonModel::Str(
                            "JSONRPC-004"@ + ": "@ + method_line_violation(
                                request.jsonrpc@,
                                request.method@,
                            ),
                        ),
                    ),
                ]);
            }
            return JsonRpcResponse {
                jsonrpc: String::from_str("2.0"),
                result: None,
                error: Some(
                    JsonRpcError {
                        code: INVALID_REQUEST,
                        message: String::from_str("Invalid request"),
                        data: Some(JsonValue::Obj(df)),
                    },
                ),
                id: request.id.clone(),
            };
        }
        let domain_request = match json_rpc_to_domain_request(&request) {
            Ok(req) => req,
            Err(e) => {
                // A request that passed validation always converts; Verus
                // shows this branch unreachable.
                proof {
                    assert(false);
                }
                let (code, message) = error_to_json_rpc(&e);
                let rendered = e.render();
                let mut df: Vec<(String, JsonValue)> = Vec::new();
                df.push((String::from_str("error"), JsonValue::Str(rendered)));
                return JsonRpcResponse {
                    jsonrpc: String::from_str("2.0"),
                    result: None,
                    error: Some(JsonRpcError { code, message, data: Some(JsonValue::Obj(df)) }),
                    id: request.id.clone(),
                };
            },
        };
        let response: McpResult<JsonRpcResponse> = match self.tool_registry.get(
            domain_request.tool_name.as_str(),
        ) {
            Some(tool) => {
                let result = tool.execute(domain_request.params.clone());
                let domain_response = SimpleDomainResponse {
                    id: domain_request.id.clone(),
                    result,
                };
                domain_to_json_rpc_response(&domain_response)
            },
            None => {
                let mut msg = String::from_str("Method '");
                msg.append(domain_request.tool_name.as_str());
                msg.append("' not found");
                let err = McpError::new(Severity::Error, "TOOL-NOTFOUND", msg.as_str());
                let (code, message) = error_to_json_rpc(&err);
                proof {
                    reveal_strlit("TOOL-NOTFOUND");
                    reveal_strlit("Method not found");
                    let tag = "TOOL-NOTFOUND"@;
                    assert(tag.subrange(0, 0 + tag.len() as int) =~= tag);
                    assert(contains_seq(tag, tag));
                }
                let rendered = err.render();
                let mut df: Vec<(String, JsonValue)> = Vec::new();
                df.push((String::from_str("error"), JsonValue::Str(rendered)));
                proof {
                    crate::json::lemma_model_fields(df@);
                    assert(rendered@ =~= "TOOL-NOTFOUND"@ + ": "@ + ("Method '"@
                        + request.method@ + "' not found"@));
                    assert(crate::json::model_fields(df@) =~= seq![
                        (
                            "error"@,
                            JsonModel::Str(
                                "TOOL-NOTFOUND"@ + ": "@ + ("Method '"@ + request.method@
                                    + "' not found"@),
                            ),
                        ),
                    ]);
                }
                Ok(
                    JsonRpcResponse {
                        jsonrpc: String::from_str("2.0"),
                        result: None,
                        error: Some(
                            JsonRpcError { code, message, data: Some(JsonValue::Obj(df)) },
                        ),
                        id: request.id.clone(),
                    },
                )
            },
        };
        match response {
            Ok(resp) => {
                match resp.validate() {
                    Ok(()) => resp,
                    Err(e) => {
                        // The engine never builds an invalid response; this
                        // defensive substitution guards the wire all the
                        // same.
                        proof {
                            assert(false);
                        }
                        let mut m2 = String::from_str("Invalid response generated: ");
                        let rendered = e.render();
                        m2.append(rendered.as_str());
                        let err = internal_error(m2.as_str());
                        let (code, message) = error_to_json_rpc(&err);
                        let erendered = err.render();
                        let mut df: Vec<(String, JsonValue)> = Vec::new();
                        df.push((String::from_str("error"), JsonValue::Str(erendered)));
                        JsonRpcResponse {
                            jsonrpc: String::from_str("2.0"),
                            result: None,
                            error: Some(
                                JsonRpcError { code, message, data: Some(JsonValue::Obj(df)) },
                            ),
                            id: request.id.clone(),
                        }
                    },
                }
            },
            Err(e) => {
                // The conversion layer never fails on an engine-built
                // domain response; Verus shows this branch unreachable.
                proof {
                    assert(false);
                }
                let (code, message) = error_to_json_rpc(&e);
                let rendered = e.render();
                let mut df: Vec<(String, JsonValue)> = Vec::new();
                df.push((String::from_str("error"), JsonValue::Str(rendered)));
                JsonRpcResponse {
                    jsonrpc: String::from_str("2.0"),
                    result: None,
                    error: Some(JsonRpcError { code, message, data: Some(JsonValue::Obj(df)) }),
                    id: request.id.clone(),
                }
            },
        }
    }

    /// Processes a notification. No wire output ever results: an invalid
    /// notification is reported to the caller as a protocol violation, an
    /// unknown capability is silently ignored, and a failing invocation is
    /// reported as a domain failure.
    pub fn process_notification(&self, notification: JsonRpcNotification) -> (r: McpResult<()>)
        ensures
            !notification_wf(notification@) ==> (r matches Err(e) && e.reference@
                == "JSONRPC-004"@ && e.message@ == "Invalid notification: "@ + ("JSONRPC-004"@
                + ": "@ + method_line_violation(notification.jsonrpc@, notification.method@))),
            notification_wf(notification@) && self.tool_registry.lookup(notification.method@)
                is None ==> r is Ok,
            notification_wf(notification@) ==> (r is Ok || (r matches Err(e) && e.reference@
                == "JSONRPC-006"@)),
    {
        if let Err(e) = notification.validate() {
            let rendered = e.render();
            let mut m = String::from_str("Invalid notification: ");
            m.append(rendered.as_str());
            return Err(protocol_error(m.as_str()));
        }
        let request = JsonRpcRequest {
            jsonrpc: notification.jsonrpc,
            method: notification.method,
            params: notification.params,
            id: JsonRpcId::Null,
        };
        let domain_request = match json_rpc_to_domain_request(&request) {
            Ok(d) => d,
            Err(e) => {
                // A notification that passed validation always converts;
                // Verus shows this branch unreachable.
                proof {
                    assert(false);
                }
                return Err(e);
            },
        };
        if let Some(tool) = self.tool_registry.get(domain_request.tool_name.as_str()) {
            if let Err(e) = tool.execute(domain_request.params.clone()) {
                let rendered = e.render();
                return Err(crate::error::domain_error(rendered.as_str(), "Tool execution failed"));
            }
        }
        Ok(())
    }

    /// Processes a batch: a requests batch yields exactly one response per
    /// request, in input order; a notifications batch yields no output at
    /// all, whatever the outcomes.
    pub fn process_batch(&self, batch: JsonRpcBatch) -> (r: Vec<JsonRpcResponse>)
        ensures
            batch matches JsonRpcBatch::Requests(reqs) ==> r@.len() == reqs@.len() && (forall|
                k: int,
            |
                0 <= k < reqs@.len() ==> self.request_answered(reqs@[k]@, (#[trigger] r@[k])@)),
            batch matches JsonRpcBatch::Notifications(ns) ==> r@.len() == 0,
    {
        match batch {
            JsonRpcBatch::Requests(requests) => {
                let mut responses: Vec<JsonRpcResponse> = Vec::new();
                let mut i: usize = 0;
                while i < requests.len()
                    invariant
                        i <= requests@.len(),
                        responses@.len() == i,
                        forall|k: int|
                            0 <= k < i ==> self.request_answered(
                                requests@[k]@,
                                (#[trigger] responses@[k])@,
                            ),
                    decreases requests@.len() - i,
                {
                    let resp = self.process_request(requests[i].clone());
                    responses.push(resp);
                    i = i + 1;
                }
                responses
            },
            JsonRpcBatch::Notifications(notifications) => {
                let mut i: usize = 0;
                while i < notifications.len()
                    invariant
                        i <= notifications@.len(),
                    decreases notifications@.len() - i,
                {
                    let _ = self.process_notification(notifications[i].clone());
                    i = i + 1;
                }
                Vec::new()
            },
        }
    }

    /// What one message's processing promises: malformed text is answered
    /// with the parse-error response under a null id; a requests batch with
    /// one answered response per request, in order; notifications and
    /// notification batches with no output at all; and a single request
    /// with its answered response.
    pub open spec fn message_outcome(self, msg: Seq<char>, r: Option<String>) -> bool {
        match json_of(msg) {
            None => r matches Some(t) && t@ == response_text(malformed_response_model()),
            Some(m) => match batch_from_json(m) {
                Some(BatchModel::Requests(reqs)) => if reqs.len() == 0 {
                    r is None
                } else {
                    r matches Some(t) && exists|rms: Seq<ResponseModel>|
                        t@ == responses_text(rms) && rms.len() == reqs.len() && (forall|k: int|
                            0 <= k < reqs.len() ==> self.request_answered(
                                reqs[k],
                                #[trigger] rms[k],
                            ))
                },
                Some(BatchModel::Notifications(ns)) => r is None,
                None => match request_from_json(m) {
                    Some(reqm) => r matches Some(t) && exists|rm: ResponseModel|
                        t@ == response_text(rm) && self.request_answered(reqm, rm),
                    None => match notification_from_json(m) {
                        Some(nm) => r is None,
                        None => r matches Some(t) && t@ == response_text(
                            malformed_response_model(),
                        ),
                    },
                },
            },
        }
    }

    #[verifier::rlimit(100)]
    #[verifier::spinoff_prover]
    fn malformed_response_text(&self) -> (r: String)
        ensures
            r@ == response_text(malformed_response_model()),
    {
        let err = json_error("the message is not valid JSON-RPC");
        let (code, message) = error_to_json_rpc(&err);
        proof {
            lemma_parse_error_mapping(err);
            reveal_strlit("Parse error");
        }
        let rendered = err.render();
        let mut df: Vec<(String, JsonValue)> = Vec::new();
        df.push((String::from_str("error"), JsonValue::Str(rendered)));
        let response = JsonRpcResponse {
            jsonrpc: String::from_str("2.0"),
            result: None,
            error: Some(JsonRpcError { code, message, data: Some(JsonValue::Obj(df)) }),
            id: JsonRpcId::Null,
        };
        proof {
            lemma_malformed_rendering();
            assert(error_text(err)
                =~= "JSONRPC-001: JSON processing error: the message is not valid JSON-RPC"@);
            crate::json::lemma_model_fields(df@);
            assert(response@.error->0.data->0->Obj_0 =~= malformed_response_model().error->0.data
                ->0->Obj_0);
            assert(response@ == malformed_response_model());
        }
        response_to_text(&response)
    }

    /// Processes one raw incoming message text and returns the text to send
    /// back, if any: batches first, then a single request, then a
    /// notification, and otherwise the parse-error response.
    pub fn process_message(&self, message: &str) -> (r: Option<String>)
        ensures
            self.message_outcome(message@, r),
    {
        match parse_json_text(message) {
            None => Some(self.malformed_response_text()),
            Some(v) => {
                match crate::protocol::value_to_batch(&v) {
                    Some(batch) => {
                        let ghost bm = batch@;
                        let responses = self.process_batch(batch);
                        if responses.len() == 0 {
                            None
                        } else {
                            let t = responses_to_text(&responses);
                            proof {
                                let rms = responses@.map_values(|x: JsonRpcResponse| x@);
                                if let BatchModel::Requests(reqs) = bm {
                                    assert(rms.len() == reqs.len());
                                    assert forall|k: int| 0 <= k < reqs.len() implies self
                                        .request_answered(reqs[k], #[trigger] rms[k]) by {
                                        assert(self.request_answered(
                                            reqs[k],
                                            responses@[k]@,
                                        ));
                                    }
                                }
                            }
                            Some(t)
                        }
                    },
                    None => {
                        match crate::protocol::value_to_request(&v) {
                            Some(req) => {
                                let ghost reqm = req@;
                                let resp = self.process_request(req);
                                let t = response_to_text(&resp);
                                proof {
                                    assert(t@ == response_text(resp@) && self.request_answered(
                                        reqm,
                                        resp@,
                                    ));
                                }
                                Some(t)
                            },
                            None => {
                                match crate::protocol::value_to_notification(&v) {
                                    Some(n) => {
                                        let _ = self.process_notification(n);
                                        None
                                    },
                                    None => Some(self.malformed_response_text()),
                                }
                            },
                        }
                    },
                }
            },
        }
    }
}

} // verus!
