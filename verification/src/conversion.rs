//! The bridge between wire messages and domain capability-invocation
//! shapes, in both directions, including id normalization.
use vstd::prelude::*;
use crate::error::{error_text, error_to_json_rpc, McpError, McpResult, Severity};
use crate::json::{JsonModel, JsonValue};
use crate::protocol::{
    id_text, method_line_violation, parse_id, parsed_id, request_wf, response_wf, ErrorModel,
    JsonRpcError, JsonRpcRequest, JsonRpcResponse,
};

verus! {

/// A domain request: what a capability invocation needs. The spec functions
/// give the models that the executable accessors return.
pub trait DomainRequest {
    /// The model of the request identifier.
    spec fn id_model(&self) -> Seq<char>;

    /// The model of the capability name.
    spec fn tool_name_model(&self) -> Seq<char>;

    /// The model of the parameter value.
    spec fn params_model(&self) -> JsonModel;

    /// The request identifier.
    fn id(&self) -> (r: &str)
        ensures
            r@ == self.id_model(),
    ;

    /// The name of the capability to be invoked.
    fn tool_name(&self) -> (r: &str)
        ensures
            r@ == self.tool_name_model(),
    ;

    /// The parameters for the capability.
    fn params(&self) -> (r: &JsonValue)
        ensures
            r@ == self.params_model(),
    ;
}

/// A domain response: what a capability invocation produced. A failure is
/// modelled by its rendered text.
pub trait DomainResponse {
    /// The model of the response identifier.
    spec fn id_model(&self) -> Seq<char>;

    /// The model of the outcome: the result value, or the failure's text.
    spec fn result_model(&self) -> Result<JsonModel, Seq<char>>;

    /// The response identifier; matches the request id.
    fn id(&self) -> (r: &str)
        ensures
            r@ == self.id_model(),
    ;

    /// The outcome of the invocation.
    fn result(&self) -> (r: &McpResult<JsonValue>)
        ensures
            match r {
                Ok(v) => self.result_model() == Ok::<JsonModel, Seq<char>>(v@),
                Err(e) => self.result_model() == Err::<JsonModel, Seq<char>>(error_text(*e)),
            },
    ;
}

/// A plain domain request value.
pub struct SimpleDomainRequest {
    /// The request identifier.
    pub id: String,
    /// The name of the capability to be invoked.
    pub tool_name: String,
    /// The parameters for the capability.
    pub params: JsonValue,
}

impl DomainRequest for SimpleDomainRequest {
    open spec fn id_model(&self) -> Seq<char> {
        self.id@
    }

    open spec fn tool_name_model(&self) -> Seq<char> {
        self.tool_name@
    }

    open spec fn params_model(&self) -> JsonModel {
        self.params@
    }

    fn id(&self) -> &str {
        self.id.as_str()
    }

    fn tool_name(&self) -> &str {
        self.tool_name.as_str()
    }

    fn params(&self) -> &JsonValue {
        &self.params
    }
}

/// A plain domain response value.
pub struct SimpleDomainResponse {
    /// The response identifier.
    pub id: String,
    /// The outcome of the invocation.
    pub result: McpResult<JsonValue>,
}

impl DomainResponse for SimpleDomainResponse {
    open spec fn id_model(&self) -> Seq<char> {
        self.id@
    }

    open spec fn result_model(&self) -> Result<JsonModel, Seq<char>> {
        match self.result {
            Ok(v) => Ok(v@),
            Err(e) => Err(error_text(e)),
        }
    }

    fn id(&self) -> &str {
        self.id.as_str()
    }

    fn result(&self) -> &McpResult<JsonValue> {
        &self.result
    }
}

/// Converts a validated wire request into a domain request: the id as text,
/// the method as the capability name, and the parameters, a missing value
/// becoming null. Fails exactly on requests that violate the protocol.
pub fn json_rpc_to_domain_request(req: &JsonRpcRequest) -> (r: McpResult<SimpleDomainRequest>)
    ensures
        r is Ok <==> request_wf(req@),
        r matches Ok(d) ==> d.id@ == id_text(req.id) && d.tool_name@ == req.method@ && d.params@
            == (match req.params {
            Some(p) => p@,
            None => JsonModel::Null,
        }),
        r matches Err(e) ==> e.severity == Severity::Error && e.reference@ == "JSONRPC-004"@
            && e.message@ == method_line_violation(req.jsonrpc@, req.method@),
{
    req.validate()?;
    Ok(
        SimpleDomainRequest {
            id: req.id.to_string(),
            tool_name: req.method.clone(),
            params: match &req.params {
                Some(p) => p.clone(),
                None => JsonValue::Null,
            },
        },
    )
}

/// The error-object data that wraps a failure's text.
pub open spec fn failure_data(t: Seq<char>) -> JsonModel {
    JsonModel::Obj(seq![("error_type"@, JsonModel::Str(t))])
}

/// Converts a domain response into a wire response carrying the re-parsed
/// id: the result value on success; on failure, the server-error code with
/// the failure's text as data. The response always satisfies validation.
pub fn domain_to_json_rpc_response<T: DomainResponse>(resp: &T) -> (r: McpResult<JsonRpcResponse>)
    ensures
        r matches Ok(w) && response_wf(w@) && w@.jsonrpc == "2.0"@ && w@.id == parsed_id(
            resp.id_model(),
        ),
        r matches Ok(w) ==> match resp.result_model() {
            Ok(m) => w@.result == Some(m) && w@.error is None,
            Err(t) => w@.result is None && (w@.error matches Some(e) && e.code == -32000
                && e.message == "Server error"@ && e.data == Some(failure_data(t))),
        },
{
    match resp.result() {
        Ok(value) => {
            let response = JsonRpcResponse {
                jsonrpc: String::from_str("2.0"),
                result: Some(value.clone()),
                error: None,
                id: parse_id(resp.id()),
            };
            match response.validate() {
                Ok(()) => Ok(response),
                Err(e) => {
                    // A response built here always validates; Verus shows
                    // this branch unreachable.
                    proof {
                        assert(false);
                    }
                    Err(e)
                },
            }
        },
        Err(err) => {
            let rendered = err.render();
            let domain_error = McpError::new(Severity::Error, "TOOL-ERROR", rendered.as_str());
            let (code, message) = error_to_json_rpc(&domain_error);
            proof {
                reveal_strlit("TOOL-ERROR");
                reveal_strlit("TOOL-NOTFOUND");
                reveal_strlit("PARAM-INVALID");
                reveal_strlit("Server error");
                let tag = "TOOL-ERROR"@;
                assert(tag.subrange(0, 0 + tag.len() as int) =~= tag);
                assert(crate::text::contains_seq(tag, tag));
                assert(!crate::text::contains_seq(tag, "TOOL-NOTFOUND"@));
                assert(!crate::text::contains_seq(tag, "PARAM-INVALID"@));
            }
            let mut data_fields: Vec<(String, JsonValue)> = Vec::new();
            data_fields.push((String::from_str("error_type"), JsonValue::Str(rendered)));
            proof {
                crate::json::lemma_model_fields(data_fields@);
                assert(crate::json::model_fields(data_fields@) =~= failure_data(
                    error_text(*err),
                )->Obj_0);
            }
            let response = JsonRpcResponse {
                jsonrpc: String::from_str("2.0"),
                result: None,
                error: Some(
                    JsonRpcError { code, message, data: Some(JsonValue::Obj(data_fields)) },
                ),
                id: parse_id(resp.id()),
            };
            match response.validate() {
                Ok(()) => Ok(response),
                Err(e) => {
                    // A response built here always validates; Verus shows
                    // this branch unreachable.
                    proof {
                        assert(false);
                    }
                    Err(e)
                },
            }
        },
    }
}

} // verus!
