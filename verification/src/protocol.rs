//! The wire protocol model: requests, responses, notifications, error
//! objects, ids and batches, with their JSON-RPC 2.0 validation rules and
//! how each message is read from and written as a JSON value.
use vstd::prelude::*;
use vstd::string::StrSliceExecFns;
use crate::error::{protocol_error, McpError, McpResult, Severity};
use crate::json::{
    lemma_model_fields, lookup_field, model_fields, obj_get, ser, to_json_text, JsonModel,
    JsonValue,
};
use crate::text::{dec_int, is_digit, parse_i64_str, push_dec_i64, rust_i64_of, str_eq,
    str_has_prefix, chars_of, chars_to_string, has_prefix};

verus! {

/// A request or response identifier: absent (null), text, or a 64-bit
/// integer. Its model is the corresponding JSON value.
pub enum JsonRpcId {
    Null,
    String(String),
    Number(i64),
}

impl View for JsonRpcId {
    type V = JsonModel;

    open spec fn view(&self) -> JsonModel {
        match *self {
            JsonRpcId::Null => JsonModel::Null,
            JsonRpcId::String(s) => JsonModel::Str(s@),
            JsonRpcId::Number(n) => JsonModel::Int(n as int),
        }
    }
}

impl Clone for JsonRpcId {
    /// A copy with the same model.
    fn clone(&self) -> (r: Self)
        ensures
            r@ == self@,
    {
        match self {
            JsonRpcId::Null => JsonRpcId::Null,
            JsonRpcId::String(s) => JsonRpcId::String(s.clone()),
            JsonRpcId::Number(n) => JsonRpcId::Number(*n),
        }
    }
}

/// Whether a JSON value can serve as an id: null, a string, or an integer.
pub open spec fn is_id_model(m: JsonModel) -> bool {
    m is Null || m is Str || m is Int
}

/// The textual form of an id value, as used when an id crosses into the
/// domain.
pub open spec fn id_text_model(m: JsonModel) -> Seq<char> {
    match m {
        JsonModel::Null => "null"@,
        JsonModel::Str(s) => s,
        JsonModel::Int(n) => dec_int(n),
        _ => Seq::empty(),
    }
}

/// The textual form of an id.
pub open spec fn id_text(id: JsonRpcId) -> Seq<char> {
    id_text_model(id@)
}

/// The id denoted by a piece of text: the word `null`, else an integer if
/// the text parses as one, else the text itself.
pub open spec fn parsed_id(s: Seq<char>) -> JsonModel {
    if s == "null"@ {
        JsonModel::Null
    } else {
        match rust_i64_of(s) {
            Some(n) => JsonModel::Int(n as int),
            None => JsonModel::Str(s),
        }
    }
}

impl JsonRpcId {
    /// The textual form of the id: `null`, the decimal digits, or the text.
    pub fn to_string(&self) -> (r: String)
        ensures
            r@ == id_text(*self),
    {
        match self {
            JsonRpcId::Null => String::from_str("null"),
            JsonRpcId::String(s) => s.clone(),
            JsonRpcId::Number(n) => {
                let mut out: Vec<char> = Vec::new();
                push_dec_i64(&mut out, *n);
                chars_to_string(&out)
            },
        }
    }
}

/// Parses a textual id back into a tagged id: `null`, else an integer if
/// the whole text parses as one, else the text itself.
pub fn parse_id(id_str: &str) -> (r: JsonRpcId)
    ensures
        r@ == parsed_id(id_str@),
{
    if str_eq(id_str, "null") {
        return JsonRpcId::Null;
    }
    match parse_i64_str(id_str) {
        Some(n) => JsonRpcId::Number(n),
        None => JsonRpcId::String(id_str.to_owned()),
    }
}

/// Round-tripping an id through its textual form is the identity for null
/// and numeric ids; a textual id is re-inferred, so text that spells an
/// integer comes back as the numeric id.
pub proof fn lemma_id_round_trip(id: JsonRpcId)
    ensures
        parsed_id(id_text(id)) == (match id {
            JsonRpcId::String(s) => parsed_id(s@),
            _ => id@,
        }),
{
    reveal_strlit("null");
    match id {
        JsonRpcId::Null => {
        },
        JsonRpcId::Number(n) => {
            let s = id_text(id);
            if n >= 0 {
                crate::text::lemma_dec_nat_digits(n as nat);
                assert(s == crate::text::dec_nat(n as nat));
                assert(is_digit(s[0]));
                assert(s != "null"@) by {
                    if s == "null"@ {
                        assert(s[0] == 'n');
                        assert(!is_digit('n'));
                    }
                }
                assert(s[0] != '-' && s[0] != '+');
                assert(rust_i64_of(s) == Some(n));
            } else {
                crate::text::lemma_dec_nat_digits((-(n as int)) as nat);
                assert(s =~= seq!['-'] + crate::text::dec_nat((-(n as int)) as nat));
                assert(s[0] == '-');
                assert(s != "null"@) by {
                    if s == "null"@ {
                        assert(s[0] == 'n');
                    }
                }
                assert(s.drop_first() =~= crate::text::dec_nat((-(n as int)) as nat));
                assert(rust_i64_of(s) == Some(n));
            }
        },
        JsonRpcId::String(s) => {
        },
    }
}

/// A JSON-RPC 2.0 request.
pub struct JsonRpcRequest {
    /// The protocol version tag; must be exactly "2.0".
    pub jsonrpc: String,
    /// The name of the method to be invoked.
    pub method: String,
    /// The structured parameter value, if any.
    pub params: Option<JsonValue>,
    /// The caller-chosen identifier; may be null.
    pub id: JsonRpcId,
}

/// The model of a request.
pub struct RequestModel {
    pub jsonrpc: Seq<char>,
    pub method: Seq<char>,
    pub params: Option<JsonModel>,
    pub id: JsonModel,
}

impl View for JsonRpcRequest {
    type V = RequestModel;

    open spec fn view(&self) -> RequestModel {
        RequestModel {
            jsonrpc: self.jsonrpc@,
            method: self.method@,
            params: match self.params {
                Some(p) => Some(p@),
                None => None,
            },
            id: self.id@,
        }
    }
}

impl Clone for JsonRpcRequest {
    /// A copy with the same model.
    fn clone(&self) -> (r: Self)
        ensures
            r@ == self@,
    {
        JsonRpcRequest {
            jsonrpc: self.jsonrpc.clone(),
            method: self.method.clone(),
            params: match &self.params {
                Some(p) => Some(p.clone()),
                None => None,
            },
            id: self.id.clone(),
        }
    }
}

/// A JSON-RPC 2.0 notification: a request without an id, to which no reply
/// is ever sent.
pub struct JsonRpcNotification {
    /// The protocol version tag; must be exactly "2.0".
    pub jsonrpc: String,
    /// The name of the method to be invoked.
    pub method: String,
    /// The structured parameter value, if any.
    pub params: Option<JsonValue>,
}

/// The model of a notification.
pub struct NotificationModel {
    pub jsonrpc: Seq<char>,
    pub method: Seq<char>,
    pub params: Option<JsonModel>,
}

impl View for JsonRpcNotification {
    type V = NotificationModel;

    open spec fn view(&self) -> NotificationModel {
        NotificationModel {
            jsonrpc: self.jsonrpc@,
            method: self.method@,
            params: match self.params {
                Some(p) => Some(p@),
                None => None,
            },
        }
    }
}

impl Clone for JsonRpcNotification {
    /// A copy with the same model.
    fn clone(&self) -> (r: Self)
        ensures
            r@ == self@,
    {
        JsonRpcNotification {
            jsonrpc: self.jsonrpc.clone(),
            method: self.method.clone(),
            params: match &self.params {
                Some(p) => Some(p.clone()),
                None => None,
            },
        }
    }
}

/// A JSON-RPC 2.0 error object.
pub struct JsonRpcError {
    /// The wire error code.
    pub code: i32,
    /// A short description of the error; must not be empty.
    pub message: String,
    /// Additional structured information, if any.
    pub data: Option<JsonValue>,
}

/// The model of an error object.
pub struct ErrorModel {
    pub code: int,
    pub message: Seq<char>,
    pub data: Option<JsonModel>,
}

impl View for JsonRpcError {
    type V = ErrorModel;

    open spec fn view(&self) -> ErrorModel {
        ErrorModel {
            code: self.code as int,
            message: self.message@,
            data: match self.data {
                Some(d) => Some(d@),
                None => None,
            },
        }
    }
}

impl Clone for JsonRpcError {
    /// A copy with the same model.
    fn clone(&self) -> (r: Self)
        ensures
            r@ == self@,
    {
        JsonRpcError {
            code: self.code,
            message: self.message.clone(),
            data: match &self.data {
                Some(d) => Some(d.clone()),
                None => None,
            },
        }
    }
}

/// A JSON-RPC 2.0 response: exactly one of result and error is present.
pub struct JsonRpcResponse {
    /// The protocol version tag; must be exactly "2.0".
    pub jsonrpc: String,
    /// The success value; absent on error.
    pub result: Option<JsonValue>,
    /// The error object; absent on success.
    pub error: Option<JsonRpcError>,
    /// The identifier of the request being answered.
    pub id: JsonRpcId,
}

/// The model of a response.
pub struct ResponseModel {
    pub jsonrpc: Seq<char>,
    pub result: Option<JsonModel>,
    pub error: Option<ErrorModel>,
    pub id: JsonModel,
}

impl View for JsonRpcResponse {
    type V = ResponseModel;

    open spec fn view(&self) -> ResponseModel {
        ResponseModel {
            jsonrpc: self.jsonrpc@,
            result: match self.result {
                Some(v) => Some(v@),
                None => None,
            },
            error: match self.error {
                Some(e) => Some(e@),
                None => None,
            },
            id: self.id@,
        }
    }
}

impl Clone for JsonRpcResponse {
    /// A copy with the same model.
    fn clone(&self) -> (r: Self)
        ensures
            r@ == self@,
    {
        JsonRpcResponse {
            jsonrpc: self.jsonrpc.clone(),
            result: match &self.result {
                Some(v) => Some(v.clone()),
                None => None,
            },
            error: match &self.error {
                Some(e) => Some(e.clone()),
                None => None,
            },
            id: self.id.clone(),
        }
    }
}

/// A batch: all requests, or all notifications.
pub enum JsonRpcBatch {
    /// Multiple requests.
    Requests(Vec<JsonRpcRequest>),
    /// Multiple notifications.
    Notifications(Vec<JsonRpcNotification>),
}

// ----------------------------------------------------------------------
// Validation
// ----------------------------------------------------------------------
/// A request or notification method line is well formed: the version tag is
/// exactly "2.0", the method is non-empty and does not use the reserved
/// "rpc." prefix.
pub open spec fn method_line_wf(jsonrpc: Seq<char>, method: Seq<char>) -> bool {
    jsonrpc == "2.0"@ && method.len() > 0 && !has_prefix(method, "rpc."@)
}

/// A request adheres to the specification.
pub open spec fn request_wf(r: RequestModel) -> bool {
    method_line_wf(r.jsonrpc, r.method)
}

/// A notification adheres to the specification.
pub open spec fn notification_wf(n: NotificationModel) -> bool {
    method_line_wf(n.jsonrpc, n.method)
}

/// A legal wire error code: one of the five fixed codes, or a
/// server-defined code in [-32099, -32000].
pub open spec fn valid_error_code(c: int) -> bool {
    c == -32700 || c == -32600 || c == -32601 || c == -32602 || c == -32603 || (-32099 <= c
        && c <= -32000)
}

/// An error object adheres to the specification: non-empty message and a
/// legal code.
pub open spec fn error_wf(e: ErrorModel) -> bool {
    e.message.len() > 0 && valid_error_code(e.code)
}

/// A response adheres to the specification: version tag "2.0", exactly one
/// of result and error, and a well-formed error object when one is present.
pub open spec fn response_wf(r: ResponseModel) -> bool {
    r.jsonrpc == "2.0"@ && (r.result is Some <==> r.error is None) && (match r.error {
        Some(e) => error_wf(e),
        None => true,
    })
}

/// The message of the protocol violation a method line is rejected with.
pub open spec fn method_line_violation(jsonrpc: Seq<char>, method: Seq<char>) -> Seq<char> {
    if jsonrpc != "2.0"@ {
        "Invalid JSON-RPC version. Must be exactly '2.0'"@
    } else if method.len() == 0 {
        "Method must not be empty"@
    } else {
        "Method names that begin with 'rpc.' are reserved"@
    }
}

/// The message of the protocol violation an error object is rejected with.
pub open spec fn error_violation(e: ErrorModel) -> Seq<char> {
    if e.message.len() == 0 {
        "Error message must not be empty"@
    } else {
        "Invalid error code: "@ + dec_int(e.code)
    }
}

/// The message of the protocol violation a response is rejected with.
pub open spec fn response_violation(r: ResponseModel) -> Seq<char> {
    if r.jsonrpc != "2.0"@ {
        "Invalid JSON-RPC version. Must be exactly '2.0'"@
    } else if r.result is Some && r.error is Some {
        "Response cannot contain both result and error"@
    } else if r.result is None && r.error is None {
        "Response must contain either result or error"@
    } else {
        error_violation(r.error->0)
    }
}

fn validate_method_line(jsonrpc: &String, method: &String) -> (r: McpResult<()>)
    ensures
        r is Ok <==> method_line_wf(jsonrpc@, method@),
        r matches Err(e) ==> e.severity == Severity::Error && e.reference@ == "JSONRPC-004"@
            && e.message@ == method_line_violation(jsonrpc@, method@),
{
    if !str_eq(jsonrpc.as_str(), "2.0") {
        return Err(protocol_error("Invalid JSON-RPC version. Must be exactly '2.0'"));
    }
    if method.as_str().unicode_len() == 0 {
        return Err(protocol_error("Method must not be empty"));
    }
    if str_has_prefix(method.as_str(), "rpc.") {
        return Err(protocol_error("Method names that begin with 'rpc.' are reserved"));
    }
    Ok(())
}

impl JsonRpcRequest {
    /// Checks the request against the JSON-RPC 2.0 rules: succeeds exactly
    /// when the version tag is "2.0" and the method is non-empty and not
    /// reserved.
    pub fn validate(&self) -> (r: McpResult<()>)
        ensures
            r is Ok <==> request_wf(self@),
            r matches Err(e) ==> e.severity == Severity::Error && e.reference@ == "JSONRPC-004"@
                && e.message@ == method_line_violation(self.jsonrpc@, self.method@),
    {
        validate_method_line(&self.jsonrpc, &self.method)
    }
}

impl JsonRpcNotification {
    /// Checks the notification against the JSON-RPC 2.0 rules: succeeds
    /// exactly when the version tag is "2.0" and the method is non-empty and
    /// not reserved.
    pub fn validate(&self) -> (r: McpResult<()>)
        ensures
            r is Ok <==> notification_wf(self@),
            r matches Err(e) ==> e.severity == Severity::Error && e.reference@ == "JSONRPC-004"@
                && e.message@ == method_line_violation(self.jsonrpc@, self.method@),
    {
        validate_method_line(&self.jsonrpc, &self.method)
    }
}

impl JsonRpcError {
    /// Checks the error object: succeeds exactly when the message is
    /// non-empty and the code is one of the legal wire codes.
    pub fn validate(&self) -> (r: McpResult<()>)
        ensures
            r is Ok <==> error_wf(self@),
            r matches Err(e) ==> e.severity == Severity::Error && e.reference@ == "JSONRPC-004"@
                && e.message@ == error_violation(self@),
    {
        if self.message.as_str().unicode_len() == 0 {
            return Err(protocol_error("Error message must not be empty"));
        }
        let c = self.code;
        let legal = c == -32700 || c == -32600 || c == -32601 || c == -32602 || c == -32603 || (
        -32099 <= c && c <= -32000);
        if legal {
            Ok(())
        } else {
            let mut msg = chars_of("Invalid error code: ");
            push_dec_i64(&mut msg, c as i64);
            Err(McpError {
                severity: Severity::Error,
                reference: String::from_str("JSONRPC-004"),
                message: chars_to_string(&msg),
            })
        }
    }
}

impl JsonRpcResponse {
    /// Checks the response: succeeds exactly when the version tag is "2.0",
    /// exactly one of result and error is present, and a present error
    /// object is itself valid.
    pub fn validate(&self) -> (r: McpResult<()>)
        ensures
            r is Ok <==> response_wf(self@),
            r matches Err(e) ==> e.severity == Severity::Error && e.reference@ == "JSONRPC-004"@
                && e.message@ == response_violation(self@),
    {
        if !str_eq(self.jsonrpc.as_str(), "2.0") {
            return Err(protocol_error("Invalid JSON-RPC version. Must be exactly '2.0'"));
        }
        match (&self.result, &self.error) {
            (Some(_), Some(_)) => {
                return Err(protocol_error("Response cannot contain both result and error"));
            },
            (None, None) => {
                return Err(protocol_error("Response must contain either result or error"));
            },
            _ => {},
        }
        if let Some(error) = &self.error {
            error.validate()?;
        }
        Ok(())
    }
}

// ----------------------------------------------------------------------
// Reading messages from JSON values
// ----------------------------------------------------------------------
/// The parameter value a message carries: an absent or null `params` member
/// means no parameters.
pub open spec fn params_from(pa: Option<JsonModel>) -> Option<JsonModel> {
    match pa {
        None => None,
        Some(p) => if p is Null {
            None
        } else {
            Some(p)
        },
    }
}

/// The request denoted by a JSON value: an object whose `jsonrpc` and
/// `method` members are strings and whose `id` member is null, a string or
/// an integer. Other members are ignored.
pub open spec fn request_from_json(m: JsonModel) -> Option<RequestModel> {
    match m {
        JsonModel::Obj(fields) => {
            let v = lookup_field(fields, "jsonrpc"@);
            let me = lookup_field(fields, "method"@);
            let idm = lookup_field(fields, "id"@);
            if v matches Some(JsonModel::Str(vs)) && me matches Some(JsonModel::Str(ms))
                && idm matches Some(i) && is_id_model(i) {
                Some(
                    RequestModel {
                        jsonrpc: v->0->Str_0,
                        method: me->0->Str_0,
                        params: params_from(lookup_field(fields, "params"@)),
                        id: idm->0,
                    },
                )
            } else {
                None
            }
        },
        _ => None,
    }
}

/// The notification denoted by a JSON value: an object whose `jsonrpc` and
/// `method` members are strings. Other members, an `id` included, are
/// ignored.
pub open spec fn notification_from_json(m: JsonModel) -> Option<NotificationModel> {
    match m {
        JsonModel::Obj(fields) => {
            let v = lookup_field(fields, "jsonrpc"@);
            let me = lookup_field(fields, "method"@);
            if v matches Some(JsonModel::Str(vs)) && me matches Some(JsonModel::Str(ms)) {
                Some(
                    NotificationModel {
                        jsonrpc: v->0->Str_0,
                        method: me->0->Str_0,
                        params: params_from(lookup_field(fields, "params"@)),
                    },
                )
            } else {
                None
            }
        },
        _ => None,
    }
}

/// Every element denotes a request.
pub open spec fn all_requests(items: Seq<JsonModel>) -> bool {
    forall|k: int| 0 <= k < items.len() ==> request_from_json(#[trigger] items[k]) is Some
}

/// Every element denotes a notification.
pub open spec fn all_notifications(items: Seq<JsonModel>) -> bool {
    forall|k: int| 0 <= k < items.len() ==> notification_from_json(#[trigger] items[k]) is Some
}

/// The requests denoted by the elements.
pub open spec fn requests_of(items: Seq<JsonModel>) -> Seq<RequestModel> {
    items.map_values(|m: JsonModel| request_from_json(m)->0)
}

/// The notifications denoted by the elements.
pub open spec fn notifications_of(items: Seq<JsonModel>) -> Seq<NotificationModel> {
    items.map_values(|m: JsonModel| notification_from_json(m)->0)
}

/// The model of a batch.
pub enum BatchModel {
    Requests(Seq<RequestModel>),
    Notifications(Seq<NotificationModel>),
}

impl View for JsonRpcBatch {
    type V = BatchModel;

    open spec fn view(&self) -> BatchModel {
        match self {
            JsonRpcBatch::Requests(rs) => BatchModel::Requests(
                rs@.map_values(|x: JsonRpcRequest| x@),
            ),
            JsonRpcBatch::Notifications(ns) => BatchModel::Notifications(
                ns@.map_values(|x: JsonRpcNotification| x@),
            ),
        }
    }
}

/// The batch denoted by a JSON value: an array that is entirely requests,
/// or else entirely notifications. A request also counts as a notification
/// shape, so a mixed array of both becomes all notifications.
pub open spec fn batch_from_json(m: JsonModel) -> Option<BatchModel> {
    match m {
        JsonModel::Arr(items) => {
            if all_requests(items) {
                Some(BatchModel::Requests(requests_of(items)))
            } else if all_notifications(items) {
                Some(BatchModel::Notifications(notifications_of(items)))
            } else {
                None
            }
        },
        _ => None,
    }
}

/// Reads a request from a JSON value.
pub fn value_to_request(v: &JsonValue) -> (r: Option<JsonRpcRequest>)
    ensures
        match r {
            Some(req) => request_from_json(v@) == Some(req@),
            None => request_from_json(v@) is None,
        },
{
    match v {
        JsonValue::Obj(fields) => {
            let vs = match obj_get(fields, "jsonrpc") {
                Some(JsonValue::Str(s)) => s.clone(),
                _ => {
                    return None;
                },
            };
            let ms = match obj_get(fields, "method") {
                Some(JsonValue::Str(s)) => s.clone(),
                _ => {
                    return None;
                },
            };
            let idv = match obj_get(fields, "id") {
                Some(JsonValue::Null) => JsonRpcId::Null,
                Some(JsonValue::Str(s)) => JsonRpcId::String(s.clone()),
                Some(JsonValue::Int(n)) => JsonRpcId::Number(*n),
                _ => {
                    return None;
                },
            };
            let params = match obj_get(fields, "params") {
                None => None,
                Some(JsonValue::Null) => None,
                Some(p) => Some(p.clone()),
            };
            Some(JsonRpcRequest { jsonrpc: vs, method: ms, params, id: idv })
        },
        _ => None,
    }
}

/// Reads a notification from a JSON value.
pub fn value_to_notification(v: &JsonValue) -> (r: Option<JsonRpcNotification>)
    ensures
        match r {
            Some(n) => notification_from_json(v@) == Some(n@),
            None => notification_from_json(v@) is None,
        },
{
    match v {
        JsonValue::Obj(fields) => {
            let vs = match obj_get(fields, "jsonrpc") {
                Some(JsonValue::Str(s)) => s.clone(),
                _ => {
                    return None;
                },
            };
            let ms = match obj_get(fields, "method") {
                Some(JsonValue::Str(s)) => s.clone(),
                _ => {
                    return None;
                },
            };
            let params = match obj_get(fields, "params") {
                None => None,
                Some(JsonValue::Null) => None,
                Some(p) => Some(p.clone()),
            };
            Some(JsonRpcNotification { jsonrpc: vs, method: ms, params })
        },
        _ => None,
    }
}

/// Reads a batch from a JSON value: all requests, else all notifications.
#[verifier::loop_isolation(false)]
pub fn value_to_batch(v: &JsonValue) -> (r: Option<JsonRpcBatch>)
    ensures
        match r {
            Some(b) => batch_from_json(v@) == Some(b@),
            None => batch_from_json(v@) is None,
        },
{
    match v {
        JsonValue::Arr(items) => {
            proof {
                crate::json::lemma_model_seq(items@);
            }
            let ghost ms = crate::json::model_seq(items@);
            let mut reqs: Vec<JsonRpcRequest> = Vec::new();
            let mut i: usize = 0;
            let mut failed: bool = false;
            while i < items.len() && !failed
                invariant
                    i <= items.len(),
                    !failed ==> reqs@.len() == i,
                    !failed ==> forall|k: int|
                        0 <= k < i ==> request_from_json(ms[k]) == Some((#[trigger] reqs@[k])@),
                    failed ==> i < items.len() && request_from_json(ms[i as int]) is None,
                decreases items.len() - i + (if failed { 0int } else { 1int }),
            {
                match value_to_request(&items[i]) {
                    Some(req) => {
                        reqs.push(req);
                        i = i + 1;
                    },
                    None => {
                        failed = true;
                    },
                }
            }
            if !failed {
                proof {
                    assert forall|k: int| 0 <= k < ms.len() implies request_from_json(
                        #[trigger] ms[k],
                    ) is Some by {
                        assert(request_from_json(ms[k]) == Some(reqs@[k]@));
                    }
                    assert(all_requests(ms));
                    assert(reqs@.map_values(|x: JsonRpcRequest| x@) =~= requests_of(ms));
                }
                return Some(JsonRpcBatch::Requests(reqs));
            }
            let mut notes: Vec<JsonRpcNotification> = Vec::new();
            let mut j: usize = 0;
            let mut nfailed: bool = false;
            while j < items.len() && !nfailed
                invariant
                    j <= items.len(),
                    !nfailed ==> notes@.len() == j,
                    !nfailed ==> forall|k: int|
                        0 <= k < j ==> notification_from_json(ms[k]) == Some(
                            (#[trigger] notes@[k])@,
                        ),
                    nfailed ==> j < items.len() && notification_from_json(ms[j as int]) is None,
                decreases items.len() - j + (if nfailed { 0int } else { 1int }),
            {
                match value_to_notification(&items[j]) {
                    Some(n) => {
                        notes.push(n);
                        j = j + 1;
                    },
                    None => {
                        nfailed = true;
                    },
                }
            }
            if !nfailed {
                proof {
                    assert(!all_requests(ms));
                    assert forall|k: int| 0 <= k < ms.len() implies notification_from_json(
                        #[trigger] ms[k],
                    ) is Some by {
                        assert(notification_from_json(ms[k]) == Some(notes@[k]@));
                    }
                    assert(all_notifications(ms));
                    assert(notes@.map_values(|x: JsonRpcNotification| x@) =~= notifications_of(
                        ms,
                    ));
                }
                return Some(JsonRpcBatch::Notifications(notes));
            }
            proof {
                assert(!all_requests(ms));
                assert(!all_notifications(ms));
            }
            None
        },
        _ => None,
    }
}

// ----------------------------------------------------------------------
// Writing messages as JSON values
// ----------------------------------------------------------------------
/// The JSON value of an error object: code, message, and data when present,
/// in that order.
pub open spec fn error_json(e: ErrorModel) -> JsonModel {
    JsonModel::Obj(
        seq![("code"@, JsonModel::Int(e.code)), ("message"@, JsonModel::Str(e.message))] + (
        match e.data {
            Some(d) => seq![("data"@, d)],
            None => Seq::empty(),
        }),
    )
}

/// The JSON value of a response: jsonrpc, then result or error, then id.
pub open spec fn response_json(r: ResponseModel) -> JsonModel {
    JsonModel::Obj(
        seq![("jsonrpc"@, JsonModel::Str(r.jsonrpc))] + (match r.result {
            Some(v) => seq![("result"@, v)],
            None => Seq::empty(),
        }) + (match r.error {
            Some(e) => seq![("error"@, error_json(e))],
            None => Seq::empty(),
        }) + seq![("id"@, r.id)],
    )
}

/// The wire text of a response.
pub open spec fn response_text(r: ResponseModel) -> Seq<char> {
    ser(response_json(r))
}

/// The wire text of an ordered sequence of responses, as a JSON array.
pub open spec fn responses_text(rs: Seq<ResponseModel>) -> Seq<char> {
    ser(JsonModel::Arr(rs.map_values(|r: ResponseModel| response_json(r))))
}

/// Builds the JSON value of a response.
pub fn response_to_value(resp: &JsonRpcResponse) -> (rv: JsonValue)
    ensures
        rv@ == response_json(resp@),
{
    let mut fields: Vec<(String, JsonValue)> = Vec::new();
    fields.push((String::from_str("jsonrpc"), JsonValue::Str(resp.jsonrpc.clone())));
    match &resp.result {
        Some(v) => {
            fields.push((String::from_str("result"), v.clone()));
        },
        None => {},
    }
    match &resp.error {
        Some(e) => {
            let mut ef: Vec<(String, JsonValue)> = Vec::new();
            ef.push((String::from_str("code"), JsonValue::Int(e.code as i64)));
            ef.push((String::from_str("message"), JsonValue::Str(e.message.clone())));
            match &e.data {
                Some(d) => {
                    ef.push((String::from_str("data"), d.clone()));
                },
                None => {},
            }
            proof {
                lemma_model_fields(ef@);
                assert(model_fields(ef@) =~= error_json(e@)->Obj_0);
            }
            fields.push((String::from_str("error"), JsonValue::Obj(ef)));
        },
        None => {},
    }
    let idv = match &resp.id {
        JsonRpcId::Null => JsonValue::Null,
        JsonRpcId::String(s) => JsonValue::Str(s.clone()),
        JsonRpcId::Number(n) => JsonValue::Int(*n),
    };
    fields.push((String::from_str("id"), idv));
    proof {
        lemma_model_fields(fields@);
        assert(model_fields(fields@) =~= response_json(resp@)->Obj_0);
    }
    JsonValue::Obj(fields)
}

/// Serializes a response to its wire text.
pub fn response_to_text(resp: &JsonRpcResponse) -> (r: String)
    ensures
        r@ == response_text(resp@),
{
    let v = response_to_value(resp);
    to_json_text(&v)
}

/// Serializes an ordered sequence of responses to the wire text of a JSON
/// array.
#[verifier::loop_isolation(false)]
pub fn responses_to_text(resps: &Vec<JsonRpcResponse>) -> (r: String)
    ensures
        r@ == responses_text(resps@.map_values(|x: JsonRpcResponse| x@)),
{
    let mut vals: Vec<JsonValue> = Vec::new();
    let mut i: usize = 0;
    while i < resps.len()
        invariant
            i <= resps.len(),
            vals@.len() == i,
            forall|k: int| 0 <= k < i ==> (#[trigger] vals@[k])@ == response_json(resps@[k]@),
        decreases resps.len() - i,
    {
        let v = response_to_value(&resps[i]);
        vals.push(v);
        i = i + 1;
    }
    let arr = JsonValue::Arr(vals);
    proof {
        crate::json::lemma_model_seq(vals@);
        let rms = resps@.map_values(|x: JsonRpcResponse| x@);
        assert forall|k: int| 0 <= k < vals@.len() implies crate::json::model_seq(vals@)[k]
            == rms.map_values(|r: ResponseModel| response_json(r))[k] by {
            assert(vals@[k]@ == response_json(resps@[k]@));
        }
        assert(crate::json::model_seq(vals@) =~= rms.map_values(
            |r: ResponseModel| response_json(r),
        ));
    }
    to_json_text(&arr)
}

} // verus!
