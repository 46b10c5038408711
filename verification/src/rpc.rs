//! The messages on the wire: JSON-RPC 2.0.
use crate::codec::{members_of, object_text, parse_json, parsed_json, print_object, printable, reads_back};
use crate::decode::{
    absent, absent_in, check_record, count_values, field, field_of, first, first_of, optional_field, optional_value,
    problem, problem_at, problem_in, read_i64, read_optional_value, read_text, read_u64, record_problem, required_i64,
    required_text, required_u64, surplus, surplus_in, value_problem, values_in, Decode,
};
use crate::error::Error;
use crate::json::{optional_json, referred_json, Json, JsonView, NumberView};
use crate::text::join;
use vstd::prelude::*;

verus! {

/// A request of the client.
#[derive(Debug)]
pub struct RpcRequest {
    pub jsonrpc: &'static str,
    pub id: u64,
    pub method: String,
    pub params: Option<Json>,
}

/// The parameters as a member of a message, which has none where there are no parameters.
pub open spec fn params_member(params: Option<JsonView>) -> Seq<(Seq<char>, JsonView)> {
    match params {
        Some(value) => seq![("params"@, value)],
        None => Seq::empty(),
    }
}

/// The members of a request, in the order in which they are sent.
pub open spec fn request_members(
    jsonrpc: Seq<char>,
    id: u64,
    method: Seq<char>,
    params: Option<JsonView>,
) -> Seq<(Seq<char>, JsonView)> {
    seq![
        ("jsonrpc"@, JsonView::String(jsonrpc)),
        ("id"@, JsonView::Number(NumberView::Unsigned(id))),
        ("method"@, JsonView::String(method)),
    ] + params_member(params)
}

/// The members of a notification, in the order in which they are sent.
pub open spec fn notification_members(
    jsonrpc: Seq<char>,
    method: Seq<char>,
    params: Option<JsonView>,
) -> Seq<(Seq<char>, JsonView)> {
    seq![("jsonrpc"@, JsonView::String(jsonrpc)), ("method"@, JsonView::String(method))] + params_member(params)
}

/// The text of a request.
pub open spec fn request_text(id: u64, method: Seq<char>, params: Option<JsonView>) -> Seq<char> {
    object_text(request_members("2.0"@, id, method, params))
}

/// The text of a notification.
pub open spec fn notification_text(method: Seq<char>, params: Option<JsonView>) -> Seq<char> {
    object_text(notification_members("2.0"@, method, params))
}

impl RpcRequest {
    /// A request for a method.
    pub fn new(id: u64, method: &str, params: Option<Json>) -> (request: RpcRequest)
        ensures
            request.jsonrpc@ == "2.0"@,
            request.id == id,
            request.method@ == method@,
            request.params == params,
    {
        RpcRequest { jsonrpc: "2.0", id, method: method.to_owned(), params }
    }

    /// The text of the request, on one line.
    pub fn to_text(&self) -> (text: String)
        ensures
            text@ == object_text(request_members(self.jsonrpc@, self.id, self.method@, optional_json(self.params))),
            printable(text@),
    {
        let mut entries: Vec<(String, Json)> = Vec::new();
        entries.push(("jsonrpc".to_owned(), Json::from_text(self.jsonrpc)));
        entries.push(("id".to_owned(), Json::from_u64(self.id)));
        entries.push(("method".to_owned(), Json::from_text(self.method.as_str())));
        match &self.params {
            Some(params) => {
                entries.push(("params".to_owned(), params.clone()));
            },
            None => {},
        }
        assert(members_of(entries@) =~= request_members(self.jsonrpc@, self.id, self.method@, optional_json(self.params)));
        print_object(&entries)
    }
}

/// A notification of the client.
#[derive(Debug)]
pub struct RpcNotification {
    pub jsonrpc: &'static str,
    pub method: &'static str,
    pub params: Option<Json>,
}

impl RpcNotification {
    /// A notification.
    pub fn new(method: &'static str, params: Option<Json>) -> (notification: RpcNotification)
        ensures
            notification.jsonrpc@ == "2.0"@,
            notification.method@ == method@,
            notification.params == params,
    {
        RpcNotification { jsonrpc: "2.0", method, params }
    }

    /// The text of the notification, on one line.
    pub fn to_text(&self) -> (text: String)
        ensures
            text@ == object_text(notification_members(self.jsonrpc@, self.method@, optional_json(self.params))),
            printable(text@),
    {
        let mut entries: Vec<(String, Json)> = Vec::new();
        entries.push(("jsonrpc".to_owned(), Json::from_text(self.jsonrpc)));
        entries.push(("method".to_owned(), Json::from_text(self.method)));
        match &self.params {
            Some(params) => {
                entries.push(("params".to_owned(), params.clone()));
            },
            None => {},
        }
        assert(members_of(entries@) =~= notification_members(
            self.jsonrpc@,
            self.method@,
            optional_json(self.params),
        ));
        print_object(&entries)
    }
}

/// The error in a response.
#[derive(Debug)]
pub struct RpcError {
    pub code: i64,
    pub message: String,
}

/// The model of an [`RpcError`].
#[verifier::ext_equal]
pub struct RpcErrorView {
    pub code: i64,
    pub message: Seq<char>,
}

impl View for RpcError {
    type V = RpcErrorView;

    open spec fn view(&self) -> RpcErrorView {
        RpcErrorView { code: self.code, message: self.message@ }
    }
}

impl Decode for RpcError {
    open spec fn decoded(json: JsonView) -> Result<RpcErrorView, Seq<char>> {
        let code = required_i64(field_of(json, 0, "code"@));
        let message = required_text(field_of(json, 1, "message"@));
        let n = values_in(json);
        let fields = "struct RpcError with 2 elements"@;
        let members = first(
            problem(code),
            first(
                problem(message),
                first(absent(code, "code"@), absent(message, "message"@)),
            ),
        );
        let values = first(
            value_problem(n, 0, fields, problem(code)),
            first(value_problem(n, 1, fields, problem(message)), surplus(n, 2, "fewer elements in array"@)),
        );
        match record_problem(json, "struct RpcError"@, members, values) {
            Some(message) => Err(message),
            None => Ok(
                RpcErrorView { code: code->Ok_0->0, message: message->Ok_0->0 },
            ),
        }
    }

    fn decode(json: &Json) -> (result: Result<RpcError, String>) {
        let code = read_i64(field(json, 0, "code"));
        let message = read_text(field(json, 1, "message"));
        let n: usize = count_values(json);
        let fields = "struct RpcError with 2 elements";
        let members = first_of(
            problem_in(&code),
            first_of(
                problem_in(&message),
                first_of(absent_in(&code, "code"), absent_in(&message, "message")),
            ),
        );
        let values = first_of(
            problem_at(n, 0, fields, problem_in(&code)),
            first_of(problem_at(n, 1, fields, problem_in(&message)), surplus_in(n, 2, "fewer elements in array")),
        );
        if let Some(message) = check_record(json, "struct RpcError", members, values) {
            return Err(message);
        }
        match (code, message) {
            (Ok(Some(code)), Ok(Some(message))) => Ok(
                RpcError { code, message },
            ),
            _ => {
                assert(false);
                Err(String::new())
            },
        }
    }
}

/// The answer of the server to a request.
#[derive(Debug)]
pub struct RpcResponse {
    pub id: u64,
    pub result: Option<Json>,
    pub error: Option<RpcError>,
}

/// The model of an [`RpcResponse`].
#[verifier::ext_equal]
pub struct RpcResponseView {
    pub id: u64,
    pub result: Option<JsonView>,
    pub error: Option<RpcErrorView>,
}

/// The view of an optional error.
pub open spec fn error_view(error: Option<RpcError>) -> Option<RpcErrorView> {
    match error {
        Some(error) => Some(error@),
        None => None,
    }
}

impl View for RpcResponse {
    type V = RpcResponseView;

    open spec fn view(&self) -> RpcResponseView {
        RpcResponseView { id: self.id, result: optional_json(self.result), error: error_view(self.error) }
    }
}

/// The error of a response, which may be missing.
pub open spec fn optional_error(value: Option<JsonView>) -> Result<Option<RpcErrorView>, Seq<char>> {
    optional_field(value, |json: JsonView| RpcError::decoded(json))
}

/// The view of an error of a response that was read, or of the message.
pub open spec fn error_read(read: Result<Option<RpcError>, String>) -> Result<Option<RpcErrorView>, Seq<char>> {
    match read {
        Ok(error) => Ok(error_view(error)),
        Err(message) => Err(message@),
    }
}

/// Reads the error of a response, which may be missing.
fn read_error(value: Option<&Json>) -> (read: Result<Option<RpcError>, String>)
    ensures
        error_read(read) == optional_error(referred_json(value)),
{
    match value {
        None => Ok(None),
        Some(Json::Null) => Ok(None),
        Some(json) => match RpcError::decode(json) {
            Ok(error) => Ok(Some(error)),
            Err(message) => Err(message),
        },
    }
}

impl Decode for RpcResponse {
    open spec fn decoded(json: JsonView) -> Result<RpcResponseView, Seq<char>> {
        let id = required_u64(field_of(json, 0, "id"@));
        let result = optional_value(field_of(json, 1, "result"@));
        let error = optional_error(field_of(json, 2, "error"@));
        let n = values_in(json);
        let fields = "struct RpcResponse with 3 elements"@;
        let members = first(
            problem(error),
            first(problem(id), absent(id, "id"@)),
        );
        let values = first(
            value_problem(n, 0, fields, problem(id)),
            first(
                value_problem(n, 1, fields, None),
                first(value_problem(n, 2, fields, problem(error)), surplus(n, 3, "fewer elements in array"@)),
            ),
        );
        match record_problem(json, "struct RpcResponse"@, members, values) {
            Some(message) => Err(message),
            None => Ok(
                RpcResponseView { id: id->Ok_0->0, result, error: error->Ok_0 },
            ),
        }
    }

    fn decode(json: &Json) -> (result: Result<RpcResponse, String>) {
        let id = read_u64(field(json, 0, "id"));
        let error = read_error(field(json, 2, "error"));
        let n: usize = count_values(json);
        let fields = "struct RpcResponse with 3 elements";
        let members = first_of(
            problem_in(&error),
            first_of(problem_in(&id), absent_in(&id, "id")),
        );
        let values = first_of(
            problem_at(n, 0, fields, problem_in(&id)),
            first_of(
                problem_at(n, 1, fields, None),
                first_of(problem_at(n, 2, fields, problem_in(&error)), surplus_in(n, 3, "fewer elements in array")),
            ),
        );
        if let Some(message) = check_record(json, "struct RpcResponse", members, values) {
            return Err(message);
        }
        match (id, error) {
            (Ok(Some(id)), Ok(error)) => Ok(
                RpcResponse { id, result: read_optional_value(field(json, 1, "result")), error },
            ),
            _ => {
                assert(false);
                Err(String::new())
            },
        }
    }
}

/// A notification of the server.
#[derive(Debug)]
pub struct IncomingNotification {
    pub method: String,
    pub params: Option<Json>,
}

/// The model of an [`IncomingNotification`].
#[verifier::ext_equal]
pub struct IncomingNotificationView {
    pub method: Seq<char>,
    pub params: Option<JsonView>,
}

impl View for IncomingNotification {
    type V = IncomingNotificationView;

    open spec fn view(&self) -> IncomingNotificationView {
        IncomingNotificationView { method: self.method@, params: optional_json(self.params) }
    }
}

impl Decode for IncomingNotification {
    open spec fn decoded(json: JsonView) -> Result<IncomingNotificationView, Seq<char>> {
        let method = required_text(field_of(json, 0, "method"@));
        let params = optional_value(field_of(json, 1, "params"@));
        let n = values_in(json);
        let fields = "struct IncomingNotification with 2 elements"@;
        let members = first(problem(method), absent(method, "method"@));
        let values = first(
            value_problem(n, 0, fields, problem(method)),
            first(value_problem(n, 1, fields, None), surplus(n, 2, "fewer elements in array"@)),
        );
        match record_problem(json, "struct IncomingNotification"@, members, values) {
            Some(message) => Err(message),
            None => Ok(
                IncomingNotificationView { method: method->Ok_0->0, params },
            ),
        }
    }

    fn decode(json: &Json) -> (result: Result<IncomingNotification, String>) {
        let method = read_text(field(json, 0, "method"));
        let n: usize = count_values(json);
        let fields = "struct IncomingNotification with 2 elements";
        let members = first_of(problem_in(&method), absent_in(&method, "method"));
        let values = first_of(
            problem_at(n, 0, fields, problem_in(&method)),
            first_of(problem_at(n, 1, fields, None), surplus_in(n, 2, "fewer elements in array")),
        );
        if let Some(message) = check_record(json, "struct IncomingNotification", members, values) {
            return Err(message);
        }
        match (method) {
            (Ok(Some(method))) => Ok(
                IncomingNotification { method, params: read_optional_value(field(json, 1, "params")) },
            ),
            _ => {
                assert(false);
                Err(String::new())
            },
        }
    }
}

/// Any message of the server.
#[derive(Debug)]
pub enum IncomingMessage {
    Response(RpcResponse),
    Notification(IncomingNotification),
}

/// The model of an [`IncomingMessage`].
#[verifier::ext_equal]
pub enum IncomingMessageView {
    Response(RpcResponseView),
    Notification(IncomingNotificationView),
}

impl View for IncomingMessage {
    type V = IncomingMessageView;

    open spec fn view(&self) -> IncomingMessageView {
        match self {
            IncomingMessage::Response(response) => IncomingMessageView::Response(response@),
            IncomingMessage::Notification(notification) => IncomingMessageView::Notification(notification@),
        }
    }
}

/// What a JSON value is as a message.
#[verifier::ext_equal]
pub enum Routed {
    /// A message.
    Message(IncomingMessageView),
    /// It is no JSON, or it looks like a message but its members do not hold what they should; this
    /// is the message that says what is wrong.
    Malformed(Seq<char>),
    /// It does not look like a message.
    Unrecognised,
}

/// The JSON is an object with a member of this name, whatever the member holds.
pub open spec fn has_member(json: JsonView, name: Seq<char>) -> bool {
    json.member(name) is Some
}

/// What a JSON value is as a message: with an `id` and a `result` or an `error` it is a response,
/// otherwise with a `method` it is a notification.
pub open spec fn routed(json: JsonView) -> Routed {
    if has_member(json, "id"@) && (has_member(json, "result"@) || has_member(json, "error"@)) {
        match RpcResponse::decoded(json) {
            Ok(response) => Routed::Message(IncomingMessageView::Response(response)),
            Err(message) => Routed::Malformed(message),
        }
    } else if has_member(json, "method"@) {
        match IncomingNotification::decoded(json) {
            Ok(notification) => Routed::Message(IncomingMessageView::Notification(notification)),
            Err(message) => Routed::Malformed(message),
        }
    } else {
        Routed::Unrecognised
    }
}

/// What a text is as a message, given what the JSON reader makes of it.
pub open spec fn routed_text(read: Result<JsonView, Seq<char>>) -> Routed {
    match read {
        Ok(json) => routed(json),
        Err(message) => Routed::Malformed(message),
    }
}

/// A message that was read, or the error that says why there is none.
pub open spec fn routed_as(routed: Routed, raw: Seq<char>, result: Result<IncomingMessage, Error>) -> bool {
    match routed {
        Routed::Message(message) => result matches Ok(found) && found@ == message,
        Routed::Malformed(message) => result matches Err(Error::Json(own)) && own@ == message,
        Routed::Unrecognised => result matches Err(Error::Protocol(message)) && message@ == "unrecognised message: "@
            + raw,
    }
}

/// Sorts a JSON value that was read from the text `raw` into the messages.
pub fn route_incoming(json: &Json, raw: &str) -> (result: Result<IncomingMessage, Error>)
    ensures
        routed_as(routed(json@), raw@, result),
{
    let has_id = json.get("id").is_some();
    let has_result_or_error = json.get("result").is_some() || json.get("error").is_some();
    let has_method = json.get("method").is_some();
    if has_id && has_result_or_error {
        match RpcResponse::decode(json) {
            Ok(response) => Ok(IncomingMessage::Response(response)),
            Err(message) => Err(Error::Json(message)),
        }
    } else if has_method {
        match IncomingNotification::decode(json) {
            Ok(notification) => Ok(IncomingMessage::Notification(notification)),
            Err(message) => Err(Error::Json(message)),
        }
    } else {
        Err(Error::Protocol(join("unrecognised message: ", raw)))
    }
}

/// Reads a message of the server. Where the text is no JSON the error carries the message of the
/// JSON reader, and where the JSON is no message the one that says what is wrong with it.
pub fn parse_incoming(raw: &str) -> (result: Result<IncomingMessage, Error>)
    ensures
        routed_as(routed_text(parsed_json(raw@)), raw@, result),
        reads_back(raw@, parsed_json(raw@)),
{
    match parse_json(raw) {
        Ok(json) => route_incoming(&json, raw),
        Err(message) => Err(Error::Json(message)),
    }
}

} // verus!
