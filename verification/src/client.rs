//! The client: which requests are open, what is sent for a call, and what becomes of what arrives.
//!
//! The client reads and writes nothing itself. A call gives the text to send; a message that has
//! arrived gives what to hand to which caller. The way back to a caller is a value of the type `R`
//! for the answer, and of the type `P` for progress reports.
use crate::codec::{parsed_json, reads_back};
use crate::decode::{decode_list, decoded_list, views, Decode};
use crate::error::Error;
use crate::json::{add_member, members_view, optional_json, Json, JsonView, NumberView};
use crate::rpc::{
    notification_text, parse_incoming, request_text, routed_text, IncomingMessage, IncomingMessageView,
    IncomingNotificationView, Routed, RpcNotification, RpcRequest, RpcResponseView,
};
use crate::text::same_text;
use crate::types::{
    is_tool_result, no_capabilities, progress_of, tool_result_of, ProgressUpdate, Prompt, Resource, ServerCapabilities,
    ServerCapabilitiesView, Tool, ToolEvent, ToolResult, PROTOCOL_VERSION,
};
use std::collections::HashMap;
use vstd::prelude::*;
use vstd::std_specs::iter::IteratorSpec;

verus! {

broadcast use vstd::std_specs::hash::group_hash_axioms;

/// The version of the client.
pub const CLIENT_VERSION: &'static str = "0.1.0";

/// The id of the request that opens a connection.
pub const INIT_ID: u64 = 1;

/// The way back to the caller of an open request.
pub struct PendingResponse<R, P> {
    pub result_tx: R,
    /// Present where the caller wants progress reports.
    pub progress_tx: Option<P>,
}

/// A client on a connection.
pub struct McpClient<R, P> {
    /// The id of the next request.
    pub next_id: u64,
    /// The open requests by their ids.
    pub pending: HashMap<u64, PendingResponse<R, P>>,
    /// What the server said that it can do.
    pub capabilities: ServerCapabilities,
    /// The connection has ended: nothing arrives any more.
    pub closed: bool,
}

/// The model of an [`McpClient`].
#[verifier::reject_recursive_types(R)]
#[verifier::reject_recursive_types(P)]
#[verifier::ext_equal]
pub struct ClientView<R, P> {
    pub next_id: u64,
    pub pending: Map<u64, PendingResponse<R, P>>,
    pub capabilities: ServerCapabilitiesView,
    pub closed: bool,
}

impl<R, P> View for McpClient<R, P> {
    type V = ClientView<R, P>;

    open spec fn view(&self) -> ClientView<R, P> {
        ClientView {
            next_id: self.next_id,
            pending: self.pending@,
            capabilities: self.capabilities@,
            closed: self.closed,
        }
    }
}

/// A request to send.
#[derive(Debug)]
pub struct Outgoing {
    pub id: u64,
    pub text: String,
}

/// The id after an id. After the largest one the count starts again.
pub open spec fn id_after(id: u64) -> u64 {
    if id == u64::MAX {
        0
    } else {
        (id + 1) as u64
    }
}

impl<R, P> ClientView<R, P> {
    /// The client once its next id is taken.
    pub open spec fn with_id_taken(self) -> ClientView<R, P> {
        ClientView { next_id: id_after(self.next_id), ..self }
    }

    /// The client once its next request is open.
    pub open spec fn with_request(self, pending: PendingResponse<R, P>) -> ClientView<R, P> {
        ClientView {
            next_id: id_after(self.next_id),
            pending: self.pending.insert(self.next_id, pending),
            ..self
        }
    }

    /// The client without the open request `id`.
    pub open spec fn without_request(self, id: u64) -> ClientView<R, P> {
        ClientView { pending: self.pending.remove(id), ..self }
    }

    /// The client once the connection has ended: no request is open any more.
    pub open spec fn shut(self) -> ClientView<R, P> {
        ClientView { pending: Map::empty(), closed: true, ..self }
    }
}

/// The object with one member.
pub open spec fn object_1(name: Seq<char>, value: JsonView) -> JsonView {
    JsonView::Object(Map::empty().insert(name, value))
}

/// The object with two members.
pub open spec fn object_2(name1: Seq<char>, value1: JsonView, name2: Seq<char>, value2: JsonView) -> JsonView {
    JsonView::Object(Map::empty().insert(name1, value1).insert(name2, value2))
}

/// The object with three members.
pub open spec fn object_3(
    name1: Seq<char>,
    value1: JsonView,
    name2: Seq<char>,
    value2: JsonView,
    name3: Seq<char>,
    value3: JsonView,
) -> JsonView {
    JsonView::Object(Map::empty().insert(name1, value1).insert(name2, value2).insert(name3, value3))
}

/// Makes an object with one member.
fn make_object_1(name: &str, value: Json) -> (json: Json)
    ensures
        json@ == object_1(name@, value@),
{
    let mut entries: Vec<(String, Json)> = Vec::new();
    add_member(&mut entries, name, value);
    Json::Object(entries)
}

/// Makes an object with two members.
fn make_object_2(name1: &str, value1: Json, name2: &str, value2: Json) -> (json: Json)
    ensures
        json@ == object_2(name1@, value1@, name2@, value2@),
{
    let mut entries: Vec<(String, Json)> = Vec::new();
    add_member(&mut entries, name1, value1);
    add_member(&mut entries, name2, value2);
    Json::Object(entries)
}

/// Makes an object with three members.
fn make_object_3(name1: &str, value1: Json, name2: &str, value2: Json, name3: &str, value3: Json) -> (json: Json)
    ensures
        json@ == object_3(name1@, value1@, name2@, value2@, name3@, value3@),
{
    let mut entries: Vec<(String, Json)> = Vec::new();
    add_member(&mut entries, name1, value1);
    add_member(&mut entries, name2, value2);
    add_member(&mut entries, name3, value3);
    Json::Object(entries)
}

/// The parameters of the request that opens a connection.
pub open spec fn initialize_params() -> JsonView {
    object_3(
        "protocolVersion"@,
        JsonView::String(PROTOCOL_VERSION@),
        "capabilities"@,
        JsonView::Object(Map::empty()),
        "clientInfo"@,
        object_2(
            "name"@,
            JsonView::String("mcp-client"@),
            "version"@,
            JsonView::String(CLIENT_VERSION@),
        ),
    )
}

/// The parameters of a tool call.
pub open spec fn tool_params(name: Seq<char>, args: JsonView) -> JsonView {
    object_2("name"@, JsonView::String(name), "arguments"@, args)
}

/// The parameters of a tool call with progress reports, which carry the token that the reports
/// will come with.
pub open spec fn streaming_params(name: Seq<char>, args: JsonView, token: u64) -> JsonView {
    object_3(
        "name"@,
        JsonView::String(name),
        "arguments"@,
        args,
        "_meta"@,
        object_1("progressToken"@, JsonView::Number(NumberView::Unsigned(token))),
    )
}

/// The parameters of a request for a prompt.
pub open spec fn prompt_params(name: Seq<char>, args: Option<JsonView>) -> JsonView {
    match args {
        Some(args) => object_2("name"@, JsonView::String(name), "arguments"@, args),
        None => object_1("name"@, JsonView::String(name)),
    }
}

/// The parameters of the notification that a request was cancelled.
pub open spec fn cancelled_params(id: u64) -> JsonView {
    object_2(
        "requestId"@,
        JsonView::Number(NumberView::Unsigned(id)),
        "reason"@,
        JsonView::String("client cancelled"@),
    )
}

impl<R, P> McpClient<R, P> {
    /// Takes an id for a request.
    pub fn next_id(&mut self) -> (id: u64)
        ensures
            id == old(self)@.next_id,
            final(self)@ == old(self)@.with_id_taken(),
    {
        let id: u64 = self.next_id;
        self.next_id = id.wrapping_add(1);
        id
    }

    /// Opens a request.
    fn send_request(&mut self, method: &str, params: Option<Json>, pending: PendingResponse<R, P>) -> (out: Outgoing)
        ensures
            out.id == old(self).next_id,
            out.text@ == request_text(out.id, method@, optional_json(params)),
            final(self)@ == old(self)@.with_request(pending),
    {
        let id: u64 = self.next_id();
        self.pending.insert(id, pending);
        let request = RpcRequest::new(id, method, params);
        Outgoing { id, text: request.to_text() }
    }

    /// Opens any request.
    pub fn request(&mut self, method: &str, params: Option<Json>, result_tx: R) -> (out: Outgoing)
        ensures
            out.id == old(self).next_id,
            out.text@ == request_text(out.id, method@, optional_json(params)),
            final(self)@ == old(self)@.with_request(PendingResponse { result_tx, progress_tx: None }),
    {
        self.send_request(method, params, PendingResponse { result_tx, progress_tx: None })
    }

    /// Asks for the tools that the server offers.
    pub fn list_tools(&mut self, result_tx: R) -> (out: Outgoing)
        ensures
            out.id == old(self).next_id,
            out.text@ == request_text(out.id, "tools/list"@, None),
            final(self)@ == old(self)@.with_request(PendingResponse { result_tx, progress_tx: None }),
    {
        self.request("tools/list", None, result_tx)
    }

    /// Calls a tool.
    pub fn call_tool(&mut self, name: &str, args: Json, result_tx: R) -> (out: Outgoing)
        ensures
            out.id == old(self).next_id,
            out.text@ == request_text(out.id, "tools/call"@, Some(tool_params(name@, args@))),
            final(self)@ == old(self)@.with_request(PendingResponse { result_tx, progress_tx: None }),
    {
        let params = make_object_2("name", Json::from_text(name), "arguments", args);
        self.request("tools/call", Some(params), result_tx)
    }

    /// Calls a tool and asks for progress reports. The token of the reports is the id of the
    /// request.
    pub fn call_tool_streaming(&mut self, name: &str, args: Json, result_tx: R, progress_tx: P) -> (out: Outgoing)
        ensures
            out.id == old(self).next_id,
            out.text@ == request_text(out.id, "tools/call"@, Some(streaming_params(name@, args@, out.id))),
            final(self)@ == old(self)@.with_request(PendingResponse { result_tx, progress_tx: Some(progress_tx) }),
    {
        let params = make_object_3(
            "name",
            Json::from_text(name),
            "arguments",
            args,
            "_meta",
            make_object_1("progressToken", Json::from_u64(self.next_id)),
        );
        self.send_request("tools/call", Some(params), PendingResponse { result_tx, progress_tx: Some(progress_tx) })
    }

    /// Calls a tool that can be cancelled; see [`McpClient::finish_cancellable`].
    pub fn call_tool_cancellable(&mut self, name: &str, args: Json, result_tx: R) -> (out: Outgoing)
        ensures
            out.id == old(self).next_id,
            out.text@ == request_text(out.id, "tools/call"@, Some(tool_params(name@, args@))),
            final(self)@ == old(self)@.with_request(PendingResponse { result_tx, progress_tx: None }),
    {
        self.call_tool(name, args, result_tx)
    }

    /// Asks for the resources that the server offers.
    pub fn list_resources(&mut self, result_tx: R) -> (out: Outgoing)
        ensures
            out.id == old(self).next_id,
            out.text@ == request_text(out.id, "resources/list"@, None),
            final(self)@ == old(self)@.with_request(PendingResponse { result_tx, progress_tx: None }),
    {
        self.request("resources/list", None, result_tx)
    }

    /// Asks for the contents of a resource.
    pub fn read_resource(&mut self, uri: &str, result_tx: R) -> (out: Outgoing)
        ensures
            out.id == old(self).next_id,
            out.text@ == request_text(out.id, "resources/read"@, Some(object_1("uri"@, JsonView::String(uri@)))),
            final(self)@ == old(self)@.with_request(PendingResponse { result_tx, progress_tx: None }),
    {
        let params = make_object_1("uri", Json::from_text(uri));
        self.request("resources/read", Some(params), result_tx)
    }

    /// Asks for the prompts that the server offers.
    pub fn list_prompts(&mut self, result_tx: R) -> (out: Outgoing)
        ensures
            out.id == old(self).next_id,
            out.text@ == request_text(out.id, "prompts/list"@, None),
            final(self)@ == old(self)@.with_request(PendingResponse { result_tx, progress_tx: None }),
    {
        self.request("prompts/list", None, result_tx)
    }

    /// Asks for a prompt with its arguments filled in.
    pub fn get_prompt(&mut self, name: &str, args: Option<Json>, result_tx: R) -> (out: Outgoing)
        ensures
            out.id == old(self).next_id,
            out.text@ == request_text(out.id, "prompts/get"@, Some(prompt_params(name@, optional_json(args)))),
            final(self)@ == old(self)@.with_request(PendingResponse { result_tx, progress_tx: None }),
    {
        let params = match args {
            Some(args) => make_object_2("name", Json::from_text(name), "arguments", args),
            None => make_object_1("name", Json::from_text(name)),
        };
        self.request("prompts/get", Some(params), result_tx)
    }
}

/// What came back for a request: the answer, or `None` where the way back is closed.
pub type Reply = Option<Result<Json, Error>>;

/// The error that a reply is: the server's, or that the connection is closed. `None` where the
/// reply is an answer.
pub open spec fn reply_failure(reply: Reply) -> Option<Error> {
    match reply {
        Some(Ok(_)) => None,
        Some(Err(error)) => Some(error),
        None => Some(Error::Closed),
    }
}

/// The answer to any request.
pub fn request_result(reply: Reply) -> (result: Result<Json, Error>)
    ensures
        match reply_failure(reply) {
            Some(error) => result == Err::<Json, Error>(error),
            None => Some(result) == reply,
        },
{
    match reply {
        Some(result) => result,
        None => Err(Error::Closed),
    }
}

/// The answer to a tool call.
pub fn call_tool_result(reply: Reply) -> (result: Result<ToolResult, Error>)
    ensures
        match reply_failure(reply) {
            Some(error) => result == Err::<ToolResult, Error>(error),
            None => is_tool_result(reply->0->Ok_0@, result),
        },
{
    match request_result(reply) {
        Ok(json) => ToolResult::from_value(json),
        Err(error) => Err(error),
    }
}

/// The list in a member of an answer, which is empty where the member is missing.
pub open spec fn listed<T: Decode>(json: JsonView, name: Seq<char>) -> Result<Seq<T::V>, Seq<char>> {
    match json.member(name) {
        Some(list) => decoded_list::<T>(list),
        None => Ok(Seq::empty()),
    }
}

/// A list, or the error that says why there is none, as it is owed for a reply.
pub open spec fn lists<T: Decode>(reply: Reply, name: Seq<char>, result: Result<Vec<T>, Error>) -> bool {
    match reply_failure(reply) {
        Some(error) => result == Err::<Vec<T>, Error>(error),
        None => match listed::<T>(reply->0->Ok_0@, name) {
            Ok(list) => result matches Ok(own) && views(own@) == list,
            Err(message) => result matches Err(Error::Json(own)) && own@ == message,
        },
    }
}

/// Reads a list out of a reply.
fn list_result<T: Decode>(reply: Reply, name: &str) -> (result: Result<Vec<T>, Error>)
    ensures
        lists::<T>(reply, name@, result),
{
    match request_result(reply) {
        Ok(json) => match json.get(name) {
            Some(list) => match decode_list::<T>(list) {
                Ok(list) => Ok(list),
                Err(message) => Err(Error::Json(message)),
            },
            None => {
                let list: Vec<T> = Vec::new();
                assert(views(list@) =~= Seq::<T::V>::empty());
                Ok(list)
            },
        },
        Err(error) => Err(error),
    }
}

/// The answer to [`McpClient::list_tools`].
pub fn list_tools_result(reply: Reply) -> (result: Result<Vec<Tool>, Error>)
    ensures
        lists::<Tool>(reply, "tools"@, result),
{
    list_result(reply, "tools")
}

/// The answer to [`McpClient::list_resources`].
pub fn list_resources_result(reply: Reply) -> (result: Result<Vec<Resource>, Error>)
    ensures
        lists::<Resource>(reply, "resources"@, result),
{
    list_result(reply, "resources")
}

/// The answer to [`McpClient::list_prompts`].
pub fn list_prompts_result(reply: Reply) -> (result: Result<Vec<Prompt>, Error>)
    ensures
        lists::<Prompt>(reply, "prompts"@, result),
{
    list_result(reply, "prompts")
}

/// How the wait for a cancellable call ended.
pub enum CallOutcome {
    /// A reply came first.
    Replied(Reply),
    /// The token fired first.
    Cancelled,
}

/// What a cancellable call ends with.
pub struct CallEnd {
    /// The notification to send to the server, whether or not it can be sent.
    pub notification: Option<String>,
    /// What the caller gets.
    pub result: Result<ToolResult, Error>,
}

/// What a message does to a client, and what it gives a caller.
pub enum Delivery<R, P> {
    /// Nothing to hand on.
    Nothing,
    /// The answer to a request, which is no longer open.
    Response { to: PendingResponse<R, P>, payload: Result<Json, Error> },
    /// A progress report for the open request `token`, whose caller wants reports.
    Progress { token: u64, update: ProgressUpdate },
}

/// The payload is what the response says: its error, else its result, which is null where it is
/// missing.
pub open spec fn is_payload(response: RpcResponseView, payload: Result<Json, Error>) -> bool {
    match response.error {
        Some(error) => payload matches Err(Error::Rpc { code, message }) && code == error.code && message@
            == error.message,
        None => payload matches Ok(json) && json@ == match response.result {
            Some(result) => result,
            None => JsonView::Null,
        },
    }
}

impl<R, P> ClientView<R, P> {
    /// The open request that a notification reports progress of, if its caller wants reports.
    pub open spec fn progress_target(self, notification: IncomingNotificationView) -> Option<u64> {
        match notification.params {
            Some(params) if notification.method == "notifications/progress"@ => match params.member(
                "progressToken"@,
            ) {
                Some(value) => match value.as_u64() {
                    Some(token) if self.pending.contains_key(token) && self.pending[token].progress_tx is Some => Some(
                        token,
                    ),
                    _ => None,
                },
                None => None,
            },
            _ => None,
        }
    }

    /// `after` is the client after the message, and `delivery` is what the message gives a caller.
    pub open spec fn delivers(
        self,
        message: IncomingMessageView,
        after: ClientView<R, P>,
        delivery: Delivery<R, P>,
    ) -> bool {
        match message {
            IncomingMessageView::Response(response) => if self.pending.contains_key(response.id) {
                &&& after == self.without_request(response.id)
                &&& delivery matches Delivery::Response { to, payload } && to == self.pending[response.id]
                    && is_payload(response, payload)
            } else {
                after == self && delivery is Nothing
            },
            IncomingMessageView::Notification(notification) => {
                &&& after == self
                &&& match self.progress_target(notification) {
                    Some(target) => delivery matches Delivery::Progress { token, update } && token == target
                        && update@ == progress_of(notification.params->0),
                    None => delivery is Nothing,
                }
            },
        }
    }

    /// `after` is the client after a text that the JSON reader makes `read` of, and `delivery` is
    /// what the text gives a caller. A text that is no message is passed over.
    pub open spec fn receives(
        self,
        read: Result<JsonView, Seq<char>>,
        after: ClientView<R, P>,
        delivery: Delivery<R, P>,
    ) -> bool {
        match routed_text(read) {
            Routed::Message(message) => self.delivers(message, after, delivery),
            _ => after == self && delivery is Nothing,
        }
    }

    /// The caller of every open request is told, each once, that the connection is closed.
    pub open spec fn tells_closed(self, told: Seq<(u64, Delivery<R, P>)>) -> bool {
        &&& forall|i: int, j: int| 0 <= i < j < told.len() ==> (#[trigger] told[i]).0 != (#[trigger] told[j]).0
        &&& forall|i: int|
            0 <= i < told.len() ==> self.pending.contains_key((#[trigger] told[i]).0) && says_closed(
                self.pending[told[i].0],
                told[i].1,
            )
        &&& forall|id: u64| #[trigger]
            self.pending.contains_key(id) ==> exists|i: int| 0 <= i < told.len() && (#[trigger] told[i]).0 == id
    }

    /// `after` is the client once it has looked after the request `id` that was just opened, and
    /// `delivery` is what the caller gets at once: on a connection that has ended no answer can come.
    pub open spec fn settles(self, id: u64, after: ClientView<R, P>, delivery: Delivery<R, P>) -> bool {
        if self.closed && self.pending.contains_key(id) {
            after == self.without_request(id) && says_closed(self.pending[id], delivery)
        } else {
            after == self && delivery is Nothing
        }
    }
}

/// The delivery tells a caller that the connection is closed.
pub open spec fn says_closed<R, P>(caller: PendingResponse<R, P>, delivery: Delivery<R, P>) -> bool {
    delivery == (Delivery::Response { to: caller, payload: Err(Error::Closed) })
}

impl<R, P> McpClient<R, P> {
    /// Ends a cancellable call. A call whose token fired is no longer open, and the server is told.
    pub fn finish_cancellable(&mut self, id: u64, outcome: CallOutcome) -> (end: CallEnd)
        ensures
            match outcome {
                CallOutcome::Replied(reply) => final(self)@ == old(self)@ && end.notification is None && match reply_failure(
                    reply,
                ) {
                    Some(error) => end.result == Err::<ToolResult, Error>(error),
                    None => is_tool_result(reply->0->Ok_0@, end.result),
                },
                CallOutcome::Cancelled => final(self)@ == old(self)@.without_request(id) && (
                end.notification matches Some(text) && text@ == notification_text(
                    "notifications/cancelled"@,
                    Some(cancelled_params(id)),
                )) && end.result matches Err(Error::Cancelled),
            },
    {
        match outcome {
            CallOutcome::Replied(reply) => CallEnd { notification: None, result: call_tool_result(reply) },
            CallOutcome::Cancelled => {
                self.pending.remove(&id);
                let params = make_object_2(
                    "requestId",
                    Json::from_u64(id),
                    "reason",
                    Json::from_text("client cancelled"),
                );
                let notification = RpcNotification::new("notifications/cancelled", Some(params));
                CallEnd { notification: Some(notification.to_text()), result: Err(Error::Cancelled) }
            },
        }
    }

    /// The way back for the progress reports of an open request.
    pub fn progress_sender(&self, token: u64) -> (sender: Option<&P>)
        ensures
            match sender {
                Some(sender) => self@.pending.contains_key(token) && self@.pending[token].progress_tx == Some(*sender),
                None => self@.pending.contains_key(token) ==> self@.pending[token].progress_tx is None,
            },
    {
        match self.pending.get(&token) {
            Some(entry) => match &entry.progress_tx {
                Some(sender) => Some(sender),
                None => None,
            },
            None => None,
        }
    }

    /// Finds the open request that progress parameters report of, if its caller wants reports.
    fn route_progress(&self, params: &Json) -> (token: Option<u64>)
        ensures
            token == self@.progress_target(
                IncomingNotificationView { method: "notifications/progress"@, params: Some(params@) },
            ),
    {
        match params.get("progressToken") {
            Some(value) => match value.as_u64() {
                Some(token) => match self.progress_sender(token) {
                    Some(_) => Some(token),
                    None => None,
                },
                None => None,
            },
            None => None,
        }
    }

    /// Takes a message of the server.
    pub fn receive_message(&mut self, message: IncomingMessage) -> (delivery: Delivery<R, P>)
        ensures
            old(self)@.delivers(message@, final(self)@, delivery),
    {
        match message {
            IncomingMessage::Response(response) => match self.pending.remove(&response.id) {
                Some(to) => {
                    let payload = match response.error {
                        Some(error) => Err(Error::Rpc { code: error.code, message: error.message }),
                        None => match response.result {
                            Some(result) => Ok(result),
                            None => Ok(Json::Null),
                        },
                    };
                    assert(self@ =~= old(self)@.without_request(response.id));
                    Delivery::Response { to, payload }
                },
                None => {
                    assert(self@ =~= old(self)@);
                    Delivery::Nothing
                },
            },
            IncomingMessage::Notification(notification) => {
                if same_text(notification.method.as_str(), "notifications/progress") {
                    match notification.params {
                        Some(params) => match self.route_progress(&params) {
                            Some(token) => Delivery::Progress { token, update: ProgressUpdate::from_params(&params) },
                            None => Delivery::Nothing,
                        },
                        None => Delivery::Nothing,
                    }
                } else {
                    Delivery::Nothing
                }
            },
        }
    }

    /// Takes a text that came from the server. A text that is no message is passed over.
    pub fn receive(&mut self, raw: &str) -> (delivery: Delivery<R, P>)
        ensures
            old(self)@.receives(parsed_json(raw@), final(self)@, delivery),
            reads_back(raw@, parsed_json(raw@)),
    {
        match parse_incoming(raw) {
            Ok(message) => self.receive_message(message),
            Err(_) => Delivery::Nothing,
        }
    }

    /// The ids of the open requests, in no particular order.
    fn open_ids(&self) -> (ids: Vec<u64>)
        ensures
            ids@.no_duplicates(),
            forall|id: u64| ids@.contains(id) <==> self@.pending.contains_key(id),
    {
        let mut ids: Vec<u64> = Vec::new();
        for id in iter: self.pending.keys()
            invariant
                ids@ == iter.seq().unref().take(iter.index() as int),
                iter.seq() == self.pending.keys().remaining(),
        {
            ids.push(*id);
        }
        proof {
            let keys = self.pending.keys().remaining();
            assert(ids@ =~= keys.unref());
            assert(keys.unref().to_set() == self.pending@.dom());
            assert forall|id: u64| ids@.contains(id) <==> self@.pending.contains_key(id) by {
                assert(ids@.contains(id) <==> ids@.to_set().contains(id));
            }
        }
        ids
    }

    /// Ends the connection: no answer to an open request can come any more, so its caller is told.
    /// The callers come with the ids of their requests, in no particular order.
    pub fn close(&mut self) -> (told: Vec<(u64, Delivery<R, P>)>)
        ensures
            old(self)@.tells_closed(told@),
            final(self)@ == old(self)@.shut(),
    {
        let ids = self.open_ids();
        let ghost before = self@.pending;
        let mut told: Vec<(u64, Delivery<R, P>)> = Vec::new();
        self.closed = true;
        let mut i: usize = 0;
        while i < ids.len()
            invariant
                i <= ids@.len(),
                told@.len() == i,
                ids@.no_duplicates(),
                before == old(self)@.pending,
                self@ == (ClientView { pending: self@.pending, closed: true, ..old(self)@ }),
                forall|id: u64| ids@.contains(id) <==> before.contains_key(id),
                forall|id: u64| #[trigger]
                    self@.pending.contains_key(id) <==> before.contains_key(id) && !ids@.take(i as int).contains(id),
                forall|id: u64| #[trigger] self@.pending.contains_key(id) ==> self@.pending[id] == before[id],
                forall|k: int|
                    0 <= k < i ==> (#[trigger] told@[k]).0 == ids@[k] && says_closed(before[ids@[k]], told@[k].1),
            decreases ids@.len() - i,
        {
            let id: u64 = ids[i];
            assert(ids@.contains(id));
            assert(!ids@.take(i as int).contains(id));
            proof {
                let done = ids@.take(i as int);
                let more = ids@.take(i + 1);
                assert(more[i as int] == id);
                assert forall|other: u64| more.contains(other) <==> done.contains(other) || other == id by {
                    if done.contains(other) {
                        let k = choose|k: int| 0 <= k < done.len() && done[k] == other;
                        assert(more[k] == other);
                    }
                    if more.contains(other) {
                        let k = choose|k: int| 0 <= k < more.len() && more[k] == other;
                        assert(k < i ==> done[k] == other);
                    }
                }
            }
            if let Some(to) = self.pending.remove(&id) {
                told.push((id, Delivery::Response { to, payload: Err(Error::Closed) }));
            }
            i += 1;
        }
        proof {
            assert(ids@.take(i as int) =~= ids@);
            assert(self@.pending =~= Map::empty());
            assert forall|id: u64| #[trigger] before.contains_key(id) implies exists|k: int|
                0 <= k < told@.len() && (#[trigger] told@[k]).0 == id by {
                assert(ids@.contains(id));
                let k = choose|k: int| 0 <= k < ids@.len() && ids@[k] == id;
                assert(told@[k].0 == id);
            }
            assert forall|k: int| 0 <= k < told@.len() implies before.contains_key((#[trigger] told@[k]).0) by {
                assert(ids@.contains(ids@[k]));
            }
        }
        told
    }

    /// Looks after the request `id` that was just opened. On a connection that has ended no answer
    /// can come, so its caller is told.
    pub fn settle(&mut self, id: u64) -> (delivery: Delivery<R, P>)
        ensures
            old(self)@.settles(id, final(self)@, delivery),
    {
        if !self.closed {
            return Delivery::Nothing;
        }
        match self.pending.remove(&id) {
            Some(to) => {
                assert(self@ =~= old(self)@.without_request(id));
                Delivery::Response { to, payload: Err(Error::Closed) }
            },
            None => {
                assert(self@ =~= old(self)@);
                Delivery::Nothing
            },
        }
    }
}

/// What comes next while a connection is opened.
pub enum HandshakeStep<R, P> {
    /// The answer of the server has not come yet.
    Waiting,
    /// The connection cannot be opened.
    Failed(Error),
    /// The notification to send, and the client, once it is sent.
    Done { notification: String, client: McpClient<R, P> },
}

/// The capabilities in the answer of the server; none where the answer does not give them.
pub open spec fn capabilities_of(result: Option<JsonView>) -> ServerCapabilitiesView {
    match result {
        Some(json) => match json.member("capabilities"@) {
            Some(value) => match ServerCapabilities::decoded(value) {
                Ok(capabilities) => capabilities,
                Err(_) => no_capabilities(),
            },
            None => no_capabilities(),
        },
        None => no_capabilities(),
    }
}

/// Reads the capabilities out of the answer of the server.
fn read_capabilities(result: &Option<Json>) -> (capabilities: ServerCapabilities)
    ensures
        capabilities@ == capabilities_of(optional_json(*result)),
{
    match result {
        Some(json) => match json.get("capabilities") {
            Some(value) => match ServerCapabilities::decode(value) {
                Ok(capabilities) => capabilities,
                Err(_) => ServerCapabilities::default(),
            },
            None => ServerCapabilities::default(),
        },
        None => ServerCapabilities::default(),
    }
}

/// The client at the start of a connection: no request is open, and the first id is taken.
pub open spec fn fresh_client<R, P>(capabilities: ServerCapabilitiesView) -> ClientView<R, P> {
    ClientView { next_id: id_after(INIT_ID), pending: Map::empty(), capabilities, closed: false }
}

/// The step is what a message calls for while a connection is opened: the answer to the opening
/// request decides, anything else is passed over.
pub open spec fn handshake_takes<R, P>(message: IncomingMessageView, step: HandshakeStep<R, P>) -> bool {
    match message {
        IncomingMessageView::Response(response) if response.id == INIT_ID => match response.error {
            Some(error) => step matches HandshakeStep::Failed(Error::Rpc { code, message }) && code == error.code
                && message@ == error.message,
            None => step matches HandshakeStep::Done { notification, client } && notification@ == notification_text(
                "notifications/initialized"@,
                None,
            ) && client@ == fresh_client::<R, P>(capabilities_of(response.result)),
        },
        _ => step is Waiting,
    }
}

impl<R, P> McpClient<R, P> {
    /// The request that opens a connection.
    pub fn initialize() -> (text: String)
        ensures
            text@ == request_text(INIT_ID, "initialize"@, Some(initialize_params())),
    {
        let info = make_object_2(
            "name",
            Json::from_text("mcp-client"),
            "version",
            Json::from_text(CLIENT_VERSION),
        );
        let empty: Vec<(String, Json)> = Vec::new();
        assert(members_view(empty@) =~= Map::empty());
        let params = make_object_3(
            "protocolVersion",
            Json::from_text(PROTOCOL_VERSION),
            "capabilities",
            Json::Object(empty),
            "clientInfo",
            info,
        );
        RpcRequest::new(INIT_ID, "initialize", Some(params)).to_text()
    }

    /// Takes a message while a connection is opened.
    pub fn handshake_message(message: IncomingMessage) -> (step: HandshakeStep<R, P>)
        ensures
            handshake_takes(message@, step),
    {
        match message {
            IncomingMessage::Response(response) => {
                if response.id != INIT_ID {
                    return HandshakeStep::Waiting;
                }
                match response.error {
                    Some(error) => HandshakeStep::Failed(Error::Rpc { code: error.code, message: error.message }),
                    None => {
                        let capabilities = read_capabilities(&response.result);
                        let notification = RpcNotification::new("notifications/initialized", None).to_text();
                        let next_id: u64 = INIT_ID.wrapping_add(1);
                        HandshakeStep::Done {
                            notification,
                            client: McpClient { next_id, pending: HashMap::new(), capabilities, closed: false },
                        }
                    },
                }
            },
            IncomingMessage::Notification(_) => HandshakeStep::Waiting,
        }
    }

    /// Takes a text that came from the server while a connection is opened; `None` stands for a
    /// connection that the server has closed. Unlike later on, a text that is no message is an
    /// error, which says what is wrong with it.
    pub fn handshake(raw: Option<&str>) -> (step: HandshakeStep<R, P>)
        ensures
            match raw {
                Some(raw) => match routed_text(parsed_json(raw@)) {
                    Routed::Message(message) => handshake_takes(message, step),
                    Routed::Malformed(message) => step matches HandshakeStep::Failed(Error::Json(own)) && own@
                        == message,
                    Routed::Unrecognised => step matches HandshakeStep::Failed(Error::Protocol(message)) && message@
                        == "unrecognised message: "@ + raw@,
                },
                None => step matches HandshakeStep::Failed(Error::Closed),
            },
            raw matches Some(raw) ==> reads_back(raw@, parsed_json(raw@)),
    {
        match raw {
            Some(raw) => match parse_incoming(raw) {
                Ok(message) => Self::handshake_message(message),
                Err(error) => HandshakeStep::Failed(error),
            },
            None => HandshakeStep::Failed(Error::Closed),
        }
    }
}

/// How far a stream of tool events has come.
pub enum StreamState {
    /// The call runs.
    Open,
    /// The call has ended, and its last event waits for the progress reports before it.
    Ending(Result<ToolEvent, Error>),
    /// The last event has been yielded.
    Closed,
}

/// What to do for the next event of a stream.
pub enum StreamStep {
    /// This is the next event.
    Yield(Result<ToolEvent, Error>),
    /// There is no progress report: look whether a reply has come.
    AwaitReply,
    /// There are no more events.
    End,
}

/// The events of a tool call with progress reports.
pub struct ToolStream {
    pub state: StreamState,
}

/// The event is what a stream ends with for a reply.
pub open spec fn is_last_event(reply: Reply, event: Result<ToolEvent, Error>) -> bool {
    match reply_failure(reply) {
        Some(error) => event == Err::<ToolEvent, Error>(error),
        None => match tool_result_of(reply->0->Ok_0@) {
            Ok(value) => event matches Ok(ToolEvent::Result(own)) && own@ == value,
            Err(message) => event matches Err(Error::Json(own)) && own@ == message,
        },
    }
}

impl StreamState {
    /// The state and the step that follow a look for a progress report.
    pub open spec fn next(self, progress: Option<ProgressUpdate>) -> (StreamState, StreamStep) {
        match (self, progress) {
            (StreamState::Closed, _) => (StreamState::Closed, StreamStep::End),
            (_, Some(update)) => (self, StreamStep::Yield(Ok(ToolEvent::Progress(update)))),
            (StreamState::Ending(event), None) => (StreamState::Closed, StreamStep::Yield(event)),
            (StreamState::Open, None) => (StreamState::Open, StreamStep::AwaitReply),
        }
    }
}

impl ToolStream {
    /// The stream of a call that has just been sent.
    pub fn new() -> (stream: ToolStream)
        ensures
            stream.state is Open,
    {
        ToolStream { state: StreamState::Open }
    }

    /// Goes on with the progress report that waits, if one does: reports come before the reply.
    pub fn poll_next(&mut self, progress: Option<ProgressUpdate>) -> (step: StreamStep)
        ensures
            (final(self).state, step) == old(self).state.next(progress),
    {
        let mut state = StreamState::Closed;
        std::mem::swap(&mut state, &mut self.state);
        match state {
            StreamState::Closed => StreamStep::End,
            StreamState::Open => {
                self.state = StreamState::Open;
                match progress {
                    Some(update) => StreamStep::Yield(Ok(ToolEvent::Progress(update))),
                    None => StreamStep::AwaitReply,
                }
            },
            StreamState::Ending(event) => match progress {
                Some(update) => {
                    self.state = StreamState::Ending(event);
                    StreamStep::Yield(Ok(ToolEvent::Progress(update)))
                },
                None => StreamStep::Yield(event),
            },
        }
    }

    /// Takes the reply of the call. Progress reports that have come before it are still to be
    /// yielded.
    pub fn reply(&mut self, reply: Reply)
        ensures
            match old(self).state {
                StreamState::Open => final(self).state matches StreamState::Ending(event) && is_last_event(reply, event),
                _ => final(self).state == old(self).state,
            },
    {
        match &self.state {
            StreamState::Open => {
                let event = match call_tool_result(reply) {
                    Ok(value) => Ok(ToolEvent::Result(value)),
                    Err(error) => Err(error),
                };
                self.state = StreamState::Ending(event);
            },
            _ => {},
        }
    }
}

} // verus!
