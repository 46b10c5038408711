//! What becomes of what arrives: which caller gets what, in terms of the members of the message.
use crate::client::{
    Delivery, HandshakeStep, McpClient, PendingResponse, Reply, StreamState, StreamStep, ToolStream,
};
use crate::codec::{number_double, parsed_json};
use crate::decode::Decode;
use crate::error::Error;
use crate::json::{Json, JsonView, NumberView};
use crate::laws::calls::{law_capabilities_view, law_notification_text, notifies, same_capabilities};
use crate::laws::records::{
    is_answer, is_incoming_notification, is_nothing, is_rpc_response, is_server_capabilities, law_answer,
    law_incoming_notification, law_incoming_notification_fields, law_rpc_error, law_rpc_response,
    law_rpc_response_fields, law_server_capabilities, law_server_capabilities_fields, part,
    tells_incoming_notification, tells_rpc_response, tells_server_capabilities,
};
use crate::rpc::{parse_incoming, route_incoming, IncomingMessage, IncomingNotification, RpcResponse};
use crate::types::{progress_of, ProgressUpdate, ServerCapabilities, ToolEvent, ToolResult};
use vstd::prelude::*;

verus! {

/// The member of an object that is called `name`; nothing else has members.
pub open spec fn member_of(json: JsonView, name: Seq<char>) -> Option<JsonView> {
    if json is Object {
        part(json, 0, name)
    } else {
        None
    }
}

/// The JSON has an id, and a result or an error.
pub open spec fn looks_like_response(json: JsonView) -> bool {
    member_of(json, "id"@) is Some && (member_of(json, "result"@) is Some || member_of(json, "error"@) is Some)
}

/// The result is what a JSON value is as a message: with an id, and a result or an error, it is a
/// response, otherwise with a method it is a notification, and otherwise it is no message.
pub open spec fn routes(json: JsonView, raw: Seq<char>, result: Result<IncomingMessage, Error>) -> bool {
    if looks_like_response(json) {
        &&& result is Ok <==> is_rpc_response(json)
        &&& result matches Ok(message) ==> (message matches IncomingMessage::Response(response) && tells_rpc_response(
            json,
            response,
        ))
        &&& result matches Err(error) ==> (error matches Error::Json(message) && Err::<
            <RpcResponse as View>::V,
            Seq<char>,
        >(message@) == RpcResponse::decoded(json))
    } else if member_of(json, "method"@) is Some {
        &&& result is Ok <==> is_incoming_notification(json)
        &&& result matches Ok(message) ==> (message matches IncomingMessage::Notification(notification)
            && tells_incoming_notification(json, notification))
        &&& result matches Err(error) ==> (error matches Error::Json(message) && Err::<
            <IncomingNotification as View>::V,
            Seq<char>,
        >(message@) == IncomingNotification::decoded(json))
    } else {
        result matches Err(Error::Protocol(message)) && message@ == "unrecognised message: "@ + raw
    }
}

/// A JSON value is sorted into the messages by its members.
pub proof fn law_route(json: Json, raw: &str, result: Result<IncomingMessage, Error>)
    requires
        call_ensures(route_incoming, (&json, raw), result),
    ensures
        routes(json@, raw@, result),
{
    lemma_routes(json@, raw@, result);
}

/// A result that the contracts allow is what the members call for.
proof fn lemma_routes(json: JsonView, raw: Seq<char>, result: Result<IncomingMessage, Error>)
    requires
        crate::rpc::routed_as(crate::rpc::routed(json), raw, result),
    ensures
        routes(json, raw, result),
{
    law_rpc_response(json);
    law_incoming_notification(json);
    match result {
        Ok(IncomingMessage::Response(response)) => {
            law_rpc_response_fields(json, response);
        },
        Ok(IncomingMessage::Notification(notification)) => {
            law_incoming_notification_fields(json, notification);
        },
        Err(_) => {},
    }
}

/// A text is read as JSON and sorted into the messages; one that is no JSON is refused in the words
/// of the JSON reader.
pub proof fn law_parse(raw: &str, result: Result<IncomingMessage, Error>)
    requires
        call_ensures(parse_incoming, (raw,), result),
    ensures
        match parsed_json(raw@) {
            Ok(json) => routes(json, raw@, result),
            Err(message) => result matches Err(Error::Json(own)) && own@ == message,
        },
{
    if let Ok(json) = parsed_json(raw@) {
        lemma_routes(json, raw@, result);
    }
}

/// The number in a member, as the bits of a double.
pub open spec fn bits_in(params: JsonView, name: Seq<char>) -> Option<u64> {
    match member_of(params, name) {
        Some(JsonView::Number(NumberView::Float(bits))) => Some(bits),
        Some(JsonView::Number(number)) => Some(number_double(number)),
        _ => None,
    }
}

/// The parameters hold this report: the progress, which is zero where it is missing, and the total
/// and the message where they are there.
pub open spec fn tells_report(params: JsonView, update: ProgressUpdate) -> bool {
    &&& update.progress.bits == match bits_in(params, "progress"@) {
        Some(bits) => bits,
        None => 0,
    }
    &&& match update.total {
        Some(total) => bits_in(params, "total"@) == Some(total.bits),
        None => bits_in(params, "total"@) is None,
    }
    &&& match update.message {
        Some(text) => member_of(params, "message"@) == Some(JsonView::String(text@)),
        None => !(member_of(params, "message"@) matches Some(JsonView::String(_))),
    }
}

/// A report is the one that the parameters hold.
pub proof fn law_report(params: JsonView, update: ProgressUpdate)
    requires
        update@ == progress_of(params),
    ensures
        tells_report(params, update),
{
    assert(params.member("message"@) == member_of(params, "message"@));
    assert(params.member("progress"@) == member_of(params, "progress"@));
    assert(params.member("total"@) == member_of(params, "total"@));
}

/// A report is read out of the parameters as it is there.
pub proof fn law_report_is_read(params: Json, update: ProgressUpdate)
    requires
        call_ensures(ProgressUpdate::from_params, (&params,), update),
    ensures
        tells_report(params@, update),
{
    law_report(params@, update);
}

/// The token of a report, where a notification with these parameters is one.
pub open spec fn token_in(method: Seq<char>, params: Option<JsonView>) -> Option<u64> {
    match params {
        Some(json) if method == "notifications/progress"@ => match member_of(json, "progressToken"@) {
            Some(JsonView::Number(NumberView::Unsigned(token))) => Some(token),
            _ => None,
        },
        _ => None,
    }
}

/// The client is the same but for its open requests.
pub open spec fn same_but_requests<R, P>(before: McpClient<R, P>, after: McpClient<R, P>) -> bool {
    &&& after.next_id == before.next_id
    &&& same_capabilities(before.capabilities, after.capabilities)
    &&& after.closed == before.closed
}

/// The response to a request, by its parts: its caller gets the error where there is one, otherwise
/// the result, which is null where there is none; the request is closed and no other. A response to
/// no open request is passed over.
pub open spec fn answers<R, P>(
    before: McpClient<R, P>,
    id: u64,
    result: Option<JsonView>,
    error: Option<(i64, Seq<char>)>,
    after: McpClient<R, P>,
    delivery: Delivery<R, P>,
) -> bool {
    if before.pending@.contains_key(id) {
        &&& after.pending@ == before.pending@.remove(id)
        &&& delivery matches Delivery::Response { to, payload } && to == before.pending@[id] && match error {
            Some((own_code, own_message)) => payload matches Err(Error::Rpc { code, message }) && code == own_code
                && message@ == own_message,
            None => payload matches Ok(json) && json@ == match result {
                Some(value) => value,
                None => JsonView::Null,
            },
        }
    } else {
        after.pending@ == before.pending@ && delivery is Nothing
    }
}

/// A notification by its parts: a report goes to the open request whose id is its token, where the
/// caller wants reports. Anything else is passed over, and no request is touched.
pub open spec fn reports<R, P>(
    before: McpClient<R, P>,
    method: Seq<char>,
    params: Option<JsonView>,
    after: McpClient<R, P>,
    delivery: Delivery<R, P>,
) -> bool {
    &&& after.pending@ == before.pending@
    &&& match token_in(method, params) {
        Some(id) if before.pending@.contains_key(id)
            && before.pending@[id].progress_tx is Some => delivery matches Delivery::Progress {
            token,
            update,
        } && token == id && tells_report(params->0, update),
        _ => delivery is Nothing,
    }
}

/// What a delivery that the contracts allow is, by the parts of a response.
proof fn lemma_answers<R, P>(
    before: McpClient<R, P>,
    response: crate::rpc::RpcResponseView,
    after: McpClient<R, P>,
    delivery: Delivery<R, P>,
)
    requires
        before@.delivers(crate::rpc::IncomingMessageView::Response(response), after@, delivery),
    ensures
        same_but_requests(before, after),
        answers(
            before,
            response.id,
            response.result,
            match response.error {
                Some(error) => Some((error.code, error.message)),
                None => None,
            },
            after,
            delivery,
        ),
{
    assert(after@.pending == after.pending@);
    law_capabilities_view(before.capabilities, after.capabilities);
}

/// What a delivery that the contracts allow is, by the parts of a notification.
proof fn lemma_reports<R, P>(
    before: McpClient<R, P>,
    notification: crate::rpc::IncomingNotificationView,
    after: McpClient<R, P>,
    delivery: Delivery<R, P>,
)
    requires
        before@.delivers(crate::rpc::IncomingMessageView::Notification(notification), after@, delivery),
    ensures
        same_but_requests(before, after),
        reports(before, notification.method, notification.params, after, delivery),
{
    assert(after@.pending == after.pending@);
    law_capabilities_view(before.capabilities, after.capabilities);
    if let Some(params) = notification.params {
        assert(params.member("progressToken"@) == member_of(params, "progressToken"@));
        if let Delivery::Progress { token, update } = delivery {
            law_report(params, update);
        }
    }
}

/// Every message goes where its parts say.
pub proof fn law_message_is_handed_on<R, P>(message: IncomingMessage)
    ensures
        forall|client: &mut McpClient<R, P>, delivery: Delivery<R, P>| #[trigger]
            call_ensures(McpClient::<R, P>::receive_message, (client, message), delivery) ==> same_but_requests(
                *client,
                *final(client),
            ) && match message {
                IncomingMessage::Response(response) => answers(
                    *client,
                    response.id,
                    match response.result {
                        Some(json) => Some(json@),
                        None => None,
                    },
                    match response.error {
                        Some(error) => Some((error.code, error.message@)),
                        None => None,
                    },
                    *final(client),
                    delivery,
                ),
                IncomingMessage::Notification(notification) => reports(
                    *client,
                    notification.method@,
                    match notification.params {
                        Some(json) => Some(json@),
                        None => None,
                    },
                    *final(client),
                    delivery,
                ),
            },
{
    assert forall|client: &mut McpClient<R, P>, delivery: Delivery<R, P>| #[trigger]
        call_ensures(McpClient::<R, P>::receive_message, (client, message), delivery) implies same_but_requests(
        *client,
        *final(client),
    ) && match message {
        IncomingMessage::Response(response) => answers(
            *client,
            response.id,
            match response.result {
                Some(json) => Some(json@),
                None => None,
            },
            match response.error {
                Some(error) => Some((error.code, error.message@)),
                None => None,
            },
            *final(client),
            delivery,
        ),
        IncomingMessage::Notification(notification) => reports(
            *client,
            notification.method@,
            match notification.params {
                Some(json) => Some(json@),
                None => None,
            },
            *final(client),
            delivery,
        ),
    } by {
        match message {
            IncomingMessage::Response(response) => {
                lemma_answers(*client, response@, *final(client), delivery);
            },
            IncomingMessage::Notification(notification) => {
                lemma_reports(*client, notification@, *final(client), delivery);
            },
        }
    }
}

/// The member `id` of a response.
pub open spec fn id_in(json: JsonView) -> u64 {
    member_of(json, "id"@)->0->Number_0->Unsigned_0
}

/// A field that may be missing or null.
pub open spec fn something(value: Option<JsonView>) -> Option<JsonView> {
    if is_nothing(value) {
        None
    } else {
        value
    }
}

/// The code and the message in the member `error` of a response, where it has one.
pub open spec fn error_in(json: JsonView) -> Option<(i64, Seq<char>)> {
    match something(member_of(json, "error"@)) {
        Some(error) => Some(
            (
                match part(error, 0, "code"@)->0->Number_0 {
                    NumberView::Unsigned(n) => n as i64,
                    NumberView::Negative(n) => n,
                    NumberView::Float(_) => 0,
                },
                part(error, 1, "message"@)->0->String_0,
            ),
        ),
        None => None,
    }
}

/// The parts of a response are its members.
proof fn lemma_response_parts(json: JsonView)
    requires
        json is Object,
        is_rpc_response(json),
    ensures
        RpcResponse::decoded(json) matches Ok(response) && response.id == id_in(json) && response.result == something(
            member_of(json, "result"@),
        ) && match response.error {
            Some(error) => error_in(json) == Some((error.code, error.message)),
            None => error_in(json) is None,
        },
{
    law_rpc_response(json);
    if let Some(error) = member_of(json, "error"@) {
        law_rpc_error(error);
    }
}

/// A text that arrives goes where its members say: an answer to the caller of the request with its
/// id, a report to the caller whose token it has. A text that is no message is passed over.
pub proof fn law_text_is_handed_on<R, P>(raw: &str)
    ensures
        forall|client: &mut McpClient<R, P>, delivery: Delivery<R, P>| #[trigger]
            call_ensures(McpClient::<R, P>::receive, (client, raw), delivery) ==> same_but_requests(
                *client,
                *final(client),
            ) && match parsed_json(raw@) {
                Ok(json) => if looks_like_response(json) && is_rpc_response(json) {
                    answers(
                        *client,
                        id_in(json),
                        something(member_of(json, "result"@)),
                        error_in(json),
                        *final(client),
                        delivery,
                    )
                } else if !looks_like_response(json) && member_of(json, "method"@) is Some
                    && is_incoming_notification(
                    json,
                ) {
                    reports(
                        *client,
                        member_of(json, "method"@)->0->String_0,
                        something(member_of(json, "params"@)),
                        *final(client),
                        delivery,
                    )
                } else {
                    final(client).pending@ == client.pending@ && delivery is Nothing
                },
                Err(_) => final(client).pending@ == client.pending@ && delivery is Nothing,
            },
{
    assert forall|client: &mut McpClient<R, P>, delivery: Delivery<R, P>| #[trigger]
        call_ensures(McpClient::<R, P>::receive, (client, raw), delivery) implies same_but_requests(
        *client,
        *final(client),
    ) && match parsed_json(raw@) {
        Ok(json) => if looks_like_response(json) && is_rpc_response(json) {
            answers(
                *client,
                id_in(json),
                something(member_of(json, "result"@)),
                error_in(json),
                *final(client),
                delivery,
            )
        } else if !looks_like_response(json) && member_of(json, "method"@) is Some && is_incoming_notification(json) {
            reports(
                *client,
                member_of(json, "method"@)->0->String_0,
                something(member_of(json, "params"@)),
                *final(client),
                delivery,
            )
        } else {
            final(client).pending@ == client.pending@ && delivery is Nothing
        },
        Err(_) => final(client).pending@ == client.pending@ && delivery is Nothing,
    } by {
        if let Ok(json) = parsed_json(raw@) {
            law_rpc_response(json);
            law_incoming_notification(json);
            if looks_like_response(json) && is_rpc_response(json) {
                lemma_response_parts(json);
                lemma_answers(*client, RpcResponse::decoded(json)->Ok_0, *final(client), delivery);
            } else if !looks_like_response(json) && member_of(json, "method"@) is Some && is_incoming_notification(
                json,
            ) {
                lemma_reports(*client, IncomingNotification::decoded(json)->Ok_0, *final(client), delivery);
            } else {
                law_capabilities_view(client.capabilities, final(client).capabilities);
                assert(final(client)@.pending == final(client).pending@);
                assert(final(client)@.next_id == final(client).next_id);
            }
        } else {
            law_capabilities_view(client.capabilities, final(client).capabilities);
            assert(final(client)@.pending == final(client).pending@);
            assert(final(client)@.next_id == final(client).next_id);
        }
    }
}

/// The capabilities are those in an answer: the members of its member `capabilities`, and none
/// where
/// it has no such member that holds any.
pub open spec fn tells_capabilities(result: Option<JsonView>, own: ServerCapabilities) -> bool {
    let told = match result {
        Some(json) => member_of(json, "capabilities"@),
        None => None,
    };
    if told is Some && is_server_capabilities(told->0) {
        tells_server_capabilities(told->0, own)
    } else {
        own.tools is None && own.resources is None && own.prompts is None && own.logging is None
    }
}

/// The step is what an answer to the opening request calls for: the error of the server, or the
/// notification that the connection is open and a client without open requests, with the
/// capabilities of the server and the next id 2.
pub open spec fn opens_connection<R, P>(
    result: Option<JsonView>,
    error: Option<(i64, Seq<char>)>,
    step: HandshakeStep<R, P>,
) -> bool {
    match error {
        Some((own_code, own_message)) => step matches HandshakeStep::Failed(Error::Rpc { code, message }) && code
            == own_code && message@ == own_message,
        None => step matches HandshakeStep::Done { notification, client } && notifies(
            notification@,
            "notifications/initialized"@,
            None,
        ) && client.next_id == 2 && client.pending@ == Map::<u64, PendingResponse<R, P>>::empty() && !client.closed
            && tells_capabilities(result, client.capabilities),
    }
}

/// A step that the contracts allow for the answer is the one that its parts call for.
proof fn lemma_opens_connection<R, P>(response: crate::rpc::RpcResponseView, step: HandshakeStep<R, P>)
    requires
        response.id == 1,
        crate::client::handshake_takes(crate::rpc::IncomingMessageView::Response(response), step),
    ensures
        opens_connection(
            response.result,
            match response.error {
                Some(error) => Some((error.code, error.message)),
                None => None,
            },
            step,
        ),
{
    if let HandshakeStep::Done { notification, client } = step {
        law_notification_text("notifications/initialized"@, None);
        assert(client@.pending == client.pending@);
        if let Some(result) = response.result {
            assert(result.member("capabilities"@) == member_of(result, "capabilities"@));
            if let Some(told) = member_of(result, "capabilities"@) {
                law_server_capabilities(told);
                if is_server_capabilities(told) {
                    law_server_capabilities_fields(told, client.capabilities);
                }
            }
        }
    }
}

/// While a connection is opened the answer to the opening request decides; other messages are
/// passed
/// over.
pub proof fn law_handshake_message<R, P>(message: IncomingMessage, step: HandshakeStep<R, P>)
    requires
        call_ensures(McpClient::<R, P>::handshake_message, (message,), step),
    ensures
        match message {
            IncomingMessage::Response(response) => if response.id == 1 {
                opens_connection(
                    match response.result {
                        Some(json) => Some(json@),
                        None => None,
                    },
                    match response.error {
                        Some(error) => Some((error.code, error.message@)),
                        None => None,
                    },
                    step,
                )
            } else {
                step is Waiting
            },
            IncomingMessage::Notification(_) => step is Waiting,
        },
{
    if let IncomingMessage::Response(response) = message {
        if response.id == 1 {
            lemma_opens_connection(response@, step);
        }
    }
}

/// While a connection is opened a text does what its members say: the answer to the opening request
/// decides, other messages are passed over, and a text that is no message ends the attempt, as does
/// the end of the connection.
pub proof fn law_handshake<R, P>(raw: Option<&str>, step: HandshakeStep<R, P>)
    requires
        call_ensures(McpClient::<R, P>::handshake, (raw,), step),
    ensures
        match raw {
            None => step matches HandshakeStep::Failed(Error::Closed),
            Some(raw) => match parsed_json(raw@) {
                Err(message) => step matches HandshakeStep::Failed(Error::Json(own)) && own@ == message,
                Ok(json) => if looks_like_response(json) {
                    if !is_rpc_response(json) {
                        step matches HandshakeStep::Failed(Error::Json(own)) && Err::<
                            <RpcResponse as View>::V,
                            Seq<char>,
                        >(own@) == RpcResponse::decoded(json)
                    } else if id_in(json) == 1 {
                        opens_connection(something(member_of(json, "result"@)), error_in(json), step)
                    } else {
                        step is Waiting
                    }
                } else if member_of(json, "method"@) is Some {
                    if is_incoming_notification(json) {
                        step is Waiting
                    } else {
                        step matches HandshakeStep::Failed(Error::Json(own)) && Err::<
                            <IncomingNotification as View>::V,
                            Seq<char>,
                        >(own@) == IncomingNotification::decoded(json)
                    }
                } else {
                    step matches HandshakeStep::Failed(Error::Protocol(own))
                        && own@ == "unrecognised message: "@ + raw@
                },
            },
        },
{
    if let Some(raw) = raw {
        if let Ok(json) = parsed_json(raw@) {
            law_rpc_response(json);
            law_incoming_notification(json);
            if looks_like_response(json) && is_rpc_response(json) {
                lemma_response_parts(json);
                if id_in(json) == 1 {
                    lemma_opens_connection(RpcResponse::decoded(json)->Ok_0, step);
                }
            }
        }
    }
}

/// When the connection ends, the caller of every open request is told so, each once and by the id
/// of
/// its request, and no request is open any more.
pub proof fn law_close<R, P>()
    ensures
        forall|client: &mut McpClient<R, P>, told: Vec<(u64, Delivery<R, P>)>| #[trigger]
            call_ensures(McpClient::<R, P>::close, (client,), told) ==> {
                &&& final(client).next_id == client.next_id
                &&& same_capabilities(client.capabilities, final(client).capabilities)
                &&& final(client).closed
                &&& final(client).pending@ == Map::<u64, PendingResponse<R, P>>::empty()
                &&& forall|i: int, j: int|
                    0 <= i < j < told@.len() ==> (#[trigger] told@[i]).0 != (#[trigger] told@[j]).0
                &&& forall|i: int|
                    0 <= i < told@.len() ==> client.pending@.contains_key((#[trigger] told@[i]).0) && (
                    told@[i].1 matches Delivery::Response { to, payload } && to == client.pending@[told@[i].0]
                        && payload == Err::<Json, Error>(Error::Closed))
                &&& forall|id: u64| #[trigger]
                    client.pending@.contains_key(id) ==> exists|i: int|
                        0 <= i < told@.len() && (#[trigger] told@[i]).0 == id
            },
{
    assert forall|client: &mut McpClient<R, P>, told: Vec<(u64, Delivery<R, P>)>| #[trigger]
        call_ensures(McpClient::<R, P>::close, (client,), told) implies {
        &&& final(client).next_id == client.next_id
        &&& same_capabilities(client.capabilities, final(client).capabilities)
        &&& final(client).closed
        &&& final(client).pending@ == Map::<u64, PendingResponse<R, P>>::empty()
        &&& forall|i: int, j: int| 0 <= i < j < told@.len() ==> (#[trigger] told@[i]).0 != (#[trigger] told@[j]).0
        &&& forall|i: int|
            0 <= i < told@.len() ==> client.pending@.contains_key((#[trigger] told@[i]).0) && (
            told@[i].1 matches Delivery::Response { to, payload } && to == client.pending@[told@[i].0] && payload
                == Err::<Json, Error>(Error::Closed))
        &&& forall|id: u64| #[trigger]
            client.pending@.contains_key(id) ==> exists|i: int|
                0 <= i < told@.len() && (#[trigger] told@[i]).0 == id
    } by {
        law_capabilities_view(client.capabilities, final(client).capabilities);
        assert(final(client)@.pending == final(client).pending@);
        assert(final(client)@.next_id == final(client).next_id);
        assert(client@.pending == client.pending@);
    }
}

/// On a connection that has ended the caller of a request that was just opened is told so, and the
/// request is no longer open. On any other connection nothing happens.
pub proof fn law_settle<R, P>(id: u64)
    ensures
        forall|client: &mut McpClient<R, P>, delivery: Delivery<R, P>| #[trigger]
            call_ensures(McpClient::<R, P>::settle, (client, id), delivery) ==> same_but_requests(
                *client,
                *final(client),
            ) && if client.closed && client.pending@.contains_key(id) {
                final(client).pending@ == client.pending@.remove(id) && (delivery matches Delivery::Response {
                    to,
                    payload,
                } && to == client.pending@[id] && payload == Err::<Json, Error>(Error::Closed))
            } else {
                final(client).pending@ == client.pending@ && delivery is Nothing
            },
{
    assert forall|client: &mut McpClient<R, P>, delivery: Delivery<R, P>| #[trigger]
        call_ensures(McpClient::<R, P>::settle, (client, id), delivery) implies same_but_requests(
        *client,
        *final(client),
    ) && if client.closed && client.pending@.contains_key(id) {
        final(client).pending@ == client.pending@.remove(id) && (delivery matches Delivery::Response { to, payload }
            && to == client.pending@[id] && payload == Err::<Json, Error>(Error::Closed))
    } else {
        final(client).pending@ == client.pending@ && delivery is Nothing
    } by {
        law_capabilities_view(client.capabilities, final(client).capabilities);
        assert(final(client)@.pending == final(client).pending@);
        assert(final(client)@.next_id == final(client).next_id);
    }
}

/// The way back for reports is that of the caller of the open request, where it wants reports.
pub proof fn law_progress_sender<R, P>(client: McpClient<R, P>, token: u64, sender: Option<&P>)
    requires
        call_ensures(McpClient::<R, P>::progress_sender, (&client, token), sender),
    ensures
        client.pending@.contains_key(token) && client.pending@[token].progress_tx is Some ==> sender == Some(
            &client.pending@[token].progress_tx->0,
        ),
        !client.pending@.contains_key(token) || client.pending@[token].progress_tx is None ==> sender is None,
{
    assert(client@.pending == client.pending@);
}

/// A stream that has just been made is open.
pub proof fn law_new_stream(stream: ToolStream)
    requires
        call_ensures(ToolStream::new, (), stream),
    ensures
        stream.state is Open,
{
}

/// The next event of a stream: a report that waits comes first and is passed on as it is; without
/// one, a stream that has its reply yields the last event and is closed by it, and one without
/// looks
/// for the reply. A closed stream only ends.
pub proof fn law_next_event(progress: Option<ProgressUpdate>)
    ensures
        forall|stream: &mut ToolStream, step: StreamStep| #[trigger]
            call_ensures(ToolStream::poll_next, (stream, progress), step) ==> {
                &&& stream.state is Closed ==> step is End && final(stream).state is Closed
                &&& !(stream.state is Closed) && progress is Some ==> step == StreamStep::Yield(
                    Ok(ToolEvent::Progress(progress->0)),
                ) && final(stream).state == stream.state
                &&& stream.state is Open && progress is None ==> step is AwaitReply && final(stream).state is Open
                &&& stream.state matches StreamState::Ending(event) ==> (progress is None
                    ==> step == StreamStep::Yield(
                    event,
                ) && final(stream).state is Closed)
            },
{
}

/// The reply of a call becomes the last event of its stream: the result in the answer, the error of
/// the server, or that the connection is closed. Only the first reply counts.
pub proof fn law_reply(reply: Reply)
    ensures
        forall|stream: &mut ToolStream, out: ()| #[trigger]
            call_ensures(ToolStream::reply, (stream, reply), out) ==> if stream.state is Open {
                final(stream).state matches StreamState::Ending(event) && match reply {
                    Some(Ok(json)) => match event {
                        Ok(ToolEvent::Result(own)) => is_answer(json@, Ok::<ToolResult, Error>(own)),
                        Ok(ToolEvent::Progress(_)) => false,
                        Err(error) => is_answer(json@, Err::<ToolResult, Error>(error)),
                    },
                    Some(Err(error)) => event == Err::<ToolEvent, Error>(error),
                    None => event == Err::<ToolEvent, Error>(Error::Closed),
                }
            } else {
                final(stream).state == stream.state
            },
{
    assert forall|stream: &mut ToolStream, out: ()| #[trigger]
        call_ensures(ToolStream::reply, (stream, reply), out) implies if stream.state is Open {
        final(stream).state matches StreamState::Ending(event) && match reply {
            Some(Ok(json)) => match event {
                Ok(ToolEvent::Result(own)) => is_answer(json@, Ok::<ToolResult, Error>(own)),
                Ok(ToolEvent::Progress(_)) => false,
                Err(error) => is_answer(json@, Err::<ToolResult, Error>(error)),
            },
            Some(Err(error)) => event == Err::<ToolEvent, Error>(error),
            None => event == Err::<ToolEvent, Error>(Error::Closed),
        }
    } else {
        final(stream).state == stream.state
    } by {
        if let (StreamState::Ending(event), Some(Ok(json))) = (final(stream).state, reply) {
            if stream.state is Open {
                match event {
                    Ok(ToolEvent::Result(own)) => {
                        law_answer(json@, Ok::<ToolResult, Error>(own));
                    },
                    Ok(ToolEvent::Progress(_)) => {},
                    Err(error) => {
                        law_answer(json@, Err::<ToolResult, Error>(error));
                    },
                }
            }
        }
    }
}

} // verus!
