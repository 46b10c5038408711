//! What holds of the client as a whole.
use crate::client::{
    fresh_client, id_after, is_last_event, is_payload, reply_failure, says_closed, streaming_params, ClientView,
    Delivery, PendingResponse, Reply, StreamState, StreamStep, INIT_ID,
};
use crate::codec::{object_members, object_text, plain_json, plain_members, printable, reads_back};
use crate::decode::{optional_value, Decode};
use crate::error::Error;
use crate::json::{JsonView, NumberView};
use crate::rpc::{
    notification_members, notification_text, request_members, request_text, routed, routed_text, IncomingMessageView,
    IncomingNotificationView, Routed, RpcError, RpcErrorView, RpcResponseView,
};
use crate::text::one_line;
use crate::transport::http::bare_text;
use crate::transport::stdio::line_message;
use crate::types::{progress_of, ProgressUpdate, ProgressUpdateView, ServerCapabilitiesView, ToolEvent};
use vstd::prelude::*;

pub mod arrivals;
pub mod calls;
pub mod records;
pub mod values;
pub mod wire;

verus! {

/// The JSON is an object whose members are those given, and no others.
pub open spec fn is_object_of(json: JsonView, members: Seq<(Seq<char>, JsonView)>) -> bool {
    &&& json is Object
    &&& forall|i: int|
        0 <= i < members.len() ==> json.member((#[trigger] members[i]).0) == Some(members[i].1)
    &&& forall|name: Seq<char>| #[trigger] json.member(name) is Some ==> exists|i: int|
        0 <= i < members.len() && (#[trigger] members[i]).0 == name
}

/// Where no name comes twice, an object has exactly the members that it was made of.
proof fn lemma_object_members(members: Seq<(Seq<char>, JsonView)>)
    requires
        forall|i: int, j: int| 0 <= i < j < members.len() ==> (#[trigger] members[i]).0 != (#[trigger] members[j]).0,
    ensures
        is_object_of(JsonView::Object(object_members(members)), members),
    decreases members.len(),
{
    if members.len() > 0 {
        let fewer = members.drop_last();
        lemma_object_members(fewer);
        let json = JsonView::Object(object_members(members));
        let less = JsonView::Object(object_members(fewer));
        let last = members.last();
        assert forall|i: int| 0 <= i < members.len() implies json.member((#[trigger] members[i]).0) == Some(
            members[i].1,
        ) by {
            if i < fewer.len() {
                assert(fewer[i] == members[i]);
                assert(members[members.len() - 1] == last);
            }
        }
        assert forall|name: Seq<char>| #[trigger] json.member(name) is Some implies exists|i: int|
            0 <= i < members.len() && (#[trigger] members[i]).0 == name by {
            if name == last.0 {
                assert(members[members.len() - 1].0 == name);
            } else {
                assert(less.member(name) is Some);
                let i = choose|i: int| 0 <= i < fewer.len() && (#[trigger] fewer[i]).0 == name;
                assert(members[i] == fewer[i]);
            }
        }
    }
}

/// The names of the members of a message are different texts.
proof fn lemma_names()
    ensures
        "jsonrpc"@ != "id"@,
        "jsonrpc"@ != "method"@,
        "jsonrpc"@ != "params"@,
        "jsonrpc"@ != "result"@,
        "jsonrpc"@ != "error"@,
        "id"@ != "method"@,
        "id"@ != "params"@,
        "id"@ != "result"@,
        "id"@ != "error"@,
        "method"@ != "params"@,
        "method"@ != "result"@,
        "method"@ != "error"@,
        "params"@ != "result"@,
        "params"@ != "error"@,
        "result"@ != "error"@,
{
    reveal_strlit("jsonrpc");
    reveal_strlit("id");
    reveal_strlit("method");
    reveal_strlit("params");
    reveal_strlit("result");
    reveal_strlit("error");
    assert("jsonrpc"@[0] == 'j');
    assert("id"@[0] == 'i');
    assert("method"@[0] == 'm');
    assert("params"@[0] == 'p');
    assert("result"@[0] == 'r');
    assert("error"@[0] == 'e');
}

/// Who reads the text of a request as JSON finds in it the protocol version, the id, the method and
/// the parameters, and nothing else.
pub proof fn law_request_reads_back(
    id: u64,
    method: Seq<char>,
    params: Option<JsonView>,
    read: Result<JsonView, Seq<char>>,
)
    requires
        reads_back(request_text(id, method, params), read),
        params matches Some(value) ==> plain_json(value, 126),
    ensures
        read matches Ok(json) && is_object_of(json, request_members("2.0"@, id, method, params)),
{
    lemma_names();
    let members = request_members("2.0"@, id, method, params);
    assert(plain_members(members, 126));
    lemma_object_members(members);
    assert(object_text(members) == request_text(id, method, params));
}

/// Who reads the text of a notification as JSON finds in it the protocol version, the method and
/// the parameters, and nothing else: above all no id.
pub proof fn law_notification_reads_back(
    method: Seq<char>,
    params: Option<JsonView>,
    read: Result<JsonView, Seq<char>>,
)
    requires
        reads_back(notification_text(method, params), read),
        params matches Some(value) ==> plain_json(value, 126),
    ensures
        read matches Ok(json) && is_object_of(json, notification_members("2.0"@, method, params)) && json.member(
            "id"@,
        ) is None,
{
    lemma_names();
    let members = notification_members("2.0"@, method, params);
    assert(plain_members(members, 126));
    lemma_object_members(members);
    assert(object_text(members) == notification_text(method, params));
    let json = JsonView::Object(object_members(members));
    if json.member("id"@) is Some {
        let i = choose|i: int| 0 <= i < members.len() && (#[trigger] members[i]).0 == "id"@;
        assert(members[i].0 != "id"@);
    }
}

/// The members of an answer with a result.
pub open spec fn result_members(id: u64, result: JsonView) -> Seq<(Seq<char>, JsonView)> {
    seq![
        ("jsonrpc"@, JsonView::String("2.0"@)),
        ("id"@, JsonView::Number(NumberView::Unsigned(id))),
        ("result"@, result),
    ]
}

/// An answer with a result is recognised as the response to its request, whatever the result is. A
/// null result counts as none.
pub proof fn law_result_is_response(json: JsonView, id: u64, result: JsonView)
    requires
        is_object_of(json, result_members(id, result)),
    ensures
        routed(json) == Routed::Message(
            IncomingMessageView::Response(RpcResponseView { id, result: optional_value(Some(result)), error: None }),
        ),
{
    lemma_names();
    let members = result_members(id, result);
    assert(members[1].0 == "id"@);
    assert(members[2].0 == "result"@);
    if json.member("error"@) is Some {
        let i = choose|i: int| 0 <= i < members.len() && (#[trigger] members[i]).0 == "error"@;
        assert(members[i].0 != "error"@);
    }
}

/// The text of an answer with a result is recognised as the response to its request.
pub proof fn law_result_text_is_response(id: u64, result: JsonView, read: Result<JsonView, Seq<char>>)
    requires
        reads_back(object_text(result_members(id, result)), read),
        plain_json(result, 126),
    ensures
        routed_text(read) == Routed::Message(
            IncomingMessageView::Response(RpcResponseView { id, result: optional_value(Some(result)), error: None }),
        ),
{
    lemma_names();
    let members = result_members(id, result);
    assert(plain_members(members, 126));
    lemma_object_members(members);
    law_result_is_response(JsonView::Object(object_members(members)), id, result);
}

/// An answer with an error is recognised as the response to its request, whether or not it has a
/// result too.
pub proof fn law_error_is_response(json: JsonView, id: u64, error: JsonView, found: RpcErrorView)
    requires
        json.member("id"@) == Some(JsonView::Number(NumberView::Unsigned(id))),
        json.member("error"@) == Some(error),
        RpcError::decoded(error) == Ok::<RpcErrorView, Seq<char>>(found),
    ensures
        routed(json) == Routed::Message(
            IncomingMessageView::Response(
                RpcResponseView { id, result: optional_value(json.member("result"@)), error: Some(found) },
            ),
        ),
{
}

/// A message with an id and a result or an error is never taken for a notification, and one
/// without an id never for a response.
pub proof fn law_response_or_notification(json: JsonView)
    ensures
        json.member("id"@) is None ==> !(routed(json) matches Routed::Message(IncomingMessageView::Response(_))),
        json.member("id"@) is Some && (json.member("result"@) is Some || json.member("error"@) is Some) ==> !(
        routed(json) matches Routed::Message(IncomingMessageView::Notification(_))),
        json.member("id"@) is Some && json.member("result"@) is None && json.member("error"@) is None && json.member(
            "method"@,
        ) is None ==> routed(json) is Unrecognised,
{
}

/// A message stays on one line and has no white space around it, so it arrives as it was sent on a
/// stream of lines, and can be sent as the data of an event.
pub proof fn law_message_is_one_line(members: Seq<(Seq<char>, JsonView)>)
    requires
        printable(object_text(members)),
    ensures
        one_line(object_text(members)),
        line_message(object_text(members) + seq!['\n']) == Some(object_text(members)),
        bare_text(object_text(members)),
{
    let text = object_text(members);
    assert(text.last() == '}');
    assert forall|i: int| 0 <= i < text.len() implies #[trigger] text[i] != '\n' by {
        assert(text[i] >= ' ');
    }
    crate::transport::stdio::law_line_roundtrip(text);
}

/// The id of the request after `n` others.
pub open spec fn id_at(first: u64, n: nat) -> u64
    decreases n,
{
    if n == 0 {
        first
    } else {
        id_after(id_at(first, (n - 1) as nat))
    }
}

proof fn lemma_id_at(first: u64, n: nat)
    ensures
        id_at(first, n) as int == (first + n) % 0x1_0000_0000_0000_0000,
    decreases n,
{
    if n > 0 {
        lemma_id_at(first, (n - 1) as nat);
    }
}

/// No two of 2^64 requests in a row have the same id.
pub proof fn law_ids_differ(first: u64, i: nat, j: nat)
    requires
        i < j < i + 0x1_0000_0000_0000_0000,
    ensures
        id_at(first, i) != id_at(first, j),
{
    lemma_id_at(first, i);
    lemma_id_at(first, j);
}

/// Every open request has an id that was taken before the next one.
pub open spec fn ids_are_taken<R, P>(client: ClientView<R, P>) -> bool {
    forall|id: u64| #[trigger] client.pending.contains_key(id) ==> id < client.next_id
}

/// The id of a new request is never that of an open one: so it is at the start of a connection, and
/// so it stays whatever is requested, cancelled or received, until the largest id is taken.
pub proof fn law_new_id_is_free<R, P>(
    capabilities: ServerCapabilitiesView,
    before: ClientView<R, P>,
    pending: PendingResponse<R, P>,
    cancelled: u64,
    message: IncomingMessageView,
    after: ClientView<R, P>,
    delivery: Delivery<R, P>,
)
    ensures
        ids_are_taken(fresh_client::<R, P>(capabilities)),
        ids_are_taken(before) ==> !before.pending.contains_key(before.next_id),
        ids_are_taken(before) && before.next_id < u64::MAX ==> ids_are_taken(before.with_id_taken()),
        ids_are_taken(before) && before.next_id < u64::MAX ==> ids_are_taken(before.with_request(pending)),
        ids_are_taken(before) ==> ids_are_taken(before.without_request(cancelled)),
        ids_are_taken(before) && before.delivers(message, after, delivery) ==> ids_are_taken(after),
        ids_are_taken(before.shut()),
{
}

/// What happens to a client.
pub enum ClientStep<R, P> {
    /// An id is taken.
    TakeId,
    /// A request is opened.
    Request(PendingResponse<R, P>),
    /// The request of this id, just opened, is looked after.
    Settle(u64, Delivery<R, P>),
    /// The call of this id is cancelled.
    Cancel(u64),
    /// A message arrives.
    Receive(IncomingMessageView, Delivery<R, P>),
    /// The connection ends.
    Close,
}

/// The step makes the client `after` of the client `before`.
pub open spec fn leads<R, P>(before: ClientView<R, P>, step: ClientStep<R, P>, after: ClientView<R, P>) -> bool {
    match step {
        ClientStep::TakeId => after == before.with_id_taken(),
        ClientStep::Request(pending) => after == before.with_request(pending),
        ClientStep::Settle(id, delivery) => before.settles(id, after, delivery),
        ClientStep::Cancel(id) => after == before.without_request(id),
        ClientStep::Receive(message, delivery) => before.delivers(message, after, delivery),
        ClientStep::Close => after == before.shut(),
    }
}

/// The clients of a connection from its start on, with the step that leads from each to the next.
pub open spec fn is_history<R, P>(
    capabilities: ServerCapabilitiesView,
    clients: Seq<ClientView<R, P>>,
    steps: Seq<ClientStep<R, P>>,
) -> bool {
    &&& clients.len() == steps.len() + 1
    &&& clients[0] == fresh_client::<R, P>(capabilities)
    &&& forall|i: int| #![trigger steps[i]] 0 <= i < steps.len() ==> leads(clients[i], steps[i], clients[i + 1])
}

/// The step takes the next id.
pub open spec fn takes_id<R, P>(step: ClientStep<R, P>) -> bool {
    step is TakeId || step is Request
}

/// How many of the first `n` steps take an id.
pub open spec fn ids_taken<R, P>(steps: Seq<ClientStep<R, P>>, n: nat) -> nat
    decreases n,
{
    if n == 0 {
        0
    } else {
        ids_taken(steps, (n - 1) as nat) + if takes_id(steps[n - 1]) {
            1nat
        } else {
            0nat
        }
    }
}

/// The ids that are taken on a connection are 2, 3 and so on in a row, whatever happens between them:
/// after `k` of them the next one is `k + 2`. The id 1 is that of the request that opens the
/// connection. This holds until the largest id is taken.
pub proof fn law_ids_in_a_row<R, P>(
    capabilities: ServerCapabilitiesView,
    clients: Seq<ClientView<R, P>>,
    steps: Seq<ClientStep<R, P>>,
    n: nat,
)
    requires
        is_history(capabilities, clients, steps),
        n <= steps.len(),
        ids_taken(steps, n) + 2 <= u64::MAX,
    ensures
        INIT_ID == 1,
        clients[n as int].next_id == ids_taken(steps, n) + 2,
    decreases n,
{
    if n > 0 {
        law_ids_in_a_row(capabilities, clients, steps, (n - 1) as nat);
        assert(leads(clients[n - 1], steps[n - 1], clients[n - 1 + 1]));
    }
}

/// Later steps have seen no fewer ids.
proof fn lemma_ids_taken_grow<R, P>(steps: Seq<ClientStep<R, P>>, m: nat, n: nat)
    requires
        m <= n,
    ensures
        ids_taken(steps, m) <= ids_taken(steps, n),
    decreases n,
{
    if m < n {
        lemma_ids_taken_grow(steps, m, (n - 1) as nat);
    }
}

/// No id of a connection is taken twice: of two ids the one that is taken later is larger, and none is
/// that of the request that opens the connection. This holds until the largest id is taken.
pub proof fn law_ids_are_taken_once<R, P>(
    capabilities: ServerCapabilitiesView,
    clients: Seq<ClientView<R, P>>,
    steps: Seq<ClientStep<R, P>>,
    first: nat,
    second: nat,
)
    requires
        is_history(capabilities, clients, steps),
        first < second < steps.len(),
        takes_id(steps[first as int]),
        takes_id(steps[second as int]),
        ids_taken(steps, second) + 2 <= u64::MAX,
    ensures
        INIT_ID < clients[first as int].next_id < clients[second as int].next_id,
{
    lemma_ids_taken_grow(steps, first + 1, second);
    law_ids_in_a_row(capabilities, clients, steps, first);
    law_ids_in_a_row(capabilities, clients, steps, second);
}

/// Whatever arrives, the next id, the capabilities and the state of the connection stay as they are,
/// and an open request stays open until its own response comes.
pub proof fn law_other_requests_stay<R, P>(
    before: ClientView<R, P>,
    message: IncomingMessageView,
    after: ClientView<R, P>,
    delivery: Delivery<R, P>,
    id: u64,
)
    requires
        before.delivers(message, after, delivery),
        !(message matches IncomingMessageView::Response(response) && response.id == id),
    ensures
        after.next_id == before.next_id,
        after.capabilities == before.capabilities,
        after.closed == before.closed,
        after.pending.contains_key(id) == before.pending.contains_key(id),
        before.pending.contains_key(id) ==> after.pending[id] == before.pending[id],
{
}

/// The response to a request reaches the caller of that request, and leaves the client as it was
/// before the request, but for the next id.
pub proof fn law_request_is_answered<R, P>(
    before: ClientView<R, P>,
    pending: PendingResponse<R, P>,
    response: RpcResponseView,
    after: ClientView<R, P>,
    delivery: Delivery<R, P>,
)
    requires
        !before.pending.contains_key(before.next_id),
        response.id == before.next_id,
        before.with_request(pending).delivers(IncomingMessageView::Response(response), after, delivery),
    ensures
        delivery matches Delivery::Response { to, payload } && to == pending && is_payload(response, payload),
        after == (ClientView { next_id: id_after(before.next_id), ..before }),
{
    assert(after.pending =~= before.pending);
}

/// The answer to a request gives the caller the result that the server sent, whatever it is.
pub proof fn law_result_reaches_caller<R, P>(
    before: ClientView<R, P>,
    pending: PendingResponse<R, P>,
    result: JsonView,
    json: JsonView,
    after: ClientView<R, P>,
    delivery: Delivery<R, P>,
)
    requires
        is_object_of(json, result_members(before.next_id, result)),
        before.with_request(pending).receives(Ok(json), after, delivery),
    ensures
        delivery matches Delivery::Response { to, payload } && to == pending && (payload matches Ok(value) && value@
            == result),
        !after.pending.contains_key(before.next_id),
{
    law_result_is_response(json, before.next_id, result);
}

/// The error that the server answers a request with reaches the caller, with its code and its
/// message, whether or not the answer has a result too.
pub proof fn law_error_reaches_caller<R, P>(
    before: ClientView<R, P>,
    pending: PendingResponse<R, P>,
    json: JsonView,
    error: JsonView,
    found: RpcErrorView,
    after: ClientView<R, P>,
    delivery: Delivery<R, P>,
)
    requires
        json.member("id"@) == Some(JsonView::Number(NumberView::Unsigned(before.next_id))),
        json.member("error"@) == Some(error),
        RpcError::decoded(error) == Ok::<RpcErrorView, Seq<char>>(found),
        before.with_request(pending).receives(Ok(json), after, delivery),
    ensures
        delivery matches Delivery::Response { to, payload } && to == pending && (payload matches Err(
            Error::Rpc { code, message },
        ) && code == found.code && message@ == found.message),
        !after.pending.contains_key(before.next_id),
{
    law_error_is_response(json, before.next_id, error, found);
}

/// The answer to a request, read from its text, gives the caller the result that the server sent.
/// The result holds no floating-point number, which the reader may take for one close to it.
pub proof fn law_result_text_reaches_caller<R, P>(
    before: ClientView<R, P>,
    pending: PendingResponse<R, P>,
    result: JsonView,
    read: Result<JsonView, Seq<char>>,
    after: ClientView<R, P>,
    delivery: Delivery<R, P>,
)
    requires
        plain_json(result, 126),
        reads_back(object_text(result_members(before.next_id, result)), read),
        before.with_request(pending).receives(read, after, delivery),
    ensures
        delivery matches Delivery::Response { to, payload } && to == pending && (payload matches Ok(json) && json@
            == result),
        !after.pending.contains_key(before.next_id),
{
    law_result_text_is_response(before.next_id, result, read);
}

/// A request is answered once: a second response with its id is passed over.
pub proof fn law_answered_once<R, P>(
    before: ClientView<R, P>,
    first: RpcResponseView,
    middle: ClientView<R, P>,
    delivery: Delivery<R, P>,
    second: RpcResponseView,
    after: ClientView<R, P>,
    again: Delivery<R, P>,
)
    requires
        first.id == second.id,
        before.delivers(IncomingMessageView::Response(first), middle, delivery),
        middle.delivers(IncomingMessageView::Response(second), after, again),
    ensures
        again is Nothing,
        after == middle,
{
}

/// Responses may come in any order: each reaches the caller with its id, and the client is the same
/// in the end.
pub proof fn law_any_order<R, P>(
    before: ClientView<R, P>,
    one: RpcResponseView,
    two: RpcResponseView,
    after_one: ClientView<R, P>,
    after_one_two: ClientView<R, P>,
    after_two: ClientView<R, P>,
    after_two_one: ClientView<R, P>,
    first_to_one: Delivery<R, P>,
    then_to_two: Delivery<R, P>,
    first_to_two: Delivery<R, P>,
    then_to_one: Delivery<R, P>,
)
    requires
        one.id != two.id,
        before.pending.contains_key(one.id),
        before.pending.contains_key(two.id),
        before.delivers(IncomingMessageView::Response(one), after_one, first_to_one),
        after_one.delivers(IncomingMessageView::Response(two), after_one_two, then_to_two),
        before.delivers(IncomingMessageView::Response(two), after_two, first_to_two),
        after_two.delivers(IncomingMessageView::Response(one), after_two_one, then_to_one),
    ensures
        after_one_two == after_two_one,
        first_to_one->to == before.pending[one.id],
        then_to_one->to == before.pending[one.id],
        first_to_two->to == before.pending[two.id],
        then_to_two->to == before.pending[two.id],
        is_payload(one, first_to_one->payload) && is_payload(one, then_to_one->payload),
        is_payload(two, first_to_two->payload) && is_payload(two, then_to_two->payload),
{
    assert(after_one_two.pending =~= after_two_one.pending);
}

/// Nothing reaches the caller of a cancelled request any more, neither an answer nor a report.
pub proof fn law_cancelled_is_silent<R, P>(
    before: ClientView<R, P>,
    id: u64,
    message: IncomingMessageView,
    after: ClientView<R, P>,
    delivery: Delivery<R, P>,
)
    requires
        before.without_request(id).delivers(message, after, delivery),
    ensures
        message matches IncomingMessageView::Response(response) && response.id == id ==> delivery is Nothing,
        !(delivery matches Delivery::Progress { token, update } && token == id),
        !after.pending.contains_key(id),
{
}

/// When the connection ends, the caller of every open request gets the error that it is closed, as
/// the result of the call and as the last event of a stream. Nothing reaches any of them later.
pub proof fn law_closed_reaches_callers<R, P>(
    before: ClientView<R, P>,
    told: Seq<(u64, Delivery<R, P>)>,
    id: u64,
    message: IncomingMessageView,
    after: ClientView<R, P>,
    delivery: Delivery<R, P>,
)
    requires
        before.tells_closed(told),
        before.pending.contains_key(id),
    ensures
        exists|i: int| 0 <= i < told.len() && (#[trigger] told[i]).0 == id && says_closed(before.pending[id], told[i].1),
        forall|i: int|
            0 <= i < told.len() && (#[trigger] told[i]).0 == id ==> reply_failure(Some(told[i].1->payload)) == Some(
                Error::Closed,
            ),
        forall|i: int, event: Result<ToolEvent, Error>|
            0 <= i < told.len() && (#[trigger] told[i]).0 == id && #[trigger] is_last_event(
                Some(told[i].1->payload),
                event,
            ) ==> event == Err::<ToolEvent, Error>(Error::Closed),
        before.shut().delivers(message, after, delivery) ==> delivery is Nothing && after == before.shut(),
{
    let i = choose|i: int| 0 <= i < told.len() && (#[trigger] told[i]).0 == id;
    assert(says_closed(before.pending[told[i].0], told[i].1));
}

/// A request on a connection that has ended is not left waiting: its caller is told at once, and the
/// request is no longer open.
pub proof fn law_late_request_is_told<R, P>(
    before: ClientView<R, P>,
    pending: PendingResponse<R, P>,
    after: ClientView<R, P>,
    delivery: Delivery<R, P>,
)
    requires
        before.closed,
        before.with_request(pending).settles(before.next_id, after, delivery),
    ensures
        says_closed(pending, delivery),
        !after.pending.contains_key(before.next_id),
{
}

/// A streaming call tells the server its own id as the token, and a report with that token reaches
/// its caller, for as long as the call is open.
pub proof fn law_reports_reach_caller<R, P>(
    before: ClientView<R, P>,
    result_tx: R,
    progress_tx: P,
    name: Seq<char>,
    args: JsonView,
    notification: IncomingNotificationView,
)
    requires
        notification.method == "notifications/progress"@,
        notification.params matches Some(params) && params.member("progressToken"@) matches Some(token)
            && token.as_u64() == Some(before.next_id),
    ensures
        streaming_params(name, args, before.next_id).member("_meta"@) matches Some(meta) && meta.member(
            "progressToken"@,
        ) == Some(JsonView::Number(NumberView::Unsigned(before.next_id))),
        before.with_request(PendingResponse { result_tx, progress_tx: Some(progress_tx) }).progress_target(notification)
            == Some(before.next_id),
{
}

/// A caller that did not ask for reports gets none, and no caller gets the report of another call: a
/// report goes to the open request whose id is its token.
pub proof fn law_no_unwanted_reports<R, P>(
    before: ClientView<R, P>,
    message: IncomingMessageView,
    after: ClientView<R, P>,
    delivery: Delivery<R, P>,
)
    requires
        before.delivers(message, after, delivery),
    ensures
        delivery matches Delivery::Progress { token, update } ==> before.pending.contains_key(token)
            && before.pending[token].progress_tx is Some && after == before && report_in(message, token) == Some(
            update@,
        ),
{
}

/// The report that a message gives the call of this id, if it is one.
pub open spec fn report_in(message: IncomingMessageView, id: u64) -> Option<ProgressUpdateView> {
    match message {
        IncomingMessageView::Notification(notification) => match notification.params {
            Some(params) if notification.method == "notifications/progress"@ => match params.member("progressToken"@) {
                Some(token) if token.as_u64() == Some(id) => Some(progress_of(params)),
                _ => None,
            },
            _ => None,
        },
        IncomingMessageView::Response(_) => None,
    }
}

/// The reports for the call of this id among the messages, in order.
pub open spec fn reports_sent(messages: Seq<IncomingMessageView>, id: u64) -> Seq<ProgressUpdateView>
    decreases messages.len(),
{
    if messages.len() == 0 {
        Seq::empty()
    } else {
        let earlier = reports_sent(messages.drop_last(), id);
        match report_in(messages.last(), id) {
            Some(report) => earlier.push(report),
            None => earlier,
        }
    }
}

/// The reports that reach the call of this id among the deliveries, in order.
pub open spec fn reports_delivered<R, P>(deliveries: Seq<Delivery<R, P>>, id: u64) -> Seq<ProgressUpdateView>
    decreases deliveries.len(),
{
    if deliveries.len() == 0 {
        Seq::empty()
    } else {
        let earlier = reports_delivered(deliveries.drop_last(), id);
        match deliveries.last() {
            Delivery::Progress { token, update } if token == id => earlier.push(update@),
            _ => earlier,
        }
    }
}

/// The messages arrive one after the other: `clients` are the client before and after each.
pub open spec fn all_delivered<R, P>(
    clients: Seq<ClientView<R, P>>,
    messages: Seq<IncomingMessageView>,
    deliveries: Seq<Delivery<R, P>>,
) -> bool {
    &&& clients.len() == messages.len() + 1
    &&& deliveries.len() == messages.len()
    &&& forall|i: int| #![trigger messages[i]]
        0 <= i < messages.len() ==> clients[i].delivers(messages[i], clients[i + 1], deliveries[i])
}

/// While a call with reports is open, exactly the reports that the server sends for it reach its
/// caller, in the order in which they were sent: none is lost or repeated, and none of another call
/// is among them.
pub proof fn law_reports_are_delivered_in_order<R, P>(
    clients: Seq<ClientView<R, P>>,
    messages: Seq<IncomingMessageView>,
    deliveries: Seq<Delivery<R, P>>,
    id: u64,
)
    requires
        all_delivered(clients, messages, deliveries),
        clients[0].pending.contains_key(id),
        clients[0].pending[id].progress_tx is Some,
        forall|i: int| #![trigger messages[i]]
            0 <= i < messages.len() ==> !(messages[i] matches IncomingMessageView::Response(response) && response.id
                == id),
    ensures
        reports_delivered(deliveries, id) == reports_sent(messages, id),
        clients.last().pending.contains_key(id),
        clients.last().pending[id] == clients[0].pending[id],
    decreases messages.len(),
{
    if messages.len() > 0 {
        let n = messages.len() - 1;
        let fewer = messages.drop_last();
        let clients_before = clients.drop_last();
        assert forall|i: int| #![trigger fewer[i]] 0 <= i < fewer.len() implies clients_before[i].delivers(
            fewer[i],
            clients_before[i + 1],
            deliveries.drop_last()[i],
        ) && !(fewer[i] matches IncomingMessageView::Response(response) && response.id == id) by {
            assert(fewer[i] == messages[i]);
        }
        law_reports_are_delivered_in_order(clients_before, fewer, deliveries.drop_last(), id);
        assert(clients_before.last() == clients[n]);
        assert(clients[n].delivers(messages[n], clients[n + 1], deliveries[n]));
    }
}

/// What happens to a stream of tool events.
pub enum StreamInput {
    /// The next event is asked for, and this progress report waits, if any does.
    Next(Option<ProgressUpdate>),
    /// The reply has come, and the stream ends with this event.
    Reply(Reply, Result<ToolEvent, Error>),
}

/// The state of a stream after an input.
pub open spec fn stream_after(state: StreamState, input: StreamInput) -> StreamState {
    match input {
        StreamInput::Next(progress) => state.next(progress).0,
        StreamInput::Reply(_, event) => match state {
            StreamState::Open => StreamState::Ending(event),
            _ => state,
        },
    }
}

/// The steps that a stream takes for a series of inputs, one for each time that an event is asked
/// for.
pub open spec fn stream_steps(state: StreamState, inputs: Seq<StreamInput>) -> Seq<StreamStep>
    decreases inputs.len(),
{
    if inputs.len() == 0 {
        Seq::empty()
    } else {
        let rest = stream_steps(stream_after(state, inputs[0]), inputs.drop_first());
        match inputs[0] {
            StreamInput::Next(progress) => seq![state.next(progress).1] + rest,
            StreamInput::Reply(_, _) => rest,
        }
    }
}

/// The inputs that can happen: a stream ends with the event that its reply calls for.
pub open spec fn stream_inputs(inputs: Seq<StreamInput>) -> bool {
    forall|i: int| #![trigger inputs[i]]
        0 <= i < inputs.len() ==> (inputs[i] matches StreamInput::Reply(reply, event) ==> is_last_event(reply, event))
}

/// The step yields an event that is no progress report.
pub open spec fn yields_last(step: StreamStep) -> bool {
    step matches StreamStep::Yield(event) && !(event matches Ok(ToolEvent::Progress(_)))
}

/// A closed stream only ends.
proof fn lemma_closed_stream(inputs: Seq<StreamInput>)
    ensures
        forall|i: int|
            0 <= i < stream_steps(StreamState::Closed, inputs).len() ==> #[trigger] stream_steps(
                StreamState::Closed,
                inputs,
            )[i] is End,
    decreases inputs.len(),
{
    if inputs.len() > 0 {
        lemma_closed_stream(inputs.drop_first());
    }
}

/// The last event closes the stream: progress reports come before it, and after it there is
/// nothing but the end.
pub proof fn law_last_event_closes(state: StreamState, inputs: Seq<StreamInput>)
    requires
        stream_inputs(inputs),
    ensures
        forall|i: int, j: int|
            0 <= i < j < stream_steps(state, inputs).len() && yields_last(#[trigger] stream_steps(state, inputs)[i])
                ==> #[trigger] stream_steps(state, inputs)[j] is End,
    decreases inputs.len(),
{
    if inputs.len() > 0 {
        let rest = inputs.drop_first();
        let next = stream_after(state, inputs[0]);
        assert forall|i: int| #![trigger rest[i]] 0 <= i < rest.len() implies (
        rest[i] matches StreamInput::Reply(reply, event) ==> is_last_event(reply, event)) by {
            assert(rest[i] == inputs[i + 1]);
        }
        law_last_event_closes(next, rest);
        lemma_closed_stream(rest);
        let steps = stream_steps(state, inputs);
        let later = stream_steps(next, rest);
        match inputs[0] {
            StreamInput::Next(progress) => {
                assert forall|i: int, j: int|
                    0 <= i < j < steps.len() && yields_last(#[trigger] steps[i]) implies #[trigger] steps[j] is End by {
                    assert(steps[j] == later[j - 1]);
                    if i == 0 {
                        assert(next is Closed);
                    } else {
                        assert(steps[i] == later[i - 1]);
                    }
                }
            },
            StreamInput::Reply(_, _) => {},
        }
    }
}

/// A stream of tool events and what waits for it.
pub struct RunningCall {
    /// The reports that have come and were not looked at, in order.
    pub waiting: Seq<ProgressUpdate>,
    /// The event that the reply calls for, once the reply has come.
    pub answer: Option<Result<ToolEvent, Error>>,
    pub state: StreamState,
    /// All reports that have come.
    pub reports: Seq<ProgressUpdate>,
    /// What the stream has yielded.
    pub yielded: Seq<Result<ToolEvent, Error>>,
}

/// What happens while a call with reports runs.
pub enum CallStep {
    /// A report comes.
    Report(ProgressUpdate),
    /// The reply comes, which calls for this event.
    Answer(Reply, Result<ToolEvent, Error>),
    /// The stream is asked for its next event, with the first report that waits, if any does.
    Look,
    /// The stream is given the reply that has come.
    Take,
}

impl RunningCall {
    /// A call that has just been sent.
    pub open spec fn start() -> RunningCall {
        RunningCall {
            waiting: Seq::empty(),
            answer: None,
            state: StreamState::Open,
            reports: Seq::empty(),
            yielded: Seq::empty(),
        }
    }

    /// The step can happen: reports come before the reply, there is one reply, and it can be given
    /// to the stream once it has come.
    pub open spec fn allows(self, step: CallStep) -> bool {
        match step {
            CallStep::Report(_) => self.answer is None,
            CallStep::Answer(reply, event) => self.answer is None && is_last_event(reply, event),
            CallStep::Look => true,
            CallStep::Take => self.answer is Some,
        }
    }

    /// The call after a step.
    pub open spec fn after(self, step: CallStep) -> RunningCall {
        match step {
            CallStep::Report(update) => RunningCall {
                waiting: self.waiting.push(update),
                reports: self.reports.push(update),
                ..self
            },
            CallStep::Answer(_, event) => RunningCall { answer: Some(event), ..self },
            CallStep::Look => {
                let progress = if self.waiting.len() > 0 {
                    Some(self.waiting[0])
                } else {
                    None
                };
                let (state, step) = self.state.next(progress);
                RunningCall {
                    waiting: if self.waiting.len() > 0 {
                        self.waiting.drop_first()
                    } else {
                        self.waiting
                    },
                    state,
                    yielded: match step {
                        StreamStep::Yield(event) => self.yielded.push(event),
                        _ => self.yielded,
                    },
                    ..self
                }
            },
            CallStep::Take => RunningCall {
                state: match self.state {
                    StreamState::Open => StreamState::Ending(self.answer->0),
                    _ => self.state,
                },
                ..self
            },
        }
    }

    /// The call after a series of steps.
    pub open spec fn after_all(self, steps: Seq<CallStep>) -> RunningCall
        decreases steps.len(),
    {
        if steps.len() == 0 {
            self
        } else {
            self.after_all(steps.drop_last()).after(steps.last())
        }
    }

    /// Each of the steps can happen after those before it.
    pub open spec fn allows_all(self, steps: Seq<CallStep>) -> bool
        decreases steps.len(),
    {
        steps.len() > 0 ==> self.allows_all(steps.drop_last()) && self.after_all(steps.drop_last()).allows(steps.last())
    }
}

/// The first `n` reports as events.
pub open spec fn report_events(reports: Seq<ProgressUpdate>, n: nat) -> Seq<Result<ToolEvent, Error>> {
    Seq::new(n, |i: int| Ok::<ToolEvent, Error>(ToolEvent::Progress(reports[i])))
}

/// Whatever the order in which reports come and the stream is asked: it yields the reports in the
/// order in which they came, none lost or repeated. Those that it has not yielded wait. Once it is
/// closed it has yielded all of them, then the one event that the reply calls for, and nothing else.
pub proof fn law_stream_yields_reports_in_order(steps: Seq<CallStep>)
    requires
        RunningCall::start().allows_all(steps),
    ensures
        ({
            let call = RunningCall::start().after_all(steps);
            let n = call.reports.len() - call.waiting.len();
            &&& 0 <= n
            &&& call.waiting == call.reports.skip(n)
            &&& call.state is Closed ==> call.waiting.len() == 0 && call.answer is Some && call.yielded
                == report_events(call.reports, n as nat).push(call.answer->0)
            &&& !(call.state is Closed) ==> call.yielded == report_events(call.reports, n as nat)
            &&& call.state matches StreamState::Ending(event) ==> call.answer == Some(event)
        }),
    decreases steps.len(),
{
    let start = RunningCall::start();
    if steps.len() == 0 {
        assert(start.waiting =~= start.reports.skip(0));
        assert(start.yielded =~= report_events(start.reports, 0));
    } else {
        let before = start.after_all(steps.drop_last());
        law_stream_yields_reports_in_order(steps.drop_last());
        let call = before.after(steps.last());
        let k = before.reports.len() - before.waiting.len();
        let n = call.reports.len() - call.waiting.len();
        match steps.last() {
            CallStep::Report(update) => {
                assert(call.waiting =~= call.reports.skip(n));
                assert(call.yielded =~= report_events(call.reports, n as nat));
            },
            CallStep::Look => {
                assert(call.waiting =~= call.reports.skip(n));
                if before.waiting.len() > 0 {
                    assert(before.waiting[0] == before.reports[k]);
                    assert(call.yielded =~= report_events(call.reports, n as nat));
                } else {
                    assert(n == k);
                }
            },
            _ => {},
        }
    }
}

/// The call once the stream was asked for `n` events.
pub open spec fn looked(call: RunningCall, n: nat) -> RunningCall
    decreases n,
{
    if n == 0 {
        call
    } else {
        looked(call.after(CallStep::Look), (n - 1) as nat)
    }
}

/// A caller that goes on asking comes to the end: once the reply has been given to the stream, it
/// closes after as many more events as reports wait, and one.
pub proof fn law_stream_comes_to_its_end(call: RunningCall)
    requires
        call.state is Ending,
    ensures
        looked(call, call.waiting.len() + 1).state is Closed,
        looked(call, call.waiting.len() + 1).yielded.len() == call.yielded.len() + call.waiting.len() + 1,
    decreases call.waiting.len(),
{
    let next = call.after(CallStep::Look);
    if call.waiting.len() > 0 {
        law_stream_comes_to_its_end(next);
    } else {
        reveal_with_fuel(looked, 2);
    }
}

} // verus!
