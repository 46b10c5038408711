//! What a call sends: the words on the wire for each call, in terms of the arguments of the call.
use crate::client::{
    cancelled_params, initialize_params, prompt_params, streaming_params, tool_params, CallEnd, CallOutcome,
        McpClient,
    Outgoing, PendingResponse,
};
use crate::codec::{object_members, object_text, plain_json, plain_members, print_json, print_object, printed_json,
    reads_back};
use crate::error::Error;
use crate::json::{Json, JsonView, NumberView};
use crate::laws::records::{is_answer, law_answer, same_json_option};
use crate::rpc::{RpcNotification, RpcRequest};
use crate::types::ServerCapabilities;
use vstd::prelude::*;

verus! {

/// The members of an object stand in its text one after the other, each as its name, a colon and
/// its value, with a comma between two of them.
pub proof fn law_object_text(members: Seq<(Seq<char>, JsonView)>, more: (Seq<char>, JsonView))
    ensures
        object_text(Seq::empty()) == seq!['{', '}'],
        object_text(members.push(more)) == object_text(members).drop_last() + (if members.len() > 0 {
            seq![',']
        } else {
            Seq::empty()
        }) + printed_json(JsonView::String(more.0)) + seq![':'] + printed_json(more.1) + seq!['}'],
{
    assert(object_text(Seq::empty()) =~= seq!['{', '}']);
    let longer = members.push(more);
    assert(longer.drop_last() =~= members);
    assert(longer.last() == more);
    assert(object_text(longer) =~= object_text(members).drop_last() + (if members.len() > 0 {
        seq![',']
    } else {
        Seq::empty()
    }) + printed_json(JsonView::String(more.0)) + seq![':'] + printed_json(more.1) + seq!['}']);
}

/// An object is printed with the given members, names and values, in the given order.
pub proof fn law_object_is_printed(entries: Vec<(String, Json)>, text: String)
    requires
        call_ensures(print_object, (&entries,), text),
    ensures
        text@ == object_text(Seq::new(entries@.len(), |i: int| (entries@[i].0@, entries@[i].1@))),
{
    assert(crate::codec::members_of(entries@) =~= Seq::new(
        entries@.len(),
        |i: int| (entries@[i].0@, entries@[i].1@),
    ));
}

/// A value is printed as it is.
pub proof fn law_value_is_printed(json: Json, text: String)
    requires
        call_ensures(print_json, (json,), text),
    ensures
        text@ == printed_json(json@),
{
}

/// The text is that of a request with this id, method and parameters.
pub open spec fn sends(text: Seq<char>, id: u64, method: Seq<char>, params: Option<JsonView>) -> bool {
    let start = seq![
        ("jsonrpc"@, JsonView::String("2.0"@)),
        ("id"@, JsonView::Number(NumberView::Unsigned(id))),
        ("method"@, JsonView::String(method)),
    ];
    match params {
        Some(value) => text == object_text(start.push(("params"@, value))),
        None => text == object_text(start),
    }
}

/// The text is that of a notification with this method and parameters.
pub open spec fn notifies(text: Seq<char>, method: Seq<char>, params: Option<JsonView>) -> bool {
    let start = seq![("jsonrpc"@, JsonView::String("2.0"@)), ("method"@, JsonView::String(method))];
    match params {
        Some(value) => text == object_text(start.push(("params"@, value))),
        None => text == object_text(start),
    }
}

/// The text of a request is made of its id, its method and its parameters.
pub proof fn law_request_text(id: u64, method: Seq<char>, params: Option<JsonView>)
    ensures
        sends(crate::rpc::request_text(id, method, params), id, method, params),
{
    let start = seq![
        ("jsonrpc"@, JsonView::String("2.0"@)),
        ("id"@, JsonView::Number(NumberView::Unsigned(id))),
        ("method"@, JsonView::String(method)),
    ];
    match params {
        Some(value) => {
            assert(crate::rpc::request_members("2.0"@, id, method, params) =~= start.push(("params"@, value)));
        },
        None => {
            assert(crate::rpc::request_members("2.0"@, id, method, params) =~= start);
        },
    }
}

/// The text of a notification is made of its method and its parameters.
pub proof fn law_notification_text(method: Seq<char>, params: Option<JsonView>)
    ensures
        notifies(crate::rpc::notification_text(method, params), method, params),
{
    let start = seq![("jsonrpc"@, JsonView::String("2.0"@)), ("method"@, JsonView::String(method))];
    match params {
        Some(value) => {
            assert(crate::rpc::notification_members("2.0"@, method, params) =~= start.push(("params"@, value)));
        },
        None => {
            assert(crate::rpc::notification_members("2.0"@, method, params) =~= start);
        },
    }
}

/// A request that is made and printed is sent with what it was made of.
pub proof fn law_made_request(id: u64, method: &str, params: Option<Json>, request: RpcRequest, text: String)
    requires
        call_ensures(RpcRequest::new, (id, method, params), request),
        call_ensures(RpcRequest::to_text, (&request,), text),
    ensures
        sends(
            text@,
            id,
            method@,
            match params {
                Some(json) => Some(json@),
                None => None,
            },
        ),
{
    law_request_text(id, method@, crate::json::optional_json(params));
}

/// A notification that is made and printed is sent with what it was made of.
pub proof fn law_made_notification(
    method: &'static str,
    params: Option<Json>,
    notification: RpcNotification,
    text: String,
)
    requires
        call_ensures(RpcNotification::new, (method, params), notification),
        call_ensures(RpcNotification::to_text, (&notification,), text),
    ensures
        notifies(
            text@,
            method@,
            match params {
                Some(json) => Some(json@),
                None => None,
            },
        ),
{
    law_notification_text(method@, crate::json::optional_json(params));
}

/// The names that stand in messages and parameters are different texts.
proof fn lemma_words()
    ensures
        "jsonrpc"@ != "id"@,
        "jsonrpc"@ != "method"@,
        "jsonrpc"@ != "params"@,
        "id"@ != "method"@,
        "id"@ != "params"@,
        "method"@ != "params"@,
        "name"@ != "arguments"@,
        "name"@ != "_meta"@,
        "arguments"@ != "_meta"@,
        "name"@ != "version"@,
        "requestId"@ != "reason"@,
        "protocolVersion"@ != "capabilities"@,
        "protocolVersion"@ != "clientInfo"@,
        "capabilities"@ != "clientInfo"@,
{
    reveal_strlit("jsonrpc");
    reveal_strlit("id");
    reveal_strlit("method");
    reveal_strlit("params");
    reveal_strlit("name");
    reveal_strlit("arguments");
    reveal_strlit("_meta");
    reveal_strlit("version");
    reveal_strlit("requestId");
    reveal_strlit("reason");
    reveal_strlit("protocolVersion");
    reveal_strlit("capabilities");
    reveal_strlit("clientInfo");
    assert("jsonrpc"@[0] == 'j' && "id"@[0] == 'i' && "method"@[0] == 'm' && "params"@[0] == 'p');
    assert("name"@[0] == 'n' && "arguments"@[0] == 'a' && "_meta"@[0] == '_' && "version"@[0] == 'v');
    assert("requestId"@[2] == 'q' && "reason"@[2] == 'a');
    assert("protocolVersion"@[0] == 'p' && "capabilities"@[1] == 'a' && "clientInfo"@[1] == 'l');
}

/// Who reads a request that was sent finds in it the version of the protocol, the id, the method
/// and the parameters, and nothing else.
pub proof fn law_sent_request_is_read(
    text: Seq<char>,
    id: u64,
    method: Seq<char>,
    params: Option<JsonView>,
    read: Result<JsonView, Seq<char>>,
)
    requires
        sends(text, id, method, params),
        reads_back(text, read),
        params matches Some(value) ==> plain_json(value, 126),
    ensures
        read matches Ok(JsonView::Object(members)) && {
            &&& members.dom() == if params is Some {
                set!["jsonrpc"@, "id"@, "method"@, "params"@]
            } else {
                set!["jsonrpc"@, "id"@, "method"@]
            }
            &&& members["jsonrpc"@] == JsonView::String("2.0"@)
            &&& members["id"@] == JsonView::Number(NumberView::Unsigned(id))
            &&& members["method"@] == JsonView::String(method)
            &&& params matches Some(value) ==> members["params"@] == value
        },
{
    lemma_words();
    let start = seq![
        ("jsonrpc"@, JsonView::String("2.0"@)),
        ("id"@, JsonView::Number(NumberView::Unsigned(id))),
        ("method"@, JsonView::String(method)),
    ];
    let sent = match params {
        Some(value) => start.push(("params"@, value)),
        None => start,
    };
    assert(plain_members(sent, 126));
    assert(text == object_text(sent));
    let one = seq![start[0]];
    let two = seq![start[0], start[1]];
    assert(start.drop_last() =~= two);
    assert(two.drop_last() =~= one);
    assert(one.drop_last() =~= Seq::empty());
    reveal_with_fuel(object_members, 2);
    assert(object_members(one) =~= Map::empty().insert("jsonrpc"@, JsonView::String("2.0"@)));
    assert(object_members(two) == object_members(one).insert(
        "id"@,
        JsonView::Number(NumberView::Unsigned(id)),
    ));
    assert(object_members(start) == object_members(two).insert("method"@, JsonView::String(method)));
    if let Some(value) = params {
        assert(sent.drop_last() =~= start);
        assert(object_members(sent) == object_members(start).insert("params"@, value));
        assert(object_members(sent).dom() =~= set!["jsonrpc"@, "id"@, "method"@, "params"@]);
    } else {
        assert(object_members(start).dom() =~= set!["jsonrpc"@, "id"@, "method"@]);
    }
}

/// The parameters are an object with exactly the members `name` and `arguments`.
pub open spec fn calls_tool(params: JsonView, name: Seq<char>, args: JsonView) -> bool {
    params matches JsonView::Object(members) && {
        &&& members.dom() == set!["name"@, "arguments"@]
        &&& members["name"@] == JsonView::String(name)
        &&& members["arguments"@] == args
    }
}

/// The parameters are an object with exactly the members `name`, `arguments` and `_meta`, and the
/// last is an object whose only member `progressToken` is the token.
pub open spec fn calls_tool_with_reports(params: JsonView, name: Seq<char>, args: JsonView, token: u64) -> bool {
    params matches JsonView::Object(members) && {
        &&& members.dom() == set!["name"@, "arguments"@, "_meta"@]
        &&& members["name"@] == JsonView::String(name)
        &&& members["arguments"@] == args
        &&& members["_meta"@] matches JsonView::Object(meta) && meta.dom() == set!["progressToken"@]
            && meta["progressToken"@] == JsonView::Number(NumberView::Unsigned(token))
    }
}

/// The parameters are an object with the member `name`, the member `arguments` where there are any,
/// and no other.
pub open spec fn asks_for_prompt(params: JsonView, name: Seq<char>, args: Option<JsonView>) -> bool {
    params matches JsonView::Object(members) && {
        &&& members.dom() == if args is Some {
            set!["name"@, "arguments"@]
        } else {
            set!["name"@]
        }
        &&& members["name"@] == JsonView::String(name)
        &&& args matches Some(value) ==> members["arguments"@] == value
    }
}

/// The parameters are an object whose only member `uri` is the URI.
pub open spec fn asks_for_resource(params: JsonView, uri: Seq<char>) -> bool {
    params matches JsonView::Object(members) && members.dom() == set!["uri"@]
        && members["uri"@] == JsonView::String(uri)
}

/// The parameters are an object with exactly the members `requestId` and `reason`.
pub open spec fn tells_cancelled(params: JsonView, id: u64) -> bool {
    params matches JsonView::Object(members) && {
        &&& members.dom() == set!["requestId"@, "reason"@]
        &&& members["requestId"@] == JsonView::Number(NumberView::Unsigned(id))
        &&& members["reason"@] == JsonView::String("client cancelled"@)
    }
}

/// The parameters are an object with exactly the members `protocolVersion`, `capabilities`, which
/// is
/// an empty object, and `clientInfo`, which has exactly the name and the version of the client.
pub open spec fn introduces_client(params: JsonView) -> bool {
    params matches JsonView::Object(members) && {
        &&& members.dom() == set!["protocolVersion"@, "capabilities"@, "clientInfo"@]
        &&& members["protocolVersion"@] == JsonView::String("2024-11-05"@)
        &&& members["capabilities"@] matches JsonView::Object(none) && none.dom() == Set::<Seq<char>>::empty()
        &&& members["clientInfo"@] matches JsonView::Object(info) && info.dom() == set!["name"@, "version"@]
            && info["name"@] == JsonView::String("mcp-client"@) && info["version"@] == JsonView::String("0.1.0"@)
    }
}

/// The parameters of a tool call hold the name of the tool and the arguments of the caller, and
/// nothing else.
pub proof fn law_tool_params(name: Seq<char>, args: JsonView)
    ensures
        calls_tool(tool_params(name, args), name, args),
{
    lemma_words();
    assert(tool_params(name, args)->Object_0.dom() =~= set!["name"@, "arguments"@]);
}

/// The parameters of a streaming tool call hold the name of the tool, the arguments of the caller
/// and the token of the reports, and nothing else.
pub proof fn law_streaming_params(name: Seq<char>, args: JsonView, token: u64)
    ensures
        calls_tool_with_reports(streaming_params(name, args, token), name, args, token),
{
    lemma_words();
    let members = streaming_params(name, args, token)->Object_0;
    assert(members.dom() =~= set!["name"@, "arguments"@, "_meta"@]);
    assert(members["_meta"@]->Object_0.dom() =~= set!["progressToken"@]);
}

/// The parameters of a request for a prompt hold its name, and the arguments of the caller where
/// there are any.
pub proof fn law_prompt_params(name: Seq<char>, args: Option<JsonView>)
    ensures
        asks_for_prompt(prompt_params(name, args), name, args),
{
    lemma_words();
    let members = prompt_params(name, args)->Object_0;
    if args is Some {
        assert(members.dom() =~= set!["name"@, "arguments"@]);
    } else {
        assert(members.dom() =~= set!["name"@]);
    }
}

/// The notification of a cancellation says which request it is about.
pub proof fn law_cancelled_params(id: u64)
    ensures
        tells_cancelled(cancelled_params(id), id),
{
    lemma_words();
    assert(cancelled_params(id)->Object_0.dom() =~= set!["requestId"@, "reason"@]);
}

/// The request that opens a connection says which protocol the client speaks and who it is.
pub proof fn law_initialize_params()
    ensures
        introduces_client(initialize_params()),
{
    lemma_words();
    let members = initialize_params()->Object_0;
    assert(members.dom() =~= set!["protocolVersion"@, "capabilities"@, "clientInfo"@]);
    assert(members["capabilities"@]->Object_0.dom() =~= Set::<Seq<char>>::empty());
    assert(members["clientInfo"@]->Object_0.dom() =~= set!["name"@, "version"@]);
}

/// The client has opened one more request, whose caller is this one, and is otherwise the same.
pub open spec fn opens<R, P>(
    before: McpClient<R, P>,
    after: McpClient<R, P>,
    id: u64,
    result_tx: R,
    progress_tx: Option<P>,
) -> bool {
    &&& id == before.next_id
    &&& after.next_id as int == if before.next_id == 0xffff_ffff_ffff_ffff {
        0
    } else {
        before.next_id + 1
    }
    &&& after.pending@ == before.pending@.insert(id, PendingResponse { result_tx, progress_tx })
    &&& same_capabilities(before.capabilities, after.capabilities)
    &&& after.closed == before.closed
}

/// The two are the same capabilities.
pub open spec fn same_capabilities(one: ServerCapabilities, other: ServerCapabilities) -> bool {
    &&& same_json_option(one.tools, other.tools)
    &&& same_json_option(one.resources, other.resources)
    &&& same_json_option(one.prompts, other.prompts)
    &&& same_json_option(one.logging, other.logging)
}

/// Whatever is the same to the contracts is the same capability by capability.
pub proof fn law_capabilities_view(one: ServerCapabilities, other: ServerCapabilities)
    requires
        one@ == other@,
    ensures
        same_capabilities(one, other),
{
}

/// A request that the contracts call open is open.
proof fn lemma_opened<R, P>(before: McpClient<R, P>, after: McpClient<R, P>, result_tx: R, progress_tx: Option<P>)
    requires
        after@ == before@.with_request(PendingResponse { result_tx, progress_tx }),
    ensures
        opens(before, after, before.next_id, result_tx, progress_tx),
{
}

/// Asking for the tools sends `tools/list` without parameters, and opens a request.
pub proof fn law_list_tools_call<R, P>(result_tx: R)
    ensures
        forall|client: &mut McpClient<R, P>, out: Outgoing| #[trigger]
            call_ensures(McpClient::<R, P>::list_tools, (client, result_tx), out) ==> opens(
                *client,
                *final(client),
                out.id,
                result_tx,
                None,
            ) && sends(out.text@, out.id, "tools/list"@, None),
{
    assert forall|client: &mut McpClient<R, P>, out: Outgoing| #[trigger]
        call_ensures(McpClient::<R, P>::list_tools, (client, result_tx), out) implies opens(
        *client,
        *final(client),
        out.id,
        result_tx,
        None,
    ) && sends(out.text@, out.id, "tools/list"@, None) by {
        lemma_opened(*client, *final(client), result_tx, None);
        law_request_text(out.id, "tools/list"@, None);
    }
}

/// Asking for the resources sends `resources/list` without parameters, and opens a request.
pub proof fn law_list_resources_call<R, P>(result_tx: R)
    ensures
        forall|client: &mut McpClient<R, P>, out: Outgoing| #[trigger]
            call_ensures(McpClient::<R, P>::list_resources, (client, result_tx), out) ==> opens(
                *client,
                *final(client),
                out.id,
                result_tx,
                None,
            ) && sends(out.text@, out.id, "resources/list"@, None),
{
    assert forall|client: &mut McpClient<R, P>, out: Outgoing| #[trigger]
        call_ensures(McpClient::<R, P>::list_resources, (client, result_tx), out) implies opens(
        *client,
        *final(client),
        out.id,
        result_tx,
        None,
    ) && sends(out.text@, out.id, "resources/list"@, None) by {
        lemma_opened(*client, *final(client), result_tx, None);
        law_request_text(out.id, "resources/list"@, None);
    }
}

/// Asking for the prompts sends `prompts/list` without parameters, and opens a request.
pub proof fn law_list_prompts_call<R, P>(result_tx: R)
    ensures
        forall|client: &mut McpClient<R, P>, out: Outgoing| #[trigger]
            call_ensures(McpClient::<R, P>::list_prompts, (client, result_tx), out) ==> opens(
                *client,
                *final(client),
                out.id,
                result_tx,
                None,
            ) && sends(out.text@, out.id, "prompts/list"@, None),
{
    assert forall|client: &mut McpClient<R, P>, out: Outgoing| #[trigger]
        call_ensures(McpClient::<R, P>::list_prompts, (client, result_tx), out) implies opens(
        *client,
        *final(client),
        out.id,
        result_tx,
        None,
    ) && sends(out.text@, out.id, "prompts/list"@, None) by {
        lemma_opened(*client, *final(client), result_tx, None);
        law_request_text(out.id, "prompts/list"@, None);
    }
}

/// Calling a tool sends `tools/call` with the name and the arguments of the caller, and opens a
/// request.
pub proof fn law_call_tool_call<R, P>(name: &str, args: Json, result_tx: R)
    ensures
        forall|client: &mut McpClient<R, P>, out: Outgoing| #[trigger]
            call_ensures(McpClient::<R, P>::call_tool, (client, name, args, result_tx), out) ==> opens(
                *client,
                *final(client),
                out.id,
                result_tx,
                None,
            ) && exists|params: JsonView| #[trigger]
                sends(out.text@, out.id, "tools/call"@, Some(params)) && calls_tool(params, name@, args@),
{
    assert forall|client: &mut McpClient<R, P>, out: Outgoing| #[trigger]
        call_ensures(McpClient::<R, P>::call_tool, (client, name, args, result_tx), out) implies opens(
        *client,
        *final(client),
        out.id,
        result_tx,
        None,
    ) && exists|params: JsonView| #[trigger]
                sends(out.text@, out.id, "tools/call"@, Some(params)) && calls_tool(params, name@, args@) by {
        lemma_opened(*client, *final(client), result_tx, None);
        let params = tool_params(name@, args@);
        law_tool_params(name@, args@);
        law_request_text(out.id, "tools/call"@, Some(params));
        assert(sends(out.text@, out.id, "tools/call"@, Some(params)));
    }
}

/// Calling a tool that can be cancelled sends the same as any call of it, and opens a request.
pub proof fn law_call_tool_cancellable_call<R, P>(name: &str, args: Json, result_tx: R)
    ensures
        forall|client: &mut McpClient<R, P>, out: Outgoing| #[trigger]
            call_ensures(McpClient::<R, P>::call_tool_cancellable, (client, name, args, result_tx), out) ==> opens(
                *client,
                *final(client),
                out.id,
                result_tx,
                None,
            ) && exists|params: JsonView| #[trigger]
                sends(out.text@, out.id, "tools/call"@, Some(params)) && calls_tool(params, name@, args@),
{
    assert forall|client: &mut McpClient<R, P>, out: Outgoing| #[trigger]
        call_ensures(McpClient::<R, P>::call_tool_cancellable, (client, name, args, result_tx), out) implies opens(
        *client,
        *final(client),
        out.id,
        result_tx,
        None,
    ) && exists|params: JsonView| #[trigger]
                sends(out.text@, out.id, "tools/call"@, Some(params)) && calls_tool(params, name@, args@) by {
        lemma_opened(*client, *final(client), result_tx, None);
        let params = tool_params(name@, args@);
        law_tool_params(name@, args@);
        law_request_text(out.id, "tools/call"@, Some(params));
        assert(sends(out.text@, out.id, "tools/call"@, Some(params)));
    }
}

/// Calling a tool with reports sends `tools/call` with the name and the arguments of the caller and
/// the id of the request as the token of the reports, and opens a request whose caller wants
/// reports.
pub proof fn law_call_tool_streaming_call<R, P>(name: &str, args: Json, result_tx: R, progress_tx: P)
    ensures
        forall|client: &mut McpClient<R, P>, out: Outgoing| #[trigger]
            call_ensures(McpClient::<R, P>::call_tool_streaming, (client, name, args, result_tx, progress_tx),
                out) ==> opens(
                *client,
                *final(client),
                out.id,
                result_tx,
                Some(progress_tx),
            ) && exists|params: JsonView| #[trigger]
                sends(out.text@, out.id, "tools/call"@, Some(params))
                    && calls_tool_with_reports(params, name@, args@, out.id),
{
    assert forall|client: &mut McpClient<R, P>, out: Outgoing| #[trigger]
        call_ensures(McpClient::<R, P>::call_tool_streaming, (client, name, args, result_tx, progress_tx),
            out) implies opens(
        *client,
        *final(client),
        out.id,
        result_tx,
        Some(progress_tx),
    ) && exists|params: JsonView| #[trigger]
                sends(out.text@, out.id, "tools/call"@, Some(params))
                    && calls_tool_with_reports(params, name@, args@, out.id) by {
        lemma_opened(*client, *final(client), result_tx, Some(progress_tx));
        let params = streaming_params(name@, args@, out.id);
        law_streaming_params(name@, args@, out.id);
        law_request_text(out.id, "tools/call"@, Some(params));
        assert(sends(out.text@, out.id, "tools/call"@, Some(params)));
    }
}

/// Reading a resource sends `resources/read` with its URI, and opens a request.
pub proof fn law_read_resource_call<R, P>(uri: &str, result_tx: R)
    ensures
        forall|client: &mut McpClient<R, P>, out: Outgoing| #[trigger]
            call_ensures(McpClient::<R, P>::read_resource, (client, uri, result_tx), out) ==> opens(
                *client,
                *final(client),
                out.id,
                result_tx,
                None,
            ) && exists|params: JsonView| #[trigger]
                sends(out.text@, out.id, "resources/read"@, Some(params)) && asks_for_resource(params, uri@),
{
    assert forall|client: &mut McpClient<R, P>, out: Outgoing| #[trigger]
        call_ensures(McpClient::<R, P>::read_resource, (client, uri, result_tx), out) implies opens(
        *client,
        *final(client),
        out.id,
        result_tx,
        None,
    ) && exists|params: JsonView| #[trigger]
                sends(out.text@, out.id, "resources/read"@, Some(params)) && asks_for_resource(params, uri@) by {
        lemma_opened(*client, *final(client), result_tx, None);
        let params = JsonView::Object(Map::empty().insert("uri"@, JsonView::String(uri@)));
        assert(params->Object_0.dom() =~= set!["uri"@]);
        law_request_text(out.id, "resources/read"@, Some(params));
        assert(sends(out.text@, out.id, "resources/read"@, Some(params)));
    }
}

/// Asking for a prompt sends `prompts/get` with its name and the arguments of the caller, if any,
/// and
/// opens a request.
pub proof fn law_get_prompt_call<R, P>(name: &str, args: Option<Json>, result_tx: R)
    ensures
        forall|client: &mut McpClient<R, P>, out: Outgoing| #[trigger]
            call_ensures(McpClient::<R, P>::get_prompt, (client, name, args, result_tx), out) ==> opens(
                *client,
                *final(client),
                out.id,
                result_tx,
                None,
            ) && exists|params: JsonView| #[trigger]
                sends(out.text@, out.id, "prompts/get"@, Some(params))
                    && asks_for_prompt(params, name@, crate::json::optional_json(args)),
{
    assert forall|client: &mut McpClient<R, P>, out: Outgoing| #[trigger]
        call_ensures(McpClient::<R, P>::get_prompt, (client, name, args, result_tx), out) implies opens(
        *client,
        *final(client),
        out.id,
        result_tx,
        None,
    ) && exists|params: JsonView| #[trigger]
                sends(out.text@, out.id, "prompts/get"@, Some(params))
                    && asks_for_prompt(params, name@, crate::json::optional_json(args)) by {
        lemma_opened(*client, *final(client), result_tx, None);
        let params = prompt_params(name@, crate::json::optional_json(args));
        law_prompt_params(name@, crate::json::optional_json(args));
        law_request_text(out.id, "prompts/get"@, Some(params));
        assert(sends(out.text@, out.id, "prompts/get"@, Some(params)));
    }
}

/// Any request is sent with the method and the parameters of the caller, and opens a request.
pub proof fn law_request_call<R, P>(method: &str, params: Option<Json>, result_tx: R)
    ensures
        forall|client: &mut McpClient<R, P>, out: Outgoing| #[trigger]
            call_ensures(McpClient::<R, P>::request, (client, method, params, result_tx), out) ==> opens(
                *client,
                *final(client),
                out.id,
                result_tx,
                None,
            ) && sends(
                out.text@,
                out.id,
                method@,
                match params {
                    Some(json) => Some(json@),
                    None => None,
                },
            ),
{
    assert forall|client: &mut McpClient<R, P>, out: Outgoing| #[trigger]
        call_ensures(McpClient::<R, P>::request, (client, method, params, result_tx), out) implies opens(
        *client,
        *final(client),
        out.id,
        result_tx,
        None,
    ) && sends(
        out.text@,
        out.id,
        method@,
        match params {
            Some(json) => Some(json@),
            None => None,
        },
    ) by {
        lemma_opened(*client, *final(client), result_tx, None);
        law_request_text(out.id, method@, crate::json::optional_json(params));
    }
}

/// Taking an id gives the next one and opens nothing.
pub proof fn law_next_id<R, P>()
    ensures
        forall|client: &mut McpClient<R, P>, id: u64| #[trigger]
            call_ensures(McpClient::<R, P>::next_id, (client,), id) ==> {
                &&& id == client.next_id
                &&& final(client).next_id as int == if id == 0xffff_ffff_ffff_ffff {
                    0
                } else {
                    id + 1
                }
                &&& final(client).pending@ == client.pending@
                &&& same_capabilities(client.capabilities, final(client).capabilities)
                &&& final(client).closed == client.closed
            },
{
}

/// A connection is opened with the request `initialize` of the id 1.
pub proof fn law_initialize_call<R, P>(text: String)
    requires
        call_ensures(McpClient::<R, P>::initialize, (), text),
    ensures
        exists|params: JsonView| #[trigger] sends(text@, 1, "initialize"@, Some(params)) && introduces_client(params),
{
    law_initialize_params();
    law_request_text(1, "initialize"@, Some(initialize_params()));
    assert(sends(text@, 1, "initialize"@, Some(initialize_params())));
}

/// A cancellable call ends with the answer where a reply came first. Where its token fired first,
/// the request is no longer open, the server is told which request was cancelled, and the caller
/// gets the error that says so. No other request is touched.
pub proof fn law_cancellable_call<R, P>(id: u64, outcome: CallOutcome)
    ensures
        forall|client: &mut McpClient<R, P>, end: CallEnd| #[trigger]
            call_ensures(McpClient::<R, P>::finish_cancellable, (client, id, outcome), end) ==> {
                &&& final(client).next_id == client.next_id
                &&& same_capabilities(client.capabilities, final(client).capabilities)
                &&& final(client).closed == client.closed
                &&& match outcome {
                    CallOutcome::Replied(reply) => final(client).pending@ == client.pending@
                        && end.notification is None
                        && match reply {
                        Some(Ok(json)) => is_answer(json@, end.result),
                        Some(Err(error)) => end.result == Err::<crate::types::ToolResult, Error>(error),
                        None => end.result == Err::<crate::types::ToolResult, Error>(Error::Closed),
                    },
                    CallOutcome::Cancelled => final(client).pending@ == client.pending@.remove(id) && (
                    end.notification matches Some(text) && exists|params: JsonView| #[trigger]
                        notifies(text@, "notifications/cancelled"@, Some(params)) && tells_cancelled(params, id))
                        && end.result == Err::<crate::types::ToolResult, Error>(Error::Cancelled),
                }
            },
{
    assert forall|client: &mut McpClient<R, P>, end: CallEnd| #[trigger]
        call_ensures(McpClient::<R, P>::finish_cancellable, (client, id, outcome), end) implies {
        &&& final(client).next_id == client.next_id
        &&& same_capabilities(client.capabilities, final(client).capabilities)
        &&& final(client).closed == client.closed
        &&& match outcome {
            CallOutcome::Replied(reply) => final(client).pending@ == client.pending@ && end.notification is None
                && match reply {
                Some(Ok(json)) => is_answer(json@, end.result),
                Some(Err(error)) => end.result == Err::<crate::types::ToolResult, Error>(error),
                None => end.result == Err::<crate::types::ToolResult, Error>(Error::Closed),
            },
            CallOutcome::Cancelled => final(client).pending@ == client.pending@.remove(id) && (
            end.notification matches Some(text) && exists|params: JsonView| #[trigger]
                notifies(text@, "notifications/cancelled"@, Some(params)) && tells_cancelled(params, id))
                && end.result == Err::<crate::types::ToolResult, Error>(Error::Cancelled),
        }
    } by {
        assert(final(client)@.next_id == final(client).next_id);
        law_capabilities_view(client.capabilities, final(client).capabilities);
        match outcome {
            CallOutcome::Replied(reply) => {
                if let Some(Ok(json)) = reply {
                    law_answer(json@, end.result);
                }
            },
            CallOutcome::Cancelled => {
                law_cancelled_params(id);
                law_notification_text("notifications/cancelled"@, Some(cancelled_params(id)));
                assert(notifies(end.notification->0@, "notifications/cancelled"@, Some(cancelled_params(id))));
            },
        }
    }
}

} // verus!
