use eleven100p::client::{
    call_tool_result, list_prompts_result, list_resources_result, list_tools_result, request_result, CallOutcome,
    Delivery, HandshakeStep, PendingResponse, Reply, StreamState, StreamStep, ToolStream,
};
use eleven100p::codec::{json_into_value, parse_json, print_json};
use eleven100p::rpc::{parse_incoming, IncomingMessage, IncomingNotification, RpcResponse};
use eleven100p::transport::connect_mock;
use eleven100p::transport::mock::{MockLink, MockRead};
use eleven100p::{ContentBlock, Error, Json, McpClient, ToolEvent};
use serde_json::Value;

type Client = McpClient<&'static str, &'static str>;

fn json(text: &str) -> Json {
    parse_json(text).unwrap()
}

fn recv_json(link: &mut MockLink) -> Value {
    serde_json::from_str(&link.server_recv().expect("client closed")).expect("invalid JSON from client")
}

fn respond(link: &mut MockLink, id: u64, result: &str) {
    assert!(link.server_send(format!(r#"{{"jsonrpc":"2.0","id":{id},"result":{result}}}"#)));
}

fn respond_err(link: &mut MockLink, id: u64, code: i64, message: &str) {
    assert!(link.server_send(format!(
        r#"{{"jsonrpc":"2.0","id":{id},"error":{{"code":{code},"message":"{message}"}}}}"#
    )));
}

fn send_progress(link: &mut MockLink, token: u64, progress: f64, total: f64, message: &str) {
    assert!(link.server_send(format!(
        r#"{{"jsonrpc":"2.0","method":"notifications/progress","params":{{"progressToken":{token},"progress":{progress:?},"total":{total:?},"message":"{message}"}}}}"#
    )));
}

fn send(link: &mut MockLink, text: String) {
    assert!(link.client_send(text).unwrap());
}

fn read(link: &mut MockLink) -> String {
    match link.client_recv() {
        MockRead::Message(text) => text,
        _ => panic!("nothing to read"),
    }
}

fn handshake(link: &mut MockLink) -> Result<Client, Error> {
    loop {
        let step = match link.client_recv() {
            MockRead::Message(text) => Client::handshake(Some(&text)),
            MockRead::Empty => panic!("nothing to read"),
            MockRead::Closed => Client::handshake(None),
        };
        match step {
            HandshakeStep::Waiting => continue,
            HandshakeStep::Failed(error) => return Err(error),
            HandshakeStep::Done { notification, client } => {
                send(link, notification);
                return Ok(client);
            }
        }
    }
}

fn mock_client() -> (Client, MockLink) {
    let mut link = connect_mock();
    send(&mut link, Client::initialize());
    let init = recv_json(&mut link);
    assert_eq!(init["method"], "initialize");
    assert_eq!(init["params"]["protocolVersion"], "2024-11-05");
    assert_eq!(init["params"]["clientInfo"]["name"], "mcp-client");
    respond(
        &mut link,
        init["id"].as_u64().unwrap(),
        r#"{"protocolVersion":"2024-11-05","capabilities":{"tools":{}},"serverInfo":{"name":"mock","version":"0.0.0"}}"#,
    );
    let client = handshake(&mut link).unwrap();
    let notif = recv_json(&mut link);
    assert_eq!(notif["method"], "notifications/initialized");
    (client, link)
}

fn next_reply(client: &mut Client, link: &mut MockLink) -> (PendingResponse<&'static str, &'static str>, Reply) {
    match client.receive(&read(link)) {
        Delivery::Response { to, payload } => (to, Some(payload)),
        _ => panic!("expected a response"),
    }
}

#[test]
fn test_handshake_capabilities_parsed() {
    let mut link = connect_mock();
    send(&mut link, Client::initialize());
    let init = recv_json(&mut link);
    respond(
        &mut link,
        init["id"].as_u64().unwrap(),
        r#"{"protocolVersion":"2024-11-05","capabilities":{"tools":{},"resources":{}},"serverInfo":{"name":"cap-test","version":"1.0.0"}}"#,
    );
    let client = handshake(&mut link).unwrap();
    let _ = recv_json(&mut link);
    assert!(client.capabilities.tools.is_some());
    assert!(client.capabilities.resources.is_some());
    assert!(client.capabilities.prompts.is_none());
}

#[test]
fn test_handshake_server_error_propagates() {
    let mut link = connect_mock();
    send(&mut link, Client::initialize());
    let init = recv_json(&mut link);
    respond_err(&mut link, init["id"].as_u64().unwrap(), -32600, "bad version");
    let err = handshake(&mut link).err().unwrap();
    assert!(matches!(err, Error::Rpc { code: -32600, message } if message == "bad version"));
}

#[test]
fn handshake_waits_for_its_answer() {
    let mut link = connect_mock();
    assert!(link.server_send(r#"{"method":"notifications/message"}"#.to_owned()));
    respond(&mut link, 7, "{}");
    respond(&mut link, 1, "null");
    let client = handshake(&mut link).unwrap();
    assert!(client.capabilities.tools.is_none());
    assert_eq!(client.next_id, 2);
    assert!(client.pending.is_empty());
}

#[test]
fn handshake_failures() {
    assert!(matches!(Client::handshake(None), HandshakeStep::Failed(Error::Closed)));
    assert!(matches!(Client::handshake(Some("nonsense")), HandshakeStep::Failed(Error::Json(_))));
    assert!(matches!(Client::handshake(Some("{}")), HandshakeStep::Failed(Error::Protocol(_))));
    let mut link = connect_mock();
    link.server_close();
    assert!(matches!(handshake(&mut link), Err(Error::Closed)));
    assert!(matches!(link.client_send("x".to_owned()), Err(Error::Closed)));
}

#[test]
fn odd_capabilities_count_as_none() {
    for result in [r#"{"capabilities":5}"#, r#"{"capabilities":[1]}"#, r#""text""#, "{}"] {
        let mut link = connect_mock();
        respond(&mut link, 1, result);
        assert!(handshake(&mut link).unwrap().capabilities.tools.is_none());
    }
    let message = IncomingMessage::Response(RpcResponse {
        id: 1,
        result: Some(json(r#"{"capabilities":{"prompts":{"listChanged":true}}}"#)),
        error: None,
    });
    match Client::handshake_message(message) {
        HandshakeStep::Done { client, .. } => assert!(client.capabilities.prompts.is_some()),
        _ => panic!("expected the end of the handshake"),
    }
}

#[test]
fn the_opening_request_as_text() {
    assert_eq!(
        Client::initialize(),
        r#"{"jsonrpc":"2.0","id":1,"method":"initialize","params":{"capabilities":{},"clientInfo":{"name":"mcp-client","version":"0.1.0"},"protocolVersion":"2024-11-05"}}"#
    );
}

#[test]
fn test_list_tools_returns_all_tools() {
    let (mut client, mut link) = mock_client();
    send(&mut link, client.list_tools("caller").text);
    let req = recv_json(&mut link);
    assert_eq!(req["method"], "tools/list");
    respond(
        &mut link,
        req["id"].as_u64().unwrap(),
        r#"{"tools":[{"name":"echo","inputSchema":{"type":"object"}},{"name":"search","inputSchema":{"type":"object"}}]}"#,
    );
    let (to, reply) = next_reply(&mut client, &mut link);
    assert_eq!(to.result_tx, "caller");
    let tools = list_tools_result(reply).unwrap();
    assert_eq!(tools.len(), 2);
    assert_eq!(tools[0].name, "echo");
    assert_eq!(tools[1].name, "search");
}

#[test]
fn test_list_tools_empty_server() {
    let (mut client, mut link) = mock_client();
    send(&mut link, client.list_tools("caller").text);
    let req = recv_json(&mut link);
    respond(&mut link, req["id"].as_u64().unwrap(), r#"{ "tools": [] }"#);
    let (_, reply) = next_reply(&mut client, &mut link);
    assert!(list_tools_result(reply).unwrap().is_empty());
}

#[test]
fn lists_in_replies() {
    assert!(list_tools_result(Some(Ok(json("{}")))).unwrap().is_empty());
    assert!(list_resources_result(Some(Ok(json("null")))).unwrap().is_empty());
    assert_eq!(list_prompts_result(Some(Ok(json(r#"{"prompts":[{"name":"p"}]}"#)))).unwrap()[0].name, "p");
    assert!(matches!(list_prompts_result(Some(Ok(json(r#"{"prompts":null}"#)))), Err(Error::Json(_))));
    assert!(matches!(list_resources_result(None), Err(Error::Closed)));
    assert!(matches!(
        list_tools_result(Some(Err(Error::Rpc { code: 1, message: "m".to_owned() }))),
        Err(Error::Rpc { code: 1, message }) if message == "m"
    ));
}

#[test]
fn test_call_tool_success() {
    let (mut client, mut link) = mock_client();
    send(&mut link, client.call_tool("echo", json(r#"{ "text": "hello" }"#), "caller").text);
    let req = recv_json(&mut link);
    assert_eq!(req["method"], "tools/call");
    assert_eq!(req["params"]["name"], "echo");
    assert_eq!(req["params"]["arguments"]["text"], "hello");
    respond(
        &mut link,
        req["id"].as_u64().unwrap(),
        r#"{"content":[{"type":"text","text":"hello back"}],"isError":false}"#,
    );
    let (_, reply) = next_reply(&mut client, &mut link);
    let result = call_tool_result(reply).unwrap();
    assert!(!result.is_error);
    assert_eq!(result.content.len(), 1);
    if let ContentBlock::Text { text } = &result.content[0] {
        assert_eq!(text, "hello back");
    } else {
        panic!("expected text block");
    }
}

#[test]
fn test_call_tool_is_error_flag() {
    let (mut client, mut link) = mock_client();
    send(&mut link, client.call_tool("bad_tool", json("{}"), "caller").text);
    let req = recv_json(&mut link);
    respond(
        &mut link,
        req["id"].as_u64().unwrap(),
        r#"{"content":[{"type":"text","text":"tool failed"}],"isError":true}"#,
    );
    let (_, reply) = next_reply(&mut client, &mut link);
    assert!(call_tool_result(reply).unwrap().is_error);
}

#[test]
fn test_call_tool_rpc_error_becomes_err() {
    let (mut client, mut link) = mock_client();
    send(&mut link, client.call_tool("missing", json("{}"), "caller").text);
    let req = recv_json(&mut link);
    respond_err(&mut link, req["id"].as_u64().unwrap(), -32000, "tool not found");
    let (_, reply) = next_reply(&mut client, &mut link);
    let err = call_tool_result(reply).unwrap_err();
    assert!(matches!(err, Error::Rpc { code: -32000, .. }));
}

#[test]
fn test_concurrent_requests_routed_by_id() {
    let (mut client, mut link) = mock_client();
    send(&mut link, client.call_tool("tool_a", json("{}"), "a").text);
    send(&mut link, client.call_tool("tool_b", json("{}"), "b").text);
    let r1 = recv_json(&mut link);
    let r2 = recv_json(&mut link);
    let id1 = r1["id"].as_u64().unwrap();
    let id2 = r2["id"].as_u64().unwrap();
    assert_ne!(id1, id2);
    assert_eq!(r1["params"]["name"], "tool_a");
    respond(&mut link, id2, r#"{"content":[{"type":"text","text":"b"}],"isError":false}"#);
    respond(&mut link, id1, r#"{"content":[{"type":"text","text":"a"}],"isError":false}"#);
    for expected in ["b", "a"] {
        let (to, reply) = next_reply(&mut client, &mut link);
        assert_eq!(to.result_tx, expected);
        let result = call_tool_result(reply).unwrap();
        assert!(matches!(&result.content[0], ContentBlock::Text { text } if text == expected));
    }
    assert!(client.pending.is_empty());
}

fn poll(stream: &mut ToolStream, reports: &mut Vec<eleven100p::ProgressUpdate>, reply: &mut Option<Reply>) -> Option<Result<ToolEvent, Error>> {
    loop {
        let progress = if reports.is_empty() { None } else { Some(reports.remove(0)) };
        match stream.poll_next(progress) {
            StreamStep::Yield(event) => return Some(event),
            StreamStep::End => return None,
            StreamStep::AwaitReply => stream.reply(reply.take().expect("no reply yet")),
        }
    }
}

#[test]
fn test_progress_events_delivered_before_result() {
    let (mut client, mut link) = mock_client();
    let out = client.call_tool_streaming("slow", json("{}"), "caller", "reports");
    send(&mut link, out.text);
    let req = recv_json(&mut link);
    let id = req["id"].as_u64().unwrap();
    assert_eq!(id, out.id);
    assert_eq!(req["params"]["_meta"]["progressToken"], id);
    send_progress(&mut link, id, 25.0, 100.0, "quarter done");
    send_progress(&mut link, id, 75.0, 100.0, "three quarters");
    respond(&mut link, id, r#"{"content":[{"type":"text","text":"done"}],"isError":false}"#);

    let mut reports = Vec::new();
    let mut reply = None;
    for _ in 0..3 {
        match client.receive(&read(&mut link)) {
            Delivery::Progress { token, update } => {
                assert_eq!(client.progress_sender(token), Some(&"reports"));
                reports.push(update);
            }
            Delivery::Response { to, payload } => {
                assert_eq!(to.result_tx, "caller");
                reply = Some(Some(payload));
            }
            Delivery::Nothing => panic!("expected a delivery"),
        }
    }

    let mut stream = ToolStream::new();
    let mut progress = Vec::new();
    let mut got_result = false;
    while let Some(event) = poll(&mut stream, &mut reports, &mut reply) {
        match event.unwrap() {
            ToolEvent::Progress(p) => {
                assert!(!got_result);
                assert_eq!(p.total.map(|d| f64::from_bits(d.bits)), Some(100.0));
                progress.push((f64::from_bits(p.progress.bits), p.message.unwrap()));
            }
            ToolEvent::Result(r) => {
                got_result = true;
                assert!(!r.is_error);
            }
        }
    }
    assert_eq!(progress.len(), 2);
    assert_eq!(progress, vec![(25.0, "quarter done".to_owned()), (75.0, "three quarters".to_owned())]);
    assert!(got_result);
}

#[test]
fn the_last_event_closes_the_stream() {
    let report = || eleven100p::ProgressUpdate::from_params(&json(r#"{"progress":1}"#));
    for (reply, closes) in [
        (Some(Ok(json("{}"))), "result"),
        (Some(Ok(json(r#"{"content":1}"#))), "json"),
        (Some(Err(Error::Rpc { code: 4, message: String::new() })), "rpc"),
        (None, "closed"),
    ] {
        let mut stream = ToolStream::new();
        assert!(matches!(stream.poll_next(None), StreamStep::AwaitReply));
        stream.reply(reply);
        assert!(matches!(stream.state, StreamState::Ending(_)));
        assert!(matches!(stream.poll_next(Some(report())), StreamStep::Yield(Ok(ToolEvent::Progress(_)))));
        let last = match stream.poll_next(None) {
            StreamStep::Yield(Ok(ToolEvent::Result(_))) => "result",
            StreamStep::Yield(Err(Error::Json(_))) => "json",
            StreamStep::Yield(Err(Error::Rpc { code: 4, .. })) => "rpc",
            StreamStep::Yield(Err(Error::Closed)) => "closed",
            _ => "other",
        };
        assert_eq!(last, closes);
        assert!(matches!(stream.poll_next(Some(report())), StreamStep::End));
        stream.reply(None);
        assert!(matches!(stream.poll_next(None), StreamStep::End));
    }
}

#[test]
fn test_cancellation_returns_cancelled_error() {
    let (mut client, mut link) = mock_client();
    let out = client.call_tool_cancellable("slow", json("{}"), "caller");
    send(&mut link, out.text);
    let _req = recv_json(&mut link);
    let end = client.finish_cancellable(out.id, CallOutcome::Cancelled);
    assert!(matches!(end.result.unwrap_err(), Error::Cancelled));
    send(&mut link, end.notification.unwrap());
    let notif = recv_json(&mut link);
    assert_eq!(notif["method"], "notifications/cancelled");
    assert_eq!(notif["params"]["requestId"], out.id);
    assert_eq!(notif["params"]["reason"], "client cancelled");

    respond(&mut link, out.id, "{}");
    assert!(matches!(client.receive(&read(&mut link)), Delivery::Nothing));
    assert!(client.pending.is_empty());
}

#[test]
fn test_cancellation_after_result_returns_result() {
    let (mut client, mut link) = mock_client();
    let out = client.call_tool_cancellable("fast", json("{}"), "caller");
    send(&mut link, out.text);
    let req = recv_json(&mut link);
    respond(
        &mut link,
        req["id"].as_u64().unwrap(),
        r#"{"content":[{"type":"text","text":"fast"}],"isError":false}"#,
    );
    let (_, reply) = next_reply(&mut client, &mut link);
    let end = client.finish_cancellable(out.id, CallOutcome::Replied(reply));
    assert!(end.notification.is_none());
    assert!(!end.result.unwrap().is_error);
}

#[test]
fn test_raw_request_roundtrip() {
    let (mut client, mut link) = mock_client();
    send(&mut link, client.request("custom/method", Some(json(r#"{ "x": 1 }"#)), "caller").text);
    let req = recv_json(&mut link);
    assert_eq!(req["method"], "custom/method");
    assert_eq!(req["params"]["x"], 1);
    respond(&mut link, req["id"].as_u64().unwrap(), r#"{ "ok": true }"#);
    let (_, reply) = next_reply(&mut client, &mut link);
    let result = json_into_value(request_result(reply).unwrap());
    assert_eq!(result["ok"], true);
    assert!(matches!(request_result(None), Err(Error::Closed)));
}

#[test]
fn the_other_requests() {
    let (mut client, _) = mock_client();
    let texts = [
        client.list_resources("c").text,
        client.read_resource("file:///x", "c").text,
        client.list_prompts("c").text,
        client.get_prompt("p", None, "c").text,
        client.get_prompt("p", Some(json(r#"{"length":"short"}"#)), "c").text,
    ];
    assert_eq!(texts[0], r#"{"jsonrpc":"2.0","id":2,"method":"resources/list"}"#);
    assert_eq!(texts[1], r#"{"jsonrpc":"2.0","id":3,"method":"resources/read","params":{"uri":"file:///x"}}"#);
    assert_eq!(texts[2], r#"{"jsonrpc":"2.0","id":4,"method":"prompts/list"}"#);
    assert_eq!(texts[3], r#"{"jsonrpc":"2.0","id":5,"method":"prompts/get","params":{"name":"p"}}"#);
    assert_eq!(
        texts[4],
        r#"{"jsonrpc":"2.0","id":6,"method":"prompts/get","params":{"arguments":{"length":"short"},"name":"p"}}"#
    );
    assert_eq!(client.pending.len(), 5);
}

#[test]
fn ids_start_again_after_the_largest() {
    let (mut client, _) = mock_client();
    client.next_id = u64::MAX;
    assert_eq!(client.list_tools("a").id, u64::MAX);
    assert_eq!(client.list_tools("b").id, 0);
    assert_eq!(client.list_tools("c").id, 1);
}

#[test]
fn a_request_is_answered_once() {
    let (mut client, _) = mock_client();
    let out = client.request("m", None, "caller");
    let raw = format!(r#"{{"id":{},"result":null}}"#, out.id);
    match client.receive(&raw) {
        Delivery::Response { to, payload } => {
            assert_eq!(to.result_tx, "caller");
            assert_eq!(print_json(payload.unwrap()), "null");
        }
        _ => panic!("expected a response"),
    }
    assert!(matches!(client.receive(&raw), Delivery::Nothing));
}

#[test]
fn what_is_passed_over() {
    let (mut client, _) = mock_client();
    let plain = client.call_tool("t", json("{}"), "plain").id;
    let streaming = client.call_tool_streaming("t", json("{}"), "streaming", "reports").id;
    let progress = |token: &str| format!(r#"{{"method":"notifications/progress","params":{{"progressToken":{token}}}}}"#);
    for raw in [
        "not json".to_owned(),
        "{}".to_owned(),
        r#"{"method":"notifications/progress"}"#.to_owned(),
        r#"{"method":"notifications/progress","params":{"progress":1}}"#.to_owned(),
        format!(r#"{{"method":"notifications/other","params":{{"progressToken":{streaming}}}}}"#),
        progress(&plain.to_string()),
        progress("99"),
        progress("-1"),
        progress("\"2\""),
        r#"{"id":99,"result":{}}"#.to_owned(),
    ] {
        assert!(matches!(client.receive(&raw), Delivery::Nothing), "{raw}");
    }
    assert_eq!(client.pending.len(), 2);
    assert!(client.progress_sender(plain).is_none());
    assert!(client.progress_sender(99).is_none());
    match client.receive(&progress(&streaming.to_string())) {
        Delivery::Progress { token, update } => {
            assert_eq!(token, streaming);
            assert_eq!(update.progress.bits, 0);
        }
        _ => panic!("expected a report"),
    }
    let message = IncomingMessage::Notification(IncomingNotification {
        method: "notifications/progress".to_owned(),
        params: Some(json(&format!(r#"{{"progressToken":{streaming},"progress":0.5}}"#))),
    });
    assert!(matches!(
        client.receive_message(message),
        Delivery::Progress { update, .. } if update.progress.bits == 0.5f64.to_bits()
    ));
}

#[test]
fn an_error_wins_over_a_result() {
    let (mut client, _) = mock_client();
    let id = client.request("m", None, "caller").id;
    let raw = format!(r#"{{"id":{id},"result":{{}},"error":{{"code":3,"message":"e"}}}}"#);
    assert!(parse_incoming(&raw).is_ok());
    match client.receive(&raw) {
        Delivery::Response { payload: Err(Error::Rpc { code, message }), .. } => {
            assert_eq!((code, message.as_str()), (3, "e"));
        }
        _ => panic!("expected the error"),
    }
}

#[test]
fn a_mock_link_keeps_the_order() {
    let mut link = connect_mock();
    for i in 0..64 {
        assert!(link.client_send(i.to_string()).unwrap());
        assert!(link.server_send(i.to_string()));
    }
    assert!(!link.client_send("full".to_owned()).unwrap());
    assert!(!link.server_send("full".to_owned()));
    for i in 0..64 {
        assert_eq!(link.server_recv(), Some(i.to_string()));
    }
    assert_eq!(link.server_recv(), None);
    assert!(link.client_send("unread".to_owned()).unwrap());
    link.server_close();
    assert_eq!(link.server_recv(), None);
    assert!(!link.server_send("late".to_owned()));
    assert!(matches!(link.client_send("late".to_owned()), Err(Error::Closed)));
    for i in 0..64 {
        assert_eq!(read(&mut link), i.to_string());
    }
    assert!(!link.server_send("late".to_owned()));
    assert!(matches!(link.client_recv(), MockRead::Closed));
}

#[test]
fn a_new_id_is_that_of_no_open_request() {
    let (mut client, mut link) = mock_client();
    let first = client.list_tools("first").id;
    let second = client.list_prompts("second").id;
    let third = client.call_tool_cancellable("slow", Json::Null, "third").id;
    assert_eq!((first, second, third), (2, 3, 4));
    client.finish_cancellable(third, CallOutcome::Cancelled);
    respond(&mut link, first, "{}");
    assert_eq!(next_reply(&mut client, &mut link).0.result_tx, "first");
    assert!(!client.pending.contains_key(&client.next_id));
    let fourth = client.list_resources("fourth").id;
    assert_eq!(fourth, 5);
    assert_eq!(client.pending[&second].result_tx, "second");
    assert_eq!(client.pending[&fourth].result_tx, "fourth");
}

#[test]
fn a_result_with_floating_point_numbers_reaches_its_caller() {
    let (mut client, mut link) = mock_client();
    let id = client.request("measure", None, "caller").id;
    respond(&mut link, id, r#"{"celsius":36.5}"#);
    let (to, reply) = next_reply(&mut client, &mut link);
    assert_eq!(to.result_tx, "caller");
    assert_eq!(json_into_value(request_result(reply).unwrap())["celsius"], 36.5);
}

#[test]
fn a_text_that_is_no_json_fails_the_handshake_with_the_message_of_the_reader() {
    let message = serde_json::from_str::<Value>("{not json}").unwrap_err().to_string();
    match Client::handshake(Some("{not json}")) {
        HandshakeStep::Failed(Error::Json(own)) => assert_eq!(own, message),
        _ => panic!("expected a JSON error"),
    }
}

#[test]
fn callers_that_wait_when_the_connection_ends_are_told() {
    let (mut client, mut link) = mock_client();
    let answered = client.list_tools("answered").id;
    let waiting = client.request("measure", None, "waiting").id;
    let streaming = client.call_tool_streaming("slow", Json::Null, "streaming", "reports").id;
    respond(&mut link, answered, "{}");
    assert_eq!(next_reply(&mut client, &mut link).0.result_tx, "answered");
    link.server_close();
    assert!(matches!(link.client_recv(), MockRead::Closed));
    let mut told = client.close();
    told.sort_by_key(|entry| entry.0);
    assert_eq!(told.iter().map(|entry| entry.0).collect::<Vec<_>>(), [waiting, streaming]);
    let mut names = Vec::new();
    for (_, delivery) in told {
        match delivery {
            Delivery::Response { to, payload } => {
                names.push(to.result_tx);
                assert!(matches!(payload, Err(Error::Closed)));
                assert!(matches!(request_result(Some(payload)), Err(Error::Closed)));
            }
            _ => panic!("expected a response"),
        }
    }
    assert_eq!(names, ["waiting", "streaming"]);
    assert!(client.closed && client.pending.is_empty());
    let late = format!(r#"{{"jsonrpc":"2.0","id":{waiting},"result":{{}}}}"#);
    assert!(matches!(client.receive(&late), Delivery::Nothing));
    assert!(client.close().is_empty());
}

#[test]
fn a_stream_ends_with_the_end_of_the_connection() {
    let mut stream = ToolStream::new();
    assert!(matches!(stream.poll_next(None), StreamStep::AwaitReply));
    stream.reply(Some(Err(Error::Closed)));
    assert!(matches!(stream.poll_next(None), StreamStep::Yield(Err(Error::Closed))));
    assert!(matches!(stream.poll_next(None), StreamStep::End));
}

#[test]
fn a_request_on_a_connection_that_has_ended_is_told_at_once() {
    let (mut client, _link) = mock_client();
    let early = client.list_tools("early").id;
    assert!(matches!(client.settle(early), Delivery::Nothing));
    assert!(client.pending.contains_key(&early));
    assert_eq!(client.close().len(), 1);
    let late = client.list_tools("late").id;
    match client.settle(late) {
        Delivery::Response { to, payload } => {
            assert_eq!(to.result_tx, "late");
            assert!(matches!(payload, Err(Error::Closed)));
        }
        _ => panic!("expected a response"),
    }
    assert!(client.pending.is_empty());
    assert!(matches!(client.settle(late), Delivery::Nothing));
}

#[test]
fn the_ids_of_a_connection_are_in_a_row() {
    let (mut client, mut link) = mock_client();
    assert_eq!(client.list_tools("a").id, 2);
    assert_eq!(client.request("x", None, "b").id, 3);
    client.finish_cancellable(3, CallOutcome::Cancelled);
    respond(&mut link, 2, "null");
    next_reply(&mut client, &mut link);
    assert_eq!(client.get_prompt("p", None, "c").id, 4);
    client.close();
    assert_eq!(client.list_prompts("d").id, 5);
}

#[test]
fn a_report_carries_the_very_doubles_of_its_message() {
    let (mut client, mut link) = mock_client();
    let id = client.call_tool_streaming("slow", Json::Null, "caller", "reports").id;
    send_progress(&mut link, id, 0.1, 2.5e-300, "x");
    match client.receive(&read(&mut link)) {
        Delivery::Progress { token, update } => {
            assert_eq!(token, id);
            assert_eq!(update.progress.bits, 0.1f64.to_bits());
            assert_eq!(update.total.unwrap().bits, 2.5e-300f64.to_bits());
        }
        _ => panic!("expected a report"),
    }
}

#[test]
fn what_is_wrong_with_a_list() {
    let result = list_tools_result(Some(Ok(json(r#"{"tools":[{"name":"a","inputSchema":1},{"name":"b"},5]}"#))));
    assert!(matches!(result, Err(Error::Json(message)) if message == "missing field `inputSchema`"));
    let result = list_resources_result(Some(Ok(json(r#"{"resources":true}"#))));
    assert!(matches!(result, Err(Error::Json(message)) if message == "invalid type: boolean `true`, expected a sequence"));
    let result = list_prompts_result(Some(Ok(json(r#"{"prompts":[7]}"#))));
    assert!(matches!(result, Err(Error::Json(message)) if message == "invalid type: integer `7`, expected struct Prompt"));
}

#[test]
fn reports_come_out_in_order_and_none_is_lost() {
    let (mut client, mut link) = mock_client();
    let other = client.call_tool_streaming("other", Json::Null, "other", "its reports").id;
    let id = client.call_tool_streaming("slow", Json::Null, "caller", "reports").id;
    for i in 0..40 {
        send_progress(&mut link, id, f64::from(i), 40.0, "x");
        if i % 20 == 0 {
            send_progress(&mut link, other, 1000.0, 40.0, "y");
        }
    }
    respond(&mut link, id, "{}");
    let mut reports = Vec::new();
    let reply = loop {
        match client.receive(&read(&mut link)) {
            Delivery::Progress { token, update } if token == id => reports.push(update),
            Delivery::Progress { token, .. } => assert_eq!(token, other),
            Delivery::Response { to, payload } => {
                assert_eq!(to.result_tx, "caller");
                break payload;
            }
            Delivery::Nothing => panic!("nothing delivered"),
        }
    };
    let mut reply = Some(Some(reply));
    let mut stream = ToolStream::new();
    for i in 0..40 {
        match poll(&mut stream, &mut reports, &mut reply) {
            Some(Ok(ToolEvent::Progress(update))) => assert_eq!(update.progress.bits, f64::from(i).to_bits()),
            _ => panic!("expected a report"),
        }
    }
    assert!(matches!(poll(&mut stream, &mut reports, &mut reply), Some(Ok(ToolEvent::Result(_)))));
    assert!(poll(&mut stream, &mut reports, &mut reply).is_none());
}

#[test]
fn ids_that_are_taken_are_in_the_same_row() {
    let (mut client, _link) = mock_client();
    assert_eq!(client.next_id(), 2);
    assert_eq!(client.list_tools("a").id, 3);
    assert_eq!(client.next_id(), 4);
}
