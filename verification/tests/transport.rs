use eleven100p::client::{call_tool_result, list_tools_result, request_result, Delivery, HandshakeStep, Reply};
use eleven100p::codec::parse_json;
use eleven100p::text::{host_part, is_whitespace, starts_with, strip_prefix, trim, trim_line};
use eleven100p::transport::http::{base_url, HttpReceiver, HttpSender, HttpTransport, SseEvent, SseReader};
use eleven100p::transport::stdio::{StdioReceiver, StdioSender, StdioTransport};
use eleven100p::{ContentBlock, Error, Json, McpClient};
use serde_json::Value;

type Client = McpClient<u32, ()>;

fn json(text: &str) -> Json {
    parse_json(text).unwrap()
}

/// The texts of events, an endpoint with a mark before it.
fn texts(events: Vec<SseEvent>) -> Vec<String> {
    events
        .into_iter()
        .map(|event| match event {
            SseEvent::Endpoint(url) => format!("@{url}"),
            SseEvent::Message(text) => text,
        })
        .collect()
}

/// A server that answers posted requests with events on a stream.
struct Server {
    stream: SseReader,
    sender: HttpSender,
}

impl Server {
    fn start() -> Server {
        let mut stream = SseReader::new();
        let mut events = stream.feed(b"event: endpoint\ndata: /messages\n\n");
        assert_eq!(events.len(), 1);
        let endpoint = match events.remove(0) {
            SseEvent::Endpoint(url) => url,
            SseEvent::Message(_) => panic!("expected the endpoint"),
        };
        let sender = HttpTransport::connect("http://127.0.0.1:4000/sse", Some(endpoint)).unwrap();
        assert_eq!(sender.target().unwrap(), "http://127.0.0.1:4000/messages");
        Server { stream, sender }
    }

    fn post(&mut self, text: &str) -> Vec<String> {
        assert!(HttpSender::posted(&self.sender.target().unwrap(), 200, "200 OK").is_ok());
        let req: Value = serde_json::from_str(text).unwrap();
        let id = match req.get("id").and_then(|v| v.as_u64()) {
            Some(id) => id,
            None => return Vec::new(),
        };
        let response = match req["method"].as_str().unwrap_or("") {
            "initialize" => format!(
                r#"{{"jsonrpc":"2.0","id":{id},"result":{{"protocolVersion":"2024-11-05","capabilities":{{"tools":{{}},"resources":{{}}}},"serverInfo":{{"name":"axum-test","version":"0.0.1"}}}}}}"#
            ),
            "tools/list" => format!(
                r#"{{"jsonrpc":"2.0","id":{id},"result":{{"tools":[{{"name":"greet","description":"says hello","inputSchema":{{"type":"object","properties":{{"name":{{"type":"string"}}}}}}}}]}}}}"#
            ),
            "tools/call" => format!(
                r#"{{"jsonrpc":"2.0","id":{id},"result":{{"content":[{{"type":"text","text":"called {}"}}],"isError":false}}}}"#,
                req["params"]["name"].as_str().unwrap_or("")
            ),
            _ => format!(r#"{{"jsonrpc":"2.0","id":{id},"error":{{"code":-32601,"message":"method not found"}}}}"#),
        };
        texts(self.stream.feed(format!("event: message\ndata: {response}\n\n").as_bytes()))
    }

    fn client(&mut self) -> Client {
        let text = self.post(&Client::initialize()).remove(0);
        match Client::handshake(Some(&text)) {
            HandshakeStep::Done { notification, client } => {
                assert!(self.post(&notification).is_empty());
                client
            }
            _ => panic!("expected a connection"),
        }
    }
}

fn reply(client: &mut Client, text: &str) -> (u32, Reply) {
    match client.receive(text) {
        Delivery::Response { to, payload } => (to.result_tx, Some(payload)),
        _ => panic!("expected a response"),
    }
}

#[test]
fn test_http_connect_and_list_tools() {
    let mut server = Server::start();
    let mut client = server.client();
    let text = server.post(&client.list_tools(0).text).remove(0);
    let tools = list_tools_result(reply(&mut client, &text).1).unwrap();
    assert_eq!(tools.len(), 1);
    assert_eq!(tools[0].name, "greet");
    assert_eq!(tools[0].description.as_deref(), Some("says hello"));
}

#[test]
fn test_http_call_tool_roundtrip() {
    let mut server = Server::start();
    let mut client = server.client();
    let text = server.post(&client.call_tool("greet", json(r#"{ "name": "world" }"#), 0).text).remove(0);
    let result = call_tool_result(reply(&mut client, &text).1).unwrap();
    assert!(!result.is_error);
    assert_eq!(result.content.len(), 1);
    if let ContentBlock::Text { text } = &result.content[0] {
        assert_eq!(text, "called greet");
    } else {
        panic!("expected text block");
    }
}

#[test]
fn test_http_capabilities_parsed() {
    let mut server = Server::start();
    let client = server.client();
    assert!(client.capabilities.tools.is_some());
    assert!(client.capabilities.resources.is_some());
}

#[test]
fn test_http_unknown_method_returns_rpc_error() {
    let mut server = Server::start();
    let mut client = server.client();
    let text = server.post(&client.request("unknown/method", None, 0).text).remove(0);
    let err = request_result(reply(&mut client, &text).1).unwrap_err();
    assert!(matches!(err, Error::Rpc { code: -32601, .. }));
}

#[test]
fn test_http_concurrent_requests() {
    let mut server = Server::start();
    let mut client = server.client();
    let first = client.list_tools(1).text;
    let second = client.call_tool("greet", json("{}"), 2).text;
    let answer_to_second = server.post(&second).remove(0);
    let answer_to_first = server.post(&first).remove(0);
    let (to, result) = reply(&mut client, &answer_to_second);
    assert_eq!(to, 2);
    assert!(call_tool_result(result).is_ok());
    let (to, tools) = reply(&mut client, &answer_to_first);
    assert_eq!(to, 1);
    assert!(list_tools_result(tools).is_ok());
}

#[test]
fn base_of_a_url() {
    assert_eq!(base_url("http://localhost:3000/sse"), "http://localhost:3000");
    assert_eq!(base_url("https://h/a/b?c=/d"), "https://h");
    assert_eq!(base_url("http://h"), "http://h");
    assert_eq!(base_url("http:///x"), "http://");
    assert_eq!(base_url("ftp://h/x"), "ftp://h/x");
    assert_eq!(base_url("HTTP://h/x"), "HTTP://h/x");
    assert_eq!(base_url(""), "");
    assert_eq!(base_url("http://example.com?x=1"), "http://example.com");
    assert_eq!(base_url("https://example.com:8080#top"), "https://example.com:8080");
    assert_eq!(base_url("https://h#a?b/c"), "https://h");
    for url in ["http://h/p/q", "https://h:1/p", "other/x", "http://h?x=1", "https://h#top"] {
        assert_eq!(base_url(&base_url(url)), base_url(url));
        assert!(url.starts_with(&base_url(url)));
    }
}

#[test]
fn where_requests_go() {
    let sender = |endpoint: Option<&str>| HttpSender {
        endpoint: endpoint.map(|e| e.to_owned()),
        base_url: "http://h:1".to_owned(),
    };
    assert_eq!(sender(Some("/messages?sessionId=1")).target().unwrap(), "http://h:1/messages?sessionId=1");
    assert_eq!(sender(Some("https://other/m")).target().unwrap(), "https://other/m");
    assert_eq!(sender(Some("httpx")).target().unwrap(), "httpx");
    assert!(matches!(sender(None).target(), Err(Error::NotInitialized)));
    assert!(matches!(
        HttpTransport::connect("http://h/sse", None),
        Err(Error::Protocol(message)) if message == "SSE connection closed before endpoint event"
    ));
}

#[test]
fn which_statuses_are_taken() {
    for code in [200, 202, 299] {
        assert!(HttpSender::posted("u", code, "s").is_ok());
        assert!(HttpReceiver::opened("u", code, "s").is_ok());
    }
    for code in [100, 199, 300, 404, 500] {
        assert!(HttpSender::posted("u", code, "s").is_err());
    }
    assert!(matches!(
        HttpSender::posted("http://h/m", 404, "404 Not Found"),
        Err(Error::Protocol(message)) if message == "POST http://h/m returned 404 Not Found"
    ));
    assert!(matches!(
        HttpReceiver::opened("http://h/sse", 500, "500 Internal Server Error"),
        Err(Error::Protocol(message)) if message == "SSE GET http://h/sse returned 500 Internal Server Error"
    ));
}

#[test]
fn what_a_receiver_returns() {
    assert!(matches!(HttpReceiver::recv::<Error>(Some(Ok("m".to_owned()))), Ok(Some(m)) if m == "m"));
    assert!(matches!(HttpReceiver::recv::<Error>(Some(Err(Error::Closed))), Err(Error::Closed)));
    assert!(matches!(HttpReceiver::recv::<Error>(None), Ok(None)));
}

#[test]
fn events_of_a_stream() {
    let mut reader = SseReader::new();
    let stream = "data: first\n\
                  \n\
                  event: endpoint\r\n\
                  data:  /messages?sessionId=1 \r\n\
                  data: /second\n\
                  \n\
                  : a comment\n\
                  id: 5\n\
                  event:message\n\
                  data:{\"a\": 1}\n\
                  data: \u{a0}more\u{3000}\n\
                  event: other\n\
                  data: unseen\n\
                  \r\n\
                  data\n\
                  data:\n\
                  data: last";
    assert_eq!(
        texts(reader.feed(stream.as_bytes())),
        vec!["first", "@/messages?sessionId=1", "{\"a\": 1}", "more", ""]
    );
    assert_eq!(texts(reader.feed(b" words\n")), vec!["last words"]);
}

#[test]
fn chunks_make_no_difference() {
    let stream = "event: endpoint\ndata: /m\n\ndata: gr\u{fc}\u{df}e \u{1f600}\n\nevent: x\ndata: no\n\ndata: yes\n".as_bytes();
    let whole = texts(SseReader::new().feed(stream));
    assert_eq!(whole, vec!["@/m", "gr\u{fc}\u{df}e \u{1f600}", "yes"]);
    for size in 1..stream.len() {
        let mut reader = SseReader::new();
        let mut pieces = Vec::new();
        for chunk in stream.chunks(size) {
            pieces.extend(texts(reader.feed(chunk)));
        }
        assert_eq!(pieces, whole);
    }
}

#[test]
fn bytes_that_are_no_text() {
    let mut reader = SseReader::new();
    assert_eq!(texts(reader.feed(b"data: a\xffb\n")), vec!["a\u{fffd}b"]);
    assert_eq!(texts(reader.feed(b"data: \xf0\x9f\n")), vec!["\u{fffd}"]);
}

#[test]
fn lines_of_a_process() {
    assert_eq!(StdioSender::send("{}"), "{}\n");
    assert_eq!(StdioReceiver::recv("{}\n"), Some("{}".to_owned()));
    assert_eq!(StdioReceiver::recv("{}\r\n"), Some("{}".to_owned()));
    assert_eq!(StdioReceiver::recv("{}\r"), Some("{}\r".to_owned()));
    assert_eq!(StdioReceiver::recv("{}"), Some("{}".to_owned()));
    assert_eq!(StdioReceiver::recv("\n"), Some(String::new()));
    assert_eq!(StdioReceiver::recv("\r\n"), Some(String::new()));
    assert_eq!(StdioReceiver::recv("a\n\n"), Some("a\n".to_owned()));
    assert_eq!(StdioReceiver::recv(""), None);
    assert_eq!(StdioReceiver::recv(&StdioSender::send("")), Some(String::new()));
    let text = Client::initialize();
    assert_eq!(StdioReceiver::recv(&StdioSender::send(&text)), Some(text));
}

#[test]
fn streams_of_a_process() {
    assert!(matches!(StdioTransport::captured(Some(5), "stdin"), Ok(5)));
    assert!(matches!(
        StdioTransport::captured::<u8>(None, "stdout"),
        Err(Error::Protocol(message)) if message == "failed to capture child stdout"
    ));
}

#[test]
fn white_space_is_that_of_the_standard_library() {
    for n in 0..=0x10ffff_u32 {
        if let Some(c) = char::from_u32(n) {
            assert_eq!(is_whitespace(c), c.is_whitespace(), "{n:x}");
        }
    }
}

#[test]
fn pieces_of_text() {
    for text in ["", " ", " a b ", "\u{2003}\t\u{e9}\r\n", "x"] {
        assert_eq!(trim(text), text.trim());
        assert_eq!(trim_line(text), text.trim_end_matches(['\n', '\r']));
        assert_eq!(host_part(text), text.split('/').next().unwrap());
    }
    assert_eq!(trim_line("a\n\r\n"), "a");
    assert_eq!(host_part("a/b/c"), "a");
    assert!(starts_with("https", "http"));
    assert!(!starts_with("htt", "http"));
    assert_eq!(strip_prefix("data:x", "data:").as_deref(), Some("x"));
    assert_eq!(strip_prefix("dat", "data:"), None);
}
