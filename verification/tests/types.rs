use eleven100p::codec::{json_from_value, json_into_value, parse_json, print_json, print_object};
use eleven100p::decode::{decode_list, Decode};
use eleven100p::rpc::{parse_incoming, route_incoming, IncomingMessage, RpcNotification, RpcRequest, RpcResponse};
use eleven100p::{ContentBlock, Error, Json, ProgressUpdate, Prompt, Resource, ServerCapabilities, Tool, ToolResult};

fn json(text: &str) -> Json {
    parse_json(text).unwrap()
}

fn value(text: &str) -> serde_json::Value {
    serde_json::from_str(text).unwrap()
}

#[test]
fn test_parse_routing() {
    let cases = [
        (r#"{"jsonrpc":"2.0","id":1,"result":{"tools":[]}}"#, true),
        (r#"{"jsonrpc":"2.0","id":2,"result":null}"#, true),
        (r#"{"jsonrpc":"2.0","id":3,"error":{"code":-1,"message":"e"}}"#, true),
        (r#"{"jsonrpc":"2.0","method":"notify/something","params":{}}"#, false),
        (r#"{"jsonrpc":"2.0","method":"notifications/initialized"}"#, false),
    ];
    for (input, expect_response) in cases {
        match parse_incoming(input).unwrap() {
            IncomingMessage::Response(_) => assert!(expect_response, "expected notification"),
            IncomingMessage::Notification(_) => assert!(!expect_response, "expected response"),
        }
    }
}

#[test]
fn test_parse_response_fields() {
    let raw = r#"{"jsonrpc":"2.0","id":42,"result":{"tools":[{"name":"x"}]}}"#;
    let IncomingMessage::Response(resp) = parse_incoming(raw).unwrap() else {
        panic!("expected response");
    };
    assert_eq!(resp.id, 42);
    assert!(resp.error.is_none());
    assert!(resp.result.is_some());
}

#[test]
fn test_parse_error_response_fields() {
    let raw = r#"{"jsonrpc":"2.0","id":7,"error":{"code":-32601,"message":"not found"}}"#;
    let IncomingMessage::Response(resp) = parse_incoming(raw).unwrap() else {
        panic!("expected response");
    };
    assert_eq!(resp.id, 7);
    assert!(resp.result.is_none());
    let err = resp.error.unwrap();
    assert_eq!(err.code, -32601);
    assert_eq!(err.message, "not found");
}

#[test]
fn test_parse_notification_method_and_params() {
    let raw = r#"{"jsonrpc":"2.0","method":"notifications/progress","params":{"progress":50}}"#;
    let IncomingMessage::Notification(n) = parse_incoming(raw).unwrap() else {
        panic!("expected notification");
    };
    assert_eq!(n.method, "notifications/progress");
    assert_eq!(n.params.unwrap().get("progress").unwrap().as_u64(), Some(50));
}

#[test]
fn test_parse_notification_no_params() {
    let raw = r#"{"jsonrpc":"2.0","method":"notifications/initialized"}"#;
    let IncomingMessage::Notification(n) = parse_incoming(raw).unwrap() else {
        panic!("expected notification");
    };
    assert_eq!(n.method, "notifications/initialized");
    assert!(n.params.is_none());
}

#[test]
fn test_parse_malformed_json_returns_error() {
    assert!(parse_incoming("{not json}").is_err());
    assert!(matches!(parse_incoming("{not json}"), Err(Error::Json(message)) if message == "key must be a string at line 1 column 2"));
}

#[test]
fn test_parse_empty_string_returns_error() {
    assert!(parse_incoming("").is_err());
    assert!(matches!(parse_incoming(""), Err(Error::Json(_))));
}

#[test]
fn test_parse_unknown_shape_returns_error() {
    assert!(parse_incoming(r#"{"jsonrpc":"2.0","id":1}"#).is_err());
    assert!(matches!(
        parse_incoming(r#"{"jsonrpc":"2.0","id":1}"#),
        Err(Error::Protocol(message)) if message == r#"unrecognised message: {"jsonrpc":"2.0","id":1}"#
    ));
}

#[test]
fn messages_with_wrong_members_are_json_errors() {
    for raw in [
        r#"{"id":"1","result":{}}"#,
        r#"{"id":-1,"result":{}}"#,
        r#"{"id":1.0,"result":{}}"#,
        r#"{"id":null,"result":{}}"#,
        r#"{"id":1,"error":{"code":1}}"#,
        r#"{"id":1,"error":{"code":1.5,"message":"m"}}"#,
        r#"{"id":1,"error":{"code":9223372036854775808,"message":"m"}}"#,
        r#"{"id":1,"error":[1]}"#,
        r#"{"method":5}"#,
    ] {
        assert!(matches!(parse_incoming(raw), Err(Error::Json(_))), "{raw}");
    }
    for raw in ["[1,2]", "5", "null", r#""id""#, "{}"] {
        assert!(matches!(parse_incoming(raw), Err(Error::Protocol(_))), "{raw}");
    }
}

#[test]
fn records_may_be_written_as_arrays() {
    let raw = r#"{"id":18446744073709551615,"error":[-9223372036854775808,"low"]}"#;
    let IncomingMessage::Response(resp) = parse_incoming(raw).unwrap() else {
        panic!("expected response");
    };
    assert_eq!(resp.id, u64::MAX);
    let error = resp.error.unwrap();
    assert_eq!((error.code, error.message.as_str()), (i64::MIN, "low"));

    let tool = Tool::decode(&json(r#"["t", null, {"type":"object"}]"#)).unwrap();
    assert_eq!(tool.name, "t");
    assert!(tool.description.is_none());
    assert!(Tool::decode(&json(r#"["t", null]"#)).is_err());
    assert!(Tool::decode(&json(r#"["t", null, {}, 4]"#)).is_err());
    assert!(matches!(ContentBlock::decode(&json(r#"["text","hi"]"#)), Ok(ContentBlock::Text { text }) if text == "hi"));
    assert!(ContentBlock::decode(&json(r#"["text"]"#)).is_err());
    assert!(ContentBlock::decode(&json(r#"["text","a","b"]"#)).is_err());
}

#[test]
fn a_response_wins_over_a_notification() {
    let raw = r#"{"id":1,"method":"m","result":5}"#;
    assert!(matches!(parse_incoming(raw), Ok(IncomingMessage::Response(_))));
    let raw = r#"{"id":1,"method":"m"}"#;
    assert!(matches!(parse_incoming(raw), Ok(IncomingMessage::Notification(_))));
    let routed = route_incoming(&json(r#"{"id":3,"result":false,"error":null}"#), "raw");
    assert!(matches!(
        routed,
        Ok(IncomingMessage::Response(RpcResponse { id: 3, result: Some(Json::Bool(false)), error: None }))
    ));
    assert!(matches!(
        route_incoming(&json("{}"), "raw"),
        Err(Error::Protocol(message)) if message == "unrecognised message: raw"
    ));
}

#[test]
fn test_tool_result_from_value_text_block() {
    let v = json(r#"{ "content": [{ "type": "text", "text": "hello" }], "isError": false }"#);
    let r = ToolResult::from_value(v).unwrap();
    assert!(!r.is_error);
    assert_eq!(r.content.len(), 1);
    assert!(matches!(&r.content[0], ContentBlock::Text { text } if text == "hello"));
}

#[test]
fn test_tool_result_is_error_flag() {
    let v = json(r#"{ "content": [{ "type": "text", "text": "fail" }], "isError": true }"#);
    assert!(ToolResult::from_value(v).unwrap().is_error);
}

#[test]
fn test_tool_result_empty_content_defaults() {
    let v = json("{}");
    let r = ToolResult::from_value(v).unwrap();
    assert!(r.content.is_empty());
    assert!(!r.is_error);
}

#[test]
fn tool_result_blocks_in_order() {
    let v = json(
        r#"{"content":[
            {"type":"image","data":"QUJD","mimeType":"image/png","more":1},
            {"type":"resource","resource":{"uri":"file:///a","text":"t"}},
            {"type":"resource","resource":["file:///b",null,"YmxvYg=="]}
        ],"isError":"yes"}"#,
    );
    let r = ToolResult::from_value(v).unwrap();
    assert!(!r.is_error);
    assert!(matches!(&r.content[0], ContentBlock::Image { data, mime_type } if data == "QUJD" && mime_type == "image/png"));
    assert!(matches!(
        &r.content[1],
        ContentBlock::Resource { resource } if resource.uri == "file:///a" && resource.text.as_deref() == Some("t") && resource.blob.is_none()
    ));
    assert!(matches!(
        &r.content[2],
        ContentBlock::Resource { resource } if resource.uri == "file:///b" && resource.text.is_none() && resource.blob.as_deref() == Some("YmxvYg==")
    ));
}

#[test]
fn tool_results_that_are_refused() {
    for text in [
        r#"{"content":null}"#,
        r#"{"content":{}}"#,
        r#"{"content":[{"type":"video"}]}"#,
        r#"{"content":[{"text":"no type"}]}"#,
        r#"{"content":[{"type":"text"}]}"#,
        r#"{"content":[{"type":"image","data":"x"}]}"#,
        r#"{"content":[{"type":"resource","resource":{"text":"no uri"}}]}"#,
        r#"{"content":[{"type":"text","text":"ok"},5]}"#,
    ] {
        assert!(matches!(ToolResult::from_value(json(text)), Err(Error::Json(_))), "{text}");
    }
    assert!(ToolResult::from_value(json("[1]")).unwrap().content.is_empty());
}

#[test]
fn test_rpc_request_serialises_correctly() {
    let req = RpcRequest::new(5, "tools/list", None);
    let v = value(&req.to_text());
    assert_eq!(v["jsonrpc"], "2.0");
    assert_eq!(v["id"], 5);
    assert_eq!(v["method"], "tools/list");
    assert!(v.get("params").is_none(), "params should be omitted when None");
    assert_eq!(req.to_text(), r#"{"jsonrpc":"2.0","id":5,"method":"tools/list"}"#);
}

#[test]
fn test_rpc_request_includes_params_when_present() {
    let req = RpcRequest::new(1, "tools/call", Some(json(r#"{ "name": "x" }"#)));
    let v = value(&req.to_text());
    assert_eq!(v["params"]["name"], "x");
    assert_eq!(req.to_text(), r#"{"jsonrpc":"2.0","id":1,"method":"tools/call","params":{"name":"x"}}"#);
}

#[test]
fn a_request_is_escaped_and_reads_back() {
    let params = json(r#"{"b":[1,-2,"x\ny"],"a":{"deep":[[null,true]]},"q":"\"\\"}"#);
    let req = RpcRequest::new(u64::MAX, "odd\"method\n", Some(params));
    let text = req.to_text();
    assert!(text.chars().all(|c| c >= ' '));
    let v = value(&text);
    assert_eq!(v["id"], u64::MAX);
    assert_eq!(v["method"], "odd\"method\n");
    assert_eq!(v["params"], value(r#"{"a":{"deep":[[null,true]]},"b":[1,-2,"x\ny"],"q":"\"\\"}"#));
    assert_eq!(v.as_object().unwrap().len(), 4);
}

#[test]
fn a_notification_has_no_id() {
    let plain = RpcNotification::new("notifications/initialized", None);
    assert_eq!(plain.to_text(), r#"{"jsonrpc":"2.0","method":"notifications/initialized"}"#);
    let full = RpcNotification::new("n", Some(json(r#"{"x":1.5}"#)));
    assert_eq!(full.to_text(), r#"{"jsonrpc":"2.0","method":"n","params":{"x":1.5}}"#);
    assert!(value(&full.to_text()).get("id").is_none());
}

#[test]
fn an_answer_text_is_a_response() {
    let entries = vec![
        ("jsonrpc".to_owned(), Json::from_text("2.0")),
        ("id".to_owned(), Json::from_u64(9)),
        ("result".to_owned(), json(r#"{"ok":[1,2]}"#)),
    ];
    let text = print_object(&entries);
    assert_eq!(text, r#"{"jsonrpc":"2.0","id":9,"result":{"ok":[1,2]}}"#);
    let IncomingMessage::Response(resp) = parse_incoming(&text).unwrap() else {
        panic!("expected response");
    };
    assert_eq!(resp.id, 9);
    assert_eq!(print_json(resp.result.unwrap()), r#"{"ok":[1,2]}"#);
}

#[test]
fn nested_members_up_to_the_limit_read_back() {
    let deep = |n: usize| format!("{}1{}", "[".repeat(n), "]".repeat(n));
    let nest = |n: usize| {
        let mut json = Json::from_u64(1);
        for _ in 0..n {
            json = Json::Array(vec![json]);
        }
        json
    };
    let text = print_object(&vec![("v".to_owned(), nest(126))]);
    assert_eq!(text, format!(r#"{{"v":{}}}"#, deep(126)));
    assert!(parse_json(&text).is_ok());
    assert!(parse_json(&print_object(&vec![("v".to_owned(), nest(127))])).is_err());
}

#[test]
fn whole_numbers_read_back() {
    for text in ["0", "18446744073709551615", "-1", "-9223372036854775808"] {
        assert_eq!(print_json(json(text)), text);
    }
    assert_eq!(json("7").as_u64(), Some(7));
    assert_eq!(json("7").as_i64(), Some(7));
    assert_eq!(json("-7").as_u64(), None);
    assert_eq!(json("-7").as_i64(), Some(-7));
    assert_eq!(json("9223372036854775808").as_i64(), None);
    assert_eq!(json("7.0").as_u64(), None);
    assert_eq!(json("7.0").as_i64(), None);
    assert_eq!(json("7.5").as_double(), Some(7.5f64.to_bits()));
    assert_eq!(json("7").as_double(), Some(7.0f64.to_bits()));
    assert_eq!(json("-7").as_double(), Some((-7.0f64).to_bits()));
    assert_eq!(json("18446744073709551615").as_double(), Some((u64::MAX as f64).to_bits()));
    assert_eq!(json("true").as_double(), None);
}

#[test]
fn the_last_of_two_members_counts() {
    let doubled = Json::Object(vec![
        ("a".to_owned(), Json::from_u64(1)),
        ("b".to_owned(), Json::Null),
        ("a".to_owned(), Json::from_u64(2)),
    ]);
    assert_eq!(doubled.get("a").unwrap().as_u64(), Some(2));
    assert!(matches!(doubled.get("b"), Some(Json::Null)));
    assert!(doubled.get("c").is_none());
    assert_eq!(doubled.clone().get("a").unwrap().as_u64(), Some(2));
    assert_eq!(json_into_value(doubled), value(r#"{"a":2,"b":null}"#));
    assert_eq!(json(r#"{"a":1,"a":2}"#).get("a").unwrap().as_u64(), Some(2));
}

#[test]
fn values_go_through_both_ways() {
    let text = r#"{"a":[1,-1,2.5,"s",null,true],"b":{"c":{}}}"#;
    assert_eq!(json_into_value(json_from_value(value(text))), value(text));
    assert_eq!(print_json(json_from_value(value(text))), text);
    assert_eq!(print_json(json(text).clone()), text);
}

#[test]
fn resources_and_prompts() {
    let resources = decode_list::<Resource>(&json(
        r#"[{"uri":"u","name":"n"},{"uri":"v","name":"m","description":"d","mimeType":"text/plain"}]"#,
    ))
    .unwrap();
    assert_eq!(resources.len(), 2);
    assert!(resources[0].mime_type.is_none());
    assert_eq!(resources[1].clone().mime_type.as_deref(), Some("text/plain"));
    assert_eq!(resources[1].description.as_deref(), Some("d"));
    assert!(decode_list::<Resource>(&json(r#"[{"uri":"u"}]"#)).is_err());
    assert!(decode_list::<Resource>(&json(r#"{"uri":"u"}"#)).is_err());

    let prompts = decode_list::<Prompt>(&json(
        r#"[{"name":"p","arguments":[{"name":"a","required":true},{"name":"b","required":null}]},{"name":"q","arguments":null}]"#,
    ))
    .unwrap();
    let arguments = prompts[0].clone().arguments.unwrap();
    assert_eq!(arguments[0].name, "a");
    assert_eq!(arguments[0].required, Some(true));
    assert_eq!(arguments[1].required, None);
    assert!(prompts[1].arguments.is_none());
    assert!(Prompt::decode(&json(r#"{"name":"p","arguments":[{"name":"a","required":1}]}"#)).is_err());
    assert!(Prompt::decode(&json(r#"{"name":"p","description":5}"#)).is_err());
}

#[test]
fn tools_need_a_schema() {
    assert!(Tool::decode(&json(r#"{"name":"t"}"#)).is_err());
    let tool = Tool::decode(&json(r#"{"name":"t","inputSchema":null}"#)).unwrap();
    assert!(matches!(tool.clone().input_schema, Json::Null));
}

#[test]
fn capabilities_that_are_null_are_missing() {
    let caps = ServerCapabilities::decode(&json(r#"{"tools":{},"logging":null,"other":1}"#)).unwrap();
    assert!(caps.tools.is_some());
    assert!(caps.resources.is_none());
    assert!(caps.logging.is_none());
    assert!(caps.clone().tools.is_some());
    assert!(ServerCapabilities::decode(&json("[null,{},null,1]")).unwrap().resources.is_some());
    assert!(ServerCapabilities::decode(&json("[]")).is_err());
    assert!(ServerCapabilities::decode(&json("true")).is_err());
    assert!(ServerCapabilities::default().tools.is_none());
}

#[test]
fn progress_defaults() {
    let update = ProgressUpdate::from_params(&json(r#"{"progress":25.5,"total":100,"message":"m"}"#));
    assert_eq!(f64::from_bits(update.progress.bits), 25.5);
    assert_eq!(update.total.map(|d| f64::from_bits(d.bits)), Some(100.0));
    assert_eq!(update.message.as_deref(), Some("m"));
    let update = ProgressUpdate::from_params(&json(r#"{"progress":"no","total":null,"message":5}"#));
    assert_eq!(f64::from_bits(update.progress.bits), 0.0);
    assert!(update.total.is_none());
    assert!(update.message.is_none());
}

fn message<T>(result: Result<T, Error>) -> String {
    match result {
        Err(Error::Json(message)) => message,
        _ => panic!("expected a JSON error"),
    }
}

#[test]
fn what_is_wrong_with_a_message() {
    for (raw, expected) in [
        (r#"{"id":"a\"b","result":{}}"#, "invalid type: string \"a\\\"b\", expected u64"),
        (r#"{"id":-1,"result":{}}"#, "invalid value: integer `-1`, expected u64"),
        (r#"{"id":1.5,"result":{}}"#, "invalid type: floating point `1.5`, expected u64"),
        (r#"{"id":null,"result":{}}"#, "invalid type: null, expected u64"),
        (r#"{"id":1,"error":{"code":1}}"#, "missing field `message`"),
        (r#"{"id":1,"error":{}}"#, "missing field `code`"),
        (r#"{"id":1,"error":{"message":true}}"#, "invalid type: boolean `true`, expected a string"),
        (r#"{"id":1,"error":{"code":"x","message":true}}"#, "invalid type: string \"x\", expected i64"),
        (
            r#"{"id":1,"error":{"code":9223372036854775808,"message":"m"}}"#,
            "invalid value: integer `9223372036854775808`, expected i64",
        ),
        (r#"{"id":1,"error":[1]}"#, "invalid length 1, expected struct RpcError with 2 elements"),
        (r#"{"id":1,"error":[1,"m",2]}"#, "invalid length 3, expected fewer elements in array"),
        (r#"{"id":1,"error":[[],"m",2]}"#, "invalid type: sequence, expected i64"),
        (r#"{"id":1,"error":5}"#, "invalid type: integer `5`, expected struct RpcError"),
        // The error is read before the id.
        (r#"{"id":-1,"error":false}"#, "invalid type: boolean `false`, expected struct RpcError"),
        (r#"{"method":{}}"#, "invalid type: map, expected a string"),
    ] {
        assert_eq!(message(parse_incoming(raw)), expected, "{raw}");
    }
}

#[test]
fn what_is_wrong_with_a_tool_result() {
    for (content, expected) in [
        ("null", "invalid type: null, expected a sequence"),
        ("{}", "invalid type: map, expected a sequence"),
        ("[5]", "invalid type: integer `5`, expected internally tagged enum ContentBlock"),
        (r#"[{"text":"x"}]"#, "missing field `type`"),
        ("[[]]", "missing field `type`"),
        (r#"[{"type":null}]"#, "invalid type: null, expected variant identifier"),
        (r#"[{"type":"video"}]"#, "unknown variant `video`, expected one of `text`, `image`, `resource`"),
        (r#"[{"type":"text"}]"#, "missing field `text`"),
        (r#"[{"type":"text","text":null}]"#, "invalid type: null, expected a string"),
        (r#"[["text"]]"#, "invalid length 0, expected struct variant ContentBlock::Text with 1 element"),
        (r#"[["text","a","b"]]"#, "invalid length 2, expected 1 element in sequence"),
        (r#"[{"type":"image","mimeType":1}]"#, "invalid type: integer `1`, expected a string"),
        (r#"[{"type":"image","mimeType":"m"}]"#, "missing field `data`"),
        (r#"[["image","d"]]"#, "invalid length 1, expected struct variant ContentBlock::Image with 2 elements"),
        (r#"[["image","d","m","x"]]"#, "invalid length 3, expected 2 elements in sequence"),
        (r#"[{"type":"resource"}]"#, "missing field `resource`"),
        (r#"[{"type":"resource","resource":"r"}]"#, "invalid type: string \"r\", expected struct EmbeddedResource"),
        (r#"[{"type":"resource","resource":{"text":"t"}}]"#, "missing field `uri`"),
        (r#"[{"type":"resource","resource":{"uri":1,"blob":[]}}]"#, "invalid type: sequence, expected a string"),
        (
            r#"[["resource",["u","t"]]]"#,
            "invalid length 2, expected struct EmbeddedResource with 3 elements",
        ),
        (r#"[["resource",["u","t","b","x"]]]"#, "invalid length 4, expected 3 elements in sequence"),
        // The first bad block counts.
        (r#"[["text","ok"],{"type":"text"},5]"#, "missing field `text`"),
    ] {
        let result = ToolResult::from_value(json(&format!(r#"{{"content":{content}}}"#)));
        assert_eq!(message(result), expected, "{content}");
    }
}

#[test]
fn what_is_wrong_with_a_record() {
    for (text, expected) in [
        (r#""x""#, "invalid type: string \"x\", expected struct Tool"),
        ("{}", "missing field `name`"),
        (r#"{"name":"n"}"#, "missing field `inputSchema`"),
        // Members are read in the order of their names, before anything is missed.
        (r#"{"name":1,"description":2}"#, "invalid type: integer `2`, expected a string"),
        (r#"{"description":2}"#, "invalid type: integer `2`, expected a string"),
        ("[]", "invalid length 0, expected struct Tool with 3 elements"),
        (r#"["n",null]"#, "invalid length 2, expected struct Tool with 3 elements"),
        (r#"["n",1]"#, "invalid type: integer `1`, expected a string"),
        (r#"["n",null,{},4]"#, "invalid length 4, expected fewer elements in array"),
    ] {
        assert_eq!(Tool::decode(&json(text)).unwrap_err(), expected, "{text}");
    }
    for (text, expected) in [
        (r#"{"uri":1,"mimeType":[]}"#, "invalid type: sequence, expected a string"),
        (r#"{"name":"n"}"#, "missing field `uri`"),
        (r#"["u","n"]"#, "invalid length 2, expected struct Resource with 4 elements"),
    ] {
        assert_eq!(Resource::decode(&json(text)).unwrap_err(), expected, "{text}");
    }
    for (text, expected) in [
        (r#"{"arguments":5,"name":1}"#, "invalid type: integer `5`, expected a sequence"),
        (r#"{"name":"p","arguments":[{}]}"#, "missing field `name`"),
        (r#"{"name":"p","arguments":[{"name":"a","required":1}]}"#, "invalid type: integer `1`, expected a boolean"),
    ] {
        assert_eq!(Prompt::decode(&json(text)).unwrap_err(), expected, "{text}");
    }
    assert_eq!(
        ServerCapabilities::decode(&json("[1]")).unwrap_err(),
        "invalid length 1, expected struct ServerCapabilities with 4 elements"
    );
}

#[test]
fn the_words_are_those_of_serde() {
    let values = [
        "null", "true", "false", "0", "18446744073709551615", "-7", "0.1", "-2.5e-300", "1e300", r#""a\"\né​'""#,
        "[1]", "{}",
    ];
    for text in values {
        if let Err(error) = serde_json::from_value::<String>(value(text)) {
            assert_eq!(message(parse_incoming(&format!(r#"{{"method":{text}}}"#))), error.to_string());
        }
        if let Err(error) = serde_json::from_value::<u64>(value(text)) {
            assert_eq!(message(parse_incoming(&format!(r#"{{"id":{text},"result":1}}"#))), error.to_string());
        }
        if let Err(error) = serde_json::from_value::<i64>(value(text)) {
            let raw = format!(r#"{{"id":1,"error":{{"code":{text}}}}}"#);
            assert_eq!(message(parse_incoming(&raw)), error.to_string());
        }
        if let Err(error) = serde_json::from_value::<Vec<String>>(value(text)) {
            if text != "[1]" {
                let result = ToolResult::from_value(json(&format!(r#"{{"content":{text}}}"#)));
                assert_eq!(message(result), error.to_string());
            }
        }
    }
}
