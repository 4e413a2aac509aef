use proton_drive::json::{Json, JsonNumber, Member};
use proton_drive::mcp_server::{
    cors_headers, get_mcp_port, health, legacy_call_tool, legacy_list_tools, listen_address,
    mcp_jsonrpc, mcp_options, mcp_tool_reply, port_file_text, tool_list_json, tool_outcome, tools,
    CallEnd, McpReply, McpStep, PendingCalls, FIXED_PORT, INTERNAL_ERROR, METHOD_NOT_FOUND,
    PORT_FILE, TOOL_CALL_EVENT, TOOL_CALL_TIMEOUT_SECONDS,
};
use proton_drive::named_map::NamedMap;
use serde_json::Value;

fn to_value(json: &Json) -> Value {
    match json {
        Json::Null => Value::Null,
        Json::Bool(b) => Value::Bool(*b),
        Json::Number(JsonNumber::Unsigned(n)) => Value::from(*n),
        Json::Number(JsonNumber::Signed(n)) => Value::from(*n),
        Json::Number(JsonNumber::Real { bits }) => Value::from(f64::from_bits(*bits)),
        Json::Text(s) => Value::String(s.clone()),
        Json::Array(items) => Value::Array(items.iter().map(to_value).collect()),
        Json::Object(members) => Value::Object(
            members.iter().map(|m| (m.name.clone(), to_value(&m.value))).collect(),
        ),
    }
}

fn of_value(value: &Value) -> Json {
    match value {
        Value::Null => Json::Null,
        Value::Bool(b) => Json::Bool(*b),
        Value::Number(n) => Json::Number(match (n.as_u64(), n.as_i64()) {
            (Some(u), _) => JsonNumber::Unsigned(u),
            (None, Some(i)) => JsonNumber::Signed(i),
            (None, None) => JsonNumber::Real { bits: n.as_f64().unwrap().to_bits() },
        }),
        Value::String(s) => Json::Text(s.clone()),
        Value::Array(items) => Json::Array(items.iter().map(of_value).collect()),
        Value::Object(members) => Json::Object(
            members
                .iter()
                .map(|(name, value)| Member { name: name.clone(), value: of_value(value) })
                .collect(),
        ),
    }
}

fn parse(text: &str) -> Value {
    serde_json::from_str(text).unwrap()
}

fn body(reply: &McpReply) -> Value {
    to_value(reply.body.as_ref().unwrap())
}

fn ask(request: &str) -> (u16, Value) {
    match mcp_jsonrpc(&of_value(&parse(request)), "Helper") {
        McpStep::Reply(reply) => {
            assert!(reply.cors);
            (reply.status, body(&reply))
        }
        McpStep::Call { .. } => panic!("a call"),
    }
}

fn call(request: &str) -> (Value, String, Value) {
    match mcp_jsonrpc(&of_value(&parse(request)), "Helper") {
        McpStep::Reply(_) => panic!("a reply"),
        McpStep::Call { id, name, arguments } => (to_value(&id), name, to_value(&arguments)),
    }
}

const TOOL_LIST: &str = r#"[
    {
        "name": "list_devices",
        "description": "List the Linux computers synced to this Proton Drive account.",
        "inputSchema": { "type": "object", "properties": {}, "required": [] }
    },
    {
        "name": "get_drive_status",
        "description": "Check whether the Proton Drive desktop client is running and the Helper API key is configured.",
        "inputSchema": { "type": "object", "properties": {}, "required": [] }
    }
]"#;

#[test]
fn tools_are_listed() {
    assert_eq!(to_value(&tool_list_json("Helper")), parse(TOOL_LIST));
    let names: Vec<&str> = tools("Helper").iter().map(|tool| tool.name).collect();
    assert_eq!(names, vec!["list_devices", "get_drive_status"]);
    let listed = legacy_list_tools("Helper");
    assert_eq!((listed.status, listed.cors), (200, false));
    assert_eq!(body(&listed), parse(&format!("{{\"tools\": {}}}", TOOL_LIST)));
    assert_eq!(
        ask(r#"{"jsonrpc":"2.0","id":3,"method":"tools/list"}"#),
        (
            200,
            parse(&format!(
                "{{\"jsonrpc\":\"2.0\",\"id\":3,\"result\":{{\"tools\":{}}}}}",
                TOOL_LIST
            ))
        )
    );
}

#[test]
fn the_server_introduces_itself() {
    assert_eq!(
        ask(r#"{"jsonrpc":"2.0","id":"a","method":"initialize","params":{}}"#),
        (
            200,
            parse(
                r#"{"jsonrpc":"2.0","id":"a","result":{
                    "protocolVersion":"2024-11-05",
                    "capabilities":{"tools":{}},
                    "serverInfo":{"name":"proton-drive","version":"2.0.0"}}}"#
            )
        )
    );
}

#[test]
fn pings_are_answered_under_any_name() {
    for id in ["1", "-7", "1.5", "\"x\"", "[1,{\"a\":[true,null]}]", "null"] {
        assert_eq!(
            ask(&format!("{{\"id\":{},\"method\":\"ping\"}}", id)),
            (
                200,
                parse(&format!("{{\"jsonrpc\":\"2.0\",\"id\":{},\"result\":{{}}}}", id))
            )
        );
    }
    assert_eq!(
        ask(r#"{"method":"ping"}"#),
        (200, parse(r#"{"jsonrpc":"2.0","id":null,"result":{}}"#))
    );
}

#[test]
fn unknown_methods_are_refused_and_notifications_accepted() {
    assert_eq!(
        ask(r#"{"id":9,"method":"resources/list"}"#),
        (
            200,
            parse(
                r#"{"jsonrpc":"2.0","id":9,
                    "error":{"code":-32601,"message":"Method not found: resources/list"}}"#
            )
        )
    );
    assert_eq!(
        ask(r#"{"id":9,"method":5}"#),
        (
            200,
            parse(r#"{"jsonrpc":"2.0","id":9,"error":{"code":-32601,"message":"Method not found: "}}"#)
        )
    );
    for notification in [
        r#"{"method":"notifications/initialized"}"#,
        r#"{"id":null,"method":"x"}"#,
        "{}",
        "[]",
        "null",
        "\"ping\"",
    ] {
        match mcp_jsonrpc(&of_value(&parse(notification)), "Helper") {
            McpStep::Reply(reply) => {
                assert_eq!((reply.status, reply.cors), (202, true), "{}", notification);
                assert!(reply.body.is_none(), "{}", notification);
            }
            McpStep::Call { .. } => panic!("a call"),
        }
    }
    assert_eq!(METHOD_NOT_FOUND, -32601);
}

#[test]
fn tool_calls_are_recognized() {
    assert_eq!(
        call(
            r#"{"id":1,"method":"tools/call",
                "params":{"name":"list_devices","arguments":{"a":[1]}}}"#
        ),
        (parse("1"), "list_devices".to_string(), parse(r#"{"a":[1]}"#))
    );
    assert_eq!(
        call(r#"{"id":1,"method":"tools/call","params":{"name":"x"}}"#),
        (parse("1"), "x".to_string(), parse("{}"))
    );
    assert_eq!(
        call(r#"{"id":1,"method":"tools/call","params":{"name":7,"arguments":null}}"#),
        (parse("1"), String::new(), parse("null"))
    );
    assert_eq!(
        call(r#"{"method":"tools/call"}"#),
        (parse("null"), String::new(), parse("{}"))
    );
}

#[test]
fn tool_outcomes_are_reported() {
    let id = Json::of_text("q");
    let done = mcp_tool_reply(&id, Ok("result".to_string()));
    assert_eq!((done.status, done.cors), (200, true));
    assert_eq!(
        body(&done),
        parse(
            r#"{"jsonrpc":"2.0","id":"q",
                "result":{"content":[{"type":"text","text":"result"}]}}"#
        )
    );
    let failed = mcp_tool_reply(&id, Err("broken".to_string()));
    assert_eq!(
        body(&failed),
        parse(r#"{"jsonrpc":"2.0","id":"q","error":{"code":-32603,"message":"broken"}}"#)
    );
    let done = legacy_call_tool(Ok("text".to_string()));
    assert_eq!((done.status, done.cors), (200, false));
    assert_eq!(body(&done), parse(r#"{"content":[{"type":"text","text":"text"}]}"#));
    assert_eq!(
        body(&legacy_call_tool(Err("no".to_string()))),
        parse(r#"{"error":{"code":-32603,"message":"no"}}"#)
    );
    assert_eq!(INTERNAL_ERROR, -32603);
    assert_eq!(
        tool_outcome(CallEnd::Answered(Ok("x".to_string()))),
        Ok("x".to_string())
    );
    assert_eq!(
        tool_outcome(CallEnd::Answered(Err("y".to_string()))),
        Err("y".to_string())
    );
    assert_eq!(tool_outcome(CallEnd::TimedOut), Err("tool call timed out".to_string()));
    assert_eq!(tool_outcome(CallEnd::Interrupted), Err("spawn_blocking failed".to_string()));
}

#[test]
fn answers_reach_their_calls_once() {
    let mut calls: PendingCalls<&str> = PendingCalls::new();
    let first = calls.dispatch_tool("list_devices", Json::object(), "alice");
    let second = calls.dispatch_tool("get_drive_status", Json::Null, "bob");
    assert_eq!(
        to_value(&first),
        parse(r#"{"id":"1","name":"list_devices","arguments":{}}"#)
    );
    assert_eq!(
        to_value(&second),
        parse(r#"{"id":"2","name":"get_drive_status","arguments":null}"#)
    );
    let answer = calls.mcp_tool_result("2", Some("fine".to_string()), Some("e".to_string())).unwrap();
    assert_eq!((answer.waiter, answer.outcome), ("bob", Ok("fine".to_string())));
    assert!(calls.mcp_tool_result("2", None, None).is_none());
    assert!(calls.mcp_tool_result("01", None, None).is_none());
    let answer = calls.mcp_tool_result("1", None, Some("bad".to_string())).unwrap();
    assert_eq!((answer.waiter, answer.outcome), ("alice", Err("bad".to_string())));
    calls.dispatch_tool("x", Json::Null, "carol");
    let answer = calls.mcp_tool_result("3", None, None).unwrap();
    assert_eq!(
        (answer.waiter, answer.outcome),
        ("carol", Err("no result or error from WebView".to_string()))
    );
}

#[test]
fn call_names_keep_counting() {
    let mut calls: PendingCalls<u32> = PendingCalls::new();
    for n in 1u32..=12 {
        calls.dispatch_tool("t", Json::Null, n);
    }
    for n in (1u32..=12).rev() {
        let answer = calls.mcp_tool_result(&n.to_string(), None, None).unwrap();
        assert_eq!(answer.waiter, n);
    }
}

#[test]
fn small_replies_are_fixed() {
    let options = mcp_options();
    assert_eq!((options.status, options.cors), (204, true));
    assert!(options.body.is_none());
    let healthy = health();
    assert_eq!((healthy.status, healthy.cors), (200, false));
    assert_eq!(body(&healthy), parse(r#"{"ok":true}"#));
    assert_eq!(
        cors_headers(),
        vec![
            ("Access-Control-Allow-Origin", "*"),
            ("Access-Control-Allow-Headers", "content-type, authorization"),
        ]
    );
}

#[test]
fn the_port_is_read_back() {
    assert_eq!(FIXED_PORT, 37242);
    assert_eq!(listen_address(), "127.0.0.1:37242");
    assert_eq!(port_file_text(), "37242");
    assert_eq!(get_mcp_port(true, Some(port_file_text())), Some(37242));
    assert_eq!(get_mcp_port(true, Some(" 80\n".to_string())), Some(80));
    assert_eq!(get_mcp_port(true, Some("65536".to_string())), None);
    assert_eq!(get_mcp_port(true, Some("".to_string())), None);
    assert_eq!(get_mcp_port(true, Some("8 0".to_string())), None);
    assert_eq!(get_mcp_port(true, None), None);
    assert_eq!(get_mcp_port(false, Some(port_file_text())), None);
    assert_eq!(get_mcp_port(false, None), None);
    assert_eq!(PORT_FILE, "proton-drive-mcp.port");
    assert_eq!(TOOL_CALL_EVENT, "mcp://tool-call");
    assert_eq!(TOOL_CALL_TIMEOUT_SECONDS, 30);
}

#[test]
fn json_values_are_copied_and_searched() {
    let value = of_value(&parse(r#"{"a":[1,-2,0.5,"x",null,true],"b":{"c":"d"}}"#));
    assert_eq!(to_value(&value.copy()), to_value(&value));
    assert_eq!(value.get("b").unwrap().get("c").unwrap().as_str(), Some("d"));
    assert!(value.get("z").is_none());
    assert!(value.get("a").unwrap().get("b").is_none());
    assert_eq!(value.as_str(), None);
    assert!(Json::Null.is_null());
    assert!(!value.is_null());
    let twice = Json::object().with("k", Json::Bool(true)).with("k", Json::of_text("last"));
    assert_eq!(twice.get("k").unwrap().as_str(), Some("last"));
    assert_eq!(to_value(&Json::Null.with("k", Json::Null)), Value::Null);
    assert_eq!(
        to_value(&Json::array(vec![Json::Bool(false), Json::object()])),
        parse("[false,{}]")
    );
}

#[test]
fn named_values_are_kept_once() {
    let mut map: NamedMap<u8> = NamedMap::new();
    map.insert("a".to_string(), 1);
    map.insert("b".to_string(), 2);
    map.insert("a".to_string(), 3);
    assert_eq!(map.remove("c"), None);
    assert_eq!(map.remove("a"), Some(3));
    assert_eq!(map.remove("a"), None);
    assert_eq!(map.into_entries(), vec![("b".to_string(), 2)]);
}
