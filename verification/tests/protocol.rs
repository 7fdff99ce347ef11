use multiobs::json::{
    batch_calls, parse_json, parse_json_object, read_bool_member, read_i64_member, read_string_member,
    read_u64_member, JsonKind, RawCall,
};
use multiobs::raw::{
    authentication_string, batch_message, identify_message, is_reply, on_hello, on_identified,
    read_incoming, request_message, request_result, Identify, Incoming, RawError, RequestIds,
};

fn incoming(op: u8, data: &str) -> Incoming {
    Incoming { op, data: data.into(), closed: false }
}

#[test]
fn blank_json_is_an_empty_object() {
    match parse_json("   ") {
        Ok((text, JsonKind::Object(members))) => {
            assert_eq!(text, "{}");
            assert!(members.is_empty());
        },
        _ => panic!("blank text is an empty object"),
    }
    match parse_json(" [1, 2] ") {
        Ok((text, JsonKind::Array(items))) => {
            assert_eq!(text, "[1, 2]");
            assert_eq!(items, vec!["1".to_string(), "2".to_string()]);
        },
        _ => panic!("an array"),
    }
    match parse_json("{\"b\": [true, null], \"a\": 1.5}") {
        Ok((_, JsonKind::Object(members))) => {
            assert_eq!(members.len(), 2);
            assert!(members.contains(&("a".to_string(), "1.5".to_string())));
            assert!(members.contains(&("b".to_string(), "[true,null]".to_string())));
        },
        _ => panic!("an object"),
    }
    match parse_json("{oops") {
        Err(message) => assert!(message.starts_with("invalid JSON: ")),
        Ok(_) => panic!("not JSON"),
    }
}

#[test]
fn request_data_must_be_an_object() {
    assert_eq!(parse_json_object("{\"a\": 1}"), Ok("{\"a\": 1}".to_string()));
    assert_eq!(parse_json_object("null"), Ok("{}".to_string()));
    assert_eq!(parse_json_object(""), Ok("{}".to_string()));
    assert_eq!(parse_json_object("[1]"), Err("request data must be a JSON object".to_string()));
    assert!(parse_json_object("{").unwrap_err().starts_with("invalid JSON: "));
}

#[test]
fn batch_settings_list_their_calls() {
    let calls = batch_calls(
        "[{\"requestType\": \"GetVersion\"}, {\"requestData\": {}}, {\"requestType\": \"SetCurrentProgramScene\", \"requestData\": {\"sceneName\": \"Live\"}}]",
    )
    .unwrap();
    assert_eq!(calls.len(), 2);
    assert_eq!(calls[0].request_type, "GetVersion");
    assert_eq!(calls[0].request_data, "{}");
    assert_eq!(calls[1].request_type, "SetCurrentProgramScene");
    assert_eq!(calls[1].request_data, "{\"sceneName\":\"Live\"}");
    assert_eq!(batch_calls("{}").err(), Some("batch requests must be a JSON array".to_string()));
    assert_eq!(batch_calls("").err(), Some("batch requests must be a JSON array".to_string()));
}

#[test]
fn members_by_type() {
    let text = "{\"s\": \"x\", \"b\": true, \"n\": -3, \"u\": 7}";
    assert_eq!(read_string_member(text, "s"), Some("x".to_string()));
    assert_eq!(read_string_member(text, "b"), None);
    assert_eq!(read_bool_member(text, "b"), Some(true));
    assert_eq!(read_i64_member(text, "n"), Some(-3));
    assert_eq!(read_u64_member(text, "n"), None);
    assert_eq!(read_u64_member(text, "u"), Some(7));
    assert_eq!(read_string_member("not json", "s"), None);
}

#[test]
fn raw_errors_read_as_text() {
    assert_eq!(RawError::WebSocket("refused".into()).message(), "websocket error: refused");
    assert_eq!(RawError::Closed("bye".into()).message(), "OBS closed the connection: bye");
    assert_eq!(RawError::Protocol.message(), "unexpected OBS message");
    assert_eq!(RawError::Auth.message(), "authentication failed");
    assert_eq!(
        RawError::Request { request_type: "GetX".into(), code: 600, comment: "no such".into() }.message(),
        "request `GetX` failed (600): no such"
    );
}

#[test]
fn incoming_messages() {
    let hello = read_incoming("{\"op\": 0, \"d\": {\"rpcVersion\": 1}}").ok().unwrap();
    assert_eq!(hello.op, 0);
    assert_eq!(hello.data, "{\"rpcVersion\":1}");
    assert!(!hello.closed);
    let odd = read_incoming("{\"op\": 258}").ok().unwrap();
    assert_eq!(odd.op, 2);
    assert_eq!(odd.data, "null");
    let none = read_incoming("{}").ok().unwrap();
    assert_eq!(none.op, 255);
    assert!(matches!(read_incoming("hello"), Err(RawError::Protocol)));
}

#[test]
fn authentication_follows_the_protocol_example() {
    assert_eq!(
        authentication_string(
            "supersecretpassword",
            "lM1GncleQOaCu9lT1yeUZhFYnqhsLLP1G5lAGo3ixaI=",
            "+IxH4CnCiqpX1rM9scsNynZzbOe4KhDeYcTNS3PDaeY="
        ),
        "1Ct943GAT+6YQUUX47Ia/ncufilbe6+oD6lY+5kaCu4="
    );
    assert_eq!(authentication_string("secret", "salt", "challenge"), "39cfhx7et2iyoMZvoQ6o3OPLNSKgtMmy48GQ7jnvsdE=");
}

#[test]
fn hello_without_authentication() {
    let identify = on_hello(&incoming(0, "{\"rpcVersion\": 1}"), Some("secret")).ok().unwrap();
    assert_eq!(identify.rpc_version, 1);
    assert_eq!(identify.authentication, None);
    let older = on_hello(&incoming(0, "{}"), None).ok().unwrap();
    assert_eq!(older.rpc_version, 1);
    assert!(matches!(on_hello(&incoming(2, "{}"), None), Err(RawError::Protocol)));
}

#[test]
fn hello_asking_for_a_password() {
    let data = "{\"rpcVersion\": 1, \"authentication\": {\"salt\": \"salt\", \"challenge\": \"challenge\"}}";
    assert!(matches!(on_hello(&incoming(0, data), None), Err(RawError::Auth)));
    assert!(matches!(on_hello(&incoming(0, data), Some("")), Err(RawError::Auth)));
    let identify = on_hello(&incoming(0, data), Some("secret")).ok().unwrap();
    assert_eq!(identify.authentication, Some("39cfhx7et2iyoMZvoQ6o3OPLNSKgtMmy48GQ7jnvsdE=".to_string()));
}

#[test]
fn identified_or_refused() {
    assert!(on_identified(&incoming(2, "{}")).is_ok());
    assert!(matches!(
        on_identified(&Incoming { op: 0, data: "null".into(), closed: true }),
        Err(RawError::Auth)
    ));
    assert!(matches!(on_identified(&incoming(0, "{}")), Err(RawError::Protocol)));
    assert!(matches!(on_identified(&incoming(5, "{}")), Err(RawError::Protocol)));
}

#[test]
fn replies_match_op_and_id() {
    let reply = incoming(7, "{\"requestId\": \"3\", \"requestStatus\": {\"result\": true}}");
    assert!(is_reply(&reply, 7, "3"));
    assert!(!is_reply(&reply, 9, "3"));
    assert!(!is_reply(&reply, 7, "4"));
}

#[test]
fn request_ids_count_up() {
    let mut ids = RequestIds::new();
    assert_eq!(ids.take(), "1");
    assert_eq!(ids.take(), "2");
    assert_eq!(ids.take(), "3");
}

#[test]
fn messages_as_serde_json_writes_them() {
    let identify = Identify { rpc_version: 1, authentication: None };
    assert_eq!(identify_message(&identify), "{\"d\":{\"authentication\":null,\"rpcVersion\":1},\"op\":1}");
    let locked = Identify { rpc_version: 1, authentication: Some("abc=".into()) };
    assert_eq!(identify_message(&locked), "{\"d\":{\"authentication\":\"abc=\",\"rpcVersion\":1},\"op\":1}");
    assert_eq!(
        request_message("GetSceneList", "1", "{}"),
        "{\"d\":{\"requestData\":{},\"requestId\":\"1\",\"requestType\":\"GetSceneList\"},\"op\":6}"
    );
    let calls = vec![RawCall::new("GetVersion".into(), "{}".into()), RawCall::new("Say \"hi\"".into(), "{\"a\":1}".into())];
    assert_eq!(
        batch_message(&calls, true, "2"),
        "{\"d\":{\"executionType\":0,\"haltOnFailure\":true,\"requestId\":\"2\",\"requests\":[{\"requestData\":{},\"requestType\":\"GetVersion\"},{\"requestData\":{\"a\":1},\"requestType\":\"Say \\\"hi\\\"\"}]},\"op\":8}"
    );
    assert_eq!(
        batch_message(&vec![], false, "9"),
        "{\"d\":{\"executionType\":0,\"haltOnFailure\":false,\"requestId\":\"9\",\"requests\":[]},\"op\":8}"
    );
}

#[test]
fn request_results() {
    let ok = request_result(
        "GetSceneList",
        "{\"requestStatus\": {\"result\": true, \"code\": 100}, \"responseData\": {\"currentProgramSceneName\": \"Live\"}}",
    );
    assert_eq!(ok.ok(), Some("{\"currentProgramSceneName\":\"Live\"}".to_string()));
    let empty = request_result("StartStream", "{\"requestStatus\": {\"result\": true}}");
    assert_eq!(empty.ok(), Some("{}".to_string()));
    match request_result("GetX", "{\"requestStatus\": {\"result\": false, \"code\": 204, \"comment\": \"Your request type is not valid.\"}}") {
        Err(RawError::Request { request_type, code, comment }) => {
            assert_eq!(request_type, "GetX");
            assert_eq!(code, 204);
            assert_eq!(comment, "Your request type is not valid.");
        },
        _ => panic!("a failed request"),
    }
    match request_result("GetY", "{}") {
        Err(RawError::Request { code, comment, .. }) => {
            assert_eq!(code, 0);
            assert_eq!(comment, "request failed");
        },
        _ => panic!("no status means failure"),
    }
}

#[test]
fn json_strings_are_escaped_as_serde_json_does() {
    assert_eq!(request_message("a\"b\\c", "1", "{}"), "{\"d\":{\"requestData\":{},\"requestId\":\"1\",\"requestType\":\"a\\\"b\\\\c\"},\"op\":6}");
    let identify = Identify { rpc_version: 1, authentication: Some("x\u{1}\n\t\u{8}\u{c}\r\u{1f}é/".into()) };
    assert_eq!(
        identify_message(&identify),
        "{\"d\":{\"authentication\":\"x\\u0001\\n\\t\\b\\f\\r\\u001fé/\",\"rpcVersion\":1},\"op\":1}"
    );
}

#[test]
fn request_ids_can_be_checked_before_taking() {
    let mut ids = RequestIds::new();
    assert_eq!(ids.peek(), 1);
    ids.take();
    assert_eq!(ids.peek(), 2);
}
