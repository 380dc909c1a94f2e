use alzed::codec::{from_bytes, from_value, into_value, to_bytes, to_text};
use alzed::json::{json_id_to_string, Json, JsonObject};
use alzed::rpc::{frame_kind, frame_message, is_method, is_method_value, notification, request};
use alzed::rpc::{frame_payload, trace_frame, FrameKind};

fn read(text: &str) -> Json {
    from_bytes(text.as_bytes()).unwrap()
}

#[test]
fn values_go_to_bytes_and_back() {
    let text = r#"{"a":[1,-2,null,true,false,"x\n\u0001é"],"b":{"c":{}},"n":18446744073709551615}"#;
    let bytes = to_bytes(read(text));
    assert_eq!(
        String::from_utf8(bytes.clone()).unwrap(),
        "{\"a\":[1,-2,null,true,false,\"x\\n\\u0001\u{e9}\"],\"b\":{\"c\":{}},\"n\":18446744073709551615}"
    );
    let again: serde_json::Value = serde_json::from_slice(&bytes).unwrap();
    let first: serde_json::Value = serde_json::from_str(text).unwrap();
    assert_eq!(again, first);
}

#[test]
fn members_are_written_in_the_order_of_their_keys() {
    assert_eq!(to_text(read(r#"{"b":1,"a":2,"b":3}"#)), r#"{"a":2,"b":3}"#);
}

#[test]
fn what_is_not_json_is_refused() {
    assert!(from_bytes(b"").is_err());
    assert!(from_bytes(b"{").is_err());
    assert!(from_bytes(b"{} {}").is_err());
    assert!(from_bytes(b"\"\xff\"").is_err());
    let error = from_bytes(b"nope").unwrap_err();
    assert!(error.reason.is_syntax());
}

#[test]
fn nesting_is_read_to_a_limit() {
    let deep = |n: usize| -> Vec<u8> { [vec![b'['; n], vec![b']'; n]].concat() };
    assert!(from_bytes(&deep(127)).is_ok());
    assert!(from_bytes(&deep(128)).is_err());
    assert_eq!(to_bytes(from_bytes(&deep(127)).unwrap()), deep(127));
}

#[test]
fn values_of_serde_json_convert_both_ways() {
    let value: serde_json::Value =
        serde_json::from_str(r#"{"a":[0.5,1e300,-7],"b":null,"c":"x"}"#).unwrap();
    assert_eq!(into_value(from_value(value.clone())), value);
}

#[test]
fn the_later_entry_counts() {
    let mut o = JsonObject::new();
    assert!(o.is_empty());
    o.insert("k", Json::number(1));
    o.insert("k", Json::number(2));
    assert!(!o.is_empty());
    assert_eq!(to_text(o.get("k").unwrap().copy()), "2");
    assert!(o.get("other").is_none());
    assert_eq!(to_text(Json::Object(o)), r#"{"k":2}"#);
    let mut o = JsonObject::new();
    for (i, key) in ["a", "b", "a", "c", "b", "a"].into_iter().enumerate() {
        o.insert(key, Json::number(i as u64));
    }
    assert_eq!(to_text(Json::Object(o)), r#"{"a":5,"b":4,"c":3}"#);
}

#[test]
fn members_are_found() {
    let v = read(r#"{"s":"text","a":[1],"n":null}"#);
    assert_eq!(v.get_str("s"), Some("text"));
    assert_eq!(v.get_str("a"), None);
    assert_eq!(v.get_str("missing"), None);
    assert_eq!(v.get("a").unwrap().as_array().unwrap().len(), 1);
    assert!(v.get("n").is_some());
    assert!(read("[1]").get("s").is_none());
    assert!(v.as_str().is_none());
    assert!(v.as_array().is_none());
}

#[test]
fn ids_are_strings_or_numbers() {
    assert_eq!(json_id_to_string(Some(&read("\"abc\""))), Some("abc".to_string()));
    assert_eq!(json_id_to_string(Some(&read("17"))), Some("17".to_string()));
    assert_eq!(json_id_to_string(Some(&read("-17"))), Some("-17".to_string()));
    assert_eq!(json_id_to_string(Some(&read("1.50"))), Some("1.5".to_string()));
    assert_eq!(json_id_to_string(Some(&read("null"))), None);
    assert_eq!(json_id_to_string(Some(&read("[1]"))), None);
    assert_eq!(json_id_to_string(None), None);
}

#[test]
fn requests_and_notifications_are_built() {
    assert_eq!(
        to_text(request(7, "m", read("[1]"))),
        r#"{"id":7,"jsonrpc":"2.0","method":"m","params":[1]}"#
    );
    assert_eq!(
        to_text(notification("m", Json::empty_array())),
        r#"{"jsonrpc":"2.0","method":"m","params":[]}"#
    );
    assert_eq!(
        frame_message(notification("m", Json::Null)),
        b"Content-Length: 44\r\n\r\n{\"jsonrpc\":\"2.0\",\"method\":\"m\",\"params\":null}".to_vec()
    );
}

#[test]
fn methods_are_told_apart() {
    assert!(is_method_value(&read(r#"{"method":"initialized"}"#), "initialized"));
    assert!(!is_method_value(&read(r#"{"method":"initialize"}"#), "initialized"));
    assert!(!is_method_value(&read(r#"{"method":1}"#), "1"));
    assert!(!is_method_value(&read("[]"), ""));
    assert!(is_method(br#"{"method":"initialized"}"#, "initialized"));
    assert!(!is_method(b"initialized", "initialized"));
}

#[test]
fn kinds_of_messages() {
    assert_eq!(frame_kind(&read(r#"{"id":1,"method":"m"}"#)), FrameKind::Request);
    assert_eq!(frame_kind(&read(r#"{"method":"m"}"#)), FrameKind::Notification);
    assert_eq!(frame_kind(&read(r#"{"id":1,"result":null}"#)), FrameKind::Response);
    assert_eq!(frame_kind(&read(r#"{"id":1,"error":{}}"#)), FrameKind::Error);
    assert_eq!(frame_kind(&read("{}")), FrameKind::Unknown);
    assert_eq!(FrameKind::Request.label(), "request");
    assert_eq!(FrameKind::Notification.label(), "notif");
    assert_eq!(FrameKind::Response.label(), "response");
    assert_eq!(FrameKind::Error.label(), "error");
    assert_eq!(FrameKind::Unknown.label(), "?");
}

#[test]
fn the_payload_is_params_then_result_then_error() {
    let text = |t: &str| frame_payload(&read(t)).map(|j| to_text(j.copy()));
    assert_eq!(text(r#"{"error":3,"result":2,"params":1}"#), Some("1".to_string()));
    assert_eq!(text(r#"{"error":3,"result":2}"#), Some("2".to_string()));
    assert_eq!(text(r#"{"error":3}"#), Some("3".to_string()));
    assert_eq!(text("{}"), None);
}

#[test]
fn summaries_name_id_method_and_payload() {
    let s = trace_frame(&read(r#"{"id":"a","method":"m","params":{"b":1,"a":[]}}"#));
    assert_eq!(s.kind, FrameKind::Request);
    assert_eq!(s.id, Some("\"a\"".to_string()));
    assert_eq!(s.method, Some("m".to_string()));
    assert_eq!(s.payload, r#"{"a":[],"b":1}"#);
    let s = trace_frame(&read(r#"{"id":5}"#));
    assert_eq!(s.kind, FrameKind::Unknown);
    assert_eq!(s.id, Some("5".to_string()));
    assert_eq!(s.method, None);
    assert_eq!(s.payload, "");
}
