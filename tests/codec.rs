use smartc::decimal::int_decimal;
use smartc::envelope::{encode, envelope_text, Arg, SignalRMessage};
use smartc::frame::{encode_frame, split_frames};

fn invocation(target: &str, args: &[&str], id: &str) -> SignalRMessage {
    SignalRMessage {
        msg_type: 1,
        target: Some(target.to_string()),
        arguments: Some(args.iter().map(|a| Arg::Text(a.to_string())).collect()),
        invocation_id: Some(id.to_string()),
    }
}

#[test]
fn encode_invocation_exact_text() {
    let m = invocation("JoinSession", &["lobby", "alice"], "1");
    assert_eq!(
        encode(&m),
        "{\"type\":1,\"target\":\"JoinSession\",\"arguments\":[\"lobby\",\"alice\"],\"invocationId\":\"1\"}\u{1e}"
    );
}

#[test]
fn encode_ping_exact_text() {
    let m = SignalRMessage { msg_type: 6, target: None, arguments: None, invocation_id: None };
    assert_eq!(encode(&m), "{\"type\":6}\u{1e}");
}

#[test]
fn encode_has_exactly_one_separator_even_with_separator_in_text() {
    let m = invocation("SendSignalToSession", &["r", "a\u{1e}b\"c", "u"], "2");
    let frame = encode(&m);
    assert_eq!(frame.matches('\u{1e}').count(), 1);
    assert!(frame.ends_with('\u{1e}'));
    assert!(frame.contains("a\\u001eb\\\"c"));
}

#[test]
fn round_trip_through_json_parser() {
    let m = SignalRMessage {
        msg_type: 1,
        target: Some("SendSignal".to_string()),
        arguments: Some(vec![Arg::Text("bob".to_string()), Arg::Raw("[1,{\"k\":null}]".to_string()), Arg::Text("é\n\"".to_string())]),
        invocation_id: Some("42".to_string()),
    };
    let frame = encode(&m);
    let parts = split_frames(&frame);
    assert_eq!(parts.len(), 1);
    let v: serde_json::Value = serde_json::from_str(&parts[0]).unwrap();
    assert_eq!(v["type"], serde_json::Value::from(1));
    assert_eq!(v["target"], serde_json::Value::from("SendSignal"));
    assert_eq!(v["invocationId"], serde_json::Value::from("42"));
    let args = v["arguments"].as_array().unwrap();
    assert_eq!(args.len(), 3);
    assert_eq!(args[0].as_str(), Some("bob"));
    assert_eq!(args[1].to_string(), "[1,{\"k\":null}]");
    assert_eq!(args[2].as_str(), Some("é\n\""));
}

#[test]
fn omitted_fields_are_absent() {
    let m = SignalRMessage { msg_type: 1, target: Some("T".to_string()), arguments: None, invocation_id: None };
    assert_eq!(envelope_text(&m), "{\"type\":1,\"target\":\"T\"}");
    let m = SignalRMessage { msg_type: 1, target: None, arguments: Some(vec![]), invocation_id: None };
    assert_eq!(envelope_text(&m), "{\"type\":1,\"arguments\":[]}");
}

#[test]
fn decimal_text_of_integers() {
    assert_eq!(int_decimal(0), "0");
    assert_eq!(int_decimal(7), "7");
    assert_eq!(int_decimal(1234), "1234");
    assert_eq!(int_decimal(-56), "-56");
    assert_eq!(int_decimal(i32::MAX), "2147483647");
    assert_eq!(int_decimal(i32::MIN), "-2147483648");
}

#[test]
fn two_frames_split_in_order() {
    let parts = split_frames("{\"type\":6}\u{1e}{\"type\":1}");
    assert_eq!(parts, vec!["{\"type\":6}".to_string(), "{\"type\":1}".to_string()]);
}

#[test]
fn trailing_separator_gives_no_phantom_frame() {
    let parts = split_frames("{\"a\":1}\u{1e}{\"b\":2}\u{1e}");
    assert_eq!(parts, vec!["{\"a\":1}".to_string(), "{\"b\":2}".to_string()]);
    assert_eq!(split_frames("x\u{1e}"), vec!["x".to_string()]);
}

#[test]
fn empty_segments_are_dropped() {
    assert!(split_frames("").is_empty());
    assert!(split_frames("\u{1e}\u{1e}").is_empty());
    assert_eq!(split_frames("\u{1e}a\u{1e}\u{1e}b"), vec!["a".to_string(), "b".to_string()]);
}

#[test]
fn frame_appends_one_separator() {
    assert_eq!(encode_frame("{}"), "{}\u{1e}");
    assert_eq!(split_frames(&encode_frame("abc")), vec!["abc".to_string()]);
}

#[test]
fn string_escapes_exact_text() {
    let m = SignalRMessage {
        msg_type: 1,
        target: Some("\u{8}\t\n\u{c}\r\u{1}\u{1f}\"\\é\u{7f}".to_string()),
        arguments: None,
        invocation_id: None,
    };
    assert_eq!(envelope_text(&m), "{\"type\":1,\"target\":\"\\b\\t\\n\\f\\r\\u0001\\u001f\\\"\\\\é\u{7f}\"}");
}
