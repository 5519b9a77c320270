use smartc::envelope::{Arg, SignalRMessage};
use smartc::dispatch::{classify_target, dispatch, HubTarget, Inbound};
use smartc::hub::{ClientError, ConnectionState, SmaRTCClient, QUEUE_CAPACITY};

const JOIN: &str = "{\"type\":1,\"target\":\"JoinSession\",\"arguments\":[\"lobby\",\"alice\"],\"invocationId\":\"1\"}\u{1e}";
const SEND: &str =
    "{\"type\":1,\"target\":\"SendSignalToSession\",\"arguments\":[\"lobby\",\"hi\",\"alice\"],\"invocationId\":\"2\"}\u{1e}";
const LEAVE: &str = "{\"type\":1,\"target\":\"LeaveSession\",\"arguments\":[\"lobby\",\"alice\"],\"invocationId\":\"3\"}\u{1e}";
const PONG: &str = "{\"type\":6}\u{1e}";

fn connected() -> SmaRTCClient {
    let mut c = SmaRTCClient::new("http://localhost:5001/signalhub");
    c.begin_handshake();
    c.finish_handshake("{}\u{1e}").unwrap();
    c
}

fn drain(c: &mut SmaRTCClient) -> Vec<String> {
    let mut out = Vec::new();
    while let Some(f) = c.next_frame() {
        out.push(f);
    }
    out
}

fn invocation(target: &str, args: Vec<Arg>) -> SignalRMessage {
    SignalRMessage { msg_type: 1, target: Some(target.to_string()), arguments: Some(args), invocation_id: None }
}

fn text(s: &str) -> Arg {
    Arg::Text(s.to_string())
}

#[test]
fn handshake_request_text() {
    let mut c = SmaRTCClient::new("http://h");
    assert_eq!(c.begin_handshake(), "{\"protocol\":\"json\",\"version\":1}\u{1e}");
    assert_eq!(*c.state(), ConnectionState::Handshaking);
}

#[test]
fn empty_reply_connects() {
    let mut c = SmaRTCClient::new("http://h");
    c.begin_handshake();
    assert_eq!(c.finish_handshake("{}\u{1e}"), Ok(()));
    assert_eq!(*c.state(), ConnectionState::Connected);
    assert!(c.is_connected());
}

#[test]
fn error_reply_fails_handshake() {
    let mut c = SmaRTCClient::new("http://h");
    c.begin_handshake();
    let r = c.finish_handshake("{\"error\":\"unsupported version\"}\u{1e}");
    assert_eq!(r, Err(ClientError::HandshakeFailure("unsupported version".to_string())));
    assert_eq!(*c.state(), ConnectionState::Failed("unsupported version".to_string()));
    assert_eq!(c.send_message("x"), Err(ClientError::NotConnected));
}

#[test]
fn empty_error_field_is_success() {
    let mut c = SmaRTCClient::new("http://h");
    c.begin_handshake();
    assert_eq!(c.finish_handshake("{\"error\":\"\"}\u{1e}"), Ok(()));
    assert_eq!(*c.state(), ConnectionState::Connected);
}

#[test]
fn handshake_outside_handshaking_is_refused() {
    let mut c = SmaRTCClient::new("http://h");
    assert_eq!(c.complete_handshake(None), Err(ClientError::NotConnected));
    assert_eq!(*c.state(), ConnectionState::Disconnected);
}

#[test]
fn leave_before_connect_is_not_connected() {
    let mut c = SmaRTCClient::new("http://h");
    assert_eq!(c.leave_room(), Err(ClientError::NotConnected));
    assert_eq!(c.next_frame(), None);
    assert_eq!(c.send_message("hi"), Err(ClientError::NotConnected));
}

#[test]
fn join_then_send_in_order() {
    let mut c = connected();
    c.join_room("lobby", "alice").unwrap();
    c.send_message("hi").unwrap();
    assert_eq!(drain(&mut c), vec![JOIN.to_string(), SEND.to_string()]);
    assert_eq!(c.get_username(), "alice");
    assert_eq!(c.get_room(), "lobby");
}

#[test]
fn join_before_connect_sets_identity() {
    let mut c = SmaRTCClient::new("http://h");
    assert_eq!(c.join_room("lobby", "alice"), Err(ClientError::NotConnected));
    assert_eq!(c.get_username(), "alice");
    assert_eq!(c.get_room(), "lobby");
    assert_eq!(c.next_frame(), None);
}

#[test]
fn send_without_join_is_refused() {
    let mut c = connected();
    assert_eq!(c.send_message("hi"), Err(ClientError::NotJoined));
    assert_eq!(c.next_frame(), None);
}

#[test]
fn leave_queues_leave_then_disconnects() {
    let mut c = connected();
    c.join_room("lobby", "alice").unwrap();
    assert_eq!(c.leave_room(), Ok(()));
    assert_eq!(*c.state(), ConnectionState::Disconnected);
    assert_eq!(drain(&mut c), vec![JOIN.to_string(), LEAVE.to_string()]);
    assert_eq!(c.leave_room(), Err(ClientError::NotConnected));
    assert_eq!(c.next_frame(), None);
}

#[test]
fn leave_without_join_sends_nothing() {
    let mut c = connected();
    assert_eq!(c.leave_room(), Ok(()));
    assert_eq!(*c.state(), ConnectionState::Disconnected);
    assert_eq!(c.next_frame(), None);
}

#[test]
fn frames_drain_in_enqueue_order() {
    let mut c = connected();
    c.join_room("r", "u").unwrap();
    let n = 50;
    for i in 0..n {
        c.send_message(&format!("m{}", i)).unwrap();
    }
    let out = drain(&mut c);
    assert_eq!(out.len(), n + 1);
    for i in 0..n {
        assert!(out[i + 1].contains(&format!("\"m{}\"", i)));
    }
}

#[test]
fn full_queue_refuses_without_dropping() {
    let mut c = connected();
    c.join_room("r", "u").unwrap();
    for i in 1..QUEUE_CAPACITY {
        c.send_message(&format!("m{}", i)).unwrap();
    }
    assert_eq!(c.send_message("over"), Err(ClientError::QueueFull));
    let first = c.next_frame().unwrap();
    assert!(first.contains("JoinSession"));
    assert_eq!(c.send_message("over"), Ok(()));
    let out = drain(&mut c);
    assert_eq!(out.len(), QUEUE_CAPACITY);
    assert!(out[QUEUE_CAPACITY - 1].contains("\"over\""));
}

#[test]
fn ping_reply_goes_ahead_of_queued_frames() {
    let mut c = connected();
    c.join_room("lobby", "alice").unwrap();
    c.send_message("hi").unwrap();
    let ping = SignalRMessage { msg_type: 6, target: None, arguments: None, invocation_id: None };
    assert_eq!(c.handle_inbound(&ping), Inbound::Ping);
    assert_eq!(c.handle_inbound(&ping), Inbound::Ping);
    assert_eq!(drain(&mut c), vec![PONG.to_string(), PONG.to_string(), JOIN.to_string(), SEND.to_string()]);
}

#[test]
fn ping_reply_even_when_queue_full() {
    let mut c = connected();
    c.join_room("r", "u").unwrap();
    for _ in 1..QUEUE_CAPACITY {
        c.send_message("m").unwrap();
    }
    let ping = SignalRMessage { msg_type: 6, target: None, arguments: None, invocation_id: None };
    c.handle_inbound(&ping);
    assert_eq!(c.next_frame(), Some(PONG.to_string()));
}

#[test]
fn own_signal_is_suppressed() {
    let mut c = connected();
    c.join_room("lobby", "alice").unwrap();
    let m = invocation("SendSignal", vec![text("alice"), text("hello")]);
    assert_eq!(c.handle_inbound(&m), Inbound::Ignored);
    let m = invocation("SendSignal", vec![text("bob"), text(" \"hello\" ")]);
    assert_eq!(c.handle_inbound(&m), Inbound::Signal("bob".to_string(), " \"hello\" ".to_string()));
}

#[test]
fn user_joined_and_left() {
    let own = "alice".to_string();
    assert_eq!(dispatch(&invocation("NewUserArrived", vec![text("bob")]), &own), Inbound::UserJoined("bob".to_string()));
    assert_eq!(dispatch(&invocation("UserLeft", vec![text("bob")]), &own), Inbound::UserLeft("bob".to_string()));
}

#[test]
fn malformed_or_unknown_invocations_are_ignored() {
    let own = "alice".to_string();
    assert_eq!(dispatch(&invocation("SendSignal", vec![text("bob")]), &own), Inbound::Ignored);
    assert_eq!(dispatch(&invocation("SendSignal", vec![Arg::Raw("5".to_string()), text("x")]), &own), Inbound::Ignored);
    assert_eq!(dispatch(&invocation("NewUserArrived", vec![]), &own), Inbound::Ignored);
    assert_eq!(dispatch(&invocation("UserLeft", vec![Arg::Raw("null".to_string())]), &own), Inbound::Ignored);
    assert_eq!(dispatch(&invocation("SomethingNew", vec![text("x")]), &own), Inbound::Ignored);
    let no_args = SignalRMessage { msg_type: 1, target: Some("UserLeft".to_string()), arguments: None, invocation_id: None };
    assert_eq!(dispatch(&no_args, &own), Inbound::Ignored);
    let other = SignalRMessage { msg_type: 3, target: None, arguments: None, invocation_id: None };
    assert_eq!(dispatch(&other, &own), Inbound::Ignored);
}

#[test]
fn targets_classified() {
    assert_eq!(classify_target(&"SendSignal".to_string()), HubTarget::SendSignal);
    assert_eq!(classify_target(&"NewUserArrived".to_string()), HubTarget::NewUserArrived);
    assert_eq!(classify_target(&"UserLeft".to_string()), HubTarget::UserLeft);
    assert_eq!(classify_target(&"sendsignal".to_string()), HubTarget::Unknown);
}

#[test]
fn write_failure_reported_once_then_not_connected() {
    let mut c = connected();
    c.join_room("r", "u").unwrap();
    c.mark_write_failed();
    assert_eq!(c.send_message("x"), Err(ClientError::TransportFailure));
    assert_eq!(*c.state(), ConnectionState::Disconnected);
    assert_eq!(c.send_message("x"), Err(ClientError::NotConnected));
}

#[test]
fn close_drops_waiting_frames() {
    let mut c = connected();
    c.join_room("r", "u").unwrap();
    c.mark_closed();
    assert_eq!(*c.state(), ConnectionState::Disconnected);
    assert_eq!(c.next_frame(), None);
}

#[test]
fn socket_url_from_hub_url() {
    assert_eq!(SmaRTCClient::new("http://localhost:5001/signalhub").ws_url(), "ws://localhost:5001/signalhub");
    assert_eq!(SmaRTCClient::new("https://hub.example/x").ws_url(), "wss://hub.example/x");
    assert!(SmaRTCClient::new("http://localhost:5001/signalhub").connect_target().is_ok());
    assert_eq!(SmaRTCClient::new("not a url").connect_target().err(), Some(ClientError::InvalidUrl));
}

#[test]
fn never_connected_lost_and_rejected_are_distinct() {
    let mut never = SmaRTCClient::new("http://h");
    let mut lost = connected();
    lost.mark_closed();
    let mut rejected = SmaRTCClient::new("http://h");
    rejected.begin_handshake();
    assert!(rejected.finish_handshake("{\"error\":\"unsupported version\"}\u{1e}").is_err());

    assert_eq!(never.send_message("x"), Err(ClientError::NotConnected));
    assert_eq!(*never.state(), ConnectionState::Disconnected);
    assert_eq!(lost.send_message("x"), Err(ClientError::TransportFailure));
    assert_eq!(*lost.state(), ConnectionState::Disconnected);
    assert_eq!(rejected.send_message("x"), Err(ClientError::NotConnected));
    assert_eq!(*rejected.state(), ConnectionState::Failed("unsupported version".to_string()));

    assert_eq!(lost.send_message("x"), Err(ClientError::NotConnected));
}

#[test]
fn close_after_leave_is_not_a_failure() {
    let mut c = connected();
    c.join_room("lobby", "alice").unwrap();
    c.leave_room().unwrap();
    assert_eq!(drain(&mut c), vec![JOIN.to_string(), LEAVE.to_string()]);
    c.mark_closed();
    assert_eq!(c.leave_room(), Err(ClientError::NotConnected));
}

#[test]
fn failed_join_does_not_count_as_joined() {
    let mut c = SmaRTCClient::new("http://h");
    assert_eq!(c.join_room("lobby", "alice"), Err(ClientError::NotConnected));
    c.begin_handshake();
    c.finish_handshake("{}\u{1e}").unwrap();
    assert_eq!(c.send_message("hi"), Err(ClientError::NotJoined));
    assert_eq!(c.next_frame(), None);
}

#[test]
fn reconnect_clears_lost_connection() {
    let mut c = connected();
    c.mark_closed();
    c.begin_handshake();
    c.finish_handshake("{}\u{1e}").unwrap();
    c.join_room("lobby", "alice").unwrap();
    assert_eq!(drain(&mut c), vec![JOIN.to_string()]);
}

#[test]
fn every_occurrence_of_scheme_replaced() {
    assert_eq!(SmaRTCClient::new("http://a/?next=http://b").ws_url(), "ws://a/?next=ws://b");
    assert_eq!(SmaRTCClient::new("ws://already").ws_url(), "ws://already");
}
