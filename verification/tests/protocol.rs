use easechat::adapt::WsHandlerAdapt;
use easechat::legacy;
use easechat::protocol::{CloseCode, Message, MsgServiceHandler, Reply};
use std::collections::VecDeque;

fn chars(s: &str) -> VecDeque<char> {
    s.chars().collect()
}

fn close_of(r: Reply) -> (CloseCode, String) {
    match r {
        Reply::Close { code, reason } => (code, reason),
        other => panic!("expected a close, got {:?}", other),
    }
}

#[test]
fn handshake_identifies() {
    let mut h = MsgServiceHandler::new();
    assert_eq!(h.ep_id(), None);
    match h.handle_message_signal(chars("1h|16|eafc5479a7e9f012")) {
        Reply::Identify { ep_id } => assert_eq!(ep_id, "eafc5479a7e9f012"),
        other => panic!("{:?}", other),
    }
    assert_eq!(h.ep_id(), Some("eafc5479a7e9f012".to_string()));
}

#[test]
fn text_after_handshake() {
    let mut h = MsgServiceHandler::new();
    h.handle_message_signal(chars("1h|3|ep1"));
    match h.handle_message_signal(chars("1t|7|c/lobby|10|helloworld")) {
        Reply::Text { src_ep_id, chan_id, text } => {
            assert_eq!(src_ep_id, "ep1");
            assert_eq!(chan_id, "c/lobby");
            assert_eq!(text, "helloworld");
        },
        other => panic!("{:?}", other),
    }
}

#[test]
fn chan_after_handshake() {
    let mut h = MsgServiceHandler::new();
    h.handle_message_signal(chars("1h|3|ep1"));
    match h.handle_message_signal(chars("1c|7|c/lobby|1548507103|2140083600")) {
        Reply::Chan { src_ep_id, chan_id, valid_until_sec, valid_until_nanos } => {
            assert_eq!(src_ep_id, "ep1");
            assert_eq!(chan_id, "c/lobby");
            assert_eq!(valid_until_sec, 1548507103);
            assert_eq!(valid_until_nanos, 2140083600);
        },
        other => panic!("{:?}", other),
    }
}

#[test]
fn text_before_handshake_is_refused() {
    let mut h = MsgServiceHandler::new();
    let (code, reason) = close_of(h.handle_message_signal(chars("1t|7|c/lobby|10|helloworld")));
    assert_eq!(code, CloseCode::Status);
    assert_eq!(reason, "Connection unidentified");
    let (code, _) = close_of(h.handle_message_signal(chars("1c|7|c/lobby|1|2")));
    assert_eq!(code, CloseCode::Status);
    assert_eq!(h.ep_id(), None);
}

#[test]
fn disconnect_closes_with_reason() {
    let mut h = MsgServiceHandler::new();
    let (code, reason) = close_of(h.handle_message_signal(chars("1d|11|just logout")));
    assert_eq!(code, CloseCode::Normal);
    assert_eq!(reason, "just logout");
}

#[test]
fn other_version_is_refused() {
    let mut h = MsgServiceHandler::new();
    let (code, reason) = close_of(h.handle_message_signal(chars("2h|3|abc")));
    assert_eq!(code, CloseCode::Protocol);
    assert_eq!(reason, "Protocol other than '1' is not supported");
    let (code, _) = close_of(h.handle_message_signal(chars("")));
    assert_eq!(code, CloseCode::Protocol);
}

#[test]
fn unknown_type_is_refused() {
    let mut h = MsgServiceHandler::new();
    let (code, reason) = close_of(h.handle_message_signal(chars("1x|3|abc")));
    assert_eq!(code, CloseCode::Invalid);
    assert_eq!(reason, "Invalid message type: expected 'h', 't', 'c' or 'd'");
    let (code, _) = close_of(h.handle_message_signal(chars("1h")));
    assert_eq!(code, CloseCode::Invalid);
    let (code, _) = close_of(h.handle_message_signal(chars("1h-3|abc")));
    assert_eq!(code, CloseCode::Invalid);
}

#[test]
fn binary_is_refused() {
    let mut h = MsgServiceHandler::new();
    let (code, reason) = close_of(h.on_message(Message::Binary));
    assert_eq!(code, CloseCode::Unsupported);
    assert_eq!(reason, "Please input as string text");
    match h.on_message(Message::Text(chars("1h|2|ab"))) {
        Reply::Identify { ep_id } => assert_eq!(ep_id, "ab"),
        other => panic!("{:?}", other),
    }
}

#[test]
fn overflowing_number_is_reported() {
    let mut h = MsgServiceHandler::new();
    h.handle_message_signal(chars("1h|3|ep1"));
    assert!(matches!(
        h.handle_message_signal(chars("1c|1|c|99999999999999999999|0")),
        Reply::NumberOverflow
    ));
    assert!(matches!(h.handle_message_signal(chars("1h|99999999999999999999|x")), Reply::NumberOverflow));
    assert_eq!(h.ep_id(), Some("ep1".to_string()));
}

#[test]
fn second_handshake_renames() {
    let mut h = MsgServiceHandler::new();
    h.handle_message_signal(chars("1h|1|a"));
    h.handle_message_signal(chars("1h|1|b"));
    assert_eq!(h.ep_id(), Some("b".to_string()));
}

#[test]
fn v2_identify() {
    let mut a = WsHandlerAdapt::new(7u32);
    match a.handle_message_signal(chars("2i|4|abcd")) {
        Reply::Identify { ep_id } => assert_eq!(ep_id, "abcd"),
        other => panic!("{:?}", other),
    }
    assert_eq!(a.inner, 7);
}

#[test]
fn v2_refusals() {
    let mut a = WsHandlerAdapt::new(());
    let (code, reason) = close_of(a.handle_message_signal(chars("1h|1|a")));
    assert_eq!(code, CloseCode::Protocol);
    assert_eq!(reason, "Protocol not supported");
    let (code, reason) = close_of(a.handle_message_signal(chars("2l|1|a")));
    assert_eq!(code, CloseCode::Invalid);
    assert_eq!(reason, "Invalid message type");
    let (code, reason) = close_of(a.on_binary());
    assert_eq!(code, CloseCode::Unsupported);
    assert_eq!(reason, "Please send string message");
}

#[test]
fn legacy_protocol() {
    let mut h = legacy::MsgServiceHandler::new();
    let (code, reason) = close_of(h.handle_message_signal(chars("1t|1|c|1|x")));
    assert_eq!(code, CloseCode::Status);
    assert_eq!(reason, "Connection unidentified");
    match h.handle_message_signal(chars("1h|3|ep1")) {
        Reply::Identify { ep_id } => assert_eq!(ep_id, "ep1"),
        other => panic!("{:?}", other),
    }
    match h.handle_message_signal(chars("1t|7|c/lobby|10|helloworld")) {
        Reply::Text { src_ep_id, chan_id, text } => {
            assert_eq!(src_ep_id, "ep1");
            assert_eq!(chan_id, "c/lobby");
            assert_eq!(text, "helloworld");
        },
        other => panic!("{:?}", other),
    }
    match h.handle_message_signal(chars("1c|7|c/lobby|1548507103|2140083600")) {
        Reply::Chan { chan_id, valid_until_sec, valid_until_nanos, .. } => {
            assert_eq!(chan_id, "c/lobby");
            assert_eq!(valid_until_sec, 1548507103);
            assert_eq!(valid_until_nanos, 2140083600);
        },
        other => panic!("{:?}", other),
    }
    let (code, reason) = close_of(h.handle_message_signal(chars("1d|1|x")));
    assert_eq!(code, CloseCode::Invalid);
    assert_eq!(reason, "Invalid message type: expected 't' or 'c'");
}
