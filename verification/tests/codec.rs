//! Wire codec behavior: frame accumulation, JSON emission, outbound frames.

use claude_agent::codec::{FrameAccumulator, PushOutcome, build_frame, trim_str};
use claude_agent::encode::encode_json;
use claude_agent::json::Json;
use claude_agent::protocol::{ControlRequest, wire_frame_for_request};
use claude_agent::identifiers::RequestId;
use claude_agent::transport::{TransportGate, TransportState};

fn obj(members: Vec<(&str, Json)>) -> Json {
    Json::Obj(
        members
            .into_iter()
            .map(|(k, v)| (k.to_string(), v))
            .collect(),
    )
}

#[test]
fn encode_json_scalars() {
    assert_eq!(encode_json(&Json::Null), "null");
    assert_eq!(encode_json(&Json::Bool(true)), "true");
    assert_eq!(encode_json(&Json::Bool(false)), "false");
    assert_eq!(encode_json(&Json::Int(0)), "0");
    assert_eq!(encode_json(&Json::Int(-42)), "-42");
    assert_eq!(encode_json(&Json::Int(1234567890)), "1234567890");
    assert_eq!(encode_json(&Json::Num("1.5".to_string())), "1.5");
}

#[test]
fn encode_json_escapes_strings() {
    let s = Json::Str("a\"b\\c\nd\te".to_string());
    assert_eq!(encode_json(&s), "\"a\\\"b\\\\c\\nd\\te\"");
    let ctl = Json::Str("\u{0001}".to_string());
    assert_eq!(encode_json(&ctl), "\"\\u0001\"");
}

#[test]
fn encode_json_compound() {
    let v = obj(vec![
        ("a", Json::Arr(vec![Json::Int(1), Json::Int(2)])),
        ("b", Json::Str("x".to_string())),
    ]);
    assert_eq!(encode_json(&v), "{\"a\":[1,2],\"b\":\"x\"}");
}

#[test]
fn encode_json_output_reparses() {
    let v = obj(vec![
        ("text", Json::Str("line1\nline2 \"quoted\"".to_string())),
        ("n", Json::Int(-7)),
        ("inner", obj(vec![("deep", Json::Arr(vec![Json::Null]))])),
    ]);
    let text = encode_json(&v);
    let reparsed: serde_json::Value = serde_json::from_str(&text).unwrap();
    assert_eq!(reparsed["text"], "line1\nline2 \"quoted\"");
    assert_eq!(reparsed["n"], -7);
    assert_eq!(reparsed["inner"]["deep"][0], serde_json::Value::Null);
}

#[test]
fn build_frame_is_one_line() {
    let v = obj(vec![("text", Json::Str("a\nb".to_string()))]);
    let frame = build_frame(&v);
    assert!(frame.ends_with('\n'));
    assert_eq!(frame.matches('\n').count(), 1);
    let reparsed: serde_json::Value = serde_json::from_str(frame.trim_end()).unwrap();
    assert_eq!(reparsed["text"], "a\nb");
}

#[test]
fn trim_strips_whitespace() {
    assert_eq!(trim_str("  hello \t\r\n"), "hello");
    assert_eq!(trim_str("\n \t "), "");
    assert_eq!(trim_str("x"), "x");
}

#[test]
fn accumulator_passes_whole_frames_through() {
    let mut acc = FrameAccumulator::new(1024);
    match acc.push_line("{\"type\":\"user\"}\n") {
        PushOutcome::Frame(f) => assert_eq!(f, "{\"type\":\"user\"}"),
        _ => panic!("expected a whole frame"),
    }
}

#[test]
fn accumulator_skips_blank_lines() {
    let mut acc = FrameAccumulator::new(1024);
    assert!(matches!(acc.push_line("   \n"), PushOutcome::Blank));
    assert!(matches!(acc.push_line(""), PushOutcome::Blank));
}

#[test]
fn accumulator_joins_partial_frames() {
    let mut acc = FrameAccumulator::new(1024);
    assert!(matches!(
        acc.push_line("{\"key\":"),
        PushOutcome::Incomplete
    ));
    match acc.push_line("\"value\"}") {
        PushOutcome::Frame(f) => assert_eq!(f, "{\"key\":\"value\"}"),
        _ => panic!("expected the joined frame"),
    }
}

#[test]
fn accumulator_rejects_oversized_frame_and_continues() {
    let mut acc = FrameAccumulator::new(8);
    // nine characters: one past the configured bound
    assert!(matches!(
        acc.push_line("{\"abcde\":"),
        PushOutcome::Overflow
    ));
    // the stream goes on: a fresh whole frame still parses
    match acc.push_line("{\"a\":1}") {
        PushOutcome::Frame(f) => assert_eq!(f, "{\"a\":1}"),
        _ => panic!("expected recovery after overflow"),
    }
}

#[test]
fn interrupt_wire_frame_is_simple_control() {
    let req = ControlRequest::Interrupt {
        id: RequestId::new("req-1"),
    };
    let frame = wire_frame_for_request(&req);
    assert_eq!(frame, "{\"type\":\"control\",\"method\":\"interrupt\"}\n");
}

#[test]
fn send_message_wire_frame_is_user_frame() {
    let req = ControlRequest::SendMessage {
        id: RequestId::new("req-2"),
        content: "hi".to_string(),
    };
    let frame = wire_frame_for_request(&req);
    assert_eq!(
        frame,
        "{\"type\":\"user\",\"message\":{\"role\":\"user\",\"content\":\"hi\"}}\n"
    );
}

#[test]
fn hook_response_wire_frame_is_full_envelope() {
    let req = ControlRequest::HookResponse {
        id: RequestId::new("req-3"),
        hook_id: "hook-9".to_string(),
        response: Json::Obj(vec![]),
    };
    let frame = wire_frame_for_request(&req);
    let reparsed: serde_json::Value = serde_json::from_str(frame.trim_end()).unwrap();
    assert_eq!(reparsed["type"], "request");
    assert_eq!(reparsed["method"], "hook_response");
    assert_eq!(reparsed["params"]["id"], "req-3");
    assert_eq!(reparsed["params"]["hook_id"], "hook-9");
}

#[test]
fn transport_gate_lifecycle() {
    let mut gate = TransportGate::new();
    assert!(!gate.is_ready());
    gate.connect();
    assert!(gate.is_ready());
    gate.close();
    assert!(!gate.is_ready());
    // closing again changes nothing
    gate.close();
    assert!(!gate.is_ready());
    // a closed transport cannot be revived by another connect
    gate.connect();
    assert!(!gate.is_ready());
    let _ = TransportState::Uninit;
}
