//! Control protocol, hook matcher and message parser behavior.

use claude_agent::capabilities::{ClientCapabilities, ServerCapabilities};
use claude_agent::hooks::HookManager;
use claude_agent::json::Json;
use claude_agent::message::{Message, parse_message};
use claude_agent::permissions::{
    PermissionRequest, PermissionResult, PermissionResultAllow, ToolPermissionContext,
};
use claude_agent::protocol::{
    ControlMessage, ControlRequest, ControlResponse, InitResponse, ProtocolHandler,
};
use claude_agent::command::PromptInput;
use claude_agent::hooks::HookEvent;
use claude_agent::hooks::{HookDecision, HookOutput, combine_hook_outputs};
use claude_agent::identifiers::{RequestId, ToolName};
use claude_agent::hooks::parse_event;
use claude_agent::permissions::{
    decode_permission_result, encode_permission_result, PermissionResultDeny,
};

/// Convert a parsed serde value into the library's JSON type.
fn to_json(v: &serde_json::Value) -> Json {
    match v {
        serde_json::Value::Null => Json::Null,
        serde_json::Value::Bool(b) => Json::Bool(*b),
        serde_json::Value::Number(n) => {
            if let Some(i) = n.as_i64() {
                Json::Int(i)
            } else {
                Json::Num(n.to_string())
            }
        }
        serde_json::Value::String(s) => Json::Str(s.clone()),
        serde_json::Value::Array(a) => Json::Arr(a.iter().map(to_json).collect()),
        serde_json::Value::Object(m) => {
            Json::Obj(m.iter().map(|(k, v)| (k.clone(), to_json(v))).collect())
        }
    }
}

fn obj(members: Vec<(&str, Json)>) -> Json {
    Json::Obj(
        members
            .into_iter()
            .map(|(k, v)| (k.to_string(), v))
            .collect(),
    )
}

#[test]
fn test_request_id_generation() {
    let mut handler = ProtocolHandler::new();
    let id1 = handler.next_id();
    let id2 = handler.next_id();
    assert_ne!(id1, id2);
}

#[test]
fn test_init_request_creation() {
    let handler = ProtocolHandler::new();
    let init_req = handler.create_init_request();
    assert_eq!(init_req.protocol_version, "1.0");
    assert!(init_req
        .capabilities
        .contains(ClientCapabilities::bidirectional_only()));
    assert_eq!(init_req.capabilities, ClientCapabilities::all_features());
}

#[test]
fn test_serialize_deserialize() {
    let mut handler = ProtocolHandler::new();
    let request = handler.create_interrupt_request();
    let message = ControlMessage::Request(request);

    let serialized = handler.serialize_message(&message).unwrap();
    assert!(serialized.ends_with('\n'));
    let value: serde_json::Value = serde_json::from_str(serialized.trim()).unwrap();
    let deserialized = handler.deserialize_message(&to_json(&value)).unwrap();

    match deserialized {
        ControlMessage::Request(ControlRequest::Interrupt { .. }) => {}
        _ => panic!("Wrong message type"),
    }
}

#[test]
fn test_deserialize_invalid_json() {
    let parsed = serde_json::from_str::<serde_json::Value>("not valid json");
    assert!(parsed.is_err());
}

#[test]
fn test_deserialize_invalid_message_structure() {
    let handler = ProtocolHandler::new();
    let invalid = obj(vec![("type", Json::Str("unknown_type".to_string()))]);
    let result = handler.deserialize_message(&invalid);
    assert!(result.is_err());
}

#[test]
fn test_deserialize_missing_fields() {
    let handler = ProtocolHandler::new();
    let missing = obj(vec![("type", Json::Str("request".to_string()))]);
    let result = handler.deserialize_message(&missing);
    assert!(result.is_err());
}

#[test]
fn test_handle_response_with_missing_pending_request() {
    let mut handler = ProtocolHandler::new();
    handler.set_initialized(true);

    let response = ControlResponse::Success {
        id: RequestId::new("non-existent-req"),
        data: None,
    };

    let action = handler.handle_response(response);
    assert!(matches!(
        action,
        claude_agent::protocol::RouteAction::DropLate(_)
    ));
}

#[test]
fn test_hook_response_without_channel() {
    let mut handler = ProtocolHandler::new();

    let response = ControlResponse::Hook {
        id: "hook-1".to_string(),
        event: HookEvent::PreToolUse,
        event_data: Some(obj(vec![
            ("toolName", Json::Str("Read".to_string())),
            (
                "toolInput",
                obj(vec![("file_path", Json::Str("test.txt".to_string()))]),
            ),
        ])),
    };

    let action = handler.handle_response(response);
    assert!(matches!(
        action,
        claude_agent::protocol::RouteAction::DropHook
    ));
}

#[test]
fn test_permission_response_without_channel() {
    let mut handler = ProtocolHandler::new();

    let response = ControlResponse::Permission {
        id: RequestId::new("perm-1"),
        request: PermissionRequest {
            tool_name: ToolName::new("test"),
            tool_input: obj(vec![]),
            context: ToolPermissionContext {
                suggestions: vec![],
            },
        },
    };

    let action = handler.handle_response(response);
    assert!(matches!(
        action,
        claude_agent::protocol::RouteAction::DropPermission
    ));
}

#[test]
fn test_init_response_with_wrong_version() {
    let mut handler = ProtocolHandler::new();

    let init_response = InitResponse {
        protocol_version: "999.0".to_string(),
        cli_version: "1.0.0".to_string(),
        capabilities: ServerCapabilities::all_features(),
        session_id: "test".to_string(),
    };

    let result = handler.handle_init_response(&init_response);
    assert!(result.is_err());
    assert!(!handler.is_initialized());
}

#[test]
fn test_send_request_without_init() {
    let mut handler = ProtocolHandler::new();
    assert!(!handler.is_initialized());

    let request = handler.create_interrupt_request();
    let result = handler.send_request(&request);
    assert!(result.is_err());
}

#[test]
fn test_serialize_all_request_types() {
    let mut handler = ProtocolHandler::new();

    let req = handler.create_interrupt_request();
    let msg = ControlMessage::Request(req);
    assert!(handler.serialize_message(&msg).is_ok());

    let req = handler.create_send_message_request("test".to_string());
    let msg = ControlMessage::Request(req);
    assert!(handler.serialize_message(&msg).is_ok());

    let req = handler.create_hook_response("hook-1".to_string(), obj(vec![]));
    let msg = ControlMessage::Request(req);
    assert!(handler.serialize_message(&msg).is_ok());

    let req = handler.create_permission_response(
        RequestId::new("req-1"),
        PermissionResult::Allow(PermissionResultAllow {
            updated_input: None,
        }),
    );
    let msg = ControlMessage::Request(req);
    assert!(handler.serialize_message(&msg).is_ok());
}

#[test]
fn test_serialize_all_response_types() {
    let handler = ProtocolHandler::new();

    let resp = ControlResponse::Success {
        id: RequestId::new("req-1"),
        data: Some(obj(vec![("result", Json::Str("ok".to_string()))])),
    };
    let msg = ControlMessage::Response(resp);
    assert!(handler.serialize_message(&msg).is_ok());

    let resp = ControlResponse::Error {
        id: RequestId::new("req-1"),
        message: "test error".to_string(),
        code: Some("ERR_TEST".to_string()),
    };
    let msg = ControlMessage::Response(resp);
    assert!(handler.serialize_message(&msg).is_ok());

    let resp = ControlResponse::Hook {
        id: "hook-1".to_string(),
        event: HookEvent::PreToolUse,
        event_data: Some(obj(vec![
            ("toolName", Json::Str("Read".to_string())),
            (
                "toolInput",
                obj(vec![("file_path", Json::Str("test.txt".to_string()))]),
            ),
        ])),
    };
    let msg = ControlMessage::Response(resp);
    assert!(handler.serialize_message(&msg).is_ok());

    let resp = ControlResponse::Permission {
        id: RequestId::new("perm-1"),
        request: PermissionRequest {
            tool_name: ToolName::new("test"),
            tool_input: obj(vec![]),
            context: ToolPermissionContext {
                suggestions: vec![],
            },
        },
    };
    let msg = ControlMessage::Response(resp);
    assert!(handler.serialize_message(&msg).is_ok());
}

#[test]
fn test_get_request_id() {
    let interrupt = ControlRequest::Interrupt {
        id: RequestId::new("id1"),
    };
    assert_eq!(ProtocolHandler::get_request_id(&interrupt).as_str(), "id1");

    let send_msg = ControlRequest::SendMessage {
        id: RequestId::new("id2"),
        content: "test".to_string(),
    };
    assert_eq!(ProtocolHandler::get_request_id(&send_msg).as_str(), "id2");

    let hook_resp = ControlRequest::HookResponse {
        id: RequestId::new("id3"),
        hook_id: "hook".to_string(),
        response: obj(vec![]),
    };
    assert_eq!(ProtocolHandler::get_request_id(&hook_resp).as_str(), "id3");

    let perm_resp = ControlRequest::PermissionResponse {
        id: RequestId::new("id4"),
        request_id: RequestId::new("perm"),
        result: PermissionResult::Allow(PermissionResultAllow {
            updated_input: None,
        }),
    };
    assert_eq!(ProtocolHandler::get_request_id(&perm_resp).as_str(), "id4");
}

#[test]
fn test_request_round_trip_runtime() {
    let mut handler = ProtocolHandler::new();
    let req = handler.create_send_message_request("hello there".to_string());
    let encoded = claude_agent::protocol::encode_control_request(&req);
    let decoded = claude_agent::protocol::decode_control_message(&encoded).unwrap();
    match decoded {
        ControlMessage::Request(ControlRequest::SendMessage { content, .. }) => {
            assert_eq!(content, "hello there");
        }
        _ => panic!("wrong decoded shape"),
    }
}

#[test]
fn test_pending_request_is_delivered() {
    let mut handler = ProtocolHandler::new();
    handler.set_initialized(true);
    let req = handler.create_interrupt_request();
    let id = ProtocolHandler::get_request_id(&req);
    handler.send_request(&req).unwrap();
    let response = ControlResponse::Success { id, data: None };
    let action = handler.handle_response(response);
    assert!(matches!(
        action,
        claude_agent::protocol::RouteAction::Deliver(_)
    ));
}

#[test]
fn test_matcher_wildcard() {
    assert!(HookManager::matches(
        Some("*".to_string()).as_ref(),
        Some("any_tool".to_string()).as_ref()
    ));
    assert!(HookManager::matches(
        None,
        Some("any_tool".to_string()).as_ref()
    ));
}

#[test]
fn test_matcher_specific() {
    assert!(HookManager::matches(
        Some("Bash".to_string()).as_ref(),
        Some("Bash".to_string()).as_ref()
    ));
    assert!(!HookManager::matches(
        Some("Bash".to_string()).as_ref(),
        Some("Write".to_string()).as_ref()
    ));
}

#[test]
fn test_matcher_pattern() {
    assert!(HookManager::matches(
        Some("Write|Edit".to_string()).as_ref(),
        Some("Write".to_string()).as_ref()
    ));
    assert!(HookManager::matches(
        Some("Write|Edit".to_string()).as_ref(),
        Some("Edit".to_string()).as_ref()
    ));
    assert!(!HookManager::matches(
        Some("Write|Edit".to_string()).as_ref(),
        Some("Bash".to_string()).as_ref()
    ));
}

#[test]
fn test_combine_hook_outputs_stops_at_block() {
    let mut first = HookOutput::empty();
    first.system_message = Some("first".to_string());
    let mut blocker = HookOutput::empty();
    blocker.decision = Some(HookDecision::Block);
    blocker.system_message = Some("blocked".to_string());
    let mut last = HookOutput::empty();
    last.system_message = Some("last".to_string());
    let combined = combine_hook_outputs(&vec![first, blocker, last]);
    assert_eq!(combined.decision, Some(HookDecision::Block));
    assert_eq!(combined.system_message.as_deref(), Some("blocked"));
}

#[test]
fn test_parse_user_message() {
    let data = obj(vec![
        ("type", Json::Str("user".to_string())),
        (
            "message",
            obj(vec![
                ("role", Json::Str("user".to_string())),
                ("content", Json::Str("Hello there!".to_string())),
            ]),
        ),
    ]);

    let result = parse_message(data);
    assert!(result.is_ok());
}

#[test]
fn test_parse_invalid_message() {
    let data = obj(vec![
        ("type", Json::Str("invalid_type".to_string())),
        ("data", Json::Str("some data".to_string())),
    ]);

    let result = parse_message(data);
    assert!(result.is_err());
}

#[test]
fn test_parse_result_message() {
    let data = obj(vec![
        ("type", Json::Str("result".to_string())),
        ("subtype", Json::Str("success".to_string())),
        ("duration_ms", Json::Int(1500)),
        ("duration_api_ms", Json::Int(1200)),
        ("is_error", Json::Bool(false)),
        ("num_turns", Json::Int(2)),
        ("session_id", Json::Str("s-1".to_string())),
    ]);
    match parse_message(data).unwrap() {
        Message::Result {
            num_turns,
            duration_ms,
            is_error,
            ..
        } => {
            assert_eq!(num_turns, 2);
            assert_eq!(duration_ms, 1500);
            assert!(!is_error);
        }
        _ => panic!("expected a result message"),
    }
}

#[test]
fn test_prompt_input_conversions() {
    let prompt1 = PromptInput::from_text("hello");
    let prompt2 = PromptInput::from_text(&String::from("world"));
    assert!(matches!(prompt1, PromptInput::Text(s) if s == "hello"));
    assert!(matches!(prompt2, PromptInput::Text(s) if s == "world"));
}

#[test]
fn test_permission_result_round_trip_runtime() {
    let deny = PermissionResult::Deny(PermissionResultDeny {
        message: "not allowed".to_string(),
        interrupt: true,
    });
    let encoded = encode_permission_result(&deny);
    match decode_permission_result(&encoded) {
        Some(PermissionResult::Deny(d)) => {
            assert_eq!(d.message, "not allowed");
            assert!(d.interrupt);
        }
        _ => panic!("expected the denial back"),
    }
}

#[test]
fn test_capabilities_json_round_trip() {
    let caps = ClientCapabilities::all_features();
    let encoded = caps.to_json();
    assert_eq!(ClientCapabilities::from_json(&encoded), Some(caps));
    let server = ServerCapabilities::empty();
    let encoded = server.to_json();
    assert_eq!(ServerCapabilities::from_json(&encoded), Some(server));
}

#[test]
fn test_parse_assistant_blocks() {
    let data = obj(vec![
        ("type", Json::Str("assistant".to_string())),
        (
            "message",
            obj(vec![
                ("model", Json::Str("m".to_string())),
                (
                    "content",
                    Json::Arr(vec![
                        obj(vec![
                            ("type", Json::Str("thinking".to_string())),
                            ("thinking", Json::Str("hmm".to_string())),
                            ("signature", Json::Str("sig".to_string())),
                        ]),
                        obj(vec![
                            ("type", Json::Str("tool_use".to_string())),
                            ("id", Json::Str("t1".to_string())),
                            ("name", Json::Str("Read".to_string())),
                            ("input", obj(vec![])),
                        ]),
                    ]),
                ),
            ]),
        ),
    ]);
    match parse_message(data).unwrap() {
        Message::Assistant { message, .. } => {
            assert_eq!(message.model, "m");
            assert_eq!(message.content.len(), 2);
        }
        _ => panic!("expected an assistant message"),
    }
}

#[test]
fn test_parse_stream_event() {
    let data = obj(vec![
        ("type", Json::Str("stream_event".to_string())),
        ("uuid", Json::Str("u-1".to_string())),
        ("session_id", Json::Str("s-1".to_string())),
        ("event", obj(vec![("kind", Json::Str("delta".to_string()))])),
    ]);
    match parse_message(data).unwrap() {
        Message::StreamEvent { uuid, .. } => assert_eq!(uuid, "u-1"),
        _ => panic!("expected a stream event"),
    }
}

#[test]
fn test_parse_rejects_bad_block() {
    let data = obj(vec![
        ("type", Json::Str("assistant".to_string())),
        (
            "message",
            obj(vec![
                ("model", Json::Str("m".to_string())),
                (
                    "content",
                    Json::Arr(vec![obj(vec![(
                        "type",
                        Json::Str("mystery".to_string()),
                    )])]),
                ),
            ]),
        ),
    ]);
    assert!(parse_message(data).is_err());
}

#[test]
fn test_event_names_round_trip() {
    for event in [
        HookEvent::PreToolUse,
        HookEvent::PostToolUse,
        HookEvent::UserPromptSubmit,
        HookEvent::Stop,
        HookEvent::SubagentStop,
        HookEvent::PreCompact,
    ] {
        assert_eq!(parse_event(event.name()), Some(event));
    }
}
