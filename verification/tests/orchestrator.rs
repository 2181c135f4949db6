//! Session manager, registry and tool facade behavior, driven with explicit
//! clocks and synthesized child frames.

use claude_agent::command::{
    ClaudeAgentOptions, CommandBuilder, PromptInput, build_child_env,
};
use claude_agent::error::ClaudeError;
use claude_agent::facade::{
    AgentEffect, ClaudeAgentAction, ClaudeAgentArgs, ClaudeAgentTool,
};
use claude_agent::json::Json;
use claude_agent::manager::{
    AgentManager, SpawnSessionRequest, calculate_has_more,
};
use claude_agent::message::{Message, parse_message};
use claude_agent::registry::AgentRegistry;

fn obj(members: Vec<(&str, Json)>) -> Json {
    Json::Obj(
        members
            .into_iter()
            .map(|(k, v)| (k.to_string(), v))
            .collect(),
    )
}

fn assistant_frame(text: &str) -> Json {
    obj(vec![
        ("type", Json::Str("assistant".to_string())),
        (
            "message",
            obj(vec![
                ("model", Json::Str("test-model".to_string())),
                (
                    "content",
                    Json::Arr(vec![obj(vec![
                        ("type", Json::Str("text".to_string())),
                        ("text", Json::Str(text.to_string())),
                    ])]),
                ),
            ]),
        ),
    ])
}

fn result_frame(num_turns: i64) -> Json {
    obj(vec![
        ("type", Json::Str("result".to_string())),
        ("subtype", Json::Str("success".to_string())),
        ("duration_ms", Json::Int(10)),
        ("duration_api_ms", Json::Int(8)),
        ("is_error", Json::Bool(false)),
        ("num_turns", Json::Int(num_turns)),
        ("session_id", Json::Str("child-session".to_string())),
    ])
}

fn spawn_request(max_turns: u32) -> SpawnSessionRequest {
    SpawnSessionRequest {
        prompt: "hi".to_string(),
        system_prompt: None,
        allowed_tools: vec![],
        disallowed_tools: vec![],
        max_turns,
        model: None,
        cwd: None,
        add_dirs: vec![],
        label: "agent:0".to_string(),
    }
}

fn feed(manager: &mut AgentManager, sid: &str, frame: Json, now: u64, wall: i64) -> bool {
    let msg = parse_message(frame.clone()).unwrap();
    manager.record_message(sid, &msg, &frame, now, wall).unwrap()
}

#[test]
fn spawn_generates_a_session_id() {
    let mut manager = AgentManager::new();
    let sid = manager.spawn_session(&spawn_request(10), 0).unwrap();
    assert_eq!(sid.len(), 36);
    assert!(manager.get_session_info(&sid, 1).is_ok());
}

#[test]
fn ring_buffer_stabilizes_at_capacity() {
    let mut manager = AgentManager::new();
    manager
        .spawn_session_with_id("s-ring", &spawn_request(10), 0)
        .unwrap();
    let mut i: i64 = 0;
    while i < 1500 {
        let frame = assistant_frame(&i.to_string());
        feed(&mut manager, "s-ring", frame, 1, 1);
        i += 1;
    }
    let out = manager.get_output("s-ring", 0, 1, 2).unwrap();
    assert_eq!(out.total_messages, 1000);
    // the first retained record is the five hundredth emitted
    let first = &out.output[0];
    match &first.content {
        Json::Obj(members) => {
            let message = members.iter().find(|(k, _)| k == "message").unwrap();
            match &message.1 {
                Json::Obj(inner) => {
                    let content = inner.iter().find(|(k, _)| k == "content").unwrap();
                    match &content.1 {
                        Json::Arr(blocks) => match &blocks[0] {
                            Json::Obj(block) => {
                                let text = block.iter().find(|(k, _)| k == "text").unwrap();
                                assert!(matches!(&text.1, Json::Str(s) if s == "500"));
                            }
                            _ => panic!("expected a block object"),
                        },
                        _ => panic!("expected a content array"),
                    }
                }
                _ => panic!("expected a message object"),
            }
        }
        _ => panic!("expected an object record"),
    }
}

#[test]
fn pagination_walks_the_buffer() {
    let mut manager = AgentManager::new();
    manager
        .spawn_session_with_id("s-page", &spawn_request(10), 0)
        .unwrap();
    let mut i: i64 = 0;
    while i < 120 {
        feed(&mut manager, "s-page", assistant_frame(&i.to_string()), 1, 1);
        i += 1;
    }
    let page1 = manager.get_output("s-page", 0, 50, 2).unwrap();
    assert_eq!(page1.messages_returned, 50);
    assert!(page1.has_more);
    let page2 = manager.get_output("s-page", 50, 50, 2).unwrap();
    assert_eq!(page2.messages_returned, 50);
    assert!(page2.has_more);
    let page3 = manager.get_output("s-page", 100, 50, 2).unwrap();
    assert_eq!(page3.messages_returned, 20);
    assert!(!page3.has_more);
    let tail = manager.get_output("s-page", -10, 50, 2).unwrap();
    assert_eq!(tail.messages_returned, 10);
    assert!(!tail.has_more);
    assert_eq!(tail.total_messages, 120);
}

#[test]
fn read_with_zero_length_returns_nothing_and_keeps_the_buffer() {
    let mut manager = AgentManager::new();
    manager
        .spawn_session_with_id("s-zero", &spawn_request(10), 0)
        .unwrap();
    feed(&mut manager, "s-zero", assistant_frame("a"), 1, 1);
    feed(&mut manager, "s-zero", assistant_frame("b"), 1, 1);
    let none = manager.get_output("s-zero", 0, 0, 2).unwrap();
    assert_eq!(none.messages_returned, 0);
    assert_eq!(none.total_messages, 2);
    let again = manager.get_output("s-zero", 0, 10, 2).unwrap();
    assert_eq!(again.messages_returned, 2);
}

#[test]
fn calculate_has_more_cases() {
    assert!(calculate_has_more(0, 50, 120));
    assert!(!calculate_has_more(100, 20, 120));
    assert!(!calculate_has_more(-10, 10, 120));
    assert!(!calculate_has_more(0, 0, 0));
}

#[test]
fn max_turn_completion_blocks_further_sends() {
    let mut manager = AgentManager::new();
    manager
        .spawn_session_with_id("s-turns", &spawn_request(2), 0)
        .unwrap();
    // first turn: a reply and its terminal result
    feed(&mut manager, "s-turns", assistant_frame("one"), 1, 1);
    let done = feed(&mut manager, "s-turns", result_frame(1), 2, 2);
    assert!(!done);
    assert!(manager.send_message("s-turns", "again").is_ok());
    // second turn reaches the limit
    feed(&mut manager, "s-turns", assistant_frame("two"), 3, 3);
    let done = feed(&mut manager, "s-turns", result_frame(2), 4, 4);
    assert!(done);
    match manager.send_message("s-turns", "more") {
        Err(ClaudeError::SessionComplete(sid)) => assert_eq!(sid, "s-turns"),
        _ => panic!("expected the session to be complete"),
    }
}

#[test]
fn single_turn_session_completes_after_one_result() {
    let mut manager = AgentManager::new();
    manager
        .spawn_session_with_id("s-one", &spawn_request(1), 0)
        .unwrap();
    feed(&mut manager, "s-one", assistant_frame("only"), 1, 1);
    let done = feed(&mut manager, "s-one", result_frame(1), 2, 2);
    assert!(done);
    assert!(matches!(
        manager.send_message("s-one", "again"),
        Err(ClaudeError::SessionComplete(_))
    ));
}

#[test]
fn turn_count_never_decreases() {
    let mut manager = AgentManager::new();
    manager
        .spawn_session_with_id("s-mono", &spawn_request(10), 0)
        .unwrap();
    feed(&mut manager, "s-mono", result_frame(3), 1, 1);
    let info = manager.get_session_info("s-mono", 2).unwrap();
    assert_eq!(info.turn_count, 3);
    // a lower reported count does not move the counter backwards
    feed(&mut manager, "s-mono", result_frame(2), 3, 3);
    let info = manager.get_session_info("s-mono", 4).unwrap();
    assert_eq!(info.turn_count, 3);
}

#[test]
fn working_window_closes_after_threshold() {
    let mut manager = AgentManager::new();
    manager
        .spawn_session_with_id("s-work", &spawn_request(10), 1000)
        .unwrap();
    feed(&mut manager, "s-work", assistant_frame("x"), 1000, 1000);
    assert!(manager.is_working("s-work", 1500));
    assert!(manager.is_working("s-work", 2999));
    assert!(!manager.is_working("s-work", 3000));
    assert!(!manager.is_working("s-unknown", 1500));
}

#[test]
fn terminate_snapshots_and_retention_expires() {
    let mut manager = AgentManager::new();
    manager
        .spawn_session_with_id("s-gc", &spawn_request(10), 0)
        .unwrap();
    feed(&mut manager, "s-gc", assistant_frame("x"), 1, 1);
    let resp = manager.terminate_session("s-gc", 5000, 100_000).unwrap();
    assert!(resp.success);
    assert_eq!(resp.total_messages, 1);
    assert_eq!(resp.runtime_ms, 5000);
    // still readable inside the retention window
    assert!(manager.get_output("s-gc", 0, 10, 6000).is_ok());
    manager.gc_completed(100_000 + 59_999);
    assert!(manager.get_output("s-gc", 0, 10, 6000).is_ok());
    // gone once completion lies a full retention window back
    manager.gc_completed(100_000 + 60_000);
    assert!(matches!(
        manager.get_output("s-gc", 0, 10, 6000),
        Err(ClaudeError::SessionNotFound(_))
    ));
}

#[test]
fn list_sessions_puts_working_first() {
    let mut manager = AgentManager::new();
    manager
        .spawn_session_with_id("s-idle", &spawn_request(10), 0)
        .unwrap();
    manager
        .spawn_session_with_id("s-busy", &spawn_request(10), 0)
        .unwrap();
    feed(&mut manager, "s-busy", assistant_frame("x"), 10_000, 1);
    let listing = manager.list_sessions(true, 3, 10_500);
    assert_eq!(listing.total_active, 2);
    assert_eq!(listing.agents.len(), 2);
    assert_eq!(listing.agents[0].session_id, "s-busy");
    assert!(listing.agents[0].working);
    assert!(!listing.agents[1].working);
}

#[test]
fn last_output_preview_reads_assistant_text() {
    let mut manager = AgentManager::new();
    manager
        .spawn_session_with_id("s-prev", &spawn_request(10), 0)
        .unwrap();
    feed(&mut manager, "s-prev", assistant_frame("first"), 1, 1);
    feed(&mut manager, "s-prev", assistant_frame("second"), 1, 1);
    let info = manager.get_session_info("s-prev", 2).unwrap();
    assert_eq!(info.last_output, vec!["second", "first"]);
}

#[test]
fn registry_keeps_one_session_per_handle() {
    let mut registry = AgentRegistry::new();
    registry.register_session("c1", 0, "sid-a".to_string());
    registry.register_session("c1", 0, "sid-b".to_string());
    assert_eq!(registry.get_session_id("c1", 0).unwrap(), "sid-b");
    registry.register_session("c1", 1, "sid-c".to_string());
    assert_eq!(registry.get_session_id("c1", 1).unwrap(), "sid-c");
    assert_eq!(registry.remove_session("c1", 0).unwrap(), "sid-b");
    assert!(registry.remove_session("c1", 0).is_none());
}

#[test]
fn facade_spawn_read_kill_flow() {
    let mut tool = ClaudeAgentTool::new();
    let spawn_args = ClaudeAgentArgs {
        action: ClaudeAgentAction::Spawn,
        agent: 0,
        prompt: Some("hi".to_string()),
        system_prompt: None,
        allowed_tools: vec![],
        disallowed_tools: vec![],
        max_turns: Some(10),
        model: None,
        cwd: None,
        add_dirs: vec![],
    };
    let (out, effects) = tool.execute(&spawn_args, "c1", 0, 0).unwrap();
    assert_eq!(out.action, "SPAWN");
    assert_eq!(effects.len(), 1);
    let sid = match &effects[0] {
        AgentEffect::StartChild {
            session_id,
            first_frame,
            ..
        } => {
            assert_eq!(
                first_frame,
                "{\"type\":\"user\",\"message\":{\"role\":\"user\",\"content\":\"hi\"}}\n"
            );
            session_id.clone()
        }
        _ => panic!("expected a start action"),
    };
    assert_eq!(sid.len(), 36);

    let read_args = ClaudeAgentArgs {
        action: ClaudeAgentAction::Read,
        agent: 0,
        prompt: None,
        system_prompt: None,
        allowed_tools: vec![],
        disallowed_tools: vec![],
        max_turns: None,
        model: None,
        cwd: None,
        add_dirs: vec![],
    };
    let (out, effects) = tool.execute(&read_args, "c1", 1, 1).unwrap();
    assert_eq!(out.action, "READ");
    assert!(effects.is_empty());
    assert_eq!(out.message_count, Some(0));
    assert_eq!(out.output, "[]");

    let kill_args = ClaudeAgentArgs {
        action: ClaudeAgentAction::Kill,
        agent: 0,
        prompt: None,
        system_prompt: None,
        allowed_tools: vec![],
        disallowed_tools: vec![],
        max_turns: None,
        model: None,
        cwd: None,
        add_dirs: vec![],
    };
    let (out, effects) = tool.execute(&kill_args, "c1", 2, 2).unwrap();
    assert_eq!(out.action, "KILL");
    assert_eq!(out.exit_code, Some(0));
    assert_eq!(effects.len(), 1);
    assert!(matches!(&effects[0], AgentEffect::CloseChild { .. }));

    // a second kill on the same handle reports the agent as gone
    assert!(matches!(
        tool.execute(&kill_args, "c1", 3, 3),
        Err(ClaudeError::SessionNotFound(_))
    ));

    // and the listing for the connection is empty again
    let list_args = ClaudeAgentArgs {
        action: ClaudeAgentAction::List,
        agent: 0,
        prompt: None,
        system_prompt: None,
        allowed_tools: vec![],
        disallowed_tools: vec![],
        max_turns: None,
        model: None,
        cwd: None,
        add_dirs: vec![],
    };
    let (out, _) = tool.execute(&list_args, "c1", 4, 4).unwrap();
    assert_eq!(out.agents.unwrap().len(), 0);
}

#[test]
fn facade_spawn_requires_a_prompt() {
    let mut tool = ClaudeAgentTool::new();
    let args = ClaudeAgentArgs {
        action: ClaudeAgentAction::Spawn,
        agent: 0,
        prompt: None,
        system_prompt: None,
        allowed_tools: vec![],
        disallowed_tools: vec![],
        max_turns: None,
        model: None,
        cwd: None,
        add_dirs: vec![],
    };
    assert!(matches!(
        tool.execute(&args, "c1", 0, 0),
        Err(ClaudeError::InvalidConfig(_))
    ));
}

#[test]
fn connection_drop_only_touches_its_own_agents() {
    let mut tool = ClaudeAgentTool::new();
    let mut spawn = |tool: &mut ClaudeAgentTool, conn: &str, agent: u32| {
        let args = ClaudeAgentArgs {
            action: ClaudeAgentAction::Spawn,
            agent,
            prompt: Some("hi".to_string()),
            system_prompt: None,
            allowed_tools: vec![],
            disallowed_tools: vec![],
            max_turns: Some(10),
            model: None,
            cwd: None,
            add_dirs: vec![],
        };
        tool.execute(&args, conn, 0, 0).unwrap();
    };
    spawn(&mut tool, "c1", 0);
    spawn(&mut tool, "c1", 1);
    spawn(&mut tool, "c2", 0);

    let (count, effects) = tool.cleanup_connection("c1", 10, 10);
    assert_eq!(count, 2);
    assert_eq!(effects.len(), 2);

    let list_args = ClaudeAgentArgs {
        action: ClaudeAgentAction::List,
        agent: 0,
        prompt: None,
        system_prompt: None,
        allowed_tools: vec![],
        disallowed_tools: vec![],
        max_turns: None,
        model: None,
        cwd: None,
        add_dirs: vec![],
    };
    let (out, _) = tool.execute(&list_args, "c1", 11, 11).unwrap();
    assert_eq!(out.agents.unwrap().len(), 0);
    let (out, _) = tool.execute(&list_args, "c2", 12, 12).unwrap();
    let c2_agents = out.agents.unwrap();
    assert_eq!(c2_agents.len(), 1);
    assert_eq!(c2_agents[0].agent, 0);
    // the other connection's session was not terminated
    assert!(!c2_agents[0].completed);
}

#[test]
fn dangerous_environment_overrides_are_dropped() {
    let user_env = vec![
        ("LD_PRELOAD".to_string(), "/tmp/x".to_string()),
        ("FOO".to_string(), "bar".to_string()),
        ("PATH".to_string(), "/evil".to_string()),
    ];
    let env = build_child_env(&user_env);
    assert!(env.iter().all(|(k, _)| k != "LD_PRELOAD" && k != "PATH"));
    assert!(env.iter().any(|(k, v)| k == "FOO" && v == "bar"));
    assert!(env
        .iter()
        .any(|(k, v)| k == "CLAUDE_CODE_ENTRYPOINT" && v == "sdk-rust"));
    assert!(env.iter().any(|(k, _)| k == "CLAUDE_AGENT_SDK_VERSION"));
}

#[test]
fn command_builder_emits_deterministic_args() {
    let mut options = ClaudeAgentOptions::new();
    options.max_turns = Some(3);
    options.model = Some("test-model".to_string());
    options.extra_args = vec![
        ("timeout".to_string(), Some("30".to_string())),
        ("rm-rf".to_string(), Some("evil".to_string())),
    ];
    let prompt = PromptInput::Stream;
    let builder = CommandBuilder::new(&prompt, &options);
    let args = builder.build();
    let expected: Vec<String> = [
        "--print",
        "--output-format",
        "stream-json",
        "--verbose",
        "--max-turns",
        "3",
        "--model",
        "test-model",
        "--setting-sources",
        "",
        "--timeout",
        "30",
        "--input-format",
        "stream-json",
    ]
    .iter()
    .map(|s| s.to_string())
    .collect();
    assert_eq!(args, expected);
}

#[test]
fn preview_truncates_inside_a_record() {
    let mut manager = AgentManager::new();
    manager
        .spawn_session_with_id("s-trunc", &spawn_request(10), 0)
        .unwrap();
    let frame = obj(vec![
        ("type", Json::Str("assistant".to_string())),
        (
            "message",
            obj(vec![
                ("model", Json::Str("m".to_string())),
                (
                    "content",
                    Json::Arr(vec![
                        obj(vec![
                            ("type", Json::Str("text".to_string())),
                            ("text", Json::Str("a".to_string())),
                        ]),
                        obj(vec![
                            ("type", Json::Str("text".to_string())),
                            ("text", Json::Str("b".to_string())),
                        ]),
                        obj(vec![
                            ("type", Json::Str("text".to_string())),
                            ("text", Json::Str("c".to_string())),
                        ]),
                    ]),
                ),
            ]),
        ),
    ]);
    feed(&mut manager, "s-trunc", frame, 1, 1);
    let listing = manager.list_sessions(false, 2, 2);
    assert_eq!(listing.agents[0].last_output, vec!["a", "b"]);
}

#[test]
fn error_constructors_build_their_variants() {
    assert!(matches!(
        ClaudeError::cli_not_found(),
        ClaudeError::CliNotFound(_)
    ));
    assert!(matches!(
        ClaudeError::connection("x"),
        ClaudeError::Connection(_)
    ));
    assert!(matches!(
        ClaudeError::timeout("slow"),
        ClaudeError::Timeout(_)
    ));
    assert!(matches!(
        ClaudeError::process("boom", 3, None),
        ClaudeError::Process { exit_code: 3, .. }
    ));
    assert!(matches!(
        ClaudeError::max_sessions_reached(8),
        ClaudeError::MaxSessionsReached(8)
    ));
}
