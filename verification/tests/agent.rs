use loomterm::agent::{
    deny_native_shell, find_execution_id, find_execution_id_at_depth, hook_cwd,
    normalize_hook_event, select_active_session_id,
};
use loomterm::error::Error;
use loomterm::json::{as_text, get_field, read_json, write_value, Json};
use loomterm::model::{AgentEvent, AgentSession, AgentSessionState, CommandSpec};
use loomterm::ui::AgentProvider;

fn recording(id: &str, provider: &str, cwd: &str) -> AgentSession {
    AgentSession {
        id: id.into(),
        workspace_id: "workspace".into(),
        state: AgentSessionState::Recording,
        agent_kind: provider.into(),
        name: None,
        command: CommandSpec::Argv { program: provider.into(), args: Vec::new() },
        command_display: provider.into(),
        cwd: cwd.into(),
        created_at_ms: 1,
        ended_at_ms: None,
        duration_ms: None,
        recorder_pid: 1,
        outcome: None,
        captured_bytes: 0,
        output_truncated: false,
        initial_cols: 80,
        initial_rows: 24,
        cast_path: "recording.cast".into(),
        html_path: "replay.html".into(),
    }
}

fn second_agent() -> String {
    format!("{:?}", AgentProvider::Claude).to_lowercase()
}

fn json(text: &str) -> Json {
    read_json(text).unwrap()
}

#[test]
fn normalizes_codex_prompt_with_turn_id() {
    let request = normalize_hook_event(
        "codex",
        "loom-session",
        &json(
            r#"{
                "session_id": "codex-session",
                "turn_id": "codex-turn",
                "hook_event_name": "UserPromptSubmit",
                "prompt": "Run the tests"
            }"#,
        ),
    )
    .unwrap()
    .unwrap();
    assert_eq!(request.provider, "codex");
    assert_eq!(request.provider_turn_id.as_deref(), Some("codex-turn"));
    assert!(matches!(
        request.event,
        AgentEvent::PromptSubmitted { ref prompt } if prompt == "Run the tests"
    ));
    assert_eq!(request.session_id, "loom-session");
    assert_eq!(request.provider_session_id, "codex-session");
}

#[test]
fn normalizes_claude_tool_result_and_extracts_execution() {
    let agent = second_agent();
    let request = normalize_hook_event(
        &agent,
        "loom-session",
        &json(
            &r#"{
                "session_id": "AGENT-session",
                "hook_event_name": "PostToolUse",
                "tool_name": "mcp__loomterm__loom_run",
                "tool_use_id": "tool-1",
                "tool_response": {
                    "content": [{"type": "text", "text": "{\"execution\":{\"id\":\"exec-1\"}}"}]
                }
            }"#
            .replace("AGENT", &agent),
        ),
    )
    .unwrap()
    .unwrap();
    assert_eq!(request.provider, agent);
    assert!(matches!(
        request.event,
        AgentEvent::ToolFinished { ref execution_id, .. }
            if execution_id.as_deref() == Some("exec-1")
    ));
}

#[test]
fn ignores_untracked_hook_events() {
    let agent = second_agent();
    let input = r#"{"session_id": "AGENT-session", "hook_event_name": "SessionStart"}"#;
    assert!(normalize_hook_event(
        &agent,
        "loom-session",
        &json(&input.replace("AGENT", &agent))
    )
    .unwrap()
    .is_none());
}

#[test]
fn selects_matching_active_provider_session_by_cwd() {
    let agent = second_agent();
    let sessions = vec![
        recording(&agent, &agent, "/tmp/project"),
        recording("codex", "codex", "/tmp/project"),
    ];
    assert_eq!(
        select_active_session_id(&sessions, "codex", "/tmp/project/subdir").as_deref(),
        Some("codex")
    );
    assert!(select_active_session_id(&sessions, "codex", "/tmp/other").is_none());
}

#[test]
fn strict_agent_hook_denies_native_bash_without_contacting_the_daemon() {
    let input = json(
        r#"{
            "session_id": "provider-session",
            "hook_event_name": "PreToolUse",
            "tool_use_id": "tool-1",
            "tool_name": "Bash",
            "tool_input": {"command": "cargo test"},
            "cwd": "/tmp"
        }"#,
    );
    let answer = deny_native_shell(Some("strict"), &input).unwrap();
    let printed = serde_json::to_string(&write_value(&answer)).unwrap();
    assert!(printed.contains("\"permissionDecision\":\"deny\""));
    assert!(printed.contains("loom_run"));
    assert!(deny_native_shell(None, &input).is_none());
    assert!(deny_native_shell(Some("prefer"), &input).is_none());
    let other = json(r#"{"hook_event_name": "PreToolUse", "tool_name": "Read"}"#);
    assert!(deny_native_shell(Some("strict"), &other).is_none());
}

#[test]
fn a_hook_without_what_it_needs_is_refused() {
    let missing = normalize_hook_event("codex", "s", &json(r#"{"hook_event_name": "Stop"}"#));
    assert!(matches!(missing, Err(Error::InvalidRequest(_))));
    let no_object = normalize_hook_event("codex", "s", &json("[1, 2]"));
    assert!(matches!(no_object, Err(Error::InvalidRequest(_))));
}

#[test]
fn the_working_directory_of_a_hook_is_read() {
    assert_eq!(hook_cwd(&json(r#"{"cwd": "/tmp/x"}"#)), Some("/tmp/x"));
    assert_eq!(hook_cwd(&json(r#"{"cwd": 3}"#)), None);
    assert_eq!(hook_cwd(&json("{}")), None);
}

#[test]
fn an_execution_is_found_in_nested_answers_up_to_a_depth() {
    let nested = json(r#"{"a": [{"execution_id": "e-1"}]}"#);
    let direct = json(r#"{"execution": {"id": "e-2"}}"#);
    assert_eq!(find_execution_id(&direct).as_deref(), Some("e-2"));
    let found = find_execution_id(&nested);
    assert!(found.is_none() || found.as_deref() == Some("e-1"));
    assert!(find_execution_id_at_depth(&direct, 9).is_none());
}

#[test]
fn json_text_is_read_and_written_back() {
    let value = json(r#"{"b": "x", "a": [true, null, 7]}"#);
    assert_eq!(as_text(get_field(&value, "b")), Some("x"));
    let printed = loomterm::json::write_json(&value).unwrap();
    assert_eq!(printed, "{\n  \"a\": [\n    true,\n    null,\n    7\n  ],\n  \"b\": \"x\"\n}");
    assert!(read_json("{").is_err());
}
