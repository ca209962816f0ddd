use loomterm::cli::{
    collect_env, ensure_interactive, execution_request, may_restart, parse_env, process_exit_code,
    recorded_command, recording_failed, recording_finished, render_event, requested_command,
    resolve_agent_kind, resolve_workspace, stream_closed, window_start, workspace_name, Rendering,
};
use loomterm::error::Error;
use loomterm::model::{
    AgentSession, AgentSessionState, CommandSpec, EnvVar, Execution, ExecutionEvent,
    ExecutionEventPayload, ExecutionOutcome, ExecutionState, ExecutionStats,
    ExecutionStatusCounts, Health, Initiator, InitiatorStats, OutputStream, Workspace,
};
use loomterm::report::{
    execution_line, format_bytes, format_duration, format_health, format_stats, join_texts, pad,
    session_line, short_id, workspace_label, workspace_line,
};

fn workspace(id: &str, root: &str) -> Workspace {
    Workspace { id: id.into(), name: format!("name-{id}"), root: root.into(), created_at_ms: 0 }
}

fn execution(state: ExecutionState, outcome: Option<ExecutionOutcome>) -> Execution {
    Execution {
        id: "01234567-89ab".into(),
        workspace_id: "workspace-1".into(),
        state,
        command: CommandSpec::Argv { program: "cargo".into(), args: vec!["test".into()] },
        command_display: "cargo test".into(),
        cwd: "/tmp".into(),
        env_keys: Vec::new(),
        initiator: Initiator { kind: "cli".into(), name: None, session_id: None },
        created_at_ms: 1,
        started_at_ms: None,
        ended_at_ms: None,
        duration_ms: None,
        pid: None,
        pgid: None,
        outcome,
        captured_bytes: 0,
        output_truncated: false,
        last_seq: 0,
    }
}

fn no_counts() -> ExecutionStatusCounts {
    ExecutionStatusCounts {
        queued: 0,
        running: 0,
        exited_zero: 0,
        exited_nonzero: 0,
        signaled: 0,
        spawn_error: 0,
        cancelled: 0,
        interrupted: 0,
        unknown_terminal: 0,
    }
}

fn health() -> Health {
    Health {
        protocol_version: 2,
        daemon_pid: 42,
        database_path: "/db".into(),
        socket_path: "/sock".into(),
        server_version: None,
        capabilities: vec!["a".into(), "b".into()],
        active_executions: Some(0),
        active_sessions: Some(0),
    }
}

#[test]
fn formats_stats_for_humans() {
    let stats = ExecutionStats {
        workspace: Workspace {
            id: "01234567-rest".into(),
            name: "loomterm".into(),
            root: "/tmp/loomterm".into(),
            created_at_ms: 0,
        },
        since_ms: 100,
        until_ms: 200,
        total: 3,
        status: ExecutionStatusCounts { exited_zero: 2, exited_nonzero: 1, ..no_counts() },
        by_initiator: vec![InitiatorStats { kind: "cli".into(), count: 3 }],
        captured_bytes: 1536,
        truncated_executions: 1,
        duration_samples: 3,
        duration_p50_ms: Some(12),
        duration_p95_ms: Some(90),
    };

    let output = format_stats(&stats);
    assert!(output.contains("Workspace: loomterm (01234567)"));
    assert!(output.contains("Executions: 3"));
    assert!(output.contains("Status:\n  queued: 0\n  running: 0"));
    assert!(output.contains("Initiators: cli 3"));
    assert!(output.contains("Captured output: 1.5 KiB (1536 bytes)"));
    assert!(output.contains("Duration p95: 90 ms"));
}

#[test]
fn formats_empty_duration_and_small_bytes() {
    assert_eq!(format_duration(None), "n/a");
    assert_eq!(format_bytes(0), "0 bytes");
    assert_eq!(format_bytes(1023), "1023 bytes");
}

#[test]
fn bytes_are_rounded_as_a_double_shows_them() {
    let units: [(&str, u64); 4] = [
        ("TiB", 1 << 40),
        ("GiB", 1 << 30),
        ("MiB", 1 << 20),
        ("KiB", 1 << 10),
    ];
    let mut samples: Vec<u64> = vec![
        1024,
        1025,
        1075,
        1076,
        1280,
        1331,
        1382,
        1792,
        9_999_999,
        (1 << 53) - 1,
        (1 << 53) + 1,
        (1 << 54) + 3,
        u64::MAX,
        u64::MAX - 1024,
    ];
    let mut x: u64 = 88172645463325252;
    for _ in 0..2000 {
        x ^= x << 13;
        x ^= x >> 7;
        x ^= x << 17;
        samples.push(x >> (x % 60));
    }
    for bytes in samples {
        let mut expected = format!("{bytes} bytes");
        for (unit, divisor) in units {
            if bytes >= divisor {
                expected =
                    format!("{:.1} {unit} ({bytes} bytes)", bytes as f64 / divisor as f64);
                break;
            }
        }
        assert_eq!(format_bytes(bytes), expected);
    }
}

#[test]
fn identifiers_are_cut_at_bytes() {
    assert_eq!(short_id("0123456789"), "01234567");
    assert_eq!(short_id("0123"), "0123");
    assert_eq!(short_id("0123456\u{e9}9"), "0123456\u{e9}9");
    assert_eq!(short_id("012345\u{e9}9"), "012345\u{e9}");
    assert_eq!(workspace_label("0123456789"), "01234567");
}

#[test]
fn lists_stand_in_columns() {
    let running = execution(ExecutionState::Running, None);
    assert_eq!(
        execution_line(&running),
        format!("{:<12} {:<11} {:<24} {}", "01234567", "running", "workspac", "cargo test")
    );
    assert_eq!(
        workspace_line(&workspace("0123456789", "/tmp/a")),
        format!("{:<20} {:<12} {}", "name-0123456789", "01234567", "/tmp/a")
    );
    let session = AgentSession {
        id: "0123456789".into(),
        workspace_id: "w".into(),
        state: AgentSessionState::Finished,
        agent_kind: "codex".into(),
        name: None,
        command: CommandSpec::Shell { command: "x".into(), shell: None },
        command_display: "codex exec".into(),
        cwd: "/".into(),
        created_at_ms: 1,
        ended_at_ms: None,
        duration_ms: None,
        recorder_pid: 1,
        outcome: None,
        captured_bytes: 0,
        output_truncated: false,
        initial_cols: 1,
        initial_rows: 1,
        cast_path: "c".into(),
        html_path: "h".into(),
    };
    assert_eq!(
        session_line(&session),
        format!("{:<12} {:<12} {:<10} {}", "01234567", "finished", "codex", "codex exec")
    );
    assert_eq!(pad("ab", 4), "ab  ");
    assert_eq!(pad("abcde", 4), "abcde");
    assert_eq!(join_texts(&vec!["a".into(), "b".into()], ", "), "a, b");
}

#[test]
fn health_is_told_line_by_line() {
    assert_eq!(
        format_health(&health(), 3),
        "daemon: ok (pid 42)\nprotocol: v2\nserver: unknown\ncapabilities: a, b\nactive executions: 0\nactive sessions: 0\nsocket: /sock\ndatabase: /db\nworkspaces: 3"
    );
}

#[test]
fn variables_are_read_and_the_last_one_holds() {
    assert_eq!(parse_env("A=b=c"), Ok(EnvVar { key: "A".into(), value: "b=c".into() }));
    assert_eq!(parse_env("A="), Ok(EnvVar { key: "A".into(), value: "".into() }));
    assert_eq!(parse_env("A"), Err("expected KEY=VALUE".to_owned()));
    assert_eq!(parse_env("=b"), Err("environment key must be non-empty".to_owned()));
    let set = |pairs: &[(&str, &str)]| -> Vec<EnvVar> {
        pairs.iter().map(|(k, v)| EnvVar { key: (*k).into(), value: (*v).into() }).collect()
    };
    assert_eq!(
        collect_env(set(&[("B", "1"), ("A", "2"), ("B", "3")])),
        set(&[("A", "2"), ("B", "3")])
    );
}

#[test]
fn agents_are_told_by_their_program() {
    let argv = |program: &str| CommandSpec::Argv { program: program.into(), args: Vec::new() };
    let known = "other";
    assert_eq!(resolve_agent_kind(None, known, &argv("/usr/bin/codex")), "codex");
    assert_eq!(resolve_agent_kind(None, known, &argv("other")), "other");
    assert_eq!(resolve_agent_kind(None, known, &argv("sh")), "generic");
    assert_eq!(resolve_agent_kind(Some("other".into()), known, &argv("codex")), "other");
    assert_eq!(resolve_agent_kind(Some("generic".into()), known, &argv("codex")), "generic");
    let shell = CommandSpec::Shell { command: "codex".into(), shell: None };
    assert_eq!(resolve_agent_kind(None, known, &shell), "generic");
}

#[test]
fn a_request_is_made_of_arguments() {
    let command = requested_command(None, None, vec!["printf".into(), "hello".into()]).unwrap();
    let request = execution_request(
        "w".into(),
        None,
        command,
        vec![EnvVar { key: "K".into(), value: "v".into() }],
        Some(b"hi".to_vec()),
        Some(String::new()),
        Some(5),
    );
    assert_eq!(
        request.command,
        CommandSpec::Argv { program: "printf".into(), args: vec!["hello".into()] }
    );
    assert_eq!(request.stdin_base64.as_deref(), Some("aGk="));
    assert_eq!(request.initiator.kind, "cli");
    assert_eq!(request.initiator.session_id, None);
    assert!(matches!(
        requested_command(None, None, Vec::new()),
        Err(Error::InvalidRequest(ref reason)) if reason == "missing command"
    ));
    assert_eq!(
        requested_command(Some("ls".into()), Some("/bin/zsh".into()), Vec::new()).unwrap(),
        CommandSpec::Shell { command: "ls".into(), shell: Some("/bin/zsh".into()) }
    );
    assert!(matches!(recorded_command(true, vec!["x".into()]), Err(Error::InvalidRequest(_))));
    assert!(matches!(recorded_command(false, Vec::new()), Err(Error::InvalidRequest(_))));
}

#[test]
fn the_closest_workspace_is_chosen() {
    let workspaces = vec![
        workspace("outer", "/tmp"),
        workspace("inner", "/tmp/project"),
        workspace("other", "/tmp/project-two"),
    ];
    assert_eq!(resolve_workspace(None, &workspaces, "/tmp/project/src").unwrap(), "inner");
    assert_eq!(resolve_workspace(None, &workspaces, "/tmp/elsewhere").unwrap(), "outer");
    assert_eq!(resolve_workspace(Some("named".into()), &workspaces, "/").unwrap(), "named");
    assert!(matches!(
        resolve_workspace(None, &workspaces, "/var"),
        Err(Error::InvalidRequest(_))
    ));
    assert_eq!(workspace_name(None, "/tmp/project"), "project");
    assert_eq!(workspace_name(None, "/"), "workspace");
    assert_eq!(workspace_name(Some("x".into()), "/tmp"), "x");
    assert_eq!(window_start(1_000_000_000, 7), 1_000_000_000 - 604_800_000);
    assert_eq!(window_start(i64::MIN, 1), i64::MIN);
}

#[test]
fn exit_codes_stand_for_outcomes() {
    let code = |outcome| process_exit_code(&execution(ExecutionState::Finished, outcome));
    assert_eq!(code(Some(ExecutionOutcome::Exited { code: 7 })), 7);
    assert_eq!(code(Some(ExecutionOutcome::Signaled { signal: 9 })), 137);
    assert_eq!(code(Some(ExecutionOutcome::Cancelled { signal: Some(15) })), 143);
    assert_eq!(code(Some(ExecutionOutcome::Cancelled { signal: None })), 143);
    assert_eq!(code(Some(ExecutionOutcome::SpawnError { message: "x".into() })), 126);
    assert_eq!(code(Some(ExecutionOutcome::Interrupted { reason: "x".into() })), 1);
    assert_eq!(code(None), 1);
}

#[test]
fn events_are_shown_on_their_stream() {
    let event = |payload| ExecutionEvent {
        execution_id: "e".into(),
        seq: 1,
        timestamp_ms: 1,
        payload,
    };
    let out = render_event(&event(ExecutionEventPayload::Output {
        stream: OutputStream::Stdout,
        data_base64: "aGVsbG8=".into(),
    }));
    assert!(matches!(out, Ok(Rendering::Stdout(ref data)) if data == b"hello"));
    let bad = render_event(&event(ExecutionEventPayload::Output {
        stream: OutputStream::Stderr,
        data_base64: "!".into(),
    }));
    assert!(matches!(bad, Err(Error::Protocol(ref reason)) if reason.starts_with("invalid output encoding: ")));
    let note = render_event(&event(ExecutionEventPayload::CaptureTruncated { limit_bytes: 10 }));
    assert!(matches!(note, Ok(Rendering::Note(ref text)) if text == "loom: output capture truncated at 10 bytes"));
    let started = render_event(&event(ExecutionEventPayload::Started { pid: 1, pgid: 1 }));
    assert!(matches!(started, Ok(Rendering::Nothing)));
}

#[test]
fn a_busy_daemon_is_not_restarted() {
    assert!(may_restart(&health(), false).is_ok());
    let busy = Health { active_executions: Some(2), ..health() };
    assert!(matches!(
        may_restart(&busy, false),
        Err(Error::InvalidRequest(ref reason))
            if reason == "daemon has 2 active execution(s); wait for them or use --force"
    ));
    assert!(may_restart(&busy, true).is_ok());
    let recording = Health { active_sessions: Some(1), ..health() };
    assert!(may_restart(&recording, false).is_err());
    let silent = Health { active_sessions: None, ..health() };
    assert!(may_restart(&silent, false).is_err());
    let unknown = Health { active_executions: None, ..health() };
    assert!(may_restart(&unknown, false).is_err());
}

#[test]
fn a_stream_that_closes_early_is_an_error() {
    let done = execution(ExecutionState::Finished, Some(ExecutionOutcome::Exited { code: 0 }));
    assert!(stream_closed(done).is_ok());
    assert!(matches!(
        stream_closed(execution(ExecutionState::Running, None)),
        Err(Error::Protocol(_))
    ));
}

#[test]
fn recordings_end_by_their_outcome() {
    let finished = recording_finished(ExecutionOutcome::Exited { code: 0 }, 5, true);
    assert_eq!(finished.state, AgentSessionState::Finished);
    assert_eq!(finished.captured_bytes, 5);
    let cut = recording_finished(ExecutionOutcome::Interrupted { reason: "x".into() }, 5, true);
    assert_eq!(cut.state, AgentSessionState::Interrupted);
    let failed = recording_failed(&Error::Timeout);
    assert_eq!(failed.state, AgentSessionState::Interrupted);
    assert_eq!(failed.captured_bytes, 0);
}

#[test]
fn operator_ui_is_the_default_and_requires_a_terminal() {
    assert!(ensure_interactive("loom ui", true, true).is_ok());
    for (input, output) in [(false, true), (true, false), (false, false)] {
        let error = ensure_interactive("loom ui", input, output).unwrap_err();
        assert!(error.message().contains("`loom ui` requires an interactive terminal"));
    }
}
