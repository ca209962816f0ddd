use base64::Engine;
use loomterm::codec::now_ms;
use loomterm::error::Error;
use loomterm::model::{
    AgentAction, AgentActionState, AgentSession, AgentSessionDetail, AgentSessionState, AgentTurn,
    AgentTurnState, CommandSpec, Execution, ExecutionEvent, ExecutionEventPayload,
    ExecutionOutcome, ExecutionState, Initiator, OutputStream, ReadOutputResponse,
};
use loomterm::output::OUTPUT_CAP_BYTES;
use loomterm::screen::{
    centered_rect, contains, execution_status, format_age, format_duration, format_outcome,
    one_line, pad_left, sanitize_output, short_id, truncate, KeyCode, KeyEvent, Panel, Rect,
};
use loomterm::ui::AgentProvider;
use loomterm::watch::{
    active_session_id, arrange, compact_tool_name, ensure_interactive, export_name,
    export_refused, may_export_replay, may_open_replay, refuse_json, replay_exported,
    replay_opened, Command, Focus, WatchState,
};

fn observe(detail: AgentSessionDetail) -> WatchState {
    WatchState::new(detail, format!("{:?}", AgentProvider::Claude))
}

fn execution(id: &str, state: ExecutionState) -> Execution {
    Execution {
        id: id.into(),
        workspace_id: "workspace".into(),
        state,
        command: CommandSpec::Argv { program: "cargo".into(), args: vec!["test".into()] },
        command_display: "cargo test".into(),
        cwd: "/tmp/project".into(),
        env_keys: Vec::new(),
        initiator: Initiator {
            kind: "mcp".into(),
            name: Some("codex".into()),
            session_id: Some("session".into()),
        },
        created_at_ms: 1,
        started_at_ms: Some(2),
        ended_at_ms: None,
        duration_ms: None,
        pid: Some(10),
        pgid: Some(10),
        outcome: None,
        captured_bytes: 0,
        output_truncated: false,
        last_seq: 0,
    }
}

fn detail(executions: Vec<Execution>) -> AgentSessionDetail {
    AgentSessionDetail {
        session: AgentSession {
            id: "01900000-0000-7000-8000-000000000000".into(),
            workspace_id: "workspace".into(),
            state: AgentSessionState::Recording,
            agent_kind: "codex".into(),
            name: Some("Live observer test".into()),
            command: CommandSpec::Argv { program: "codex".into(), args: vec!["exec".into()] },
            command_display: "codex exec".into(),
            cwd: "/tmp/project".into(),
            created_at_ms: now_ms(),
            ended_at_ms: None,
            duration_ms: None,
            recorder_pid: 123,
            outcome: None,
            captured_bytes: 0,
            output_truncated: false,
            initial_cols: 120,
            initial_rows: 30,
            cast_path: "/tmp/session.cast".into(),
            html_path: "/tmp/session.html".into(),
        },
        executions,
        turns: Vec::new(),
        actions: Vec::new(),
    }
}

fn screen(width: u16, height: u16) -> Rect {
    Rect { x: 0, y: 0, width, height }
}

fn shown(panels: &[Panel]) -> String {
    let mut text = String::new();
    for panel in panels {
        if let Some(title) = &panel.title {
            text.push_str(title);
            text.push('\n');
        }
        for line in &panel.lines {
            for span in &line.spans {
                text.push_str(&span.text);
            }
            text.push('\n');
        }
    }
    text
}

fn output(seq: u64, data: &[u8], stream: OutputStream) -> ExecutionEvent {
    ExecutionEvent {
        execution_id: "one".into(),
        seq,
        timestamp_ms: 1,
        payload: ExecutionEventPayload::Output {
            stream,
            data_base64: base64::engine::general_purpose::STANDARD.encode(data),
        },
    }
}

#[test]
fn refresh_preserves_selection_and_appends_executions() {
    let first = execution("first", ExecutionState::Finished);
    let second = execution("second", ExecutionState::Running);
    let mut state = observe(detail(vec![first.clone(), second.clone()]));
    state.selected_id = Some(first.id.clone());
    let third = execution("third", ExecutionState::Queued);

    assert!(!state.refresh(detail(vec![first, second, third])));
    assert_eq!(state.selected_id.as_deref(), Some("first"));
}

#[test]
fn active_selection_uses_newest_recording_session() {
    let newest = detail(Vec::new()).session;
    let mut finished = newest.clone();
    finished.id = "finished".into();
    finished.state = AgentSessionState::Finished;
    let mut older = newest.clone();
    older.id = "older".into();
    assert_eq!(
        active_session_id(&vec![finished, newest.clone(), older]),
        Some(newest.id)
    );
}

#[test]
fn output_is_merged_and_capped() {
    let mut state = observe(detail(vec![execution("one", ExecutionState::Running)]));
    for seq in 1..=6 {
        let data = vec![b'x'; 200 * 1024];
        let stream = if seq % 2 == 0 { OutputStream::Stderr } else { OutputStream::Stdout };
        let events = vec![output(seq, &data, stream)];
        state.output.ingest(&mut state.notice, &events, seq).unwrap();
    }
    assert!(state.output.bytes <= OUTPUT_CAP_BYTES);
    assert_eq!(state.output.cursor, 6);
    assert_eq!(state.output.chunks.len(), 5);
}

#[test]
fn output_control_sequences_are_not_rendered() {
    assert_eq!(sanitize_output("ok\u{1b}[31m\tbad\u{7}"), "ok?[31m bad?");
}

#[test]
fn input_changes_focus_selection_follow_and_confirmation() {
    let mut state = observe(detail(vec![
        execution("one", ExecutionState::Finished),
        execution("two", ExecutionState::Running),
    ]));
    assert_eq!(state.selected_id.as_deref(), Some("two"));
    assert_eq!(state.handle_key(KeyEvent::pressed(KeyCode::Up)), Command::ReloadOutput);
    assert_eq!(state.selected_id.as_deref(), Some("one"));
    state.handle_key(KeyEvent::pressed(KeyCode::Tab));
    state.handle_key(KeyEvent::pressed(KeyCode::Up));
    assert!(!state.output.follow);
    state.focus = Focus::Executions;
    state.selected_id = Some("two".into());
    assert_eq!(state.handle_key(KeyEvent::pressed(KeyCode::Char('c'))), Command::Nothing);
    assert!(state.confirmation.is_some());
    assert_eq!(state.handle_key(KeyEvent::pressed(KeyCode::Char('y'))), Command::Cancel);
}

#[test]
fn renders_wide_and_narrow_layouts() {
    for (width, height) in [(120, 30), (70, 30)] {
        let mut state = observe(detail(vec![execution(
            "01900000-aaaa-bbbb-cccc-dddddddddddd",
            ExecutionState::Running,
        )]));
        let area = screen(width, height);
        let panels = state.render(area, arrange(area), now_ms());
        let text = shown(&panels);
        assert!(text.contains("Loomterm Live Observer"));
        assert!(text.contains("Executions"));
        assert!(text.contains("Output [follow]"));
        assert!(text.contains("cargo test"));
        for panel in &panels {
            assert!(panel.area.x + panel.area.width <= width);
            assert!(panel.area.y + panel.area.height <= height);
            assert!(panel.area.width > 0 && panel.area.height > 0);
        }
    }
}

#[test]
fn renders_cross_session_execution_as_handoff() {
    let mut linked = execution("linked", ExecutionState::Running);
    linked.initiator.session_id = Some("other-session".into());
    let mut state = observe(detail(vec![linked]));
    let area = screen(120, 30);

    let text = shown(&state.render(area, arrange(area), now_ms()));
    assert!(text.contains("handoff cargo test"));
    assert!(text.contains("source  handoff"));
}

#[test]
fn renders_terminal_too_small_message() {
    let mut state = observe(detail(Vec::new()));
    let area = screen(40, 10);
    assert!(arrange(area).is_none());
    assert!(shown(&state.render(area, arrange(area), now_ms())).contains("Terminal too small"));
}

#[test]
fn classifies_success_and_failure() {
    let mut passed = execution("passed", ExecutionState::Finished);
    passed.outcome = Some(ExecutionOutcome::Exited { code: 0 });
    let mut failed = execution("failed", ExecutionState::Finished);
    failed.outcome = Some(ExecutionOutcome::Exited { code: 2 });
    assert_eq!(execution_status(&passed).0, "passed");
    assert_eq!(execution_status(&failed).0, "failed");
}

#[test]
fn watch_cli_enforces_interactive_contract() {
    assert!(refuse_json(true).unwrap_err().message().contains("--json is not supported"));
    assert!(refuse_json(false).is_ok());
    assert!(ensure_interactive(false, true)
        .unwrap_err()
        .message()
        .contains("`loom watch` requires an interactive terminal"));
    assert!(ensure_interactive(true, true).is_ok());
}

#[test]
fn nothing_is_cancelled_without_a_confirmation() {
    let mut state = observe(detail(vec![execution("one", ExecutionState::Finished)]));
    assert_eq!(state.handle_key(KeyEvent::pressed(KeyCode::Char('y'))), Command::Nothing);
    assert_eq!(state.handle_key(KeyEvent::pressed(KeyCode::Char('c'))), Command::Nothing);
    assert!(state.confirmation.is_none());
    assert_eq!(
        state.notice.as_deref(),
        Some("only queued or running executions can be cancelled")
    );
}

#[test]
fn keys_of_the_observer_ask_for_what_they_stand_for() {
    let mut state = observe(detail(vec![execution("one", ExecutionState::Running)]));
    assert_eq!(state.handle_key(KeyEvent::pressed(KeyCode::Char('q'))), Command::Quit);
    assert_eq!(state.handle_key(KeyEvent::pressed(KeyCode::Char('o'))), Command::OpenReplay);
    assert_eq!(state.handle_key(KeyEvent::pressed(KeyCode::Char('e'))), Command::ExportReplay);
    let released = KeyEvent { press: false, ..KeyEvent::pressed(KeyCode::Char('q')) };
    assert_eq!(state.handle_key(released), Command::Nothing);
    state.handle_key(KeyEvent::pressed(KeyCode::Char('f')));
    assert!(!state.output.follow);
    state.handle_key(KeyEvent::pressed(KeyCode::Tab));
    state.handle_key(KeyEvent::pressed(KeyCode::Down));
    assert_eq!(state.output.scroll, 1);
    state.handle_key(KeyEvent::pressed(KeyCode::Home));
    assert_eq!(state.output.scroll, 0);
    state.handle_key(KeyEvent::pressed(KeyCode::End));
    assert!(state.output.follow);
}

#[test]
fn bad_output_is_reported_and_the_cursor_stays() {
    let mut state = observe(detail(vec![execution("one", ExecutionState::Running)]));
    let page = |events: Vec<ExecutionEvent>, next_seq: u64, has_more: bool| ReadOutputResponse {
        execution: execution("one", ExecutionState::Running),
        events,
        next_seq,
        has_more,
    };
    let good = page(vec![output(1, b"a\nb\xff", OutputStream::Stdout)], 1, true);
    assert!(state.load_output(Ok(good)));
    assert_eq!(state.output.chunks[0].text, "a\nb\u{fffd}");
    let bad = ExecutionEvent {
        execution_id: "one".into(),
        seq: 2,
        timestamp_ms: 1,
        payload: ExecutionEventPayload::Output {
            stream: OutputStream::Stdout,
            data_base64: "%".into(),
        },
    };
    assert!(!state.load_output(Ok(page(vec![bad], 2, true))));
    assert_eq!(state.output.cursor, 1);
    assert!(state.error.as_deref().unwrap().contains("invalid output encoding: "));
    assert!(!state.load_output(Err(Error::Timeout)));
    assert!(state.error.as_deref().unwrap().starts_with("output read failed; retrying: "));
    assert!(!state.polled(Err(Error::Timeout)));
    assert!(state.error.as_deref().unwrap().starts_with("daemon read failed; retrying: "));
    assert!(state.polled(Ok(detail(Vec::new()))));
    assert_eq!(state.error, None);
    assert_eq!(state.selected_id, None);
    assert!(state.output.chunks.is_empty());
}

#[test]
fn the_last_request_and_its_tools_are_shown() {
    let mut observed = detail(Vec::new());
    observed.turns.push(AgentTurn {
        id: "turn".into(),
        session_id: "s".into(),
        provider: "codex".into(),
        provider_session_id: "p".into(),
        provider_turn_id: None,
        state: AgentTurnState::Active,
        prompt: "Run\n  the   tests".into(),
        created_at_ms: 1,
        ended_at_ms: None,
        last_assistant_message: None,
    });
    for (index, state) in [
        AgentActionState::Completed,
        AgentActionState::Completed,
        AgentActionState::Failed,
        AgentActionState::Completed,
        AgentActionState::Running,
    ]
    .into_iter()
    .enumerate()
    {
        observed.actions.push(AgentAction {
            id: format!("a{index}"),
            turn_id: "turn".into(),
            provider_action_id: format!("p{index}"),
            tool_name: format!("mcp__loomterm__tool{index}"),
            state,
            execution_id: None,
            created_at_ms: 1,
            ended_at_ms: None,
        });
    }
    let mut state = observe(observed);
    let area = screen(120, 30);
    let text = shown(&state.render(area, arrange(area), now_ms()));
    assert!(text.contains("codex  active  5 actions"));
    assert!(text.contains("Run the tests"));
    assert!(text.contains("+1 earlier  [ok] tool1  [fail] tool2  [ok] tool3  [run] tool4"));
    assert_eq!(compact_tool_name("Bash"), "Bash");
}

#[test]
fn replays_wait_for_the_end_of_a_recording() {
    let mut session = detail(Vec::new()).session;
    assert_eq!(
        may_open_replay(&session).as_deref(),
        Some("replay is available after recording finishes")
    );
    assert_eq!(
        may_export_replay(&session).as_deref(),
        Some("export is available after recording finishes")
    );
    session.state = AgentSessionState::Finished;
    assert_eq!(may_open_replay(&session), None);
    assert_eq!(may_export_replay(&session), None);
    assert_eq!(export_name("x"), "loomterm-session-x.html");
    assert_eq!(export_refused("/a"), "refusing to overwrite /a");
    assert_eq!(replay_opened("/a", Ok(())), Ok("opened /a".to_owned()));
    assert!(replay_opened("/a", Err(Error::Timeout)).unwrap_err().starts_with("open failed: "));
    assert_eq!(
        replay_exported("/a", Ok(())),
        Ok("exported /a (review for sensitive data)".to_owned())
    );
    assert!(replay_exported("/a", Err(Error::Timeout))
        .unwrap_err()
        .starts_with("export failed: "));
}

#[test]
fn texts_are_made_to_fit() {
    assert_eq!(truncate("abcdef", 3), "abc...");
    assert_eq!(truncate("abc", 3), "abc");
    assert_eq!(one_line("  a \n b\tc "), "a b c");
    assert_eq!(pad_left("ab", 4), "  ab");
    assert_eq!(short_id("0123456789abcdef"), "0123456789ab");
    assert_eq!(format_duration(59_999), "59s");
    assert_eq!(format_duration(61_000), "1m 01s");
    assert_eq!(format_age(10_000, 0), "10s");
    assert_eq!(format_age(120_000, 0), "2m");
    assert_eq!(format_age(7_200_000, 0), "2h");
    assert_eq!(format_age(172_800_000, 0), "2d");
    assert_eq!(format_age(0, 10), "0s");
    let cancelled = Some(ExecutionOutcome::Cancelled { signal: Some(15) });
    assert_eq!(format_outcome(&cancelled, "cancelled (signal ", ")"), "cancelled (signal 15)");
    assert_eq!(format_outcome(&None, "", ""), "in progress");
    assert_eq!(
        centered_rect(10, 4, screen(20, 10)),
        Rect { x: 5, y: 3, width: 10, height: 4 }
    );
    assert!(contains(screen(2, 2), 1, 1));
    assert!(!contains(screen(2, 2), 2, 1));
}

#[test]
fn the_observer_fills_the_screen() {
    for width in (60..=260u16).step_by(3) {
        for height in (22..=90u16).step_by(3) {
            let layout = arrange(Rect { x: 0, y: 0, width, height }).unwrap();
            let rows = |y: u16, height: u16| Rect { x: 0, y, width, height };
            assert_eq!(layout.header, rows(0, 3));
            assert_eq!(layout.request, rows(3, 7));
            assert_eq!(layout.footer, rows(height - 1, 1));
            let middle = height - 11;
            if width >= 100 {
                let left = (u32::from(width) * 38 + 50) as u16 / 100;
                let right = width - left;
                assert_eq!(layout.executions, Rect { x: 0, y: 10, width: left, height: middle });
                assert_eq!(layout.selected, Rect { x: left, y: 10, width: right, height: 5 });
                let rest = Rect { x: left, y: 15, width: right, height: middle - 5 };
                assert_eq!(layout.output, rest);
            } else {
                let upper = (middle * 45 + 50) / 100;
                assert_eq!(layout.executions, rows(10, upper));
                assert_eq!(layout.selected, rows(10 + upper, 5));
                assert_eq!(layout.output, rows(15 + upper, middle - upper - 5));
            }
        }
    }
}

#[test]
fn the_observer_waits_for_a_prompt() {
    let mut state = observe(detail(Vec::new()));
    let area = screen(120, 30);
    let text = shown(&state.render(area, arrange(area), now_ms()));
    let expected = format!("Waiting for a Codex or {:?} Code prompt...", AgentProvider::Claude);
    assert!(text.contains(&expected));
}
