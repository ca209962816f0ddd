use loomterm::codec::now_ms;
use loomterm::error::Error;
use loomterm::model::{
    AgentSession, AgentSessionDetail, AgentSessionState, CommandSpec, Execution, ExecutionEvent,
    ExecutionEventPayload, ExecutionState, Initiator, OutputStream, Workspace,
};
use loomterm::screen::{
    selection_offset, KeyCode, KeyEvent, MouseEvent, MouseKind, Panel, Rect,
};
use loomterm::ui::{
    leave, AgentModalPurpose, AgentProvider, Command, Focus, Modal, OperatorState, PaletteAction,
    UiAction, UiOptions,
};
use loomterm::ui_view::arrange;

fn agent_name(provider: AgentProvider) -> String {
    format!("{provider:?}").to_lowercase()
}

fn second_label() -> String {
    format!("{:?}", AgentProvider::Claude)
}

fn workspace() -> Workspace {
    Workspace {
        id: "workspace".into(),
        name: "loomterm".into(),
        root: "/tmp/loomterm".into(),
        created_at_ms: 1,
    }
}

fn session(id: &str, provider: &str, state: AgentSessionState) -> AgentSession {
    AgentSession {
        id: id.into(),
        workspace_id: "workspace".into(),
        state,
        agent_kind: provider.into(),
        name: Some(format!("{provider} work")),
        command: CommandSpec::Argv { program: provider.into(), args: Vec::new() },
        command_display: provider.into(),
        cwd: "/tmp/loomterm".into(),
        created_at_ms: 10,
        ended_at_ms: None,
        duration_ms: None,
        recorder_pid: 1,
        outcome: None,
        captured_bytes: 0,
        output_truncated: false,
        initial_cols: 80,
        initial_rows: 24,
        cast_path: "session.cast".into(),
        html_path: "session.html".into(),
    }
}

fn execution(id: &str, session_id: Option<&str>, state: ExecutionState) -> Execution {
    Execution {
        id: id.into(),
        workspace_id: "workspace".into(),
        state,
        command: CommandSpec::Argv { program: "cargo".into(), args: vec!["test".into()] },
        command_display: format!("cargo test --test {id}"),
        cwd: "/tmp/loomterm".into(),
        env_keys: Vec::new(),
        initiator: Initiator {
            kind: "mcp".into(),
            name: Some("loomterm".into()),
            session_id: session_id.map(str::to_owned),
        },
        created_at_ms: 20,
        started_at_ms: Some(20),
        ended_at_ms: None,
        duration_ms: None,
        pid: Some(1),
        pgid: Some(1),
        outcome: None,
        captured_bytes: 0,
        output_truncated: false,
        last_seq: 0,
    }
}

fn options(selected_session_id: Option<String>) -> UiOptions {
    UiOptions { workspace: workspace(), selected_session_id, notice: None, claude_label: second_label() }
}

fn state() -> OperatorState {
    let mut state = OperatorState::new(options(None));
    let sessions = vec![session("session-1", "codex", AgentSessionState::Finished)];
    let executions = vec![
        execution("linked", Some("session-1"), ExecutionState::Running),
        execution("unowned", None, ExecutionState::Finished),
    ];
    state.apply_snapshot(sessions, executions, None);
    state
}

fn screen(width: u16, height: u16) -> Rect {
    Rect { x: 0, y: 0, width, height }
}

fn draw(state: &mut OperatorState, width: u16, height: u16) -> Vec<Panel> {
    let area = screen(width, height);
    let layout = arrange(area, state.focus);
    state.render(area, layout, now_ms())
}

fn shown(panels: &[Panel]) -> String {
    let mut text = String::new();
    for panel in panels {
        if let Some(title) = &panel.title {
            text.push_str(title);
            text.push('\n');
        }
        for line in &panel.lines {
            for span in &line.spans {
                text.push_str(&span.text);
            }
            text.push('\n');
        }
    }
    text
}

fn press(state: &mut OperatorState, code: KeyCode) -> Command {
    state.handle_key(KeyEvent::pressed(code))
}

#[test]
fn all_work_includes_sessionless_executions() {
    let state = state();
    assert_eq!(state.visible_session_ids(), vec![None, Some("session-1".into())]);
    assert_eq!(state.visible_execution_ids().len(), 2);
    assert!(state.visible_execution_ids().contains(&"unowned".to_owned()));
}

#[test]
fn search_filters_commands_and_preserves_all_work() {
    let mut state = state();
    state.query = "unowned".into();
    state.ensure_execution_selection();
    assert_eq!(state.visible_execution_ids(), ["unowned"]);
    assert_eq!(state.visible_session_ids().first(), Some(&None));
}

#[test]
fn cancel_requires_an_active_execution() {
    let mut state = state();
    state.selected_execution_id = Some("unowned".into());
    assert_eq!(state.invoke(PaletteAction::Cancel), Command::Nothing);
    assert!(state.notice.as_deref().unwrap().contains("queued or running"));
    state.selected_execution_id = Some("linked".into());
    state.invoke(PaletteAction::Cancel);
    assert_eq!(state.modal, Some(Modal::ConfirmCancel("linked".into())));
}

#[test]
fn renders_responsive_layouts_without_overflow() {
    for (width, height) in [(80, 24), (120, 32), (160, 40)] {
        let mut state = state();
        let panels = draw(&mut state, width, height);
        let rendered = shown(&panels);
        assert!(rendered.contains("LOOMTERM"));
        assert!(rendered.contains("ALL WORK"));
        assert!(!state.hit_regions.is_empty());
        for panel in &panels {
            assert!(panel.area.x + panel.area.width <= width);
            assert!(panel.area.y + panel.area.height <= height);
            assert!(panel.area.width > 0 && panel.area.height > 0);
        }
    }
}

#[test]
fn provider_modal_returns_launch_request() {
    let mut state = state();
    state.invoke(PaletteAction::NewAgent);
    let command = press(&mut state, KeyCode::Enter);
    assert_eq!(command, Command::Launch { provider: AgentProvider::Codex, prompt: None });
}

#[test]
fn target_session_marks_cross_session_execution_as_handoff() {
    let target = session(
        "target",
        &agent_name(AgentProvider::Claude),
        AgentSessionState::Recording,
    );
    let linked = execution("linked", Some("source"), ExecutionState::Running);
    let detail = AgentSessionDetail {
        session: target.clone(),
        executions: vec![linked.clone()],
        turns: Vec::new(),
        actions: Vec::new(),
    };
    let mut state = OperatorState::new(options(Some(target.id.clone())));
    state.apply_snapshot(vec![target], vec![linked], Some(detail));
    state.focus = Focus::Executions;

    let rendered = shown(&draw(&mut state, 160, 40));
    assert!(rendered.contains("handoff"));
    let upper = agent_name(AgentProvider::Claude).to_uppercase();
    assert!(rendered.contains(&format!("Executions | {upper}")));
}

#[test]
fn list_offset_keeps_the_selection_visible() {
    assert_eq!(selection_offset(0, 12, 5, 20), 8);
    assert_eq!(selection_offset(8, 2, 5, 20), 2);
    assert_eq!(selection_offset(18, 19, 5, 20), 15);
}

#[test]
fn the_screen_may_be_too_small() {
    let mut state = state();
    let rendered = shown(&draw(&mut state, 59, 40));
    assert!(rendered.contains("Terminal too small\nminimum: 60x20\ncurrent: 59x40"));
    assert!(state.hit_regions.is_empty());
}

#[test]
fn a_search_is_typed_and_left() {
    let mut state = state();
    assert_eq!(press(&mut state, KeyCode::Char('/')), Command::ReloadOutput);
    for c in "UNOWNED".chars() {
        press(&mut state, KeyCode::Char(c));
    }
    assert_eq!(state.visible_execution_ids(), ["unowned"]);
    assert_eq!(state.selected_execution_id.as_deref(), Some("unowned"));
    assert!(shown(&draw(&mut state, 80, 24)).contains("/UNOWNED_  Enter apply  Esc close"));
    press(&mut state, KeyCode::Backspace);
    assert_eq!(state.query, "UNOWNE");
    press(&mut state, KeyCode::Enter);
    assert!(!state.editing_search);
    assert!(shown(&draw(&mut state, 80, 24)).contains("filter: UNOWNE  Esc clear  / edit"));
    press(&mut state, KeyCode::Esc);
    assert_eq!(state.query, "");
    assert_eq!(state.visible_execution_ids().len(), 2);
}

#[test]
fn the_palette_is_walked_and_used() {
    let mut state = state();
    let open = KeyEvent { control: true, ..KeyEvent::pressed(KeyCode::Char('p')) };
    assert_eq!(state.handle_key(open), Command::Nothing);
    assert!(shown(&draw(&mut state, 80, 24)).contains("Command palette"));
    for _ in 0..20 {
        press(&mut state, KeyCode::Down);
    }
    assert_eq!(state.modal, Some(Modal::Palette { selected: 8 }));
    press(&mut state, KeyCode::Char('k'));
    press(&mut state, KeyCode::Up);
    assert_eq!(press(&mut state, KeyCode::Enter), Command::Refresh);
    assert_eq!(state.modal, None);
    assert_eq!(PaletteAction::at(0).label(), "New agent");
    assert_eq!(PaletteAction::at(8).shortcut(), "q");
}

#[test]
fn an_agent_is_chosen_with_a_prompt() {
    let mut state = state();
    press(&mut state, KeyCode::Char('n'));
    press(&mut state, KeyCode::Right);
    press(&mut state, KeyCode::Tab);
    for c in "  go x".chars() {
        press(&mut state, KeyCode::Char(c));
    }
    press(&mut state, KeyCode::Backspace);
    let text = shown(&draw(&mut state, 80, 24));
    assert!(text.contains("Start a recorded agent in this workspace"));
    assert!(text.contains(&format!("[ {} ]", second_label())));
    let command = press(&mut state, KeyCode::Enter);
    assert_eq!(
        command,
        Command::Launch { provider: AgentProvider::Claude, prompt: Some("go".into()) }
    );
    assert_eq!(
        leave(command),
        Ok(UiAction::Launch { provider: AgentProvider::Claude, prompt: Some("go".into()) })
    );
    assert_eq!(leave(Command::Quit), Ok(UiAction::Quit));
    assert_eq!(leave(Command::Refresh), Err(Command::Refresh));
}

#[test]
fn a_handoff_needs_work_that_is_left() {
    let mut state = state();
    let mut detail = AgentSessionDetail {
        session: session("session-1", "codex", AgentSessionState::Recording),
        executions: vec![execution("linked", Some("session-1"), ExecutionState::Running)],
        turns: Vec::new(),
        actions: Vec::new(),
    };
    state.prepare_handoff("session-1".into(), &detail);
    assert_eq!(state.notice.as_deref(), Some("exit the source agent before handoff"));
    detail.session.state = AgentSessionState::Finished;
    state.prepare_handoff("session-1".into(), &detail);
    assert!(matches!(
        state.modal,
        Some(Modal::Agent {
            purpose: AgentModalPurpose::Handoff { active_count: 1, .. },
            provider: AgentProvider::Claude,
            ..
        })
    ));
    assert!(shown(&draw(&mut state, 80, 24)).contains("Active    1 execution(s)"));
    assert_eq!(
        press(&mut state, KeyCode::Enter),
        Command::Handoff {
            provider: AgentProvider::Claude,
            source_session_id: "session-1".into()
        }
    );
    detail.executions[0].state = ExecutionState::Finished;
    state.prepare_handoff("session-1".into(), &detail);
    assert_eq!(
        state.notice.as_deref(),
        Some("this session has no active durable work to hand off")
    );
}

#[test]
fn cancelling_takes_a_confirmation() {
    let mut state = state();
    state.selected_execution_id = Some("linked".into());
    press(&mut state, KeyCode::Char('c'));
    assert!(shown(&draw(&mut state, 80, 24)).contains("Cancel this execution?"));
    assert_eq!(press(&mut state, KeyCode::Char('x')), Command::Nothing);
    assert_eq!(press(&mut state, KeyCode::Char('n')), Command::Nothing);
    assert_eq!(state.modal, None);
    press(&mut state, KeyCode::Char('c'));
    assert_eq!(press(&mut state, KeyCode::Enter), Command::Cancel("linked".into()));
    state.cancelled(Ok(()));
    assert_eq!(state.notice.as_deref(), Some("cancel requested"));
    state.cancelled(Err(Error::Timeout));
    assert!(state.error.as_deref().unwrap().starts_with("cancel failed: "));
}

#[test]
fn focus_goes_round_and_moves_the_selection() {
    let mut state = state();
    assert_eq!(state.focus, Focus::Sessions);
    assert_eq!(press(&mut state, KeyCode::Down), Command::Refresh);
    assert_eq!(state.selected_session_id.as_deref(), Some("session-1"));
    assert_eq!(press(&mut state, KeyCode::Down), Command::Nothing);
    assert_eq!(press(&mut state, KeyCode::Up), Command::Refresh);
    assert_eq!(state.selected_session_id, None);
    state.ensure_execution_selection();
    press(&mut state, KeyCode::Tab);
    assert_eq!(state.focus, Focus::Executions);
    assert_eq!(press(&mut state, KeyCode::Down), Command::ReloadOutput);
    assert_eq!(state.selected_execution_id.as_deref(), Some("unowned"));
    press(&mut state, KeyCode::BackTab);
    assert_eq!(state.focus, Focus::Sessions);
    press(&mut state, KeyCode::Enter);
    press(&mut state, KeyCode::Enter);
    assert_eq!(state.focus, Focus::Output);
    press(&mut state, KeyCode::Char('j'));
    assert!(!state.output.follow);
    assert_eq!(press(&mut state, KeyCode::Char('q')), Command::Quit);
    press(&mut state, KeyCode::Char('?'));
    assert!(shown(&draw(&mut state, 80, 24)).contains("Esc or ? closes help"));
    let leave_now = KeyEvent { control: true, ..KeyEvent::pressed(KeyCode::Char('c')) };
    assert_eq!(state.handle_key(leave_now), Command::Quit);
}

#[test]
fn a_click_selects_what_lies_under_it() {
    let mut state = state();
    draw(&mut state, 160, 40);
    let row = state
        .hit_regions
        .iter()
        .find(|region| {
            region.target == loomterm::ui::HitTarget::Execution("unowned".into())
        })
        .map(|region| region.area)
        .unwrap();
    let click = MouseEvent { kind: MouseKind::LeftDown, column: row.x, row: row.y };
    assert_eq!(state.handle_mouse(click), Command::ReloadOutput);
    assert_eq!(state.selected_execution_id.as_deref(), Some("unowned"));
    assert_eq!(state.focus, Focus::Executions);
    assert_eq!(state.handle_mouse(click), Command::Nothing);
    let wheel = MouseEvent { kind: MouseKind::ScrollUp, column: row.x, row: row.y };
    assert_eq!(state.handle_mouse(wheel), Command::ReloadOutput);
    assert_eq!(state.selected_execution_id.as_deref(), Some("linked"));
    let outside = MouseEvent { kind: MouseKind::LeftDown, column: 999, row: 999 };
    assert_eq!(state.handle_mouse(outside), Command::Nothing);
}

#[test]
fn a_session_that_is_gone_is_no_longer_selected() {
    let mut state = OperatorState::new(options(Some("gone".into())));
    assert_eq!(state.session_to_load(&vec![]), None);
    assert_eq!(state.selected_session_id, None);
    let mut state = OperatorState::new(options(Some("s".into())));
    let here = vec![session("s", "codex", AgentSessionState::Finished)];
    assert_eq!(state.session_to_load(&here).as_deref(), Some("s"));
}

#[test]
fn lists_are_ordered_from_the_newest() {
    let mut older = execution("older", None, ExecutionState::Finished);
    older.created_at_ms = 1;
    let newer = execution("newer", None, ExecutionState::Finished);
    let mut state = OperatorState::new(options(None));
    assert!(state.apply_snapshot(Vec::new(), vec![older, newer], None));
    assert_eq!(state.visible_execution_ids(), ["newer", "older"]);
    assert_eq!(state.selected_execution_id.as_deref(), Some("newer"));
    assert!(state.follows_another(&None));
    assert!(!state.follows_another(&Some("newer".into())));
}

#[test]
fn live_output_is_shown_in_the_output_pane() {
    let mut state = state();
    state.take_event(ExecutionEvent {
        execution_id: "linked".into(),
        seq: 1,
        timestamp_ms: 1,
        payload: ExecutionEventPayload::Output {
            stream: OutputStream::Stdout,
            data_base64: "bGluZSBvbmUKbGluZSB0d28=".into(),
        },
    });
    assert_eq!(state.output.cursor, 1);
    let text = shown(&draw(&mut state, 160, 40));
    assert!(text.contains("line one\nline two\n"));
    assert!(text.contains("Output | follow"));
    assert!(text.contains("request  unavailable"));
    state.note_failure("daemon unavailable; retrying: ", &Error::Timeout);
    let text = shown(&draw(&mut state, 160, 40));
    assert!(text.contains("Operator UI | daemon retrying"));
}

#[test]
fn the_panes_fill_the_screen() {
    for width in (60..=260u16).step_by(3) {
        for height in (20..=80u16).step_by(5) {
            for focus in [Focus::Sessions, Focus::Executions, Focus::Output] {
                let layout = arrange(Rect { x: 0, y: 0, width, height }, focus).unwrap();
                assert_eq!(layout.header, Rect { x: 0, y: 0, width, height: 3 });
                assert_eq!(layout.footer, Rect { x: 0, y: height - 1, width, height: 1 });
                let columns = |from: u16, to: u16| Rect {
                    x: from,
                    y: 3,
                    width: to - from,
                    height: height - 4,
                };
                let share = |percent: u32| ((u32::from(width) * percent + 50) / 100) as u16;
                let (sessions, executions, output) = if width >= 140 {
                    (
                        Some(columns(0, share(25))),
                        Some(columns(share(25), share(59))),
                        Some(columns(share(59), width)),
                    )
                } else if width >= 100 {
                    let right = columns(share(34), width);
                    let shown = focus == Focus::Output;
                    (
                        Some(columns(0, share(34))),
                        (!shown).then_some(right),
                        shown.then_some(right),
                    )
                } else {
                    let whole = columns(0, width);
                    (
                        (focus == Focus::Sessions).then_some(whole),
                        (focus == Focus::Executions).then_some(whole),
                        (focus == Focus::Output).then_some(whole),
                    )
                };
                assert_eq!(layout.sessions, sessions);
                assert_eq!(layout.executions, executions);
                assert_eq!(layout.output.map(|parts| parts.pane), output);
                if let Some(parts) = layout.output {
                    assert_eq!(parts.inspector, Rect { height: 8, ..parts.pane });
                    assert_eq!(
                        parts.output,
                        Rect { y: 11, height: parts.pane.height - 8, ..parts.pane }
                    );
                }
            }
        }
    }
}

#[test]
fn agents_have_names() {
    let second = agent_name(AgentProvider::Claude);
    assert_eq!(AgentProvider::Codex.as_str(&second), "codex");
    assert_eq!(AgentProvider::Claude.as_str(&second), second);
}
