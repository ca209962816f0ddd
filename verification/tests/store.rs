use loomterm::codec::{new_id, now_ms};
use loomterm::error::Error;
use loomterm::model::{
    AgentActionState, AgentEvent, AgentEventRequest, AgentSessionFinish, AgentSessionRequest,
    AgentSessionState, AgentTurnState, CommandSpec, EnvVar, ExecutionEventPayload,
    ExecutionOutcome, ExecutionRequest, ExecutionState, ExecutionStatusCounts, Initiator,
    InitiatorStats, OutputStream, Workspace,
};
use loomterm::store::capture::CaptureRecord;
use loomterm::store::columns::{
    migration_plan, parse_agent_action_state, parse_agent_session_state, parse_agent_turn_state,
    parse_event_kind, parse_state, parse_stream, EventKind, Migration, SCHEMA_VERSION,
};
use loomterm::store::rows::{Database, ExecutionRow};
use loomterm::store::serve::{StoreCommand, StoreReply};
use loomterm::store::stats::nearest_rank;
use loomterm::ui::AgentProvider;

fn second_agent() -> String {
    format!("{:?}", AgentProvider::Claude).to_lowercase()
}

fn request(workspace_id: String) -> ExecutionRequest {
    ExecutionRequest {
        workspace_id,
        cwd: None,
        command: CommandSpec::Argv { program: "printf".into(), args: vec!["hello".into()] },
        env: Vec::new(),
        stdin_base64: None,
        initiator: Initiator::default(),
        capture_limit_bytes: None,
    }
}

fn add(db: &mut Database, name: &str, root: &str) -> Result<Workspace, Error> {
    db.add_workspace(name, root, true)
}

fn create(db: &mut Database, workspace_id: &str, root: &str) -> String {
    db.create_execution(&request(workspace_id.into()), root)
        .unwrap()
        .id
}

fn insert_execution(
    db: &mut Database,
    workspace_id: &str,
    id: &str,
    state: ExecutionState,
    outcome: Option<ExecutionOutcome>,
    initiator: &str,
    duration_ms: Option<u64>,
) {
    let (started_at_ms, ended_at_ms) = duration_ms
        .map(|duration| (Some(1_000), Some(1_000 + duration as i64)))
        .unwrap_or((None, None));
    db.executions.push(ExecutionRow {
        id: id.into(),
        workspace_id: workspace_id.into(),
        state,
        command: CommandSpec::Argv { program: "x".into(), args: Vec::new() },
        cwd: "/tmp/test".into(),
        env_keys: Vec::new(),
        initiator: Initiator { kind: initiator.into(), name: None, session_id: None },
        created_at_ms: 100,
        started_at_ms,
        ended_at_ms,
        pid: None,
        pgid: None,
        outcome,
        captured_bytes: 10,
        output_truncated: id == "spawn-error",
        session_id: None,
        events: Vec::new(),
    });
}

fn session_request(id: &str, workspace_id: &str, root: &str) -> AgentSessionRequest {
    AgentSessionRequest {
        id: id.into(),
        workspace_id: workspace_id.into(),
        agent_kind: "codex".into(),
        name: Some("demo".into()),
        command: CommandSpec::Argv { program: "codex".into(), args: Vec::new() },
        cwd: root.into(),
        recorder_pid: 42,
        initial_cols: 80,
        initial_rows: 24,
        cast_path: format!("{root}/recording.cast"),
        html_path: format!("{root}/replay.html"),
    }
}

fn output(id: &str, stream: OutputStream, data: &[u8]) -> CaptureRecord {
    CaptureRecord::Output {
        execution_id: id.into(),
        timestamp_ms: now_ms(),
        stream,
        data: data.to_vec(),
    }
}

#[test]
fn stores_execution_and_lossless_output() {
    let mut db = Database::new();
    let workspace = add(&mut db, "test", "/root/w").unwrap();
    let id = create(&mut db, &workspace.id, "/root/w");
    db.mark_running(&id, 42, 42).unwrap();
    db.append_output(&id, OutputStream::Stdout, b"hello\xff").unwrap();
    db.finish(
        &id,
        ExecutionState::Finished,
        ExecutionOutcome::Exited { code: 0 },
    )
    .unwrap();

    let page = db.read_output(&id, 0, 1024, now_ms()).unwrap();
    assert_eq!(page.events.len(), 3);
    assert!(page.execution.state.is_terminal());
    assert_eq!(page.execution.captured_bytes, 6);
    assert_eq!(
        page.events[1].payload,
        ExecutionEventPayload::Output {
            stream: OutputStream::Stdout,
            data_base64: "aGVsbG//".into(),
        }
    );
}

#[test]
fn correlates_and_deletes_agent_sessions_without_deleting_executions() {
    let root = "/root/w";
    let mut db = Database::new();
    let workspace = add(&mut db, "test", root).unwrap();
    let session_id = new_id();
    let session = db
        .create_agent_session(
            &session_request(&session_id, &workspace.id, root),
            root,
        )
        .unwrap();
    assert_eq!(session.state, AgentSessionState::Recording);

    let mut execution_request = request(workspace.id);
    execution_request.initiator.session_id = Some(session_id.clone());
    let execution = db
        .create_execution(&execution_request, root)
        .unwrap();
    let second = second_agent();
    let second_session = format!("{second}-session");
    let event = |provider: &str, session: &str, turn: Option<&str>, event: AgentEvent| {
        AgentEventRequest {
            session_id: session_id.clone(),
            provider: provider.into(),
            provider_session_id: session.into(),
            provider_turn_id: turn.map(str::to_owned),
            event,
        }
    };
    let events = [
        event(
            "codex",
            "codex-session",
            Some("turn-1"),
            AgentEvent::PromptSubmitted { prompt: "Run the tests".into() },
        ),
        event(
            "codex",
            "codex-session",
            Some("turn-1"),
            AgentEvent::ToolStarted {
                action_id: "tool-1".into(),
                tool_name: "mcp__loomterm__loom_run".into(),
            },
        ),
        event(
            "codex",
            "codex-session",
            Some("turn-1"),
            AgentEvent::ToolFinished {
                action_id: "tool-1".into(),
                tool_name: "mcp__loomterm__loom_run".into(),
                failed: false,
                execution_id: Some(execution.id.clone()),
            },
        ),
        event(
            "codex",
            "codex-session",
            Some("turn-1"),
            AgentEvent::TurnFinished {
                failed: false,
                last_assistant_message: Some("Tests passed".into()),
            },
        ),
        event(
            &second,
            &second_session,
            None,
            AgentEvent::PromptSubmitted { prompt: "Explain the failure".into() },
        ),
        event(
            &second,
            &second_session,
            None,
            AgentEvent::TurnFinished { failed: true, last_assistant_message: None },
        ),
    ];
    for request in &events {
        db.record_agent_event(request).unwrap();
    }
    let detail = db.get_agent_session(&session_id, now_ms()).unwrap();
    assert_eq!(detail.turns.len(), 2);
    assert_eq!(detail.turns[0].state, AgentTurnState::Completed);
    assert_eq!(detail.turns[1].state, AgentTurnState::Failed);
    assert_eq!(detail.turns[0].last_assistant_message.as_deref(), Some("Tests passed"));
    assert_eq!(detail.actions.len(), 1);
    assert_eq!(detail.actions[0].execution_id, Some(execution.id.clone()));
    assert_eq!(detail.actions[0].state, AgentActionState::Completed);
    assert_eq!(detail.executions.len(), 1);

    db.finish_agent_session(
        &session_id,
        &AgentSessionFinish {
            state: AgentSessionState::Finished,
            outcome: ExecutionOutcome::Exited { code: 0 },
            captured_bytes: 12,
            output_truncated: false,
        },
    )
    .unwrap();
    db.prune(0, 0).unwrap();
    assert_eq!(db.get_agent_session(&session_id, now_ms()).unwrap().session.id, session_id);
    db.delete_agent_session(&session_id).unwrap();
    assert_eq!(db.get_execution(&execution.id, now_ms()).unwrap().initiator.session_id, None);
    assert!(matches!(
        db.get_agent_session(&session_id, now_ms()),
        Err(Error::AgentSessionNotFound(_))
    ));
}

#[test]
fn reconciles_incomplete_records_and_prunes_only_terminal_history() {
    let mut db = Database::new();
    let workspace = add(&mut db, "test", "/root/w").unwrap();
    let running = create(&mut db, &workspace.id, "/root/w");
    db.mark_running(&running, 42, 42).unwrap();
    let queued = create(&mut db, &workspace.id, "/root/w");

    assert_eq!(db.reconcile_incomplete(), 2);
    assert_eq!(
        db.get_execution(&running, now_ms()).unwrap().state,
        ExecutionState::Interrupted
    );
    assert_eq!(db.get_execution(&queued, now_ms()).unwrap().state, ExecutionState::Interrupted);
    assert_eq!(db.prune_at(0, u64::MAX, now_ms() + 2).unwrap(), 2);
    assert!(matches!(
        db.get_execution(&running, now_ms()),
        Err(Error::ExecutionNotFound(_))
    ));
}

#[test]
fn builds_empty_execution_stats() {
    let mut db = Database::new();
    let workspace = add(&mut db, "test", "/root/w").unwrap();
    let stats = db.execution_stats(&workspace.id, 100, 200).unwrap();

    assert_eq!(stats.total, 0);
    assert_eq!(stats.status, ExecutionStatusCounts::default());
    assert!(stats.by_initiator.is_empty());
    assert_eq!(stats.duration_p50_ms, None);
    assert_eq!(stats.duration_p95_ms, None);
}

#[test]
fn classifies_every_execution_and_sorts_initiators() {
    let mut db = Database::new();
    let workspace = add(&mut db, "test", "/root/w").unwrap();
    let records = [
        ("queued", ExecutionState::Queued, None, "mcp", None),
        ("running", ExecutionState::Running, None, "cli", None),
        (
            "success",
            ExecutionState::Finished,
            Some(ExecutionOutcome::Exited { code: 0 }),
            "mcp",
            Some(10),
        ),
        (
            "failure",
            ExecutionState::Finished,
            Some(ExecutionOutcome::Exited { code: 2 }),
            "cli",
            Some(20),
        ),
        (
            "signaled",
            ExecutionState::Finished,
            Some(ExecutionOutcome::Signaled { signal: 9 }),
            "cli",
            Some(30),
        ),
        (
            "spawn-error",
            ExecutionState::Finished,
            Some(ExecutionOutcome::SpawnError { message: "missing".into() }),
            "cli",
            Some(40),
        ),
        (
            "cancelled",
            ExecutionState::Cancelled,
            Some(ExecutionOutcome::Cancelled { signal: Some(15) }),
            "cli",
            Some(50),
        ),
        (
            "interrupted",
            ExecutionState::Interrupted,
            Some(ExecutionOutcome::Interrupted { reason: "restart".into() }),
            "cli",
            Some(60),
        ),
        ("unknown", ExecutionState::Finished, None, "cli", Some(70)),
    ];
    for (id, state, outcome, initiator, duration) in records {
        insert_execution(&mut db, &workspace.id, id, state, outcome, initiator, duration);
    }

    let stats = db.execution_stats(&workspace.id, 0, 200).unwrap();

    assert_eq!(stats.total, 9);
    assert_eq!(stats.status.queued, 1);
    assert_eq!(stats.status.running, 1);
    assert_eq!(stats.status.exited_zero, 1);
    assert_eq!(stats.status.exited_nonzero, 1);
    assert_eq!(stats.status.signaled, 1);
    assert_eq!(stats.status.spawn_error, 1);
    assert_eq!(stats.status.cancelled, 1);
    assert_eq!(stats.status.interrupted, 1);
    assert_eq!(stats.status.unknown_terminal, 1);
    assert_eq!(
        stats.by_initiator,
        vec![
            InitiatorStats { kind: "cli".into(), count: 7 },
            InitiatorStats { kind: "mcp".into(), count: 2 },
        ]
    );
    assert_eq!(stats.captured_bytes, 90);
    assert_eq!(stats.truncated_executions, 1);
    assert_eq!(stats.duration_samples, 7);
    assert_eq!(stats.duration_p50_ms, Some(40));
    assert_eq!(stats.duration_p95_ms, Some(70));
}

#[test]
fn nearest_rank_handles_boundaries() {
    let mut db = Database::new();
    let workspace = add(&mut db, "test", "/root/w").unwrap();
    for (id, duration) in [("first", 10), ("second", 20)] {
        insert_execution(
            &mut db,
            &workspace.id,
            id,
            ExecutionState::Finished,
            Some(ExecutionOutcome::Exited { code: 0 }),
            "cli",
            Some(duration),
        );
    }

    let stats = db.execution_stats(&workspace.id, 0, 200).unwrap();
    assert_eq!(stats.duration_p50_ms, Some(10));
    assert_eq!(stats.duration_p95_ms, Some(20));
    assert_eq!(nearest_rank(&vec![], 50), None);
    assert_eq!(nearest_rank(&vec![1, 2, 3, 4], 50), Some(2));
    assert_eq!(nearest_rank(&vec![1, 2, 3, 4], 51), Some(3));
    assert_eq!(nearest_rank(&vec![9, 7, 8], 100), Some(9));
}

#[test]
fn workspace_registration_is_idempotent_and_preserves_history() {
    let mut db = Database::new();
    let workspace = add(&mut db, "test", "/root/w").unwrap();
    let duplicate = add(&mut db, "test", "/root/w").unwrap();
    assert_eq!(duplicate.id, workspace.id);
    let execution = create(&mut db, &workspace.id, "/root/w");

    db.remove_workspace("test").unwrap();
    db.remove_workspace("test").unwrap();
    assert!(db.list_workspaces().is_empty());
    assert!(matches!(db.get_workspace("test"), Err(Error::WorkspaceNotFound(_))));
    assert_eq!(db.get_execution(&execution, now_ms()).unwrap().id, execution);

    let reactivated = add(&mut db, "test", "/root/w").unwrap();
    assert_eq!(reactivated.id, workspace.id);
    assert_eq!(db.list_workspaces().len(), 1);
    assert!(matches!(add(&mut db, "renamed", "/root/w"), Err(Error::InvalidRequest(_))));
    assert!(matches!(add(&mut db, "test", "/root/other"), Err(Error::InvalidRequest(_))));
}

#[test]
fn migrates_v1_to_current_schema() {
    assert_eq!(
        migration_plan(1).unwrap(),
        vec![Migration::AddActiveColumn, Migration::AddAgentSessions, Migration::AddAgentTurns]
    );
    assert_eq!(migration_plan(0).unwrap(), vec![Migration::CreateSchema]);
    assert_eq!(migration_plan(3).unwrap(), vec![Migration::AddAgentTurns]);
    assert_eq!(migration_plan(4).unwrap(), vec![]);
    assert_eq!(SCHEMA_VERSION, 4);
    assert!(migration_plan(5).is_err());
}

#[test]
fn database_stats_filter_by_workspace_and_window() {
    let mut db = Database::new();
    let first = add(&mut db, "first", "/root/first").unwrap();
    let second = add(&mut db, "second", "/root/second").unwrap();
    let first_request = request(first.id.clone());
    db.create_execution_at(&first_request, "/root/first", new_id(), 100).unwrap();
    db.create_execution_at(&request(second.id), "/root/second", new_id(), 200).unwrap();

    let stats = db.execution_stats(&first.id, 50, 150).unwrap();
    assert_eq!(stats.total, 1);
    assert_eq!(stats.workspace.id, first.id);
    assert_eq!(db.execution_stats("first", 101, 300).unwrap().total, 0);
}

#[test]
fn rejects_reversed_stats_window() {
    let db = Database::new();
    assert!(matches!(db.execution_stats("test", 200, 100), Err(Error::InvalidRequest(_))));
}

#[test]
fn an_ended_execution_takes_no_second_ending() {
    let mut db = Database::new();
    let workspace = add(&mut db, "test", "/root/w").unwrap();
    let id = create(&mut db, &workspace.id, "/root/w");
    let end = |db: &mut Database, state, outcome| db.finish_at(&id, state, outcome, 10);
    let code = |code| ExecutionOutcome::Exited { code };
    let first = end(&mut db, ExecutionState::Finished, code(0));
    assert!(first.is_ok());
    let second = end(&mut db, ExecutionState::Finished, code(1));
    assert!(second.is_err());
    assert_eq!(
        db.get_execution(&id, 10).unwrap().outcome,
        Some(ExecutionOutcome::Exited { code: 0 })
    );
}

#[test]
fn values_of_variables_and_the_input_are_not_stored() {
    let mut db = Database::new();
    let workspace = add(&mut db, "test", "/root/w").unwrap();
    let mut asked = request(workspace.id);
    asked.env.push(EnvVar { key: "TOKEN".into(), value: "hidden-value".into() });
    asked.stdin_base64 = Some("aGlkZGVuLWlucHV0".into());
    let execution = db.create_execution_at(&asked, "/root/w", "id".into(), 1).unwrap();
    assert_eq!(execution.env_keys, ["TOKEN"]);
    let kept = format!("{:?}", db.executions);
    assert!(!kept.contains("hidden-value"));
    assert!(!kept.contains("aGlkZGVuLWlucHV0"));
}

#[test]
fn pages_follow_each_other_without_gaps() {
    let mut db = Database::new();
    let workspace = add(&mut db, "test", "/root/w").unwrap();
    let id = create(&mut db, &workspace.id, "/root/w");
    let batch: Vec<CaptureRecord> =
        (0..5u8).map(|n| output(&id, OutputStream::Stdout, &[n; 10])).collect();
    assert_eq!(db.append_capture_batch(&batch).unwrap().len(), 5);
    let mut cursor = 0;
    let mut seen = Vec::new();
    loop {
        let page = db.read_output(&id, cursor, 25, now_ms()).unwrap();
        seen.extend(page.events.iter().map(|event| event.seq));
        cursor = page.next_seq;
        if !page.has_more {
            break;
        }
    }
    assert_eq!(seen, [1, 2, 3, 4, 5]);
    let small = db.read_output(&id, 0, 1, now_ms()).unwrap();
    assert_eq!(small.events.len(), 1);
    assert!(small.has_more);
    assert!(matches!(
        db.read_output("missing", 0, 1, now_ms()),
        Err(Error::ExecutionNotFound(_))
    ));
}

#[test]
fn a_truncated_capture_is_marked() {
    let mut db = Database::new();
    let workspace = add(&mut db, "test", "/root/w").unwrap();
    let id = create(&mut db, &workspace.id, "/root/w");
    db.append_capture_batch(&vec![
        output(&id, OutputStream::Stderr, b"abc"),
        CaptureRecord::Truncated { execution_id: id.clone(), timestamp_ms: 5, limit_bytes: 3 },
    ])
    .unwrap();
    let execution = db.get_execution(&id, now_ms()).unwrap();
    assert!(execution.output_truncated);
    assert_eq!(execution.captured_bytes, 3);
    assert_eq!(execution.last_seq, 2);
    let lost = db.append_capture_batch(&vec![output("gone", OutputStream::Stdout, b"x")]);
    assert!(lost.is_err());
    let event = db.mark_truncated(&id, 9).unwrap();
    assert_eq!(event.seq, 3);
    assert_eq!(event.payload, ExecutionEventPayload::CaptureTruncated { limit_bytes: 9 });
    assert!(matches!(db.mark_truncated("gone", 9), Err(Error::ExecutionNotFound(_))));
}

#[test]
fn pruning_for_space_takes_the_oldest_first() {
    let mut db = Database::new();
    let workspace = add(&mut db, "test", "/root/w").unwrap();
    for (id, at) in [("old", 10), ("middle", 20), ("new", 30)] {
        db.create_execution_at(&request(workspace.id.clone()), "/root/w", id.into(), at).unwrap();
        db.append_capture_batch(&vec![output(id, OutputStream::Stdout, &[1; 100])]).unwrap();
        db.finish_at(id, ExecutionState::Finished, ExecutionOutcome::Exited { code: 0 }, at)
            .unwrap();
    }
    db.create_execution_at(&request(workspace.id.clone()), "/root/w", "open".into(), 40).unwrap();
    db.append_capture_batch(&vec![output("open", OutputStream::Stdout, &[1; 100])]).unwrap();
    assert_eq!(db.prune_at(7, 250, 50).unwrap(), 2);
    assert!(db.get_execution("old", 50).is_err());
    assert!(db.get_execution("middle", 50).is_err());
    assert!(db.get_execution("new", 50).is_ok());
    assert_eq!(db.prune_at(7, 0, 50).unwrap(), 1);
    assert!(db.get_execution("open", 50).is_ok());
}

#[test]
fn only_what_is_queued_is_cancelled_from_the_queue() {
    let mut db = Database::new();
    let workspace = add(&mut db, "test", "/root/w").unwrap();
    let running = create(&mut db, &workspace.id, "/root/w");
    db.mark_running_at(&running, 1, 1, 5).unwrap();
    let queued = create(&mut db, &workspace.id, "/root/w");
    let events = db.cancel_queued_at(9);
    assert_eq!(events.len(), 1);
    assert_eq!(events[0].execution_id, queued);
    assert_eq!(db.get_execution(&queued, 9).unwrap().state, ExecutionState::Cancelled);
    assert_eq!(db.get_execution(&running, 9).unwrap().state, ExecutionState::Running);
}

#[test]
fn lists_run_from_the_newest_and_keep_to_their_limit() {
    let mut db = Database::new();
    let first = add(&mut db, "first", "/root/first").unwrap();
    let second = add(&mut db, "second", "/root/second").unwrap();
    for (id, at) in [("a", 1), ("b", 2), ("c", 3)] {
        db.create_execution_at(&request(first.id.clone()), "/root/first", id.into(), at).unwrap();
    }
    db.create_execution_at(&request(second.id.clone()), "/root/second", "d".into(), 4).unwrap();
    let ids = |workspace: Option<&str>, limit: u32| -> Vec<String> {
        db.list_executions(workspace, limit, 10).into_iter().map(|item| item.id).collect()
    };
    assert_eq!(ids(None, 10), ["d", "c", "b", "a"]);
    assert_eq!(ids(Some("first"), 2), ["c", "b"]);
    assert_eq!(ids(Some(&second.id), 10), ["d"]);
    assert_eq!(ids(Some("missing"), 10), Vec::<String>::new());
    assert_eq!(db.find_workspace_by_root("/root/second").unwrap().id, second.id);
    assert!(db.find_workspace_by_root("/root").is_none());
}

#[test]
fn workspaces_must_be_named_directories() {
    let mut db = Database::new();
    assert!(matches!(
        db.add_workspace_at("test", "/root/file", false, new_id(), 1),
        Err(Error::InvalidRequest(_))
    ));
    assert!(matches!(
        db.add_workspace_at("  ", "/root/w", true, new_id(), 1),
        Err(Error::InvalidRequest(_))
    ));
    assert!(matches!(db.remove_workspace("none"), Err(Error::WorkspaceNotFound(_))));
}

#[test]
fn column_values_are_read_back() {
    assert_eq!(parse_state("running"), Ok(ExecutionState::Running));
    assert_eq!(parse_state(ExecutionState::Queued.as_str()), Ok(ExecutionState::Queued));
    assert!(parse_state("other").is_err());
    assert_eq!(parse_agent_session_state("finished"), Ok(AgentSessionState::Finished));
    assert!(parse_agent_session_state("x").is_err());
    assert_eq!(parse_agent_turn_state("failed"), Ok(AgentTurnState::Failed));
    assert!(parse_agent_turn_state("x").is_err());
    assert_eq!(parse_agent_action_state("completed"), Ok(AgentActionState::Completed));
    assert!(parse_agent_action_state("x").is_err());
    assert_eq!(parse_stream("stderr"), Some(OutputStream::Stderr));
    assert_eq!(parse_stream("x"), None);
    assert_eq!(parse_event_kind("capture_truncated"), Ok(EventKind::CaptureTruncated));
    assert_eq!(EventKind::Finished.as_str(), "finished");
    assert!(parse_event_kind("x").is_err());
}

#[test]
fn commands_are_carried_out_in_turn() {
    let mut db = Database::new();
    let added = db.serve(StoreCommand::AddWorkspace {
        name: "test".into(),
        root: "/root/w".into(),
        is_directory: true,
    });
    let id = match added {
        StoreReply::Workspace(Ok(workspace)) => workspace.id,
        other => panic!("unexpected answer {other:?}"),
    };
    let created = db.serve(StoreCommand::CreateExecution {
        request: request(id),
        cwd: "/root/w".into(),
    });
    assert!(matches!(created, StoreReply::Execution(Ok(_))));
    assert!(matches!(
        db.serve(StoreCommand::ReconcileIncomplete),
        StoreReply::Count(Ok(1))
    ));
    assert!(matches!(
        db.serve(StoreCommand::ListExecutions { workspace: None, limit: 5 }),
        StoreReply::Executions(list) if list.len() == 1
    ));
    assert!(matches!(db.serve(StoreCommand::Shutdown), StoreReply::Stopped));
}

#[test]
fn a_new_prompt_interrupts_the_turn_before_it() {
    let mut db = Database::new();
    let workspace = add(&mut db, "test", "/root/w").unwrap();
    db.create_agent_session_at(&session_request("s", &workspace.id, "/root/w"), "/root/w", 1)
        .unwrap();
    let prompt = |turn: &str| AgentEventRequest {
        session_id: "s".into(),
        provider: "codex".into(),
        provider_session_id: "p".into(),
        provider_turn_id: Some(turn.into()),
        event: AgentEvent::PromptSubmitted { prompt: "go".into() },
    };
    db.record_agent_event_at(&prompt("1"), "t1".into(), "a1".into(), 2).unwrap();
    db.record_agent_event_at(&prompt("2"), "t2".into(), "a2".into(), 3).unwrap();
    let detail = db.get_agent_session("s", 4).unwrap();
    assert_eq!(detail.turns[0].state, AgentTurnState::Interrupted);
    assert_eq!(detail.turns[1].state, AgentTurnState::Active);
    let mut lost = prompt("1");
    lost.session_id = "gone".into();
    assert!(matches!(
        db.record_agent_event_at(&lost, "t".into(), "a".into(), 5),
        Err(Error::AgentSessionNotFound(_))
    ));
}
