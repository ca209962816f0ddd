use base64::Engine;
use loomterm::cli::may_restart;
use loomterm::client::{
    decode_response, expect_health, expect_stats, require_capability, start_step, unexpected,
    DaemonClient, ExecutionSubscription, StartStep, START_ATTEMPTS,
};
use loomterm::codec::{new_id, now_ms};
use loomterm::config::{AppPaths, Environment, Settings, SettingsSource};
use loomterm::daemon::{
    answer, cast_output_bytes, event_bytes, open_subscription, receive, validate_session_paths, Incoming,
    LiveStep, Reception, ReplayStatus,
};
use loomterm::dispatch::{
    dispatch, health, plan_deletion, plan_stop, reconcile_session, tell, LockAttempt, Task,
};
use loomterm::error::Error;
use loomterm::executor::{
    admit_execution, answers_at_once, begin_drain, plan_cancel, plan_failure, prepare_execution,
    settle_timeout_ms, wait_response, wakes, CancelPlan, CaptureMeter, CaptureQueue, Lifecycle,
    Run, RunAction, RunInput, CAPTURE_BATCH_SIZE,
};
use loomterm::json::{read_json, Json};
use loomterm::model::{
    decoded_stdin, AgentSessionFinish, AgentSessionRequest, AgentSessionState, CommandSpec, EnvVar, Execution,
    ExecutionEvent, ExecutionEventPayload, ExecutionOutcome, ExecutionRequest, ExecutionState,
    Health, Initiator, OutputStream, Workspace, PROTOCOL_VERSION,
};
use loomterm::protocol::{
    Operation, ProtocolError, ProtocolResult, ResponseBody, WireMessage,
    CAPABILITY_AGENT_SESSIONS, CAPABILITY_EXECUTION_STATS,
};
use loomterm::startup::{
    lock_owner, lock_step, prepare_socket, process_alive, verify_peer, LockStep, ProcessAnswer,
    SocketStep,
};
use loomterm::store::capture::CaptureRecord;
use loomterm::store::rows::Database;
use loomterm::store::serve::{StoreCommand, StoreReply};
use loomterm::supervisor::{
    build_command, input_written, output_chunk, plan_spawn, read_control, ExitReport, InputResult,
    Supervision, SupervisionAction, SupervisionInput, SupervisorCommand, SupervisorEvent,
};

fn settings() -> Settings {
    Settings {
        max_concurrent_executions: 2,
        capture_limit_bytes: 1024 * 1024,
        retention_days: 7,
        retention_bytes: 1024 * 1024,
        cancel_grace_ms: 25,
        shell: "/bin/sh".into(),
        supervisor_path: None,
    }
}

fn paths() -> AppPaths {
    AppPaths {
        state_dir: "/t/state".into(),
        runtime_dir: "/t/run".into(),
        config_file: "/t/config/config.toml".into(),
        database: "/t/state/loom.db".into(),
        socket: "/t/run/loomd.sock".into(),
        lock_file: "/t/run/loomd.lock".into(),
        sessions_dir: "/t/state/sessions".into(),
    }
}

fn request(workspace_id: &str, command: CommandSpec) -> ExecutionRequest {
    ExecutionRequest {
        workspace_id: workspace_id.into(),
        cwd: None,
        command,
        env: Vec::new(),
        stdin_base64: None,
        initiator: Initiator {
            kind: "test".into(),
            name: Some("runtime-test".into()),
            session_id: None,
        },
        capture_limit_bytes: None,
    }
}

fn shell(command: &str) -> CommandSpec {
    CommandSpec::Shell { command: command.into(), shell: None }
}

fn argv(program: &str) -> CommandSpec {
    CommandSpec::Argv { program: program.into(), args: Vec::new() }
}

fn add(db: &mut Database, name: &str, root: &str) -> Workspace {
    db.add_workspace(name, root, true).unwrap()
}

fn execute(
    db: &mut Database,
    lifecycle: Lifecycle,
    mut asked: ExecutionRequest,
) -> Result<(Execution, Run), Error> {
    let (workspace, cwd) = prepare_execution(db, lifecycle, &asked)?;
    let execution =
        admit_execution(db, &workspace, &mut asked, cwd.clone(), new_id(), now_ms())?;
    let run = Run::new(execution.id.clone(), asked, cwd, &settings());
    Ok((execution, run))
}

fn state_of(db: &Database, id: &str) -> ExecutionState {
    db.get_execution(id, now_ms()).unwrap().state
}

fn drive(db: &mut Database, run: &mut Run, reports: Vec<SupervisorEvent>) -> Vec<String> {
    let id = run.id.clone();
    let mut reports = reports.into_iter();
    let mut queue = CaptureQueue::new();
    let mut trail = Vec::new();
    let mut input = RunInput::SlotGranted;
    loop {
        let action = run.step(input, now_ms());
        trail.push(format!("{action:?}"));
        input = match action {
            RunAction::LoadState { .. } => RunInput::State { state: state_of(db, &id) },
            RunAction::StartSupervisor => RunInput::Spawned,
            RunAction::Send { .. } | RunAction::Register | RunAction::CloseControl => {
                RunInput::Done
            }
            RunAction::ReadEvent => match reports.next() {
                Some(event) => RunInput::Event { event },
                None => RunInput::StreamEnded,
            },
            RunAction::MarkRunning { pid, pgid } => {
                db.mark_running(&id, pid, pgid).unwrap();
                RunInput::Done
            }
            RunAction::Capture { records } => {
                for record in records {
                    if let Some(batch) = queue.push(record) {
                        db.append_capture_batch(&batch).unwrap();
                    }
                }
                RunInput::Done
            }
            RunAction::FlushCapture => {
                if let Some(batch) = queue.take_batch() {
                    db.append_capture_batch(&batch).unwrap();
                }
                queue.pass_barrier().unwrap();
                RunInput::Done
            }
            RunAction::Finish { state, outcome } => {
                db.finish(&id, state, outcome).unwrap();
                RunInput::Done
            }
            RunAction::AwaitExit => RunInput::Exited { status: "exit status: 0".into() },
            RunAction::Prune => RunInput::Done,
            RunAction::AcquireSlot => RunInput::SlotGranted,
            RunAction::Complete => return trail,
            RunAction::Fail { error } => panic!("{}", error.message()),
        };
    }
}

fn started() -> SupervisorEvent {
    SupervisorEvent::Started { pid: 7, pgid: 7 }
}

fn exited(code: i32) -> SupervisorEvent {
    SupervisorEvent::Finished { outcome: ExecutionOutcome::Exited { code } }
}

fn texts_of(db: &Database, id: &str) -> (String, String) {
    let mut stdout = String::new();
    let mut stderr = String::new();
    for event in db.read_output(id, 0, 1 << 20, now_ms()).unwrap().events {
        if let ExecutionEventPayload::Output { stream, data_base64 } = event.payload {
            let data = base64::engine::general_purpose::STANDARD.decode(data_base64).unwrap();
            let text = String::from_utf8(data).unwrap();
            match stream {
                OutputStream::Stdout => stdout.push_str(&text),
                OutputStream::Stderr => stderr.push_str(&text),
            }
        }
    }
    (stdout, stderr)
}

fn session_request(id: &str, workspace_id: &str) -> AgentSessionRequest {
    AgentSessionRequest {
        id: id.into(),
        workspace_id: workspace_id.into(),
        agent_kind: "generic".into(),
        name: None,
        command: argv("sh"),
        cwd: "/t/w".into(),
        recorder_pid: 9,
        initial_cols: 80,
        initial_rows: 24,
        cast_path: format!("/t/state/sessions/{id}/recording.cast"),
        html_path: format!("/t/state/sessions/{id}/replay.html"),
    }
}

fn health_report(version: u32, stats: bool) -> Health {
    Health {
        protocol_version: version,
        daemon_pid: 42,
        database_path: "/t/state/loom.db".into(),
        socket_path: "/t/run/loomd.sock".into(),
        server_version: None,
        capabilities: if stats {
            vec![CAPABILITY_EXECUTION_STATS.into()]
        } else {
            Vec::new()
        },
        active_executions: None,
        active_sessions: None,
    }
}

#[test]
fn captures_streams_and_nonzero_exit_without_screen_scraping() {
    let mut db = Database::new();
    let workspace = add(&mut db, "test", "/t/w");
    let (execution, mut run) = execute(
        &mut db,
        Lifecycle::Accepting,
        request(&workspace.id, shell("printf 'hello'; printf 'problem' >&2; exit 7")),
    )
    .unwrap();
    let trail = drive(
        &mut db,
        &mut run,
        vec![
            started(),
            output_chunk(OutputStream::Stdout, b"hello"),
            output_chunk(OutputStream::Stderr, b"problem"),
            exited(7),
        ],
    );
    assert_eq!(trail.last().unwrap(), "Complete");
    let ended = db.get_execution(&execution.id, now_ms()).unwrap();
    assert_eq!(ended.outcome, Some(ExecutionOutcome::Exited { code: 7 }));
    assert_eq!(ended.state, ExecutionState::Finished);
    assert_eq!(texts_of(&db, &execution.id), ("hello".into(), "problem".into()));
}

#[test]
fn enforces_workspace_boundary_and_capture_limit() {
    let mut db = Database::new();
    let workspace = add(&mut db, "test", "/t/workspace");
    let mut escaped = request(&workspace.id, argv("/usr/bin/true"));
    escaped.cwd = Some("/t/outside".into());
    assert!(matches!(
        execute(&mut db, Lifecycle::Accepting, escaped),
        Err(Error::OutsideWorkspace { .. })
    ));
    assert!(db.executions.is_empty());

    let mut limited = request(&workspace.id, shell("printf 1234567890"));
    limited.capture_limit_bytes = Some(5);
    let (execution, mut run) = execute(&mut db, Lifecycle::Accepting, limited).unwrap();
    drive(
        &mut db,
        &mut run,
        vec![started(), output_chunk(OutputStream::Stdout, b"1234567890"), exited(0)],
    );
    let ended = db.get_execution(&execution.id, now_ms()).unwrap();
    assert_eq!(ended.captured_bytes, 5);
    assert!(ended.output_truncated);
    assert!(db
        .read_output(&execution.id, 0, 1024, now_ms())
        .unwrap()
        .events
        .iter()
        .any(|event| matches!(event.payload, ExecutionEventPayload::CaptureTruncated { .. })));
}

#[test]
fn inactive_workspace_blocks_new_execution_and_can_be_reactivated() {
    let mut db = Database::new();
    let workspace = add(&mut db, "test", "/t/w");
    let asked = || request(&workspace.id, argv("/usr/bin/true"));
    let (first, mut run) = execute(&mut db, Lifecycle::Accepting, asked()).unwrap();
    drive(&mut db, &mut run, vec![started(), exited(0)]);

    db.remove_workspace("test").unwrap();
    assert!(db.list_workspaces().is_empty());
    assert!(matches!(
        execute(&mut db, Lifecycle::Accepting, asked()),
        Err(Error::WorkspaceNotFound(_))
    ));
    assert_eq!(db.get_execution(&first.id, now_ms()).unwrap().id, first.id);

    let reactivated = add(&mut db, "test", "/t/w");
    assert_eq!(reactivated.id, workspace.id);
    let (second, mut run) = execute(&mut db, Lifecycle::Accepting, asked()).unwrap();
    drive(&mut db, &mut run, vec![started(), exited(0)]);
    assert_eq!(
        db.get_execution(&second.id, now_ms()).unwrap().outcome,
        Some(ExecutionOutcome::Exited { code: 0 })
    );
}

#[test]
fn cancels_the_running_process_group() {
    let mut db = Database::new();
    let workspace = add(&mut db, "test", "/t/w");
    let asked = request(&workspace.id, shell("sleep 30 & wait"));
    let (execution, mut run) = execute(&mut db, Lifecycle::Accepting, asked).unwrap();
    let mut supervision = Supervision::new();
    assert_eq!(
        supervision.step(SupervisionInput::Cancel),
        SupervisionAction::Terminate { matters: true }
    );
    let report = ExitReport { code: None, signal: Some(15) };
    supervision.step(SupervisionInput::Exited { report, group_alive: false });
    let outcome = supervision.outcome().unwrap();
    drive(&mut db, &mut run, vec![started(), SupervisorEvent::Finished { outcome }]);
    let ended = db.get_execution(&execution.id, now_ms()).unwrap();
    assert_eq!(ended.state, ExecutionState::Cancelled);
    assert!(matches!(ended.outcome, Some(ExecutionOutcome::Cancelled { .. })));
}

#[test]
fn cancel_waits_for_sigkill_escalation() {
    let mut supervision = Supervision::new();
    assert_eq!(
        supervision.step(SupervisionInput::Cancel),
        SupervisionAction::Terminate { matters: true }
    );
    assert_eq!(supervision.step(SupervisionInput::Cancel), SupervisionAction::Wait);
    assert!(!supervision.is_over());
    assert_eq!(supervision.step(SupervisionInput::DeadlinePassed), SupervisionAction::Kill);
    let report = ExitReport { code: None, signal: Some(9) };
    supervision.step(SupervisionInput::Exited { report, group_alive: false });
    assert!(supervision.is_over());
    assert_eq!(
        supervision.outcome(),
        Some(ExecutionOutcome::Cancelled { signal: Some(9) })
    );
}

#[test]
fn a_leader_that_is_gone_does_not_end_the_wait_for_its_group() {
    let mut supervision = Supervision::new();
    supervision.step(SupervisionInput::Cancel);
    let report = ExitReport { code: Some(0), signal: None };
    supervision.step(SupervisionInput::Exited { report, group_alive: true });
    assert!(!supervision.is_over());
    assert_eq!(supervision.step(SupervisionInput::DeadlinePassed), SupervisionAction::Kill);
    assert!(supervision.is_over());
    let mut left = Supervision::new();
    left.step(SupervisionInput::Exited { report, group_alive: true });
    assert_eq!(left.outcome(), Some(ExecutionOutcome::Exited { code: 0 }));
    let mut failed = Supervision::new();
    failed.step(SupervisionInput::CaptureFailed { reason: "pipe".into() });
    failed.step(SupervisionInput::Exited { report, group_alive: false });
    assert_eq!(
        failed.outcome(),
        Some(ExecutionOutcome::Interrupted { reason: "pipe".into() })
    );
}

#[test]
fn daemon_sigkill_causes_supervisor_to_terminate_the_command_group() {
    let mut supervision = Supervision::new();
    assert_eq!(
        supervision.step(SupervisionInput::DaemonGone),
        SupervisionAction::Terminate { matters: false }
    );
    assert_eq!(supervision.step(SupervisionInput::DeadlinePassed), SupervisionAction::Kill);
    let report = ExitReport { code: None, signal: Some(9) };
    supervision.step(SupervisionInput::Exited { report, group_alive: false });
    assert!(supervision.is_over());
    assert_eq!(supervision.outcome(), None);

    let mut db = Database::new();
    let workspace = add(&mut db, "test", "/t/w");
    let asked = request(&workspace.id, shell("sleep 30 & wait"));
    let (execution, _) = execute(&mut db, Lifecycle::Accepting, asked).unwrap();
    db.mark_running(&execution.id, 7, 7).unwrap();
    db.reconcile_incomplete();
    assert_eq!(state_of(&db, &execution.id), ExecutionState::Interrupted);
}

#[test]
fn daemon_restart_requires_force_for_active_executions() {
    let mut db = Database::new();
    let report = health(&db, &paths(), 42, "0.4.0".into(), 1);
    assert_eq!(report.active_executions, Some(1));
    assert!(report.capabilities.iter().any(|value| value == CAPABILITY_EXECUTION_STATS));
    let refused = may_restart(&report, false).unwrap_err();
    assert!(refused.message().contains("active execution"));
    assert!(may_restart(&report, true).is_ok());
    let idle = health(&db, &paths(), 43, "0.4.0".into(), 0);
    assert!(may_restart(&idle, false).is_ok());
    let workspace = add(&mut db, "test", "/t/w");
    let asked = request(&workspace.id, argv("/bin/sleep"));
    let (execution, _) = execute(&mut db, Lifecycle::Accepting, asked).unwrap();
    assert_eq!(db.cancel_queued().len(), 1);
    assert_eq!(state_of(&db, &execution.id), ExecutionState::Cancelled);
}

#[test]
fn daemon_reports_and_guards_active_agent_sessions() {
    let mut db = Database::new();
    let workspace = add(&mut db, "sessions", "/t/w");
    let id = new_id();
    let asked = session_request(&id, &workspace.id);
    let session = db.create_agent_session(&asked, "/t/w").unwrap();
    assert_eq!(health(&db, &paths(), 1, "v".into(), 0).active_sessions, Some(1));
    assert!(matches!(plan_stop(&db, false), Err(Error::InvalidRequest(_))));
    assert!(plan_stop(&db, true).is_ok());
    assert!(plan_deletion(&db, &id, "/t/state/sessions", now_ms()).is_err());
    assert!(reconcile_session(&session, LockAttempt::Held).unwrap().is_none());
    assert!(reconcile_session(&session, LockAttempt::Failed("x".into())).is_err());

    let finish = reconcile_session(&session, LockAttempt::Taken { captured: Some(3) })
        .unwrap()
        .unwrap();
    db.finish_agent_session(&id, &finish).unwrap();
    assert_eq!(health(&db, &paths(), 1, "v".into(), 0).active_sessions, Some(0));
    let detail = db.get_agent_session(&id, now_ms()).unwrap();
    assert_eq!(detail.session.state, AgentSessionState::Interrupted);
    assert_eq!(detail.session.captured_bytes, 3);
    assert!(plan_stop(&db, false).is_ok());
    assert_eq!(
        plan_deletion(&db, &id, "/t/state/sessions", now_ms()).unwrap(),
        Some(asked.cast_path)
    );
    assert_eq!(plan_deletion(&db, &id, "/elsewhere", now_ms()).unwrap(), None);
}

#[test]
fn daemon_reports_workspace_statistics() {
    let mut db = Database::new();
    let workspace = add(&mut db, "test", "/t/w");
    let asked = request(&workspace.id, argv("/usr/bin/printf"));
    let (_, mut run) = execute(&mut db, Lifecycle::Accepting, asked).unwrap();
    drive(
        &mut db,
        &mut run,
        vec![started(), output_chunk(OutputStream::Stdout, b"stats"), exited(0)],
    );
    let operation = Operation::Stats {
        workspace: workspace.id.clone(),
        since_ms: now_ms().saturating_sub(60_000),
    };
    let command = match dispatch(operation, &paths(), now_ms()) {
        Task::Store { reconcile: false, command } => command,
        other => panic!("unexpected task {other:?}"),
    };
    let told = tell(db.serve(command)).unwrap().unwrap();
    let stats = expect_stats(told).unwrap();
    assert_eq!(stats.workspace.id, workspace.id);
    assert_eq!(stats.total, 1);
    assert_eq!(stats.status.exited_zero, 1);
    assert_eq!(stats.by_initiator[0].kind, "test");
    assert_eq!(stats.captured_bytes, 5);
    assert_eq!(stats.duration_samples, 1);
}

#[test]
fn live_observer_polling_reads_correlated_execution_without_gaps() {
    let mut db = Database::new();
    let workspace = add(&mut db, "observer", "/t/w");
    let id = new_id();
    db.create_agent_session(&session_request(&id, &workspace.id), "/t/w").unwrap();
    let mut asked = request(&workspace.id, shell("printf one; printf two >&2; printf three"));
    asked.initiator.session_id = Some(id.clone());
    let (execution, mut run) = execute(&mut db, Lifecycle::Accepting, asked).unwrap();
    drive(
        &mut db,
        &mut run,
        vec![
            started(),
            output_chunk(OutputStream::Stdout, b"one"),
            output_chunk(OutputStream::Stderr, b"two"),
            output_chunk(OutputStream::Stdout, b"three"),
            exited(0),
        ],
    );
    let mut cursor = 0;
    let mut sequences = Vec::new();
    loop {
        let detail = db.get_agent_session(&id, now_ms()).unwrap();
        assert_eq!(detail.executions.len(), 1);
        assert_eq!(detail.executions[0].id, execution.id);
        let page = db.read_output(&execution.id, cursor, 4, now_ms()).unwrap();
        sequences.extend(page.events.iter().map(|event| event.seq));
        cursor = page.next_seq;
        if page.execution.state.is_terminal() && !page.has_more {
            break;
        }
    }
    assert_eq!(sequences.first(), Some(&1));
    assert_eq!(sequences.last(), Some(&cursor));
    assert!(sequences.windows(2).all(|pair| pair[1] == pair[0] + 1));
    db.finish_agent_session(
        &id,
        &AgentSessionFinish {
            state: AgentSessionState::Finished,
            outcome: ExecutionOutcome::Exited { code: 0 },
            captured_bytes: 0,
            output_truncated: false,
        },
    )
    .unwrap();
    assert!(plan_stop(&db, false).is_ok());
}

#[test]
fn batches_concurrent_high_volume_output_without_loss() {
    let mut db = Database::new();
    let workspace = add(&mut db, "test", "/t/w");
    for _ in 0..2 {
        let asked = request(&workspace.id, shell("printf 0123456789abcdef"));
        let (execution, mut run) = execute(&mut db, Lifecycle::Accepting, asked).unwrap();
        let mut reports = vec![started()];
        for _ in 0..5000 {
            reports.push(output_chunk(OutputStream::Stdout, b"0123456789abcdef"));
        }
        reports.push(exited(0));
        drive(&mut db, &mut run, reports);
        let ended = db.get_execution(&execution.id, now_ms()).unwrap();
        assert_eq!(ended.captured_bytes, 80_000);
        assert_eq!(ended.outcome, Some(ExecutionOutcome::Exited { code: 0 }));
    }
}

#[test]
fn queued_execution_can_be_cancelled_before_spawn() {
    let mut db = Database::new();
    let workspace = add(&mut db, "test", "/t/w");
    let asked = request(&workspace.id, argv("/usr/bin/true"));
    let (queued, mut run) = execute(&mut db, Lifecycle::Accepting, asked).unwrap();
    assert_eq!(queued.state, ExecutionState::Queued);
    assert_eq!(plan_cancel(&queued.id, queued.state, false).unwrap(), CancelPlan::EndQueued);
    db.finish(
        &queued.id,
        ExecutionState::Cancelled,
        ExecutionOutcome::Cancelled { signal: None },
    )
    .unwrap();
    assert_eq!(state_of(&db, &queued.id), ExecutionState::Cancelled);
    let trail = drive(&mut db, &mut run, vec![]);
    assert!(!trail.iter().any(|action| action == "StartSupervisor"));
    assert!(matches!(
        plan_cancel("x", ExecutionState::Cancelled, false),
        Err(Error::AlreadyTerminal(_))
    ));
    assert_eq!(
        plan_cancel("x", ExecutionState::Running, true).unwrap(),
        CancelPlan::TellSupervisor
    );
    assert!(matches!(
        plan_cancel("x", ExecutionState::Running, false),
        Err(Error::Protocol(_))
    ));
}

#[test]
fn graceful_shutdown_cancels_queued_work_without_spawning_it() {
    let mut db = Database::new();
    let workspace = add(&mut db, "test", "/t/w");
    let asked = || request(&workspace.id, argv("/usr/bin/touch"));
    let (queued, mut run) = execute(&mut db, Lifecycle::Accepting, asked()).unwrap();
    let mut lifecycle = Lifecycle::Accepting;
    assert!(begin_drain(&mut lifecycle));
    assert!(matches!(
        execute(&mut db, lifecycle, asked()),
        Err(Error::DaemonDraining)
    ));
    assert_eq!(db.cancel_queued().len(), 1);
    assert_eq!(state_of(&db, &queued.id), ExecutionState::Cancelled);
    let trail = drive(&mut db, &mut run, vec![]);
    assert!(!trail.iter().any(|action| action == "StartSupervisor"));
    let mut stopped = Lifecycle::Stopped;
    assert!(!begin_drain(&mut stopped));
}

#[test]
fn subscription_reconnect_replays_exactly_after_the_cursor() {
    let mut db = Database::new();
    let workspace = add(&mut db, "test", "/t/w");
    let asked = request(&workspace.id, shell("printf one; printf two; printf three"));
    let (execution, mut run) = execute(&mut db, Lifecycle::Accepting, asked).unwrap();
    drive(
        &mut db,
        &mut run,
        vec![
            started(),
            output_chunk(OutputStream::Stdout, b"one"),
            output_chunk(OutputStream::Stdout, b"two"),
            output_chunk(OutputStream::Stdout, b"three"),
            exited(0),
        ],
    );
    let mut sequences = Vec::new();
    let mut cursor = 0;
    for take in [1, usize::MAX] {
        let (message, served) =
            open_subscription(&db, "sub".into(), execution.id.clone(), cursor, now_ms());
        let mut served = served.unwrap();
        let result = decode_response(message, "sub").unwrap();
        let mut subscriber = ExecutionSubscription::open("sub".into(), result).unwrap();
        let mut taken = 0;
        loop {
            let page = db.read_output(&execution.id, served.cursor, 4, now_ms()).unwrap();
            let (messages, status) = served.replay_page(&page);
            for message in messages {
                if taken < take {
                    sequences.push(subscriber.next_event(message).unwrap().seq);
                    taken += 1;
                }
            }
            if status != ReplayStatus::Again || taken >= take {
                break;
            }
        }
        cursor = subscriber.next_seq;
    }
    let ended = db.get_execution(&execution.id, now_ms()).unwrap();
    assert!(ended.state.is_terminal());
    assert_eq!(sequences.first(), Some(&1));
    assert_eq!(sequences.last(), Some(&ended.last_seq));
    assert!(sequences.windows(2).all(|pair| pair[1] == pair[0] + 1));
}

#[test]
fn live_events_that_leave_a_gap_are_read_again() {
    let mut db = Database::new();
    let workspace = add(&mut db, "test", "/t/w");
    let asked = request(&workspace.id, argv("x"));
    let (execution, _) = execute(&mut db, Lifecycle::Accepting, asked).unwrap();
    let (_, served) = open_subscription(&db, "s".into(), execution.id.clone(), 0, now_ms());
    let mut served = served.unwrap();
    let event = |id: &str, seq: u64, payload: ExecutionEventPayload| ExecutionEvent {
        execution_id: id.into(),
        seq,
        timestamp_ms: 1,
        payload,
    };
    let begun = ExecutionEventPayload::Started { pid: 1, pgid: 1 };
    let other = served.live_event(event("other", 1, begun.clone()));
    assert!(matches!(other, LiveStep::Ignore));
    let gap = served.live_event(event(&execution.id, 2, begun.clone()));
    assert!(matches!(gap, LiveStep::Replay));
    let next = served.live_event(event(&execution.id, 1, begun.clone()));
    assert!(matches!(next, LiveStep::Send { last: false, .. }));
    let again = served.live_event(event(&execution.id, 1, begun));
    assert!(matches!(again, LiveStep::Ignore));
    let end = ExecutionEventPayload::Finished { outcome: ExecutionOutcome::Exited { code: 0 } };
    assert!(matches!(
        served.live_event(event(&execution.id, 2, end)),
        LiveStep::Send { last: true, .. }
    ));
    assert!(served.incoming_frame(None).is_ok());
    assert!(served.incoming_frame(Some(())).is_err());
    let (refused, none) = open_subscription(&db, "s".into(), "missing".into(), 0, now_ms());
    assert!(none.is_none());
    assert!(decode_response(refused, "s").is_err());
}

#[test]
fn daemon_keeps_execution_across_client_connections() {
    let mut db = Database::new();
    let workspace = add(&mut db, "test", "/t/w");
    let asked = request(&workspace.id, shell("sleep 0.1; printf reconnected"));
    let (execution, mut run) = execute(&mut db, Lifecycle::Accepting, asked).unwrap();
    let waiting = db.read_output(&execution.id, 0, 1024, now_ms()).unwrap();
    assert!(!answers_at_once(&waiting));
    drive(
        &mut db,
        &mut run,
        vec![started(), output_chunk(OutputStream::Stdout, b"reconnected"), exited(0)],
    );
    let page = db.read_output(&execution.id, 0, 1024, now_ms()).unwrap();
    assert!(answers_at_once(&page));
    assert!(wakes(&page.events[0], &execution.id, 0));
    assert!(!wakes(&page.events[0], &execution.id, 1));
    assert!(!wakes(&page.events[0], "other", 0));
    let response = wait_response(page, false);
    assert!(!response.timed_out);
    assert_eq!(response.execution.outcome, Some(ExecutionOutcome::Exited { code: 0 }));
    assert_eq!(texts_of(&db, &execution.id).0, "reconnected");
}

#[test]
fn stats_requires_a_daemon_capability() {
    let error =
        require_capability(&health_report(PROTOCOL_VERSION, false), CAPABILITY_EXECUTION_STATS)
            .unwrap_err();
    assert!(matches!(error, Error::DaemonUpgradeRequired { daemon_pid: 42, .. }));
    let report = health_report(PROTOCOL_VERSION, true);
    assert!(require_capability(&report, CAPABILITY_EXECUTION_STATS).is_ok());
    assert!(require_capability(&report, CAPABILITY_AGENT_SESSIONS).is_err());
}

#[test]
fn connect_or_start_does_not_replace_an_incompatible_daemon() {
    let message = WireMessage::Response {
        version: PROTOCOL_VERSION + 1,
        request_id: "r".into(),
        body: ResponseBody::Success {
            result: ProtocolResult::Health(health_report(PROTOCOL_VERSION + 1, true)),
        },
    };
    let error = decode_response(message, "r").unwrap_err();
    let client = DaemonClient::new("/t/run/loomd.sock".into());
    let step = start_step(&client, Some(error), START_ATTEMPTS);
    assert!(matches!(
        step,
        StartStep::Fail(Error::ProtocolVersionMismatch { client: PROTOCOL_VERSION, daemon })
            if daemon == PROTOCOL_VERSION + 1
    ));
    let gone = || Some(Error::DaemonUnavailable("x".into()));
    assert!(matches!(start_step(&client, gone(), 1), StartStep::Wait));
    assert!(matches!(
        start_step(&client, gone(), 0),
        StartStep::Fail(Error::DaemonUnavailable(path)) if path == "/t/run/loomd.sock"
    ));
    assert!(matches!(start_step(&client, None, 0), StartStep::Ready));
}

#[test]
fn requests_are_received_and_answered() {
    let message = WireMessage::request(Operation::Health);
    let request_id = match &message {
        WireMessage::Request { request_id, version, .. } => {
            assert_eq!(*version, PROTOCOL_VERSION);
            request_id.clone()
        }
        other => panic!("unexpected message {other:?}"),
    };
    match receive(Incoming::Message(message)) {
        Reception::Dispatch { request_id: id, operation } => {
            assert_eq!(id, request_id);
            assert!(matches!(dispatch(operation, &paths(), 1), Task::ReportHealth));
        }
        other => panic!("unexpected reception {other:?}"),
    }
    let told = answer("r".into(), Ok(ProtocolResult::Empty));
    assert_eq!(decode_response(told.clone(), "r"), Ok(ProtocolResult::Empty));
    assert!(decode_response(told, "other").is_err());
    let refused = answer("r".into(), Err(Error::Timeout));
    let error = decode_response(refused, "r").unwrap_err();
    assert!(matches!(&error, Error::Protocol(text) if text.contains(": ")));
    assert!(matches!(
        receive(Incoming::Malformed("broken".into())),
        Reception::Answer(WireMessage::Response { .. })
    ));
    let subscribe = WireMessage::request_with_id(
        "s".into(),
        Operation::Subscribe { execution_id: "e".into(), after_seq: 3 },
    );
    assert!(matches!(
        receive(Incoming::Message(subscribe)),
        Reception::Subscribe { after_seq: 3, .. }
    ));
    let wrong = WireMessage::Request {
        version: PROTOCOL_VERSION + 1,
        request_id: "v".into(),
        operation: Operation::Health,
    };
    assert!(matches!(receive(Incoming::Message(wrong)), Reception::Answer(_)));
    assert_eq!(
        unexpected("health", "Empty"),
        Error::Protocol("expected health response, received Empty".into())
    );
    assert!(expect_health(ProtocolResult::Empty).is_err());
    let known = ProtocolError::from_error(&Error::WorkspaceNotFound("w".into()));
    assert_eq!(known.code, "workspace_not_found");
}

#[test]
fn what_clients_ask_for_is_held_within_bounds() {
    let asked = Operation::List { workspace: None, limit: 0 };
    assert!(matches!(
        dispatch(asked, &paths(), 1),
        Task::Store { command: StoreCommand::ListExecutions { limit: 1, .. }, .. }
    ));
    let asked = Operation::SessionList { workspace: None, limit: u32::MAX };
    assert!(matches!(
        dispatch(asked, &paths(), 1),
        Task::Store { reconcile: true, command: StoreCommand::ListAgentSessions { limit: 1000, .. } }
    ));
    let asked = Operation::Wait {
        execution_id: "e".into(),
        after_seq: 0,
        timeout_ms: u64::MAX,
        max_bytes: usize::MAX,
    };
    assert!(matches!(
        dispatch(asked, &paths(), 1),
        Task::Wait { timeout_ms: 60_000, max_bytes: 8_388_608, .. }
    ));
    let asked = Operation::Subscribe { execution_id: "e".into(), after_seq: 0 };
    assert!(matches!(dispatch(asked, &paths(), 1), Task::Refuse(Error::Protocol(_))));
    assert!(tell(StoreReply::Stopped).is_err());
}

#[test]
fn session_files_lie_in_their_own_directory() {
    let sessions = "/t/state/sessions";
    let good = session_request("abc", "w");
    assert!(validate_session_paths(sessions, "abc", &good.cast_path, &good.html_path).is_ok());
    assert!(validate_session_paths(sessions, "abd", &good.cast_path, &good.html_path).is_err());
    assert!(
        validate_session_paths(sessions, "abc", "/tmp/recording.cast", &good.html_path).is_err()
    );
    let asked = Operation::SessionCreate {
        request: AgentSessionRequest { cast_path: "/tmp/x".into(), ..good },
    };
    assert!(matches!(dispatch(asked, &paths(), 1), Task::Refuse(_)));
}

#[test]
fn recorded_output_is_counted() {
    let lines = |text: &str| text.lines().map(str::to_owned).collect::<Vec<_>>();
    let cast = "{\"version\":3}\n[0.1,\"o\",\"h\u{e9}\"]\n[0.2,\"i\",\"zz\"]\n[0.3,\"o\",\"abc\"]\n";
    assert_eq!(cast_output_bytes(&lines(cast)), Some(6));
    assert_eq!(cast_output_bytes(&lines("{\"version\":3}\nbroken")), None);
}

#[test]
fn the_lock_and_the_socket_are_taken_over_from_the_dead() {
    assert_eq!(lock_owner(" 42\n"), Some(42));
    assert_eq!(lock_owner("+7"), Some(7));
    assert_eq!(lock_owner("-3"), Some(-3));
    assert_eq!(lock_owner("2147483648"), None);
    assert_eq!(lock_owner("-2147483648"), Some(i32::MIN));
    assert_eq!(lock_owner("4x"), None);
    assert_eq!(lock_owner(""), None);
    assert!(process_alive(ProcessAnswer::Present).unwrap());
    assert!(process_alive(ProcessAnswer::NotPermitted).unwrap());
    assert!(!process_alive(ProcessAnswer::Missing).unwrap());
    assert!(process_alive(ProcessAnswer::Failed("x".into())).is_err());
    assert!(matches!(lock_step(true, 1), LockStep::Refuse(Error::Config(_))));
    assert!(matches!(lock_step(false, 1), LockStep::RemoveAndRetry));
    assert!(matches!(lock_step(false, 0), LockStep::RemoveAndRefuse(Error::Config(_))));
    assert!(matches!(prepare_socket("/s", false, false), SocketStep::Keep));
    assert!(matches!(prepare_socket("/s", true, false), SocketStep::Remove));
    assert!(matches!(prepare_socket("/s", true, true), SocketStep::Refuse(_)));
    assert!(verify_peer(5, 5).is_ok());
    assert_eq!(
        verify_peer(5, 6),
        Err(Error::PermissionDenied("peer uid 5 does not match daemon uid 6".into()))
    );
}

#[test]
fn what_is_started_is_read_from_the_first_command() {
    let spawn = |stdin: Option<&str>| SupervisorCommand::Spawn {
        command: shell("echo hi"),
        cwd: "/t/w".into(),
        env: vec![EnvVar { key: "A".into(), value: "b".into() }],
        stdin_base64: stdin.map(str::to_owned),
        shell: "/bin/sh".into(),
        cancel_grace_ms: 9,
    };
    let plan = plan_spawn(Some(spawn(Some("aGk=")))).unwrap();
    assert_eq!(plan.program, "/bin/sh");
    assert_eq!(plan.args, ["-c", "echo hi"]);
    assert_eq!(plan.stdin, Some(b"hi".to_vec()));
    assert!(matches!(
        plan_spawn(Some(spawn(Some("%")))),
        Err(Error::InvalidRequest(text)) if text.starts_with("invalid stdin_base64: ")
    ));
    assert!(plan_spawn(None).is_err());
    assert!(plan_spawn(Some(SupervisorCommand::Cancel)).is_err());
    let own = CommandSpec::Shell { command: "x".into(), shell: Some("/bin/zsh".into()) };
    assert_eq!(build_command(&own, "/bin/sh").0, "/bin/zsh");
    assert!(matches!(
        read_control(Some(SupervisorCommand::Cancel)),
        (SupervisionInput::Cancel, true)
    ));
    assert!(matches!(
        read_control(None),
        (SupervisionInput::CaptureFailed { .. }, false)
    ));
    assert!(input_written(InputResult::BrokenPipe).is_ok());
    assert!(matches!(input_written(InputResult::Failed("x".into())), Err(Error::Io(_))));
    assert!(matches!(
        input_written(InputResult::Aborted("x".into())),
        Err(Error::Protocol(_))
    ));
}

#[test]
fn a_run_that_fails_ends_its_execution() {
    let mut run = Run::new("id".into(), request("w", argv("x")), "/t/w".into(), &settings());
    let early = run.step(RunInput::Done, 1);
    assert!(matches!(early, RunAction::Fail { error: Error::Protocol(_) }));
    let lost = plan_failure(&Error::Timeout, Some(ExecutionState::Running));
    assert!(lost.fatal.is_none());
    assert!(matches!(lost.ending, Some(ExecutionOutcome::Interrupted { .. })));
    let fatal = plan_failure(
        &Error::StorageUnavailable("disk".into()),
        Some(ExecutionState::Finished),
    );
    assert!(fatal.fatal.unwrap().contains("disk"));
    assert!(fatal.ending.is_none());
    assert_eq!(settle_timeout_ms(25), 5_025);
    assert_eq!(settle_timeout_ms(u64::MAX), u64::MAX);

    let mut db = Database::new();
    let workspace = add(&mut db, "test", "/t/w");
    let asked = request(&workspace.id, argv("x"));
    let (execution, mut run) = execute(&mut db, Lifecycle::Accepting, asked).unwrap();
    drive(&mut db, &mut run, vec![started()]);
    assert_eq!(
        db.get_execution(&execution.id, now_ms()).unwrap().outcome,
        Some(ExecutionOutcome::Interrupted {
            reason: "loom-supervisor exited without a terminal event: exit status: 0".into()
        })
    );
    let asked = request(&workspace.id, argv("x"));
    let (_, mut run) = execute(&mut db, Lifecycle::Accepting, asked).unwrap();
    run.step(RunInput::SlotGranted, 1);
    run.step(RunInput::State { state: ExecutionState::Queued }, 1);
    let action = run.step(RunInput::SpawnFailed { message: "no file".into() }, 1);
    assert!(matches!(
        action,
        RunAction::Finish { outcome: ExecutionOutcome::SpawnError { message }, .. }
            if message == "could not start loom-supervisor: no file"
    ));
}

#[test]
fn bad_requests_are_refused() {
    let mut db = Database::new();
    let workspace = add(&mut db, "test", "/t/w");
    let mut empty = request(&workspace.id, argv(""));
    assert!(matches!(
        execute(&mut db, Lifecycle::Accepting, empty.clone()),
        Err(Error::InvalidRequest(_))
    ));
    empty.command = argv("x");
    empty.env.push(EnvVar { key: "A=B".into(), value: "c".into() });
    assert!(matches!(
        execute(&mut db, Lifecycle::Accepting, empty.clone()),
        Err(Error::InvalidRequest(_))
    ));
    empty.env.clear();
    empty.stdin_base64 = Some("%".into());
    assert!(matches!(
        execute(&mut db, Lifecycle::Accepting, empty),
        Err(Error::InvalidRequest(_))
    ));
}

#[test]
fn a_full_batch_is_stored_and_a_failure_reported_once() {
    let mut queue = CaptureQueue::new();
    let record = |n: usize| CaptureRecord::Truncated {
        execution_id: format!("{n}"),
        timestamp_ms: 1,
        limit_bytes: 1,
    };
    for n in 1..CAPTURE_BATCH_SIZE {
        assert!(queue.push(record(n)).is_none());
    }
    let batch = queue.push(record(CAPTURE_BATCH_SIZE)).unwrap();
    assert_eq!(batch.len(), CAPTURE_BATCH_SIZE);
    assert!(queue.take_batch().is_none());
    queue.batch_failed("disk".into());
    assert!(matches!(queue.pass_barrier(), Err(Error::StorageUnavailable(_))));
    assert!(queue.pass_barrier().is_ok());
}

#[test]
fn files_are_kept_where_the_environment_says() {
    let found = Environment {
        state_override: None,
        runtime_override: None,
        xdg_runtime_dir: None,
        config_override: Some("/c.toml".into()),
        data_dir: "/data".into(),
        config_dir: "/config".into(),
        temp_dir: "/tmp".into(),
        uid: 501,
    };
    let paths = AppPaths::discover(Some(found.clone())).unwrap();
    assert_eq!(paths.runtime_dir, "/tmp/loomterm-501");
    assert_eq!(paths.config_file, "/c.toml");
    assert_eq!(paths.database, "/data/loom.db");
    assert_eq!(paths.sessions_dir, "/data/sessions");
    let user = Environment { xdg_runtime_dir: Some("/run/user/501".into()), ..found };
    let paths = AppPaths::discover(Some(user)).unwrap();
    assert_eq!(paths.socket, "/run/user/501/loomterm/loomd.sock");
    assert!(matches!(AppPaths::discover(None), Err(Error::Config(_))));
}

#[test]
fn directories_are_made_before_they_are_used() {
    assert_eq!(
        paths().ensure(Some("/t/config".into())),
        vec![paths().state_dir, paths().sessions_dir, paths().runtime_dir, "/t/config".into()]
    );
    assert_eq!(paths().ensure(None).len(), 3);
}

#[test]
fn settings_fall_back_and_are_checked() {
    assert_eq!(Settings::load("/c", SettingsSource::Missing), Ok(Settings::default()));
    assert_eq!(Settings::default().max_concurrent_executions, 8);
    assert_eq!(Settings::default().capture_limit_bytes, 256 * 1024 * 1024);
    assert_eq!(
        Settings::load("/c", SettingsSource::Malformed("bad".into())),
        Err(Error::Config("/c: bad".into()))
    );
    let none = Settings { max_concurrent_executions: 0, ..settings() };
    assert!(Settings::load("/c", SettingsSource::Parsed(none)).is_err());
    assert_eq!(Settings::load("/c", SettingsSource::Parsed(settings())), Ok(settings()));
}

#[test]
fn output_is_taken_as_it_decodes() {
    let mut run = Run::new("id".into(), request("w", argv("x")), "/t/w".into(), &settings());
    match run.take_output(OutputStream::Stdout, Ok(b"abc".to_vec()), 7) {
        RunAction::Capture { records } => match &records[0] {
            CaptureRecord::Output { execution_id, timestamp_ms, stream, data } => {
                assert_eq!(execution_id, "id");
                assert_eq!(*timestamp_ms, 7);
                assert_eq!(*stream, OutputStream::Stdout);
                assert_eq!(data, b"abc");
            }
            other => panic!("{other:?}"),
        },
        other => panic!("{other:?}"),
    }
    match run.take_output(OutputStream::Stdout, Err("bad".into()), 8) {
        RunAction::Fail { error: Error::Protocol(message) } => {
            assert_eq!(message, "invalid supervisor output: bad");
        }
        other => panic!("{other:?}"),
    }
    assert_eq!(decoded_stdin(Ok(vec![1, 2])).unwrap(), vec![1, 2]);
    match decoded_stdin(Err("bad".into())) {
        Err(Error::InvalidRequest(message)) => assert_eq!(message, "invalid stdin_base64: bad"),
        other => panic!("{other:?}"),
    }
}

#[test]
fn only_output_events_of_a_recording_are_counted() {
    assert_eq!(event_bytes(&read_json(r#"[0.5, "o", "h\u00e9"]"#).unwrap()), Some(3));
    assert_eq!(event_bytes(&read_json(r#"[0.5, "i", "typed"]"#).unwrap()), Some(0));
    assert_eq!(event_bytes(&read_json(r#"[0.5, "o", 7]"#).unwrap()), Some(0));
    assert_eq!(event_bytes(&Json::Null), None);
}

#[test]
fn each_stream_is_stored_up_to_the_limit() {
    let mut db = Database::new();
    let workspace = add(&mut db, "test", "/t/w");
    let id = db.create_execution(&request(&workspace.id, argv("x")), "/t/w").unwrap().id;
    let mut meter = CaptureMeter::new(5);
    let pieces: [(OutputStream, &[u8]); 4] = [
        (OutputStream::Stdout, b"ab"),
        (OutputStream::Stderr, b"cd"),
        (OutputStream::Stdout, b"ef"),
        (OutputStream::Stderr, b"gh"),
    ];
    for (stream, data) in pieces {
        let records = meter.capture_output(&id, stream, &data.to_vec(), 1);
        db.append_capture_batch(&records).unwrap();
    }
    assert_eq!(texts_of(&db, &id), ("abe".to_owned(), "cd".to_owned()));
    let execution = db.get_execution(&id, 2).unwrap();
    assert!(execution.output_truncated);
    assert_eq!(execution.captured_bytes, 5);
    assert_eq!(execution.last_seq, 4);
}

#[test]
fn references_stay_in_place_as_commands_are_served() {
    let mut db = Database::new();
    let workspace = add(&mut db, "test", "/t/w");
    let session = new_id();
    db.create_agent_session(&session_request(&session, &workspace.id), "/t/w").unwrap();
    for _ in 0..3 {
        let mut asked = request(&workspace.id, argv("x"));
        asked.initiator.session_id = Some(session.clone());
        db.create_execution(&asked, "/t/w").unwrap();
    }
    db.cancel_queued();
    db.finish_agent_session(
        &session,
        &AgentSessionFinish {
            state: AgentSessionState::Finished,
            outcome: ExecutionOutcome::Exited { code: 0 },
            captured_bytes: 0,
            output_truncated: false,
        },
    )
    .unwrap();
    db.delete_agent_session(&session).unwrap();
    assert_eq!(db.executions.len(), 3);
    for (at, row) in db.executions.iter().enumerate() {
        assert_eq!(row.workspace_id, workspace.id);
        assert_eq!(row.state, ExecutionState::Cancelled);
        assert!(db.executions.iter().skip(at + 1).all(|other| other.id != row.id));
    }
    assert!(db.list_agent_sessions(None, 10).is_empty());
    assert_eq!(db.prune_at(0, 0, now_ms() + 2).unwrap(), 3);
}
