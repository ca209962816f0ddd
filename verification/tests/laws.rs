use loomterm::cli::{session_request, tries_again};
use loomterm::client::path_to_string;
use loomterm::codec::now_ms;
use loomterm::daemon::{open_subscription, ReplayStatus};
use loomterm::error::Error;
use loomterm::executor::{
    cancel_ending, cancel_step, CancelLook, CancelStep, Run, RunAction, RunInput,
};
use loomterm::model::{
    CommandSpec, EnvVar, ExecutionOutcome, ExecutionRequest, ExecutionState, Initiator,
    OutputStream,
};
use loomterm::output::{OutputChunk, OutputPane, OUTPUT_CAP_BYTES};
use loomterm::protocol::{ResponseBody, WireMessage};
use loomterm::slots::{SlotEvent, Slots};
use loomterm::store::capture::CaptureRecord;
use loomterm::store::rows::Database;
use loomterm::store::serve::{scope_of, Scope, StoreCommand};
use loomterm::text::{is_blank, trim};

fn request(workspace_id: &str) -> ExecutionRequest {
    ExecutionRequest {
        workspace_id: workspace_id.into(),
        cwd: None,
        command: CommandSpec::Argv { program: "printf".into(), args: Vec::new() },
        env: Vec::new(),
        stdin_base64: None,
        initiator: Initiator::default(),
        capture_limit_bytes: None,
    }
}

fn output(id: &str, data: &[u8]) -> CaptureRecord {
    CaptureRecord::Output {
        execution_id: id.into(),
        timestamp_ms: 1,
        stream: OutputStream::Stdout,
        data: data.to_vec(),
    }
}

/// A store with one execution, and the identifier of that execution.
fn store_with_one() -> (Database, String) {
    let mut db = Database::new();
    let workspace = db.add_workspace("test", "/t/w", true).unwrap();
    let id = db.create_execution(&request(&workspace.id), "/t/w").unwrap().id;
    (db, id)
}

#[test]
fn slots_are_given_in_the_order_of_asking() {
    let mut slots = Slots::new(2);
    for ticket in [1, 2] {
        assert_eq!(slots.step(SlotEvent::Ask { ticket }).started, Some(ticket));
    }
    for ticket in [3, 4, 5] {
        let change = slots.step(SlotEvent::Ask { ticket });
        assert_eq!(change.started, None);
        assert!(change.refused.is_empty());
    }
    assert_eq!(slots.step(SlotEvent::Leave { ticket: 4 }).started, None);
    assert_eq!(slots.step(SlotEvent::Leave { ticket: 1 }).started, Some(3));
    assert_eq!(slots.step(SlotEvent::Leave { ticket: 1 }).started, None);
    assert_eq!(slots.step(SlotEvent::Leave { ticket: 2 }).started, Some(5));
    assert_eq!(slots.step(SlotEvent::Leave { ticket: 3 }).started, None);
    assert_eq!(slots.step(SlotEvent::Ask { ticket: 6 }).started, Some(6));
}

#[test]
fn closing_the_slots_turns_everyone_away() {
    let mut slots = Slots::new(1);
    assert_eq!(slots.step(SlotEvent::Ask { ticket: 1 }).started, Some(1));
    slots.step(SlotEvent::Ask { ticket: 2 });
    slots.step(SlotEvent::Ask { ticket: 3 });
    let change = slots.step(SlotEvent::Close);
    assert_eq!(change.started, None);
    assert_eq!(change.refused, [2, 3]);
    assert_eq!(slots.step(SlotEvent::Leave { ticket: 1 }).started, None);
    assert_eq!(slots.step(SlotEvent::Ask { ticket: 4 }).refused, [4]);
    let mut none = Slots::new(0);
    assert_eq!(none.step(SlotEvent::Ask { ticket: 1 }).started, None);
}

#[test]
fn a_run_that_is_turned_away_starts_nothing() {
    let settings = loomterm::config::Settings {
        max_concurrent_executions: 1,
        capture_limit_bytes: 1024,
        retention_days: 7,
        retention_bytes: 1024,
        cancel_grace_ms: 25,
        shell: "/bin/sh".into(),
        supervisor_path: None,
    };
    let mut run = Run::new("id".into(), request("w"), "/t/w".into(), &settings);
    assert!(matches!(run.step(RunInput::SlotsClosed, 1), RunAction::Complete));
}

#[test]
fn cancelling_is_answered_once_the_execution_has_ended() {
    let (mut db, id) = store_with_one();
    let look = || CancelLook::Found { execution: db.get_execution(&id, now_ms()).unwrap() };
    assert!(matches!(cancel_step(look()), CancelStep::Wait));
    let (state, outcome) = cancel_ending();
    assert_eq!(state, ExecutionState::Cancelled);
    assert_eq!(outcome, ExecutionOutcome::Cancelled { signal: None });
    db.finish(&id, state, outcome).unwrap();
    let look = CancelLook::Found { execution: db.get_execution(&id, now_ms()).unwrap() };
    match cancel_step(look) {
        CancelStep::Answer { answer: Ok(execution) } => {
            assert_eq!(execution.state, ExecutionState::Cancelled);
            let expected = Some(ExecutionOutcome::Cancelled { signal: None });
            assert_eq!(execution.outcome, expected);
        }
        other => panic!("{other:?}"),
    }
    assert!(matches!(
        cancel_step(CancelLook::TimedOut),
        CancelStep::Answer { answer: Err(Error::Timeout) }
    ));
    match cancel_step(CancelLook::Closed) {
        CancelStep::Answer { answer: Err(Error::Protocol(message)) } => {
            assert_eq!(message, "execution event channel closed")
        }
        other => panic!("{other:?}"),
    }
    let failed = CancelLook::Failed { error: Error::ExecutionNotFound("x".into()) };
    assert!(matches!(
        cancel_step(failed),
        CancelStep::Answer { answer: Err(Error::ExecutionNotFound(_)) }
    ));
}

#[test]
fn commands_name_what_they_may_change() {
    let (_, id) = store_with_one();
    assert!(matches!(scope_of(&StoreCommand::ListWorkspaces), Scope::Nothing));
    assert!(matches!(scope_of(&StoreCommand::CancelQueued), Scope::Records));
    let remove = StoreCommand::RemoveWorkspace { identifier: "x".into() };
    assert!(matches!(scope_of(&remove), Scope::Workspaces));
    let create = StoreCommand::CreateExecution { request: request("w"), cwd: "/t".into() };
    assert!(matches!(scope_of(&create), Scope::LatestExecution));
    let running = StoreCommand::MarkRunning { id: id.clone(), pid: 1, pgid: 1 };
    match scope_of(&running) {
        Scope::Executions(ids) => assert_eq!(ids, [id.clone()]),
        other => panic!("{other:?}"),
    }
    let records = vec![output(&id, b"a"), output("other", b"b")];
    match scope_of(&StoreCommand::AppendCaptureBatch { records }) {
        Scope::Executions(ids) => assert_eq!(ids, [id, "other".to_owned()]),
        other => panic!("{other:?}"),
    }
}

#[test]
fn variables_are_stored_by_their_keys_in_order() {
    let mut db = Database::new();
    let workspace = db.add_workspace("test", "/t/w", true).unwrap();
    let mut asked = request(&workspace.id);
    for (key, value) in [("A", "1"), ("B", "2"), ("C", "3")] {
        asked.env.push(EnvVar { key: key.into(), value: value.into() });
    }
    let execution = db.create_execution(&asked, "/t/w").unwrap();
    assert_eq!(execution.env_keys, ["A", "B", "C"]);
    assert_eq!(db.executions[0].env_keys, ["A", "B", "C"]);
}

/// The words of a line as a shell finds them, where nothing but single quotes
/// and backslashes quotes.
fn words(line: &str) -> Vec<String> {
    let mut found: Vec<String> = Vec::new();
    let mut word: Option<String> = None;
    let mut quoted = false;
    let mut escaped = false;
    for c in line.chars() {
        if escaped || (quoted && c != '\'') {
            word.get_or_insert_with(String::new).push(c);
            escaped = false;
        } else if c == '\'' {
            word.get_or_insert_with(String::new);
            quoted = !quoted;
        } else if c == '\\' {
            word.get_or_insert_with(String::new);
            escaped = true;
        } else if c == ' ' {
            found.extend(word.take());
        } else {
            word.get_or_insert_with(String::new).push(c);
        }
    }
    found.extend(word);
    found
}

#[test]
fn shown_commands_read_back() {
    let args = ["it's", "a b", "--x=1", "'", "\\", "$HOME", "\n", "é"];
    let command = CommandSpec::Argv {
        program: "printf".into(),
        args: args.iter().map(|arg| (*arg).to_owned()).collect(),
    };
    let shown = command.display();
    assert_eq!(shown, "printf 'it'\\''s' 'a b' --x=1 ''\\''' '\\' '$HOME' '\n' 'é'");
    let mut expected = vec!["printf".to_owned()];
    expected.extend(args.iter().map(|arg| (*arg).to_owned()));
    assert_eq!(words(&shown), expected);
    let empty = CommandSpec::Argv { program: "a".into(), args: vec![String::new()] };
    assert_eq!(empty.display(), "a ");
}

#[test]
fn a_page_is_cut_by_its_size() {
    let (mut db, id) = store_with_one();
    let batch: Vec<CaptureRecord> = (0..4u8).map(|n| output(&id, &[n; 10])).collect();
    db.append_capture_batch(&batch).unwrap();
    for (max_bytes, count) in [(0, 1), (10, 1), (19, 1), (20, 2), (39, 3), (40, 4), (1000, 4)] {
        let page = db.read_output(&id, 0, max_bytes, now_ms()).unwrap();
        assert_eq!(page.events.len(), count);
        assert_eq!(page.next_seq, count as u64);
        assert_eq!(page.has_more, count < 4);
    }
    let many: Vec<CaptureRecord> = (0..5000).map(|_| output(&id, b"")).collect();
    db.append_capture_batch(&many).unwrap();
    assert_eq!(db.read_output(&id, 0, usize::MAX, now_ms()).unwrap().events.len(), 4096);
}

#[test]
fn a_subscription_ends_with_the_execution() {
    let (mut db, id) = store_with_one();
    let (refusal, none) = open_subscription(&db, "s".into(), id.clone(), 1, now_ms());
    assert!(none.is_none());
    match refusal {
        WireMessage::Response { body: ResponseBody::Error { error }, .. } => {
            assert_eq!(error.code, "invalid_request");
            assert!(error.message.contains("after_seq 1 exceeds execution cursor 0"));
        }
        other => panic!("{other:?}"),
    }
    db.append_capture_batch(&vec![output(&id, b"a")]).unwrap();
    db.finish(&id, ExecutionState::Finished, ExecutionOutcome::Exited { code: 0 }).unwrap();
    let (_, opened) = open_subscription(&db, "s".into(), id.clone(), 0, now_ms());
    let mut served = opened.unwrap();
    let page = db.read_output(&id, 0, 1024, now_ms()).unwrap();
    let (messages, status) = served.replay_page(&page);
    assert_eq!(messages.len(), 2);
    assert_eq!(status, ReplayStatus::Closed);
    assert_eq!(served.cursor, 2);
}

#[test]
fn the_latest_output_stays_in_view() {
    let mut pane = OutputPane::new();
    for (name, bytes) in [("a", OUTPUT_CAP_BYTES - 1), ("b", 1), ("c", 1), ("d", 2)] {
        pane.put(OutputChunk { stream: OutputStream::Stdout, text: name.into(), bytes });
    }
    let names: Vec<&str> = pane.chunks.iter().map(|chunk| chunk.text.as_str()).collect();
    assert_eq!(names, ["b", "c", "d"]);
    assert_eq!(pane.bytes, 4);
    let large = OutputChunk {
        stream: OutputStream::Stdout,
        text: "e".into(),
        bytes: OUTPUT_CAP_BYTES + 1,
    };
    pane.put(large);
    assert!(pane.chunks.is_empty());
    assert_eq!(pane.bytes, 0);
}

#[test]
fn paths_become_texts() {
    let path = std::path::PathBuf::from("/t").join("w");
    assert_eq!(path_to_string(&path), "/t/w");
}

#[test]
fn white_space_is_what_unicode_says() {
    let white = "\t\n\u{b}\u{c}\r \u{85}\u{a0}\u{1680}\u{2000}\u{2001}\u{2002}\u{2003}\u{2004}\
                 \u{2005}\u{2006}\u{2007}\u{2008}\u{2009}\u{200a}\u{2028}\u{2029}\u{202f}\
                 \u{205f}\u{3000}";
    assert_eq!(white.chars().count(), 25);
    assert!(is_blank(white));
    assert_eq!(trim(&format!("{white}a{white}b{white}")), format!("a{white}b"));
    let others: Vec<u32> = (0..=0x10ffffu32)
        .filter(|code| char::from_u32(*code).is_some_and(|c| is_blank(&c.to_string())))
        .collect();
    assert_eq!(others, white.chars().map(|c| c as u32).collect::<Vec<u32>>());
    assert!(!is_blank("\u{200b}") && !is_blank("\u{180e}") && !is_blank("\u{feff}"));
}

#[test]
fn counts_by_initiator_add_up() {
    let mut db = Database::new();
    let workspace = db.add_workspace("test", "/t/w", true).unwrap();
    for kind in ["mcp", "cli", "mcp", "api", "cli", "mcp"] {
        let mut asked = request(&workspace.id);
        asked.initiator.kind = kind.into();
        db.create_execution(&asked, "/t/w").unwrap();
    }
    let stats = db.execution_stats(&workspace.id, 0, i64::MAX).unwrap();
    let counts: Vec<(&str, u64)> =
        stats.by_initiator.iter().map(|entry| (entry.kind.as_str(), entry.count)).collect();
    assert_eq!(counts, [("api", 1), ("cli", 2), ("mcp", 3)]);
    assert_eq!(counts.iter().map(|entry| entry.1).sum::<u64>(), stats.total);
}

#[test]
fn a_session_is_asked_for_with_its_agent() {
    let asked = |requested: Option<&str>, program: &str| {
        session_request(
            "id".into(),
            "w".into(),
            requested.map(str::to_owned),
            "other",
            Some("demo".into()),
            CommandSpec::Argv { program: program.into(), args: vec!["-x".into()] },
            "/t/w".into(),
            42,
            80,
            24,
            "/t/a.cast".into(),
            "/t/a.html".into(),
        )
    };
    let request = asked(None, "/bin/codex");
    assert_eq!(request.id, "id");
    assert_eq!(request.workspace_id, "w");
    assert_eq!(request.agent_kind, "codex");
    assert_eq!(request.name.as_deref(), Some("demo"));
    assert_eq!(request.command.display(), "/bin/codex -x");
    assert_eq!(request.cwd, "/t/w");
    assert_eq!(request.recorder_pid, 42);
    assert_eq!((request.initial_cols, request.initial_rows), (80, 24));
    assert_eq!(request.cast_path, "/t/a.cast");
    assert_eq!(request.html_path, "/t/a.html");
    assert_eq!(asked(Some("generic"), "/bin/codex").agent_kind, "generic");
    assert_eq!(asked(None, "other").agent_kind, "other");
    assert_eq!(asked(None, "vim").agent_kind, "generic");
}

#[test]
fn the_end_of_a_recording_is_reported_again_without_a_daemon() {
    assert!(tries_again(&Err(Error::DaemonUnavailable("gone".into()))));
    assert!(!tries_again(&Err(Error::Timeout)));
    assert!(!tries_again(&Err(Error::AgentSessionNotFound("x".into()))));
}
