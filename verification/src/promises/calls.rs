//! What a caller gets from a function, said of what it was called with.

use vstd::prelude::*;

use crate::agent;
use crate::cli;
use crate::cli::Rendering;
use crate::client;
use crate::codec;
use crate::config;
use crate::config::{AppPaths, Environment, Settings};
use crate::daemon;
use crate::daemon::Subscription;
use crate::dispatch;
use crate::dispatch::LockAttempt;
use crate::error::Error;
use crate::executor;
use crate::executor::Run;
use crate::json::Json;
use crate::model::{
    AgentEventRequest, AgentEventView, AgentSession, AgentSessionFinish, AgentSessionState,
    CommandSpec, CommandSpecView, EnvVar, Execution, ExecutionEvent, ExecutionOutcome,
    ExecutionOutcomeView, ExecutionRequest, ExecutionState, Health, OutputStream,
};
use crate::promises::hooks;
use crate::promises::lists;
use crate::promises::supervision;
use crate::protocol;
use crate::protocol::{ProtocolResult, ResponseBodyView, WireMessage, WireMessageView};
use crate::store::rows::{Database, DatabaseView};
use crate::store::session_reading;
use crate::supervisor;
use crate::supervisor::{
    ExitReport, InputResult, Supervision, SupervisionInput, SupervisionInputView,
    SupervisorCommand, SupervisorCommandView, SupervisorEvent,
};

verus! {

/// The outcome of a command that no one asked to end has the code or the
/// signal of the report that the supervisor got.
pub proof fn the_outcome_is_that_of_the_report(
    state: &Supervision,
    inputs: Seq<SupervisionInputView>,
    k: int,
    report: ExitReport,
    outcome: Option<ExecutionOutcome>,
)
    requires
        state@ == supervisor::after_inputs(inputs),
        supervision::left_alone(inputs),
        supervision::first_seen_ended(inputs, k, report),
        call_ensures(Supervision::outcome, (state,), outcome),
    ensures
        outcome is Some,
        report.code matches Some(code) ==> outcome->0@ == (ExecutionOutcomeView::Exited { code }),
        report.code is None ==> (report.signal matches Some(signal) ==> outcome->0@ == (
        ExecutionOutcomeView::Signaled { signal })),
{
    supervision::an_own_end_is_told_exactly(inputs, k, report);
}

/// Output is shown on the stream that it was written to, byte for byte.
pub proof fn output_goes_to_its_stream(
    stream: OutputStream,
    decoded: Result<Vec<u8>, String>,
    rendering: Result<Rendering, Error>,
)
    requires
        call_ensures(cli::render_output, (stream, decoded), rendering),
    ensures
        match (decoded, stream) {
            (Ok(data), OutputStream::Stdout) => rendering matches Ok(Rendering::Stdout(shown))
                && shown@ == data@,
            (Ok(data), OutputStream::Stderr) => rendering matches Ok(Rendering::Stderr(shown))
                && shown@ == data@,
            (Err(_), _) => rendering is Err,
        },
{
}

/// A new run holds, for the supervisor, everything that the request says of
/// what is started.
pub proof fn a_run_starts_what_was_asked(
    id: String,
    request: ExecutionRequest,
    cwd: String,
    settings: &Settings,
    run: Run,
)
    requires
        call_ensures(Run::new, (id, request, cwd, settings), run),
    ensures
        run@.id == id@,
        run@.spawn matches SupervisorCommandView::Spawn {
            command,
            cwd: place,
            env,
            stdin_base64,
            shell,
            cancel_grace_ms,
        } && command == request@.command && place == cwd@ && env == request@.env && stdin_base64
            == request@.stdin_base64 && shell == settings@.shell && cancel_grace_ms
            == settings@.cancel_grace_ms,
        run@.meter.seen == 0 && !run@.meter.truncated,
        run@.meter.limit == (match request@.capture_limit_bytes {
            Some(limit) => limit,
            None => settings@.capture_limit_bytes,
        }),
{
}

/// The hook that is called after a tool reports a call that is complete, the
/// one that is called after its failure a call that failed, and the one that is
/// called before it a call that begins; each names the call and the tool.
pub proof fn tool_hooks_are_told_apart(
    provider: &str,
    session_id: &str,
    input: &Json,
    named: Seq<char>,
    tool: Seq<char>,
    request: Result<Option<AgentEventRequest>, Error>,
)
    requires
        call_ensures(agent::normalize_hook_event, (provider, session_id, input), request),
        hooks::hook_says(input@, "tool_use_id"@, named),
        hooks::hook_says(input@, "tool_name"@, tool),
        request is Ok,
    ensures
        hooks::hook_is(input@, "PreToolUse"@) ==> (request matches Ok(Some(reported))
            && reported@.event == (AgentEventView::ToolStarted {
            action_id: named,
            tool_name: tool,
        })),
        hooks::hook_is(input@, "PostToolUse"@) ==> (request matches Ok(Some(reported))
            && reported@.event matches AgentEventView::ToolFinished {
            action_id,
            tool_name,
            failed,
            execution_id,
        } && action_id == named && tool_name == tool && !failed),
        hooks::hook_is(input@, "PostToolUseFailure"@) ==> (request matches Ok(Some(reported))
            && reported@.event matches AgentEventView::ToolFinished {
            action_id,
            tool_name,
            failed,
            execution_id,
        } && action_id == named && tool_name == tool && failed),
        request matches Ok(Some(reported)) ==> reported@.session_id == session_id@
            && reported@.provider == provider@ && hooks::hook_says(
            input@,
            "session_id"@,
            reported@.provider_session_id,
        ),
{
    hooks::names_differ();
}

/// The hooks that begin and end a turn are told apart too, and what was said is
/// handed on.
pub proof fn turn_hooks_are_told_apart(
    provider: &str,
    session_id: &str,
    input: &Json,
    said: Seq<char>,
    request: Result<Option<AgentEventRequest>, Error>,
)
    requires
        call_ensures(agent::normalize_hook_event, (provider, session_id, input), request),
        request is Ok,
    ensures
        hooks::hook_is(input@, "UserPromptSubmit"@) && hooks::hook_says(input@, "prompt"@, said)
            ==> (request matches Ok(Some(reported)) && reported@.event == (
        AgentEventView::PromptSubmitted { prompt: said })),
        hooks::hook_is(input@, "Stop"@) ==> (request matches Ok(Some(reported))
            && reported@.event matches AgentEventView::TurnFinished {
            failed,
            last_assistant_message,
        }
            && !failed && (hooks::hook_says(input@, "last_assistant_message"@, said)
            ==> last_assistant_message == Some(said))),
        hooks::hook_is(input@, "StopFailure"@) ==> (request matches Ok(Some(reported))
            && reported@.event matches AgentEventView::TurnFinished {
            failed,
            last_assistant_message,
        }
            && failed),
{
    hooks::names_differ();
}

/// Output that the supervisor sends on carries its stream and reads back as the
/// bytes that were read.
pub proof fn output_is_sent_on(stream: OutputStream, data: &[u8], event: SupervisorEvent)
    requires
        call_ensures(supervisor::output_chunk, (stream, data), event),
    ensures
        event matches SupervisorEvent::Output { stream: on, data_base64 } && on == stream
            && codec::base64_decoding(data_base64@) == codec::good(data@),
{
}

/// After the first command a supervisor takes commands to cancel, one after the
/// other. Anything else is a fault and ends the reading.
pub proof fn a_supervisor_takes_cancels(
    command: Option<SupervisorCommand>,
    meaning: (SupervisionInput, bool),
)
    requires
        call_ensures(supervisor::read_control, (command,), meaning),
    ensures
        if command matches Some(SupervisorCommand::Cancel) {
            meaning.0 is Cancel && meaning.1
        } else {
            meaning.0 is CaptureFailed && !meaning.1
        },
{
}

/// A command that does not read its input is no failure; input that could not
/// be written for another reason is.
pub proof fn unread_input_is_no_failure(result: InputResult, checked: Result<(), Error>)
    requires
        call_ensures(supervisor::input_written, (result,), checked),
    ensures
        checked is Ok == (result is Written || result is BrokenPipe),
{
}

/// What is started for a line is the shell that was named, or else the one of
/// the settings, with the line; for words it is the program with its words.
pub proof fn a_command_becomes_a_program(
    command: &CommandSpec,
    default_shell: &str,
    line: (String, Vec<String>),
)
    requires
        call_ensures(supervisor::build_command, (command, default_shell), line),
    ensures
        match command@ {
            CommandSpecView::Argv { program, args } => line.0@ == program && crate::text::texts(
                line.1@,
            ) == args,
            CommandSpecView::Shell { command: text, shell } => {
                &&& shell matches Some(named) ==> line.0@ == named
                &&& shell is None ==> line.0@ == default_shell@
                &&& line.1@.len() == 2 && line.1@[0]@ == "-c"@ && line.1@[1]@ == text
            },
        },
{
    if command@ is Shell {
        let args = crate::text::texts(line.1@);
        assert(args.len() == line.1@.len());
        assert(args[0] == line.1@[0]@);
        assert(args[1] == line.1@[1]@);
    }
}

/// What is asked of the daemon for a command line is what stands on it.
pub proof fn a_command_line_is_handed_on(
    workspace_id: String,
    cwd: Option<String>,
    command: CommandSpec,
    env: Vec<EnvVar>,
    stdin: Option<Vec<u8>>,
    session: Option<String>,
    limit: Option<u64>,
    request: ExecutionRequest,
)
    requires
        call_ensures(
            cli::execution_request,
            (workspace_id, cwd, command, env, stdin, session, limit),
            request,
        ),
    ensures
        request@.workspace_id == workspace_id@,
        request@.command == command@,
        request@.capture_limit_bytes == limit,
        (request@.cwd is None) == (cwd is None),
        cwd matches Some(path) ==> request@.cwd == Some(path@),
        (request@.stdin_base64 is None) == (stdin is None),
        stdin matches Some(data) ==> request@.stdin_base64 == Some(codec::base64_text(data@)),
        session matches Some(id) ==> (id@.len() > 0 ==> request@.initiator.session_id == Some(
            id@,
        )),
        session is None ==> request@.initiator.session_id is None,
{
}

/// The code that the program exits with is that of the command, or one hundred
/// and twenty-eight above the signal that ended it.
pub proof fn the_program_exits_as_the_command_did(execution: &Execution, code: i32)
    requires
        call_ensures(cli::process_exit_code, (execution,), code),
    ensures
        execution@.outcome matches Some(ExecutionOutcomeView::Exited { code: own }) ==> code == own,
        execution@.outcome matches Some(ExecutionOutcomeView::Signaled { signal }) ==> code - 128
            == signal,
        execution@.outcome matches Some(ExecutionOutcomeView::Cancelled { signal: Some(signal) })
            ==> code - 128 == signal,
        execution@.outcome is None ==> code != 0,
{
}

/// The window of a report reaches back the number of days that was asked for.
pub proof fn the_window_is_that_of_the_days(now: i64, days: u32, since: i64, at: i64)
    requires
        call_ensures(cli::window_start, (now, days), since),
    ensures
        (since <= at) == (now - at <= days * 86_400_000),
{
}

/// A session whose recorder is gone ends as interrupted, with what its file
/// holds; one whose recorder is there goes on; and where it cannot be told
/// nothing is done but to say so.
pub proof fn an_abandoned_recording_ends(
    session: &AgentSession,
    attempt: LockAttempt,
    ending: Result<Option<AgentSessionFinish>, Error>,
)
    requires
        call_ensures(dispatch::reconcile_session, (session, attempt), ending),
    ensures
        match attempt {
            LockAttempt::Taken { captured } => ending matches Ok(Some(finish)) && finish@.state
                == AgentSessionState::Interrupted && finish@.outcome is Interrupted
                && finish@.output_truncated == session@.output_truncated && finish@.captured_bytes
                == (match captured {
                Some(bytes) => bytes,
                None => session@.captured_bytes,
            }),
            LockAttempt::Held => ending matches Ok(None),
            LockAttempt::Failed(reason) => ending is Err,
        },
{
}

/// The end that is given to an abandoned recording.
pub proof fn what_an_abandoned_recording_holds(
    session: &AgentSession,
    captured: Option<u64>,
    finish: AgentSessionFinish,
)
    requires
        call_ensures(daemon::abandoned, (session, captured), finish),
    ensures
        finish@.state == AgentSessionState::Interrupted && finish@.outcome is Interrupted,
        captured matches Some(bytes) ==> finish@.captured_bytes == bytes,
        captured is None ==> finish@.captured_bytes == session@.captured_bytes,
{
}

proof fn some_are_recorded(db: DatabaseView)
    ensures
        (session_reading::recording_sessions(db).len() == 0) == (forall|s: int|
            0 <= s < db.sessions.len() ==> (#[trigger] db.sessions[s]).state
                != AgentSessionState::Recording),
{
    let rows = session_reading::recording_sessions(db);
    let test = |i: int| db.sessions[i].state == AgentSessionState::Recording;
    lists::recorded_sessions_are_active(db);
    let places = choose|places: Seq<int>|
        #[trigger] lists::drawn_from(rows, db.sessions, test, places);
    if rows.len() > 0 {
        assert(test(places[0]));
        assert(db.sessions[places[0]].state == AgentSessionState::Recording);
    }
    assert forall|s: int| 0 <= s < db.sessions.len() && rows.len() == 0 implies (
    #[trigger] db.sessions[s]).state != AgentSessionState::Recording by {
        if test(s) {
            assert(places.contains(s));
        }
    }
}

/// A daemon that is not forced to stop does so only while no session is being
/// recorded.
pub proof fn recordings_are_not_cut_off(db: &Database, force: bool, plan: Result<(), Error>)
    requires
        call_ensures(dispatch::plan_stop, (db, force), plan),
    ensures
        plan is Ok == (force || forall|s: int|
            0 <= s < db@.sessions.len() ==> (#[trigger] db@.sessions[s]).state
                != AgentSessionState::Recording),
{
    some_are_recorded(db@);
}

/// The daemon says of itself where it listens and stores, what it can do, how
/// many executions it runs, and how many sessions of its store are being
/// recorded.
pub proof fn the_daemon_tells_how_it_is(
    db: &Database,
    paths: &AppPaths,
    daemon_pid: u32,
    server_version: String,
    active: u64,
    report: Health,
)
    requires
        call_ensures(dispatch::health, (db, paths, daemon_pid, server_version, active), report),
        session_reading::recording_sessions(db@).len() <= u64::MAX,
    ensures
        report@.protocol_version == 2,
        report@.daemon_pid == daemon_pid,
        report@.database_path == paths@.database,
        report@.socket_path == paths@.socket,
        report@.server_version == Some(server_version@),
        report@.active_executions == Some(active),
        report@.capabilities.contains("execution_stats_v1"@),
        report@.capabilities.contains("agent_sessions_v1"@),
        report@.active_sessions is Some,
        (report@.active_sessions == Some(0u64)) == (forall|s: int|
            0 <= s < db@.sessions.len() ==> (#[trigger] db@.sessions[s]).state
                != AgentSessionState::Recording),
{
    some_are_recorded(db@);
    let listed = seq![
        crate::protocol::CAPABILITY_EXECUTION_STATS@,
        crate::protocol::CAPABILITY_AGENT_SESSIONS@,
    ];
    assert(listed[0] == "execution_stats_v1"@);
    assert(listed[1] == "agent_sessions_v1"@);
}

/// A daemon is asked only for what it says it can do.
pub proof fn what_a_daemon_can_do_is_asked_of_it(
    health: &Health,
    capability: &str,
    checked: Result<(), Error>,
)
    requires
        call_ensures(client::require_capability, (health, capability), checked),
    ensures
        checked is Ok == health@.capabilities.contains(capability@),
        checked matches Err(error) ==> error is DaemonUpgradeRequired,
{
}

/// What is cancelled while it is queued ends as cancelled, by no signal.
pub proof fn what_is_queued_ends_as_cancelled(ending: (ExecutionState, ExecutionOutcome))
    requires
        call_ensures(executor::cancel_ending, (), ending),
    ensures
        ending.0 == ExecutionState::Cancelled,
        ending.1@ == (ExecutionOutcomeView::Cancelled { signal: None }),
{
}

/// The supervision of a command that no one asked to end is over once it was
/// seen to have exited, and not before.
pub proof fn supervision_ends_with_the_command(
    state: &Supervision,
    inputs: Seq<SupervisionInputView>,
    k: int,
    report: ExitReport,
    over: bool,
)
    requires
        state@ == supervisor::after_inputs(inputs),
        supervision::left_alone(inputs),
        call_ensures(Supervision::is_over, (state,), over),
    ensures
        supervision::first_seen_ended(inputs, k, report) ==> over,
        (forall|i: int| 0 <= i < inputs.len() ==> !((#[trigger] inputs[i]) is Exited)) ==> !over,
{
    supervision::an_own_end_is_told_exactly(inputs, k, report);
    if forall|i: int| 0 <= i < inputs.len() ==> !((#[trigger] inputs[i]) is Exited) {
        supervision::alone_until_the_end(inputs);
    }
}

/// A subscriber has nothing to say: that its connection is gone is in order,
/// and that it says something is not.
pub proof fn a_subscriber_is_silent(
    subscription: &Subscription,
    frame: Option<()>,
    outcome: Result<(), Error>,
)
    requires
        call_ensures(Subscription::incoming_frame, (subscription, frame), outcome),
    ensures
        outcome is Ok == frame is None,
{
}

/// Where a client does not say, a list has a hundred entries, a page a mebibyte,
/// and a wait lasts half a minute.
pub proof fn what_is_not_said_is_known(rows: u32, bytes: usize, wait: u64)
    requires
        call_ensures(protocol::default_list_limit, (), rows),
        call_ensures(protocol::default_read_bytes, (), bytes),
        call_ensures(protocol::default_wait_ms, (), wait),
    ensures
        rows == 100 && bytes == 1_048_576 && wait == 30_000,
{
}

/// Where the platform has no place for files nothing is found, and else the
/// places are those of the environment.
pub proof fn places_are_found(found: Option<Environment>, places: Result<AppPaths, Error>)
    requires
        call_ensures(AppPaths::discover, (found,), places),
    ensures
        places is Ok == found is Some,
        places matches Ok(known) ==> known@ == config::paths_for(found->0@),
        places matches Err(error) ==> error is Config,
{
}

/// The state of an execution tells a cancellation and an interruption from an
/// end of its own.
pub proof fn the_state_tells_the_end(outcome: &ExecutionOutcome, state: ExecutionState)
    requires
        call_ensures(executor::final_state, (outcome,), state),
    ensures
        (state == ExecutionState::Cancelled) == (outcome@ is Cancelled),
        (state == ExecutionState::Interrupted) == (outcome@ is Interrupted),
        (state == ExecutionState::Finished) == (outcome@ is Exited || outcome@ is Signaled
            || outcome@ is SpawnError),
{
}

/// A message says what it was made of, in the second version of the protocol.
pub proof fn messages_say_what_they_are_made_of(
    id: String,
    result: ProtocolResult,
    failure: &Error,
    event: ExecutionEvent,
    done: WireMessage,
    failed: WireMessage,
    told: WireMessage,
)
    requires
        call_ensures(WireMessage::ok, (id, result), done),
        call_ensures(WireMessage::error, (id, failure), failed),
        call_ensures(WireMessage::event, (id, event), told),
    ensures
        done@ matches WireMessageView::Response { version, request_id, body } && version == 2
            && request_id == id@ && body == (ResponseBodyView::Success { result: result@ }),
        failed@ matches WireMessageView::Response { version, request_id, body } && version == 2
            && request_id == id@ && body is Error,
        told@ matches WireMessageView::Event { version, subscription_id, event: carried } && version
            == 2 && subscription_id == id@ && carried == event@,
{
}

} // verus!
