//! What the daemon does for each operation that a client asks for.

use vstd::prelude::*;

use crate::config::AppPaths;
use crate::daemon;
use crate::daemon::{validate_session_paths, parent_of};
use crate::error;
use crate::error::{Error, ErrorView};
use crate::model::{
    AgentSession, AgentSessionFinish, AgentSessionFinishView, AgentSessionRequest,
    AgentSessionState, ExecutionOutcomeView, ExecutionRequest, Health, HealthView,
    PROTOCOL_VERSION,
};
use crate::daemon::abandoned;
use crate::paths;
use crate::paths::{list_starts_with, path_components};
use crate::protocol::{
    Operation, ProtocolResult, ProtocolResultView, CAPABILITY_AGENT_SESSIONS,
    CAPABILITY_EXECUTION_STATS,
};
use crate::store::rows;
use crate::store::rows::{Database, DatabaseView};
use crate::store::serve;
use crate::store::serve::{StoreCommand, StoreReply};
use crate::store::session_reading;
use crate::text;
use crate::text::{decimal_text, joined3};

verus! {

/// The most rows that a list holds.
pub const MAX_LIST_ROWS: u32 = 1000;

/// The most bytes that a page of output holds.
pub const MAX_PAGE_BYTES: usize = 8_388_608;

/// The longest that a client is kept waiting, in milliseconds.
pub const MAX_WAIT_MS: u64 = 60_000;

/// The file that a recorder holds locked while it records.
pub const RECORDER_LOCK: &'static str = "active.lock";

/// What the daemon does for an operation.
#[allow(inconsistent_fields)]
#[derive(Debug)]
pub enum Task {
    /// Refuse it.
    Refuse(Error),
    /// Say how the daemon is, once abandoned recordings are ended.
    ReportHealth,
    /// Have the store carry out a command; where `reconcile` is set, once
    /// abandoned recordings are ended.
    Store { reconcile: bool, command: StoreCommand },
    /// Register a directory, once its links are resolved.
    AddWorkspace { name: String, root: String },
    /// Record a session, once the links in its directory are resolved.
    CreateSession { request: AgentSessionRequest },
    /// Remove a session, with its files.
    DeleteSession { session_id: String },
    /// Run a command.
    Execute { request: ExecutionRequest },
    /// Wait for what comes after `after_seq`.
    Wait { execution_id: String, after_seq: u64, timeout_ms: u64, max_bytes: usize },
    /// Cancel an execution.
    Cancel { execution_id: String },
    /// Stop, once abandoned recordings are ended.
    Stop { force: bool },
}

/// A number held between two others.
pub open spec fn clamped(value: int, low: int, high: int) -> int {
    if value < low {
        low
    } else if value > high {
        high
    } else {
        value
    }
}

fn clamp_rows(limit: u32) -> (held: u32)
    ensures
        held == clamped(limit as int, 1, MAX_LIST_ROWS as int),
{
    if limit < 1 {
        1
    } else if limit > MAX_LIST_ROWS {
        MAX_LIST_ROWS
    } else {
        limit
    }
}

fn clamp_bytes(max_bytes: usize) -> (held: usize)
    ensures
        held == clamped(max_bytes as int, 1, MAX_PAGE_BYTES as int),
{
    if max_bytes < 1 {
        1
    } else if max_bytes > MAX_PAGE_BYTES {
        MAX_PAGE_BYTES
    } else {
        max_bytes
    }
}

fn clamp_wait(timeout_ms: u64) -> (held: u64)
    ensures
        held == clamped(timeout_ms as int, 1, MAX_WAIT_MS as int),
{
    if timeout_ms < 1 {
        1
    } else if timeout_ms > MAX_WAIT_MS {
        MAX_WAIT_MS
    } else {
        timeout_ms
    }
}

/// What the daemon does for an operation that comes at the time `now`. What a
/// client asks for is held within what one answer may hold.
pub open spec fn planned(operation: Operation, sessions_dir: Seq<char>, now: i64, task: Task) -> bool {
    match operation {
        Operation::Health => task is ReportHealth,
        Operation::WorkspaceAdd { name, root } => task == (Task::AddWorkspace { name, root }),
        Operation::WorkspaceRemove { workspace } => task == (Task::Store {
            reconcile: false,
            command: StoreCommand::RemoveWorkspace { identifier: workspace },
        }),
        Operation::WorkspaceList => task == (Task::Store {
            reconcile: false,
            command: StoreCommand::ListWorkspaces,
        }),
        Operation::Execute { request } => task == (Task::Execute { request }),
        Operation::Get { execution_id } => task == (Task::Store {
            reconcile: false,
            command: StoreCommand::GetExecution { id: execution_id },
        }),
        Operation::List { workspace, limit } => task == (Task::Store {
            reconcile: false,
            command: StoreCommand::ListExecutions {
                workspace,
                limit: clamped(limit as int, 1, MAX_LIST_ROWS as int) as u32,
            },
        }),
        Operation::Stats { workspace, since_ms } => task == (Task::Store {
            reconcile: false,
            command: StoreCommand::ExecutionStats { workspace, since_ms, until_ms: now },
        }),
        Operation::SessionCreate { request } => match daemon::artifact_fault(
            sessions_dir,
            request.id@,
            request.cast_path@,
            request.html_path@,
        ) {
            Some(fault) => task matches Task::Refuse(error) && error@ == fault,
            None => task == (Task::CreateSession { request }),
        },
        Operation::SessionFinish { session_id, finish } => task == (Task::Store {
            reconcile: false,
            command: StoreCommand::FinishAgentSession { id: session_id, finish },
        }),
        Operation::SessionGet { session_id } => task == (Task::Store {
            reconcile: true,
            command: StoreCommand::GetAgentSession { id: session_id },
        }),
        Operation::SessionList { workspace, limit } => task == (Task::Store {
            reconcile: true,
            command: StoreCommand::ListAgentSessions {
                workspace,
                limit: clamped(limit as int, 1, MAX_LIST_ROWS as int) as u32,
            },
        }),
        Operation::SessionDelete { session_id } => task == (Task::DeleteSession { session_id }),
        Operation::AgentEvent { request } => task == (Task::Store {
            reconcile: false,
            command: StoreCommand::RecordAgentEvent { request },
        }),
        Operation::ReadOutput { execution_id, after_seq, max_bytes } => task == (Task::Store {
            reconcile: false,
            command: StoreCommand::ReadOutput {
                id: execution_id,
                after_seq,
                max_bytes: clamped(max_bytes as int, 1, MAX_PAGE_BYTES as int) as usize,
            },
        }),
        Operation::Wait { execution_id, after_seq, timeout_ms, max_bytes } => task == (Task::Wait {
            execution_id,
            after_seq,
            timeout_ms: clamped(timeout_ms as int, 1, MAX_WAIT_MS as int) as u64,
            max_bytes: clamped(max_bytes as int, 1, MAX_PAGE_BYTES as int) as usize,
        }),
        Operation::Subscribe { execution_id, after_seq } => task matches Task::Refuse(error)
            && error@ == ErrorView::Protocol("subscribe must use a dedicated connection"@),
        Operation::Cancel { execution_id } => task == (Task::Cancel { execution_id }),
        Operation::Shutdown { force } => task == (Task::Stop { force }),
    }
}

/// Decides what to do for an operation.
pub fn dispatch(operation: Operation, paths: &AppPaths, now: i64) -> (task: Task)
    ensures
        planned(operation, paths@.sessions_dir, now, task),
{
    match operation {
        Operation::Health => Task::ReportHealth,
        Operation::WorkspaceAdd { name, root } => Task::AddWorkspace { name, root },
        Operation::WorkspaceRemove { workspace } => Task::Store {
            reconcile: false,
            command: StoreCommand::RemoveWorkspace { identifier: workspace },
        },
        Operation::WorkspaceList => Task::Store {
            reconcile: false,
            command: StoreCommand::ListWorkspaces,
        },
        Operation::Execute { request } => Task::Execute { request },
        Operation::Get { execution_id } => Task::Store {
            reconcile: false,
            command: StoreCommand::GetExecution { id: execution_id },
        },
        Operation::List { workspace, limit } => Task::Store {
            reconcile: false,
            command: StoreCommand::ListExecutions { workspace, limit: clamp_rows(limit) },
        },
        Operation::Stats { workspace, since_ms } => Task::Store {
            reconcile: false,
            command: StoreCommand::ExecutionStats { workspace, since_ms, until_ms: now },
        },
        Operation::SessionCreate { request } => match validate_session_paths(
            paths.sessions_dir.as_str(),
            request.id.as_str(),
            request.cast_path.as_str(),
            request.html_path.as_str(),
        ) {
            Err(error) => Task::Refuse(error),
            Ok(()) => Task::CreateSession { request },
        },
        Operation::SessionFinish { session_id, finish } => Task::Store {
            reconcile: false,
            command: StoreCommand::FinishAgentSession { id: session_id, finish },
        },
        Operation::SessionGet { session_id } => Task::Store {
            reconcile: true,
            command: StoreCommand::GetAgentSession { id: session_id },
        },
        Operation::SessionList { workspace, limit } => Task::Store {
            reconcile: true,
            command: StoreCommand::ListAgentSessions { workspace, limit: clamp_rows(limit) },
        },
        Operation::SessionDelete { session_id } => Task::DeleteSession { session_id },
        Operation::AgentEvent { request } => Task::Store {
            reconcile: false,
            command: StoreCommand::RecordAgentEvent { request },
        },
        Operation::ReadOutput { execution_id, after_seq, max_bytes } => Task::Store {
            reconcile: false,
            command: StoreCommand::ReadOutput {
                id: execution_id,
                after_seq,
                max_bytes: clamp_bytes(max_bytes),
            },
        },
        Operation::Wait { execution_id, after_seq, timeout_ms, max_bytes } => Task::Wait {
            execution_id,
            after_seq,
            timeout_ms: clamp_wait(timeout_ms),
            max_bytes: clamp_bytes(max_bytes),
        },
        Operation::Subscribe { execution_id, after_seq } => Task::Refuse(
            Error::Protocol("subscribe must use a dedicated connection".to_owned()),
        ),
        Operation::Cancel { execution_id } => Task::Cancel { execution_id },
        Operation::Shutdown { force } => Task::Stop { force },
    }
}

/// What the store's reply tells a client; nothing for the replies that the
/// daemon keeps to itself.
pub open spec fn told(reply: StoreReply) -> Option<Result<ProtocolResultView, ErrorView>> {
    match reply {
        StoreReply::Done(answer) => Some(
            error::outcome_view(answer, |u: ()| ProtocolResultView::Empty),
        ),
        StoreReply::Workspace(answer) => Some(
            error::outcome_view(answer, |v: crate::model::Workspace| ProtocolResultView::Workspace(v@)),
        ),
        StoreReply::Workspaces(list) => Some(Ok(ProtocolResult::Workspaces(list)@)),
        StoreReply::Execution(answer) => Some(
            error::outcome_view(answer, |v: crate::model::Execution| ProtocolResultView::Execution(v@)),
        ),
        StoreReply::Executions(list) => Some(Ok(ProtocolResult::Executions(list)@)),
        StoreReply::Stats(answer) => Some(
            error::outcome_view(answer, |v: crate::model::ExecutionStats| ProtocolResultView::Stats(v@)),
        ),
        StoreReply::Session(answer) => Some(
            error::outcome_view(answer, |v: AgentSession| ProtocolResultView::AgentSession(v@)),
        ),
        StoreReply::Sessions(list) => Some(Ok(ProtocolResult::AgentSessions(list)@)),
        StoreReply::Detail(answer) => Some(
            error::outcome_view(
                answer,
                |v: crate::model::AgentSessionDetail| ProtocolResultView::AgentSessionDetail(v@),
            ),
        ),
        StoreReply::Turn(answer) => Some(
            error::outcome_view(answer, |v: crate::model::AgentTurn| ProtocolResultView::AgentTurn(v@)),
        ),
        StoreReply::Output(answer) => Some(
            error::outcome_view(
                answer,
                |v: crate::model::ReadOutputResponse| ProtocolResultView::Output(v@),
            ),
        ),
        _ => None,
    }
}

/// Turns the store's reply into an answer for a client. A reply that is not
/// for clients comes back as it is.
pub fn tell(reply: StoreReply) -> (answer: Result<Result<ProtocolResult, Error>, StoreReply>)
    ensures
        match answer {
            Ok(answer) => told(reply) == Some(error::viewed(answer)),
            Err(other) => other == reply && told(reply) is None,
        },
{
    match reply {
        StoreReply::Done(answer) => Ok(
            match answer {
                Ok(()) => Ok(ProtocolResult::Empty),
                Err(error) => Err(error),
            },
        ),
        StoreReply::Workspace(answer) => Ok(
            match answer {
                Ok(value) => Ok(ProtocolResult::Workspace(value)),
                Err(error) => Err(error),
            },
        ),
        StoreReply::Workspaces(list) => Ok(Ok(ProtocolResult::Workspaces(list))),
        StoreReply::Execution(answer) => Ok(
            match answer {
                Ok(value) => Ok(ProtocolResult::Execution(value)),
                Err(error) => Err(error),
            },
        ),
        StoreReply::Executions(list) => Ok(Ok(ProtocolResult::Executions(list))),
        StoreReply::Stats(answer) => Ok(
            match answer {
                Ok(value) => Ok(ProtocolResult::Stats(value)),
                Err(error) => Err(error),
            },
        ),
        StoreReply::Session(answer) => Ok(
            match answer {
                Ok(value) => Ok(ProtocolResult::AgentSession(value)),
                Err(error) => Err(error),
            },
        ),
        StoreReply::Sessions(list) => Ok(Ok(ProtocolResult::AgentSessions(list))),
        StoreReply::Detail(answer) => Ok(
            match answer {
                Ok(value) => Ok(ProtocolResult::AgentSessionDetail(value)),
                Err(error) => Err(error),
            },
        ),
        StoreReply::Turn(answer) => Ok(
            match answer {
                Ok(value) => Ok(ProtocolResult::AgentTurn(value)),
                Err(error) => Err(error),
            },
        ),
        StoreReply::Output(answer) => Ok(
            match answer {
                Ok(value) => Ok(ProtocolResult::Output(value)),
                Err(error) => Err(error),
            },
        ),
        other => Err(other),
    }
}

/// Every operation that the store carries out is answered: whatever it does,
/// its reply is one for clients.
pub proof fn every_operation_is_answered(
    operation: Operation,
    sessions_dir: Seq<char>,
    asked_at: i64,
    task: Task,
    db: DatabaseView,
    now: i64,
    first: Seq<char>,
    second: Seq<char>,
    after: DatabaseView,
    reply: StoreReply,
)
    requires
        planned(operation, sessions_dir, asked_at, task),
        task matches Task::Store { reconcile, command } && serve::served(
            db,
            command,
            now,
            first,
            second,
            after,
            reply,
        ),
    ensures
        told(reply) is Some,
{
}

/// What the daemon says of itself. `active_executions` is how many executions
/// it runs.
pub fn health(
    db: &Database,
    paths: &AppPaths,
    daemon_pid: u32,
    server_version: String,
    active_executions: u64,
) -> (report: Health)
    ensures
        report@ == (HealthView {
            protocol_version: PROTOCOL_VERSION,
            daemon_pid,
            database_path: paths@.database,
            socket_path: paths@.socket,
            server_version: Some(server_version@),
            capabilities: seq![CAPABILITY_EXECUTION_STATS@, CAPABILITY_AGENT_SESSIONS@],
            active_executions: Some(active_executions),
            active_sessions: Some(session_reading::recording_sessions(db@).len() as u64),
        }),
{
    let recording = db.active_agent_sessions();
    let mut capabilities: Vec<String> = Vec::new();
    capabilities.push(CAPABILITY_EXECUTION_STATS.to_owned());
    capabilities.push(CAPABILITY_AGENT_SESSIONS.to_owned());
    proof {
        assert(text::texts(capabilities@) =~= seq![
            CAPABILITY_EXECUTION_STATS@,
            CAPABILITY_AGENT_SESSIONS@,
        ]);
        assert(recording@.map_values(|item: AgentSession| item@).len() == recording.len());
    }
    Health {
        protocol_version: PROTOCOL_VERSION,
        daemon_pid,
        database_path: paths.database.clone(),
        socket_path: paths.socket.clone(),
        server_version: Some(server_version),
        capabilities,
        active_executions: Some(active_executions),
        active_sessions: Some(recording.len() as u64),
    }
}

/// What removing a session takes: nothing may be recorded under it any more,
/// and its files go where they lie in the directory for sessions. The result
/// is the path of the recording whose directory goes.
pub open spec fn deletion(db: DatabaseView, session_id: Seq<char>, sessions_dir: Seq<char>) -> Result<
    Option<Seq<char>>,
    ErrorView,
> {
    match rows::session_place(db, session_id) {
        None => Err(ErrorView::AgentSessionNotFound(session_id)),
        Some(at) => if db.sessions[at].state == AgentSessionState::Recording {
            Err(error::refused("agent session "@ + session_id + " is still recording"@))
        } else {
            Ok(
                match daemon::parent_parts(db.sessions[at].cast_path) {
                    Some(directory) => if paths::components(sessions_dir).is_prefix_of(directory) {
                        Some(db.sessions[at].cast_path)
                    } else {
                        None
                    },
                    None => None,
                },
            )
        },
    }
}

/// Decides what removing a session takes.
pub fn plan_deletion(db: &Database, session_id: &str, sessions_dir: &str, now: i64) -> (plan: Result<
    Option<String>,
    Error,
>)
    ensures
        error::outcome_view(plan, |path: Option<String>| crate::text::maybe_text(path)) == deletion(
            db@,
            session_id@,
            sessions_dir@,
        ),
{
    let detail = match db.get_agent_session(session_id, now) {
        Err(error) => {
            return Err(error);
        },
        Ok(detail) => detail,
    };
    if !detail.session.state.is_terminal() {
        return Err(
            Error::InvalidRequest(joined3("agent session ", session_id, " is still recording")),
        );
    }
    match parent_of(detail.session.cast_path.as_str()) {
        None => Ok(None),
        Some(directory) => {
            let base = path_components(sessions_dir);
            if list_starts_with(&directory, &base) {
                Ok(Some(detail.session.cast_path))
            } else {
                Ok(None)
            }
        },
    }
}

/// Whether the daemon may stop: not while sessions are recorded, unless it is
/// forced to.
pub open spec fn stopping(db: DatabaseView, force: bool) -> Result<(), ErrorView> {
    let active = session_reading::recording_sessions(db).len();
    if !force && active > 0 {
        Err(
            error::refused(
                "daemon has "@ + text::decimal(active)
                    + " active agent session(s); wait for them or use --force"@,
            ),
        )
    } else {
        Ok(())
    }
}

/// Decides whether the daemon may stop.
pub fn plan_stop(db: &Database, force: bool) -> (plan: Result<(), Error>)
    ensures
        error::outcome_view(plan, |u: ()| u) == stopping(db@, force),
{
    let recording = db.active_agent_sessions();
    assert(recording@.map_values(|item: AgentSession| item@).len() == recording.len());
    if !force && recording.len() > 0 {
        Err(
            Error::InvalidRequest(
                joined3(
                    "daemon has ",
                    decimal_text(recording.len() as u64).as_str(),
                    " active agent session(s); wait for them or use --force",
                ),
            ),
        )
    } else {
        Ok(())
    }
}

/// How the attempt went to lock what a recorder holds locked.
#[derive(Debug)]
pub enum LockAttempt {
    /// The lock was free: its recorder is gone. `captured` is what the
    /// recording holds, where that could be read.
    Taken { captured: Option<u64> },
    /// The recorder holds it.
    Held,
    /// It could not be tried.
    Failed(String),
}

/// Whether a session keeps its files in a directory, so that it can be seen
/// whether its recorder is still there.
pub fn has_directory(session: &AgentSession) -> (yes: bool)
    ensures
        yes == (daemon::parent_parts(session@.cast_path) is Some),
{
    match parent_of(session.cast_path.as_str()) {
        Some(_) => true,
        None => false,
    }
}

/// What is done about a session that is being recorded, by how the attempt
/// went to lock what its recorder holds locked: one that is abandoned ends.
pub fn reconcile_session(session: &AgentSession, attempt: LockAttempt) -> (ending: Result<
    Option<AgentSessionFinish>,
    Error,
>)
    ensures
        match attempt {
            LockAttempt::Taken { captured } => ending matches Ok(Some(finish)) && finish@ == (
            AgentSessionFinishView {
                state: AgentSessionState::Interrupted,
                outcome: ExecutionOutcomeView::Interrupted {
                    reason: "session recorder exited before finalization"@,
                },
                captured_bytes: match captured {
                    Some(bytes) => bytes,
                    None => session@.captured_bytes,
                },
                output_truncated: session@.output_truncated,
            }),
            LockAttempt::Held => ending matches Ok(None),
            LockAttempt::Failed(reason) => ending matches Err(error) && error@ == ErrorView::Io(
                reason@,
            ),
        },
{
    match attempt {
        LockAttempt::Taken { captured } => Ok(Some(abandoned(session, captured))),
        LockAttempt::Held => Ok(None),
        LockAttempt::Failed(reason) => Err(Error::Io(reason)),
    }
}

} // verus!
