//! The rows that the store keeps, and how they are looked up.

use vstd::prelude::*;

use crate::model::{
    AgentAction, AgentActionView, AgentSessionState, AgentTurn, AgentTurnView, CommandSpec,
    CommandSpecView, ExecutionOutcome, ExecutionOutcomeView, ExecutionState, Initiator,
    InitiatorView, OutputStream, Workspace, WorkspaceView,
};
use crate::order;
use crate::text;
use crate::text::same_text;

verus! {

/// A workspace, and whether it is registered at present. A workspace that was
/// removed keeps its row and its history.
#[derive(Debug)]
pub struct WorkspaceRow {
    pub workspace: Workspace,
    pub active: bool,
}

/// What a `WorkspaceRow` holds.
#[verifier::ext_equal]
pub struct WorkspaceRowView {
    pub workspace: WorkspaceView,
    pub active: bool,
}

impl View for WorkspaceRow {
    type V = WorkspaceRowView;

    open spec fn view(&self) -> WorkspaceRowView {
        WorkspaceRowView {
            workspace: self.workspace@,
            active: self.active,
        }
    }
}

/// What happened in a stored event; output is kept as the bytes that came.
#[derive(Debug)]
pub enum StoredPayload {
    Started { pid: u32, pgid: i32 },
    Output { stream: OutputStream, data: Vec<u8> },
    CaptureTruncated { limit_bytes: u64 },
    Finished { outcome: ExecutionOutcome },
}

/// What a `StoredPayload` holds.
#[verifier::ext_equal]
pub enum StoredPayloadView {
    Started { pid: u32, pgid: i32 },
    Output { stream: OutputStream, data: Seq<u8> },
    CaptureTruncated { limit_bytes: u64 },
    Finished { outcome: ExecutionOutcomeView },
}

impl View for StoredPayload {
    type V = StoredPayloadView;

    open spec fn view(&self) -> StoredPayloadView {
        match *self {
            StoredPayload::Started { pid, pgid } => StoredPayloadView::Started {
                pid,
                pgid,
            },
            StoredPayload::Output { stream, data } => StoredPayloadView::Output {
                stream,
                data: data@,
            },
            StoredPayload::CaptureTruncated { limit_bytes } => StoredPayloadView::CaptureTruncated {
                limit_bytes,
            },
            StoredPayload::Finished { outcome } => StoredPayloadView::Finished {
                outcome: outcome@,
            },
        }
    }
}

/// A stored event. Its number is its place in the list of its execution,
/// counted from one.
#[derive(Debug)]
pub struct StoredEvent {
    pub timestamp_ms: i64,
    pub payload: StoredPayload,
}

/// What a `StoredEvent` holds.
#[verifier::ext_equal]
pub struct StoredEventView {
    pub timestamp_ms: i64,
    pub payload: StoredPayloadView,
}

impl View for StoredEvent {
    type V = StoredEventView;

    open spec fn view(&self) -> StoredEventView {
        StoredEventView {
            timestamp_ms: self.timestamp_ms,
            payload: self.payload@,
        }
    }
}

/// An execution with its events. Of the environment only the names of the
/// variables are kept, and the input is not kept at all.
#[derive(Debug)]
pub struct ExecutionRow {
    pub id: String,
    pub workspace_id: String,
    pub state: ExecutionState,
    pub command: CommandSpec,
    pub cwd: String,
    pub env_keys: Vec<String>,
    pub initiator: Initiator,
    pub created_at_ms: i64,
    pub started_at_ms: Option<i64>,
    pub ended_at_ms: Option<i64>,
    pub pid: Option<u32>,
    pub pgid: Option<i32>,
    pub outcome: Option<ExecutionOutcome>,
    pub captured_bytes: u64,
    pub output_truncated: bool,
    pub session_id: Option<String>,
    pub events: Vec<StoredEvent>,
}

/// What an `ExecutionRow` holds.
#[verifier::ext_equal]
pub struct ExecutionRowView {
    pub id: Seq<char>,
    pub workspace_id: Seq<char>,
    pub state: ExecutionState,
    pub command: CommandSpecView,
    pub cwd: Seq<char>,
    pub env_keys: Seq<Seq<char>>,
    pub initiator: InitiatorView,
    pub created_at_ms: i64,
    pub started_at_ms: Option<i64>,
    pub ended_at_ms: Option<i64>,
    pub pid: Option<u32>,
    pub pgid: Option<i32>,
    pub outcome: Option<ExecutionOutcomeView>,
    pub captured_bytes: u64,
    pub output_truncated: bool,
    pub session_id: Option<Seq<char>>,
    pub events: Seq<StoredEventView>,
}

impl View for ExecutionRow {
    type V = ExecutionRowView;

    open spec fn view(&self) -> ExecutionRowView {
        ExecutionRowView {
            id: self.id@,
            workspace_id: self.workspace_id@,
            state: self.state,
            command: self.command@,
            cwd: self.cwd@,
            env_keys: text::texts(self.env_keys@),
            initiator: self.initiator@,
            created_at_ms: self.created_at_ms,
            started_at_ms: self.started_at_ms,
            ended_at_ms: self.ended_at_ms,
            pid: self.pid,
            pgid: self.pgid,
            outcome: (match self.outcome { Some(inner) => Some(inner@), None => None }),
            captured_bytes: self.captured_bytes,
            output_truncated: self.output_truncated,
            session_id: text::maybe_text(self.session_id),
            events: self.events@.map_values(|item: StoredEvent| item@),
        }
    }
}

/// A recorded agent session.
#[derive(Debug)]
pub struct SessionRow {
    pub id: String,
    pub workspace_id: String,
    pub state: AgentSessionState,
    pub agent_kind: String,
    pub name: Option<String>,
    pub command: CommandSpec,
    pub cwd: String,
    pub created_at_ms: i64,
    pub ended_at_ms: Option<i64>,
    pub recorder_pid: u32,
    pub outcome: Option<ExecutionOutcome>,
    pub captured_bytes: u64,
    pub output_truncated: bool,
    pub initial_cols: u16,
    pub initial_rows: u16,
    pub cast_path: String,
    pub html_path: String,
}

/// What a `SessionRow` holds.
#[verifier::ext_equal]
pub struct SessionRowView {
    pub id: Seq<char>,
    pub workspace_id: Seq<char>,
    pub state: AgentSessionState,
    pub agent_kind: Seq<char>,
    pub name: Option<Seq<char>>,
    pub command: CommandSpecView,
    pub cwd: Seq<char>,
    pub created_at_ms: i64,
    pub ended_at_ms: Option<i64>,
    pub recorder_pid: u32,
    pub outcome: Option<ExecutionOutcomeView>,
    pub captured_bytes: u64,
    pub output_truncated: bool,
    pub initial_cols: u16,
    pub initial_rows: u16,
    pub cast_path: Seq<char>,
    pub html_path: Seq<char>,
}

impl View for SessionRow {
    type V = SessionRowView;

    open spec fn view(&self) -> SessionRowView {
        SessionRowView {
            id: self.id@,
            workspace_id: self.workspace_id@,
            state: self.state,
            agent_kind: self.agent_kind@,
            name: text::maybe_text(self.name),
            command: self.command@,
            cwd: self.cwd@,
            created_at_ms: self.created_at_ms,
            ended_at_ms: self.ended_at_ms,
            recorder_pid: self.recorder_pid,
            outcome: (match self.outcome { Some(inner) => Some(inner@), None => None }),
            captured_bytes: self.captured_bytes,
            output_truncated: self.output_truncated,
            initial_cols: self.initial_cols,
            initial_rows: self.initial_rows,
            cast_path: self.cast_path@,
            html_path: self.html_path@,
        }
    }
}

/// Everything that the store keeps, each table in the order of insertion.
#[derive(Debug)]
pub struct Database {
    pub workspaces: Vec<WorkspaceRow>,
    pub executions: Vec<ExecutionRow>,
    pub sessions: Vec<SessionRow>,
    pub turns: Vec<AgentTurn>,
    pub actions: Vec<AgentAction>,
}

/// What a `Database` holds.
#[verifier::ext_equal]
pub struct DatabaseView {
    pub workspaces: Seq<WorkspaceRowView>,
    pub executions: Seq<ExecutionRowView>,
    pub sessions: Seq<SessionRowView>,
    pub turns: Seq<AgentTurnView>,
    pub actions: Seq<AgentActionView>,
}

impl View for Database {
    type V = DatabaseView;

    open spec fn view(&self) -> DatabaseView {
        DatabaseView {
            workspaces: self.workspaces@.map_values(|item: WorkspaceRow| item@),
            executions: self.executions@.map_values(|item: ExecutionRow| item@),
            sessions: self.sessions@.map_values(|item: SessionRow| item@),
            turns: self.turns@.map_values(|item: AgentTurn| item@),
            actions: self.actions@.map_values(|item: AgentAction| item@),
        }
    }
}

/// The place of the execution with this identifier.
pub open spec fn execution_place(db: DatabaseView, id: Seq<char>) -> Option<int> {
    order::position(db.executions, |row: ExecutionRowView| row.id == id)
}

/// The place of the session with this identifier.
pub open spec fn session_place(db: DatabaseView, id: Seq<char>) -> Option<int> {
    order::position(db.sessions, |row: SessionRowView| row.id == id)
}

/// The place of the workspace with this identifier.
pub open spec fn workspace_place(db: DatabaseView, id: Seq<char>) -> Option<int> {
    order::position(db.workspaces, |row: WorkspaceRowView| row.workspace.id == id)
}

/// The place of the workspace with this root.
pub open spec fn root_place(db: DatabaseView, root: Seq<char>) -> Option<int> {
    order::position(db.workspaces, |row: WorkspaceRowView| row.workspace.root == root)
}

/// The place of the workspace with this name.
pub open spec fn name_place(db: DatabaseView, name: Seq<char>) -> Option<int> {
    order::position(db.workspaces, |row: WorkspaceRowView| row.workspace.name == name)
}

/// Whether a workspace goes by `identifier`: as its identifier or as its name.
pub open spec fn goes_by(workspace: WorkspaceView, identifier: Seq<char>) -> bool {
    workspace.id == identifier || workspace.name == identifier
}

/// The place of the workspace that goes by `identifier`.
pub open spec fn known_place(db: DatabaseView, identifier: Seq<char>) -> Option<int> {
    order::position(db.workspaces, |row: WorkspaceRowView| goes_by(row.workspace, identifier))
}

/// The place of the registered workspace that goes by `identifier`.
pub open spec fn registered_place(db: DatabaseView, identifier: Seq<char>) -> Option<int> {
    order::position(
        db.workspaces,
        |row: WorkspaceRowView| row.active && goes_by(row.workspace, identifier),
    )
}

impl Database {
    /// An empty store.
    pub fn new() -> (db: Database)
        ensures
            db@ == (DatabaseView {
                workspaces: Seq::empty(),
                executions: Seq::empty(),
                sessions: Seq::empty(),
                turns: Seq::empty(),
                actions: Seq::empty(),
            }),
    {
        let db = Database {
            workspaces: Vec::new(),
            executions: Vec::new(),
            sessions: Vec::new(),
            turns: Vec::new(),
            actions: Vec::new(),
        };
        assert(db@ =~= (DatabaseView {
            workspaces: Seq::empty(),
            executions: Seq::empty(),
            sessions: Seq::empty(),
            turns: Seq::empty(),
            actions: Seq::empty(),
        }));
        db
    }

    /// The place of the execution with this identifier.
    pub fn find_execution(&self, id: &str) -> (place: Option<usize>)
        ensures
            order::place_view(place) == execution_place(self@, id@),
    {
        let ghost test = |row: ExecutionRowView| row.id == id@;
        let mut i: usize = 0;
        while i < self.executions.len()
            invariant
                i <= self.executions.len(),
                test == (|row: ExecutionRowView| row.id == id@),
                forall|k: int| 0 <= k < i ==> !test(#[trigger] self@.executions[k]),
            decreases self.executions.len() - i,
        {
            let row = &self.executions[i];
            assert(self@.executions[i as int] == row@);
            if same_text(row.id.as_str(), id) {
                proof {
                    order::position_found(self@.executions, test, i as int);
                }
                return Some(i);
            }
            i += 1;
        }
        proof {
            order::position_missing(self@.executions, test);
        }
        None
    }

    /// The place of the session with this identifier.
    pub fn find_session(&self, id: &str) -> (place: Option<usize>)
        ensures
            order::place_view(place) == session_place(self@, id@),
    {
        let ghost test = |row: SessionRowView| row.id == id@;
        let mut i: usize = 0;
        while i < self.sessions.len()
            invariant
                i <= self.sessions.len(),
                test == (|row: SessionRowView| row.id == id@),
                forall|k: int| 0 <= k < i ==> !test(#[trigger] self@.sessions[k]),
            decreases self.sessions.len() - i,
        {
            let row = &self.sessions[i];
            assert(self@.sessions[i as int] == row@);
            if same_text(row.id.as_str(), id) {
                proof {
                    order::position_found(self@.sessions, test, i as int);
                }
                return Some(i);
            }
            i += 1;
        }
        proof {
            order::position_missing(self@.sessions, test);
        }
        None
    }

    /// The place of the workspace with this identifier.
    pub fn find_workspace(&self, id: &str) -> (place: Option<usize>)
        ensures
            order::place_view(place) == workspace_place(self@, id@),
    {
        let ghost test = |row: WorkspaceRowView| row.workspace.id == id@;
        let mut i: usize = 0;
        while i < self.workspaces.len()
            invariant
                i <= self.workspaces.len(),
                test == (|row: WorkspaceRowView| row.workspace.id == id@),
                forall|k: int| 0 <= k < i ==> !test(#[trigger] self@.workspaces[k]),
            decreases self.workspaces.len() - i,
        {
            let row = &self.workspaces[i];
            assert(self@.workspaces[i as int] == row@);
            if same_text(row.workspace.id.as_str(), id) {
                proof {
                    order::position_found(self@.workspaces, test, i as int);
                }
                return Some(i);
            }
            i += 1;
        }
        proof {
            order::position_missing(self@.workspaces, test);
        }
        None
    }

    /// The place of the workspace with this root.
    pub fn find_root(&self, root: &str) -> (place: Option<usize>)
        ensures
            order::place_view(place) == root_place(self@, root@),
    {
        let ghost test = |row: WorkspaceRowView| row.workspace.root == root@;
        let mut i: usize = 0;
        while i < self.workspaces.len()
            invariant
                i <= self.workspaces.len(),
                test == (|row: WorkspaceRowView| row.workspace.root == root@),
                forall|k: int| 0 <= k < i ==> !test(#[trigger] self@.workspaces[k]),
            decreases self.workspaces.len() - i,
        {
            let row = &self.workspaces[i];
            assert(self@.workspaces[i as int] == row@);
            if same_text(row.workspace.root.as_str(), root) {
                proof {
                    order::position_found(self@.workspaces, test, i as int);
                }
                return Some(i);
            }
            i += 1;
        }
        proof {
            order::position_missing(self@.workspaces, test);
        }
        None
    }

    /// The place of the workspace with this name.
    pub fn find_name(&self, name: &str) -> (place: Option<usize>)
        ensures
            order::place_view(place) == name_place(self@, name@),
    {
        let ghost test = |row: WorkspaceRowView| row.workspace.name == name@;
        let mut i: usize = 0;
        while i < self.workspaces.len()
            invariant
                i <= self.workspaces.len(),
                test == (|row: WorkspaceRowView| row.workspace.name == name@),
                forall|k: int| 0 <= k < i ==> !test(#[trigger] self@.workspaces[k]),
            decreases self.workspaces.len() - i,
        {
            let row = &self.workspaces[i];
            assert(self@.workspaces[i as int] == row@);
            if same_text(row.workspace.name.as_str(), name) {
                proof {
                    order::position_found(self@.workspaces, test, i as int);
                }
                return Some(i);
            }
            i += 1;
        }
        proof {
            order::position_missing(self@.workspaces, test);
        }
        None
    }

    /// The place of the workspace that goes by `identifier`.
    pub fn find_known(&self, identifier: &str) -> (place: Option<usize>)
        ensures
            order::place_view(place) == known_place(self@, identifier@),
    {
        let ghost test = |row: WorkspaceRowView| goes_by(row.workspace, identifier@);
        let mut i: usize = 0;
        while i < self.workspaces.len()
            invariant
                i <= self.workspaces.len(),
                test == (|row: WorkspaceRowView| goes_by(row.workspace, identifier@)),
                forall|k: int| 0 <= k < i ==> !test(#[trigger] self@.workspaces[k]),
            decreases self.workspaces.len() - i,
        {
            let row = &self.workspaces[i];
            assert(self@.workspaces[i as int] == row@);
            if same_text(row.workspace.id.as_str(), identifier)
                || same_text(row.workspace.name.as_str(), identifier) {
                proof {
                    order::position_found(self@.workspaces, test, i as int);
                }
                return Some(i);
            }
            i += 1;
        }
        proof {
            order::position_missing(self@.workspaces, test);
        }
        None
    }

    /// The place of the registered workspace that goes by `identifier`.
    pub fn find_registered(&self, identifier: &str) -> (place: Option<usize>)
        ensures
            order::place_view(place) == registered_place(self@, identifier@),
    {
        let ghost test = |row: WorkspaceRowView| row.active && goes_by(row.workspace, identifier@);
        let mut i: usize = 0;
        while i < self.workspaces.len()
            invariant
                i <= self.workspaces.len(),
                test == (|row: WorkspaceRowView| row.active && goes_by(row.workspace, identifier@)),
                forall|k: int| 0 <= k < i ==> !test(#[trigger] self@.workspaces[k]),
            decreases self.workspaces.len() - i,
        {
            let row = &self.workspaces[i];
            assert(self@.workspaces[i as int] == row@);
            if row.active && (same_text(row.workspace.id.as_str(), identifier)
                || same_text(row.workspace.name.as_str(), identifier)) {
                proof {
                    order::position_found(self@.workspaces, test, i as int);
                }
                return Some(i);
            }
            i += 1;
        }
        proof {
            order::position_missing(self@.workspaces, test);
        }
        None
    }
}

} // verus!
