//! The records that the runtime keeps and exchanges.

use vstd::prelude::*;

use crate::codec;
use crate::codec::decode_base64;
use crate::error;
use crate::error::{Error, ErrorView};
use crate::paths;
use crate::paths::{join_path, path_starts_with};
use crate::text;
use crate::text::{chars_of, clone_maybe, clone_texts, is_blank, joined};

verus! {

/// The version of the wire protocol.
pub const PROTOCOL_VERSION: u32 = 2;

/// What an execution runs: a program with its arguments, or a shell command.
#[derive(Debug, PartialEq, Eq)]
pub enum CommandSpec {
    Argv { program: String, args: Vec<String> },
    Shell { command: String, shell: Option<String> },
}

/// What a `CommandSpec` holds.
#[verifier::ext_equal]
pub enum CommandSpecView {
    Argv { program: Seq<char>, args: Seq<Seq<char>> },
    Shell { command: Seq<char>, shell: Option<Seq<char>> },
}

impl View for CommandSpec {
    type V = CommandSpecView;

    open spec fn view(&self) -> CommandSpecView {
        match *self {
            CommandSpec::Argv { program, args } => CommandSpecView::Argv {
                program: program@,
                args: text::texts(args@),
            },
            CommandSpec::Shell { command, shell } => CommandSpecView::Shell {
                command: command@,
                shell: text::maybe_text(shell),
            },
        }
    }
}

impl Clone for CommandSpec {
    fn clone(&self) -> (copy: Self)
        ensures
            copy@ == self@,
    {
        match self {
            CommandSpec::Argv { program, args } => CommandSpec::Argv {
                program: program.clone(),
                args: clone_texts(args),
            },
            CommandSpec::Shell { command, shell } => CommandSpec::Shell {
                command: command.clone(),
                shell: clone_maybe(shell),
            },
        }
    }
}

/// Who asked for an execution.
#[derive(Debug, PartialEq, Eq)]
pub struct Initiator {
    pub kind: String,
    pub name: Option<String>,
    pub session_id: Option<String>,
}

/// What an `Initiator` holds.
#[verifier::ext_equal]
pub struct InitiatorView {
    pub kind: Seq<char>,
    pub name: Option<Seq<char>>,
    pub session_id: Option<Seq<char>>,
}

impl View for Initiator {
    type V = InitiatorView;

    open spec fn view(&self) -> InitiatorView {
        InitiatorView {
            kind: self.kind@,
            name: text::maybe_text(self.name),
            session_id: text::maybe_text(self.session_id),
        }
    }
}

impl Clone for Initiator {
    fn clone(&self) -> (copy: Self)
        ensures
            copy@ == self@,
    {
        Initiator {
            kind: self.kind.clone(),
            name: clone_maybe(&self.name),
            session_id: clone_maybe(&self.session_id),
        }
    }
}

/// One variable of the environment handed to an execution.
#[derive(Debug, PartialEq, Eq)]
pub struct EnvVar {
    pub key: String,
    pub value: String,
}

/// What an `EnvVar` holds.
#[verifier::ext_equal]
pub struct EnvVarView {
    pub key: Seq<char>,
    pub value: Seq<char>,
}

impl View for EnvVar {
    type V = EnvVarView;

    open spec fn view(&self) -> EnvVarView {
        EnvVarView {
            key: self.key@,
            value: self.value@,
        }
    }
}

impl Clone for EnvVar {
    fn clone(&self) -> (copy: Self)
        ensures
            copy@ == self@,
    {
        EnvVar {
            key: self.key.clone(),
            value: self.value.clone(),
        }
    }
}

/// Copies a list of `EnvVar` values.
pub fn clone_env_var_list(list: &Vec<EnvVar>) -> (copy: Vec<EnvVar>)
    ensures
        copy@.map_values(|item: EnvVar| item@) == list@.map_values(|item: EnvVar| item@),
{
    let mut copy: Vec<EnvVar> = Vec::new();
    let mut i: usize = 0;
    while i < list.len()
        invariant
            i <= list.len(),
            copy.len() == i,
            forall|k: int| 0 <= k < i ==> copy@[k]@ == list@[k]@,
        decreases list.len() - i,
    {
        copy.push(list[i].clone());
        i += 1;
    }
    assert(copy@.map_values(|item: EnvVar| item@) =~= list@.map_values(|item: EnvVar| item@));
    copy
}

/// Whether variables have distinct keys and stand in their order.
pub open spec fn env_ascends(env: Seq<EnvVarView>) -> bool {
    forall|i: int, j: int|
        0 <= i < j < env.len() ==> crate::order::text_above(#[trigger] env[j].key, #[trigger] env[i].key)
}

/// Whether texts ascend, so that none stands twice.
pub open spec fn texts_ascend(list: Seq<Seq<char>>) -> bool {
    forall|i: int, j: int|
        0 <= i < j < list.len() ==> crate::order::text_above(
            #[trigger] list[j],
            #[trigger] list[i],
        )
}

/// A request to run a command in a workspace. Where it is well formed, the
/// variables of `env` have distinct keys and stand in the order of their keys.
#[derive(Debug, PartialEq, Eq)]
pub struct ExecutionRequest {
    pub workspace_id: String,
    pub cwd: Option<String>,
    pub command: CommandSpec,
    pub env: Vec<EnvVar>,
    pub stdin_base64: Option<String>,
    pub initiator: Initiator,
    pub capture_limit_bytes: Option<u64>,
}

/// What an `ExecutionRequest` holds.
#[verifier::ext_equal]
pub struct ExecutionRequestView {
    pub workspace_id: Seq<char>,
    pub cwd: Option<Seq<char>>,
    pub command: CommandSpecView,
    pub env: Seq<EnvVarView>,
    pub stdin_base64: Option<Seq<char>>,
    pub initiator: InitiatorView,
    pub capture_limit_bytes: Option<u64>,
}

impl ExecutionRequestView {
    /// Whether the variables have distinct keys and stand in their order.
    pub open spec fn well_formed(self) -> bool {
        env_ascends(self.env)
    }
}

impl View for ExecutionRequest {
    type V = ExecutionRequestView;

    open spec fn view(&self) -> ExecutionRequestView {
        ExecutionRequestView {
            workspace_id: self.workspace_id@,
            cwd: text::maybe_text(self.cwd),
            command: self.command@,
            env: self.env@.map_values(|item: EnvVar| item@),
            stdin_base64: text::maybe_text(self.stdin_base64),
            initiator: self.initiator@,
            capture_limit_bytes: self.capture_limit_bytes,
        }
    }
}

impl Clone for ExecutionRequest {
    fn clone(&self) -> (copy: Self)
        ensures
            copy@ == self@,
    {
        ExecutionRequest {
            workspace_id: self.workspace_id.clone(),
            cwd: clone_maybe(&self.cwd),
            command: self.command.clone(),
            env: clone_env_var_list(&self.env),
            stdin_base64: clone_maybe(&self.stdin_base64),
            initiator: self.initiator.clone(),
            capture_limit_bytes: self.capture_limit_bytes,
        }
    }
}

/// Where an execution stands in its life.
#[derive(Debug, Clone, Copy, PartialEq, Eq, Structural)]
pub enum ExecutionState {
    Queued,
    Running,
    Finished,
    Cancelled,
    Interrupted,
}

/// How an execution ended.
#[allow(inconsistent_fields)]
#[derive(Debug, PartialEq, Eq)]
pub enum ExecutionOutcome {
    Exited { code: i32 },
    Signaled { signal: i32 },
    SpawnError { message: String },
    Cancelled { signal: Option<i32> },
    Interrupted { reason: String },
}

/// What an `ExecutionOutcome` holds.
#[allow(inconsistent_fields)]
#[verifier::ext_equal]
pub enum ExecutionOutcomeView {
    Exited { code: i32 },
    Signaled { signal: i32 },
    SpawnError { message: Seq<char> },
    Cancelled { signal: Option<i32> },
    Interrupted { reason: Seq<char> },
}

impl View for ExecutionOutcome {
    type V = ExecutionOutcomeView;

    open spec fn view(&self) -> ExecutionOutcomeView {
        match *self {
            ExecutionOutcome::Exited { code } => ExecutionOutcomeView::Exited { code },
            ExecutionOutcome::Signaled { signal } => ExecutionOutcomeView::Signaled {
                signal,
            },
            ExecutionOutcome::SpawnError { message } => ExecutionOutcomeView::SpawnError {
                message: message@,
            },
            ExecutionOutcome::Cancelled { signal } => ExecutionOutcomeView::Cancelled {
                signal,
            },
            ExecutionOutcome::Interrupted { reason } => ExecutionOutcomeView::Interrupted {
                reason: reason@,
            },
        }
    }
}

impl Clone for ExecutionOutcome {
    fn clone(&self) -> (copy: Self)
        ensures
            copy@ == self@,
    {
        match self {
            ExecutionOutcome::Exited { code } => ExecutionOutcome::Exited { code: *code },
            ExecutionOutcome::Signaled { signal } => ExecutionOutcome::Signaled { signal: *signal },
            ExecutionOutcome::SpawnError { message } => ExecutionOutcome::SpawnError {
                message: message.clone(),
            },
            ExecutionOutcome::Cancelled { signal } => ExecutionOutcome::Cancelled {
                signal: *signal,
            },
            ExecutionOutcome::Interrupted { reason } => ExecutionOutcome::Interrupted {
                reason: reason.clone(),
            },
        }
    }
}

/// One execution as clients see it.
#[derive(Debug, PartialEq, Eq)]
pub struct Execution {
    pub id: String,
    pub workspace_id: String,
    pub state: ExecutionState,
    pub command: CommandSpec,
    pub command_display: String,
    pub cwd: String,
    pub env_keys: Vec<String>,
    pub initiator: Initiator,
    pub created_at_ms: i64,
    pub started_at_ms: Option<i64>,
    pub ended_at_ms: Option<i64>,
    pub duration_ms: Option<u64>,
    pub pid: Option<u32>,
    pub pgid: Option<i32>,
    pub outcome: Option<ExecutionOutcome>,
    pub captured_bytes: u64,
    pub output_truncated: bool,
    pub last_seq: u64,
}

/// What an `Execution` holds.
#[verifier::ext_equal]
pub struct ExecutionView {
    pub id: Seq<char>,
    pub workspace_id: Seq<char>,
    pub state: ExecutionState,
    pub command: CommandSpecView,
    pub command_display: Seq<char>,
    pub cwd: Seq<char>,
    pub env_keys: Seq<Seq<char>>,
    pub initiator: InitiatorView,
    pub created_at_ms: i64,
    pub started_at_ms: Option<i64>,
    pub ended_at_ms: Option<i64>,
    pub duration_ms: Option<u64>,
    pub pid: Option<u32>,
    pub pgid: Option<i32>,
    pub outcome: Option<ExecutionOutcomeView>,
    pub captured_bytes: u64,
    pub output_truncated: bool,
    pub last_seq: u64,
}

impl View for Execution {
    type V = ExecutionView;

    open spec fn view(&self) -> ExecutionView {
        ExecutionView {
            id: self.id@,
            workspace_id: self.workspace_id@,
            state: self.state,
            command: self.command@,
            command_display: self.command_display@,
            cwd: self.cwd@,
            env_keys: text::texts(self.env_keys@),
            initiator: self.initiator@,
            created_at_ms: self.created_at_ms,
            started_at_ms: self.started_at_ms,
            ended_at_ms: self.ended_at_ms,
            duration_ms: self.duration_ms,
            pid: self.pid,
            pgid: self.pgid,
            outcome: (match self.outcome { Some(inner) => Some(inner@), None => None }),
            captured_bytes: self.captured_bytes,
            output_truncated: self.output_truncated,
            last_seq: self.last_seq,
        }
    }
}

impl Clone for Execution {
    fn clone(&self) -> (copy: Self)
        ensures
            copy@ == self@,
    {
        Execution {
            id: self.id.clone(),
            workspace_id: self.workspace_id.clone(),
            state: self.state,
            command: self.command.clone(),
            command_display: self.command_display.clone(),
            cwd: self.cwd.clone(),
            env_keys: clone_texts(&self.env_keys),
            initiator: self.initiator.clone(),
            created_at_ms: self.created_at_ms,
            started_at_ms: self.started_at_ms,
            ended_at_ms: self.ended_at_ms,
            duration_ms: self.duration_ms,
            pid: self.pid,
            pgid: self.pgid,
            outcome: (match &self.outcome { Some(inner) => Some(inner.clone()), None => None }),
            captured_bytes: self.captured_bytes,
            output_truncated: self.output_truncated,
            last_seq: self.last_seq,
        }
    }
}

/// Copies a list of `Execution` values.
pub fn clone_execution_list(list: &Vec<Execution>) -> (copy: Vec<Execution>)
    ensures
        copy@.map_values(|item: Execution| item@) == list@.map_values(|item: Execution| item@),
{
    let mut copy: Vec<Execution> = Vec::new();
    let mut i: usize = 0;
    while i < list.len()
        invariant
            i <= list.len(),
            copy.len() == i,
            forall|k: int| 0 <= k < i ==> copy@[k]@ == list@[k]@,
        decreases list.len() - i,
    {
        copy.push(list[i].clone());
        i += 1;
    }
    assert(copy@.map_values(|item: Execution| item@) =~= list@.map_values(|item: Execution| item@));
    copy
}

/// Where the recording of an agent session stands.
#[derive(Debug, Clone, Copy, PartialEq, Eq, Structural)]
pub enum AgentSessionState {
    Recording,
    Finished,
    Interrupted,
}

/// One recorded agent session as clients see it.
#[derive(Debug, PartialEq, Eq)]
pub struct AgentSession {
    pub id: String,
    pub workspace_id: String,
    pub state: AgentSessionState,
    pub agent_kind: String,
    pub name: Option<String>,
    pub command: CommandSpec,
    pub command_display: String,
    pub cwd: String,
    pub created_at_ms: i64,
    pub ended_at_ms: Option<i64>,
    pub duration_ms: Option<u64>,
    pub recorder_pid: u32,
    pub outcome: Option<ExecutionOutcome>,
    pub captured_bytes: u64,
    pub output_truncated: bool,
    pub initial_cols: u16,
    pub initial_rows: u16,
    pub cast_path: String,
    pub html_path: String,
}

/// What an `AgentSession` holds.
#[verifier::ext_equal]
pub struct AgentSessionView {
    pub id: Seq<char>,
    pub workspace_id: Seq<char>,
    pub state: AgentSessionState,
    pub agent_kind: Seq<char>,
    pub name: Option<Seq<char>>,
    pub command: CommandSpecView,
    pub command_display: Seq<char>,
    pub cwd: Seq<char>,
    pub created_at_ms: i64,
    pub ended_at_ms: Option<i64>,
    pub duration_ms: Option<u64>,
    pub recorder_pid: u32,
    pub outcome: Option<ExecutionOutcomeView>,
    pub captured_bytes: u64,
    pub output_truncated: bool,
    pub initial_cols: u16,
    pub initial_rows: u16,
    pub cast_path: Seq<char>,
    pub html_path: Seq<char>,
}

impl View for AgentSession {
    type V = AgentSessionView;

    open spec fn view(&self) -> AgentSessionView {
        AgentSessionView {
            id: self.id@,
            workspace_id: self.workspace_id@,
            state: self.state,
            agent_kind: self.agent_kind@,
            name: text::maybe_text(self.name),
            command: self.command@,
            command_display: self.command_display@,
            cwd: self.cwd@,
            created_at_ms: self.created_at_ms,
            ended_at_ms: self.ended_at_ms,
            duration_ms: self.duration_ms,
            recorder_pid: self.recorder_pid,
            outcome: (match self.outcome { Some(inner) => Some(inner@), None => None }),
            captured_bytes: self.captured_bytes,
            output_truncated: self.output_truncated,
            initial_cols: self.initial_cols,
            initial_rows: self.initial_rows,
            cast_path: self.cast_path@,
            html_path: self.html_path@,
        }
    }
}

impl Clone for AgentSession {
    fn clone(&self) -> (copy: Self)
        ensures
            copy@ == self@,
    {
        AgentSession {
            id: self.id.clone(),
            workspace_id: self.workspace_id.clone(),
            state: self.state,
            agent_kind: self.agent_kind.clone(),
            name: clone_maybe(&self.name),
            command: self.command.clone(),
            command_display: self.command_display.clone(),
            cwd: self.cwd.clone(),
            created_at_ms: self.created_at_ms,
            ended_at_ms: self.ended_at_ms,
            duration_ms: self.duration_ms,
            recorder_pid: self.recorder_pid,
            outcome: (match &self.outcome { Some(inner) => Some(inner.clone()), None => None }),
            captured_bytes: self.captured_bytes,
            output_truncated: self.output_truncated,
            initial_cols: self.initial_cols,
            initial_rows: self.initial_rows,
            cast_path: self.cast_path.clone(),
            html_path: self.html_path.clone(),
        }
    }
}

/// Copies a list of `AgentSession` values.
pub fn clone_agent_session_list(list: &Vec<AgentSession>) -> (copy: Vec<AgentSession>)
    ensures
        copy@.map_values(|item: AgentSession| item@) == list@.map_values(|item: AgentSession| item@),
{
    let mut copy: Vec<AgentSession> = Vec::new();
    let mut i: usize = 0;
    while i < list.len()
        invariant
            i <= list.len(),
            copy.len() == i,
            forall|k: int| 0 <= k < i ==> copy@[k]@ == list@[k]@,
        decreases list.len() - i,
    {
        copy.push(list[i].clone());
        i += 1;
    }
    assert(copy@.map_values(|item: AgentSession| item@) =~= list@.map_values(|item: AgentSession| item@));
    copy
}

/// A request to begin recording an agent session.
#[derive(Debug, PartialEq, Eq)]
pub struct AgentSessionRequest {
    pub id: String,
    pub workspace_id: String,
    pub agent_kind: String,
    pub name: Option<String>,
    pub command: CommandSpec,
    pub cwd: String,
    pub recorder_pid: u32,
    pub initial_cols: u16,
    pub initial_rows: u16,
    pub cast_path: String,
    pub html_path: String,
}

/// What an `AgentSessionRequest` holds.
#[verifier::ext_equal]
pub struct AgentSessionRequestView {
    pub id: Seq<char>,
    pub workspace_id: Seq<char>,
    pub agent_kind: Seq<char>,
    pub name: Option<Seq<char>>,
    pub command: CommandSpecView,
    pub cwd: Seq<char>,
    pub recorder_pid: u32,
    pub initial_cols: u16,
    pub initial_rows: u16,
    pub cast_path: Seq<char>,
    pub html_path: Seq<char>,
}

impl View for AgentSessionRequest {
    type V = AgentSessionRequestView;

    open spec fn view(&self) -> AgentSessionRequestView {
        AgentSessionRequestView {
            id: self.id@,
            workspace_id: self.workspace_id@,
            agent_kind: self.agent_kind@,
            name: text::maybe_text(self.name),
            command: self.command@,
            cwd: self.cwd@,
            recorder_pid: self.recorder_pid,
            initial_cols: self.initial_cols,
            initial_rows: self.initial_rows,
            cast_path: self.cast_path@,
            html_path: self.html_path@,
        }
    }
}

impl Clone for AgentSessionRequest {
    fn clone(&self) -> (copy: Self)
        ensures
            copy@ == self@,
    {
        AgentSessionRequest {
            id: self.id.clone(),
            workspace_id: self.workspace_id.clone(),
            agent_kind: self.agent_kind.clone(),
            name: clone_maybe(&self.name),
            command: self.command.clone(),
            cwd: self.cwd.clone(),
            recorder_pid: self.recorder_pid,
            initial_cols: self.initial_cols,
            initial_rows: self.initial_rows,
            cast_path: self.cast_path.clone(),
            html_path: self.html_path.clone(),
        }
    }
}

/// How a recording ended.
#[derive(Debug, PartialEq, Eq)]
pub struct AgentSessionFinish {
    pub state: AgentSessionState,
    pub outcome: ExecutionOutcome,
    pub captured_bytes: u64,
    pub output_truncated: bool,
}

/// What an `AgentSessionFinish` holds.
#[verifier::ext_equal]
pub struct AgentSessionFinishView {
    pub state: AgentSessionState,
    pub outcome: ExecutionOutcomeView,
    pub captured_bytes: u64,
    pub output_truncated: bool,
}

impl View for AgentSessionFinish {
    type V = AgentSessionFinishView;

    open spec fn view(&self) -> AgentSessionFinishView {
        AgentSessionFinishView {
            state: self.state,
            outcome: self.outcome@,
            captured_bytes: self.captured_bytes,
            output_truncated: self.output_truncated,
        }
    }
}

impl Clone for AgentSessionFinish {
    fn clone(&self) -> (copy: Self)
        ensures
            copy@ == self@,
    {
        AgentSessionFinish {
            state: self.state,
            outcome: self.outcome.clone(),
            captured_bytes: self.captured_bytes,
            output_truncated: self.output_truncated,
        }
    }
}

/// Where one turn of an agent stands.
#[derive(Debug, Clone, Copy, PartialEq, Eq, Structural)]
pub enum AgentTurnState {
    Active,
    Completed,
    Failed,
    Interrupted,
}

/// One turn of an agent: a prompt and what came of it.
#[derive(Debug, PartialEq, Eq)]
pub struct AgentTurn {
    pub id: String,
    pub session_id: String,
    pub provider: String,
    pub provider_session_id: String,
    pub provider_turn_id: Option<String>,
    pub state: AgentTurnState,
    pub prompt: String,
    pub created_at_ms: i64,
    pub ended_at_ms: Option<i64>,
    pub last_assistant_message: Option<String>,
}

/// What an `AgentTurn` holds.
#[verifier::ext_equal]
pub struct AgentTurnView {
    pub id: Seq<char>,
    pub session_id: Seq<char>,
    pub provider: Seq<char>,
    pub provider_session_id: Seq<char>,
    pub provider_turn_id: Option<Seq<char>>,
    pub state: AgentTurnState,
    pub prompt: Seq<char>,
    pub created_at_ms: i64,
    pub ended_at_ms: Option<i64>,
    pub last_assistant_message: Option<Seq<char>>,
}

impl View for AgentTurn {
    type V = AgentTurnView;

    open spec fn view(&self) -> AgentTurnView {
        AgentTurnView {
            id: self.id@,
            session_id: self.session_id@,
            provider: self.provider@,
            provider_session_id: self.provider_session_id@,
            provider_turn_id: text::maybe_text(self.provider_turn_id),
            state: self.state,
            prompt: self.prompt@,
            created_at_ms: self.created_at_ms,
            ended_at_ms: self.ended_at_ms,
            last_assistant_message: text::maybe_text(self.last_assistant_message),
        }
    }
}

impl Clone for AgentTurn {
    fn clone(&self) -> (copy: Self)
        ensures
            copy@ == self@,
    {
        AgentTurn {
            id: self.id.clone(),
            session_id: self.session_id.clone(),
            provider: self.provider.clone(),
            provider_session_id: self.provider_session_id.clone(),
            provider_turn_id: clone_maybe(&self.provider_turn_id),
            state: self.state,
            prompt: self.prompt.clone(),
            created_at_ms: self.created_at_ms,
            ended_at_ms: self.ended_at_ms,
            last_assistant_message: clone_maybe(&self.last_assistant_message),
        }
    }
}

/// Copies a list of `AgentTurn` values.
pub fn clone_agent_turn_list(list: &Vec<AgentTurn>) -> (copy: Vec<AgentTurn>)
    ensures
        copy@.map_values(|item: AgentTurn| item@) == list@.map_values(|item: AgentTurn| item@),
{
    let mut copy: Vec<AgentTurn> = Vec::new();
    let mut i: usize = 0;
    while i < list.len()
        invariant
            i <= list.len(),
            copy.len() == i,
            forall|k: int| 0 <= k < i ==> copy@[k]@ == list@[k]@,
        decreases list.len() - i,
    {
        copy.push(list[i].clone());
        i += 1;
    }
    assert(copy@.map_values(|item: AgentTurn| item@) =~= list@.map_values(|item: AgentTurn| item@));
    copy
}

/// Where one tool call of an agent stands.
#[derive(Debug, Clone, Copy, PartialEq, Eq, Structural)]
pub enum AgentActionState {
    Running,
    Completed,
    Failed,
}

/// One tool call of an agent, within a turn.
#[derive(Debug, PartialEq, Eq)]
pub struct AgentAction {
    pub id: String,
    pub turn_id: String,
    pub provider_action_id: String,
    pub tool_name: String,
    pub state: AgentActionState,
    pub execution_id: Option<String>,
    pub created_at_ms: i64,
    pub ended_at_ms: Option<i64>,
}

/// What an `AgentAction` holds.
#[verifier::ext_equal]
pub struct AgentActionView {
    pub id: Seq<char>,
    pub turn_id: Seq<char>,
    pub provider_action_id: Seq<char>,
    pub tool_name: Seq<char>,
    pub state: AgentActionState,
    pub execution_id: Option<Seq<char>>,
    pub created_at_ms: i64,
    pub ended_at_ms: Option<i64>,
}

impl View for AgentAction {
    type V = AgentActionView;

    open spec fn view(&self) -> AgentActionView {
        AgentActionView {
            id: self.id@,
            turn_id: self.turn_id@,
            provider_action_id: self.provider_action_id@,
            tool_name: self.tool_name@,
            state: self.state,
            execution_id: text::maybe_text(self.execution_id),
            created_at_ms: self.created_at_ms,
            ended_at_ms: self.ended_at_ms,
        }
    }
}

impl Clone for AgentAction {
    fn clone(&self) -> (copy: Self)
        ensures
            copy@ == self@,
    {
        AgentAction {
            id: self.id.clone(),
            turn_id: self.turn_id.clone(),
            provider_action_id: self.provider_action_id.clone(),
            tool_name: self.tool_name.clone(),
            state: self.state,
            execution_id: clone_maybe(&self.execution_id),
            created_at_ms: self.created_at_ms,
            ended_at_ms: self.ended_at_ms,
        }
    }
}

/// Copies a list of `AgentAction` values.
pub fn clone_agent_action_list(list: &Vec<AgentAction>) -> (copy: Vec<AgentAction>)
    ensures
        copy@.map_values(|item: AgentAction| item@) == list@.map_values(|item: AgentAction| item@),
{
    let mut copy: Vec<AgentAction> = Vec::new();
    let mut i: usize = 0;
    while i < list.len()
        invariant
            i <= list.len(),
            copy.len() == i,
            forall|k: int| 0 <= k < i ==> copy@[k]@ == list@[k]@,
        decreases list.len() - i,
    {
        copy.push(list[i].clone());
        i += 1;
    }
    assert(copy@.map_values(|item: AgentAction| item@) =~= list@.map_values(|item: AgentAction| item@));
    copy
}

/// What an agent reported of itself.
#[derive(Debug, PartialEq, Eq)]
pub enum AgentEvent {
    PromptSubmitted { prompt: String },
    ToolStarted { action_id: String, tool_name: String },
    ToolFinished {
        action_id: String,
        tool_name: String,
        failed: bool,
        execution_id: Option<String>,
    },
    TurnFinished { failed: bool, last_assistant_message: Option<String> },
}

/// What an `AgentEvent` holds.
#[verifier::ext_equal]
pub enum AgentEventView {
    PromptSubmitted { prompt: Seq<char> },
    ToolStarted { action_id: Seq<char>, tool_name: Seq<char> },
    ToolFinished {
        action_id: Seq<char>,
        tool_name: Seq<char>,
        failed: bool,
        execution_id: Option<Seq<char>>,
    },
    TurnFinished { failed: bool, last_assistant_message: Option<Seq<char>> },
}

impl View for AgentEvent {
    type V = AgentEventView;

    open spec fn view(&self) -> AgentEventView {
        match *self {
            AgentEvent::PromptSubmitted { prompt } => AgentEventView::PromptSubmitted {
                prompt: prompt@,
            },
            AgentEvent::ToolStarted { action_id, tool_name } => AgentEventView::ToolStarted {
                action_id: action_id@,
                tool_name: tool_name@,
            },
            AgentEvent::ToolFinished {
                action_id,
                tool_name,
                failed,
                execution_id,
            } => AgentEventView::ToolFinished {
                action_id: action_id@,
                tool_name: tool_name@,
                failed,
                execution_id: text::maybe_text(execution_id),
            },
            AgentEvent::TurnFinished {
                failed,
                last_assistant_message,
            } => AgentEventView::TurnFinished {
                failed,
                last_assistant_message: text::maybe_text(last_assistant_message),
            },
        }
    }
}

impl Clone for AgentEvent {
    fn clone(&self) -> (copy: Self)
        ensures
            copy@ == self@,
    {
        match self {
            AgentEvent::PromptSubmitted { prompt } => AgentEvent::PromptSubmitted {
                prompt: prompt.clone(),
            },
            AgentEvent::ToolStarted { action_id, tool_name } => AgentEvent::ToolStarted {
                action_id: action_id.clone(),
                tool_name: tool_name.clone(),
            },
            AgentEvent::ToolFinished {
                action_id,
                tool_name,
                failed,
                execution_id,
            } => AgentEvent::ToolFinished {
                action_id: action_id.clone(),
                tool_name: tool_name.clone(),
                failed: *failed,
                execution_id: clone_maybe(execution_id),
            },
            AgentEvent::TurnFinished {
                failed,
                last_assistant_message,
            } => AgentEvent::TurnFinished {
                failed: *failed,
                last_assistant_message: clone_maybe(last_assistant_message),
            },
        }
    }
}

/// An agent event, addressed to a session and a turn.
#[derive(Debug, PartialEq, Eq)]
pub struct AgentEventRequest {
    pub session_id: String,
    pub provider: String,
    pub provider_session_id: String,
    pub provider_turn_id: Option<String>,
    pub event: AgentEvent,
}

/// What an `AgentEventRequest` holds.
#[verifier::ext_equal]
pub struct AgentEventRequestView {
    pub session_id: Seq<char>,
    pub provider: Seq<char>,
    pub provider_session_id: Seq<char>,
    pub provider_turn_id: Option<Seq<char>>,
    pub event: AgentEventView,
}

impl View for AgentEventRequest {
    type V = AgentEventRequestView;

    open spec fn view(&self) -> AgentEventRequestView {
        AgentEventRequestView {
            session_id: self.session_id@,
            provider: self.provider@,
            provider_session_id: self.provider_session_id@,
            provider_turn_id: text::maybe_text(self.provider_turn_id),
            event: self.event@,
        }
    }
}

impl Clone for AgentEventRequest {
    fn clone(&self) -> (copy: Self)
        ensures
            copy@ == self@,
    {
        AgentEventRequest {
            session_id: self.session_id.clone(),
            provider: self.provider.clone(),
            provider_session_id: self.provider_session_id.clone(),
            provider_turn_id: clone_maybe(&self.provider_turn_id),
            event: self.event.clone(),
        }
    }
}

/// A session with what was recorded under it.
#[derive(Debug, PartialEq, Eq)]
pub struct AgentSessionDetail {
    pub session: AgentSession,
    pub executions: Vec<Execution>,
    pub turns: Vec<AgentTurn>,
    pub actions: Vec<AgentAction>,
}

/// What an `AgentSessionDetail` holds.
#[verifier::ext_equal]
pub struct AgentSessionDetailView {
    pub session: AgentSessionView,
    pub executions: Seq<ExecutionView>,
    pub turns: Seq<AgentTurnView>,
    pub actions: Seq<AgentActionView>,
}

impl View for AgentSessionDetail {
    type V = AgentSessionDetailView;

    open spec fn view(&self) -> AgentSessionDetailView {
        AgentSessionDetailView {
            session: self.session@,
            executions: self.executions@.map_values(|item: Execution| item@),
            turns: self.turns@.map_values(|item: AgentTurn| item@),
            actions: self.actions@.map_values(|item: AgentAction| item@),
        }
    }
}

impl Clone for AgentSessionDetail {
    fn clone(&self) -> (copy: Self)
        ensures
            copy@ == self@,
    {
        AgentSessionDetail {
            session: self.session.clone(),
            executions: clone_execution_list(&self.executions),
            turns: clone_agent_turn_list(&self.turns),
            actions: clone_agent_action_list(&self.actions),
        }
    }
}

/// How many executions stand in each class.
#[derive(Debug, Clone, Copy, PartialEq, Eq, Structural)]
pub struct ExecutionStatusCounts {
    pub queued: u64,
    pub running: u64,
    pub exited_zero: u64,
    pub exited_nonzero: u64,
    pub signaled: u64,
    pub spawn_error: u64,
    pub cancelled: u64,
    pub interrupted: u64,
    pub unknown_terminal: u64,
}

/// How many executions one initiator kind asked for.
#[derive(Debug, PartialEq, Eq)]
pub struct InitiatorStats {
    pub kind: String,
    pub count: u64,
}

/// What an `InitiatorStats` holds.
#[verifier::ext_equal]
pub struct InitiatorStatsView {
    pub kind: Seq<char>,
    pub count: u64,
}

impl View for InitiatorStats {
    type V = InitiatorStatsView;

    open spec fn view(&self) -> InitiatorStatsView {
        InitiatorStatsView {
            kind: self.kind@,
            count: self.count,
        }
    }
}

impl Clone for InitiatorStats {
    fn clone(&self) -> (copy: Self)
        ensures
            copy@ == self@,
    {
        InitiatorStats {
            kind: self.kind.clone(),
            count: self.count,
        }
    }
}

/// Copies a list of `InitiatorStats` values.
pub fn clone_initiator_stats_list(list: &Vec<InitiatorStats>) -> (copy: Vec<InitiatorStats>)
    ensures
        copy@.map_values(|item: InitiatorStats| item@) == list@.map_values(|item: InitiatorStats| item@),
{
    let mut copy: Vec<InitiatorStats> = Vec::new();
    let mut i: usize = 0;
    while i < list.len()
        invariant
            i <= list.len(),
            copy.len() == i,
            forall|k: int| 0 <= k < i ==> copy@[k]@ == list@[k]@,
        decreases list.len() - i,
    {
        copy.push(list[i].clone());
        i += 1;
    }
    assert(copy@.map_values(|item: InitiatorStats| item@) =~= list@.map_values(|item: InitiatorStats| item@));
    copy
}

/// A registered project directory.
#[derive(Debug, PartialEq, Eq)]
pub struct Workspace {
    pub id: String,
    pub name: String,
    pub root: String,
    pub created_at_ms: i64,
}

/// What a `Workspace` holds.
#[verifier::ext_equal]
pub struct WorkspaceView {
    pub id: Seq<char>,
    pub name: Seq<char>,
    pub root: Seq<char>,
    pub created_at_ms: i64,
}

impl View for Workspace {
    type V = WorkspaceView;

    open spec fn view(&self) -> WorkspaceView {
        WorkspaceView {
            id: self.id@,
            name: self.name@,
            root: self.root@,
            created_at_ms: self.created_at_ms,
        }
    }
}

impl Clone for Workspace {
    fn clone(&self) -> (copy: Self)
        ensures
            copy@ == self@,
    {
        Workspace {
            id: self.id.clone(),
            name: self.name.clone(),
            root: self.root.clone(),
            created_at_ms: self.created_at_ms,
        }
    }
}

/// Copies a list of `Workspace` values.
pub fn clone_workspace_list(list: &Vec<Workspace>) -> (copy: Vec<Workspace>)
    ensures
        copy@.map_values(|item: Workspace| item@) == list@.map_values(|item: Workspace| item@),
{
    let mut copy: Vec<Workspace> = Vec::new();
    let mut i: usize = 0;
    while i < list.len()
        invariant
            i <= list.len(),
            copy.len() == i,
            forall|k: int| 0 <= k < i ==> copy@[k]@ == list@[k]@,
        decreases list.len() - i,
    {
        copy.push(list[i].clone());
        i += 1;
    }
    assert(copy@.map_values(|item: Workspace| item@) =~= list@.map_values(|item: Workspace| item@));
    copy
}

/// Statistics of the executions of one workspace in a window of time.
#[derive(Debug, PartialEq, Eq)]
pub struct ExecutionStats {
    pub workspace: Workspace,
    pub since_ms: i64,
    pub until_ms: i64,
    pub total: u64,
    pub status: ExecutionStatusCounts,
    pub by_initiator: Vec<InitiatorStats>,
    pub captured_bytes: u64,
    pub truncated_executions: u64,
    pub duration_samples: u64,
    pub duration_p50_ms: Option<u64>,
    pub duration_p95_ms: Option<u64>,
}

/// What an `ExecutionStats` holds.
#[verifier::ext_equal]
pub struct ExecutionStatsView {
    pub workspace: WorkspaceView,
    pub since_ms: i64,
    pub until_ms: i64,
    pub total: u64,
    pub status: ExecutionStatusCounts,
    pub by_initiator: Seq<InitiatorStatsView>,
    pub captured_bytes: u64,
    pub truncated_executions: u64,
    pub duration_samples: u64,
    pub duration_p50_ms: Option<u64>,
    pub duration_p95_ms: Option<u64>,
}

impl View for ExecutionStats {
    type V = ExecutionStatsView;

    open spec fn view(&self) -> ExecutionStatsView {
        ExecutionStatsView {
            workspace: self.workspace@,
            since_ms: self.since_ms,
            until_ms: self.until_ms,
            total: self.total,
            status: self.status,
            by_initiator: self.by_initiator@.map_values(|item: InitiatorStats| item@),
            captured_bytes: self.captured_bytes,
            truncated_executions: self.truncated_executions,
            duration_samples: self.duration_samples,
            duration_p50_ms: self.duration_p50_ms,
            duration_p95_ms: self.duration_p95_ms,
        }
    }
}

impl Clone for ExecutionStats {
    fn clone(&self) -> (copy: Self)
        ensures
            copy@ == self@,
    {
        ExecutionStats {
            workspace: self.workspace.clone(),
            since_ms: self.since_ms,
            until_ms: self.until_ms,
            total: self.total,
            status: self.status,
            by_initiator: clone_initiator_stats_list(&self.by_initiator),
            captured_bytes: self.captured_bytes,
            truncated_executions: self.truncated_executions,
            duration_samples: self.duration_samples,
            duration_p50_ms: self.duration_p50_ms,
            duration_p95_ms: self.duration_p95_ms,
        }
    }
}

/// One of the two output streams of a process.
#[derive(Debug, Clone, Copy, PartialEq, Eq, Structural)]
pub enum OutputStream {
    Stdout,
    Stderr,
}

/// What happened in one event of an execution.
#[derive(Debug, PartialEq, Eq)]
pub enum ExecutionEventPayload {
    Started { pid: u32, pgid: i32 },
    Output { stream: OutputStream, data_base64: String },
    CaptureTruncated { limit_bytes: u64 },
    Finished { outcome: ExecutionOutcome },
}

/// What an `ExecutionEventPayload` holds.
#[verifier::ext_equal]
pub enum ExecutionEventPayloadView {
    Started { pid: u32, pgid: i32 },
    Output { stream: OutputStream, data_base64: Seq<char> },
    CaptureTruncated { limit_bytes: u64 },
    Finished { outcome: ExecutionOutcomeView },
}

impl View for ExecutionEventPayload {
    type V = ExecutionEventPayloadView;

    open spec fn view(&self) -> ExecutionEventPayloadView {
        match *self {
            ExecutionEventPayload::Started { pid, pgid } => ExecutionEventPayloadView::Started {
                pid,
                pgid,
            },
            ExecutionEventPayload::Output {
                stream,
                data_base64,
            } => ExecutionEventPayloadView::Output {
                stream,
                data_base64: data_base64@,
            },
            ExecutionEventPayload::CaptureTruncated {
                limit_bytes,
            } => ExecutionEventPayloadView::CaptureTruncated {
                limit_bytes,
            },
            ExecutionEventPayload::Finished { outcome } => ExecutionEventPayloadView::Finished {
                outcome: outcome@,
            },
        }
    }
}

impl Clone for ExecutionEventPayload {
    fn clone(&self) -> (copy: Self)
        ensures
            copy@ == self@,
    {
        match self {
            ExecutionEventPayload::Started { pid, pgid } => ExecutionEventPayload::Started {
                pid: *pid,
                pgid: *pgid,
            },
            ExecutionEventPayload::Output { stream, data_base64 } => ExecutionEventPayload::Output {
                stream: *stream,
                data_base64: data_base64.clone(),
            },
            ExecutionEventPayload::CaptureTruncated {
                limit_bytes,
            } => ExecutionEventPayload::CaptureTruncated {
                limit_bytes: *limit_bytes,
            },
            ExecutionEventPayload::Finished { outcome } => ExecutionEventPayload::Finished {
                outcome: outcome.clone(),
            },
        }
    }
}

/// One event of an execution. The events of an execution are numbered from
/// one without gaps.
#[derive(Debug, PartialEq, Eq)]
pub struct ExecutionEvent {
    pub execution_id: String,
    pub seq: u64,
    pub timestamp_ms: i64,
    pub payload: ExecutionEventPayload,
}

/// What an `ExecutionEvent` holds.
#[verifier::ext_equal]
pub struct ExecutionEventView {
    pub execution_id: Seq<char>,
    pub seq: u64,
    pub timestamp_ms: i64,
    pub payload: ExecutionEventPayloadView,
}

impl View for ExecutionEvent {
    type V = ExecutionEventView;

    open spec fn view(&self) -> ExecutionEventView {
        ExecutionEventView {
            execution_id: self.execution_id@,
            seq: self.seq,
            timestamp_ms: self.timestamp_ms,
            payload: self.payload@,
        }
    }
}

impl Clone for ExecutionEvent {
    fn clone(&self) -> (copy: Self)
        ensures
            copy@ == self@,
    {
        ExecutionEvent {
            execution_id: self.execution_id.clone(),
            seq: self.seq,
            timestamp_ms: self.timestamp_ms,
            payload: self.payload.clone(),
        }
    }
}

/// Copies a list of `ExecutionEvent` values.
pub fn clone_execution_event_list(list: &Vec<ExecutionEvent>) -> (copy: Vec<ExecutionEvent>)
    ensures
        copy@.map_values(|item: ExecutionEvent| item@) == list@.map_values(|item: ExecutionEvent| item@),
{
    let mut copy: Vec<ExecutionEvent> = Vec::new();
    let mut i: usize = 0;
    while i < list.len()
        invariant
            i <= list.len(),
            copy.len() == i,
            forall|k: int| 0 <= k < i ==> copy@[k]@ == list@[k]@,
        decreases list.len() - i,
    {
        copy.push(list[i].clone());
        i += 1;
    }
    assert(copy@.map_values(|item: ExecutionEvent| item@) =~= list@.map_values(|item: ExecutionEvent| item@));
    copy
}

/// A page of events.
#[derive(Debug, PartialEq, Eq)]
pub struct ReadOutputResponse {
    pub execution: Execution,
    pub events: Vec<ExecutionEvent>,
    pub next_seq: u64,
    pub has_more: bool,
}

/// What a `ReadOutputResponse` holds.
#[verifier::ext_equal]
pub struct ReadOutputResponseView {
    pub execution: ExecutionView,
    pub events: Seq<ExecutionEventView>,
    pub next_seq: u64,
    pub has_more: bool,
}

impl View for ReadOutputResponse {
    type V = ReadOutputResponseView;

    open spec fn view(&self) -> ReadOutputResponseView {
        ReadOutputResponseView {
            execution: self.execution@,
            events: self.events@.map_values(|item: ExecutionEvent| item@),
            next_seq: self.next_seq,
            has_more: self.has_more,
        }
    }
}

impl Clone for ReadOutputResponse {
    fn clone(&self) -> (copy: Self)
        ensures
            copy@ == self@,
    {
        ReadOutputResponse {
            execution: self.execution.clone(),
            events: clone_execution_event_list(&self.events),
            next_seq: self.next_seq,
            has_more: self.has_more,
        }
    }
}

/// A page of events, and whether the wait for the end timed out.
#[derive(Debug, PartialEq, Eq)]
pub struct WaitResponse {
    pub execution: Execution,
    pub events: Vec<ExecutionEvent>,
    pub next_seq: u64,
    pub has_more: bool,
    pub timed_out: bool,
}

/// What a `WaitResponse` holds.
#[verifier::ext_equal]
pub struct WaitResponseView {
    pub execution: ExecutionView,
    pub events: Seq<ExecutionEventView>,
    pub next_seq: u64,
    pub has_more: bool,
    pub timed_out: bool,
}

impl View for WaitResponse {
    type V = WaitResponseView;

    open spec fn view(&self) -> WaitResponseView {
        WaitResponseView {
            execution: self.execution@,
            events: self.events@.map_values(|item: ExecutionEvent| item@),
            next_seq: self.next_seq,
            has_more: self.has_more,
            timed_out: self.timed_out,
        }
    }
}

impl Clone for WaitResponse {
    fn clone(&self) -> (copy: Self)
        ensures
            copy@ == self@,
    {
        WaitResponse {
            execution: self.execution.clone(),
            events: clone_execution_event_list(&self.events),
            next_seq: self.next_seq,
            has_more: self.has_more,
            timed_out: self.timed_out,
        }
    }
}

/// What the daemon says of itself.
#[derive(Debug, PartialEq, Eq)]
pub struct Health {
    pub protocol_version: u32,
    pub daemon_pid: u32,
    pub database_path: String,
    pub socket_path: String,
    pub server_version: Option<String>,
    pub capabilities: Vec<String>,
    pub active_executions: Option<u64>,
    pub active_sessions: Option<u64>,
}

/// What a `Health` holds.
#[verifier::ext_equal]
pub struct HealthView {
    pub protocol_version: u32,
    pub daemon_pid: u32,
    pub database_path: Seq<char>,
    pub socket_path: Seq<char>,
    pub server_version: Option<Seq<char>>,
    pub capabilities: Seq<Seq<char>>,
    pub active_executions: Option<u64>,
    pub active_sessions: Option<u64>,
}

impl View for Health {
    type V = HealthView;

    open spec fn view(&self) -> HealthView {
        HealthView {
            protocol_version: self.protocol_version,
            daemon_pid: self.daemon_pid,
            database_path: self.database_path@,
            socket_path: self.socket_path@,
            server_version: text::maybe_text(self.server_version),
            capabilities: text::texts(self.capabilities@),
            active_executions: self.active_executions,
            active_sessions: self.active_sessions,
        }
    }
}

impl Clone for Health {
    fn clone(&self) -> (copy: Self)
        ensures
            copy@ == self@,
    {
        Health {
            protocol_version: self.protocol_version,
            daemon_pid: self.daemon_pid,
            database_path: self.database_path.clone(),
            socket_path: self.socket_path.clone(),
            server_version: clone_maybe(&self.server_version),
            capabilities: clone_texts(&self.capabilities),
            active_executions: self.active_executions,
            active_sessions: self.active_sessions,
        }
    }
}

/// A character that needs no quoting when a command is shown.
pub open spec fn plain_char(c: char) -> bool {
    ||| ('a' <= c && c <= 'z')
    ||| ('A' <= c && c <= 'Z')
    ||| ('0' <= c && c <= '9')
    ||| c == '-' || c == '.' || c == '_' || c == '/' || c == ':' || c == '=' || c == '@' || c == '+'
}

/// A text with every single quote closed, escaped and reopened.
pub open spec fn requoted(value: Seq<char>) -> Seq<char>
    decreases value.len(),
{
    if value.len() == 0 {
        Seq::empty()
    } else if value.last() == '\'' {
        requoted(value.drop_last()) + seq!['\'', '\\', '\'', '\'']
    } else {
        requoted(value.drop_last()).push(value.last())
    }
}

/// One word of a command as it is shown: as it is where every character is
/// plain, else between single quotes.
pub open spec fn shown_word(value: Seq<char>) -> Seq<char> {
    if forall|i: int| 0 <= i < value.len() ==> plain_char(#[trigger] value[i]) {
        value
    } else {
        seq!['\''] + requoted(value) + seq!['\'']
    }
}

/// Words with one space between each two.
pub open spec fn spaced(words: Seq<Seq<char>>) -> Seq<char>
    decreases words.len(),
{
    if words.len() == 0 {
        Seq::empty()
    } else if words.len() == 1 {
        words[0]
    } else {
        spaced(words.drop_last()) + seq![' '] + words.last()
    }
}

/// A command as it is shown to a person.
pub open spec fn shown_command(command: CommandSpecView) -> Seq<char> {
    match command {
        CommandSpecView::Argv { program, args } => spaced(
            (seq![program] + args).map_values(|word: Seq<char>| shown_word(word)),
        ),
        CommandSpecView::Shell { command, shell } => command,
    }
}

/// What is wrong with a command, if anything.
pub open spec fn command_fault(command: CommandSpecView) -> Option<ErrorView> {
    match command {
        CommandSpecView::Argv { program, args } => if program.len() == 0 {
            Some(error::refused("program must not be empty"@))
        } else {
            None
        },
        CommandSpecView::Shell { command, shell } => if command.len() == 0 {
            Some(error::refused("shell command must not be empty"@))
        } else {
            None
        },
    }
}

/// The verdict of a check: no fault is success.
pub open spec fn verdict(fault: Option<ErrorView>) -> Result<(), ErrorView> {
    match fault {
        Some(error) => Err(error),
        None => Ok(()),
    }
}

/// Quotes one word of a command for display.
pub fn shell_escape_for_display(value: &str) -> (shown: String)
    ensures
        shown@ == shown_word(value@),
{
    let chars = chars_of(value);
    let mut plain = true;
    let mut i: usize = 0;
    while i < chars.len()
        invariant
            i <= chars.len(),
            plain == (forall|k: int| 0 <= k < i ==> plain_char(#[trigger] chars@[k])),
        decreases chars.len() - i,
    {
        let c = chars[i];
        if !((c >= 'a' && c <= 'z') || (c >= 'A' && c <= 'Z') || (c >= '0' && c <= '9') || c == '-'
            || c == '.' || c == '_' || c == '/' || c == ':' || c == '=' || c == '@' || c == '+') {
            plain = false;
        }
        i += 1;
    }
    if plain {
        return value.to_owned();
    }
    let mut shown = String::new();
    shown.push('\'');
    assert(shown@ =~= seq!['\''] + requoted(chars@.take(0)));
    let mut i: usize = 0;
    while i < chars.len()
        invariant
            i <= chars.len(),
            shown@ == seq!['\''] + requoted(chars@.take(i as int)),
        decreases chars.len() - i,
    {
        let ghost before = shown@;
        assert(chars@.take(i + 1).drop_last() =~= chars@.take(i as int));
        if chars[i] == '\'' {
            shown.push('\'');
            shown.push('\\');
            shown.push('\'');
            shown.push('\'');
            assert(shown@ =~= before + seq!['\'', '\\', '\'', '\'']);
        } else {
            shown.push(chars[i]);
        }
        assert(shown@ =~= seq!['\''] + requoted(chars@.take(i + 1)));
        i += 1;
    }
    shown.push('\'');
    proof {
        assert(chars@.take(chars@.len() as int) =~= value@);
        assert(shown@ =~= seq!['\''] + requoted(value@) + seq!['\'']);
    }
    shown
}

impl CommandSpec {
    /// Refuses a command without a program or without text.
    pub fn validate(&self) -> (checked: Result<(), Error>)
        ensures
            error::outcome_view(checked, |u: ()| u) == verdict(command_fault(self@)),
    {
        match self {
            CommandSpec::Argv { program, args } => {
                if program.as_str().is_empty() {
                    Err(Error::InvalidRequest("program must not be empty".to_owned()))
                } else {
                    Ok(())
                }
            },
            CommandSpec::Shell { command, shell } => {
                if command.as_str().is_empty() {
                    Err(Error::InvalidRequest("shell command must not be empty".to_owned()))
                } else {
                    Ok(())
                }
            },
        }
    }

    /// The command as it is shown to a person.
    pub fn display(&self) -> (shown: String)
        ensures
            shown@ == shown_command(self@),
    {
        match self {
            CommandSpec::Argv { program, args } => {
                let ghost words = (seq![program@] + text::texts(args@)).map_values(
                    |word: Seq<char>| shown_word(word),
                );
                let mut shown = shell_escape_for_display(program.as_str());
                assert(words.take(1) =~= seq![shown_word(program@)]);
                assert(spaced(words.take(1)) == shown@);
                let mut i: usize = 0;
                while i < args.len()
                    invariant
                        i <= args.len(),
                        words.len() == args.len() + 1,
                        shown@ == spaced(words.take(i + 1)),
                    decreases args.len() - i,
                {
                    shown.push(' ');
                    shown.append(shell_escape_for_display(args[i].as_str()).as_str());
                    proof {
                        assert(words.take(i + 2).drop_last() =~= words.take(i + 1));
                        assert(words[i + 1] == shown_word(args@[i as int]@));
                        assert(shown@ =~= spaced(words.take(i + 1)) + seq![' '] + words[i + 1]);
                    }
                    i += 1;
                }
                assert(words.take(args.len() + 1) =~= words);
                shown
            },
            CommandSpec::Shell { command, shell } => command.clone(),
        }
    }
}

impl Default for ExecutionStatusCounts {
    /// The counts where there is nothing to count.
    fn default() -> (counts: Self)
        ensures
            counts == (ExecutionStatusCounts {
                queued: 0,
                running: 0,
                exited_zero: 0,
                exited_nonzero: 0,
                signaled: 0,
                spawn_error: 0,
                cancelled: 0,
                interrupted: 0,
                unknown_terminal: 0,
            }),
    {
        ExecutionStatusCounts {
            queued: 0,
            running: 0,
            exited_zero: 0,
            exited_nonzero: 0,
            signaled: 0,
            spawn_error: 0,
            cancelled: 0,
            interrupted: 0,
            unknown_terminal: 0,
        }
    }
}

impl Default for Initiator {
    /// An initiator of which nothing is known.
    fn default() -> (initiator: Self)
        ensures
            initiator@ == (InitiatorView { kind: "unknown"@, name: None, session_id: None }),
    {
        Initiator { kind: "unknown".to_owned(), name: None, session_id: None }
    }
}

/// Whether a variable name can stand in an environment.
pub open spec fn env_key_fits(key: Seq<char>) -> bool {
    key.len() > 0 && !key.contains('=')
}

/// What is wrong with a request to run a command, if anything. The workspace
/// is looked at first, then the command, the input and the environment.
pub open spec fn request_fault(request: ExecutionRequestView) -> Option<ErrorView> {
    if request.workspace_id.len() == 0 {
        Some(error::refused("workspace_id must not be empty"@))
    } else if command_fault(request.command) is Some {
        command_fault(request.command)
    } else if stdin_fault(request.stdin_base64) is Some {
        stdin_fault(request.stdin_base64)
    } else if exists|i: int| 0 <= i < request.env.len() && !env_key_fits(#[trigger] request.env[i].key) {
        Some(error::refused("environment keys must be non-empty and must not contain '='"@))
    } else {
        None
    }
}

/// What is wrong with the input of a request, if anything.
pub open spec fn stdin_fault(stdin: Option<Seq<char>>) -> Option<ErrorView> {
    match stdin {
        Some(text) => match codec::base64_decoding(text) {
            Ok(data) => None,
            Err(message) => Some(error::refused("invalid stdin_base64: "@ + message)),
        },
        None => None,
    }
}

/// The bytes that a request hands to its command.
pub open spec fn stdin_of(stdin: Option<Seq<char>>) -> Result<Option<Seq<u8>>, ErrorView> {
    match stdin {
        Some(text) => match codec::base64_decoding(text) {
            Ok(data) => Ok(Some(data)),
            Err(message) => Err(error::refused("invalid stdin_base64: "@ + message)),
        },
        None => Ok(None),
    }
}

/// Takes what the input of a command decodes to.
pub fn decoded_stdin(decoded: Result<Vec<u8>, String>) -> (stdin: Result<Vec<u8>, Error>)
    ensures
        error::outcome_view(stdin, |data: Vec<u8>| data@) == (match decoded {
            Ok(data) => Ok(data@),
            Err(message) => Err(error::refused("invalid stdin_base64: "@ + message@)),
        }),
{
    match decoded {
        Ok(data) => Ok(data),
        Err(message) => Err(
            Error::InvalidRequest(joined("invalid stdin_base64: ", message.as_str())),
        ),
    }
}

/// The view of optional bytes.
pub open spec fn maybe_bytes(data: Option<Vec<u8>>) -> Option<Seq<u8>> {
    match data {
        Some(inner) => Some(inner@),
        None => None,
    }
}

fn env_key_ok(key: &str) -> (fits: bool)
    ensures
        fits == env_key_fits(key@),
{
    let chars = chars_of(key);
    let mut i: usize = 0;
    while i < chars.len()
        invariant
            i <= chars.len(),
            forall|k: int| 0 <= k < i ==> chars@[k] != '=',
        decreases chars.len() - i,
    {
        if chars[i] == '=' {
            assert(key@[i as int] == '=');
            return false;
        }
        i += 1;
    }
    chars.len() > 0
}

impl ExecutionRequest {
    /// Refuses a request that cannot be run.
    pub fn validate(&self) -> (checked: Result<(), Error>)
        ensures
            error::outcome_view(checked, |u: ()| u) == verdict(request_fault(self@)),
    {
        if self.workspace_id.as_str().is_empty() {
            return Err(Error::InvalidRequest("workspace_id must not be empty".to_owned()));
        }
        match self.command.validate() {
            Err(error) => {
                return Err(error);
            },
            Ok(()) => {},
        }
        match self.stdin_bytes() {
            Err(error) => {
                return Err(error);
            },
            Ok(_) => {},
        }
        let mut i: usize = 0;
        while i < self.env.len()
            invariant
                i <= self.env.len(),
                forall|k: int| 0 <= k < i ==> env_key_fits(#[trigger] self@.env[k].key),
            decreases self.env.len() - i,
        {
            if !env_key_ok(self.env[i].key.as_str()) {
                assert(!env_key_fits(self@.env[i as int].key));
                return Err(
                    Error::InvalidRequest(
                        "environment keys must be non-empty and must not contain '='".to_owned(),
                    ),
                );
            }
            assert(self@.env[i as int].key == self.env@[i as int].key@);
            i += 1;
        }
        Ok(())
    }

    /// The bytes that the command gets as its input.
    pub fn stdin_bytes(&self) -> (stdin: Result<Option<Vec<u8>>, Error>)
        ensures
            error::outcome_view(stdin, |data: Option<Vec<u8>>| maybe_bytes(data)) == stdin_of(
                self@.stdin_base64,
            ),
    {
        match &self.stdin_base64 {
            Some(text) => match decoded_stdin(decode_base64(text.as_str())) {
                Ok(data) => Ok(Some(data)),
                Err(error) => Err(error),
            },
            None => Ok(None),
        }
    }
}

/// Whether nothing more can happen to an execution in this state.
pub open spec fn terminal(state: ExecutionState) -> bool {
    state == ExecutionState::Finished || state == ExecutionState::Cancelled || state
        == ExecutionState::Interrupted
}

/// The name of an execution state.
pub open spec fn state_name(state: ExecutionState) -> Seq<char> {
    match state {
        ExecutionState::Queued => "queued"@,
        ExecutionState::Running => "running"@,
        ExecutionState::Finished => "finished"@,
        ExecutionState::Cancelled => "cancelled"@,
        ExecutionState::Interrupted => "interrupted"@,
    }
}

impl ExecutionState {
    /// Whether nothing more can happen to an execution in this state.
    pub fn is_terminal(&self) -> (yes: bool)
        ensures
            yes == terminal(*self),
    {
        match self {
            ExecutionState::Finished => true,
            ExecutionState::Cancelled => true,
            ExecutionState::Interrupted => true,
            ExecutionState::Queued => false,
            ExecutionState::Running => false,
        }
    }

    /// The name of this state.
    pub fn as_str(&self) -> (name: &'static str)
        ensures
            name@ == state_name(*self),
    {
        match self {
            ExecutionState::Queued => "queued",
            ExecutionState::Running => "running",
            ExecutionState::Finished => "finished",
            ExecutionState::Cancelled => "cancelled",
            ExecutionState::Interrupted => "interrupted",
        }
    }
}

/// The name of a session state.
pub open spec fn session_state_name(state: AgentSessionState) -> Seq<char> {
    match state {
        AgentSessionState::Recording => "recording"@,
        AgentSessionState::Finished => "finished"@,
        AgentSessionState::Interrupted => "interrupted"@,
    }
}

impl AgentSessionState {
    /// Whether the recording is over.
    pub fn is_terminal(&self) -> (yes: bool)
        ensures
            yes == (*self != AgentSessionState::Recording),
    {
        match self {
            AgentSessionState::Recording => false,
            AgentSessionState::Finished => true,
            AgentSessionState::Interrupted => true,
        }
    }

    /// The name of this state.
    pub fn as_str(&self) -> (name: &'static str)
        ensures
            name@ == session_state_name(*self),
    {
        match self {
            AgentSessionState::Recording => "recording",
            AgentSessionState::Finished => "finished",
            AgentSessionState::Interrupted => "interrupted",
        }
    }
}

/// The name of a turn state.
pub open spec fn turn_state_name(state: AgentTurnState) -> Seq<char> {
    match state {
        AgentTurnState::Active => "active"@,
        AgentTurnState::Completed => "completed"@,
        AgentTurnState::Failed => "failed"@,
        AgentTurnState::Interrupted => "interrupted"@,
    }
}

impl AgentTurnState {
    /// The name of this state.
    pub fn as_str(&self) -> (name: &'static str)
        ensures
            name@ == turn_state_name(*self),
    {
        match self {
            AgentTurnState::Active => "active",
            AgentTurnState::Completed => "completed",
            AgentTurnState::Failed => "failed",
            AgentTurnState::Interrupted => "interrupted",
        }
    }
}

/// The name of an action state.
pub open spec fn action_state_name(state: AgentActionState) -> Seq<char> {
    match state {
        AgentActionState::Running => "running"@,
        AgentActionState::Completed => "completed"@,
        AgentActionState::Failed => "failed"@,
    }
}

impl AgentActionState {
    /// The name of this state.
    pub fn as_str(&self) -> (name: &'static str)
        ensures
            name@ == action_state_name(*self),
    {
        match self {
            AgentActionState::Running => "running",
            AgentActionState::Completed => "completed",
            AgentActionState::Failed => "failed",
        }
    }
}

/// The name of an output stream.
pub open spec fn stream_name(stream: OutputStream) -> Seq<char> {
    match stream {
        OutputStream::Stdout => "stdout"@,
        OutputStream::Stderr => "stderr"@,
    }
}

impl OutputStream {
    /// The name of this stream.
    pub fn as_str(self) -> (name: &'static str)
        ensures
            name@ == stream_name(self),
    {
        match self {
            OutputStream::Stdout => "stdout",
            OutputStream::Stderr => "stderr",
        }
    }
}

/// What is wrong with a request to record a session, if anything.
pub open spec fn session_fault(request: AgentSessionRequestView) -> Option<ErrorView> {
    if request.id.len() == 0 || request.workspace_id.len() == 0 || text::blank(request.agent_kind) {
        Some(error::refused("id, workspace_id, and agent_kind must not be empty"@))
    } else if request.initial_cols == 0 || request.initial_rows == 0 {
        Some(error::refused("terminal dimensions must be greater than zero"@))
    } else {
        command_fault(request.command)
    }
}

impl AgentSessionRequest {
    /// Refuses a request without the names it needs, without a terminal size
    /// or without a command.
    pub fn validate(&self) -> (checked: Result<(), Error>)
        ensures
            error::outcome_view(checked, |u: ()| u) == verdict(session_fault(self@)),
    {
        if self.id.as_str().is_empty() || self.workspace_id.as_str().is_empty()
            || is_blank(self.agent_kind.as_str()) {
            return Err(
                Error::InvalidRequest(
                    "id, workspace_id, and agent_kind must not be empty".to_owned(),
                ),
            );
        }
        if self.initial_cols == 0 || self.initial_rows == 0 {
            return Err(
                Error::InvalidRequest("terminal dimensions must be greater than zero".to_owned()),
            );
        }
        self.command.validate()
    }
}

/// What is wrong with an agent event, if anything.
pub open spec fn agent_event_fault(request: AgentEventRequestView) -> Option<ErrorView> {
    if request.session_id.len() == 0 || request.provider.len() == 0
        || request.provider_session_id.len() == 0 {
        Some(error::refused("session_id, provider, and provider_session_id must not be empty"@))
    } else {
        None
    }
}

impl AgentEventRequest {
    /// Refuses an event that names no session or no provider.
    pub fn validate(&self) -> (checked: Result<(), Error>)
        ensures
            error::outcome_view(checked, |u: ()| u) == verdict(agent_event_fault(self@)),
    {
        if self.session_id.as_str().is_empty() || self.provider.as_str().is_empty()
            || self.provider_session_id.as_str().is_empty() {
            Err(
                Error::InvalidRequest(
                    "session_id, provider, and provider_session_id must not be empty".to_owned(),
                ),
            )
        } else {
            Ok(())
        }
    }
}

/// Where a request for a working directory points, before links are resolved.
pub open spec fn cwd_pointed_at(root: Seq<char>, requested: Option<Seq<char>>) -> Seq<char> {
    match requested {
        Some(path) => paths::joined_path(root, path),
        None => root,
    }
}

impl Workspace {
    /// The root directory.
    pub fn root_path(&self) -> (root: String)
        ensures
            root@ == self@.root,
    {
        self.root.clone()
    }

    /// The directory that `requested` points at, before links are resolved: an
    /// absolute path as it is, a relative one under the root, and the root
    /// where nothing is asked for.
    pub fn cwd_candidate(&self, requested: Option<&str>) -> (path: String)
        ensures
            path@ == cwd_pointed_at(
                self@.root,
                match requested {
                    Some(text) => Some(text@),
                    None => None,
                },
            ),
    {
        match requested {
            Some(text) => join_path(self.root.as_str(), text),
            None => self.root.clone(),
        }
    }

    /// Accepts the resolved working directory `canonical` where it lies at or
    /// below the root, and no other.
    pub fn resolve_cwd(&self, canonical: String) -> (resolved: Result<String, Error>)
        ensures
            error::viewed(resolved) == (if paths::below(canonical@, self@.root) {
                Ok(canonical@)
            } else {
                Err(ErrorView::OutsideWorkspace { path: canonical@, workspace: self@.root })
            }),
    {
        if path_starts_with(canonical.as_str(), self.root.as_str()) {
            Ok(canonical)
        } else {
            Err(Error::OutsideWorkspace { path: canonical, workspace: self.root.clone() })
        }
    }
}

} // verus!
