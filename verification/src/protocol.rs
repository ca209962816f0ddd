//! The messages between the daemon and its clients.

use vstd::prelude::*;

use crate::codec;
use crate::codec::new_id;
use crate::error;
use crate::error::{Error, ErrorView};
use crate::model::{
    clone_agent_session_list, clone_execution_list, clone_workspace_list, AgentEventRequest,
    AgentEventRequestView, AgentSession, AgentSessionDetail, AgentSessionDetailView,
    AgentSessionFinish, AgentSessionFinishView, AgentSessionRequest, AgentSessionRequestView,
    AgentSessionView, AgentTurn, AgentTurnView, Execution, ExecutionEvent, ExecutionEventView,
    ExecutionRequest, ExecutionRequestView, ExecutionStats, ExecutionStatsView, ExecutionView,
    Health, HealthView, ReadOutputResponse, ReadOutputResponseView, WaitResponse, WaitResponseView,
    Workspace, WorkspaceView, PROTOCOL_VERSION,
};
use crate::text;
use crate::text::{clone_maybe, joined3};

verus! {

/// The largest frame on the wire, in bytes.
pub const MAX_FRAME_BYTES: usize = 16_777_216;

/// What a daemon that can compute statistics says of itself.
pub const CAPABILITY_EXECUTION_STATS: &'static str = "execution_stats_v1";

/// What a daemon that records agent sessions says of itself.
pub const CAPABILITY_AGENT_SESSIONS: &'static str = "agent_sessions_v1";

/// What a daemon that records agent turns says of itself.
pub const CAPABILITY_AGENT_TURNS: &'static str = "agent_turns_v1";

/// What a client asks of the daemon.
#[allow(inconsistent_fields)]
#[derive(Debug, PartialEq, Eq)]
pub enum Operation {
    Health,
    WorkspaceAdd { name: String, root: String },
    WorkspaceRemove { workspace: String },
    WorkspaceList,
    Execute { request: ExecutionRequest },
    Get { execution_id: String },
    List { workspace: Option<String>, limit: u32 },
    Stats { workspace: String, since_ms: i64 },
    SessionCreate { request: AgentSessionRequest },
    SessionFinish { session_id: String, finish: AgentSessionFinish },
    SessionGet { session_id: String },
    SessionList { workspace: Option<String>, limit: u32 },
    SessionDelete { session_id: String },
    AgentEvent { request: AgentEventRequest },
    ReadOutput { execution_id: String, after_seq: u64, max_bytes: usize },
    Wait { execution_id: String, after_seq: u64, timeout_ms: u64, max_bytes: usize },
    Subscribe { execution_id: String, after_seq: u64 },
    Cancel { execution_id: String },
    Shutdown { force: bool },
}

/// What an `Operation` holds.
#[allow(inconsistent_fields)]
#[verifier::ext_equal]
pub enum OperationView {
    Health,
    WorkspaceAdd { name: Seq<char>, root: Seq<char> },
    WorkspaceRemove { workspace: Seq<char> },
    WorkspaceList,
    Execute { request: ExecutionRequestView },
    Get { execution_id: Seq<char> },
    List { workspace: Option<Seq<char>>, limit: u32 },
    Stats { workspace: Seq<char>, since_ms: i64 },
    SessionCreate { request: AgentSessionRequestView },
    SessionFinish { session_id: Seq<char>, finish: AgentSessionFinishView },
    SessionGet { session_id: Seq<char> },
    SessionList { workspace: Option<Seq<char>>, limit: u32 },
    SessionDelete { session_id: Seq<char> },
    AgentEvent { request: AgentEventRequestView },
    ReadOutput { execution_id: Seq<char>, after_seq: u64, max_bytes: usize },
    Wait { execution_id: Seq<char>, after_seq: u64, timeout_ms: u64, max_bytes: usize },
    Subscribe { execution_id: Seq<char>, after_seq: u64 },
    Cancel { execution_id: Seq<char> },
    Shutdown { force: bool },
}

impl View for Operation {
    type V = OperationView;

    open spec fn view(&self) -> OperationView {
        match *self {
            Operation::Health => OperationView::Health,
            Operation::WorkspaceAdd { name, root } => OperationView::WorkspaceAdd {
                name: name@,
                root: root@,
            },
            Operation::WorkspaceRemove { workspace } => OperationView::WorkspaceRemove {
                workspace: workspace@,
            },
            Operation::WorkspaceList => OperationView::WorkspaceList,
            Operation::Execute { request } => OperationView::Execute { request: request@ },
            Operation::Get { execution_id } => OperationView::Get { execution_id: execution_id@ },
            Operation::List { workspace, limit } => OperationView::List {
                workspace: text::maybe_text(workspace),
                limit,
            },
            Operation::Stats { workspace, since_ms } => OperationView::Stats {
                workspace: workspace@,
                since_ms,
            },
            Operation::SessionCreate { request } => OperationView::SessionCreate {
                request: request@,
            },
            Operation::SessionFinish { session_id, finish } => OperationView::SessionFinish {
                session_id: session_id@,
                finish: finish@,
            },
            Operation::SessionGet { session_id } => OperationView::SessionGet {
                session_id: session_id@,
            },
            Operation::SessionList { workspace, limit } => OperationView::SessionList {
                workspace: text::maybe_text(workspace),
                limit,
            },
            Operation::SessionDelete { session_id } => OperationView::SessionDelete {
                session_id: session_id@,
            },
            Operation::AgentEvent { request } => OperationView::AgentEvent { request: request@ },
            Operation::ReadOutput {
                execution_id,
                after_seq,
                max_bytes,
            } => OperationView::ReadOutput {
                execution_id: execution_id@,
                after_seq,
                max_bytes,
            },
            Operation::Wait {
                execution_id,
                after_seq,
                timeout_ms,
                max_bytes,
            } => OperationView::Wait {
                execution_id: execution_id@,
                after_seq,
                timeout_ms,
                max_bytes,
            },
            Operation::Subscribe { execution_id, after_seq } => OperationView::Subscribe {
                execution_id: execution_id@,
                after_seq,
            },
            Operation::Cancel { execution_id } => OperationView::Cancel {
                execution_id: execution_id@,
            },
            Operation::Shutdown { force } => OperationView::Shutdown { force },
        }
    }
}

impl Clone for Operation {
    fn clone(&self) -> (copy: Self)
        ensures
            copy@ == self@,
    {
        match self {
            Operation::Health => Operation::Health,
            Operation::WorkspaceAdd { name, root } => Operation::WorkspaceAdd {
                name: name.clone(),
                root: root.clone(),
            },
            Operation::WorkspaceRemove { workspace } => Operation::WorkspaceRemove {
                workspace: workspace.clone(),
            },
            Operation::WorkspaceList => Operation::WorkspaceList,
            Operation::Execute { request } => Operation::Execute { request: request.clone() },
            Operation::Get { execution_id } => Operation::Get {
                execution_id: execution_id.clone(),
            },
            Operation::List { workspace, limit } => Operation::List {
                workspace: clone_maybe(workspace),
                limit: *limit,
            },
            Operation::Stats { workspace, since_ms } => Operation::Stats {
                workspace: workspace.clone(),
                since_ms: *since_ms,
            },
            Operation::SessionCreate { request } => Operation::SessionCreate {
                request: request.clone(),
            },
            Operation::SessionFinish { session_id, finish } => Operation::SessionFinish {
                session_id: session_id.clone(),
                finish: finish.clone(),
            },
            Operation::SessionGet { session_id } => Operation::SessionGet {
                session_id: session_id.clone(),
            },
            Operation::SessionList { workspace, limit } => Operation::SessionList {
                workspace: clone_maybe(workspace),
                limit: *limit,
            },
            Operation::SessionDelete { session_id } => Operation::SessionDelete {
                session_id: session_id.clone(),
            },
            Operation::AgentEvent { request } => Operation::AgentEvent { request: request.clone() },
            Operation::ReadOutput { execution_id, after_seq, max_bytes } => Operation::ReadOutput {
                execution_id: execution_id.clone(),
                after_seq: *after_seq,
                max_bytes: *max_bytes,
            },
            Operation::Wait { execution_id, after_seq, timeout_ms, max_bytes } => Operation::Wait {
                execution_id: execution_id.clone(),
                after_seq: *after_seq,
                timeout_ms: *timeout_ms,
                max_bytes: *max_bytes,
            },
            Operation::Subscribe { execution_id, after_seq } => Operation::Subscribe {
                execution_id: execution_id.clone(),
                after_seq: *after_seq,
            },
            Operation::Cancel { execution_id } => Operation::Cancel {
                execution_id: execution_id.clone(),
            },
            Operation::Shutdown { force } => Operation::Shutdown { force: *force },
        }
    }
}

/// The answer to a subscription: the execution, and where reading begins.
#[derive(Debug, PartialEq, Eq)]
pub struct SubscriptionResponse {
    pub execution: Execution,
    pub next_seq: u64,
}

/// What a `SubscriptionResponse` holds.
#[verifier::ext_equal]
pub struct SubscriptionResponseView {
    pub execution: ExecutionView,
    pub next_seq: u64,
}

impl View for SubscriptionResponse {
    type V = SubscriptionResponseView;

    open spec fn view(&self) -> SubscriptionResponseView {
        SubscriptionResponseView {
            execution: self.execution@,
            next_seq: self.next_seq,
        }
    }
}

impl Clone for SubscriptionResponse {
    fn clone(&self) -> (copy: Self)
        ensures
            copy@ == self@,
    {
        SubscriptionResponse {
            execution: self.execution.clone(),
            next_seq: self.next_seq,
        }
    }
}

/// A failure as it travels: a code for programs and a text for people.
#[derive(Debug, PartialEq, Eq)]
pub struct ProtocolError {
    pub code: String,
    pub message: String,
}

/// What a `ProtocolError` holds.
#[verifier::ext_equal]
pub struct ProtocolErrorView {
    pub code: Seq<char>,
    pub message: Seq<char>,
}

impl View for ProtocolError {
    type V = ProtocolErrorView;

    open spec fn view(&self) -> ProtocolErrorView {
        ProtocolErrorView {
            code: self.code@,
            message: self.message@,
        }
    }
}

impl Clone for ProtocolError {
    fn clone(&self) -> (copy: Self)
        ensures
            copy@ == self@,
    {
        ProtocolError {
            code: self.code.clone(),
            message: self.message.clone(),
        }
    }
}

/// What the daemon answers with.
#[derive(Debug, PartialEq, Eq)]
pub enum ProtocolResult {
    Empty,
    Health(Health),
    Workspace(Workspace),
    Workspaces(Vec<Workspace>),
    Execution(Execution),
    Executions(Vec<Execution>),
    Stats(ExecutionStats),
    AgentSession(AgentSession),
    AgentSessions(Vec<AgentSession>),
    AgentSessionDetail(AgentSessionDetail),
    AgentTurn(AgentTurn),
    Output(ReadOutputResponse),
    Wait(WaitResponse),
    Subscription(SubscriptionResponse),
}

/// What a `ProtocolResult` holds.
#[verifier::ext_equal]
pub enum ProtocolResultView {
    Empty,
    Health(HealthView),
    Workspace(WorkspaceView),
    Workspaces(Seq<WorkspaceView>),
    Execution(ExecutionView),
    Executions(Seq<ExecutionView>),
    Stats(ExecutionStatsView),
    AgentSession(AgentSessionView),
    AgentSessions(Seq<AgentSessionView>),
    AgentSessionDetail(AgentSessionDetailView),
    AgentTurn(AgentTurnView),
    Output(ReadOutputResponseView),
    Wait(WaitResponseView),
    Subscription(SubscriptionResponseView),
}

impl View for ProtocolResult {
    type V = ProtocolResultView;

    open spec fn view(&self) -> ProtocolResultView {
        match *self {
            ProtocolResult::Empty => ProtocolResultView::Empty,
            ProtocolResult::Health(value) => ProtocolResultView::Health(value@),
            ProtocolResult::Workspace(value) => ProtocolResultView::Workspace(value@),
            ProtocolResult::Workspaces(value) => ProtocolResultView::Workspaces(value@.map_values(|item: Workspace| item@)),
            ProtocolResult::Execution(value) => ProtocolResultView::Execution(value@),
            ProtocolResult::Executions(value) => ProtocolResultView::Executions(value@.map_values(|item: Execution| item@)),
            ProtocolResult::Stats(value) => ProtocolResultView::Stats(value@),
            ProtocolResult::AgentSession(value) => ProtocolResultView::AgentSession(value@),
            ProtocolResult::AgentSessions(value) => ProtocolResultView::AgentSessions(value@.map_values(|item: AgentSession| item@)),
            ProtocolResult::AgentSessionDetail(value) => ProtocolResultView::AgentSessionDetail(value@),
            ProtocolResult::AgentTurn(value) => ProtocolResultView::AgentTurn(value@),
            ProtocolResult::Output(value) => ProtocolResultView::Output(value@),
            ProtocolResult::Wait(value) => ProtocolResultView::Wait(value@),
            ProtocolResult::Subscription(value) => ProtocolResultView::Subscription(value@),
        }
    }
}

impl Clone for ProtocolResult {
    fn clone(&self) -> (copy: Self)
        ensures
            copy@ == self@,
    {
        match self {
            ProtocolResult::Empty => ProtocolResult::Empty,
            ProtocolResult::Health(value) => ProtocolResult::Health(value.clone()),
            ProtocolResult::Workspace(value) => ProtocolResult::Workspace(value.clone()),
            ProtocolResult::Workspaces(value) => ProtocolResult::Workspaces(clone_workspace_list(value)),
            ProtocolResult::Execution(value) => ProtocolResult::Execution(value.clone()),
            ProtocolResult::Executions(value) => ProtocolResult::Executions(clone_execution_list(value)),
            ProtocolResult::Stats(value) => ProtocolResult::Stats(value.clone()),
            ProtocolResult::AgentSession(value) => ProtocolResult::AgentSession(value.clone()),
            ProtocolResult::AgentSessions(value) => ProtocolResult::AgentSessions(clone_agent_session_list(value)),
            ProtocolResult::AgentSessionDetail(value) => ProtocolResult::AgentSessionDetail(value.clone()),
            ProtocolResult::AgentTurn(value) => ProtocolResult::AgentTurn(value.clone()),
            ProtocolResult::Output(value) => ProtocolResult::Output(value.clone()),
            ProtocolResult::Wait(value) => ProtocolResult::Wait(value.clone()),
            ProtocolResult::Subscription(value) => ProtocolResult::Subscription(value.clone()),
        }
    }
}

/// The body of an answer.
#[derive(Debug, PartialEq, Eq)]
pub enum ResponseBody {
    Success { result: ProtocolResult },
    Error { error: ProtocolError },
}

/// What a `ResponseBody` holds.
#[verifier::ext_equal]
pub enum ResponseBodyView {
    Success { result: ProtocolResultView },
    Error { error: ProtocolErrorView },
}

impl View for ResponseBody {
    type V = ResponseBodyView;

    open spec fn view(&self) -> ResponseBodyView {
        match *self {
            ResponseBody::Success { result } => ResponseBodyView::Success { result: result@ },
            ResponseBody::Error { error } => ResponseBodyView::Error { error: error@ },
        }
    }
}

impl Clone for ResponseBody {
    fn clone(&self) -> (copy: Self)
        ensures
            copy@ == self@,
    {
        match self {
            ResponseBody::Success { result } => ResponseBody::Success { result: result.clone() },
            ResponseBody::Error { error } => ResponseBody::Error { error: error.clone() },
        }
    }
}

/// A message on the wire.
#[derive(Debug, PartialEq, Eq)]
pub enum WireMessage {
    Request { version: u32, request_id: String, operation: Operation },
    Response { version: u32, request_id: String, body: ResponseBody },
    Event { version: u32, subscription_id: String, event: ExecutionEvent },
}

/// What a `WireMessage` holds.
#[verifier::ext_equal]
pub enum WireMessageView {
    Request { version: u32, request_id: Seq<char>, operation: OperationView },
    Response { version: u32, request_id: Seq<char>, body: ResponseBodyView },
    Event { version: u32, subscription_id: Seq<char>, event: ExecutionEventView },
}

impl View for WireMessage {
    type V = WireMessageView;

    open spec fn view(&self) -> WireMessageView {
        match *self {
            WireMessage::Request { version, request_id, operation } => WireMessageView::Request {
                version,
                request_id: request_id@,
                operation: operation@,
            },
            WireMessage::Response { version, request_id, body } => WireMessageView::Response {
                version,
                request_id: request_id@,
                body: body@,
            },
            WireMessage::Event { version, subscription_id, event } => WireMessageView::Event {
                version,
                subscription_id: subscription_id@,
                event: event@,
            },
        }
    }
}

impl Clone for WireMessage {
    fn clone(&self) -> (copy: Self)
        ensures
            copy@ == self@,
    {
        match self {
            WireMessage::Request { version, request_id, operation } => WireMessage::Request {
                version: *version,
                request_id: request_id.clone(),
                operation: operation.clone(),
            },
            WireMessage::Response { version, request_id, body } => WireMessage::Response {
                version: *version,
                request_id: request_id.clone(),
                body: body.clone(),
            },
            WireMessage::Event { version, subscription_id, event } => WireMessage::Event {
                version: *version,
                subscription_id: subscription_id.clone(),
                event: event.clone(),
            },
        }
    }
}

/// How many entries a list has where the client does not say.
pub fn default_list_limit() -> (limit: u32)
    ensures
        limit == 100,
{
    100
}

/// How many bytes a page has where the client does not say.
pub fn default_read_bytes() -> (bytes: usize)
    ensures
        bytes == 1024 * 1024,
{
    1_048_576
}

/// How long a wait lasts where the client does not say.
pub fn default_wait_ms() -> (wait: u64)
    ensures
        wait == 30_000,
{
    30_000
}

/// The code that a failure travels under.
pub open spec fn error_code(error: ErrorView) -> Seq<char> {
    match error {
        ErrorView::WorkspaceNotFound(_) => "workspace_not_found"@,
        ErrorView::ExecutionNotFound(_) => "execution_not_found"@,
        ErrorView::AgentSessionNotFound(_) => "agent_session_not_found"@,
        ErrorView::OutsideWorkspace { .. } => "outside_workspace"@,
        ErrorView::InvalidRequest(_) => "invalid_request"@,
        ErrorView::AlreadyTerminal(_) => "already_terminal"@,
        ErrorView::PermissionDenied(_) => "permission_denied"@,
        ErrorView::ProtocolVersionMismatch { .. } => "protocol_version_mismatch"@,
        ErrorView::DaemonUpgradeRequired { .. } => "daemon_upgrade_required"@,
        ErrorView::DaemonDraining => "daemon_draining"@,
        ErrorView::Timeout => "timeout"@,
        ErrorView::Config(_) => "configuration_error"@,
        ErrorView::StorageUnavailable(_) => "storage_unavailable"@,
        ErrorView::Io(_) => "internal_error"@,
        ErrorView::Database(_) => "internal_error"@,
        ErrorView::Json(_) => "internal_error"@,
        ErrorView::Protocol(_) => "internal_error"@,
        ErrorView::DaemonUnavailable(_) => "internal_error"@,
    }
}

/// A failure as it travels.
pub open spec fn wire_error(error: ErrorView) -> ProtocolErrorView {
    ProtocolErrorView { code: error_code(error), message: error::error_message(error) }
}

impl ProtocolError {
    /// The failure as it travels.
    pub fn from_error(error: &Error) -> (wire: ProtocolError)
        ensures
            wire@ == wire_error(error@),
    {
        let code = match error {
            Error::WorkspaceNotFound(_) => "workspace_not_found",
            Error::ExecutionNotFound(_) => "execution_not_found",
            Error::AgentSessionNotFound(_) => "agent_session_not_found",
            Error::OutsideWorkspace { .. } => "outside_workspace",
            Error::InvalidRequest(_) => "invalid_request",
            Error::AlreadyTerminal(_) => "already_terminal",
            Error::PermissionDenied(_) => "permission_denied",
            Error::ProtocolVersionMismatch { .. } => "protocol_version_mismatch",
            Error::DaemonUpgradeRequired { .. } => "daemon_upgrade_required",
            Error::DaemonDraining => "daemon_draining",
            Error::Timeout => "timeout",
            Error::Config(_) => "configuration_error",
            Error::StorageUnavailable(_) => "storage_unavailable",
            Error::Io(_) => "internal_error",
            Error::Database(_) => "internal_error",
            Error::Json(_) => "internal_error",
            Error::Protocol(_) => "internal_error",
            Error::DaemonUnavailable(_) => "internal_error",
        };
        ProtocolError { code: code.to_owned(), message: error.message() }
    }

    /// The failure that a client reports for this one.
    pub fn into_error(self) -> (error: Error)
        ensures
            error@ == ErrorView::Protocol(self@.code + ": "@ + self@.message),
    {
        Error::Protocol(joined3(self.code.as_str(), ": ", self.message.as_str()))
    }
}

impl WireMessage {
    /// A request with a given identifier.
    pub fn request_with_id(request_id: String, operation: Operation) -> (message: WireMessage)
        ensures
            message@ == (WireMessageView::Request {
                version: PROTOCOL_VERSION,
                request_id: request_id@,
                operation: operation@,
            }),
    {
        WireMessage::Request { version: PROTOCOL_VERSION, request_id, operation }
    }

    /// A request with a fresh identifier.
    pub fn request(operation: Operation) -> (message: WireMessage)
        ensures
            exists|id: Seq<char>| #[trigger]
                codec::identifier_form(id) && message@ == (WireMessageView::Request {
                    version: PROTOCOL_VERSION,
                    request_id: id,
                    operation: operation@,
                }),
    {
        let id = new_id();
        assert(codec::identifier_form(id@));
        WireMessage::request_with_id(id, operation)
    }

    /// The answer to a request that was carried out.
    pub fn ok(request_id: String, result: ProtocolResult) -> (message: WireMessage)
        ensures
            message@ == (WireMessageView::Response {
                version: PROTOCOL_VERSION,
                request_id: request_id@,
                body: ResponseBodyView::Success { result: result@ },
            }),
    {
        WireMessage::Response {
            version: PROTOCOL_VERSION,
            request_id,
            body: ResponseBody::Success { result },
        }
    }

    /// The answer to a request that failed.
    pub fn error(request_id: String, error: &Error) -> (message: WireMessage)
        ensures
            message@ == (WireMessageView::Response {
                version: PROTOCOL_VERSION,
                request_id: request_id@,
                body: ResponseBodyView::Error { error: wire_error(error@) },
            }),
    {
        WireMessage::Response {
            version: PROTOCOL_VERSION,
            request_id,
            body: ResponseBody::Error { error: ProtocolError::from_error(error) },
        }
    }

    /// An event for a subscriber.
    pub fn event(subscription_id: String, event: ExecutionEvent) -> (message: WireMessage)
        ensures
            message@ == (WireMessageView::Event {
                version: PROTOCOL_VERSION,
                subscription_id: subscription_id@,
                event: event@,
            }),
    {
        WireMessage::Event { version: PROTOCOL_VERSION, subscription_id, event }
    }
}

} // verus!
