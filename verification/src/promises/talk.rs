//! What goes back and forth between a client and the daemon.

use vstd::prelude::*;

use crate::client;
use crate::daemon;
use crate::daemon::{Incoming, Reception, ReceptionView};
use crate::dispatch;
use crate::dispatch::Task;
use crate::error;
use crate::error::{Error, ErrorView};
use crate::protocol;
use crate::protocol::{
    Operation, OperationView, ProtocolResult, ProtocolResultView, ResponseBodyView, WireMessage,
    WireMessageView,
};
use crate::store::serve::StoreCommand;
use crate::text;

verus! {

/// A request of the second version of the protocol is carried out as it was
/// asked, under its own identifier, and a subscription is opened for what was
/// named; a request of another version is answered with a failure under its
/// identifier, and never carried out; and what is no request is refused.
pub proof fn requests_are_taken_as_they_are(message: WireMessage)
    ensures
        match message@ {
            WireMessageView::Request { version, request_id, operation } => if version == 2 {
                match operation {
                    OperationView::Subscribe { execution_id, after_seq } => daemon::received(
                        Incoming::Message(message),
                    ) == (ReceptionView::Subscribe { request_id, execution_id, after_seq }),
                    _ => daemon::received(Incoming::Message(message)) == (
                    ReceptionView::Dispatch { request_id, operation }),
                }
            } else {
                daemon::received(Incoming::Message(message)) matches ReceptionView::Answer(
                    WireMessageView::Response { version: own, request_id: id, body },
                ) && own == 2 && id == request_id && body is Error
            },
            _ => daemon::received(Incoming::Message(message)) matches ReceptionView::Answer(
                WireMessageView::Response { version: own, request_id: id, body },
            ) && own == 2 && body is Error,
        },
{
}

/// What the daemon answers is what the client that asked gets: the result of
/// what was carried out, and for a failure its code and its message. An answer
/// to another request, or of another version, is not taken for one.
pub proof fn answers_reach_who_asked(
    request_id: Seq<char>,
    other: Seq<char>,
    result: ProtocolResultView,
    failed: ErrorView,
    version: u32,
    body: ResponseBodyView,
)
    ensures
        client::answer_of(daemon::success(request_id, result), request_id) == Ok::<
            ProtocolResultView,
            ErrorView,
        >(result),
        client::answer_of(daemon::failure(request_id, failed), request_id) == Err::<
            ProtocolResultView,
            ErrorView,
        >(
            ErrorView::Protocol(
                protocol::error_code(failed) + ": "@ + error::error_message(failed),
            ),
        ),
        other != request_id ==> client::answer_of(
            daemon::success(other, result),
            request_id,
        ) is Err,
        version != 2 ==> client::answer_of(
            WireMessageView::Response { version, request_id, body },
            request_id,
        ) == Err::<ProtocolResultView, ErrorView>(
            ErrorView::ProtocolVersionMismatch { client: 2, daemon: version },
        ),
{
}

/// Whether two failures are of one kind, as far as a client can tell: the
/// failures inside the daemon are all of one.
pub open spec fn same_kind(a: ErrorView, b: ErrorView) -> bool {
    ||| a is WorkspaceNotFound && b is WorkspaceNotFound
    ||| a is ExecutionNotFound && b is ExecutionNotFound
    ||| a is AgentSessionNotFound && b is AgentSessionNotFound
    ||| a is OutsideWorkspace && b is OutsideWorkspace
    ||| a is InvalidRequest && b is InvalidRequest
    ||| a is AlreadyTerminal && b is AlreadyTerminal
    ||| a is PermissionDenied && b is PermissionDenied
    ||| a is ProtocolVersionMismatch && b is ProtocolVersionMismatch
    ||| a is DaemonUpgradeRequired && b is DaemonUpgradeRequired
    ||| a is DaemonDraining && b is DaemonDraining
    ||| a is Timeout && b is Timeout
    ||| a is Config && b is Config
    ||| a is StorageUnavailable && b is StorageUnavailable
    ||| (a is Io || a is Database || a is Json || a is Protocol || a is DaemonUnavailable) && (b
        is Io || b is Database || b is Json || b is Protocol || b is DaemonUnavailable)
}

/// Failures of different kinds have different codes.
pub proof fn codes_tell_failures_apart(a: ErrorView, b: ErrorView)
    ensures
        (protocol::error_code(a) == protocol::error_code(b)) == same_kind(a, b),
{
    reveal_strlit("workspace_not_found");
    reveal_strlit("execution_not_found");
    reveal_strlit("agent_session_not_found");
    reveal_strlit("outside_workspace");
    reveal_strlit("invalid_request");
    reveal_strlit("already_terminal");
    reveal_strlit("permission_denied");
    reveal_strlit("protocol_version_mismatch");
    reveal_strlit("daemon_upgrade_required");
    reveal_strlit("daemon_draining");
    reveal_strlit("timeout");
    reveal_strlit("configuration_error");
    reveal_strlit("storage_unavailable");
    reveal_strlit("internal_error");
    assert("workspace_not_found"@.len() == 19 && "workspace_not_found"@[0] == 'w');
    assert("execution_not_found"@.len() == 19 && "execution_not_found"@[0] == 'e');
    assert("configuration_error"@.len() == 19 && "configuration_error"@[0] == 'c');
    assert("storage_unavailable"@.len() == 19 && "storage_unavailable"@[0] == 's');
    assert("agent_session_not_found"@.len() == 23 && "agent_session_not_found"@[0] == 'a');
    assert("daemon_upgrade_required"@.len() == 23 && "daemon_upgrade_required"@[0] == 'd');
    assert("outside_workspace"@.len() == 17 && "outside_workspace"@[0] == 'o');
    assert("permission_denied"@.len() == 17 && "permission_denied"@[0] == 'p');
    assert("invalid_request"@.len() == 15 && "invalid_request"@[0] == 'i');
    assert("daemon_draining"@.len() == 15 && "daemon_draining"@[0] == 'd');
    assert("already_terminal"@.len() == 16);
    assert("protocol_version_mismatch"@.len() == 25);
    assert("timeout"@.len() == 7);
    assert("internal_error"@.len() == 14);
}

/// Whether a number that was asked for is kept within bounds: it is the one
/// asked for where that lies within, else the bound that is nearer.
pub open spec fn held_within(asked: int, low: int, high: int, held: int) -> bool {
    &&& low <= held <= high
    &&& low <= asked <= high ==> held == asked
    &&& asked < low ==> held == low
    &&& asked > high ==> held == high
}

/// What is asked of the store, or done, is what the client asked for, of the
/// execution, workspace or session that it named. No list is longer than a
/// thousand rows, no page larger than eight mebibytes, and no one waits longer
/// than a minute.
pub proof fn operations_do_what_they_say(
    operation: Operation,
    sessions_dir: Seq<char>,
    now: i64,
    task: Task,
)
    requires
        dispatch::planned(operation, sessions_dir, now, task),
    ensures
        match operation {
            Operation::Health => task is ReportHealth,
            Operation::WorkspaceAdd { name, root } => task matches Task::AddWorkspace {
                name: asked,
                root: place,
            } && asked@ == name@ && place@ == root@,
            Operation::WorkspaceRemove { workspace } => task matches Task::Store {
                reconcile,
                command: StoreCommand::RemoveWorkspace { identifier },
            } && identifier@ == workspace@,
            Operation::WorkspaceList => task matches Task::Store {
                reconcile,
                command: StoreCommand::ListWorkspaces,
            },
            Operation::Execute { request } => task matches Task::Execute { request: asked }
                && asked@ == request@,
            Operation::Get { execution_id } => task matches Task::Store {
                reconcile,
                command: StoreCommand::GetExecution { id },
            } && id@ == execution_id@,
            Operation::List { workspace, limit } => task matches Task::Store {
                reconcile,
                command: StoreCommand::ListExecutions { workspace: asked, limit: rows },
            } && asked == workspace && held_within(limit as int, 1, 1000, rows as int),
            Operation::Stats { workspace, since_ms } => task matches Task::Store {
                reconcile,
                command: StoreCommand::ExecutionStats {
                    workspace: asked,
                    since_ms: from,
                    until_ms: to,
                },
            } && asked@ == workspace@ && from == since_ms && to == now,
            Operation::SessionCreate { request } => match task {
                Task::CreateSession { request: asked } => asked@ == request@,
                Task::Refuse(error) => error@ is InvalidRequest,
                _ => false,
            },
            Operation::SessionFinish { session_id, finish } => task matches Task::Store {
                reconcile,
                command: StoreCommand::FinishAgentSession { id, finish: how },
            } && id@ == session_id@ && how@ == finish@,
            Operation::SessionGet { session_id } => task matches Task::Store {
                reconcile,
                command: StoreCommand::GetAgentSession { id },
            } && id@ == session_id@ && reconcile,
            Operation::SessionList { workspace, limit } => task matches Task::Store {
                reconcile,
                command: StoreCommand::ListAgentSessions { workspace: asked, limit: rows },
            } && asked == workspace && held_within(limit as int, 1, 1000, rows as int)
                && reconcile,
            Operation::SessionDelete { session_id } => task matches Task::DeleteSession {
                session_id: id,
            } && id@ == session_id@,
            Operation::AgentEvent { request } => task matches Task::Store {
                reconcile,
                command: StoreCommand::RecordAgentEvent { request: asked },
            } && asked@ == request@,
            Operation::ReadOutput { execution_id, after_seq, max_bytes } => task matches
                Task::Store {
                reconcile,
                command: StoreCommand::ReadOutput { id, after_seq: from, max_bytes: size },
            } && id@ == execution_id@ && from == after_seq && held_within(
                max_bytes as int,
                1,
                8_388_608,
                size as int,
            ),
            Operation::Wait { execution_id, after_seq, timeout_ms, max_bytes } => task matches
                Task::Wait {
                execution_id: id,
                after_seq: from,
                timeout_ms: time,
                max_bytes: size,
            } && id@ == execution_id@ && from == after_seq && held_within(
                timeout_ms as int,
                1,
                60_000,
                time as int,
            ) && held_within(max_bytes as int, 1, 8_388_608, size as int),
            Operation::Subscribe { execution_id, after_seq } => task is Refuse,
            Operation::Cancel { execution_id } => task matches Task::Cancel { execution_id: id }
                && id@ == execution_id@,
            Operation::Shutdown { force } => task matches Task::Stop { force: forced } && forced
                == force,
        },
{
}

/// A request that a client sends is carried out as it stands, and its answer is
/// the result of what was done; a failure comes back as a failure.
pub proof fn a_request_gets_its_answer(
    id: String,
    again: String,
    asked: &str,
    operation: Operation,
    message: WireMessage,
    reception: Reception,
    result: Result<ProtocolResult, Error>,
    reply: WireMessage,
    got: Result<ProtocolResult, Error>,
)
    requires
        call_ensures(WireMessage::request_with_id, (id, operation), message),
        call_ensures(daemon::receive, (Incoming::Message(message),), reception),
        call_ensures(daemon::answer, (again, result), reply),
        call_ensures(client::decode_response, (reply, asked), got),
        again@ == id@ && asked@ == id@,
    ensures
        !(operation is Subscribe) ==> (reception@ matches ReceptionView::Dispatch {
            request_id,
            operation: taken,
        } && request_id == id@ && taken == operation@),
        match result {
            Ok(value) => got matches Ok(told) && told@ == value@,
            Err(error) => got is Err,
        },
{
    requests_are_taken_as_they_are(message);
    match result {
        Ok(value) => {
            answers_reach_who_asked(
                id@,
                id@,
                value@,
                ErrorView::Timeout,
                2,
                ResponseBodyView::Success { result: value@ },
            );
        },
        Err(error) => {},
    }
}

/// What a failure is about stands in its message.
pub proof fn a_failure_names_its_subject(failed: ErrorView)
    ensures
        match failed {
            ErrorView::WorkspaceNotFound(id) => text::occurs(error::error_message(failed), id),
            ErrorView::ExecutionNotFound(id) => text::occurs(error::error_message(failed), id),
            ErrorView::AgentSessionNotFound(id) => text::occurs(error::error_message(failed), id),
            ErrorView::AlreadyTerminal(id) => text::occurs(error::error_message(failed), id),
            ErrorView::InvalidRequest(detail) => text::occurs(
                error::error_message(failed),
                detail,
            ),
            ErrorView::PermissionDenied(detail) => text::occurs(
                error::error_message(failed),
                detail,
            ),
            ErrorView::Protocol(detail) => text::occurs(error::error_message(failed), detail),
            ErrorView::Config(detail) => text::occurs(error::error_message(failed), detail),
            ErrorView::Io(detail) => text::occurs(error::error_message(failed), detail),
            ErrorView::Json(detail) => text::occurs(error::error_message(failed), detail),
            ErrorView::Database(detail) => text::occurs(error::error_message(failed), detail),
            ErrorView::StorageUnavailable(detail) => text::occurs(
                error::error_message(failed),
                detail,
            ),
            ErrorView::DaemonUpgradeRequired { daemon_pid, capability } => text::occurs(
                error::error_message(failed),
                capability,
            ) && text::occurs(error::error_message(failed), text::decimal(daemon_pid as nat)),
            ErrorView::ProtocolVersionMismatch { client, daemon } => text::occurs(
                error::error_message(failed),
                "client protocol version "@ + text::decimal(client as nat),
            ) && text::occurs(
                error::error_message(failed),
                "daemon protocol version "@ + text::decimal(daemon as nat),
            ),
            ErrorView::OutsideWorkspace { path, workspace } => text::occurs(
                error::error_message(failed),
                "path "@ + error::quoted_path(path),
            ) && text::occurs(
                error::error_message(failed),
                "workspace "@ + error::quoted_path(workspace),
            ),
            ErrorView::DaemonUnavailable(path) => text::occurs(
                error::error_message(failed),
                error::quoted_path(path),
            ),
            _ => true,
        },
{
    let message = error::error_message(failed);
    match failed {
        ErrorView::WorkspaceNotFound(id) => stands_last(message, id),
        ErrorView::ExecutionNotFound(id) => stands_last(message, id),
        ErrorView::AgentSessionNotFound(id) => stands_last(message, id),
        ErrorView::AlreadyTerminal(id) => stands_last(message, id),
        ErrorView::InvalidRequest(detail) => stands_last(message, detail),
        ErrorView::PermissionDenied(detail) => stands_last(message, detail),
        ErrorView::Protocol(detail) => stands_last(message, detail),
        ErrorView::Config(detail) => stands_last(message, detail),
        ErrorView::Io(detail) => stands_last(message, detail),
        ErrorView::Json(detail) => stands_last(message, detail),
        ErrorView::Database(detail) => stands_last(message, detail),
        ErrorView::StorageUnavailable(detail) => stands_last(message, detail),
        ErrorView::DaemonUnavailable(path) => stands_last(message, error::quoted_path(path)),
        ErrorView::DaemonUpgradeRequired { daemon_pid, capability } => {
            stands_last(message, capability);
            let pid = text::decimal(daemon_pid as nat);
            let at = "daemon "@.len() as int;
            assert(message.subrange(at, at + pid.len()) =~= pid);
            assert(text::stands_at(message, pid, at));
        },
        ErrorView::ProtocolVersionMismatch { client, daemon } => {
            let first = "client protocol version "@ + text::decimal(client as nat);
            assert(message.subrange(0, first.len() as int) =~= first);
            assert(text::stands_at(message, first, 0));
            let second = "daemon protocol version "@ + text::decimal(daemon as nat);
            reveal_strlit(" does not match daemon protocol version ");
            reveal_strlit("daemon protocol version ");
            let at = message.len() - second.len();
            assert(message.subrange(at, at + second.len()) =~= second);
            assert(text::stands_at(message, second, at));
        },
        ErrorView::OutsideWorkspace { path, workspace } => {
            let first = "path "@ + error::quoted_path(path);
            assert(message.subrange(0, first.len() as int) =~= first);
            assert(text::stands_at(message, first, 0));
            let second = "workspace "@ + error::quoted_path(workspace);
            reveal_strlit(" is outside workspace ");
            reveal_strlit("workspace ");
            let at = message.len() - second.len();
            assert(message.subrange(at, at + second.len()) =~= second);
            assert(text::stands_at(message, second, at));
        },
        _ => {},
    }
}

proof fn stands_last(hay: Seq<char>, needle: Seq<char>)
    requires
        needle.len() <= hay.len(),
        hay.skip(hay.len() - needle.len()) =~= needle,
    ensures
        text::occurs(hay, needle),
{
    let at = hay.len() - needle.len();
    assert(hay.subrange(at, at + needle.len()) =~= hay.skip(at));
    assert(text::stands_at(hay, needle, at));
}

/// A subscriber takes the next event of its own subscription, as it is, and
/// nothing else: no event of another subscription, none of another version, and
/// none out of turn.
pub proof fn a_subscriber_takes_its_next_event(
    message: WireMessageView,
    subscription: Seq<char>,
    next_seq: u64,
)
    ensures
        match message {
            WireMessageView::Event { version, subscription_id, event } => if version == 2
                && subscription_id == subscription && event.seq == next_seq + 1 {
                client::taken_event(message, subscription, next_seq) matches Ok(taken) && taken
                    == event
            } else {
                client::taken_event(message, subscription, next_seq) is Err
            },
            _ => client::taken_event(message, subscription, next_seq) is Err,
        },
{
}

} // verus!
