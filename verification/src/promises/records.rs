//! What the store keeps and gives back, said of its rows.

use vstd::prelude::*;

use crate::error::ErrorView;
use crate::model;
use crate::model::{
    CommandSpecView, ExecutionOutcomeView, ExecutionRequest, ExecutionRequestView, ExecutionState,
    ExecutionView, WorkspaceView,
};
use crate::codec;
use crate::order;
use crate::store::executions;
use crate::store::rows;
use crate::store::rows::{DatabaseView, ExecutionRowView, StoredPayloadView, WorkspaceRowView};
use crate::store::serve;
use crate::store::serve::{StoreCommand, StoreReply};
use crate::store::workspaces;

verus! {

/// Whether everything but the executions is as it was.
pub open spec fn only_executions_differ(db: DatabaseView, after: DatabaseView) -> bool {
    after.workspaces == db.workspaces && after.sessions == db.sessions && after.turns == db.turns
        && after.actions == db.actions
}

/// Whether everything but the workspaces is as it was.
pub open spec fn only_workspaces_differ(db: DatabaseView, after: DatabaseView) -> bool {
    after.executions == db.executions && after.sessions == db.sessions && after.turns == db.turns
        && after.actions == db.actions
}

/// Whether a request can be carried out as far as it goes by itself: it names a
/// workspace and a command, its input can be decoded, and its variables have
/// names.
pub open spec fn can_be_run(request: ExecutionRequestView) -> bool {
    &&& request.workspace_id.len() > 0
    &&& match request.command {
        CommandSpecView::Argv { program, args } => program.len() > 0,
        CommandSpecView::Shell { command, shell } => command.len() > 0,
    }
    &&& match request.stdin_base64 {
        Some(text) => codec::base64_decoding(text) is Ok,
        None => true,
    }
    &&& forall|i: int|
        0 <= i < request.env.len() ==> (#[trigger] request.env[i]).key.len() > 0
            && !request.env[i].key.contains('=')
}

/// A request is refused exactly where it cannot be carried out, and then as
/// invalid.
pub proof fn only_what_cannot_be_run_is_refused(request: ExecutionRequestView)
    ensures
        model::request_fault(request) is None == can_be_run(request),
        model::request_fault(request) matches Some(error) ==> error is InvalidRequest,
{
    if model::request_fault(request) is None {
        assert forall|i: int| 0 <= i < request.env.len() implies (
        #[trigger] request.env[i]).key.len() > 0 && !request.env[i].key.contains('=') by {
            assert(model::env_key_fits(request.env[i].key));
        }
    }
}

/// Whether an execution is in every part what was asked for, and has not
/// started.
pub open spec fn is_what_was_asked(
    execution: ExecutionView,
    request: ExecutionRequestView,
    cwd: Seq<char>,
    id: Seq<char>,
    now: i64,
) -> bool {
    &&& execution.id == id
    &&& execution.workspace_id == request.workspace_id
    &&& execution.command == request.command
    &&& execution.cwd == cwd
    &&& execution.initiator == request.initiator
    &&& execution.env_keys.len() == request.env.len()
    &&& forall|i: int|
        0 <= i < request.env.len() ==> #[trigger] execution.env_keys[i] == request.env[i].key
    &&& execution.state == ExecutionState::Queued
    &&& execution.created_at_ms == now
    &&& execution.started_at_ms is None && execution.ended_at_ms is None
    &&& execution.duration_ms is None
    &&& execution.pid is None && execution.pgid is None && execution.outcome is None
    &&& execution.captured_bytes == 0 && !execution.output_truncated && execution.last_seq == 0
}

/// What is asked for is recorded as it was asked for, behind what is there, and
/// can be looked up under its identifier. It is recorded where the request can
/// be carried out, its workspace is known, the identifier is free and no
/// session is named; else nothing changes.
pub proof fn a_request_is_recorded(
    db: DatabaseView,
    request: ExecutionRequest,
    cwd: String,
    now: i64,
    first: Seq<char>,
    second: Seq<char>,
    after: DatabaseView,
    reply: StoreReply,
    later: i64,
)
    requires
        serve::served(
            db,
            StoreCommand::CreateExecution { request, cwd },
            now,
            first,
            second,
            after,
            reply,
        ),
    ensures
        reply matches StoreReply::Execution(answer) && (match answer {
            Ok(execution) => {
                &&& is_what_was_asked(execution@, request@, cwd@, first, now)
                &&& only_executions_differ(db, after)
                &&& after.executions.len() == db.executions.len() + 1
                &&& after.executions.drop_last() == db.executions
                &&& after.executions.last().session_id == request@.initiator.session_id
                &&& after.executions.last().events.len() == 0
                &&& rows::execution_place(after, first) matches Some(at) && is_what_was_asked(
                    executions::execution_of(after.executions[at], later),
                    request@,
                    cwd@,
                    first,
                    now,
                )
            },
            Err(error) => after == db,
        }),
        can_be_run(request@) && request@.initiator.session_id is None && (exists|w: int|
            0 <= w < db.workspaces.len() && (#[trigger] db.workspaces[w]).workspace.id
                == request@.workspace_id) && (forall|e: int|
            0 <= e < db.executions.len() ==> (#[trigger] db.executions[e]).id != first) ==> (
        reply matches StoreReply::Execution(answer) && answer is Ok),
        !can_be_run(request@) ==> (reply matches StoreReply::Execution(answer) && answer is Err),
{
    only_what_cannot_be_run_is_refused(request@);
    let test = |row: ExecutionRowView| row.id == first;
    order::position_is_first(db.executions, test);
    if exists|w: int|
        0 <= w < db.workspaces.len() && (#[trigger] db.workspaces[w]).workspace.id
            == request@.workspace_id {
        let w = choose|w: int|
            0 <= w < db.workspaces.len() && (#[trigger] db.workspaces[w]).workspace.id
                == request@.workspace_id;
        order::position_exists(
            db.workspaces,
            |row: WorkspaceRowView| row.workspace.id == request@.workspace_id,
            w,
        );
    }
    if after.executions.len() > db.executions.len() {
        assert(after.executions.drop_last() =~= db.executions);
        let at = db.executions.len() as int;
        assert forall|k: int| 0 <= k < at implies !test(#[trigger] after.executions[k]) by {
            assert(after.executions[k] == db.executions[k]);
        }
        assert(order::first_at(after.executions, test, at));
        order::position_found(after.executions, test, at);
    }
}

/// Whether an execution differs from another in nothing that was asked for.
pub open spec fn same_request(a: ExecutionRowView, b: ExecutionRowView) -> bool {
    &&& a.id == b.id
    &&& a.workspace_id == b.workspace_id
    &&& a.command == b.command
    &&& a.cwd == b.cwd
    &&& a.env_keys == b.env_keys
    &&& a.initiator == b.initiator
    &&& a.created_at_ms == b.created_at_ms
    &&& a.session_id == b.session_id
}

/// Marking as running records when a queued execution started and as which
/// process, notes it in the history, and changes nothing else; what is not
/// queued is left as it is.
pub proof fn a_start_is_recorded(
    db: DatabaseView,
    id: Seq<char>,
    pid: u32,
    pgid: i32,
    now: i64,
    at: int,
)
    requires
        order::first_at(db.executions, |row: ExecutionRowView| row.id == id, at),
    ensures
        ({
            let (after, answer) = executions::mark_running_step(db, id, pid, pgid, now);
            let row = db.executions[at];
            if row.state == ExecutionState::Queued {
                let new = after.executions[at];
                &&& answer is Ok
                &&& only_executions_differ(db, after)
                &&& after.executions == db.executions.update(at, new)
                &&& same_request(new, row)
                &&& new.state == ExecutionState::Running
                &&& new.started_at_ms == Some(now)
                &&& new.ended_at_ms == row.ended_at_ms
                &&& new.pid == Some(pid) && new.pgid == Some(pgid)
                &&& new.outcome == row.outcome
                &&& new.captured_bytes == row.captured_bytes
                &&& new.output_truncated == row.output_truncated
                &&& new.events.len() == row.events.len() + 1
                &&& new.events.drop_last() == row.events
                &&& new.events.last().timestamp_ms == now
                &&& new.events.last().payload == (StoredPayloadView::Started { pid, pgid })
            } else {
                after == db && answer == Err::<
                    crate::model::ExecutionEventView,
                    ErrorView,
                >(ErrorView::AlreadyTerminal(id))
            }
        }),
{
    order::position_found(db.executions, |row: ExecutionRowView| row.id == id, at);
    let (after, answer) = executions::mark_running_step(db, id, pid, pgid, now);
    if answer is Ok {
        assert(after.executions[at].events.drop_last() =~= db.executions[at].events);
    }
}

/// Finishing records when and how an execution that was open ended, notes it in
/// the history as the last event, and changes nothing else; what has ended is
/// left as it is.
pub proof fn an_end_is_recorded(
    db: DatabaseView,
    id: Seq<char>,
    state: ExecutionState,
    outcome: ExecutionOutcomeView,
    now: i64,
    at: int,
)
    requires
        order::first_at(db.executions, |row: ExecutionRowView| row.id == id, at),
    ensures
        ({
            let (after, answer) = executions::finish_step(db, id, state, outcome, now);
            let row = db.executions[at];
            if row.state == ExecutionState::Queued || row.state == ExecutionState::Running {
                let new = after.executions[at];
                &&& answer is Ok
                &&& only_executions_differ(db, after)
                &&& after.executions == db.executions.update(at, new)
                &&& same_request(new, row)
                &&& new.state == state
                &&& new.outcome == Some(outcome)
                &&& new.ended_at_ms == Some(now)
                &&& new.started_at_ms == row.started_at_ms
                &&& new.pid == row.pid && new.pgid == row.pgid
                &&& new.captured_bytes == row.captured_bytes
                &&& new.output_truncated == row.output_truncated
                &&& new.events.len() == row.events.len() + 1
                &&& new.events.drop_last() == row.events
                &&& new.events.last().timestamp_ms == now
                &&& new.events.last().payload == (StoredPayloadView::Finished { outcome })
            } else {
                after == db && answer is Err
            }
        }),
{
    order::position_found(db.executions, |row: ExecutionRowView| row.id == id, at);
    let (after, answer) = executions::finish_step(db, id, state, outcome, now);
    if answer is Ok {
        assert(after.executions[at].events.drop_last() =~= db.executions[at].events);
    }
}

/// What clients see of an execution is what is stored, and how long it ran:
/// from its start to its end, or until now while it runs.
pub proof fn clients_see_what_is_stored(row: ExecutionRowView, now: i64)
    requires
        row.events.len() <= u64::MAX,
    ensures
        ({
            let shown = executions::execution_of(row, now);
            &&& shown.id == row.id
            &&& shown.workspace_id == row.workspace_id
            &&& shown.state == row.state
            &&& shown.command == row.command
            &&& shown.cwd == row.cwd
            &&& shown.env_keys == row.env_keys
            &&& shown.initiator == row.initiator
            &&& shown.created_at_ms == row.created_at_ms
            &&& shown.started_at_ms == row.started_at_ms
            &&& shown.ended_at_ms == row.ended_at_ms
            &&& shown.pid == row.pid && shown.pgid == row.pgid
            &&& shown.outcome == row.outcome
            &&& shown.captured_bytes == row.captured_bytes
            &&& shown.output_truncated == row.output_truncated
            &&& shown.last_seq == row.events.len()
            &&& match (row.started_at_ms, row.ended_at_ms, shown.duration_ms) {
                (None, _, took) => took is None,
                (Some(from), Some(to), Some(took)) => from <= to && to - from <= i64::MAX ==> took
                    == to - from,
                (Some(from), None, Some(took)) => from <= now && now - from <= i64::MAX ==> took
                    == now - from,
                _ => false,
            }
        }),
{
}

/// An execution is looked up under its identifier: what comes is one that has
/// it, and where none has it, the answer says so.
pub proof fn executions_are_found_by_their_identifier(
    db: DatabaseView,
    id: String,
    now: i64,
    first: Seq<char>,
    second: Seq<char>,
    after: DatabaseView,
    reply: StoreReply,
)
    requires
        serve::served(
            db,
            StoreCommand::GetExecution { id },
            now,
            first,
            second,
            after,
            reply,
        ),
    ensures
        after == db,
        reply matches StoreReply::Execution(answer) && (match answer {
            Ok(execution) => execution@.id == id@ && exists|i: int|
                0 <= i < db.executions.len() && execution@ == executions::execution_of(
                    #[trigger] db.executions[i],
                    now,
                ),
            Err(error) => error@ == ErrorView::ExecutionNotFound(id@) && forall|i: int|
                0 <= i < db.executions.len() ==> (#[trigger] db.executions[i]).id != id@,
        }),
{
    order::position_is_first(db.executions, |row: ExecutionRowView| row.id == id@);
}

/// Whether a workspace is known by an identifier or a name.
pub open spec fn answers_to(row: WorkspaceRowView, identifier: Seq<char>) -> bool {
    row.active && (row.workspace.id == identifier || row.workspace.name == identifier)
}

/// A registered workspace is found by its identifier and by its name; one that
/// is not registered, or no longer, is not.
pub proof fn workspaces_are_found(
    db: DatabaseView,
    identifier: String,
    now: i64,
    first: Seq<char>,
    second: Seq<char>,
    after: DatabaseView,
    reply: StoreReply,
)
    requires
        serve::served(
            db,
            StoreCommand::GetWorkspace { identifier },
            now,
            first,
            second,
            after,
            reply,
        ),
    ensures
        after == db,
        reply matches StoreReply::Workspace(answer) && (match answer {
            Ok(workspace) => exists|i: int|
                0 <= i < db.workspaces.len() && answers_to(
                    #[trigger] db.workspaces[i],
                    identifier@,
                ) && db.workspaces[i].workspace == workspace@,
            Err(error) => error@ == ErrorView::WorkspaceNotFound(identifier@) && forall|i: int|
                0 <= i < db.workspaces.len() ==> !answers_to(
                    #[trigger] db.workspaces[i],
                    identifier@,
                ),
        }),
{
    order::position_is_first(
        db.workspaces,
        |row: WorkspaceRowView| row.active && rows::goes_by(row.workspace, identifier@),
    );
}

/// A registered workspace is found by its root.
pub proof fn workspaces_are_found_by_root(
    db: DatabaseView,
    root: String,
    now: i64,
    first: Seq<char>,
    second: Seq<char>,
    after: DatabaseView,
    reply: StoreReply,
)
    requires
        serve::served(
            db,
            StoreCommand::FindWorkspaceByRoot { root },
            now,
            first,
            second,
            after,
            reply,
        ),
    ensures
        after == db,
        reply matches StoreReply::MaybeWorkspace(answer) && (match answer {
            Some(workspace) => workspace@.root == root@ && exists|i: int|
                0 <= i < db.workspaces.len() && (#[trigger] db.workspaces[i]).active
                    && db.workspaces[i].workspace == workspace@,
            None => forall|i: int|
                0 <= i < db.workspaces.len() && (#[trigger] db.workspaces[i]).active
                    ==> db.workspaces[i].workspace.root != root@,
        }),
{
    order::position_is_first(
        db.workspaces,
        |row: WorkspaceRowView| row.active && row.workspace.root == root@,
    );
}

/// Registering a directory that is not known, under a name that is not taken,
/// gives a workspace with that name and root, from now on found under its name;
/// a file, a blank name, and a name or root that belongs to another workspace
/// are refused, and then nothing changes.
pub proof fn a_directory_is_registered(
    db: DatabaseView,
    name: String,
    root: String,
    is_directory: bool,
    now: i64,
    first: Seq<char>,
    second: Seq<char>,
    after: DatabaseView,
    reply: StoreReply,
)
    requires
        serve::served(
            db,
            StoreCommand::AddWorkspace { name, root, is_directory },
            now,
            first,
            second,
            after,
            reply,
        ),
    ensures
        only_workspaces_differ(db, after),
        reply matches StoreReply::Workspace(answer) && (match answer {
            Ok(workspace) => {
                &&& workspace@.name == name@ && workspace@.root == root@
                &&& is_directory && !crate::text::blank(name@)
                &&& exists|i: int|
                    0 <= i < after.workspaces.len() && answers_to(
                        #[trigger] after.workspaces[i],
                        name@,
                    ) && after.workspaces[i].workspace == workspace@
            },
            Err(error) => after == db,
        }),
        is_directory && !crate::text::blank(name@) && (forall|i: int|
            0 <= i < db.workspaces.len() ==> (#[trigger] db.workspaces[i]).workspace.name != name@
                && db.workspaces[i].workspace.root != root@ && db.workspaces[i].workspace.id
                != first) ==> (reply matches StoreReply::Workspace(answer) && answer matches Ok(
            workspace,
        ) && workspace@.id == first && workspace@.created_at_ms == now && after.workspaces
            == db.workspaces.push(WorkspaceRowView { workspace: workspace@, active: true })),
        (exists|i: int|
            0 <= i < db.workspaces.len() && ((#[trigger] db.workspaces[i]).workspace.root == root@)
                != (db.workspaces[i].workspace.name == name@)) && (forall|i: int|
            0 <= i < db.workspaces.len() ==> !((#[trigger] db.workspaces[i]).workspace.root
                == root@ && db.workspaces[i].workspace.name == name@)) ==> (reply matches
            StoreReply::Workspace(answer) && answer is Err),
{
    let by_root = |row: WorkspaceRowView| row.workspace.root == root@;
    let by_name = |row: WorkspaceRowView| row.workspace.name == name@;
    order::position_is_first(db.workspaces, by_root);
    order::position_is_first(db.workspaces, by_name);
    order::position_is_first(db.workspaces, |row: WorkspaceRowView| row.workspace.id == first);
    if let StoreReply::Workspace(answer) = reply {
        if answer is Ok {
            match rows::root_place(db, root@) {
                Some(at) => {
                    assert(answers_to(after.workspaces[at], name@));
                },
                None => {
                    let at = db.workspaces.len() as int;
                    assert(answers_to(after.workspaces[at], name@));
                },
            }
        }
    }
}

/// Every registered workspace is listed once, in the order of names regardless
/// of case, and nothing else is.
pub proof fn registered_workspaces_are_listed(db: DatabaseView)
    ensures
        ({
            let list = workspaces::registered_list(db);
            &&& forall|i: int|
                0 <= i < db.workspaces.len() && (#[trigger] db.workspaces[i]).active
                    ==> list.contains(db.workspaces[i].workspace)
            &&& forall|k: int|
                0 <= k < list.len() ==> exists|i: int|
                    0 <= i < db.workspaces.len() && (#[trigger] db.workspaces[i]).active
                        && db.workspaces[i].workspace == #[trigger] list[k]
            &&& forall|i: int, j: int|
                0 <= i < j < list.len() ==> !order::text_above(
                    order::ascii_folded((#[trigger] list[i]).name),
                    order::ascii_folded((#[trigger] list[j]).name),
                )
        }),
{
    let test = |i: int| db.workspaces[i].active;
    let at = order::matching(db.workspaces.len(), test);
    order::matching_is_exact(db.workspaces.len(), test);
    let some = order::picked(db.workspaces, at).map_values(|row: WorkspaceRowView| row.workspace);
    let names = some.map_values(|workspace: WorkspaceView| order::ascii_folded(workspace.name));
    let above = order::listed_above(names);
    order::order_is_complete(some.len(), above);
    let sorted = order::stable_order(some.len(), above);
    let list = workspaces::registered_list(db);
    assert(order::orders(above)) by {
        assert forall|a: int| !#[trigger] above(a, a) by {
            order::text_above_orders(names[a], names[a], names[a]);
        }
        assert forall|a: int, b: int, c: int|
            #![trigger above(a, b), above(b, c)]
            #![trigger above(a, c), above(b, c)]
            above(a, b) && !above(c, b) implies above(a, c) by {
            order::text_above_orders(names[a], names[b], names[c]);
        }
        assert forall|a: int, b: int| #[trigger] above(a, b) implies !above(b, a) by {
            order::text_above_orders(names[a], names[b], names[b]);
        }
    }
    order::order_is_sorted(some.len(), above);
    assert forall|i: int| 0 <= i < db.workspaces.len() && (
    #[trigger] db.workspaces[i]).active implies list.contains(db.workspaces[i].workspace) by {
        assert(test(i));
        assert(at.contains(i));
        let m = choose|m: int| 0 <= m < at.len() && at[m] == i;
        assert(some[m] == db.workspaces[i].workspace);
        assert(sorted.contains(m));
        let k = choose|k: int| 0 <= k < sorted.len() && sorted[k] == m;
        assert(list[k] == some[m]);
    }
    assert forall|k: int| 0 <= k < list.len() implies exists|i: int|
        0 <= i < db.workspaces.len() && (#[trigger] db.workspaces[i]).active
            && db.workspaces[i].workspace == #[trigger] list[k] by {
        let m = sorted[k];
        let i = at[m];
        assert(test(i));
        assert(list[k] == some[m]);
        assert(db.workspaces[i].active);
    }
    assert forall|i: int, j: int| 0 <= i < j < list.len() implies !order::text_above(
        order::ascii_folded((#[trigger] list[i]).name),
        order::ascii_folded((#[trigger] list[j]).name),
    ) by {
        let a = sorted[i];
        let b = sorted[j];
        assert(!above(a, b));
        assert(names[a] == order::ascii_folded(some[a].name));
        assert(names[b] == order::ascii_folded(some[b].name));
    }
}

} // verus!
