//! What holds of the store as a whole.

use vstd::prelude::*;

use crate::error::ErrorView;
use crate::model;
use crate::model::{
    EnvVarView, ExecutionEventView, ExecutionOutcomeView, ExecutionRequestView, ExecutionState, WorkspaceView,
};
use crate::order;
use crate::store::capture;
use crate::store::capture::CaptureRecordView;
use crate::store::executions;
use crate::store::reading;
use crate::store::retention;
use crate::store::rows;
use crate::store::rows::{
    DatabaseView, ExecutionRowView, SessionRowView, StoredEventView, WorkspaceRowView,
};
use crate::store::serve;
use crate::store::serve::{StoreCommand, StoreReply};
use crate::store::session_reading;
use crate::store::sessions;
use crate::store::soundness;
use crate::store::workspaces;

verus! {

/// Whether a row is a later stage of another: the same execution, with the
/// same request and creation, more events and none changed, and an ending that
/// stays where there was one.
pub open spec fn continues(before: ExecutionRowView, after: ExecutionRowView) -> bool {
    &&& after.id == before.id
    &&& after.workspace_id == before.workspace_id
    &&& after.command == before.command
    &&& after.cwd == before.cwd
    &&& after.env_keys == before.env_keys
    &&& after.created_at_ms == before.created_at_ms
    &&& after.captured_bytes >= before.captured_bytes
    &&& before.output_truncated ==> after.output_truncated
    &&& before.events.is_prefix_of(after.events)
    &&& model::terminal(before.state) ==> after.state == before.state && after.outcome == before.outcome
        && after.ended_at_ms == before.ended_at_ms && after.started_at_ms == before.started_at_ms
}

/// Whether every execution is still there, at its place and as a later stage.
pub open spec fn history_kept(before: DatabaseView, after: DatabaseView) -> bool {
    &&& before.executions.len() <= after.executions.len()
    &&& forall|i: int|
        0 <= i < before.executions.len() ==> continues(
            before.executions[i],
            #[trigger] after.executions[i],
        )
}

proof fn prefix_itself<A>(list: Seq<A>)
    ensures
        list.is_prefix_of(list),
{
    assert(list.subrange(0, list.len() as int) =~= list);
}

proof fn prefix_of_push<A>(list: Seq<A>, more: A)
    ensures
        list.is_prefix_of(list.push(more)),
{
    assert(list.push(more).subrange(0, list.len() as int) =~= list);
}

proof fn prefix_chain<A>(a: Seq<A>, b: Seq<A>, c: Seq<A>)
    requires
        a.is_prefix_of(b),
        b.is_prefix_of(c),
    ensures
        a.is_prefix_of(c),
{
    assert(a =~= c.subrange(0, a.len() as int)) by {
        assert forall|i: int| 0 <= i < a.len() implies a[i] == c.subrange(0, a.len() as int)[i] by {
            assert(a[i] == b.subrange(0, a.len() as int)[i]);
            assert(b[i] == c.subrange(0, b.len() as int)[i]);
        }
    }
}

/// History is kept where nothing changes.
pub proof fn history_kept_itself(db: DatabaseView)
    ensures
        history_kept(db, db),
{
    assert forall|i: int| 0 <= i < db.executions.len() implies continues(
        db.executions[i],
        #[trigger] db.executions[i],
    ) by {
        prefix_itself(db.executions[i].events);
    }
}

/// What keeps history step by step keeps it over all the steps.
pub proof fn history_kept_chain(a: DatabaseView, b: DatabaseView, c: DatabaseView)
    requires
        history_kept(a, b),
        history_kept(b, c),
    ensures
        history_kept(a, c),
{
    assert forall|i: int| 0 <= i < a.executions.len() implies continues(
        a.executions[i],
        #[trigger] c.executions[i],
    ) by {
        assert(continues(a.executions[i], b.executions[i]));
        prefix_chain(a.executions[i].events, b.executions[i].events, c.executions[i].events);
    }
}

proof fn replaced_row_keeps(db: DatabaseView, at: int, row: ExecutionRowView)
    requires
        0 <= at < db.executions.len(),
        continues(db.executions[at], row),
    ensures
        history_kept(db, executions::with_execution(db, at, row)),
{
    history_kept_itself(db);
    assert forall|i: int| 0 <= i < db.executions.len() implies continues(
        db.executions[i],
        #[trigger] executions::with_execution(db, at, row).executions[i],
    ) by {
        if i != at {
            assert(continues(db.executions[i], db.executions[i]));
        }
    }
}

proof fn record_keeps(db: DatabaseView, record: CaptureRecordView)
    ensures
        capture::record_step(db, record) matches Ok((after, event)) ==> history_kept(db, after),
{
    let id = crate::store::capture::record_execution(record);
    order::position_is_first(db.executions, |row: ExecutionRowView| row.id == id);
    if capture::record_step(db, record) is Ok {
        let at = rows::execution_place(db, id)->0;
        let row = db.executions[at];
        match record {
            CaptureRecordView::Output { execution_id, timestamp_ms, stream, data } => {
                prefix_of_push(row.events, capture::recorded_row(row, record).events.last());
            },
            CaptureRecordView::Truncated { execution_id, timestamp_ms, limit_bytes } => {
                prefix_of_push(row.events, capture::recorded_row(row, record).events.last());
            },
        }
        assert(capture::recorded_row(row, record).events =~= row.events.push(
            capture::recorded_row(row, record).events.last(),
        ));
        replaced_row_keeps(db, at, capture::recorded_row(row, record));
    }
}

proof fn records_keep(db: DatabaseView, records: Seq<CaptureRecordView>)
    ensures
        capture::records_step(db, records) matches Ok((after, events)) ==> history_kept(db, after),
    decreases records.len(),
{
    history_kept_itself(db);
    if records.len() > 0 {
        records_keep(db, records.drop_last());
        if capture::records_step(db, records) is Ok {
            let middle = capture::records_step(db, records.drop_last())->Ok_0.0;
            record_keeps(middle, records.last());
            history_kept_chain(db, middle, capture::records_step(db, records)->Ok_0.0);
        }
    }
}

proof fn ended_row_continues(
    row: ExecutionRowView,
    state: ExecutionState,
    outcome: ExecutionOutcomeView,
    now: i64,
)
    requires
        !model::terminal(row.state),
    ensures
        continues(row, executions::ended_row(row, state, outcome, now)),
{
    let after = executions::ended_row(row, state, outcome, now);
    prefix_of_push(row.events, after.events.last());
    assert(after.events =~= row.events.push(after.events.last()));
}

/// Whatever the store is asked, other than to forget history, every execution
/// stays at its place: its request and its events do not change, events are
/// only added, and an execution that has ended has ended for good.
pub proof fn serving_keeps_history(
    db: DatabaseView,
    command: StoreCommand,
    now: i64,
    first: Seq<char>,
    second: Seq<char>,
    after: DatabaseView,
    reply: StoreReply,
)
    requires
        serve::served(db, command, now, first, second, after, reply),
        !(command is Prune),
    ensures
        history_kept(db, after),
{
    history_kept_itself(db);
    match command {
        StoreCommand::CreateExecution { request, cwd } => {
            assert forall|i: int| 0 <= i < db.executions.len() implies continues(
                db.executions[i],
                #[trigger] after.executions[i],
            ) by {
                assert(continues(db.executions[i], db.executions[i]));
            }
        },
        StoreCommand::MarkRunning { id, pid, pgid } => {
            order::position_is_first(db.executions, |row: ExecutionRowView| row.id == id@);
            match rows::execution_place(db, id@) {
                Some(at) => {
                    let row = db.executions[at];
                    if row.state == ExecutionState::Queued {
                        let next = executions::running_row(row, pid, pgid, now);
                        prefix_of_push(row.events, next.events.last());
                        assert(next.events =~= row.events.push(next.events.last()));
                        replaced_row_keeps(db, at, next);
                    }
                },
                None => {},
            }
        },
        StoreCommand::AppendCaptureBatch { records } => {
            records_keep(db, crate::store::capture::record_views(records@));
        },
        StoreCommand::Finish { id, state, outcome } => {
            order::position_is_first(db.executions, |row: ExecutionRowView| row.id == id@);
            match rows::execution_place(db, id@) {
                Some(at) => {
                    if !model::terminal(db.executions[at].state) {
                        ended_row_continues(db.executions[at], state, outcome@, now);
                        replaced_row_keeps(
                            db,
                            at,
                            executions::ended_row(db.executions[at], state, outcome@, now),
                        );
                    }
                },
                None => {},
            }
        },
        StoreCommand::ReconcileIncomplete => {
            assert forall|i: int| 0 <= i < db.executions.len() implies continues(
                db.executions[i],
                #[trigger] after.executions[i],
            ) by {
                assert(continues(db.executions[i], db.executions[i]));
                if !model::terminal(db.executions[i].state) {
                    ended_row_continues(
                        db.executions[i],
                        ExecutionState::Interrupted,
                        crate::store::retention::cut_off(),
                        now,
                    );
                }
            }
        },
        StoreCommand::CancelQueued => {
            assert forall|i: int| 0 <= i < db.executions.len() implies continues(
                db.executions[i],
                #[trigger] after.executions[i],
            ) by {
                assert(continues(db.executions[i], db.executions[i]));
                if db.executions[i].state == ExecutionState::Queued {
                    ended_row_continues(
                        db.executions[i],
                        ExecutionState::Cancelled,
                        ExecutionOutcomeView::Cancelled { signal: None },
                        now,
                    );
                }
            }
        },
        StoreCommand::DeleteAgentSession { id } => {
            assert forall|i: int| 0 <= i < db.executions.len() implies continues(
                db.executions[i],
                #[trigger] after.executions[i],
            ) by {
                assert(continues(db.executions[i], db.executions[i]));
            }
        },
        StoreCommand::RecordAgentEvent { request } => {
            assert(after.executions == db.executions);
            assert forall|i: int| 0 <= i < db.executions.len() implies continues(
                db.executions[i],
                #[trigger] after.executions[i],
            ) by {
                assert(continues(db.executions[i], db.executions[i]));
            }
        },
        _ => {
            assert(after.executions == db.executions);
            assert forall|i: int| 0 <= i < db.executions.len() implies continues(
                db.executions[i],
                #[trigger] after.executions[i],
            ) by {
                assert(continues(db.executions[i], db.executions[i]));
            }
        },
    }
}

/// An execution ends once: after it has been finished, finishing it again and
/// starting it are refused, and change nothing.
pub proof fn an_execution_ends_once(
    db: DatabaseView,
    id: Seq<char>,
    state: ExecutionState,
    outcome: ExecutionOutcomeView,
    now: i64,
    again: ExecutionState,
    other: ExecutionOutcomeView,
    later: i64,
    pid: u32,
    pgid: i32,
)
    requires
        model::terminal(state),
        executions::finish_step(db, id, state, outcome, now).1 is Ok,
    ensures
        ({
            let done = executions::finish_step(db, id, state, outcome, now).0;
            &&& executions::finish_step(done, id, again, other, later) == (
                done,
                Err::<ExecutionEventView, ErrorView>(ErrorView::AlreadyTerminal(id)),
            )
            &&& executions::mark_running_step(done, id, pid, pgid, later) == (
                done,
                Err::<ExecutionEventView, ErrorView>(ErrorView::AlreadyTerminal(id)),
            )
        }),
{
    let test = |row: ExecutionRowView| row.id == id;
    order::position_is_first(db.executions, test);
    let at = rows::execution_place(db, id)->0;
    let done = executions::finish_step(db, id, state, outcome, now).0;
    assert(order::first_at(done.executions, test, at));
    order::position_found(done.executions, test, at);
}

/// Two requests that differ only in the values of their variables and in
/// their input leave the same record.
pub proof fn secrets_are_not_stored(
    db: DatabaseView,
    one: ExecutionRequestView,
    other: ExecutionRequestView,
    cwd: Seq<char>,
    id: Seq<char>,
    now: i64,
)
    requires
        one.workspace_id == other.workspace_id,
        one.command == other.command,
        one.initiator == other.initiator,
        one.env.map_values(|var: crate::model::EnvVarView| var.key) == other.env.map_values(
            |var: crate::model::EnvVarView| var.key,
        ),
        model::request_fault(one) is None,
        model::request_fault(other) is None,
    ensures
        executions::create_execution_step(db, one, cwd, id, now) == executions::create_execution_step(
            db,
            other,
            cwd,
            id,
            now,
        ),
{
    assert(executions::queued_row(one, cwd, id, now) == executions::queued_row(other, cwd, id, now));
}

/// After a restart nothing is queued or running any more, and what had ended
/// before is as it was.
pub proof fn restart_leaves_nothing_open(db: DatabaseView, now: i64)
    ensures
        retention::reconciled(db, now).executions.len() == db.executions.len(),
        forall|i: int|
            0 <= i < db.executions.len() ==> model::terminal(
                (#[trigger] retention::reconciled(db, now).executions[i]).state,
            ),
        forall|i: int|
            0 <= i < db.executions.len() && model::terminal(db.executions[i].state)
                ==> #[trigger] retention::reconciled(db, now).executions[i] == db.executions[i],
{
}

/// Cancelling the queue leaves nothing queued and touches nothing else.
pub proof fn cancelling_the_queue_spares_the_rest(db: DatabaseView, now: i64)
    ensures
        retention::queue_cancelled(db, now).executions.len() == db.executions.len(),
        forall|i: int|
            0 <= i < db.executions.len() ==> (#[trigger] retention::queue_cancelled(
                db,
                now,
            ).executions[i]).state != ExecutionState::Queued,
        forall|i: int|
            0 <= i < db.executions.len() && db.executions[i].state != ExecutionState::Queued
                ==> #[trigger] retention::queue_cancelled(db, now).executions[i] == db.executions[i],
{
}

/// Registering a directory again under its name gives the same workspace and
/// changes nothing while it is registered.
pub proof fn registering_again_is_idempotent(
    db: DatabaseView,
    name: Seq<char>,
    root: Seq<char>,
    id: Seq<char>,
    now: i64,
    other: Seq<char>,
    later: i64,
)
    requires
        workspaces::add_workspace_step(db, name, root, true, id, now).1 is Ok,
    ensures
        workspaces::add_workspace_step(
            workspaces::add_workspace_step(db, name, root, true, id, now).0,
            name,
            root,
            true,
            other,
            later,
        ) == workspaces::add_workspace_step(db, name, root, true, id, now),
{
    let (done, answer) = workspaces::add_workspace_step(db, name, root, true, id, now);
    let test = |row: WorkspaceRowView| row.workspace.root == root;
    order::position_is_first(db.workspaces, test);
    let at = match rows::root_place(db, root) {
        Some(at) => at,
        None => db.workspaces.len() as int,
    };
    assert(order::first_at(done.workspaces, test, at));
    order::position_found(done.workspaces, test, at);
    assert(workspaces::with_active(done, at, true).workspaces =~= done.workspaces);
}

/// Removing a workspace takes it off the list and keeps it: it is no longer
/// found, its identifier, name and root and every execution stay as they are,
/// removing it once more changes nothing, and registering it again gives the
/// same one back. What goes by the identifier is to be told apart, and a
/// workspace that nothing goes by is not found.
pub proof fn removing_keeps_the_workspace(
    db: DatabaseView,
    identifier: Seq<char>,
    id: Seq<char>,
    now: i64,
)
    requires
        soundness::sound(db),
        forall|i: int, j: int|
            0 <= i < db.workspaces.len() && 0 <= j < db.workspaces.len() && rows::goes_by(
                (#[trigger] db.workspaces[i]).workspace,
                identifier,
            ) && rows::goes_by((#[trigger] db.workspaces[j]).workspace, identifier) ==> i == j,
    ensures
        rows::known_place(db, identifier) is None ==> workspaces::remove_workspace_step(
            db,
            identifier,
        ) == (db, Err::<(), ErrorView>(ErrorView::WorkspaceNotFound(identifier))),
        rows::known_place(db, identifier) matches Some(at) ==> {
            let workspace = db.workspaces[at].workspace;
            let (removed, answer) = workspaces::remove_workspace_step(db, identifier);
            &&& 0 <= at < db.workspaces.len() && rows::goes_by(workspace, identifier)
            &&& answer == Ok::<(), ErrorView>(())
            &&& removed == workspaces::with_active(db, at, false)
            &&& workspaces::remove_workspace_step(removed, identifier) == (
                removed,
                Ok::<(), ErrorView>(()),
            )
            &&& workspaces::registered(removed, identifier) == Err::<WorkspaceView, ErrorView>(
                ErrorView::WorkspaceNotFound(identifier),
            )
            &&& !workspaces::registered_list(removed).contains(workspace)
            &&& workspaces::add_workspace_step(
                removed,
                workspace.name,
                workspace.root,
                true,
                id,
                now,
            ) == (workspaces::with_active(removed, at, true), Ok::<WorkspaceView, ErrorView>(workspace))
        },
{
    let known = |row: WorkspaceRowView| rows::goes_by(row.workspace, identifier);
    order::position_is_first(db.workspaces, known);
    match rows::known_place(db, identifier) {
        None => {},
        Some(at) => {
            let row = db.workspaces[at];
            let workspace = row.workspace;
            let removed = workspaces::with_active(db, at, false);
            assert forall|k: int| 0 <= k < db.workspaces.len() implies (
            #[trigger] removed.workspaces[k]).workspace == db.workspaces[k].workspace by {}
            assert(order::first_at(removed.workspaces, known, at));
            order::position_found(removed.workspaces, known, at);
            assert(workspaces::with_active(removed, at, false).workspaces =~= removed.workspaces);
            let active = |row: WorkspaceRowView| row.active && rows::goes_by(row.workspace, identifier);
            assert forall|k: int| 0 <= k < removed.workspaces.len() implies !active(
                #[trigger] removed.workspaces[k],
            ) by {
                if rows::goes_by(removed.workspaces[k].workspace, identifier) {
                    assert(rows::goes_by(db.workspaces[k].workspace, identifier));
                    assert(rows::goes_by(db.workspaces[at].workspace, identifier));
                }
            }
            order::position_missing(removed.workspaces, active);
            let roots = |row: WorkspaceRowView| row.workspace.root == workspace.root;
            assert forall|k: int| 0 <= k < at implies !roots(#[trigger] removed.workspaces[k]) by {
                assert(soundness::workspace_root()(db.workspaces[k])
                    != soundness::workspace_root()(db.workspaces[at]));
            }
            assert(order::first_at(removed.workspaces, roots, at));
            order::position_found(removed.workspaces, roots, at);
            listed_are_active(removed);
            let list = workspaces::registered_list(removed);
            if list.contains(workspace) {
                let k = choose|k: int| 0 <= k < list.len() && list[k] == workspace;
                let j = choose|j: int|
                    0 <= j < removed.workspaces.len() && (#[trigger] removed.workspaces[j]).active
                        && removed.workspaces[j].workspace == list[k];
                if j < at {
                    assert(soundness::workspace_id()(db.workspaces[j])
                        != soundness::workspace_id()(db.workspaces[at]));
                } else if j > at {
                    assert(soundness::workspace_id()(db.workspaces[at])
                        != soundness::workspace_id()(db.workspaces[j]));
                }
            }
        },
    }
}

/// What is listed is registered.
proof fn listed_are_active(db: DatabaseView)
    ensures
        forall|k: int|
            0 <= k < workspaces::registered_list(db).len() ==> exists|j: int|
                0 <= j < db.workspaces.len() && (#[trigger] db.workspaces[j]).active
                    && db.workspaces[j].workspace == #[trigger] workspaces::registered_list(db)[k],
{
    let test = |i: int| db.workspaces[i].active;
    order::matching_is_exact(db.workspaces.len(), test);
    let at = order::matching(db.workspaces.len(), test);
    let list = order::picked(db.workspaces, at).map_values(
        |row: WorkspaceRowView| row.workspace,
    );
    let names = list.map_values(|workspace: WorkspaceView| order::ascii_folded(workspace.name));
    let sorted = order::stable_order(list.len(), order::listed_above(names));
    order::order_is_complete(list.len(), order::listed_above(names));
    assert forall|k: int| 0 <= k < workspaces::registered_list(db).len() implies exists|j: int|
        0 <= j < db.workspaces.len() && (#[trigger] db.workspaces[j]).active
            && db.workspaces[j].workspace == #[trigger] workspaces::registered_list(db)[k] by {
        let i = sorted[k];
        assert(0 <= i < list.len());
        let j = at[i];
        assert(list[i] == db.workspaces[j].workspace);
        assert(db.workspaces[j].active);
    }
}

/// Forgetting history touches no execution that has not ended, and leaves
/// workspaces, sessions and turns as they are.
pub proof fn pruning_spares_what_is_open(
    db: DatabaseView,
    retention_days: u64,
    retention_bytes: u64,
    now: i64,
)
    ensures
        ({
            let (after, answer) = retention::prune_step(db, retention_days, retention_bytes, now);
            &&& after.workspaces == db.workspaces
            &&& after.sessions == db.sessions
            &&& after.turns == db.turns
            &&& forall|i: int|
                0 <= i < db.executions.len() && !model::terminal((#[trigger] db.executions[i]).state)
                    ==> after.executions.contains(db.executions[i])
            &&& forall|k: int|
                0 <= k < after.executions.len() ==> db.executions.contains(
                    #[trigger] after.executions[k],
                )
        }),
{
    let rows = db.executions;
    let cutoff = now - retention_days * crate::store::retention::DAY_MS;
    let keep = |i: int| retention::stays(rows, cutoff, retention_bytes, i);
    order::retained_is_exact(rows, keep, 0);
    let (after, answer) = retention::prune_step(db, retention_days, retention_bytes, now);
    if answer is Ok {
        assert forall|i: int| 0 <= i < rows.len() && !model::terminal((#[trigger] rows[i]).state) implies
            after.executions.contains(rows[i]) by {
            open_is_not_crowded_out(rows, cutoff, retention_bytes, i);
            assert(keep(i));
        }
        assert forall|k: int| 0 <= k < after.executions.len() implies rows.contains(
            #[trigger] after.executions[k],
        ) by {
            assert(crate::order::kept_entry(rows, keep, 0, order::retained(rows, keep, 0)[k]));
        }
    } else {
        assert forall|i: int| 0 <= i < rows.len() implies rows.contains(#[trigger] rows[i]) by {}
    }
}

proof fn open_is_not_crowded_out(
    rows: Seq<ExecutionRowView>,
    cutoff: int,
    retention_bytes: u64,
    i: int,
)
    requires
        0 <= i < rows.len(),
        !model::terminal(rows[i].state),
    ensures
        !crate::store::retention::crowded_out(rows, cutoff, retention_bytes).contains(i),
{
    let test = |i: int| !retention::expired(rows[i], cutoff) && model::terminal(rows[i].state);
    let ended = order::matching(rows.len(), test);
    crate::order::matching_is_exact(rows.len(), test);
    let keys = ended.map_values(|i: int| crate::store::retention::end_key(rows[i]));
    crate::order::order_is_complete(keys.len(), crate::order::key_above(keys));
    let goers = crate::store::retention::may_go(rows, cutoff);
    assert forall|k: int| 0 <= k < goers.len() implies model::terminal(rows[#[trigger] goers[k]].state) by {
        let o = crate::order::stable_order(keys.len(), crate::order::key_above(keys))[k];
        assert(goers[k] == ended[o]);
        assert(test(ended[o]));
    }
    let gone = crate::store::retention::crowded_out(rows, cutoff, retention_bytes);
    let total = crate::store::retention::bytes_held(
        rows,
        |i: int| !retention::expired(rows[i], cutoff),
        rows.len(),
    );
    let sizes = goers.map_values(|i: int| rows[i].captured_bytes as int);
    crate::store::retention::taken_bounds(sizes, total - retention_bytes);
    if gone.contains(i) {
        let k = choose|k: int| 0 <= k < gone.len() && gone[k] == i;
        assert(goers[k] == i);
    }
}

/// Deleting a session keeps every execution that was run under it; only the
/// link is gone.
pub proof fn deleting_a_session_keeps_its_executions(db: DatabaseView, id: Seq<char>)
    requires
        session_reading::delete_session_step(db, id).1 is Ok,
    ensures
        ({
            let after = session_reading::delete_session_step(db, id).0;
            &&& after.executions.len() == db.executions.len()
            &&& forall|i: int|
                0 <= i < db.executions.len() ==> {
                    let row = #[trigger] after.executions[i];
                    &&& row.id == db.executions[i].id
                    &&& row.state == db.executions[i].state
                    &&& row.outcome == db.executions[i].outcome
                    &&& row.events == db.executions[i].events
                    &&& row.session_id != Some(id)
                }
            &&& rows::session_place(after, id) is None
        }),
{
    let after = session_reading::delete_session_step(db, id).0;
    let keep = |i: int| db.sessions[i].id != id;
    order::retained_is_exact(db.sessions, keep, 0);
    assert forall|k: int| 0 <= k < after.sessions.len() implies (#[trigger] after.sessions[k]).id
        != id by {
        assert(crate::order::kept_entry(
            db.sessions,
            keep,
            0,
            order::retained(db.sessions, keep, 0)[k],
        ));
    }
    crate::order::position_missing(after.sessions, |row: SessionRowView| row.id == id);
}

/// The variables of a well-formed request are kept by their keys, which stand
/// in order and none of them twice; their values are not kept.
pub proof fn variables_are_kept_in_order(
    db: DatabaseView,
    request: ExecutionRequestView,
    cwd: Seq<char>,
    id: Seq<char>,
    now: i64,
)
    requires
        request.well_formed(),
    ensures
        executions::create_execution_step(db, request, cwd, id, now).1 matches Ok(execution)
            ==> execution.env_keys == request.env.map_values(|var: EnvVarView| var.key)
            && model::texts_ascend(execution.env_keys)
            && executions::create_execution_step(db, request, cwd, id, now).0.executions.last().env_keys
            == execution.env_keys,
{
}

/// A page of events takes up exactly where the reading stood and goes on
/// without a gap: its events are numbered one after the other, it gives at
/// least one event while there is one, and it says that there is more exactly
/// while there is.
pub proof fn a_page_continues_the_reading(
    row: ExecutionRowView,
    after_seq: u64,
    max_bytes: usize,
    now: i64,
)
    requires
        after_seq <= row.events.len(),
        row.events.len() <= i64::MAX,
    ensures
        ({
            let page = reading::page_of(row, after_seq, max_bytes, now);
            &&& page.next_seq == after_seq + page.events.len()
            &&& page.next_seq <= row.events.len()
            &&& after_seq < row.events.len() ==> page.events.len() > 0
            &&& page.has_more == (page.next_seq < row.events.len())
            &&& forall|k: int|
                0 <= k < page.events.len() ==> (#[trigger] page.events[k]).seq == after_seq + k + 1
                    && page.events[k] == executions::event_of(
                    row.id,
                    (after_seq + k + 1) as u64,
                    row.events[after_seq + k],
                )
        }),
{
    let start = reading::page_start(after_seq);
    reading::page_end_bounds(row.events, start, start, 0, max_bytes as int);
    if start < row.events.len() {
        reading::page_end_bounds(
            row.events,
            start,
            start + 1,
            crate::store::reading::held(crate::store::reading::event_size(row.events[start])),
            max_bytes as int,
        );
    }
}

/// How much the events from place `from` to place `to` count for in a page.
pub open spec fn size_of_events(events: Seq<StoredEventView>, from: int, to: int) -> int
    decreases to - from,
{
    if to <= from {
        0
    } else {
        size_of_events(events, from, to - 1) + reading::event_size(events[to - 1])
    }
}

proof fn a_page_fills_up(events: Seq<StoredEventView>, start: int, at: int, max_bytes: int)
    requires
        0 <= start <= at <= events.len(),
        at - start <= reading::PAGE_EVENTS,
        at <= start + 1 || reading::held(size_of_events(events, start, at)) <= max_bytes,
    ensures
        ({
            let used = reading::held(size_of_events(events, start, at));
            let end = reading::page_end(events, start, at, used, max_bytes);
            &&& at <= end <= events.len()
            &&& end - start <= reading::PAGE_EVENTS
            &&& end <= start + 1 || reading::held(size_of_events(events, start, end)) <= max_bytes
            &&& end < events.len() && end - start < reading::PAGE_EVENTS ==> reading::held(
                size_of_events(events, start, end + 1),
            ) > max_bytes
        }),
    decreases events.len() - at,
{
    if at < events.len() && at - start < reading::PAGE_EVENTS {
        let used = reading::held(size_of_events(events, start, at));
        let more = reading::held(used + reading::event_size(events[at]));
        assert(more == reading::held(size_of_events(events, start, at + 1)));
        if at == start || more <= max_bytes {
            a_page_fills_up(events, start, at + 1, max_bytes);
        }
    }
}

/// A page holds no more events than a page may, and no more bytes than were
/// asked for, unless it holds a single event; and it is cut short by nothing
/// else.
pub proof fn a_page_keeps_to_its_size(
    row: ExecutionRowView,
    after_seq: u64,
    max_bytes: usize,
    now: i64,
)
    requires
        after_seq <= row.events.len(),
        row.events.len() <= i64::MAX,
    ensures
        ({
            let page = reading::page_of(row, after_seq, max_bytes, now);
            let end = after_seq + page.events.len();
            &&& page.events.len() <= reading::PAGE_EVENTS
            &&& page.events.len() <= 1 || reading::held(
                size_of_events(row.events, after_seq as int, end),
            ) <= max_bytes
            &&& page.has_more && page.events.len() < reading::PAGE_EVENTS ==> reading::held(
                size_of_events(row.events, after_seq as int, end + 1),
            ) > max_bytes
        }),
{
    a_page_continues_the_reading(row, after_seq, max_bytes, now);
    a_page_fills_up(row.events, after_seq as int, after_seq as int, max_bytes as int);
}

/// A page is empty exactly where no event is left to read, also for a number
/// beyond the last event; it then stands where the reading stood, and says that
/// there is no more.
pub proof fn a_page_is_empty_at_the_end(
    row: ExecutionRowView,
    after_seq: u64,
    max_bytes: usize,
    now: i64,
)
    requires
        after_seq <= i64::MAX,
        row.events.len() <= i64::MAX,
    ensures
        ({
            let page = reading::page_of(row, after_seq, max_bytes, now);
            &&& (page.events.len() > 0) == (after_seq < row.events.len())
            &&& page.has_more == (page.next_seq < row.events.len())
            &&& page.events.len() == 0 ==> page.next_seq == after_seq && !page.has_more
            &&& page.events.len() > 0 ==> page.next_seq == page.events.last().seq
        }),
{
    if after_seq < row.events.len() {
        a_page_continues_the_reading(row, after_seq, max_bytes, now);
    }
}

/// All events after number `after_seq`, as clients see them.
pub open spec fn events_after(row: ExecutionRowView, after_seq: u64) -> Seq<ExecutionEventView> {
    Seq::new(
        (row.events.len() - after_seq) as nat,
        |k: int| executions::event_of(row.id, (after_seq + k + 1) as u64, row.events[after_seq + k]),
    )
}

/// What a reader has who asks for page after page, each time from where the
/// last one ended, until there is no more.
pub open spec fn read_to_end(row: ExecutionRowView, after_seq: u64, max_bytes: usize, now: i64) -> Seq<
    ExecutionEventView,
>
    decreases row.events.len() - after_seq,
{
    let page = reading::page_of(row, after_seq, max_bytes, now);
    if page.has_more && page.next_seq > after_seq {
        page.events + read_to_end(row, page.next_seq, max_bytes, now)
    } else {
        page.events
    }
}

/// Reading page after page gives every event once and in order, whatever the
/// size of the pages: a reader that comes back with its last number misses
/// nothing and gets nothing twice.
pub proof fn reading_misses_nothing(
    row: ExecutionRowView,
    after_seq: u64,
    max_bytes: usize,
    now: i64,
)
    requires
        after_seq <= row.events.len(),
        row.events.len() <= i64::MAX,
    ensures
        read_to_end(row, after_seq, max_bytes, now) == events_after(row, after_seq),
    decreases row.events.len() - after_seq,
{
    a_page_continues_the_reading(row, after_seq, max_bytes, now);
    let page = reading::page_of(row, after_seq, max_bytes, now);
    if page.has_more && page.next_seq > after_seq {
        reading_misses_nothing(row, page.next_seq, max_bytes, now);
        let rest = read_to_end(row, page.next_seq, max_bytes, now);
        assert(page.events + rest =~= events_after(row, after_seq)) by {
            let n = page.events.len();
            assert forall|k: int| 0 <= k < events_after(row, after_seq).len() implies (page.events
                + rest)[k] == events_after(row, after_seq)[k] by {
                if k < n {
                    assert(page.events[k].seq == after_seq + k + 1);
                } else {
                    assert(rest[k - n] == events_after(row, page.next_seq)[k - n]);
                }
            }
        }
    } else {
        assert(page.events =~= events_after(row, after_seq)) by {
            assert forall|k: int| 0 <= k < page.events.len() implies page.events[k]
                == events_after(row, after_seq)[k] by {
                assert(page.events[k].seq == after_seq + k + 1);
            }
        }
    }
}

} // verus!
