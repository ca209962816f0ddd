//! What a call does to what it is called on.

use vstd::prelude::*;

use crate::daemon::{LiveStep, Subscription};
use crate::error::Error;
use crate::executor;
use crate::executor::{CaptureQueue, Lifecycle};
use crate::model::{
    AgentEventRequest, AgentSession, AgentSessionFinish, AgentSessionRequest, AgentSessionState,
    AgentTurn, Execution, ExecutionEvent, ExecutionEventPayloadView, ExecutionOutcome,
    ExecutionOutcomeView, ExecutionRequest, ExecutionState, OutputStream, Workspace,
};
use crate::order;
use crate::promises::records;
use crate::store::capture::CaptureRecord;
use crate::store::executions;
use crate::store::retention;
use crate::store::room;
use crate::store::rows;
use crate::store::rows::{
    Database, DatabaseView, ExecutionRowView, SessionRowView, StoredEventView, StoredPayloadView,
};
use crate::store::workspaces;
use crate::supervisor::{Supervision, SupervisionAction, SupervisionInput};
use crate::ui;
use crate::ui::OperatorState;
use crate::watch;
use crate::watch::WatchState;

verus! {

/// Tidying the store up goes by the days that are given: nothing stays whose
/// end lies further back than so many times twenty-four hours, and where all
/// that is younger fits, all of it stays, and what is open in any case.
pub proof fn tidying_goes_by_days(
    db: &mut Database,
    days: u64,
    bytes: u64,
    now: i64,
    removed: Result<usize, Error>,
    e: int,
    k: int,
)
    requires
        call_ensures(Database::prune_at, (db, days, bytes, now), removed),
        removed is Ok,
    ensures
        0 <= k < final(db)@.executions.len() ==> !room::too_old(
            final(db)@.executions[k],
            days,
            now,
        ),
        room::bytes_not_too_old(old(db)@.executions, days, now) <= bytes
            && room::bytes_not_too_old(old(db)@.executions, days, now) <= i64::MAX && 0 <= e
            && e < old(db)@.executions.len() && !room::too_old(old(db)@.executions[e], days, now)
            ==> final(db)@.executions.contains(old(db)@.executions[e]),
{
    let before = old(db)@;
    if 0 <= k < retention::prune_step(before, days, bytes, now).0.executions.len() {
        room::what_is_too_old_leaves(before, days, bytes, now, k);
    }
    if room::bytes_not_too_old(before.executions, days, now) <= bytes && room::bytes_not_too_old(
        before.executions,
        days,
        now,
    ) <= i64::MAX {
        room::what_is_young_and_fits_stays(before, days, bytes, now);
        let keep = |i: int| !room::too_old(before.executions[i], days, now);
        order::retained_is_exact(before.executions, keep, 0);
        if 0 <= e < before.executions.len() && keep(e) {
            assert(order::retained(before.executions, keep, 0).contains(before.executions[e]));
        }
    }
}

/// Tidying up by the clock is tidying up at some moment, with the days and the
/// bytes that are given.
pub proof fn tidying_by_the_clock(
    db: &mut Database,
    days: u64,
    bytes: u64,
    removed: Result<usize, Error>,
)
    requires
        call_ensures(Database::prune, (db, days, bytes), removed),
    ensures
        exists|now: i64|
            final(db)@ == (#[trigger] retention::prune_step(old(db)@, days, bytes, now)).0,
{
    let now = choose|now: i64|
        (final(db)@, crate::error::outcome_view(removed, |count: usize| count as int))
            == #[trigger] retention::prune_step(old(db)@, days, bytes, now);
    assert(final(db)@ == retention::prune_step(old(db)@, days, bytes, now).0);
}

/// An execution that is asked for stands behind all others, queued and as it
/// was asked for, under the identifier that is given.
pub proof fn an_execution_is_put_behind(
    db: &mut Database,
    request: &ExecutionRequest,
    cwd: &str,
    id: String,
    now: i64,
    created: Result<Execution, Error>,
)
    requires
        call_ensures(Database::create_execution_at, (db, request, cwd, id, now), created),
    ensures
        match created {
            Ok(execution) => {
                let row = final(db)@.executions.last();
                &&& final(db)@.executions.len() == old(db)@.executions.len() + 1
                &&& final(db)@.executions.drop_last() == old(db)@.executions
                &&& row.id == id@ && row.command == request@.command && row.cwd == cwd@
                &&& row.workspace_id == request@.workspace_id && row.state
                    == ExecutionState::Queued && row.created_at_ms == now
                &&& execution@.id == id@ && execution@.state == ExecutionState::Queued
                &&& records::can_be_run(request@)
            },
            Err(error) => final(db)@ == old(db)@,
        },
{
    records::only_what_cannot_be_run_is_refused(request@);
    if created is Ok {
        assert(final(db)@.executions.drop_last() =~= old(db)@.executions);
    }
}

/// A process that is noted to have started is the one that is given, and its
/// execution runs from then on.
pub proof fn a_start_is_noted(
    db: &mut Database,
    id: &str,
    pid: u32,
    pgid: i32,
    now: i64,
    marked: Result<ExecutionEvent, Error>,
    at: int,
)
    requires
        call_ensures(Database::mark_running_at, (db, id, pid, pgid, now), marked),
        order::first_at(old(db)@.executions, |row: ExecutionRowView| row.id == id@, at),
    ensures
        old(db)@.executions[at].state != ExecutionState::Queued ==> marked is Err && final(db)@
            == old(db)@,
        old(db)@.executions[at].state == ExecutionState::Queued ==> {
            let row = final(db)@.executions[at];
            &&& row.state == ExecutionState::Running && row.started_at_ms == Some(now)
            &&& row.pid == Some(pid) && row.pgid == Some(pgid)
            &&& row.outcome == old(db)@.executions[at].outcome
            &&& row.events.last() == (StoredEventView {
                timestamp_ms: now,
                payload: StoredPayloadView::Started { pid, pgid },
            })
            &&& marked matches Ok(event) && event@.payload == (
            ExecutionEventPayloadView::Started { pid, pgid })
        },
{
    order::position_found(old(db)@.executions, |row: ExecutionRowView| row.id == id@, at);
}

/// An end that is noted is the one that is given, and is noted once.
pub proof fn an_end_is_noted(
    db: &mut Database,
    id: &str,
    state: ExecutionState,
    outcome: ExecutionOutcome,
    now: i64,
    finished: Result<ExecutionEvent, Error>,
    at: int,
)
    requires
        call_ensures(Database::finish_at, (db, id, state, outcome, now), finished),
        order::first_at(old(db)@.executions, |row: ExecutionRowView| row.id == id@, at),
    ensures
        ({
            let before = old(db)@.executions[at];
            let row = final(db)@.executions[at];
            if before.state == ExecutionState::Queued || before.state == ExecutionState::Running {
                &&& row.state == state && row.outcome == Some(outcome@) && row.ended_at_ms == Some(
                    now,
                )
                &&& row.started_at_ms == before.started_at_ms && row.command == before.command
                &&& finished matches Ok(event) && event@.payload == (
                ExecutionEventPayloadView::Finished { outcome: outcome@ })
            } else {
                finished is Err && final(db)@ == old(db)@
            }
        }),
{
    order::position_found(old(db)@.executions, |row: ExecutionRowView| row.id == id@, at);
}

/// Registering a directory gives its workspace, with the name and the root that
/// were asked for; where it is refused nothing changes.
pub proof fn a_registration_is_kept(
    db: &mut Database,
    name: &str,
    root: &str,
    is_directory: bool,
    id: String,
    now: i64,
    added: Result<Workspace, Error>,
)
    requires
        call_ensures(Database::add_workspace_at, (db, name, root, is_directory, id, now), added),
    ensures
        match added {
            Ok(workspace) => {
                &&& workspace@.name == name@ && workspace@.root == root@ && is_directory
                &&& exists|w: int|
                    0 <= w < final(db)@.workspaces.len() && (
                    #[trigger] final(db)@.workspaces[w]).active
                        && final(db)@.workspaces[w].workspace == workspace@
            },
            Err(error) => final(db)@ == old(db)@,
        },
{
    let before = old(db)@;
    let test = |row: rows::WorkspaceRowView| row.workspace.root == root@;
    order::position_is_first(before.workspaces, test);
    if added is Ok {
        match rows::root_place(before, root@) {
            Some(at) => {
                assert(test(before.workspaces[at]));
                assert(final(db)@.workspaces[at].active);
            },
            None => {
                let at = before.workspaces.len() as int;
                assert(final(db)@.workspaces[at].active);
            },
        }
    }
}

/// Whatever removes a workspace names it, and leaves everything that was run.
pub proof fn an_unregistration_keeps_the_work(
    db: &mut Database,
    identifier: &str,
    removed: Result<(), Error>,
)
    requires
        call_ensures(Database::remove_workspace, (db, identifier), removed),
    ensures
        final(db)@.executions == old(db)@.executions && final(db)@.sessions == old(db)@.sessions,
        final(db)@.workspaces.len() == old(db)@.workspaces.len(),
        removed is Err ==> final(db)@ == old(db)@,
        removed is Ok == exists|w: int|
            0 <= w < old(db)@.workspaces.len() && ((#[trigger] old(db)@.workspaces[w]).workspace.id
                == identifier@ || old(db)@.workspaces[w].workspace.name == identifier@),
{
    let before = old(db)@;
    let test = |row: rows::WorkspaceRowView| rows::goes_by(row.workspace, identifier@);
    order::position_is_first(before.workspaces, test);
    match rows::known_place(before, identifier@) {
        Some(w) => {
            assert(test(before.workspaces[w]));
            assert(before.workspaces[w].workspace.id == identifier@
                || before.workspaces[w].workspace.name == identifier@);
        },
        None => {
            assert forall|w: int| 0 <= w < before.workspaces.len() implies !((
            #[trigger] before.workspaces[w]).workspace.id == identifier@
                || before.workspaces[w].workspace.name == identifier@) by {
                assert(!test(before.workspaces[w]));
            }
        },
    }
}

/// The recording of a session begins as it was asked for and ends as it was
/// reported.
pub proof fn a_recording_begins_and_ends(
    db: &mut Database,
    request: &AgentSessionRequest,
    cwd: &str,
    now: i64,
    created: Result<AgentSession, Error>,
)
    requires
        call_ensures(Database::create_agent_session_at, (db, request, cwd, now), created),
    ensures
        match created {
            Ok(session) => session@.id == request@.id && session@.command == request@.command
                && session@.cwd == cwd@ && session@.state == AgentSessionState::Recording
                && session@.created_at_ms == now && final(db)@.sessions.len()
                == old(db)@.sessions.len() + 1 && final(db)@.executions == old(db)@.executions,
            Err(error) => final(db)@ == old(db)@,
        },
{
}

/// The end that is reported of a recording is the one that is kept.
pub proof fn a_recording_ends_as_reported(
    db: &mut Database,
    id: &str,
    finish: &AgentSessionFinish,
    now: i64,
    finished: Result<AgentSession, Error>,
    at: int,
)
    requires
        call_ensures(Database::finish_agent_session_at, (db, id, finish, now), finished),
        order::first_at(old(db)@.sessions, |row: SessionRowView| row.id == id@, at),
        old(db)@.sessions[at].state == AgentSessionState::Recording,
        finished is Ok,
    ensures
        final(db)@.sessions[at].state == finish@.state,
        final(db)@.sessions[at].outcome == Some(finish@.outcome),
        final(db)@.sessions[at].ended_at_ms == Some(now),
        final(db)@.executions == old(db)@.executions,
        finished matches Ok(session) && session@.outcome == Some(finish@.outcome),
{
    order::position_found(old(db)@.sessions, |row: SessionRowView| row.id == id@, at);
}

/// What an agent reports leaves the executions and the workspaces as they are,
/// and the turn that is told belongs to the session that was named.
pub proof fn a_report_is_kept(
    db: &mut Database,
    request: &AgentEventRequest,
    turn_id: String,
    action_id: String,
    now: i64,
    recorded: Result<AgentTurn, Error>,
)
    requires
        call_ensures(
            Database::record_agent_event_at,
            (db, request, turn_id, action_id, now),
            recorded,
        ),
    ensures
        final(db)@.executions == old(db)@.executions,
        final(db)@.workspaces == old(db)@.workspaces,
        final(db)@.sessions == old(db)@.sessions,
        recorded matches Ok(turn) ==> turn@.session_id == request@.session_id,
{
    let before = old(db)@;
    match request@.event {
        crate::model::AgentEventView::PromptSubmitted { prompt } => {
            let cut = DatabaseView {
                turns: crate::store::sessions::superseded(before.turns, request@, now),
                ..before
            };
            match request@.provider_turn_id {
                Some(named) => {
                    order::position_is_first(
                        cut.turns,
                        |turn: crate::model::AgentTurnView|
                            crate::store::sessions::same_thread(turn, request@)
                                && turn.provider_turn_id == Some(named),
                    );
                },
                None => {},
            }
        },
        _ => {
            crate::promises::turns::a_report_goes_to_its_turn(before, request@, turn_id@, now);
        },
    }
}

/// After a restart nothing is open: what was open is interrupted, and what had
/// ended stays as it was. It is said how many there were.
pub proof fn a_restart_leaves_nothing_open(db: &mut Database, now: i64, count: usize, e: int)
    requires
        call_ensures(Database::reconcile_incomplete_at, (db, now), count),
        0 <= e < old(db)@.executions.len(),
    ensures
        final(db)@.executions.len() == old(db)@.executions.len(),
        ({
            let before = old(db)@.executions[e];
            let row = final(db)@.executions[e];
            if before.state == ExecutionState::Queued || before.state == ExecutionState::Running {
                row.state == ExecutionState::Interrupted && row.ended_at_ms == Some(now)
                    && row.outcome matches Some(ExecutionOutcomeView::Interrupted { reason })
            } else {
                row == before
            }
        }),
{
}

/// Cancelling the queue ends what is queued as cancelled, and leaves the rest.
pub proof fn the_queue_is_cancelled(
    db: &mut Database,
    now: i64,
    events: Vec<ExecutionEvent>,
    e: int,
)
    requires
        call_ensures(Database::cancel_queued_at, (db, now), events),
        0 <= e < old(db)@.executions.len(),
    ensures
        ({
            let before = old(db)@.executions[e];
            let row = final(db)@.executions[e];
            if before.state == ExecutionState::Queued {
                row.state == ExecutionState::Cancelled && row.ended_at_ms == Some(now)
                    && row.outcome == Some(ExecutionOutcomeView::Cancelled { signal: None })
            } else {
                row == before
            }
        }),
{
}

/// The first request to cancel asks the group of the command to end, and a
/// further one does not ask again.
pub proof fn a_cancel_asks_the_group_to_end(
    state: &mut Supervision,
    input: SupervisionInput,
    action: SupervisionAction,
)
    requires
        call_ensures(Supervision::step, (state, input), action),
        input is Cancel,
        old(state)@.ended is None,
    ensures
        final(state)@.cancelled,
        (action matches SupervisionAction::Terminate { matters }) == !old(state)@.cancelled,
        old(state)@.cancelled ==> final(state)@ == old(state)@,
{
}

/// A record that is queued is the last one that waits, or goes out with all
/// that waited before it.
pub proof fn a_record_waits_behind_the_others(
    queue: &mut CaptureQueue,
    record: CaptureRecord,
    batch: Option<Vec<CaptureRecord>>,
)
    requires
        call_ensures(CaptureQueue::push, (queue, record), batch),
    ensures
        match batch {
            None => final(queue)@.records == old(queue)@.records.push(record@),
            Some(out) => final(queue)@.records.len() == 0
                && crate::store::capture::record_views(out@) == old(queue)@.records.push(record@),
        },
        final(queue)@.pending_error == old(queue)@.pending_error,
{
}

/// An engine that begins to run out no longer takes work.
pub proof fn an_engine_begins_to_run_out(lifecycle: &mut Lifecycle, begun: bool)
    requires
        call_ensures(executor::begin_drain, (lifecycle,), begun),
    ensures
        *final(lifecycle) != Lifecycle::Accepting,
        begun == (*old(lifecycle) != Lifecycle::Stopped),
{
}

/// An event that happens is sent on to a subscriber who has all before it, and
/// only to one of its execution; then the subscriber has it too.
pub proof fn live_events_are_sent_on(
    subscription: &mut Subscription,
    event: ExecutionEvent,
    step: LiveStep,
)
    requires
        call_ensures(Subscription::live_event, (subscription, event), step),
    ensures
        step is Send ==> event@.execution_id == old(subscription)@.execution_id && event@.seq
            == old(subscription)@.cursor + 1 && final(subscription)@.cursor == event@.seq,
        !(step is Send) ==> final(subscription)@ == old(subscription)@,
        event@.execution_id == old(subscription)@.execution_id && event@.seq
            == old(subscription)@.cursor + 1 ==> step is Send,
{
}

/// What is stored of a command's output is put on its stream.
pub proof fn output_is_stored_on_its_stream(
    db: &mut Database,
    id: &str,
    stream: OutputStream,
    data: &[u8],
    appended: Result<ExecutionEvent, Error>,
    at: int,
)
    requires
        call_ensures(Database::append_output, (db, id, stream, data), appended),
        order::first_at(old(db)@.executions, |row: ExecutionRowView| row.id == id@, at),
        appended is Ok,
    ensures
        final(db)@.executions[at].events.len() == old(db)@.executions[at].events.len() + 1,
        final(db)@.executions[at].events.last().payload == (StoredPayloadView::Output {
            stream,
            data: data@,
        }),
{
    order::position_found(old(db)@.executions, |row: ExecutionRowView| row.id == id@, at);
}

/// A key does to the view of a workspace, and to that of a session, what is
/// said of it.
pub proof fn keys_do_what_is_said_of_them(
    state: &mut OperatorState,
    key: crate::screen::KeyEvent,
    command: ui::Command,
    other: &mut WatchState,
    asked: watch::Command,
)
    requires
        call_ensures(OperatorState::handle_key, (state, key), command),
        call_ensures(WatchState::handle_key, (other, key), asked),
    ensures
        (final(state)@, command@) == ui::key_handled(old(state)@, key),
        (final(other)@, asked) == watch::key_handled(old(other)@, key),
{
}

} // verus!
