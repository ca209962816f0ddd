//! How executions are admitted, captured, waited for and wound up.

use vstd::prelude::*;

use crate::error;
use crate::error::ErrorView;
use crate::executor;
use crate::executor::{
    CancelLook, CaptureMeter, CaptureQueueView, Lifecycle, RunActionView, RunInputView,
    RunPhaseView, RunView,
};
use crate::model::{
    ExecutionEventView, ExecutionOutcomeView, ExecutionRequestView, ExecutionState, OutputStream,
    ReadOutputResponseView,
};
use crate::order;
use crate::paths;
use crate::slots;
use crate::slots::{SlotEvent, SlotsView};
use crate::promises::places;
use crate::promises::records;
use crate::store::capture::CaptureRecordView;
use crate::store::rows;
use crate::store::rows::{DatabaseView, WorkspaceRowView};
use crate::supervisor::SupervisorCommandView;

verus! {

/// A request is let in where it can be carried out, the engine is open for work
/// and the workspace is registered under the identifier or the name that the
/// request gives. It runs in the directory that it asks for: one that is
/// relative goes on from the root of the workspace, and without one it is the
/// root.
pub proof fn what_can_be_run_is_let_in(
    db: DatabaseView,
    lifecycle: Lifecycle,
    request: ExecutionRequestView,
)
    ensures
        match executor::prepared(db, lifecycle, request) {
            Ok((workspace, cwd)) => {
                &&& records::can_be_run(request)
                &&& lifecycle == Lifecycle::Accepting
                &&& exists|w: int|
                    0 <= w < db.workspaces.len() && (#[trigger] db.workspaces[w]).active
                        && db.workspaces[w].workspace == workspace && (workspace.id
                        == request.workspace_id || workspace.name == request.workspace_id)
                &&& match request.cwd {
                    None => cwd == workspace.root,
                    Some(path) => if path.len() > 0 && path[0] == '/' {
                        cwd == path
                    } else {
                        workspace.root.len() > 0 ==> paths::components(cwd) == paths::components(
                            workspace.root,
                        ) + places::going_on(path)
                    },
                }
            },
            Err(error) => {
                ||| !records::can_be_run(request) && error is InvalidRequest
                ||| lifecycle != Lifecycle::Accepting && error is DaemonDraining
                ||| (forall|w: int|
                    0 <= w < db.workspaces.len() && (#[trigger] db.workspaces[w]).active
                        ==> db.workspaces[w].workspace.id != request.workspace_id
                        && db.workspaces[w].workspace.name != request.workspace_id)
            },
        },
{
    records::only_what_cannot_be_run_is_refused(request);
    let test = |row: WorkspaceRowView|
        row.active && rows::goes_by(row.workspace, request.workspace_id);
    order::position_is_first(db.workspaces, test);
    match executor::prepared(db, lifecycle, request) {
        Ok((workspace, cwd)) => {
            let w = rows::registered_place(db, request.workspace_id)->0;
            assert(test(db.workspaces[w]));
            if request.cwd is Some && workspace.root.len() > 0 {
                places::a_joined_path_goes_on(workspace.root, request.cwd->0);
            }
        },
        Err(error) => {
            if records::can_be_run(request) && lifecycle == Lifecycle::Accepting {
                assert forall|w: int|
                    0 <= w < db.workspaces.len() && (
                    #[trigger] db.workspaces[w]).active implies db.workspaces[w].workspace.id
                    != request.workspace_id && db.workspaces[w].workspace.name
                    != request.workspace_id by {
                    assert(!test(db.workspaces[w]));
                }
            }
        },
    }
}

/// Of a piece of output the front is kept, under the execution, the stream and
/// the time it came with: all of it while the limit allows, and no more than
/// that. The first time that something is lost this is noted, with the limit,
/// and never again.
pub proof fn the_front_of_a_piece_is_kept(
    meter: CaptureMeter,
    id: Seq<char>,
    stream: OutputStream,
    data: Seq<u8>,
    now: i64,
)
    requires
        meter.seen + data.len() <= u64::MAX,
    ensures
        ({
            let (after, records) = executor::measured(meter, id, stream, data, now);
            let room = if meter.seen < meter.limit {
                meter.limit - meter.seen
            } else {
                0
            };
            let lost = data.len() > room;
            &&& after.limit == meter.limit && after.seen == meter.seen + data.len()
            &&& after.truncated == (meter.truncated || lost)
            &&& !lost && data.len() > 0 ==> records == seq![
                CaptureRecordView::Output { execution_id: id, timestamp_ms: now, stream, data },
            ]
            &&& data.len() == 0 ==> records.len() == 0
            &&& forall|k: int|
                0 <= k < records.len() ==> match #[trigger] records[k] {
                    CaptureRecordView::Output {
                        execution_id,
                        timestamp_ms,
                        stream: on,
                        data: kept,
                    } => k == 0 && execution_id == id && timestamp_ms == now && on == stream && kept
                        == data.take(
                        if lost {
                            room
                        } else {
                            data.len() as int
                        },
                    ),
                    CaptureRecordView::Truncated { execution_id, timestamp_ms, limit_bytes } => k
                        == records.len() - 1 && lost && !meter.truncated && execution_id == id
                        && limit_bytes == meter.limit,
                }
            &&& lost && room > 0 ==> records.len() > 0 && records[0] is Output
            &&& lost && !meter.truncated ==> records.len() > 0 && records.last() is Truncated
        }),
{
    let (after, records) = executor::measured(meter, id, stream, data, now);
    if data.len() > 0 && executor::kept_of(meter, data.len() as int) == data.len() {
        assert(data.take(data.len() as int) =~= data);
        assert(records =~= seq![
            CaptureRecordView::Output { execution_id: id, timestamp_ms: now, stream, data },
        ]);
    }
}

/// A batch that could not be stored is reported at the next barrier, with its
/// message and once; a barrier without such a batch passes. What waits stays.
pub proof fn a_failed_batch_is_reported_once(queue: CaptureQueueView, message: Seq<char>)
    ensures
        ({
            let (after, reported) = executor::barrier(executor::failed_batch(queue, message));
            &&& reported == Err::<(), ErrorView>(ErrorView::StorageUnavailable(message))
            &&& after.records == queue.records
            &&& executor::barrier(after) == (after, Ok::<(), ErrorView>(()))
        }),
{
}

/// Batches are of sixty-four records, so that fewer than that wait.
pub proof fn a_full_batch_is_stored(queue: CaptureQueueView, record: CaptureRecordView)
    requires
        queue.records.len() < 64,
    ensures
        ({
            let (after, batch) = executor::queued(queue, record);
            &&& after.records.len() < 64
            &&& (batch is Some) == (queue.records.len() == 63)
            &&& batch matches Some(records) ==> records == queue.records.push(record)
        }),
{
}

/// A run that fails leaves no execution open that is known to be: it is
/// interrupted, with the failure as the reason. Only a store that is gone stops
/// the daemon.
pub proof fn a_failed_run_interrupts(failure: ErrorView, current: Option<ExecutionState>)
    ensures
        executor::ending_on_failure(failure, current) == (if current == Some(
            ExecutionState::Queued,
        ) || current == Some(ExecutionState::Running) {
            Some(ExecutionOutcomeView::Interrupted { reason: error::error_message(failure) })
        } else {
            None
        }),
        (executor::fatal_part(failure) is Some) == (failure is StorageUnavailable),
{
}

/// Whoever waits is told what there is to read, and the execution with it; and
/// is told so at once where there is something to read or the execution has
/// ended. Of what comes, that wakes the one who waits which is of the execution
/// and has not been read.
pub proof fn who_waits_is_told(
    page: ReadOutputResponseView,
    timed_out: bool,
    event: ExecutionEventView,
    id: Seq<char>,
    after_seq: u64,
)
    ensures
        ({
            let answer = executor::wait_answer(page, timed_out);
            &&& answer.execution == page.execution && answer.events == page.events
            &&& answer.next_seq == page.next_seq && answer.has_more == page.has_more
            &&& answer.timed_out == timed_out
        }),
        !executor::answerable(page) == (page.events.len() == 0 && (page.execution.state
            == ExecutionState::Queued || page.execution.state == ExecutionState::Running)),
        executor::ends_wait(event, id, after_seq) == (event.execution_id == id && after_seq
            < event.seq),
{
}

/// Whoever cancels is answered with the execution once it has ended, and waits
/// on while it has not.
pub proof fn who_cancels_is_told_the_end(look: CancelLook)
    ensures
        match (look, executor::cancel_answer(look)) {
            (CancelLook::Found { execution }, Some(Ok(told))) => told == execution@ && told.state
                != ExecutionState::Queued && told.state != ExecutionState::Running,
            (CancelLook::Found { execution }, None) => execution.state == ExecutionState::Queued
                || execution.state == ExecutionState::Running,
            (CancelLook::Failed { error }, Some(Err(told))) => told == error@,
            (CancelLook::TimedOut, Some(Err(told))) => told is Timeout,
            (CancelLook::Closed, Some(Err(told))) => told is Protocol,
            _ => false,
        },
{
}

/// The engine that runs out does not open again, and one that is through stays
/// so. Settling takes the grace period and five seconds more.
pub proof fn the_engine_runs_out(lifecycle: Lifecycle, grace: u64)
    ensures
        executor::drained(lifecycle) != Lifecycle::Accepting,
        (executor::drained(lifecycle) == Lifecycle::Stopped) == (lifecycle == Lifecycle::Stopped),
        executor::drained(executor::drained(lifecycle)) == executor::drained(lifecycle),
        grace + 5_000 <= u64::MAX ==> executor::settle_time(grace) == grace + 5_000,
        grace + 5_000 > u64::MAX ==> executor::settle_time(grace) == u64::MAX,
{
}

/// An execution that gets its slot and is still open has its supervisor
/// started; one that has ended by then, or gets no slot, is left alone.
pub proof fn only_what_is_open_is_started(run: RunView, state: ExecutionState, first: i64, now: i64)
    requires
        run.phase is Slot,
    ensures
        executor::run_on(run, RunInputView::SlotsClosed, now).1 is Complete,
        ({
            let (waiting, look) = executor::run_on(run, RunInputView::SlotGranted, first);
            &&& look is LoadState
            &&& executor::run_on(waiting, RunInputView::State { state }, now).1 == (if state
                == ExecutionState::Queued || state == ExecutionState::Running {
                RunActionView::StartSupervisor
            } else {
                RunActionView::Complete
            })
        }),
{
}

/// A supervisor that has been told to start is registered, so that it can be
/// told to cancel, while the execution is open; if the execution has been
/// cancelled in the meantime, the supervisor is told at once. Either way its
/// events are read.
pub proof fn a_supervisor_can_be_told_to_cancel(
    run: RunView,
    state: ExecutionState,
    first: i64,
    second: i64,
    now: i64,
)
    requires
        run.phase is SpawnSent,
    ensures
        ({
            let (waiting, look) = executor::run_on(run, RunInputView::Done, first);
            let (told, action) = executor::run_on(waiting, RunInputView::State { state }, second);
            &&& look == (RunActionView::LoadState { exclusive: true })
            &&& action == (if state == ExecutionState::Queued || state == ExecutionState::Running {
                RunActionView::Register
            } else {
                RunActionView::Send { command: SupervisorCommandView::Cancel }
            })
            &&& executor::run_on(told, RunInputView::Done, now) == (
                RunView { phase: RunPhaseView::Event, ..run },
                RunActionView::ReadEvent,
            )
        }),
{
}

/// An execution whose end is recorded has its supervisor dismissed and waited
/// for, and the store tidied; then the run is complete. What is left undone
/// there does not undo the end.
pub proof fn a_run_is_wound_up(run: RunView, status: Seq<char>, failure: ErrorView, at: Seq<i64>)
    requires
        run.phase is Ended,
        at.len() == 4,
    ensures
        ({
            let (closing, first) = executor::run_on(run, RunInputView::Done, at[0]);
            let (leaving, second) = executor::run_on(closing, RunInputView::Done, at[1]);
            let left = RunInputView::Exited { status };
            let (tidying, third) = executor::run_on(leaving, left, at[2]);
            &&& first is CloseControl && second is AwaitExit && third is Prune
            &&& executor::run_on(closing, RunInputView::ControlFailed { error: failure }, at[1]).1
                is AwaitExit
            &&& executor::run_on(tidying, RunInputView::Done, at[3]).1 is Complete
            &&& executor::run_on(tidying, RunInputView::Failed { error: failure }, at[3]).1
                is Complete
        }),
{
}

/// A failure in the middle of a run is handed on as it is.
pub proof fn a_failure_is_handed_on(run: RunView, failure: ErrorView, now: i64)
    requires
        !(run.phase is Pruned),
    ensures
        executor::run_on(run, RunInputView::Failed { error: failure }, now).1 == (
        RunActionView::Fail { error: failure }),
{
}

/// Slots are given in the order in which they were asked for: one that is free
/// is given at once, who finds none waits behind all others, and a slot that is
/// given back goes to the one who has waited longest. Who leaves the queue
/// leaves the order of the others as it is.
pub proof fn slots_are_given_in_turn(slots: SlotsView, ticket: u64)
    requires
        slots::in_order(slots),
    ensures
        ({
            let (after, change) = slots::slot_step(slots, SlotEvent::Ask { ticket });
            let new = !slots.running.contains(ticket) && !slots.waiting.contains(ticket);
            &&& !new ==> after == slots && change.started is None && change.refused.len() == 0
            &&& new && slots.open && slots.running.len() < slots.total ==> change.started == Some(
                ticket,
            ) && after.running == slots.running.push(ticket) && after.waiting == slots.waiting
            &&& new && slots.open && slots.running.len() >= slots.total ==> change.started is None
                && after.waiting == slots.waiting.push(ticket) && after.running == slots.running
            &&& new && !slots.open ==> after == slots && change.refused == seq![ticket]
        }),
        ({
            let (after, change) = slots::slot_step(slots, SlotEvent::Leave { ticket });
            &&& slots.running.contains(ticket) ==> !after.running.contains(ticket) || (
            slots.waiting.len() > 0 && slots.waiting[0] == ticket)
            &&& slots.running.contains(ticket) && slots.waiting.len() > 0 ==> change.started
                == Some(slots.waiting[0]) && after.waiting == slots.waiting.skip(1)
            &&& slots.running.contains(ticket) && slots.waiting.len() == 0 ==> change.started
                is None && after.running.len() == slots.running.len() - 1
            &&& !slots.running.contains(ticket) ==> change.started is None && after.running
                == slots.running
            &&& change.refused.len() == 0
        }),
        ({
            let (after, change) = slots::slot_step(slots, SlotEvent::Close);
            !after.open && after.running == slots.running && after.waiting.len() == 0
                && change.started is None && change.refused == slots.waiting
        }),
{
    if slots.running.contains(ticket) {
        let at = slots::place(slots.running, ticket);
        slots.running.index_of_first_ensures(ticket);
        let left = slots.running.remove(at);
        assert forall|i: int| 0 <= i < left.len() implies left[i] != ticket by {
            if i < at {
                assert(left[i] == slots.running[i]);
            } else {
                assert(left[i] == slots.running[i + 1]);
            }
        }
        if slots.waiting.len() > 0 {
            assert(slots.waiting.drop_first() =~= slots.waiting.skip(1));
            let grown = left.push(slots.waiting[0]);
            if grown.contains(ticket) {
                let i = choose|i: int| 0 <= i < grown.len() && grown[i] == ticket;
                if i < left.len() {
                    assert(left[i] == ticket);
                }
            }
        }
    }
}

} // verus!
