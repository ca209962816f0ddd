//! How a run goes from the reports of its supervisor to the record.

use vstd::prelude::*;

use crate::codec;
use crate::executor;
use crate::executor::{
    CancelPlan, PieceView, RunActionView, RunInputView, RunPhaseView, RunView,
};
use crate::error::ErrorView;
use crate::model::{ExecutionOutcomeView, ExecutionState};
use crate::store::capture::CaptureRecordView;
use crate::supervisor::{SupervisorCommandView, SupervisorEventView};

verus! {

/// The pieces of output that a run took from its supervisor, in the order they
/// came.
pub open spec fn pieces_taken(run: RunView, answers: Seq<(RunInputView, i64)>) -> Seq<PieceView>
    decreases answers.len(),
{
    if answers.len() == 0 {
        Seq::empty()
    } else {
        let before = pieces_taken(run, answers.drop_last());
        match (executor::run_after(run, answers.drop_last()).phase, answers.last().0) {
            (
                RunPhaseView::Event,
                RunInputView::Event { event: SupervisorEventView::Output { stream, data_base64 } },
            ) => match codec::base64_decoding(data_base64) {
                Ok(data) => before.push(PieceView { stream, data, now: answers.last().1 }),
                Err(message) => before,
            },
            _ => before,
        }
    }
}

/// The records that a run asked to have stored, in order.
pub open spec fn records_given(run: RunView, answers: Seq<(RunInputView, i64)>) -> Seq<
    CaptureRecordView,
>
    decreases answers.len(),
{
    if answers.len() == 0 {
        Seq::empty()
    } else {
        records_given(run, answers.drop_last()) + match executor::asked_last(run, answers) {
            RunActionView::Capture { records } => records,
            _ => Seq::empty(),
        }
    }
}

/// However a run goes, what it has stored is exactly what its supervisor sent,
/// each piece on its own stream and in the order it came, measured against the
/// limit of the run.
pub proof fn what_is_sent_is_captured(
    run: RunView,
    answers: Seq<(RunInputView, i64)>,
)
    requires
        executor::begun(run),
        run.meter.seen == 0 && !run.meter.truncated,
    ensures
        records_given(run, answers) == executor::measured_all(
            run.meter.limit,
            run.id,
            pieces_taken(run, answers),
        ).1,
        executor::run_after(run, answers).id == run.id,
        executor::run_after(run, answers).meter == executor::measured_all(
            run.meter.limit,
            run.id,
            pieces_taken(run, answers),
        ).0,
    decreases answers.len(),
{
    if answers.len() > 0 {
        let some = answers.drop_last();
        what_is_sent_is_captured(run, some);
        let before = executor::run_after(run, some);
        let pieces = pieces_taken(run, some);
        match (before.phase, answers.last().0) {
            (
                RunPhaseView::Event,
                RunInputView::Event { event: SupervisorEventView::Output { stream, data_base64 } },
            ) => match codec::base64_decoding(data_base64) {
                Ok(data) => {
                    let piece = PieceView { stream, data, now: answers.last().1 };
                    assert(pieces.push(piece).drop_last() =~= pieces);
                    assert(records_given(run, answers) =~= executor::measured_all(
                        run.meter.limit,
                        run.id,
                        pieces.push(piece),
                    ).1);
                },
                Err(message) => {
                    assert(records_given(run, answers) =~= records_given(run, some));
                },
            },
            _ => {
                assert(records_given(run, answers) =~= records_given(run, some));
            },
        }
    } else {
        assert(records_given(run, answers) =~= Seq::empty());
    }
}

/// The process that the supervisor reports to have started is the one that an
/// open execution is marked as running with; where the execution has ended in
/// the meantime the supervisor is told to cancel.
pub proof fn the_process_that_started_is_recorded(
    run: RunView,
    pid: u32,
    pgid: i32,
    state: ExecutionState,
    first: i64,
    second: i64,
)
    requires
        run.phase is Event,
    ensures
        ({
            let answers = seq![
                (RunInputView::Event { event: SupervisorEventView::Started { pid, pgid } }, first),
                (RunInputView::State { state }, second),
            ];
            executor::asked_last(run, answers) == if state == ExecutionState::Queued || state
                == ExecutionState::Running {
                RunActionView::MarkRunning { pid, pgid }
            } else {
                RunActionView::Send { command: SupervisorCommandView::Cancel }
            }
        }),
{
    let answers = seq![
        (RunInputView::Event { event: SupervisorEventView::Started { pid, pgid } }, first),
        (RunInputView::State { state }, second),
    ];
    reveal_with_fuel(executor::run_after, 3);
    assert(answers.drop_last() =~= seq![
        (RunInputView::Event { event: SupervisorEventView::Started { pid, pgid } }, first),
    ]);
    assert(answers.drop_last().drop_last() =~= Seq::<(RunInputView, i64)>::empty());
}

/// The outcome that the supervisor reports is the one that an open execution
/// ends with, once all output is stored: as cancelled where it was cancelled, as
/// interrupted where it was interrupted, and else as finished, whatever the
/// exit code; an execution that has ended is left as it is.
pub proof fn the_outcome_that_is_reported_is_recorded(
    run: RunView,
    outcome: ExecutionOutcomeView,
    state: ExecutionState,
    first: i64,
    second: i64,
    third: i64,
)
    requires
        run.phase is Event,
    ensures
        ({
            let told = RunInputView::Event { event: SupervisorEventView::Finished { outcome } };
            let answers = seq![
                (told, first),
                (RunInputView::Done, second),
                (RunInputView::State { state }, third),
            ];
            &&& executor::asked_last(run, answers.take(1)) is FlushCapture
            &&& match executor::asked_last(run, answers) {
                RunActionView::Finish { state: ended, outcome: recorded } => {
                    &&& state == ExecutionState::Queued || state == ExecutionState::Running
                    &&& recorded == outcome
                    &&& (ended == ExecutionState::Cancelled) == (outcome is Cancelled)
                    &&& (ended == ExecutionState::Interrupted) == (outcome is Interrupted)
                    &&& (ended == ExecutionState::Finished) == (outcome is Exited || outcome
                        is Signaled || outcome is SpawnError)
                },
                _ => state != ExecutionState::Queued && state != ExecutionState::Running,
            }
        }),
{
    let told = RunInputView::Event { event: SupervisorEventView::Finished { outcome } };
    let answers = seq![
        (told, first),
        (RunInputView::Done, second),
        (RunInputView::State { state }, third),
    ];
    reveal_with_fuel(executor::run_after, 4);
    assert(answers.drop_last() =~= seq![(told, first), (RunInputView::Done, second)]);
    assert(answers.drop_last().drop_last() =~= seq![(told, first)]);
    assert(answers.drop_last().drop_last().drop_last() =~= Seq::<(RunInputView, i64)>::empty());
    assert(answers.take(1) =~= seq![(told, first)]);
    assert(answers.take(1).drop_last() =~= Seq::<(RunInputView, i64)>::empty());
}

/// An execution whose supervisor ends without a report ends as interrupted, and
/// not before what it had sent is stored.
pub proof fn a_lost_supervisor_interrupts(
    run: RunView,
    status: Seq<char>,
    state: ExecutionState,
    at: Seq<i64>,
)
    requires
        run.phase is Event,
        !run.received_finished,
        at.len() == 5,
    ensures
        ({
            let answers = seq![
                (RunInputView::StreamEnded, at[0]),
                (RunInputView::Done, at[1]),
                (RunInputView::Exited { status }, at[2]),
                (RunInputView::Done, at[3]),
                (RunInputView::State { state }, at[4]),
            ];
            &&& executor::asked_last(run, answers.take(3)) is FlushCapture
            &&& match executor::asked_last(run, answers) {
                RunActionView::Finish { state: ended, outcome } => (state
                    == ExecutionState::Queued || state == ExecutionState::Running) && ended
                    == ExecutionState::Interrupted && outcome is Interrupted,
                _ => state != ExecutionState::Queued && state != ExecutionState::Running,
            }
        }),
{
    let answers = seq![
        (RunInputView::StreamEnded, at[0]),
        (RunInputView::Done, at[1]),
        (RunInputView::Exited { status }, at[2]),
        (RunInputView::Done, at[3]),
        (RunInputView::State { state }, at[4]),
    ];
    let four = answers.drop_last();
    let three = four.drop_last();
    let two = three.drop_last();
    let one = two.drop_last();
    assert(one.drop_last() =~= Seq::<(RunInputView, i64)>::empty());
    assert(answers.take(3) =~= three);
    assert(executor::run_after(run, one.drop_last()) == run);
    assert(executor::run_after(run, one).phase is Control);
    assert(executor::run_after(run, two).phase is Exit);
    assert(executor::run_after(run, three).phase is LostFlush);
    assert(executor::run_after(run, four).phase is LostState);
}

/// An execution whose supervisor cannot be started ends with an outcome that
/// says so.
pub proof fn what_cannot_be_started_says_so(run: RunView, message: Seq<char>, now: i64)
    requires
        run.phase is Supervisor,
    ensures
        executor::run_on(run, RunInputView::SpawnFailed { message }, now).1 matches
            RunActionView::Finish { state, outcome } && state == ExecutionState::Finished
            && outcome is SpawnError,
{
}

/// What is queued can be cancelled, and so can what runs and has a supervisor;
/// what has ended cannot.
pub proof fn what_is_open_can_be_cancelled(id: Seq<char>, state: ExecutionState, supervised: bool)
    ensures
        match executor::cancel_plan(id, state, supervised) {
            Ok(CancelPlan::EndQueued) => state == ExecutionState::Queued,
            Ok(CancelPlan::TellSupervisor) => state == ExecutionState::Running && supervised,
            Err(error) => if state == ExecutionState::Running {
                !supervised && error is Protocol
            } else {
                state != ExecutionState::Queued && error == ErrorView::AlreadyTerminal(id)
            },
        },
{
}

} // verus!
