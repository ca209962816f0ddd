//! How the end of a command is told.

use vstd::prelude::*;

use crate::model::ExecutionOutcomeView;
use crate::supervisor;
use crate::supervisor::{
    ExitReport, SupervisionAction, SupervisionInputView, SupervisionView,
};

verus! {

/// Whether nothing among the inputs asks for an end: no one cancels, the daemon
/// stays, and output can be handed on.
pub open spec fn left_alone(inputs: Seq<SupervisionInputView>) -> bool {
    forall|i: int|
        0 <= i < inputs.len() ==> !((#[trigger] inputs[i]) is Cancel) && !(inputs[i] is DaemonGone)
            && !(inputs[i] is CaptureFailed)
}

/// Whether the command is first seen to have ended at place `k`, with this
/// report.
pub open spec fn first_seen_ended(
    inputs: Seq<SupervisionInputView>,
    k: int,
    report: ExitReport,
) -> bool {
    &&& 0 <= k < inputs.len()
    &&& inputs[k] matches SupervisionInputView::Exited { report: seen, group_alive } && seen
        == report
    &&& forall|i: int| 0 <= i < k ==> !((#[trigger] inputs[i]) is Exited)
}

/// Whether one of the inputs cancels.
pub open spec fn cancels(inputs: Seq<SupervisionInputView>) -> bool {
    exists|i: int| 0 <= i < inputs.len() && (#[trigger] inputs[i]) is Cancel
}

/// Whether one of the inputs says that the daemon is gone.
pub open spec fn loses_the_daemon(inputs: Seq<SupervisionInputView>) -> bool {
    exists|i: int| 0 <= i < inputs.len() && (#[trigger] inputs[i]) is DaemonGone
}

/// Whether the last of the inputs that says why output cannot be handed on
/// gives this reason.
pub open spec fn fails_with(inputs: Seq<SupervisionInputView>, reason: Seq<char>) -> bool {
    exists|i: int| #[trigger] fails_last_at(inputs, i, reason)
}

/// Whether the input at place `i` gives this reason, and no later one gives
/// any.
pub open spec fn fails_last_at(
    inputs: Seq<SupervisionInputView>,
    i: int,
    reason: Seq<char>,
) -> bool {
    &&& 0 <= i < inputs.len()
    &&& inputs[i] == (SupervisionInputView::CaptureFailed { reason })
    &&& forall|j: int| i < j < inputs.len() ==> !((#[trigger] inputs[j]) is CaptureFailed)
}

/// The outcome of a command that ended by itself: the code it gave, else the
/// signal that ended it.
pub open spec fn own_end(report: ExitReport, outcome: ExecutionOutcomeView) -> bool {
    match (report.code, report.signal) {
        (Some(code), _) => outcome == (ExecutionOutcomeView::Exited { code }),
        (None, Some(signal)) => outcome == (ExecutionOutcomeView::Signaled { signal }),
        (None, None) => outcome == (ExecutionOutcomeView::Signaled { signal: 0 }),
    }
}

/// While no one asks a command to end and it has not exited, its supervision
/// stays as it began.
pub proof fn alone_until_the_end(inputs: Seq<SupervisionInputView>)
    requires
        left_alone(inputs),
        forall|i: int| 0 <= i < inputs.len() ==> !((#[trigger] inputs[i]) is Exited),
    ensures
        supervisor::after_inputs(inputs) == supervisor::watching(),
    decreases inputs.len(),
{
    if inputs.len() > 0 {
        let before = inputs.drop_last();
        assert forall|i: int| 0 <= i < before.len() implies !((#[trigger] before[i]) is Cancel)
            && !(before[i] is DaemonGone) && !(before[i] is CaptureFailed) && !(
        before[i] is Exited) by {
            assert(before[i] == inputs[i]);
        }
        alone_until_the_end(before);
        assert(!(inputs[inputs.len() - 1] is Exited));
    }
}

/// A command that no one asks to end is reported with exactly the code that it
/// exited with, or else with exactly the signal that ended it; before it has
/// ended nothing is reported.
pub proof fn an_own_end_is_told_exactly(
    inputs: Seq<SupervisionInputView>,
    k: int,
    report: ExitReport,
)
    requires
        left_alone(inputs),
    ensures
        first_seen_ended(inputs, k, report) ==> (supervisor::reported(
            supervisor::after_inputs(inputs),
        ) matches Some(outcome) && own_end(report, outcome)),
        (forall|i: int| 0 <= i < inputs.len() ==> !((#[trigger] inputs[i]) is Exited))
            ==> supervisor::reported(supervisor::after_inputs(inputs)) is None,
    decreases inputs.len(),
{
    if forall|i: int| 0 <= i < inputs.len() ==> !((#[trigger] inputs[i]) is Exited) {
        alone_until_the_end(inputs);
    }
    if first_seen_ended(inputs, k, report) {
        let before = inputs.drop_last();
        assert forall|i: int| 0 <= i < before.len() implies !((#[trigger] before[i]) is Cancel)
            && !(before[i] is DaemonGone) && !(before[i] is CaptureFailed) by {
            assert(before[i] == inputs[i]);
        }
        if k == inputs.len() - 1 {
            assert forall|i: int| 0 <= i < before.len() implies !((#[trigger] before[i])
                is Exited) by {
                assert(before[i] == inputs[i]);
            }
            alone_until_the_end(before);
        } else {
            assert forall|i: int| 0 <= i < k implies !((#[trigger] before[i]) is Exited) by {
                assert(before[i] == inputs[i]);
            }
            assert(before[k] == inputs[k]);
            an_own_end_is_told_exactly(before, k, report);
        }
    }
}

/// Whether the state holds what the inputs said, while the command runs.
spec fn remembers(inputs: Seq<SupervisionInputView>, state: SupervisionView) -> bool {
    &&& state.daemon_gone == loses_the_daemon(inputs)
    &&& state.cancelled ==> cancels(inputs) || loses_the_daemon(inputs)
        || state.interrupted_reason is Some
    &&& cancels(inputs) ==> state.cancelled
    &&& match state.interrupted_reason {
        Some(reason) => fails_with(inputs, reason),
        None => forall|i: int| 0 <= i < inputs.len() ==> !((#[trigger] inputs[i]) is CaptureFailed),
    }
}

proof fn remembered_with_one_more(
    inputs: Seq<SupervisionInputView>,
    state: SupervisionView,
    after: SupervisionView,
)
    requires
        inputs.len() > 0,
        remembers(inputs.drop_last(), state),
        after.daemon_gone == (state.daemon_gone || inputs.last() is DaemonGone),
        after.cancelled == (state.cancelled || inputs.last() is DaemonGone || inputs.last()
            is Cancel || inputs.last() is CaptureFailed),
        after.interrupted_reason == (match inputs.last() {
            SupervisionInputView::CaptureFailed { reason } => Some(reason),
            _ => state.interrupted_reason,
        }),
    ensures
        remembers(inputs, after),
{
    let before = inputs.drop_last();
    let end = inputs.len() - 1;
    assert(inputs[end] == inputs.last());
    assert forall|i: int| 0 <= i < before.len() implies #[trigger] before[i] == inputs[i] by {}
    if cancels(before) {
        let i = choose|i: int| 0 <= i < before.len() && (#[trigger] before[i]) is Cancel;
        assert(inputs[i] is Cancel);
    }
    if loses_the_daemon(before) {
        let i = choose|i: int| 0 <= i < before.len() && (#[trigger] before[i]) is DaemonGone;
        assert(inputs[i] is DaemonGone);
    }
    if loses_the_daemon(inputs) && !(inputs.last() is DaemonGone) {
        let i = choose|i: int| 0 <= i < inputs.len() && (#[trigger] inputs[i]) is DaemonGone;
        assert(before[i] is DaemonGone);
    }
    if cancels(inputs) && !(inputs.last() is Cancel) {
        let i = choose|i: int| 0 <= i < inputs.len() && (#[trigger] inputs[i]) is Cancel;
        assert(before[i] is Cancel);
    }
    match inputs.last() {
        SupervisionInputView::CaptureFailed { reason } => {
            assert(fails_last_at(inputs, end, reason));
        },
        _ => match state.interrupted_reason {
            Some(reason) => {
                let i = choose|i: int| #[trigger] fails_last_at(before, i, reason);
                assert forall|j: int| i < j < inputs.len() implies !((#[trigger] inputs[j])
                    is CaptureFailed) by {
                    if j < end {
                        assert(!(before[j] is CaptureFailed));
                    }
                }
                assert(inputs[i] == before[i]);
                assert(fails_last_at(inputs, i, reason));
            },
            None => {
                assert forall|i: int| 0 <= i < inputs.len() implies !((#[trigger] inputs[i])
                    is CaptureFailed) by {
                    if i < end {
                        assert(!(before[i] is CaptureFailed));
                    }
                }
            },
        },
    }
}

proof fn remembered_while_it_runs(inputs: Seq<SupervisionInputView>)
    requires
        supervisor::after_inputs(inputs).ended is None,
    ensures
        remembers(inputs, supervisor::after_inputs(inputs)),
        match supervisor::after_inputs(inputs).exited {
            Some(report) => exists|k: int| #[trigger] first_seen_ended(inputs, k, report),
            None => forall|i: int| 0 <= i < inputs.len() ==> !((#[trigger] inputs[i]) is Exited),
        },
    decreases inputs.len(),
{
    if inputs.len() > 0 {
        let before = inputs.drop_last();
        let end = inputs.len() - 1;
        let state = supervisor::after_inputs(before);
        let after = supervisor::after_inputs(inputs);
        remembered_while_it_runs(before);
        remembered_with_one_more(inputs, state, after);
        assert(inputs[end] == inputs.last());
        assert forall|i: int| 0 <= i < before.len() implies #[trigger] before[i] == inputs[i] by {}
        match state.exited {
            Some(report) => {
                let k = choose|k: int| #[trigger] first_seen_ended(before, k, report);
                assert(before[k] == inputs[k]);
                assert forall|i: int| 0 <= i < k implies !((#[trigger] inputs[i]) is Exited) by {
                    assert(before[i] == inputs[i]);
                }
                assert(first_seen_ended(inputs, k, report));
            },
            None => {
                assert forall|i: int| 0 <= i < before.len() implies !((#[trigger] inputs[i])
                    is Exited) by {
                    assert(!(before[i] is Exited));
                }
                match inputs.last() {
                    SupervisionInputView::Exited { report, group_alive } => {
                        assert(first_seen_ended(inputs, end, report));
                    },
                    _ => {},
                }
            },
        }
    }
}

/// When the supervision of a command is over, it reports nothing if the daemon
/// is gone; else an interruption, with the last reason, if output could not be
/// handed on; else a cancellation, with the signal that ended the command, if
/// someone cancelled; and else the command's own end.
pub proof fn the_end_is_told_as_it_came(inputs: Seq<SupervisionInputView>)
    requires
        inputs.len() > 0,
        supervisor::after_inputs(inputs.drop_last()).ended is None,
        supervisor::after_inputs(inputs).ended is Some,
    ensures
        exists|k: int, report: ExitReport|
            #[trigger] first_seen_ended(inputs, k, report) && (match supervisor::reported(
                supervisor::after_inputs(inputs),
            ) {
                None => loses_the_daemon(inputs),
                Some(outcome) => !loses_the_daemon(inputs) && (match outcome {
                    ExecutionOutcomeView::Interrupted { reason } => fails_with(inputs, reason),
                    ExecutionOutcomeView::Cancelled { signal } => cancels(inputs) && signal
                        == report.signal && (forall|i: int|
                        0 <= i < inputs.len() ==> !((#[trigger] inputs[i]) is CaptureFailed)),
                    _ => left_alone(inputs) && own_end(report, outcome),
                }),
            }),
{
    let before = inputs.drop_last();
    let end = inputs.len() - 1;
    let state = supervisor::after_inputs(before);
    let after = supervisor::after_inputs(inputs);
    remembered_while_it_runs(before);
    remembered_with_one_more(inputs, state, after);
    assert(inputs[end] == inputs.last());
    assert forall|i: int| 0 <= i < before.len() implies #[trigger] before[i] == inputs[i] by {}
    let report = after.ended->0;
    let k = match state.exited {
        Some(report) => choose|k: int| #[trigger] first_seen_ended(before, k, report),
        None => end,
    };
    assert(first_seen_ended(inputs, k, report)) by {
        if state.exited is Some {
            assert(before[k] == inputs[k]);
            assert forall|i: int| 0 <= i < k implies !((#[trigger] inputs[i]) is Exited) by {
                assert(before[i] == inputs[i]);
            }
        } else {
            assert forall|i: int| 0 <= i < end implies !((#[trigger] inputs[i]) is Exited) by {
                assert(!(before[i] is Exited));
            }
        }
    }
    if after.interrupted_reason is None && !after.daemon_gone && !after.cancelled {
        assert forall|i: int| 0 <= i < inputs.len() implies !((#[trigger] inputs[i]) is Cancel)
            && !(inputs[i] is DaemonGone) && !(inputs[i] is CaptureFailed) by {}
    }
}

/// What has been reported stays: nothing that happens later changes it.
pub proof fn what_was_told_stays(inputs: Seq<SupervisionInputView>, more: Seq<SupervisionInputView>)
    requires
        supervisor::after_inputs(inputs).ended is Some,
    ensures
        supervisor::reported(supervisor::after_inputs(inputs + more)) == supervisor::reported(
            supervisor::after_inputs(inputs),
        ),
        supervisor::after_inputs(inputs + more) == supervisor::after_inputs(inputs),
    decreases more.len(),
{
    if more.len() == 0 {
        assert(inputs + more =~= inputs);
    } else {
        assert((inputs + more).drop_last() =~= inputs + more.drop_last());
        what_was_told_stays(inputs, more.drop_last());
    }
}

/// When the grace period of a group that was asked to end is over, the group is
/// ended by force, once.
pub proof fn force_is_used_after_the_grace_period(inputs: Seq<SupervisionInputView>)
    requires
        inputs.len() > 0,
        inputs.last() is DeadlinePassed,
        supervisor::after_inputs(inputs.drop_last()).ended is None,
    ensures
        supervisor::last_response(inputs) == if supervisor::asked_before(inputs.drop_last())
            && !supervisor::forced_before(inputs.drop_last()) {
            SupervisionAction::Kill
        } else {
            SupervisionAction::Wait
        },
{
    let before = inputs.drop_last();
    supervisor::nothing_is_left_running(before);
    supervisor::cancelled_means_asked(before);
    forced_means_unarmed(before);
}

proof fn forced_means_unarmed(inputs: Seq<SupervisionInputView>)
    ensures
        supervisor::forced_before(inputs) ==> supervisor::after_inputs(inputs).cancelled
            && !supervisor::after_inputs(inputs).deadline_armed,
    decreases inputs.len(),
{
    if inputs.len() > 0 {
        let before = inputs.drop_last();
        forced_means_unarmed(before);
        supervisor::cancelled_means_asked(before);
        if supervisor::forced_before(inputs) {
            let k = choose|k: int|
                0 < k <= inputs.len() && #[trigger] supervisor::last_response(inputs.take(k))
                    is Kill;
            if k < inputs.len() {
                assert(before.take(k) =~= inputs.take(k));
                assert(supervisor::last_response(before.take(k)) is Kill);
            } else {
                assert(inputs.take(k) =~= inputs);
            }
        }
    }
}

/// Only for the one who cancels does it matter whether the group could be asked
/// to end.
pub proof fn asking_matters_to_who_cancels(inputs: Seq<SupervisionInputView>)
    requires
        inputs.len() > 0,
    ensures
        supervisor::last_response(inputs) matches SupervisionAction::Terminate { matters }
            ==> matters == (inputs.last() is Cancel),
{
}

} // verus!
