//! What a restart and a shutdown do to the record.

use vstd::prelude::*;

use crate::model::{ExecutionOutcomeView, ExecutionState};
use crate::promises::records;
use crate::store::retention;
use crate::store::rows::{DatabaseView, ExecutionRowView, StoredPayloadView};

verus! {

/// Whether `new` is `row` ended at the time `now`, in this state and with this
/// outcome, and nothing else.
pub open spec fn ended_as(
    row: ExecutionRowView,
    new: ExecutionRowView,
    state: ExecutionState,
    outcome: ExecutionOutcomeView,
    now: i64,
) -> bool {
    &&& records::same_request(new, row)
    &&& new.state == state
    &&& new.outcome == Some(outcome)
    &&& new.started_at_ms == row.started_at_ms
    &&& new.ended_at_ms == Some(now)
    &&& new.pid == row.pid && new.pgid == row.pgid
    &&& new.captured_bytes == row.captured_bytes
    &&& new.output_truncated == row.output_truncated
    &&& new.events.len() == row.events.len() + 1
    &&& new.events.drop_last() == row.events
    &&& new.events.last().timestamp_ms == now
    &&& new.events.last().payload == (StoredPayloadView::Finished { outcome })
}

/// After a restart every execution that was queued or running has become
/// interrupted, and it keeps its history; every other is as it was, and so is
/// everything else.
pub proof fn a_restart_interrupts_what_was_open(db: DatabaseView, now: i64, i: int)
    requires
        0 <= i < db.executions.len(),
    ensures
        ({
            let after = retention::reconciled(db, now);
            let row = db.executions[i];
            &&& records::only_executions_differ(db, after)
            &&& after.executions.len() == db.executions.len()
            &&& if row.state == ExecutionState::Queued || row.state == ExecutionState::Running {
                after.executions[i].outcome matches Some(outcome) && outcome is Interrupted
                    && ended_as(
                    row,
                    after.executions[i],
                    ExecutionState::Interrupted,
                    outcome,
                    now,
                )
            } else {
                after.executions[i] == row
            }
        }),
{
    let after = retention::reconciled(db, now);
    if after.executions[i] != db.executions[i] {
        assert(after.executions[i].events.drop_last() =~= db.executions[i].events);
    }
}

/// What is still queued when the daemon shuts down becomes cancelled, without a
/// signal, and keeps its history; every other execution is as it was, and so is
/// everything else.
pub proof fn a_shutdown_cancels_what_was_queued(db: DatabaseView, now: i64, i: int)
    requires
        0 <= i < db.executions.len(),
    ensures
        ({
            let after = retention::queue_cancelled(db, now);
            let row = db.executions[i];
            &&& records::only_executions_differ(db, after)
            &&& after.executions.len() == db.executions.len()
            &&& if row.state == ExecutionState::Queued {
                ended_as(
                    row,
                    after.executions[i],
                    ExecutionState::Cancelled,
                    ExecutionOutcomeView::Cancelled { signal: None },
                    now,
                )
            } else {
                after.executions[i] == row
            }
        }),
{
    let after = retention::queue_cancelled(db, now);
    if after.executions[i] != db.executions[i] {
        assert(after.executions[i].events.drop_last() =~= db.executions[i].events);
    }
}

} // verus!
