//! What statistics count.

use vstd::prelude::*;

use crate::error::ErrorView;
use crate::model::{ExecutionOutcomeView, ExecutionState, ExecutionStatsView};
use crate::order;
use crate::store::rows::{DatabaseView, ExecutionRowView};
use crate::store::stats;
use crate::store::stats::StatusClass;
use crate::store::workspaces;

verus! {

/// How many rows meet a test.
pub open spec fn how_many(
    rows: Seq<ExecutionRowView>,
    test: spec_fn(ExecutionRowView) -> bool,
) -> int
    decreases rows.len(),
{
    if rows.len() == 0 {
        0
    } else {
        how_many(rows.drop_last(), test) + if test(rows.last()) {
            1int
        } else {
            0int
        }
    }
}

/// The sum of what rows hold that meet a test.
pub open spec fn sum_over(
    rows: Seq<ExecutionRowView>,
    test: spec_fn(ExecutionRowView) -> bool,
) -> int
    decreases rows.len(),
{
    if rows.len() == 0 {
        0
    } else {
        sum_over(rows.drop_last(), test) + if test(rows.last()) {
            rows.last().captured_bytes as int
        } else {
            0int
        }
    }
}

/// Whether an execution of the workspace was created within the window, both
/// ends included.
pub open spec fn in_window(
    row: ExecutionRowView,
    workspace_id: Seq<char>,
    since: i64,
    until: i64,
) -> bool {
    row.workspace_id == workspace_id && row.created_at_ms >= since && row.created_at_ms <= until
}

/// Whether an execution was cancelled, by its state or by its outcome.
pub open spec fn was_cancelled(row: ExecutionRowView) -> bool {
    row.state == ExecutionState::Cancelled || row.state == ExecutionState::Finished && (
    row.outcome matches Some(outcome) && outcome is Cancelled)
}

/// Whether an execution was interrupted, by its state or by its outcome.
pub open spec fn was_interrupted(row: ExecutionRowView) -> bool {
    row.state == ExecutionState::Interrupted || row.state == ExecutionState::Finished && (
    row.outcome matches Some(outcome) && outcome is Interrupted)
}

/// Whether a finished execution exited with success, or without.
pub open spec fn exited(row: ExecutionRowView, well: bool) -> bool {
    row.state == ExecutionState::Finished && (row.outcome matches Some(
        ExecutionOutcomeView::Exited { code },
    ) && (code == 0) == well)
}

/// Whether a finished execution was ended by a signal.
pub open spec fn was_signaled(row: ExecutionRowView) -> bool {
    row.state == ExecutionState::Finished && (row.outcome matches Some(outcome) && outcome
        is Signaled)
}

/// Whether an execution could not be started.
pub open spec fn was_not_started(row: ExecutionRowView) -> bool {
    row.state == ExecutionState::Finished && (row.outcome matches Some(outcome) && outcome
        is SpawnError)
}

/// Whether an execution has a running time: it has ended, and is known to have
/// started and when it ended.
pub open spec fn has_running_time(row: ExecutionRowView) -> bool {
    row.state != ExecutionState::Queued && row.state != ExecutionState::Running
        && row.started_at_ms is Some && row.ended_at_ms is Some
}

proof fn drawn_one_more(
    all: Seq<ExecutionRowView>,
    at: spec_fn(int) -> bool,
    n: nat,
)
    requires
        n < all.len(),
    ensures
        order::picked(all, order::matching(n + 1, at)) == if at(n as int) {
            order::picked(all, order::matching(n, at)).push(all[n as int])
        } else {
            order::picked(all, order::matching(n, at))
        },
{
    let one = order::picked(all, order::matching(n + 1, at));
    if at(n as int) {
        assert(one =~= order::picked(all, order::matching(n, at)).push(all[n as int]));
    }
}

proof fn counted_in_the_window(
    all: Seq<ExecutionRowView>,
    at: spec_fn(int) -> bool,
    inside: spec_fn(ExecutionRowView) -> bool,
    test: spec_fn(ExecutionRowView) -> bool,
    both: spec_fn(ExecutionRowView) -> bool,
    n: nat,
)
    requires
        n <= all.len(),
        forall|i: int| 0 <= i < all.len() ==> #[trigger] at(i) == inside(all[i]),
        forall|row: ExecutionRowView| #[trigger] both(row) == (inside(row) && test(row)),
    ensures
        how_many(order::picked(all, order::matching(n, at)), test) == how_many(
            all.take(n as int),
            both,
        ),
        sum_over(order::picked(all, order::matching(n, at)), test) == sum_over(
            all.take(n as int),
            both,
        ),
    decreases n,
{
    if n > 0 {
        let m = (n - 1) as nat;
        counted_in_the_window(all, at, inside, test, both, m);
        drawn_one_more(all, at, m);
        let before = order::picked(all, order::matching(m, at));
        assert(all.take(n as int).drop_last() =~= all.take(m as int));
        assert(all.take(n as int).last() == all[m as int]);
        assert(at(m as int) == inside(all[m as int]));
        if at(m as int) {
            assert(before.push(all[m as int]).drop_last() =~= before);
        }
    }
}

/// Every count is of a class that the state and the outcome of an execution
/// tell.
proof fn classes_are_told(rows: Seq<ExecutionRowView>)
    ensures
        stats::class_count(rows, StatusClass::Queued) == how_many(
            rows,
            |row: ExecutionRowView| row.state == ExecutionState::Queued,
        ),
        stats::class_count(rows, StatusClass::Running) == how_many(
            rows,
            |row: ExecutionRowView| row.state == ExecutionState::Running,
        ),
        stats::class_count(rows, StatusClass::ExitedZero) == how_many(
            rows,
            |row: ExecutionRowView| exited(row, true),
        ),
        stats::class_count(rows, StatusClass::ExitedNonzero) == how_many(
            rows,
            |row: ExecutionRowView| exited(row, false),
        ),
        stats::class_count(rows, StatusClass::Signaled) == how_many(
            rows,
            |row: ExecutionRowView| was_signaled(row),
        ),
        stats::class_count(rows, StatusClass::SpawnError) == how_many(
            rows,
            |row: ExecutionRowView| was_not_started(row),
        ),
        stats::class_count(rows, StatusClass::Cancelled) == how_many(
            rows,
            |row: ExecutionRowView| was_cancelled(row),
        ),
        stats::class_count(rows, StatusClass::Interrupted) == how_many(
            rows,
            |row: ExecutionRowView| was_interrupted(row),
        ),
        stats::class_count(rows, StatusClass::UnknownTerminal) == how_many(
            rows,
            |row: ExecutionRowView|
                row.state == ExecutionState::Finished && row.outcome is None,
        ),
        stats::bytes_of(rows) == sum_over(rows, |row: ExecutionRowView| true),
        stats::truncated_of(rows) == how_many(
            rows,
            |row: ExecutionRowView| row.output_truncated,
        ),
        stats::samples_of(rows).len() == how_many(
            rows,
            |row: ExecutionRowView| has_running_time(row),
        ),
        rows.len() == how_many(rows, |row: ExecutionRowView| true),
    decreases rows.len(),
{
    if rows.len() > 0 {
        classes_are_told(rows.drop_last());
    }
}

/// How many executions of a workspace were created within a window and meet a
/// test.
pub open spec fn counted(
    db: DatabaseView,
    workspace_id: Seq<char>,
    since: i64,
    until: i64,
    test: spec_fn(ExecutionRowView) -> bool,
) -> int {
    how_many(
        db.executions,
        |row: ExecutionRowView| in_window(row, workspace_id, since, until) && test(row),
    )
}

/// How many bytes the executions hold of a workspace that were created within
/// a window.
pub open spec fn counted_bytes(
    db: DatabaseView,
    workspace_id: Seq<char>,
    since: i64,
    until: i64,
) -> int {
    sum_over(
        db.executions,
        |row: ExecutionRowView| in_window(row, workspace_id, since, until),
    )
}

proof fn counted_is(
    db: DatabaseView,
    workspace_id: Seq<char>,
    since: i64,
    until: i64,
    test: spec_fn(ExecutionRowView) -> bool,
)
    ensures
        how_many(stats::window_rows(db, workspace_id, since, until), test) == counted(
            db,
            workspace_id,
            since,
            until,
            test,
        ),
{
    let at = |i: int| stats::covered(db.executions[i], workspace_id, since, until);
    let inside = |row: ExecutionRowView| in_window(row, workspace_id, since, until);
    let both = |row: ExecutionRowView| in_window(row, workspace_id, since, until) && test(row);
    counted_in_the_window(db.executions, at, inside, test, both, db.executions.len());
    assert(db.executions.take(db.executions.len() as int) =~= db.executions);
}

/// Statistics tell of the executions of the workspace that were created within
/// the window, and of no others: how many there were, how many are queued, run,
/// or ended in each way, how much output they hold, of how many some was lost,
/// and how many have a running time.
pub proof fn statistics_count_the_window(
    db: DatabaseView,
    workspace: Seq<char>,
    since: i64,
    until: i64,
    stats: ExecutionStatsView,
)
    requires
        stats::stats_answer(
            db,
            workspace,
            since,
            until,
            Ok::<ExecutionStatsView, ErrorView>(stats),
        ),
        db.executions.len() <= u64::MAX,
    ensures
        workspaces::registered(db, workspace) == Ok::<
            crate::model::WorkspaceView,
            ErrorView,
        >(stats.workspace),
        stats.since_ms == since && stats.until_ms == until && since <= until,
        ({
            let id = stats.workspace.id;
            let status = stats.status;
            &&& stats.total == counted(db, id, since, until, |row: ExecutionRowView| true)
            &&& status.queued == counted(
                db,
                id,
                since,
                until,
                |row: ExecutionRowView| row.state == ExecutionState::Queued,
            )
            &&& status.running == counted(
                db,
                id,
                since,
                until,
                |row: ExecutionRowView| row.state == ExecutionState::Running,
            )
            &&& status.exited_zero == counted(
                db,
                id,
                since,
                until,
                |row: ExecutionRowView| exited(row, true),
            )
            &&& status.exited_nonzero == counted(
                db,
                id,
                since,
                until,
                |row: ExecutionRowView| exited(row, false),
            )
            &&& status.signaled == counted(
                db,
                id,
                since,
                until,
                |row: ExecutionRowView| was_signaled(row),
            )
            &&& status.spawn_error == counted(
                db,
                id,
                since,
                until,
                |row: ExecutionRowView| was_not_started(row),
            )
            &&& status.cancelled == counted(
                db,
                id,
                since,
                until,
                |row: ExecutionRowView| was_cancelled(row),
            )
            &&& status.interrupted == counted(
                db,
                id,
                since,
                until,
                |row: ExecutionRowView| was_interrupted(row),
            )
            &&& status.unknown_terminal == counted(
                db,
                id,
                since,
                until,
                |row: ExecutionRowView|
                    row.state == ExecutionState::Finished && row.outcome is None,
            )
            &&& stats.truncated_executions == counted(
                db,
                id,
                since,
                until,
                |row: ExecutionRowView| row.output_truncated,
            )
            &&& stats.duration_samples == counted(
                db,
                id,
                since,
                until,
                |row: ExecutionRowView| has_running_time(row),
            )
            &&& stats.captured_bytes == counted_bytes(db, id, since, until)
        }),
{
    let id = stats.workspace.id;
    let rows = stats::window_rows(db, id, since, until);
    order::matching_is_exact(
        db.executions.len(),
        |i: int| stats::covered(db.executions[i], id, since, until),
    );
    assert(rows.len() <= db.executions.len());
    classes_are_told(rows);
    how_many_bounds(rows);
    counted_in_the_window(
        db.executions,
        |i: int| stats::covered(db.executions[i], id, since, until),
        |row: ExecutionRowView| in_window(row, id, since, until),
        |row: ExecutionRowView| true,
        |row: ExecutionRowView| in_window(row, id, since, until),
        db.executions.len(),
    );
    assert(db.executions.take(db.executions.len() as int) =~= db.executions);
    counted_is(db, id, since, until, |row: ExecutionRowView| true);
    counted_is(db, id, since, until, |row: ExecutionRowView| row.state == ExecutionState::Queued);
    counted_is(db, id, since, until, |row: ExecutionRowView| row.state == ExecutionState::Running);
    counted_is(db, id, since, until, |row: ExecutionRowView| exited(row, true));
    counted_is(db, id, since, until, |row: ExecutionRowView| exited(row, false));
    counted_is(db, id, since, until, |row: ExecutionRowView| was_signaled(row));
    counted_is(db, id, since, until, |row: ExecutionRowView| was_not_started(row));
    counted_is(db, id, since, until, |row: ExecutionRowView| was_cancelled(row));
    counted_is(db, id, since, until, |row: ExecutionRowView| was_interrupted(row));
    counted_is(
        db,
        id,
        since,
        until,
        |row: ExecutionRowView| row.state == ExecutionState::Finished && row.outcome is None,
    );
    counted_is(db, id, since, until, |row: ExecutionRowView| row.output_truncated);
    counted_is(db, id, since, until, |row: ExecutionRowView| has_running_time(row));
}

proof fn how_many_bounds(rows: Seq<ExecutionRowView>)
    ensures
        forall|class: StatusClass| #[trigger] stats::class_count(rows, class) <= rows.len(),
    decreases rows.len(),
{
    if rows.len() > 0 {
        how_many_bounds(rows.drop_last());
        assert forall|class: StatusClass| #[trigger] stats::class_count(rows, class)
            <= rows.len() by {
            assert(stats::class_count(rows.drop_last(), class) <= rows.drop_last().len());
        }
    }
}

/// The running time of an execution is the time from its start to its end.
pub proof fn running_times_are_exact(row: ExecutionRowView)
    ensures
        match stats::sample_of(row) {
            Some(took) => has_running_time(row) && (row.started_at_ms->0 <= row.ended_at_ms->0
                ==> took == row.ended_at_ms->0 - row.started_at_ms->0) && (row.started_at_ms->0
                > row.ended_at_ms->0 ==> took == 0),
            None => !has_running_time(row),
        },
{
}

/// A percentile is one of the samples; at least so many in a hundred of the
/// samples are no larger, and fewer than so many in a hundred are smaller.
pub proof fn percentiles_divide_the_samples(samples: Seq<i128>, percent: int)
    requires
        samples.len() > 0,
        1 <= percent <= 100,
        forall|i: int| 0 <= i < samples.len() ==> 0 <= #[trigger] samples[i] <= u64::MAX,
    ensures
        stats::percentile(samples, percent) matches Some(value) && (exists|low: Seq<int>|
            low.len() * 100 >= samples.len() * percent && #[trigger] all_at_most(
                samples,
                low,
                value as int,
            )) && (exists|high: Seq<int>|
            (samples.len() - high.len()) * 100 < samples.len() * percent
                && #[trigger] all_at_least(samples, high, value as int)) && (exists|i: int|
            0 <= i < samples.len() && #[trigger] samples[i] == value),
{
    let n = samples.len() as int;
    let above = order::key_above(samples);
    order::order_is_complete(samples.len(), above);
    order::order_is_sorted(samples.len(), above);
    let ordered = order::stable_order(samples.len(), above);
    assert(n * percent >= 1 && n * percent <= 100 * n) by (nonlinear_arith)
        requires
            n >= 1,
            1 <= percent <= 100,
    ;
    let at = (n * percent + 99) / 100 - 1;
    assert(0 <= at < n);
    let value = stats::percentile(samples, percent)->0 as int;
    assert(samples[ordered[at]] == value);
    let low = ordered.take(at + 1);
    let high = ordered.skip(at);
    assert(all_at_most(samples, low, value)) by {
        assert forall|i: int, j: int| 0 <= i < low.len() && 0 <= j < low.len() && i
            != j implies low[i] != low[j] by {
            if i < j {
                assert(ordered[i] != ordered[j]);
            } else {
                assert(ordered[j] != ordered[i]);
            }
        }
        assert forall|k: int| 0 <= k < low.len() implies 0 <= #[trigger] low[k] < samples.len()
            && samples[low[k]] <= value by {
            assert(low[k] == ordered[k]);
            if k < at {
                assert(!above(ordered[k], ordered[at]));
            }
        }
    }
    assert(all_at_least(samples, high, value)) by {
        assert forall|i: int, j: int| 0 <= i < high.len() && 0 <= j < high.len() && i
            != j implies high[i] != high[j] by {
            if i < j {
                assert(ordered[at + i] != ordered[at + j]);
            } else {
                assert(ordered[at + j] != ordered[at + i]);
            }
        }
        assert forall|k: int| 0 <= k < high.len() implies 0 <= #[trigger] high[k] < samples.len()
            && samples[high[k]] >= value by {
            assert(high[k] == ordered[at + k]);
            if k > 0 {
                assert(!above(ordered[at], ordered[at + k]));
            }
        }
    }
    assert(low.len() * 100 >= n * percent);
    assert((n - high.len()) * 100 < n * percent);
}

/// Whether the samples at these places, all different, are no larger than
/// `value`.
pub open spec fn all_at_most(samples: Seq<i128>, places: Seq<int>, value: int) -> bool {
    places.no_duplicates() && forall|k: int|
        0 <= k < places.len() ==> 0 <= #[trigger] places[k] < samples.len() && samples[places[k]]
            <= value
}

/// Whether the samples at these places, all different, are no smaller than
/// `value`.
pub open spec fn all_at_least(samples: Seq<i128>, places: Seq<int>, value: int) -> bool {
    places.no_duplicates() && forall|k: int|
        0 <= k < places.len() ==> 0 <= #[trigger] places[k] < samples.len() && samples[places[k]]
            >= value
}

/// The percentiles that statistics give are the fiftieth and the ninety-fifth,
/// of the running times within the window.
pub proof fn the_percentiles_are_of_the_window(
    db: DatabaseView,
    workspace: Seq<char>,
    since: i64,
    until: i64,
    stats: ExecutionStatsView,
)
    requires
        stats::stats_answer(
            db,
            workspace,
            since,
            until,
            Ok::<ExecutionStatsView, ErrorView>(stats),
        ),
    ensures
        ({
            let rows = stats::window_rows(db, stats.workspace.id, since, until);
            let samples = stats::samples_of(rows);
            match (stats.duration_p50_ms, stats.duration_p95_ms) {
                (Some(middle), Some(high)) => samples.len() > 0 && Some(middle)
                    == stats::percentile(samples, 50) && Some(high) == stats::percentile(
                    samples,
                    95,
                ),
                (None, None) => samples.len() == 0,
                _ => false,
            }
        }),
{
}

} // verus!
