//! Statistics of the executions of a workspace in a window of time.

use vstd::prelude::*;

use crate::error;
use crate::error::{Error, ErrorView};
use crate::model;
use crate::model::{
    ExecutionOutcome, ExecutionOutcomeView, ExecutionState, ExecutionStats, ExecutionStatsView,
    ExecutionStatusCounts, InitiatorStats, InitiatorStatsView, WorkspaceView,
};
use crate::order;
use crate::order::{comes_after, order_by_key};
use crate::store::rows::{Database, DatabaseView, ExecutionRow, ExecutionRowView};
use crate::store::workspaces;
use crate::text::same_text;

verus! {

/// The classes that executions are counted in.
#[derive(Debug, Clone, Copy, PartialEq, Eq, Structural)]
pub enum StatusClass {
    Queued,
    Running,
    ExitedZero,
    ExitedNonzero,
    Signaled,
    SpawnError,
    Cancelled,
    Interrupted,
    UnknownTerminal,
}

/// The class of an execution. What ended by an exit, a signal or a failed
/// start is told apart; cancelled and interrupted executions count as such
/// whichever of state and outcome says so.
pub open spec fn class_of(row: ExecutionRowView) -> StatusClass {
    match row.state {
        ExecutionState::Queued => StatusClass::Queued,
        ExecutionState::Running => StatusClass::Running,
        ExecutionState::Cancelled => StatusClass::Cancelled,
        ExecutionState::Interrupted => StatusClass::Interrupted,
        ExecutionState::Finished => match row.outcome {
            None => StatusClass::UnknownTerminal,
            Some(ExecutionOutcomeView::Exited { code }) => if code == 0 {
                StatusClass::ExitedZero
            } else {
                StatusClass::ExitedNonzero
            },
            Some(ExecutionOutcomeView::Signaled { signal }) => StatusClass::Signaled,
            Some(ExecutionOutcomeView::SpawnError { message }) => StatusClass::SpawnError,
            Some(ExecutionOutcomeView::Cancelled { signal }) => StatusClass::Cancelled,
            Some(ExecutionOutcomeView::Interrupted { reason }) => StatusClass::Interrupted,
        },
    }
}

/// The places of the executions that a window covers: those of the workspace,
/// created no earlier than `since` and no later than `until`.
pub open spec fn window(db: DatabaseView, workspace_id: Seq<char>, since: i64, until: i64) -> Seq<
    int,
> {
    order::matching(db.executions.len(), |i: int| covered(db.executions[i], workspace_id, since, until))
}

/// Whether a window covers an execution.
pub open spec fn covered(
    row: ExecutionRowView,
    workspace_id: Seq<char>,
    since: i64,
    until: i64,
) -> bool {
    row.workspace_id == workspace_id && since <= row.created_at_ms && row.created_at_ms <= until
}

/// How many of the rows are of one class.
pub open spec fn class_count(rows: Seq<ExecutionRowView>, class: StatusClass) -> nat
    decreases rows.len(),
{
    if rows.len() == 0 {
        0
    } else {
        class_count(rows.drop_last(), class) + if class_of(rows.last()) == class {
            1nat
        } else {
            0nat
        }
    }
}

/// The count of each class.
pub open spec fn status_counts(rows: Seq<ExecutionRowView>) -> ExecutionStatusCounts {
    ExecutionStatusCounts {
        queued: class_count(rows, StatusClass::Queued) as u64,
        running: class_count(rows, StatusClass::Running) as u64,
        exited_zero: class_count(rows, StatusClass::ExitedZero) as u64,
        exited_nonzero: class_count(rows, StatusClass::ExitedNonzero) as u64,
        signaled: class_count(rows, StatusClass::Signaled) as u64,
        spawn_error: class_count(rows, StatusClass::SpawnError) as u64,
        cancelled: class_count(rows, StatusClass::Cancelled) as u64,
        interrupted: class_count(rows, StatusClass::Interrupted) as u64,
        unknown_terminal: class_count(rows, StatusClass::UnknownTerminal) as u64,
    }
}

/// The kind of initiator that an execution is counted under.
pub open spec fn kind_of(row: ExecutionRowView) -> Seq<char> {
    if row.initiator.kind.len() == 0 {
        "unknown"@
    } else {
        row.initiator.kind
    }
}

/// How many of the rows are of one kind.
pub open spec fn kind_count(rows: Seq<ExecutionRowView>, kind: Seq<char>) -> nat
    decreases rows.len(),
{
    if rows.len() == 0 {
        0
    } else {
        kind_count(rows.drop_last(), kind) + if kind_of(rows.last()) == kind {
            1nat
        } else {
            0nat
        }
    }
}

/// Whether `list` counts the rows by kind: the kinds in ascending order, each
/// kind that occurs once, with its count.
pub open spec fn counts_kinds(
    rows: Seq<ExecutionRowView>,
    list: Seq<InitiatorStatsView>,
) -> bool {
    &&& forall|i: int, j: int|
        0 <= i < j < list.len() ==> order::text_above(
            (#[trigger] list[j]).kind,
            (#[trigger] list[i]).kind,
        )
    &&& forall|i: int|
        0 <= i < list.len() ==> (#[trigger] list[i]).count == kind_count(rows, list[i].kind)
            && list[i].count > 0
    &&& forall|r: int|
        0 <= r < rows.len() ==> exists|i: int|
            0 <= i < list.len() && (#[trigger] list[i]).kind == kind_of(#[trigger] rows[r])
}

/// How many bytes the rows hold together.
pub open spec fn bytes_of(rows: Seq<ExecutionRowView>) -> int
    decreases rows.len(),
{
    if rows.len() == 0 {
        0
    } else {
        bytes_of(rows.drop_last()) + rows.last().captured_bytes
    }
}

/// How many of the rows have lost output.
pub open spec fn truncated_of(rows: Seq<ExecutionRowView>) -> nat
    decreases rows.len(),
{
    if rows.len() == 0 {
        0
    } else {
        truncated_of(rows.drop_last()) + if rows.last().output_truncated {
            1nat
        } else {
            0nat
        }
    }
}

/// How long an execution ran, for those that started and ended.
pub open spec fn sample_of(row: ExecutionRowView) -> Option<i128> {
    if !model::terminal(row.state) {
        None
    } else {
        match (row.started_at_ms, row.ended_at_ms) {
            (Some(started), Some(ended)) => Some(
                if ended >= started {
                    (ended - started) as i128
                } else {
                    0
                },
            ),
            _ => None,
        }
    }
}

/// The running times of the rows that have one.
pub open spec fn samples_of(rows: Seq<ExecutionRowView>) -> Seq<i128>
    decreases rows.len(),
{
    if rows.len() == 0 {
        Seq::empty()
    } else {
        match sample_of(rows.last()) {
            Some(sample) => samples_of(rows.drop_last()).push(sample),
            None => samples_of(rows.drop_last()),
        }
    }
}

/// The nearest-rank percentile of some samples: the smallest one that at least
/// `percent` in a hundred do not exceed.
pub open spec fn percentile(samples: Seq<i128>, percent: int) -> Option<u64> {
    if samples.len() == 0 {
        None
    } else {
        let ordered = order::stable_order(samples.len(), order::key_above(samples));
        Some(samples[ordered[(samples.len() * percent + 99) / 100 - 1]] as u64)
    }
}

/// The statistics of the rows of a window.
pub open spec fn stats_match(
    stats: ExecutionStatsView,
    workspace: WorkspaceView,
    since: i64,
    until: i64,
    rows: Seq<ExecutionRowView>,
) -> bool {
    &&& stats.workspace == workspace
    &&& stats.since_ms == since
    &&& stats.until_ms == until
    &&& stats.total == rows.len()
    &&& stats.status == status_counts(rows)
    &&& counts_kinds(rows, stats.by_initiator)
    &&& stats.captured_bytes == bytes_of(rows)
    &&& stats.truncated_executions == truncated_of(rows)
    &&& stats.duration_samples == samples_of(rows).len()
    &&& stats.duration_p50_ms == percentile(samples_of(rows), 50)
    &&& stats.duration_p95_ms == percentile(samples_of(rows), 95)
}

/// The rows of a window.
pub open spec fn window_rows(
    db: DatabaseView,
    workspace_id: Seq<char>,
    since: i64,
    until: i64,
) -> Seq<ExecutionRowView> {
    order::picked(db.executions, window(db, workspace_id, since, until))
}

/// What asking for statistics gives.
pub open spec fn stats_answer(
    db: DatabaseView,
    workspace: Seq<char>,
    since: i64,
    until: i64,
    answer: Result<ExecutionStatsView, ErrorView>,
) -> bool {
    if since > until {
        answer == Err::<ExecutionStatsView, ErrorView>(
            error::refused("statistics window start must not exceed its end"@),
        )
    } else {
        match workspaces::registered(db, workspace) {
            Err(error) => answer == Err::<ExecutionStatsView, ErrorView>(error),
            Ok(found) => {
                let rows = window_rows(db, found.id, since, until);
                if bytes_of(rows) > i64::MAX {
                    answer == Err::<ExecutionStatsView, ErrorView>(
                        ErrorView::Database("integer overflow"@),
                    )
                } else {
                    answer matches Ok(stats) && stats_match(stats, found, since, until, rows)
                }
            },
        }
    }
}

fn classify(row: &ExecutionRow) -> (class: StatusClass)
    ensures
        class == class_of(row@),
{
    match row.state {
        ExecutionState::Queued => StatusClass::Queued,
        ExecutionState::Running => StatusClass::Running,
        ExecutionState::Cancelled => StatusClass::Cancelled,
        ExecutionState::Interrupted => StatusClass::Interrupted,
        ExecutionState::Finished => match &row.outcome {
            None => StatusClass::UnknownTerminal,
            Some(outcome) => match outcome {
                ExecutionOutcome::Exited { code } => if *code == 0 {
                    StatusClass::ExitedZero
                } else {
                    StatusClass::ExitedNonzero
                },
                ExecutionOutcome::Signaled { signal } => StatusClass::Signaled,
                ExecutionOutcome::SpawnError { message } => StatusClass::SpawnError,
                ExecutionOutcome::Cancelled { signal } => StatusClass::Cancelled,
                ExecutionOutcome::Interrupted { reason } => StatusClass::Interrupted,
            },
        },
    }
}

/// No class holds more than all the rows.
proof fn class_count_bound(rows: Seq<ExecutionRowView>, class: StatusClass)
    ensures
        class_count(rows, class) <= rows.len(),
    decreases rows.len(),
{
    if rows.len() > 0 {
        class_count_bound(rows.drop_last(), class);
    }
}

/// Adds one execution to the counts.
fn count_class(counts: &mut ExecutionStatusCounts, class: StatusClass, Ghost(rows): Ghost<
    Seq<ExecutionRowView>,
>)
    requires
        rows.len() > 0,
        rows.len() <= usize::MAX,
        *old(counts) == status_counts(rows.drop_last()),
        class == class_of(rows.last()),
    ensures
        *final(counts) == status_counts(rows),
{
    proof {
        class_count_bound(rows.drop_last(), StatusClass::Queued);
        class_count_bound(rows.drop_last(), StatusClass::Running);
        class_count_bound(rows.drop_last(), StatusClass::ExitedZero);
        class_count_bound(rows.drop_last(), StatusClass::ExitedNonzero);
        class_count_bound(rows.drop_last(), StatusClass::Signaled);
        class_count_bound(rows.drop_last(), StatusClass::SpawnError);
        class_count_bound(rows.drop_last(), StatusClass::Cancelled);
        class_count_bound(rows.drop_last(), StatusClass::Interrupted);
        class_count_bound(rows.drop_last(), StatusClass::UnknownTerminal);
    }
    match class {
        StatusClass::Queued => {
            counts.queued = counts.queued + 1;
        },
        StatusClass::Running => {
            counts.running = counts.running + 1;
        },
        StatusClass::ExitedZero => {
            counts.exited_zero = counts.exited_zero + 1;
        },
        StatusClass::ExitedNonzero => {
            counts.exited_nonzero = counts.exited_nonzero + 1;
        },
        StatusClass::Signaled => {
            counts.signaled = counts.signaled + 1;
        },
        StatusClass::SpawnError => {
            counts.spawn_error = counts.spawn_error + 1;
        },
        StatusClass::Cancelled => {
            counts.cancelled = counts.cancelled + 1;
        },
        StatusClass::Interrupted => {
            counts.interrupted = counts.interrupted + 1;
        },
        StatusClass::UnknownTerminal => {
            counts.unknown_terminal = counts.unknown_terminal + 1;
        },
    }
}

/// A kind that is counted occurs.
proof fn counted_kind_occurs(rows: Seq<ExecutionRowView>, kind: Seq<char>) -> (r: int)
    requires
        kind_count(rows, kind) > 0,
    ensures
        0 <= r < rows.len(),
        kind_of(rows[r]) == kind,
    decreases rows.len(),
{
    if kind_of(rows.last()) == kind {
        rows.len() - 1
    } else {
        let r = counted_kind_occurs(rows.drop_last(), kind);
        assert(rows.drop_last()[r] == rows[r]);
        r
    }
}

/// No kind is counted more often than there are rows.
proof fn kind_count_bound(rows: Seq<ExecutionRowView>, kind: Seq<char>)
    ensures
        kind_count(rows, kind) <= rows.len(),
    decreases rows.len(),
{
    if rows.len() > 0 {
        kind_count_bound(rows.drop_last(), kind);
    }
}

/// The views of a list of counts by kind.
pub open spec fn kind_views(list: Seq<InitiatorStats>) -> Seq<InitiatorStatsView> {
    list.map_values(|item: InitiatorStats| item@)
}

/// Adds one execution to the counts by kind.
#[verifier::rlimit(30)]
fn count_kind(list: &mut Vec<InitiatorStats>, kind: String, Ghost(rows): Ghost<
    Seq<ExecutionRowView>,
>)
    requires
        rows.len() > 0,
        rows.len() <= usize::MAX,
        counts_kinds(rows.drop_last(), kind_views(old(list)@)),
        kind@ == kind_of(rows.last()),
    ensures
        counts_kinds(rows, kind_views(final(list)@)),
{
    let ghost before = rows.drop_last();
    let ghost start = kind_views(list@);
    let mut i: usize = 0;
    while i < list.len() && comes_after(kind.as_str(), list[i].kind.as_str())
        invariant
            i <= list.len(),
            start == kind_views(list@),
            forall|k: int| 0 <= k < i ==> order::text_above(kind@, (#[trigger] start[k]).kind),
        decreases list.len() - i,
    {
        assert(start[i as int].kind == list@[i as int].kind@);
        i += 1;
    }
    assert(i < list.len() ==> start[i as int].kind == list@[i as int].kind@);
    if i < list.len() && same_text(list[i].kind.as_str(), kind.as_str()) {
        let ghost held = list@;
        proof {
            kind_count_bound(before, kind@);
            assert(start[i as int].count == kind_count(before, start[i as int].kind));
        }
        let entry = &mut list[i];
        entry.count = entry.count + 1;
        proof {
            let after = kind_views(list@);
            assert forall|k: int| 0 <= k < after.len() implies (#[trigger] after[k]).kind
                == start[k].kind && after[k].count == start[k].count + (if k == i { 1int } else {
                0int
            }) by {
                assert(start[k] == held[k]@);
                assert(after[k] == list@[k]@);
            }
            assert forall|k: int| 0 <= k < after.len() implies (#[trigger] after[k]).count
                == kind_count(rows, after[k].kind) && after[k].count > 0 by {
                assert(start[k].count == kind_count(before, start[k].kind));
                if k < i {
                    order::text_above_orders(kind@, start[k].kind, kind@);
                } else if k > i {
                    order::text_above_orders(start[k].kind, kind@, kind@);
                    assert(order::text_above(start[k].kind, start[i as int].kind));
                }
            }
            assert forall|r: int| 0 <= r < rows.len() implies exists|k: int|
                0 <= k < after.len() && (#[trigger] after[k]).kind == kind_of(#[trigger] rows[r]) by {
                if r == rows.len() - 1 {
                    assert(after[i as int].kind == kind@);
                } else {
                    assert(rows[r] == before[r]);
                    let k = choose|k: int|
                        0 <= k < start.len() && (#[trigger] start[k]).kind == kind_of(before[r]);
                    assert(after[k].kind == kind_of(rows[r]));
                }
            }
            assert forall|a: int, b: int| 0 <= a < b < after.len() implies order::text_above(
                (#[trigger] after[b]).kind,
                (#[trigger] after[a]).kind,
            ) by {
                assert(order::text_above(start[b].kind, start[a].kind));
            }
        }
    } else {
        proof {
            if kind_count(before, kind@) > 0 {
                let r = counted_kind_occurs(before, kind@);
                let k = choose|k: int|
                    0 <= k < start.len() && (#[trigger] start[k]).kind == kind_of(before[r]);
                if k < i {
                    order::text_above_orders(kind@, kind@, kind@);
                } else if k > i {
                    assert(order::text_above(start[k].kind, start[i as int].kind));
                }
                assert(false);
            }
        }
        let ghost held = list@;
        let fresh = InitiatorStats { kind, count: 1 };
        list.insert(i, fresh);
        proof {
            let after = kind_views(list@);
            assert(after =~= start.insert(i as int, fresh@));
            assert forall|k: int| 0 <= k < after.len() implies (#[trigger] after[k]).count
                == kind_count(rows, after[k].kind) && after[k].count > 0 by {
                if k != i {
                    let old_k = if k < i { k } else { k - 1 };
                    assert(after[k] == start[old_k]);
                    assert(start[old_k].count == kind_count(before, start[old_k].kind));
                    assert(start[old_k].count > 0);
                }
            }
            assert forall|r: int| 0 <= r < rows.len() implies exists|k: int|
                0 <= k < after.len() && (#[trigger] after[k]).kind == kind_of(#[trigger] rows[r]) by {
                if r == rows.len() - 1 {
                    assert(after[i as int].kind == kind@);
                } else {
                    assert(rows[r] == before[r]);
                    let k = choose|k: int|
                        0 <= k < start.len() && (#[trigger] start[k]).kind == kind_of(before[r]);
                    let now_k = if k < i { k } else { k + 1 };
                    assert(after[now_k] == start[k]);
                }
            }
            assert forall|a: int, b: int| 0 <= a < b < after.len() implies order::text_above(
                (#[trigger] after[b]).kind,
                (#[trigger] after[a]).kind,
            ) by {
                let old_a = if a < i { a } else { a - 1 };
                let old_b = if b < i { b } else { b - 1 };
                if a != i && b != i {
                    assert(after[a] == start[old_a] && after[b] == start[old_b]);
                    assert(order::text_above(start[old_b].kind, start[old_a].kind));
                } else if b == i {
                    assert(after[a] == start[old_a]);
                } else {
                    assert(after[b] == start[old_b]);
                    order::text_above_orders(start[i as int].kind, kind@, kind@);
                    assert(order::text_above(start[i as int].kind, kind@)) by {
                        order::text_above_orders(kind@, start[i as int].kind, kind@);
                        order::text_above_orders(start[i as int].kind, kind@, kind@);
                    }
                    if old_b > i {
                        assert(order::text_above(start[old_b].kind, start[i as int].kind));
                        order::text_above_orders(start[old_b].kind, start[i as int].kind, kind@);
                        order::text_above_orders(kind@, start[i as int].kind, start[i as int].kind);
                    }
                }
            }
        }
    }
}

/// The nearest-rank percentile of some samples.
pub fn nearest_rank(samples: &Vec<i128>, percent: u32) -> (value: Option<u64>)
    requires
        1 <= percent <= 100,
        forall|i: int| 0 <= i < samples.len() ==> 0 <= #[trigger] samples@[i] <= u64::MAX,
    ensures
        value == percentile(samples@, percent as int),
{
    if samples.len() == 0 {
        return None;
    }
    let ordered = order_by_key(samples);
    let count: usize = samples.len();
    proof {
        order::order_is_complete(samples@.len(), order::key_above(samples@));
        assert(ordered.len() == order::places(ordered@).len());
        assert(count * percent >= 1 && count * percent <= 100 * count) by (nonlinear_arith)
            requires
                count >= 1,
                1 <= percent <= 100,
        ;
    }
    let rank: u128 = (count as u128 * percent as u128 + 99) / 100;
    let at: usize = (rank - 1) as usize;
    proof {
        assert(order::places(ordered@)[at as int] == ordered@[at as int] as int);
    }
    Some(samples[ordered[at]] as u64)
}

impl Database {
    /// The statistics of a workspace over the executions created from
    /// `since_ms` to `until_ms`.
    #[verifier::rlimit(60)]
    pub fn execution_stats(&self, workspace: &str, since_ms: i64, until_ms: i64) -> (stats: Result<
        ExecutionStats,
        Error,
    >)
        ensures
            stats_answer(self@, workspace@, since_ms, until_ms, error::viewed(stats)),
    {
        if since_ms > until_ms {
            return Err(
                Error::InvalidRequest(
                    "statistics window start must not exceed its end".to_owned(),
                ),
            );
        }
        let found = match self.get_workspace(workspace) {
            Ok(found) => found,
            Err(error) => {
                return Err(error);
            },
        };
        let ghost test = |i: int|
            covered(self@.executions[i], found@.id, since_ms, until_ms);
        let ghost total_rows = window_rows(self@, found@.id, since_ms, until_ms);
        let ghost mut rows: Seq<ExecutionRowView> = Seq::empty();
        let mut total: u64 = 0;
        let mut status = ExecutionStatusCounts::default();
        let mut by_initiator: Vec<InitiatorStats> = Vec::new();
        let mut captured_bytes: u64 = 0;
        let mut overflow = false;
        let mut truncated: u64 = 0;
        let mut samples: Vec<i128> = Vec::new();
        let mut i: usize = 0;
        proof {
            assert(rows =~= order::picked(self@.executions, order::matching(0, test)));
            assert(samples@ =~= samples_of(rows));
        }
        while i < self.executions.len()
            invariant
                i <= self.executions.len(),
                test == (|i: int| covered(self@.executions[i], found@.id, since_ms, until_ms)),
                rows == order::picked(self@.executions, order::matching(i as nat, test)),
                rows.len() <= i,
                total == rows.len(),
                status == status_counts(rows),
                counts_kinds(rows, kind_views(by_initiator@)),
                overflow == (bytes_of(rows) > i64::MAX),
                !overflow ==> captured_bytes == bytes_of(rows),
                truncated == truncated_of(rows),
                truncated <= rows.len(),
                samples@ == samples_of(rows),
                samples@.len() <= rows.len(),
                forall|k: int| 0 <= k < samples.len() ==> 0 <= #[trigger] samples@[k] <= u64::MAX,
            decreases self.executions.len() - i,
        {
            let row = &self.executions[i];
            assert(self@.executions[i as int] == row@);
            if same_text(row.workspace_id.as_str(), found.id.as_str()) && since_ms
                <= row.created_at_ms && row.created_at_ms <= until_ms {
                let ghost before = rows;
                proof {
                    rows = before.push(row@);
                    assert(rows.drop_last() =~= before);
                    assert(rows =~= order::picked(self@.executions, order::matching((i + 1) as nat, test)));
                    bytes_not_negative(before);
                }
                total += 1;
                count_class(&mut status, classify(row), Ghost(rows));
                let kind = if row.initiator.kind.as_str().is_empty() {
                    "unknown".to_owned()
                } else {
                    row.initiator.kind.clone()
                };
                count_kind(&mut by_initiator, kind, Ghost(rows));
                let limit: u64 = i64::MAX as u64;
                if !overflow {
                    if row.captured_bytes > limit - captured_bytes {
                        overflow = true;
                    } else {
                        captured_bytes += row.captured_bytes;
                    }
                }
                if row.output_truncated {
                    truncated += 1;
                }
                if row.state.is_terminal() {
                    match (row.started_at_ms, row.ended_at_ms) {
                        (Some(started), Some(ended)) => {
                            if ended >= started {
                                samples.push(ended as i128 - started as i128);
                            } else {
                                samples.push(0);
                            }
                        },
                        _ => {},
                    }
                }
            } else {
                assert(rows =~= order::picked(self@.executions, order::matching((i + 1) as nat, test)));
            }
            i += 1;
        }
        if overflow {
            return Err(Error::Database("integer overflow".to_owned()));
        }
        let p50 = nearest_rank(&samples, 50);
        let p95 = nearest_rank(&samples, 95);
        Ok(
            ExecutionStats {
                workspace: found,
                since_ms,
                until_ms,
                total,
                status,
                by_initiator,
                captured_bytes,
                truncated_executions: truncated,
                duration_samples: samples.len() as u64,
                duration_p50_ms: p50,
                duration_p95_ms: p95,
            },
        )
    }
}

proof fn bytes_not_negative(rows: Seq<ExecutionRowView>)
    ensures
        bytes_of(rows) >= 0,
    decreases rows.len(),
{
    if rows.len() > 0 {
        bytes_not_negative(rows.drop_last());
    }
}

/// Every execution of a window is counted in one class and no other.
pub proof fn classes_add_up(rows: Seq<ExecutionRowView>)
    ensures
        class_count(rows, StatusClass::Queued) + class_count(rows, StatusClass::Running)
            + class_count(rows, StatusClass::ExitedZero) + class_count(
            rows,
            StatusClass::ExitedNonzero,
        ) + class_count(rows, StatusClass::Signaled) + class_count(rows, StatusClass::SpawnError)
            + class_count(rows, StatusClass::Cancelled) + class_count(
            rows,
            StatusClass::Interrupted,
        ) + class_count(rows, StatusClass::UnknownTerminal) == rows.len(),
    decreases rows.len(),
{
    if rows.len() > 0 {
        classes_add_up(rows.drop_last());
    }
}

/// The sum of counts by kind.
pub open spec fn kinds_total(list: Seq<InitiatorStatsView>) -> int
    decreases list.len(),
{
    if list.len() == 0 {
        0
    } else {
        kinds_total(list.drop_last()) + list.last().count
    }
}

/// Whether a kind is listed.
spec fn is_listed(list: Seq<InitiatorStatsView>, kind: Seq<char>) -> bool {
    exists|i: int| 0 <= i < list.len() && (#[trigger] list[i]).kind == kind
}

/// How many of the rows are of one of the kinds, each kind counted as often as
/// it is listed.
spec fn listed_rows(rows: Seq<ExecutionRowView>, list: Seq<InitiatorStatsView>) -> int
    decreases list.len(),
{
    if list.len() == 0 {
        0
    } else {
        listed_rows(rows, list.drop_last()) + kind_count(rows, list.last().kind)
    }
}

/// A row counts once where its kind is listed once, and not where it is not
/// listed.
proof fn one_row_counts_once(
    rows: Seq<ExecutionRowView>,
    list: Seq<InitiatorStatsView>,
    place: Option<int>,
)
    requires
        rows.len() > 0,
        place matches Some(at) ==> 0 <= at < list.len(),
        forall|i: int|
            0 <= i < list.len() ==> ((#[trigger] list[i]).kind == kind_of(rows.last())) == (place
                == Some(i)),
    ensures
        listed_rows(rows, list) == listed_rows(rows.drop_last(), list) + if place is Some {
            1int
        } else {
            0int
        },
    decreases list.len(),
{
    if list.len() > 0 {
        let some = list.drop_last();
        let end = list.len() - 1;
        let before = if place == Some(end) {
            None
        } else {
            place
        };
        assert forall|i: int| 0 <= i < some.len() implies ((#[trigger] some[i]).kind == kind_of(
            rows.last(),
        )) == (before == Some(i)) by {
            assert(some[i] == list[i]);
        }
        one_row_counts_once(rows, some, before);
        assert((list[end].kind == kind_of(rows.last())) == (place == Some(end)));
    }
}

proof fn every_row_is_listed(rows: Seq<ExecutionRowView>, list: Seq<InitiatorStatsView>)
    requires
        forall|i: int, j: int|
            0 <= i < j < list.len() ==> (#[trigger] list[j]).kind != (#[trigger] list[i]).kind,
        forall|r: int| 0 <= r < rows.len() ==> is_listed(list, kind_of(#[trigger] rows[r])),
    ensures
        listed_rows(rows, list) == rows.len(),
    decreases rows.len(),
{
    if rows.len() == 0 {
        no_row_is_listed(rows, list);
    } else {
        let before = rows.drop_last();
        assert forall|r: int| 0 <= r < before.len() implies is_listed(
            list,
            kind_of(#[trigger] before[r]),
        ) by {
            assert(before[r] == rows[r]);
        }
        every_row_is_listed(before, list);
        let last = rows[rows.len() - 1];
        assert(is_listed(list, kind_of(last)));
        let at = choose|i: int|
            0 <= i < list.len() && (#[trigger] list[i]).kind == kind_of(last);
        one_row_counts_once(rows, list, Some(at));
    }
}

proof fn no_row_is_listed(rows: Seq<ExecutionRowView>, list: Seq<InitiatorStatsView>)
    requires
        rows.len() == 0,
    ensures
        listed_rows(rows, list) == 0,
    decreases list.len(),
{
    if list.len() > 0 {
        no_row_is_listed(rows, list.drop_last());
    }
}

proof fn totals_agree(rows: Seq<ExecutionRowView>, list: Seq<InitiatorStatsView>)
    requires
        forall|i: int|
            0 <= i < list.len() ==> (#[trigger] list[i]).count == kind_count(rows, list[i].kind),
    ensures
        kinds_total(list) == listed_rows(rows, list),
    decreases list.len(),
{
    if list.len() > 0 {
        let some = list.drop_last();
        assert forall|i: int| 0 <= i < some.len() implies (#[trigger] some[i]).count == kind_count(
            rows,
            some[i].kind,
        ) by {
            assert(some[i] == list[i]);
        }
        totals_agree(rows, some);
        assert(list[list.len() - 1].count == kind_count(rows, list[list.len() - 1].kind));
    }
}

/// Every execution of a window is counted under one kind of initiator and no
/// other.
pub proof fn kinds_add_up(rows: Seq<ExecutionRowView>, list: Seq<InitiatorStatsView>)
    requires
        counts_kinds(rows, list),
    ensures
        kinds_total(list) == rows.len(),
{
    assert forall|i: int, j: int| 0 <= i < j < list.len() implies (#[trigger] list[j]).kind != (
    #[trigger] list[i]).kind by {
        order::text_above_orders(list[j].kind, list[i].kind, list[i].kind);
    }
    assert forall|r: int| 0 <= r < rows.len() implies is_listed(
        list,
        kind_of(#[trigger] rows[r]),
    ) by {
        let i = choose|i: int|
            0 <= i < list.len() && (#[trigger] list[i]).kind == kind_of(#[trigger] rows[r]);
        assert(list[i].kind == kind_of(rows[r]));
    }
    every_row_is_listed(rows, list);
    totals_agree(rows, list);
}

/// A percentile is one of the samples, and no smaller than a lower percentile.
pub proof fn percentiles_ascend(samples: Seq<i128>, low: int, high: int)
    requires
        samples.len() > 0,
        1 <= low <= high <= 100,
        forall|i: int| 0 <= i < samples.len() ==> 0 <= #[trigger] samples[i] <= u64::MAX,
    ensures
        percentile(samples, low) is Some,
        percentile(samples, high) is Some,
        percentile(samples, low)->0 <= percentile(samples, high)->0,
        exists|i: int|
            0 <= i < samples.len() && #[trigger] samples[i] == percentile(samples, low)->0,
{
    let n = samples.len() as int;
    let above = order::key_above(samples);
    order::order_is_complete(samples.len(), above);
    crate::order::order_is_sorted(samples.len(), above);
    assert(n * low >= 1 && n * low <= n * high && n * high <= 100 * n) by (nonlinear_arith)
        requires
            n >= 1,
            1 <= low <= high <= 100,
    ;
    let a = (n * low + 99) / 100 - 1;
    let b = (n * high + 99) / 100 - 1;
    assert(0 <= a <= b < n);
    let ordered = order::stable_order(samples.len(), above);
    if a < b {
        assert(!above(ordered[a], ordered[b]));
    }
    assert(samples[ordered[a]] == percentile(samples, low)->0);
}

} // verus!
