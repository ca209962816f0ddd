//! What ends or leaves without being asked for: executions that a restart cut
//! off, queued executions of a daemon that stops, and history that is too old
//! or too large.

use vstd::prelude::*;

use crate::error;
use crate::error::{Error, ErrorView};
use crate::model;
use crate::model::{
    AgentActionView, ExecutionEvent, ExecutionOutcome, ExecutionOutcomeView, ExecutionState,
};
use crate::order;
use crate::order::{keep_only, order_by_key};
use crate::store::capture;
use crate::store::executions;
use crate::store::rows;
use crate::store::rows::{Database, DatabaseView, ExecutionRow, ExecutionRowView};

verus! {

/// The outcome of an execution that a restart cut off.
pub open spec fn cut_off() -> ExecutionOutcomeView {
    ExecutionOutcomeView::Interrupted {
        reason: "daemon restarted before the execution completed"@,
    }
}

/// The store after a restart: what was queued or running is interrupted.
pub open spec fn reconciled(db: DatabaseView, now: i64) -> DatabaseView {
    DatabaseView {
        executions: db.executions.map_values(
            |row: ExecutionRowView|
                if model::terminal(row.state) {
                    row
                } else {
                    executions::ended_row(row, ExecutionState::Interrupted, cut_off(), now)
                },
        ),
        ..db
    }
}

/// The store after its queue was cancelled.
pub open spec fn queue_cancelled(db: DatabaseView, now: i64) -> DatabaseView {
    DatabaseView {
        executions: db.executions.map_values(
            |row: ExecutionRowView|
                if row.state == ExecutionState::Queued {
                    cancelled_row(row, now)
                } else {
                    row
                },
        ),
        ..db
    }
}

/// The row of an execution that was cancelled before it started.
pub open spec fn cancelled_row(row: ExecutionRowView, now: i64) -> ExecutionRowView {
    executions::ended_row(
        row,
        ExecutionState::Cancelled,
        ExecutionOutcomeView::Cancelled { signal: None },
        now,
    )
}

/// The places of the queued executions.
pub open spec fn queued_places(db: DatabaseView) -> Seq<int> {
    order::matching(db.executions.len(), |i: int| db.executions[i].state == ExecutionState::Queued)
}

/// The places of the executions that have not ended.
pub open spec fn open_places(db: DatabaseView) -> Seq<int> {
    order::matching(db.executions.len(), |i: int| !model::terminal(db.executions[i].state))
}

/// Milliseconds in a day.
pub const DAY_MS: i128 = 86_400_000;

/// Whether an execution ended before the cutoff.
pub open spec fn expired(row: ExecutionRowView, cutoff: int) -> bool {
    model::terminal(row.state) && match row.ended_at_ms {
        Some(ended) => ended < cutoff,
        None => false,
    }
}

/// How many bytes the executions below place `count` hold, of those that meet
/// `keep`.
pub open spec fn bytes_held(
    rows: Seq<ExecutionRowView>,
    keep: spec_fn(int) -> bool,
    count: nat,
) -> int
    decreases count,
{
    if count == 0 {
        0
    } else {
        bytes_held(rows, keep, (count - 1) as nat) + if keep(count - 1) {
            rows[count - 1].captured_bytes as int
        } else {
            0
        }
    }
}

/// By what an execution that may go is ordered: its end, where it has one.
pub open spec fn end_key(row: ExecutionRowView) -> i128 {
    match row.ended_at_ms {
        Some(ended) => ended as i128,
        None => (i64::MIN - 1) as i128,
    }
}

/// The ended executions that are not expired, the first to end first.
pub open spec fn may_go(rows: Seq<ExecutionRowView>, cutoff: int) -> Seq<int> {
    let ended = order::matching(
        rows.len(),
        |i: int| !expired(rows[i], cutoff) && model::terminal(rows[i].state),
    );
    let keys = ended.map_values(|i: int| end_key(rows[i]));
    order::picked(ended, crate::order::stable_order(keys.len(), order::key_above(keys)))
}

/// How many of the sizes, from the front, it takes to make up the excess.
pub open spec fn taken(sizes: Seq<int>, excess: int) -> int
    decreases sizes.len(),
{
    if sizes.len() == 0 || excess <= 0 {
        0
    } else {
        1 + taken(sizes.drop_first(), excess - sizes[0])
    }
}

/// The executions that leave because there is too much: of those that have
/// ended, the first to end, until what is left is small enough.
pub open spec fn crowded_out(
    rows: Seq<ExecutionRowView>,
    cutoff: int,
    retention_bytes: u64,
) -> Seq<int> {
    let total = bytes_held(rows, |i: int| !expired(rows[i], cutoff), rows.len());
    let candidates = may_go(rows, cutoff);
    let sizes = candidates.map_values(|i: int| rows[i].captured_bytes as int);
    candidates.take(taken(sizes, total - retention_bytes))
}

/// Whether the execution at place `i` stays.
pub open spec fn stays(
    rows: Seq<ExecutionRowView>,
    cutoff: int,
    retention_bytes: u64,
    i: int,
) -> bool {
    !expired(rows[i], cutoff) && !crowded_out(rows, cutoff, retention_bytes).contains(i)
}

/// Actions without the links to executions that are gone.
pub open spec fn unlinked(
    actions: Seq<AgentActionView>,
    executions: Seq<ExecutionRowView>,
) -> Seq<AgentActionView> {
    actions.map_values(
        |action: AgentActionView|
            AgentActionView {
                execution_id: match action.execution_id {
                    Some(id) => if crate::order::position(
                        executions,
                        |row: ExecutionRowView| row.id == id,
                    ) is Some {
                        Some(id)
                    } else {
                        None
                    },
                    None => None,
                },
                ..action
            },
    )
}

/// Forgetting history: what ended more than `retention_days` days ago, and
/// then the executions that ended first, until no more than `retention_bytes`
/// of output is held.
pub open spec fn prune_step(
    db: DatabaseView,
    retention_days: u64,
    retention_bytes: u64,
    now: i64,
) -> (DatabaseView, Result<int, ErrorView>) {
    let cutoff = now - retention_days * DAY_MS;
    let rows = db.executions;
    if bytes_held(rows, |i: int| !expired(rows[i], cutoff), rows.len()) > i64::MAX {
        (db, Err(ErrorView::Database("integer overflow"@)))
    } else {
        let left = order::retained(rows, |i: int| stays(rows, cutoff, retention_bytes, i), 0);
        (
            DatabaseView { executions: left, actions: unlinked(db.actions, left), ..db },
            Ok(rows.len() - left.len()),
        )
    }
}

/// A sum of sizes grows with what is added.
proof fn bytes_held_grows(rows: Seq<ExecutionRowView>, keep: spec_fn(int) -> bool, a: nat, b: nat)
    requires
        a <= b,
    ensures
        0 <= bytes_held(rows, keep, a) <= bytes_held(rows, keep, b),
    decreases b,
{
    if a < b {
        bytes_held_grows(rows, keep, a, (b - 1) as nat);
    } else if a > 0 {
        bytes_held_grows(rows, keep, (a - 1) as nat, (a - 1) as nat);
    }
}

/// No more is taken than there is.
pub proof fn taken_bounds(sizes: Seq<int>, excess: int)
    ensures
        0 <= taken(sizes, excess) <= sizes.len(),
    decreases sizes.len(),
{
    if sizes.len() > 0 && excess > 0 {
        taken_bounds(sizes.drop_first(), excess - sizes[0]);
    }
}

fn is_expired(row: &ExecutionRow, cutoff: i128) -> (yes: bool)
    ensures
        yes == expired(row@, cutoff as int),
{
    row.state.is_terminal() && match row.ended_at_ms {
        Some(ended) => (ended as i128) < cutoff,
        None => false,
    }
}

impl Database {
    /// Ends what a restart cut off; returns how many executions that were.
    pub fn reconcile_incomplete_at(&mut self, now: i64) -> (count: usize)
        ensures
            final(self)@ == reconciled(old(self)@, now),
            count == open_places(old(self)@).len(),
    {
        let ghost start = self@;
        let ghost test = |i: int| !model::terminal(start.executions[i].state);
        let mut count: usize = 0;
        let mut i: usize = 0;
        while i < self.executions.len()
            invariant
                i <= self.executions.len(),
                self.executions.len() == start.executions.len(),
                test == (|i: int| !model::terminal(start.executions[i].state)),
                count == order::matching(i as nat, test).len(),
                count <= i,
                self@.workspaces == start.workspaces,
                self@.sessions == start.sessions,
                self@.turns == start.turns,
                self@.actions == start.actions,
                forall|k: int|
                    0 <= k < i ==> #[trigger] self@.executions[k] == reconciled(
                        start,
                        now,
                    ).executions[k],
                forall|k: int|
                    i <= k < start.executions.len() ==> #[trigger] self@.executions[k]
                        == start.executions[k],
            decreases self.executions.len() - i,
        {
            assert(self@.executions[i as int] == self.executions@[i as int]@);
            if !self.executions[i].state.is_terminal() {
                let _ = self.end_execution(
                    i,
                    ExecutionState::Interrupted,
                    ExecutionOutcome::Interrupted {
                        reason: "daemon restarted before the execution completed".to_owned(),
                    },
                    now,
                );
                count += 1;
            }
            i += 1;
        }
        assert(self@.executions =~= reconciled(start, now).executions);
        count
    }

    /// Cancels what is queued; returns the events that say so.
    pub fn cancel_queued_at(&mut self, now: i64) -> (events: Vec<ExecutionEvent>)
        ensures
            final(self)@ == queue_cancelled(old(self)@, now),
            capture::event_views(events@) == queued_places(old(self)@).map_values(
                |i: int| executions::latest_event(cancelled_row(old(self)@.executions[i], now)),
            ),
    {
        let ghost start = self@;
        let ghost test = |i: int| start.executions[i].state == ExecutionState::Queued;
        let ghost event_at = |i: int| executions::latest_event(cancelled_row(start.executions[i], now));
        let mut events: Vec<ExecutionEvent> = Vec::new();
        let mut i: usize = 0;
        assert(capture::event_views(events@) =~= order::matching(0, test).map_values(event_at));
        while i < self.executions.len()
            invariant
                i <= self.executions.len(),
                self.executions.len() == start.executions.len(),
                test == (|i: int| start.executions[i].state == ExecutionState::Queued),
                event_at == (|i: int| executions::latest_event(cancelled_row(start.executions[i], now))),
                capture::event_views(events@) == order::matching(i as nat, test).map_values(event_at),
                self@.workspaces == start.workspaces,
                self@.sessions == start.sessions,
                self@.turns == start.turns,
                self@.actions == start.actions,
                forall|k: int|
                    0 <= k < i ==> #[trigger] self@.executions[k] == queue_cancelled(
                        start,
                        now,
                    ).executions[k],
                forall|k: int|
                    i <= k < start.executions.len() ==> #[trigger] self@.executions[k]
                        == start.executions[k],
            decreases self.executions.len() - i,
        {
            assert(self@.executions[i as int] == self.executions@[i as int]@);
            let ghost before = capture::event_views(events@);
            if self.executions[i].state == ExecutionState::Queued {
                let event = self.end_execution(
                    i,
                    ExecutionState::Cancelled,
                    ExecutionOutcome::Cancelled { signal: None },
                    now,
                );
                events.push(event);
                assert(capture::event_views(events@) =~= before.push(event_at(i as int)));
                assert(order::matching((i + 1) as nat, test).map_values(event_at) =~= before.push(
                    event_at(i as int),
                ));
            }
            i += 1;
        }
        assert(self@.executions =~= queue_cancelled(start, now).executions);
        events
    }

    /// Which executions stay when history is pruned; nothing where the sum of
    /// the bytes held is beyond counting.
    fn staying(&self, cutoff: i128, retention_bytes: u64) -> (keep: Option<Vec<bool>>)
        ensures
            match keep {
                None => bytes_held(
                    self@.executions,
                    |i: int| !expired(self@.executions[i], cutoff as int),
                    self@.executions.len(),
                ) > i64::MAX,
                Some(list) => {
                    &&& bytes_held(
                        self@.executions,
                        |i: int| !expired(self@.executions[i], cutoff as int),
                        self@.executions.len(),
                    ) <= i64::MAX
                    &&& list.len() == self@.executions.len()
                    &&& forall|i: int|
                        0 <= i < list.len() ==> #[trigger] list@[i] == stays(
                            self@.executions,
                            cutoff as int,
                            retention_bytes,
                            i,
                        )
                },
            },
    {
        let ghost rows = self@.executions;
        let ghost fresh = |i: int| !expired(rows[i], cutoff as int);
        let ghost ended = |i: int|
            !expired(rows[i], cutoff as int) && model::terminal(rows[i].state);
        let mut keep: Vec<bool> = Vec::new();
        let mut candidates: Vec<usize> = Vec::new();
        let mut keys: Vec<i128> = Vec::new();
        let mut total: u64 = 0;
        let mut i: usize = 0;
        assert(order::places(candidates@) =~= order::matching(0, ended));
        while i < self.executions.len()
            invariant
                i <= self.executions.len(),
                rows == self@.executions,
                fresh == (|i: int| !expired(rows[i], cutoff as int)),
                ended == (|i: int| !expired(rows[i], cutoff as int) && model::terminal(rows[i].state)),
                keep.len() == i,
                forall|k: int| 0 <= k < i ==> #[trigger] keep@[k] == fresh(k),
                total == bytes_held(rows, fresh, i as nat),
                total <= i64::MAX,
                order::places(candidates@) == order::matching(i as nat, ended),
                keys.len() == candidates.len(),
                forall|k: int| 0 <= k < candidates.len() ==> #[trigger] candidates@[k] < i,
                forall|k: int|
                    0 <= k < candidates.len() ==> keys@[k] == end_key(
                        rows[#[trigger] candidates@[k] as int],
                    ),
            decreases self.executions.len() - i,
        {
            let row = &self.executions[i];
            assert(rows[i as int] == row@);
            if is_expired(row, cutoff) {
                keep.push(false);
            } else {
                keep.push(true);
                let limit: u64 = i64::MAX as u64;
                if row.captured_bytes > limit - total {
                    proof {
                        bytes_held_grows(rows, fresh, (i + 1) as nat, rows.len());
                        assert(bytes_held(rows, fresh, (i + 1) as nat) == total
                            + row.captured_bytes);
                    }
                    return None;
                }
                total += row.captured_bytes;
                if row.state.is_terminal() {
                    let ghost before = order::places(candidates@);
                    candidates.push(i);
                    keys.push(
                        match row.ended_at_ms {
                            Some(end) => end as i128,
                            None => -9_223_372_036_854_775_809i128,
                        },
                    );
                    assert(order::places(candidates@) =~= before.push(i as int));
                }
            }
            i += 1;
        }
        let ghost pool = order::places(candidates@);
        let ordered = order_by_key(&keys);
        let ghost goers = may_go(rows, cutoff as int);
        let ghost sizes = goers.map_values(|i: int| rows[i].captured_bytes as int);
        proof {
            assert(keys@ =~= pool.map_values(|i: int| end_key(rows[i]))) by {
                assert forall|k: int| 0 <= k < keys.len() implies keys@[k] == end_key(
                    rows[pool[k]],
                ) by {
                    assert(pool[k] == candidates@[k] as int);
                }
            }
            order::order_is_complete(keys@.len(), order::key_above(keys@));
            assert(ordered.len() == order::places(ordered@).len());
            assert forall|j: int| 0 <= j < ordered.len() implies #[trigger] ordered@[j]
                < candidates.len() by {
                assert(order::places(ordered@)[j] == ordered@[j] as int);
            }
            assert(goers == order::picked(pool, order::places(ordered@)));
            assert(goers.take(0).len() == 0);
        }
        let mut k: usize = 0;
        let ghost excess = total - retention_bytes;
        let mut missing: u64 = if total > retention_bytes {
            total - retention_bytes
        } else {
            0
        };
        assert(sizes.skip(0) =~= sizes);
        while k < ordered.len() && missing > 0
            invariant
                k <= ordered.len(),
                rows == self@.executions,
                rows.len() == self.executions.len(),
                ordered.len() == goers.len(),
                goers == order::picked(pool, order::places(ordered@)),
                pool == order::places(candidates@),
                sizes == goers.map_values(|i: int| rows[i].captured_bytes as int),
                keep.len() == rows.len(),
                forall|j: int| 0 <= j < ordered.len() ==> #[trigger] ordered@[j]
                    < candidates.len(),
                forall|j: int| 0 <= j < candidates.len() ==> #[trigger] candidates@[j]
                    < rows.len(),
                forall|j: int|
                    0 <= j < rows.len() ==> #[trigger] keep@[j] == (fresh(j) && !goers.take(
                        k as int,
                    ).contains(j)),
                taken(sizes, excess) == k + taken(sizes.skip(k as int), missing as int),
            decreases ordered.len() - k,
        {
            let at = candidates[ordered[k]];
            proof {
                assert(order::places(ordered@)[k as int] == ordered@[k as int] as int);
                assert(pool[ordered@[k as int] as int] == at as int);
                assert(goers[k as int] == at as int);
                assert(sizes.skip(k as int)[0] == rows[at as int].captured_bytes);
                assert(sizes.skip(k as int).drop_first() =~= sizes.skip(k + 1));
                assert(rows[at as int] == self.executions@[at as int]@);
            }
            let size: u64 = self.executions[at].captured_bytes;
            let ghost before = keep@;
            keep.set(at, false);
            proof {
                let now_gone = goers.take(k + 1);
                let then_gone = goers.take(k as int);
                assert(now_gone =~= then_gone.push(at as int));
                assert forall|j: int| 0 <= j < rows.len() implies #[trigger] keep@[j] == (fresh(j)
                    && !now_gone.contains(j)) by {
                    if j == at {
                        assert(now_gone[k as int] == j);
                    } else {
                        assert(keep@[j] == before[j]);
                        if then_gone.contains(j) {
                            let m = choose|m: int| 0 <= m < then_gone.len() && then_gone[m] == j;
                            assert(now_gone[m] == j);
                        }
                        if now_gone.contains(j) {
                            let m = choose|m: int| 0 <= m < now_gone.len() && now_gone[m] == j;
                            assert(m < k);
                            assert(then_gone[m] == j);
                        }
                    }
                }
            }
            let ghost then_missing = missing as int;
            if missing > size {
                missing -= size;
            } else {
                missing = 0;
            }
            proof {
                assert(taken(sizes.skip(k as int), then_missing) == 1 + taken(
                    sizes.skip(k + 1),
                    then_missing - size,
                ));
                assert(taken(sizes.skip(k + 1), then_missing - size) == taken(
                    sizes.skip(k + 1),
                    missing as int,
                ));
            }
            k += 1;
        }
        proof {
            assert(taken(sizes, excess) == k);
            assert(goers.take(k as int) == crowded_out(rows, cutoff as int, retention_bytes));
        }
        Some(keep)
    }

    fn keep_executions(&mut self, keep: &Vec<bool>)
        requires
            keep.len() == old(self).executions.len(),
        ensures
            final(self)@ == (DatabaseView {
                executions: order::retained(old(self)@.executions, |i: int| keep@[i], 0),
                ..old(self)@
            }),
    {
        proof {
            crate::order::retained_views(
                self.executions@,
                |item: ExecutionRow| item@,
                |i: int| keep@[i],
                0,
            );
        }
        keep_only(&mut self.executions, keep);
    }

    fn unlink_actions(&mut self)
        ensures
            final(self)@ == (DatabaseView {
                actions: unlinked(old(self)@.actions, old(self)@.executions),
                ..old(self)@
            }),
    {
        let ghost start = self@;
        let ghost goal = unlinked(start.actions, start.executions);
        let mut i: usize = 0;
        while i < self.actions.len()
            invariant
                i <= self.actions.len(),
                self.actions.len() == start.actions.len(),
                goal == unlinked(start.actions, start.executions),
                self@.workspaces == start.workspaces,
                self@.sessions == start.sessions,
                self@.turns == start.turns,
                self@.executions == start.executions,
                forall|k: int| 0 <= k < i ==> #[trigger] self@.actions[k] == goal[k],
                forall|k: int|
                    i <= k < start.actions.len() ==> #[trigger] self@.actions[k]
                        == start.actions[k],
            decreases self.actions.len() - i,
        {
            assert(self@.actions[i as int] == self.actions@[i as int]@);
            let ghost held = self.actions@;
            let ghost shown = self@.actions;
            let mut gone = false;
            match &self.actions[i].execution_id {
                Some(id) => {
                    gone = self.find_execution(id.as_str()).is_none();
                },
                None => {},
            }
            if gone {
                let action = &mut self.actions[i];
                action.execution_id = None;
            }
            assert(self.actions@[i as int]@ == goal[i as int]);
            assert forall|k: int| 0 <= k < start.actions.len() && k != i implies
                #[trigger] self@.actions[k] == (if k < i { goal[k] } else { start.actions[k] }) by {
                assert(self.actions@[k] == held[k]);
                assert(shown[k] == held[k]@);
            }
            i += 1;
        }
        assert(self@.actions =~= goal);
    }

    /// Forgets history that is too old or too large; returns how many
    /// executions left.
    pub fn prune_at(&mut self, retention_days: u64, retention_bytes: u64, now: i64) -> (removed: Result<
        usize,
        Error,
    >)
        ensures
            (final(self)@, error::outcome_view(removed, |count: usize| count as int)) == prune_step(
                old(self)@,
                retention_days,
                retention_bytes,
                now,
            ),
    {
        let cutoff: i128 = now as i128 - retention_days as i128 * DAY_MS;
        let before: usize = self.executions.len();
        let ghost rows = self@.executions;
        match self.staying(cutoff, retention_bytes) {
            None => Err(Error::Database("integer overflow".to_owned())),
            Some(keep) => {
                self.keep_executions(&keep);
                let ghost exact = |i: int| stays(rows, cutoff as int, retention_bytes, i);
                proof {
                    crate::order::same_retained(rows, |i: int| keep@[i], exact, 0);
                    crate::order::retained_is_exact(rows, exact, 0);
                }
                self.unlink_actions();
                Ok(before - self.executions.len())
            },
        }
    }
}

} // verus!
