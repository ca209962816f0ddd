//! That forgetting history makes the room that it is meant to make.

use vstd::prelude::*;

use crate::model;
use crate::model::ExecutionState;
use crate::order;
use crate::store::retention;
use crate::store::rows::{DatabaseView, ExecutionRowView};
use crate::store::stats;

verus! {

/// The sum of some sizes.
pub open spec fn sum_of(sizes: Seq<int>) -> int
    decreases sizes.len(),
{
    if sizes.len() == 0 {
        0
    } else {
        sizes[0] + sum_of(sizes.drop_first())
    }
}

/// Either all is taken, or what is taken makes up the excess.
proof fn taking_is_enough(sizes: Seq<int>, excess: int)
    ensures
        retention::taken(sizes, excess) == sizes.len() || sum_of(
            sizes.take(retention::taken(sizes, excess)),
        ) >= excess,
    decreases sizes.len(),
{
    let count = retention::taken(sizes, excess);
    if sizes.len() > 0 && excess > 0 {
        let rest = sizes.drop_first();
        taking_is_enough(rest, excess - sizes[0]);
        retention::taken_bounds(rest, excess - sizes[0]);
        assert(sizes.take(count).drop_first() =~= rest.take(count - 1));
    } else if sizes.len() > 0 {
        assert(sizes.take(0).len() == 0);
    }
}

/// Leaving out one entry takes its size off the sum.
proof fn leaving_one_out(
    rows: Seq<ExecutionRowView>,
    keep: spec_fn(int) -> bool,
    less: spec_fn(int) -> bool,
    gone: int,
    count: nat,
)
    requires
        0 <= gone < rows.len(),
        keep(gone),
        forall|i: int| #[trigger] less(i) == (keep(i) && i != gone),
        count <= rows.len(),
    ensures
        retention::bytes_held(rows, less, count) == retention::bytes_held(rows, keep, count)
            - if gone < count {
            rows[gone].captured_bytes as int
        } else {
            0
        },
    decreases count,
{
    if count > 0 {
        leaving_one_out(rows, keep, less, gone, (count - 1) as nat);
        assert(less(count - 1) == (keep(count - 1) && count - 1 != gone));
    }
}

/// Leaving out some entries takes their sizes off the sum.
proof fn leaving_out(
    rows: Seq<ExecutionRowView>,
    keep: spec_fn(int) -> bool,
    gone: Seq<int>,
)
    requires
        forall|k: int|
            0 <= k < gone.len() ==> 0 <= #[trigger] gone[k] < rows.len() && keep(gone[k]),
        forall|i: int, j: int| 0 <= i < j < gone.len() ==> #[trigger] gone[i] != #[trigger] gone[j],
    ensures
        retention::bytes_held(rows, |i: int| keep(i) && !gone.contains(i), rows.len())
            == retention::bytes_held(rows, keep, rows.len()) - sum_of(
            gone.map_values(|i: int| rows[i].captured_bytes as int),
        ),
    decreases gone.len(),
{
    let sizes = gone.map_values(|i: int| rows[i].captured_bytes as int);
    let less = |i: int| keep(i) && !gone.contains(i);
    if gone.len() == 0 {
        same_held(rows, keep, less, rows.len());
    } else {
        let first = gone[0];
        let rest = gone.drop_first();
        let without = |i: int| keep(i) && i != first;
        leaving_one_out(rows, keep, without, first, rows.len());
        assert forall|k: int| 0 <= k < rest.len() implies 0 <= #[trigger] rest[k] < rows.len()
            && without(rest[k]) by {
            assert(rest[k] == gone[k + 1]);
        }
        assert forall|i: int, j: int| 0 <= i < j < rest.len() implies #[trigger] rest[i]
            != #[trigger] rest[j] by {
            assert(rest[i] == gone[i + 1] && rest[j] == gone[j + 1]);
        }
        leaving_out(rows, without, rest);
        assert(sizes.drop_first() =~= rest.map_values(|i: int| rows[i].captured_bytes as int));
        let then = |i: int| without(i) && !rest.contains(i);
        assert forall|i: int| #[trigger] less(i) == then(i) by {
            if gone.contains(i) {
                let k = choose|k: int| 0 <= k < gone.len() && gone[k] == i;
                if k > 0 {
                    assert(rest[k - 1] == i);
                }
            }
            if rest.contains(i) {
                let k = choose|k: int| 0 <= k < rest.len() && rest[k] == i;
                assert(gone[k + 1] == i);
            }
            assert(gone[0] == first);
        }
        same_held(rows, then, less, rows.len());
    }
}

proof fn same_held(
    rows: Seq<ExecutionRowView>,
    p: spec_fn(int) -> bool,
    q: spec_fn(int) -> bool,
    count: nat,
)
    requires
        forall|i: int| #[trigger] q(i) == p(i),
    ensures
        retention::bytes_held(rows, p, count) == retention::bytes_held(rows, q, count),
    decreases count,
{
    if count > 0 {
        same_held(rows, p, q, (count - 1) as nat);
        assert(q(count - 1) == p(count - 1));
    }
}

/// What is retained holds the bytes of the places that are kept.
proof fn retained_bytes(rows: Seq<ExecutionRowView>, keep: spec_fn(int) -> bool, count: nat)
    requires
        count <= rows.len(),
    ensures
        stats::bytes_of(order::retained(rows.take(count as int), keep, 0))
            == retention::bytes_held(rows, keep, count),
    decreases count,
{
    let all = rows.take(count as int);
    if count == 0 {
        assert(order::retained(all, keep, 0).len() == 0);
    } else {
        let before = rows.take(count - 1);
        retained_bytes(rows, keep, (count - 1) as nat);
        retained_grows(before, rows[count - 1], keep, 0);
        assert(before.push(rows[count - 1]) =~= all);
        let list = order::retained(all, keep, 0);
        if keep(count - 1) {
            assert(list.drop_last() =~= order::retained(before, keep, 0));
        }
    }
}

proof fn retained_grows(
    rows: Seq<ExecutionRowView>,
    more: ExecutionRowView,
    keep: spec_fn(int) -> bool,
    from: int,
)
    requires
        0 <= from <= rows.len(),
    ensures
        order::retained(rows.push(more), keep, from) == if keep(rows.len() as int) {
            order::retained(rows, keep, from).push(more)
        } else {
            order::retained(rows, keep, from)
        },
    decreases rows.len() - from,
{
    let all = rows.push(more);
    if from < rows.len() {
        retained_grows(rows, more, keep, from + 1);
        assert(all[from] == rows[from]);
    } else {
        reveal_with_fuel(order::retained, 2);
    }
    assert(order::retained(all, keep, from) =~= if keep(rows.len() as int) {
        order::retained(rows, keep, from).push(more)
    } else {
        order::retained(rows, keep, from)
    });
}

/// Whether nothing is left that has ended.
pub open spec fn nothing_ended(rows: Seq<ExecutionRowView>) -> bool {
    forall|k: int| 0 <= k < rows.len() ==> !model::terminal((#[trigger] rows[k]).state)
}

/// The executions that may go stand in the list once each, and they are the
/// ended ones that are not expired.
proof fn goers_are_exact(rows: Seq<ExecutionRowView>, cutoff: int)
    ensures
        ({
            let goers = retention::may_go(rows, cutoff);
            &&& forall|k: int|
                0 <= k < goers.len() ==> 0 <= #[trigger] goers[k] < rows.len()
                    && !retention::expired(rows[goers[k]], cutoff) && model::terminal(
                    rows[goers[k]].state,
                )
            &&& forall|i: int, j: int|
                0 <= i < j < goers.len() ==> #[trigger] goers[i] != #[trigger] goers[j]
                    && retention::end_key(rows[goers[i]]) <= retention::end_key(rows[goers[j]])
            &&& forall|i: int|
                0 <= i < rows.len() && !retention::expired(#[trigger] rows[i], cutoff)
                    && model::terminal(rows[i].state) ==> goers.contains(i)
        }),
{
    let test = |i: int| !retention::expired(rows[i], cutoff) && model::terminal(rows[i].state);
    let ended = order::matching(rows.len(), test);
    order::matching_is_exact(rows.len(), test);
    let keys = ended.map_values(|i: int| retention::end_key(rows[i]));
    let above = order::key_above(keys);
    order::order_is_complete(keys.len(), above);
    order::order_is_sorted(keys.len(), above);
    let ordered = order::stable_order(keys.len(), above);
    let goers = retention::may_go(rows, cutoff);
    assert forall|k: int| 0 <= k < goers.len() implies 0 <= #[trigger] goers[k] < rows.len()
        && !retention::expired(rows[goers[k]], cutoff) && model::terminal(
        rows[goers[k]].state,
    ) by {
        assert(goers[k] == ended[ordered[k]]);
        assert(test(ended[ordered[k]]));
    }
    assert forall|i: int, j: int| 0 <= i < j < goers.len() implies #[trigger] goers[i]
        != #[trigger] goers[j] && retention::end_key(rows[goers[i]]) <= retention::end_key(
        rows[goers[j]],
    ) by {
        let a = ordered[i];
        let b = ordered[j];
        assert(a != b);
        assert(goers[i] == ended[a] && goers[j] == ended[b]);
        if a < b {
            assert(ended[a] < ended[b]);
        } else {
            assert(ended[b] < ended[a]);
        }
        assert(!above(a, b));
        assert(keys[a] == retention::end_key(rows[ended[a]]));
        assert(keys[b] == retention::end_key(rows[ended[b]]));
    }
    assert forall|i: int|
        0 <= i < rows.len() && !retention::expired(#[trigger] rows[i], cutoff) && model::terminal(
            rows[i].state,
        ) implies goers.contains(i) by {
        assert(test(i));
        assert(ended.contains(i));
        let e = choose|e: int| 0 <= e < ended.len() && ended[e] == i;
        assert(ordered.contains(e));
        let k = choose|k: int| 0 <= k < ordered.len() && ordered[k] == e;
        assert(goers[k] == i);
    }
}

/// After history was forgotten, no more than `retention_bytes` of output is
/// held, unless all that has ended is gone.
pub proof fn pruning_makes_room(
    db: DatabaseView,
    retention_days: u64,
    retention_bytes: u64,
    now: i64,
)
    requires
        retention::prune_step(db, retention_days, retention_bytes, now).1 is Ok,
    ensures
        ({
            let after = retention::prune_step(db, retention_days, retention_bytes, now).0;
            stats::bytes_of(after.executions) <= retention_bytes || nothing_ended(
                after.executions,
            )
        }),
{
    let rows = db.executions;
    let cutoff = now - retention_days * retention::DAY_MS;
    let fresh = |i: int| !retention::expired(rows[i], cutoff);
    let remains = |i: int| retention::stays(rows, cutoff, retention_bytes, i);
    let after = retention::prune_step(db, retention_days, retention_bytes, now).0;
    let total = retention::bytes_held(rows, fresh, rows.len());
    let goers = retention::may_go(rows, cutoff);
    let sizes = goers.map_values(|i: int| rows[i].captured_bytes as int);
    let count = retention::taken(sizes, total - retention_bytes);
    let gone = retention::crowded_out(rows, cutoff, retention_bytes);
    goers_are_exact(rows, cutoff);
    retention::taken_bounds(sizes, total - retention_bytes);
    taking_is_enough(sizes, total - retention_bytes);
    assert(gone == goers.take(count));
    if count == sizes.len() {
        assert(gone =~= goers);
        order::retained_is_exact(rows, remains, 0);
        assert forall|k: int| 0 <= k < after.executions.len() implies !model::terminal(
            (#[trigger] after.executions[k]).state,
        ) by {
            let entry = order::retained(rows, remains, 0)[k];
            assert(order::kept_entry(rows, remains, 0, entry));
            let i = choose|i: int| 0 <= i < rows.len() && remains(i) && #[trigger] rows[i] == entry;
            if model::terminal(rows[i].state) {
                assert(goers.contains(i));
            }
        }
    } else {
        assert forall|k: int| 0 <= k < gone.len() implies 0 <= #[trigger] gone[k] < rows.len()
            && fresh(gone[k]) by {
            assert(gone[k] == goers[k]);
        }
        assert forall|i: int, j: int| 0 <= i < j < gone.len() implies #[trigger] gone[i]
            != #[trigger] gone[j] by {
            assert(gone[i] == goers[i] && gone[j] == goers[j]);
        }
        leaving_out(rows, fresh, gone);
        assert(gone.map_values(|i: int| rows[i].captured_bytes as int) =~= sizes.take(count));
        let left = |i: int| fresh(i) && !gone.contains(i);
        assert forall|i: int| #[trigger] remains(i) == left(i) by {}
        same_held(rows, left, remains, rows.len());
        assert(rows.take(rows.len() as int) =~= rows);
        retained_bytes(rows, remains, rows.len());
    }
}

/// What leaves for want of room ended no later than any ended execution that
/// stays.
pub proof fn the_first_to_end_leave_first(
    rows: Seq<ExecutionRowView>,
    cutoff: int,
    retention_bytes: u64,
    gone: int,
    kept: int,
)
    requires
        0 <= kept < rows.len(),
        retention::crowded_out(rows, cutoff, retention_bytes).contains(gone),
        retention::stays(rows, cutoff, retention_bytes, kept),
        model::terminal(rows[kept].state),
    ensures
        0 <= gone < rows.len(),
        model::terminal(rows[gone].state),
        retention::end_key(rows[gone]) <= retention::end_key(rows[kept]),
{
    let goers = retention::may_go(rows, cutoff);
    let sizes = goers.map_values(|i: int| rows[i].captured_bytes as int);
    let total = retention::bytes_held(
        rows,
        |i: int| !retention::expired(rows[i], cutoff),
        rows.len(),
    );
    let out = retention::crowded_out(rows, cutoff, retention_bytes);
    goers_are_exact(rows, cutoff);
    retention::taken_bounds(sizes, total - retention_bytes);
    let a = choose|a: int| 0 <= a < out.len() && out[a] == gone;
    assert(goers[a] == gone);
    assert(!retention::expired(rows[kept], cutoff));
    assert(goers.contains(kept));
    let b = choose|b: int| 0 <= b < goers.len() && goers[b] == kept;
    if b < out.len() {
        assert(out[b] == kept);
    }
    assert(a < b);
}

/// Whether an execution has ended, and longer than so many days ago.
pub open spec fn too_old(row: ExecutionRowView, days: u64, now: i64) -> bool {
    row.state != ExecutionState::Queued && row.state != ExecutionState::Running && (
    row.ended_at_ms matches Some(ended) && now - ended > days * 86_400_000)
}

/// How many bytes the rows hold that are not too old.
pub open spec fn bytes_not_too_old(rows: Seq<ExecutionRowView>, days: u64, now: i64) -> int
    decreases rows.len(),
{
    if rows.len() == 0 {
        0
    } else {
        bytes_not_too_old(rows.drop_last(), days, now) + if too_old(rows.last(), days, now) {
            0
        } else {
            rows.last().captured_bytes as int
        }
    }
}

proof fn held_is_not_too_old(rows: Seq<ExecutionRowView>, days: u64, now: i64, count: nat)
    requires
        count <= rows.len(),
    ensures
        retention::bytes_held(
            rows,
            |i: int| !retention::expired(rows[i], now - days * retention::DAY_MS),
            count,
        ) == bytes_not_too_old(rows.take(count as int), days, now),
    decreases count,
{
    if count > 0 {
        held_is_not_too_old(rows, days, now, (count - 1) as nat);
        assert(rows.take(count as int).drop_last() =~= rows.take(count - 1));
        assert(rows.take(count as int).last() == rows[count - 1]);
    }
}

/// As long as what is not too old fits, exactly what ended more than
/// `retention_days` days of 86,400,000 milliseconds ago is forgotten: an
/// execution that ended within that time stays, and so does one that has not
/// ended.
pub proof fn what_is_young_and_fits_stays(
    db: DatabaseView,
    retention_days: u64,
    retention_bytes: u64,
    now: i64,
)
    requires
        bytes_not_too_old(db.executions, retention_days, now) <= retention_bytes,
        bytes_not_too_old(db.executions, retention_days, now) <= i64::MAX,
    ensures
        ({
            let (after, answer) = retention::prune_step(db, retention_days, retention_bytes, now);
            &&& after.executions == order::retained(
                db.executions,
                |i: int| !too_old(db.executions[i], retention_days, now),
                0,
            )
            &&& answer matches Ok(gone) && gone == db.executions.len() - after.executions.len()
        }),
{
    let rows = db.executions;
    let cutoff = now - retention_days * retention::DAY_MS;
    held_is_not_too_old(rows, retention_days, now, rows.len());
    assert(rows.take(rows.len() as int) =~= rows);
    let goers = retention::may_go(rows, cutoff);
    let sizes = goers.map_values(|i: int| rows[i].captured_bytes as int);
    assert(goers.take(0).len() == 0);
    let p = |i: int| retention::stays(rows, cutoff, retention_bytes, i);
    let q = |i: int| !too_old(rows[i], retention_days, now);
    order::same_retained(rows, p, q, 0);
}

/// Whatever the room, nothing stays that ended more than `retention_days` days
/// of 86,400,000 milliseconds ago.
pub proof fn what_is_too_old_leaves(
    db: DatabaseView,
    retention_days: u64,
    retention_bytes: u64,
    now: i64,
    k: int,
)
    requires
        retention::prune_step(db, retention_days, retention_bytes, now).1 is Ok,
        0 <= k < retention::prune_step(
            db,
            retention_days,
            retention_bytes,
            now,
        ).0.executions.len(),
    ensures
        !too_old(
            retention::prune_step(db, retention_days, retention_bytes, now).0.executions[k],
            retention_days,
            now,
        ),
{
    let rows = db.executions;
    let cutoff = now - retention_days * retention::DAY_MS;
    let remains = |i: int| retention::stays(rows, cutoff, retention_bytes, i);
    order::retained_is_exact(rows, remains, 0);
    assert(order::kept_entry(rows, remains, 0, order::retained(rows, remains, 0)[k]));
}

/// No more is taken than it needs: without the last of what is taken the excess
/// is not made up.
proof fn taking_is_needed(sizes: Seq<int>, excess: int)
    ensures
        retention::taken(sizes, excess) > 0 ==> sum_of(
            sizes.take(retention::taken(sizes, excess) - 1),
        ) < excess,
    decreases sizes.len(),
{
    let count = retention::taken(sizes, excess);
    if sizes.len() > 0 && excess > 0 {
        let rest = sizes.drop_first();
        taking_is_needed(rest, excess - sizes[0]);
        retention::taken_bounds(rest, excess - sizes[0]);
        if count > 1 {
            assert(sizes.take(count - 1).drop_first() =~= rest.take(count - 2));
        } else {
            assert(sizes.take(0).len() == 0);
        }
    }
}

proof fn sum_of_one_more(sizes: Seq<int>, count: int)
    requires
        0 <= count < sizes.len(),
    ensures
        sum_of(sizes.take(count + 1)) == sum_of(sizes.take(count)) + sizes[count],
    decreases count,
{
    if count == 0 {
        reveal_with_fuel(sum_of, 2);
        assert(sizes.take(1).drop_first().len() == 0);
        assert(sizes.take(0).len() == 0);
    } else {
        let rest = sizes.drop_first();
        sum_of_one_more(rest, count - 1);
        assert(rest[count - 1] == sizes[count]);
        assert(sizes.take(count + 1).drop_first() =~= rest.take(count));
        assert(sizes.take(count).drop_first() =~= rest.take(count - 1));
    }
}

proof fn bytes_left(rows: Seq<ExecutionRowView>, cutoff: int, retention_bytes: u64)
    ensures
        ({
            let fresh = |i: int| !retention::expired(rows[i], cutoff);
            let remains = |i: int| retention::stays(rows, cutoff, retention_bytes, i);
            let total = retention::bytes_held(rows, fresh, rows.len());
            let sizes = retention::may_go(rows, cutoff).map_values(
                |i: int| rows[i].captured_bytes as int,
            );
            stats::bytes_of(order::retained(rows, remains, 0)) == total - sum_of(
                sizes.take(retention::taken(sizes, total - retention_bytes)),
            )
        }),
{
    let fresh = |i: int| !retention::expired(rows[i], cutoff);
    let remains = |i: int| retention::stays(rows, cutoff, retention_bytes, i);
    let total = retention::bytes_held(rows, fresh, rows.len());
    let goers = retention::may_go(rows, cutoff);
    let sizes = goers.map_values(|i: int| rows[i].captured_bytes as int);
    let count = retention::taken(sizes, total - retention_bytes);
    let gone = retention::crowded_out(rows, cutoff, retention_bytes);
    goers_are_exact(rows, cutoff);
    retention::taken_bounds(sizes, total - retention_bytes);
    assert(gone == goers.take(count));
    assert forall|k: int| 0 <= k < gone.len() implies 0 <= #[trigger] gone[k] < rows.len()
        && fresh(gone[k]) by {
        assert(gone[k] == goers[k]);
    }
    assert forall|i: int, j: int| 0 <= i < j < gone.len() implies #[trigger] gone[i]
        != #[trigger] gone[j] by {
        assert(gone[i] == goers[i] && gone[j] == goers[j]);
    }
    leaving_out(rows, fresh, gone);
    assert(gone.map_values(|i: int| rows[i].captured_bytes as int) =~= sizes.take(count));
    let left = |i: int| fresh(i) && !gone.contains(i);
    assert forall|i: int| #[trigger] remains(i) == left(i) by {}
    same_held(rows, left, remains, rows.len());
    assert(rows.take(rows.len() as int) =~= rows);
    retained_bytes(rows, remains, rows.len());
}

/// Of what is not too old, an execution leaves only for want of room: it has
/// ended, no later than any ended execution that stays; and no more leave than
/// must, since one of those that left would not have fitted.
pub proof fn what_leaves_for_room_must(
    db: DatabaseView,
    retention_days: u64,
    retention_bytes: u64,
    now: i64,
    gone: int,
)
    requires
        retention::prune_step(db, retention_days, retention_bytes, now).1 is Ok,
        0 <= gone < db.executions.len(),
        !too_old(db.executions[gone], retention_days, now),
        !retention::prune_step(
            db,
            retention_days,
            retention_bytes,
            now,
        ).0.executions.contains(db.executions[gone]),
    ensures
        ({
            let after = retention::prune_step(
                db,
                retention_days,
                retention_bytes,
                now,
            ).0.executions;
            let row = db.executions[gone];
            &&& row.state != ExecutionState::Queued && row.state != ExecutionState::Running
            &&& forall|k: int|
                0 <= k < after.len() && (#[trigger] after[k]).state != ExecutionState::Queued
                    && after[k].state != ExecutionState::Running ==> match (
                    row.ended_at_ms,
                    after[k].ended_at_ms,
                ) {
                    (Some(first), Some(second)) => first <= second,
                    (Some(first), None) => false,
                    (None, _) => true,
                }
            &&& exists|g: int|
                0 <= g < db.executions.len() && !too_old(
                    #[trigger] db.executions[g],
                    retention_days,
                    now,
                ) && stats::bytes_of(after) + db.executions[g].captured_bytes > retention_bytes
        }),
{
    let rows = db.executions;
    let cutoff = now - retention_days * retention::DAY_MS;
    let fresh = |i: int| !retention::expired(rows[i], cutoff);
    let remains = |i: int| retention::stays(rows, cutoff, retention_bytes, i);
    let after = order::retained(rows, remains, 0);
    let total = retention::bytes_held(rows, fresh, rows.len());
    let goers = retention::may_go(rows, cutoff);
    let sizes = goers.map_values(|i: int| rows[i].captured_bytes as int);
    let count = retention::taken(sizes, total - retention_bytes);
    let out = retention::crowded_out(rows, cutoff, retention_bytes);
    order::retained_is_exact(rows, remains, 0);
    goers_are_exact(rows, cutoff);
    retention::taken_bounds(sizes, total - retention_bytes);
    assert(!remains(gone));
    assert(out.contains(gone));
    let a = choose|a: int| 0 <= a < out.len() && out[a] == gone;
    assert(goers[a] == gone);
    assert forall|k: int|
        0 <= k < after.len() && (#[trigger] after[k]).state != ExecutionState::Queued
            && after[k].state != ExecutionState::Running implies match (
        rows[gone].ended_at_ms,
        after[k].ended_at_ms,
    ) {
        (Some(first), Some(second)) => first <= second,
        (Some(first), None) => false,
        (None, _) => true,
    } by {
        assert(order::kept_entry(rows, remains, 0, after[k]));
        let i = choose|i: int|
            0 <= i < rows.len() && remains(i) && #[trigger] rows[i] == after[k];
        the_first_to_end_leave_first(rows, cutoff, retention_bytes, gone, i);
    }
    let g = goers[count - 1];
    bytes_left(rows, cutoff, retention_bytes);
    taking_is_needed(sizes, total - retention_bytes);
    sum_of_one_more(sizes, count - 1);
    assert(sizes[count - 1] == rows[g].captured_bytes);
    assert(!too_old(rows[g], retention_days, now));
}

} // verus!
