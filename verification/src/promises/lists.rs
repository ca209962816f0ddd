//! What lists hold: all that was asked for and nothing else, in order.

use vstd::prelude::*;

use crate::model::{AgentActionView, AgentSessionState, AgentTurnView};
use crate::order;
use crate::store::executions;
use crate::store::reading;
use crate::store::rows::{DatabaseView, ExecutionRowView, SessionRowView, WorkspaceRowView};
use crate::store::session_reading;

verus! {

/// Whether a list holds exactly the entries of `all` whose places meet `test`,
/// each as often as it stands there.
pub open spec fn holds_exactly<A>(list: Seq<A>, all: Seq<A>, test: spec_fn(int) -> bool) -> bool {
    exists|places: Seq<int>| #[trigger] drawn_from(list, all, test, places)
}

/// Whether the entries of a list stand at the given places of `all`, which are
/// all different and are exactly those that meet `test`.
pub open spec fn drawn_from<A>(
    list: Seq<A>,
    all: Seq<A>,
    test: spec_fn(int) -> bool,
    places: Seq<int>,
) -> bool {
    &&& places.len() == list.len()
    &&& places.no_duplicates()
    &&& forall|k: int|
        0 <= k < list.len() ==> 0 <= #[trigger] places[k] < all.len() && test(places[k]) && list[k]
            == all[places[k]]
    &&& forall|i: int| 0 <= i < all.len() && #[trigger] test(i) ==> places.contains(i)
}

proof fn drawing_is_exact<A>(
    all: Seq<A>,
    test: spec_fn(int) -> bool,
    at: Seq<int>,
    sorted: Seq<int>,
)
    requires
        at == order::matching(all.len(), test),
        sorted.len() == at.len(),
        forall|k: int| 0 <= k < sorted.len() ==> 0 <= #[trigger] sorted[k] < at.len(),
        forall|i: int, j: int|
            0 <= i < j < sorted.len() ==> #[trigger] sorted[i] != #[trigger] sorted[j],
        forall|e: int| 0 <= e < at.len() ==> #[trigger] sorted.contains(e),
    ensures
        holds_exactly(order::picked(order::picked(all, at), sorted), all, test),
{
    order::matching_is_exact(all.len(), test);
    let list = order::picked(order::picked(all, at), sorted);
    let places = order::picked(at, sorted);
    assert forall|i: int, j: int| 0 <= i < places.len() && 0 <= j < places.len() && i
        != j implies places[i] != places[j] by {
        let a = sorted[i];
        let b = sorted[j];
        if i < j {
            assert(sorted[i] != sorted[j]);
        } else {
            assert(sorted[j] != sorted[i]);
        }
        if a < b {
            assert(at[a] < at[b]);
        } else {
            assert(at[b] < at[a]);
        }
    }
    assert forall|k: int| 0 <= k < list.len() implies 0 <= #[trigger] places[k] < all.len()
        && test(places[k]) && list[k] == all[places[k]] by {
        let m = sorted[k];
        assert(places[k] == at[m]);
        assert(order::picked(all, at)[m] == all[at[m]]);
    }
    assert forall|i: int| 0 <= i < all.len() && #[trigger] test(i) implies places.contains(i) by {
        assert(at.contains(i));
        let m = choose|m: int| 0 <= m < at.len() && at[m] == i;
        assert(sorted.contains(m));
        let k = choose|k: int| 0 <= k < sorted.len() && sorted[k] == m;
        assert(places[k] == i);
    }
    assert(drawn_from(list, all, test, places));
}

proof fn newest_is_exact<A>(all: Seq<A>, test: spec_fn(int) -> bool, time: spec_fn(A) -> i64)
    ensures
        ({
            let rows = order::picked(all, order::matching(all.len(), test));
            let list = order::picked(rows, order::newest_first(rows.map_values(time)));
            &&& holds_exactly(list, all, test)
            &&& forall|i: int, j: int|
                0 <= i < j < list.len() ==> time(#[trigger] list[i]) >= time(#[trigger] list[j])
        }),
{
    let at = order::matching(all.len(), test);
    let rows = order::picked(all, at);
    let times = rows.map_values(time);
    let sorted = order::newest_first(times);
    let list = order::picked(rows, sorted);
    order::order_is_complete(times.len(), order::key_above(order::newest_keys(times)));
    order::newest_first_is_sorted(times);
    drawing_is_exact(all, test, at, sorted);
    assert forall|i: int, j: int| 0 <= i < j < list.len() implies time(#[trigger] list[i])
        >= time(#[trigger] list[j]) by {
        assert(times[sorted[i]] >= times[sorted[j]]);
    }
}

proof fn oldest_is_exact<A>(all: Seq<A>, test: spec_fn(int) -> bool, time: spec_fn(A) -> i64)
    ensures
        ({
            let rows = order::picked(all, order::matching(all.len(), test));
            let list = order::picked(rows, order::oldest_first(rows.map_values(time)));
            &&& holds_exactly(list, all, test)
            &&& forall|i: int, j: int|
                0 <= i < j < list.len() ==> time(#[trigger] list[i]) <= time(#[trigger] list[j])
        }),
{
    let at = order::matching(all.len(), test);
    let rows = order::picked(all, at);
    let times = rows.map_values(time);
    let keys = order::oldest_keys(times);
    let sorted = order::oldest_first(times);
    let list = order::picked(rows, sorted);
    order::order_is_complete(times.len(), order::key_above(keys));
    order::order_is_sorted(times.len(), order::key_above(keys));
    drawing_is_exact(all, test, at, sorted);
    assert forall|i: int, j: int| 0 <= i < j < list.len() implies time(#[trigger] list[i])
        <= time(#[trigger] list[j]) by {
        let a = sorted[i];
        let b = sorted[j];
        assert(!order::key_above(keys)(a, b));
        assert(keys[a] == times[a] && keys[b] == times[b]);
    }
}

/// Whether the workspace with this identifier, which has to be known, goes by
/// the given name.
pub open spec fn belongs(db: DatabaseView, workspace_id: Seq<char>, named: Seq<char>) -> bool {
    exists|w: int|
        order::first_at(
            db.workspaces,
            |row: WorkspaceRowView| row.workspace.id == workspace_id,
            w,
        ) && (workspace_id == named || (#[trigger] db.workspaces[w]).workspace.name == named)
}

proof fn asked_for_means_belongs(db: DatabaseView, workspace_id: Seq<char>, named: Seq<char>)
    ensures
        reading::asked_for(db, workspace_id, Some(named)) == belongs(db, workspace_id, named),
{
    let test = |row: WorkspaceRowView| row.workspace.id == workspace_id;
    order::position_is_first(db.workspaces, test);
    if belongs(db, workspace_id, named) {
        let w = choose|w: int|
            order::first_at(db.workspaces, test, w) && (workspace_id == named || (
            #[trigger] db.workspaces[w]).workspace.name == named);
        order::position_found(db.workspaces, test, w);
    }
    if reading::asked_for(db, workspace_id, Some(named)) {
        let w = order::position(db.workspaces, test)->0;
        assert(workspace_id == named || db.workspaces[w].workspace.name == named);
    }
}

/// Executions are listed from the newest to the oldest: all of them, or all of
/// the workspace that was named; and of those the first `limit`.
pub proof fn executions_are_listed(db: DatabaseView, filter: Option<Seq<char>>, limit: int)
    requires
        limit >= 0,
    ensures
        ({
            let all = reading::executions_asked(db, filter);
            let list = reading::at_most(all, limit);
            &&& holds_exactly(
                all,
                db.executions,
                |i: int|
                    match filter {
                        None => true,
                        Some(named) => belongs(db, db.executions[i].workspace_id, named),
                    },
            )
            &&& forall|i: int, j: int|
                0 <= i < j < all.len() ==> (#[trigger] all[i]).created_at_ms >= (
                #[trigger] all[j]).created_at_ms
            &&& list.len() <= limit
            &&& list.len() == limit || list == all
            &&& list == all.take(list.len() as int)
        }),
{
    let time = |row: ExecutionRowView| row.created_at_ms;
    let test = |i: int| reading::asked_for(db, db.executions[i].workspace_id, filter);
    let goal = |i: int|
        match filter {
            None => true,
            Some(named) => belongs(db, db.executions[i].workspace_id, named),
        };
    newest_is_exact(db.executions, test, time);
    let all = reading::executions_asked(db, filter);
    assert forall|i: int| test(i) == #[trigger] goal(i) by {
        if let Some(named) = filter {
            asked_for_means_belongs(db, db.executions[i].workspace_id, named);
        }
    }
    same_draw(all, db.executions, test, goal);
    assert forall|i: int, j: int| 0 <= i < j < all.len() implies (#[trigger] all[i]).created_at_ms
        >= (#[trigger] all[j]).created_at_ms by {
        assert(time(all[i]) >= time(all[j]));
    }
    assert(reading::at_most(all, limit) =~= all.take(reading::at_most(all, limit).len() as int));
}

proof fn same_draw<A>(
    list: Seq<A>,
    all: Seq<A>,
    p: spec_fn(int) -> bool,
    q: spec_fn(int) -> bool,
)
    requires
        holds_exactly(list, all, p),
        forall|i: int| p(i) == #[trigger] q(i),
    ensures
        holds_exactly(list, all, q),
{
    let places = choose|places: Seq<int>| #[trigger] drawn_from(list, all, p, places);
    assert forall|k: int| 0 <= k < list.len() implies 0 <= #[trigger] places[k] < all.len() && q(
        places[k],
    ) && list[k] == all[places[k]] by {
        assert(p(places[k]) == q(places[k]));
    }
    assert forall|i: int| 0 <= i < all.len() && #[trigger] q(i) implies places.contains(i) by {
        assert(p(i));
    }
    assert(drawn_from(list, all, q, places));
}

/// Sessions are listed from the newest to the oldest: all of them, or all of
/// the workspace that was named.
pub proof fn sessions_are_listed(db: DatabaseView, filter: Option<Seq<char>>)
    ensures
        ({
            let all = session_reading::sessions_asked(db, filter);
            &&& holds_exactly(
                all,
                db.sessions,
                |i: int|
                    match filter {
                        None => true,
                        Some(named) => belongs(db, db.sessions[i].workspace_id, named),
                    },
            )
            &&& forall|i: int, j: int|
                0 <= i < j < all.len() ==> (#[trigger] all[i]).created_at_ms >= (
                #[trigger] all[j]).created_at_ms
        }),
{
    let time = |row: SessionRowView| row.created_at_ms;
    let test = |i: int| reading::asked_for(db, db.sessions[i].workspace_id, filter);
    let goal = |i: int|
        match filter {
            None => true,
            Some(named) => belongs(db, db.sessions[i].workspace_id, named),
        };
    newest_is_exact(db.sessions, test, time);
    let all = session_reading::sessions_asked(db, filter);
    assert forall|i: int| test(i) == #[trigger] goal(i) by {
        if let Some(named) = filter {
            asked_for_means_belongs(db, db.sessions[i].workspace_id, named);
        }
    }
    same_draw(all, db.sessions, test, goal);
    assert forall|i: int, j: int| 0 <= i < j < all.len() implies (#[trigger] all[i]).created_at_ms
        >= (#[trigger] all[j]).created_at_ms by {
        assert(time(all[i]) >= time(all[j]));
    }
}

/// The sessions that count as active are exactly those that are being recorded.
pub proof fn recorded_sessions_are_active(db: DatabaseView)
    ensures
        holds_exactly(
            session_reading::recording_sessions(db),
            db.sessions,
            |i: int| db.sessions[i].state == AgentSessionState::Recording,
        ),
{
    oldest_is_exact(
        db.sessions,
        |i: int| db.sessions[i].state == AgentSessionState::Recording,
        |row: SessionRowView| row.created_at_ms,
    );
}

/// What is told of a session is all that belongs to it, the oldest first: the
/// executions run under it, the turns of its conversations, and the actions of
/// those turns.
pub proof fn a_session_is_told_whole(db: DatabaseView, id: Seq<char>, now: i64)
    ensures
        match session_reading::session_detail(db, id, now) {
            Ok(detail) => {
                let rows = session_reading::executions_under(db, id);
                &&& detail.session.id == id
                &&& detail.executions == rows.map_values(
                    |row: ExecutionRowView| executions::execution_of(row, now),
                )
                &&& holds_exactly(
                    rows,
                    db.executions,
                    |i: int| db.executions[i].session_id == Some(id),
                )
                &&& holds_exactly(
                    detail.turns,
                    db.turns,
                    |i: int| db.turns[i].session_id == id,
                )
                &&& holds_exactly(
                    detail.actions,
                    db.actions,
                    |i: int|
                        exists|t: int|
                            order::first_at(
                                db.turns,
                                |turn: AgentTurnView| turn.id == db.actions[i].turn_id,
                                t,
                            ) && (#[trigger] db.turns[t]).session_id == id,
                )
                &&& forall|i: int, j: int|
                    0 <= i < j < rows.len() ==> (#[trigger] rows[i]).created_at_ms <= (
                    #[trigger] rows[j]).created_at_ms
                &&& forall|i: int, j: int|
                    0 <= i < j < detail.turns.len() ==> (#[trigger] detail.turns[i]).created_at_ms
                        <= (#[trigger] detail.turns[j]).created_at_ms
                &&& forall|i: int, j: int|
                    0 <= i < j < detail.actions.len() ==> (
                    #[trigger] detail.actions[i]).created_at_ms <= (
                    #[trigger] detail.actions[j]).created_at_ms
            },
            Err(error) => forall|i: int|
                0 <= i < db.sessions.len() ==> (#[trigger] db.sessions[i]).id != id,
        },
{
    order::position_is_first(db.sessions, |row: SessionRowView| row.id == id);
    let run_under = |i: int| db.executions[i].session_id == Some(id);
    let by_run = |row: ExecutionRowView| row.created_at_ms;
    let turn_of = |i: int| db.turns[i].session_id == id;
    let by_turn = |row: AgentTurnView| row.created_at_ms;
    let p = |i: int| session_reading::action_under(db, db.actions[i], id);
    let q = |i: int|
        exists|t: int|
            order::first_at(db.turns, |turn: AgentTurnView| turn.id == db.actions[i].turn_id, t)
                && (#[trigger] db.turns[t]).session_id == id;
    let by_action = |row: AgentActionView| row.created_at_ms;
    oldest_is_exact(db.executions, run_under, by_run);
    oldest_is_exact(db.turns, turn_of, by_turn);
    oldest_is_exact(db.actions, p, by_action);
    let rows = session_reading::executions_under(db, id);
    let turns = session_reading::turns_under(db, id);
    let actions = session_reading::actions_under(db, id);
    assert forall|i: int| p(i) == #[trigger] q(i) by {
        let test = |turn: AgentTurnView| turn.id == db.actions[i].turn_id;
        order::position_is_first(db.turns, test);
        if q(i) {
            let t = choose|t: int|
                order::first_at(db.turns, test, t) && (#[trigger] db.turns[t]).session_id == id;
            order::position_found(db.turns, test, t);
        }
        if p(i) {
            let t = order::position(db.turns, test)->0;
            assert(order::first_at(db.turns, test, t) && db.turns[t].session_id == id);
        }
    }
    same_draw(actions, db.actions, p, q);
    assert forall|i: int, j: int| 0 <= i < j < rows.len() implies (
    #[trigger] rows[i]).created_at_ms <= (#[trigger] rows[j]).created_at_ms by {
        assert(by_run(rows[i]) <= by_run(rows[j]));
    }
    assert forall|i: int, j: int| 0 <= i < j < turns.len() implies (
    #[trigger] turns[i]).created_at_ms <= (#[trigger] turns[j]).created_at_ms by {
        assert(by_turn(turns[i]) <= by_turn(turns[j]));
    }
    assert forall|i: int, j: int| 0 <= i < j < actions.len() implies (
    #[trigger] actions[i]).created_at_ms <= (#[trigger] actions[j]).created_at_ms by {
        assert(by_action(actions[i]) <= by_action(actions[j]));
    }
}

} // verus!
