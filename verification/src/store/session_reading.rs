//! Reading and deleting recorded agent sessions.

use vstd::prelude::*;

use crate::error;
use crate::error::{Error, ErrorView};
use crate::model::{
    AgentAction, AgentActionView, AgentSession, AgentSessionDetail, AgentSessionDetailView,
    AgentSessionState, AgentTurn, AgentTurnView, Execution, InitiatorView,
};
use crate::order;
use crate::order::{keep_only, order_newest, order_oldest};
use crate::store::executions;
use crate::store::executions::execution_from_row;
use crate::store::reading;
use crate::store::rows;
use crate::store::rows::{
    Database, DatabaseView, ExecutionRow, ExecutionRowView, SessionRow, SessionRowView,
};
use crate::store::sessions;
use crate::store::sessions::agent_session_from_row;
use crate::text::{joined3, same_text};

verus! {

/// Whether an action belongs to a turn of the session.
pub open spec fn action_under(db: DatabaseView, action: AgentActionView, id: Seq<char>) -> bool {
    match order::position(db.turns, |turn: AgentTurnView| turn.id == action.turn_id) {
        Some(at) => db.turns[at].session_id == id,
        None => false,
    }
}

/// The executions run under a session, the oldest first.
pub open spec fn executions_under(db: DatabaseView, id: Seq<char>) -> Seq<ExecutionRowView> {
    let rows = order::picked(
        db.executions,
        order::matching(db.executions.len(), |i: int| db.executions[i].session_id == Some(id)),
    );
    order::picked(rows, order::oldest_first(rows.map_values(|row: ExecutionRowView| row.created_at_ms)))
}

/// The turns of a session, the oldest first.
pub open spec fn turns_under(db: DatabaseView, id: Seq<char>) -> Seq<AgentTurnView> {
    let rows = order::picked(
        db.turns,
        order::matching(db.turns.len(), |i: int| db.turns[i].session_id == id),
    );
    order::picked(rows, order::oldest_first(rows.map_values(|row: AgentTurnView| row.created_at_ms)))
}

/// The actions of a session, the oldest first.
pub open spec fn actions_under(db: DatabaseView, id: Seq<char>) -> Seq<AgentActionView> {
    let rows = order::picked(
        db.actions,
        order::matching(db.actions.len(), |i: int| action_under(db, db.actions[i], id)),
    );
    order::picked(rows, order::oldest_first(rows.map_values(|row: AgentActionView| row.created_at_ms)))
}

/// A session with everything recorded under it.
pub open spec fn session_detail(db: DatabaseView, id: Seq<char>, now: i64) -> Result<
    AgentSessionDetailView,
    ErrorView,
> {
    match rows::session_place(db, id) {
        None => Err(ErrorView::AgentSessionNotFound(id)),
        Some(at) => Ok(
            AgentSessionDetailView {
                session: sessions::session_of(db.sessions[at]),
                executions: executions_under(db, id).map_values(
                    |row: ExecutionRowView| executions::execution_of(row, now),
                ),
                turns: turns_under(db, id),
                actions: actions_under(db, id),
            },
        ),
    }
}

/// The sessions asked for, the newest first.
pub open spec fn sessions_asked(db: DatabaseView, filter: Option<Seq<char>>) -> Seq<SessionRowView> {
    let rows = order::picked(
        db.sessions,
        order::matching(
            db.sessions.len(),
            |i: int| reading::asked_for(db, db.sessions[i].workspace_id, filter),
        ),
    );
    order::picked(rows, order::newest_first(rows.map_values(|row: SessionRowView| row.created_at_ms)))
}

/// The sessions that are being recorded, the oldest first.
pub open spec fn recording_sessions(db: DatabaseView) -> Seq<SessionRowView> {
    let rows = order::picked(
        db.sessions,
        order::matching(
            db.sessions.len(),
            |i: int| db.sessions[i].state == AgentSessionState::Recording,
        ),
    );
    order::picked(rows, order::oldest_first(rows.map_values(|row: SessionRowView| row.created_at_ms)))
}

/// An execution without its link to the session.
pub open spec fn released(row: ExecutionRowView, id: Seq<char>) -> ExecutionRowView {
    if row.session_id == Some(id) {
        ExecutionRowView {
            session_id: None,
            initiator: InitiatorView { session_id: None, ..row.initiator },
            ..row
        }
    } else {
        row
    }
}

/// Deleting a session that has ended: it goes with its turns and actions,
/// while the executions run under it stay.
pub open spec fn delete_session_step(db: DatabaseView, id: Seq<char>) -> (
    DatabaseView,
    Result<(), ErrorView>,
) {
    match rows::session_place(db, id) {
        None => (db, Err(ErrorView::AgentSessionNotFound(id))),
        Some(at) => if db.sessions[at].state == AgentSessionState::Recording {
            (db, Err(error::refused("agent session "@ + id + " is still recording"@)))
        } else {
            (
                DatabaseView {
                    executions: db.executions.map_values(
                        |row: ExecutionRowView| released(row, id),
                    ),
                    sessions: order::retained(db.sessions, |i: int| db.sessions[i].id != id, 0),
                    turns: order::retained(db.turns, |i: int| db.turns[i].session_id != id, 0),
                    actions: order::retained(
                        db.actions,
                        |i: int| !action_under(db, db.actions[i], id),
                        0,
                    ),
                    ..db
                },
                Ok(()),
            )
        },
    }
}

/// Places in range, however they are ordered.
proof fn ordered_in_range(ordered: Seq<usize>, times: Seq<i64>)
    requires
        order::places(ordered) == order::newest_first(times) || order::places(ordered) == order::oldest_first(times),
    ensures
        ordered.len() == times.len(),
        forall|j: int| 0 <= j < ordered.len() ==> #[trigger] ordered[j] < times.len(),
{
    order::order_is_complete(times.len(), order::key_above(order::newest_keys(times)));
    order::order_is_complete(times.len(), order::key_above(order::oldest_keys(times)));
    assert(ordered.len() == order::places(ordered).len());
    assert forall|j: int| 0 <= j < ordered.len() implies #[trigger] ordered[j] < times.len() by {
        assert(order::places(ordered)[j] == ordered[j] as int);
    }
}

impl Database {
    fn is_action_under(&self, action: &AgentAction, id: &str) -> (yes: bool)
        ensures
            yes == action_under(self@, action@, id@),
    {
        let ghost test = |turn: AgentTurnView| turn.id == action@.turn_id;
        let mut i: usize = 0;
        while i < self.turns.len()
            invariant
                i <= self.turns.len(),
                test == (|turn: AgentTurnView| turn.id == action@.turn_id),
                forall|k: int| 0 <= k < i ==> !test(#[trigger] self@.turns[k]),
            decreases self.turns.len() - i,
        {
            assert(self@.turns[i as int] == self.turns@[i as int]@);
            if same_text(self.turns[i].id.as_str(), action.turn_id.as_str()) {
                proof {
                    order::position_found(self@.turns, test, i as int);
                }
                return same_text(self.turns[i].session_id.as_str(), id);
            }
            i += 1;
        }
        proof {
            order::position_missing(self@.turns, test);
        }
        false
    }

    fn runs_under(row: &ExecutionRow, id: &str) -> (yes: bool)
        ensures
            yes == (row@.session_id == Some(id@)),
    {
        match &row.session_id {
            Some(linked) => same_text(linked.as_str(), id),
            None => false,
        }
    }

    fn places_of_executions(&self, id: &str) -> (found: Vec<usize>)
        ensures
            order::picked(self@.executions, order::places(found@)) == executions_under(self@, id@),
            forall|k: int| 0 <= k < found.len() ==> #[trigger] found@[k] < self.executions.len(),
    {
        let ghost test = |i: int| self@.executions[i].session_id == Some(id@);
        let mut some: Vec<usize> = Vec::new();
        let mut times: Vec<i64> = Vec::new();
        let mut i: usize = 0;
        assert(order::places(some@) =~= order::matching(0, test));
        while i < self.executions.len()
            invariant
                i <= self.executions.len(),
                test == (|i: int| self@.executions[i].session_id == Some(id@)),
                order::places(some@) == order::matching(i as nat, test),
                times.len() == some.len(),
                forall|k: int| 0 <= k < some.len() ==> #[trigger] some@[k] < i,
                forall|k: int|
                    0 <= k < some.len() ==> times@[k]
                        == self@.executions[#[trigger] some@[k] as int].created_at_ms,
            decreases self.executions.len() - i,
        {
            let row = &self.executions[i];
            assert(self@.executions[i as int] == row@);
            let ghost before = order::places(some@);
            if Database::runs_under(row, id) {
                some.push(i);
                times.push(row.created_at_ms);
                assert(order::places(some@) =~= before.push(i as int));
            }
            i += 1;
        }
        let ghost rows = order::picked(self@.executions, order::places(some@));
        assert(times@ =~= rows.map_values(|row: ExecutionRowView| row.created_at_ms)) by {
            assert forall|k: int| 0 <= k < times.len() implies times@[k]
                == rows[k].created_at_ms by {
                assert(order::places(some@)[k] == some@[k] as int);
            }
        }
        let ordered = order_oldest(&times);
        proof {
            ordered_in_range(ordered@, times@);
        }
        let mut found: Vec<usize> = Vec::new();
        let mut k: usize = 0;
        while k < ordered.len()
            invariant
                k <= ordered.len(),
                found.len() == k,
                forall|j: int| 0 <= j < ordered.len() ==> #[trigger] ordered@[j] < some.len(),
                forall|j: int| 0 <= j < some.len() ==> #[trigger] some@[j]
                    < self.executions.len(),
                forall|j: int| 0 <= j < k ==> #[trigger] found@[j] == some@[ordered@[j] as int],
            decreases ordered.len() - k,
        {
            found.push(some[ordered[k]]);
            k += 1;
        }
        proof {
            let goal = order::picked(rows, order::places(ordered@));
            assert(order::picked(self@.executions, order::places(found@)) =~= goal) by {
                assert forall|j: int| 0 <= j < found.len() implies order::picked(
                    self@.executions,
                    order::places(found@),
                )[j] == goal[j] by {
                    assert(order::places(ordered@)[j] == ordered@[j] as int);
                    assert(order::places(found@)[j] == found@[j] as int);
                    assert(order::places(some@)[ordered@[j] as int] == some@[ordered@[j] as int] as int);
                }
            }
            assert forall|j: int| 0 <= j < found.len() implies #[trigger] found@[j]
                < self.executions.len() by {
                assert(found@[j] == some@[ordered@[j] as int]);
            }
        }
        found
    }

    fn places_of_turns(&self, id: &str) -> (found: Vec<usize>)
        ensures
            order::picked(self@.turns, order::places(found@)) == turns_under(self@, id@),
            forall|k: int| 0 <= k < found.len() ==> #[trigger] found@[k] < self.turns.len(),
    {
        let ghost test = |i: int| self@.turns[i].session_id == id@;
        let mut some: Vec<usize> = Vec::new();
        let mut times: Vec<i64> = Vec::new();
        let mut i: usize = 0;
        assert(order::places(some@) =~= order::matching(0, test));
        while i < self.turns.len()
            invariant
                i <= self.turns.len(),
                test == (|i: int| self@.turns[i].session_id == id@),
                order::places(some@) == order::matching(i as nat, test),
                times.len() == some.len(),
                forall|k: int| 0 <= k < some.len() ==> #[trigger] some@[k] < i,
                forall|k: int|
                    0 <= k < some.len() ==> times@[k]
                        == self@.turns[#[trigger] some@[k] as int].created_at_ms,
            decreases self.turns.len() - i,
        {
            let row = &self.turns[i];
            assert(self@.turns[i as int] == row@);
            let ghost before = order::places(some@);
            if same_text(row.session_id.as_str(), id) {
                some.push(i);
                times.push(row.created_at_ms);
                assert(order::places(some@) =~= before.push(i as int));
            }
            i += 1;
        }
        let ghost rows = order::picked(self@.turns, order::places(some@));
        assert(times@ =~= rows.map_values(|row: AgentTurnView| row.created_at_ms)) by {
            assert forall|k: int| 0 <= k < times.len() implies times@[k]
                == rows[k].created_at_ms by {
                assert(order::places(some@)[k] == some@[k] as int);
            }
        }
        let ordered = order_oldest(&times);
        proof {
            ordered_in_range(ordered@, times@);
        }
        let mut found: Vec<usize> = Vec::new();
        let mut k: usize = 0;
        while k < ordered.len()
            invariant
                k <= ordered.len(),
                found.len() == k,
                forall|j: int| 0 <= j < ordered.len() ==> #[trigger] ordered@[j] < some.len(),
                forall|j: int| 0 <= j < some.len() ==> #[trigger] some@[j]
                    < self.turns.len(),
                forall|j: int| 0 <= j < k ==> #[trigger] found@[j] == some@[ordered@[j] as int],
            decreases ordered.len() - k,
        {
            found.push(some[ordered[k]]);
            k += 1;
        }
        proof {
            let goal = order::picked(rows, order::places(ordered@));
            assert(order::picked(self@.turns, order::places(found@)) =~= goal) by {
                assert forall|j: int| 0 <= j < found.len() implies order::picked(
                    self@.turns,
                    order::places(found@),
                )[j] == goal[j] by {
                    assert(order::places(ordered@)[j] == ordered@[j] as int);
                    assert(order::places(found@)[j] == found@[j] as int);
                    assert(order::places(some@)[ordered@[j] as int] == some@[ordered@[j] as int] as int);
                }
            }
            assert forall|j: int| 0 <= j < found.len() implies #[trigger] found@[j]
                < self.turns.len() by {
                assert(found@[j] == some@[ordered@[j] as int]);
            }
        }
        found
    }

    fn places_of_actions(&self, id: &str) -> (found: Vec<usize>)
        ensures
            order::picked(self@.actions, order::places(found@)) == actions_under(self@, id@),
            forall|k: int| 0 <= k < found.len() ==> #[trigger] found@[k] < self.actions.len(),
    {
        let ghost test = |i: int| action_under(self@, self@.actions[i], id@);
        let mut some: Vec<usize> = Vec::new();
        let mut times: Vec<i64> = Vec::new();
        let mut i: usize = 0;
        assert(order::places(some@) =~= order::matching(0, test));
        while i < self.actions.len()
            invariant
                i <= self.actions.len(),
                test == (|i: int| action_under(self@, self@.actions[i], id@)),
                order::places(some@) == order::matching(i as nat, test),
                times.len() == some.len(),
                forall|k: int| 0 <= k < some.len() ==> #[trigger] some@[k] < i,
                forall|k: int|
                    0 <= k < some.len() ==> times@[k]
                        == self@.actions[#[trigger] some@[k] as int].created_at_ms,
            decreases self.actions.len() - i,
        {
            let row = &self.actions[i];
            assert(self@.actions[i as int] == row@);
            let ghost before = order::places(some@);
            if self.is_action_under(row, id) {
                some.push(i);
                times.push(row.created_at_ms);
                assert(order::places(some@) =~= before.push(i as int));
            }
            i += 1;
        }
        let ghost rows = order::picked(self@.actions, order::places(some@));
        assert(times@ =~= rows.map_values(|row: AgentActionView| row.created_at_ms)) by {
            assert forall|k: int| 0 <= k < times.len() implies times@[k]
                == rows[k].created_at_ms by {
                assert(order::places(some@)[k] == some@[k] as int);
            }
        }
        let ordered = order_oldest(&times);
        proof {
            ordered_in_range(ordered@, times@);
        }
        let mut found: Vec<usize> = Vec::new();
        let mut k: usize = 0;
        while k < ordered.len()
            invariant
                k <= ordered.len(),
                found.len() == k,
                forall|j: int| 0 <= j < ordered.len() ==> #[trigger] ordered@[j] < some.len(),
                forall|j: int| 0 <= j < some.len() ==> #[trigger] some@[j]
                    < self.actions.len(),
                forall|j: int| 0 <= j < k ==> #[trigger] found@[j] == some@[ordered@[j] as int],
            decreases ordered.len() - k,
        {
            found.push(some[ordered[k]]);
            k += 1;
        }
        proof {
            let goal = order::picked(rows, order::places(ordered@));
            assert(order::picked(self@.actions, order::places(found@)) =~= goal) by {
                assert forall|j: int| 0 <= j < found.len() implies order::picked(
                    self@.actions,
                    order::places(found@),
                )[j] == goal[j] by {
                    assert(order::places(ordered@)[j] == ordered@[j] as int);
                    assert(order::places(found@)[j] == found@[j] as int);
                    assert(order::places(some@)[ordered@[j] as int] == some@[ordered@[j] as int] as int);
                }
            }
            assert forall|j: int| 0 <= j < found.len() implies #[trigger] found@[j]
                < self.actions.len() by {
                assert(found@[j] == some@[ordered@[j] as int]);
            }
        }
        found
    }

    fn places_asked(&self, workspace: Option<&str>) -> (found: Vec<usize>)
        ensures
            order::picked(self@.sessions, order::places(found@)) == sessions_asked(self@, reading::maybe_str(workspace)),
            forall|k: int| 0 <= k < found.len() ==> #[trigger] found@[k] < self.sessions.len(),
    {
        let ghost test = |i: int| reading::asked_for(self@, self@.sessions[i].workspace_id, reading::maybe_str(workspace));
        let mut some: Vec<usize> = Vec::new();
        let mut times: Vec<i64> = Vec::new();
        let mut i: usize = 0;
        assert(order::places(some@) =~= order::matching(0, test));
        while i < self.sessions.len()
            invariant
                i <= self.sessions.len(),
                test == (|i: int| reading::asked_for(self@, self@.sessions[i].workspace_id, reading::maybe_str(workspace))),
                order::places(some@) == order::matching(i as nat, test),
                times.len() == some.len(),
                forall|k: int| 0 <= k < some.len() ==> #[trigger] some@[k] < i,
                forall|k: int|
                    0 <= k < some.len() ==> times@[k]
                        == self@.sessions[#[trigger] some@[k] as int].created_at_ms,
            decreases self.sessions.len() - i,
        {
            let row = &self.sessions[i];
            assert(self@.sessions[i as int] == row@);
            let ghost before = order::places(some@);
            if self.is_asked_for(row.workspace_id.as_str(), workspace) {
                some.push(i);
                times.push(row.created_at_ms);
                assert(order::places(some@) =~= before.push(i as int));
            }
            i += 1;
        }
        let ghost rows = order::picked(self@.sessions, order::places(some@));
        assert(times@ =~= rows.map_values(|row: SessionRowView| row.created_at_ms)) by {
            assert forall|k: int| 0 <= k < times.len() implies times@[k]
                == rows[k].created_at_ms by {
                assert(order::places(some@)[k] == some@[k] as int);
            }
        }
        let ordered = order_newest(&times);
        proof {
            ordered_in_range(ordered@, times@);
        }
        let mut found: Vec<usize> = Vec::new();
        let mut k: usize = 0;
        while k < ordered.len()
            invariant
                k <= ordered.len(),
                found.len() == k,
                forall|j: int| 0 <= j < ordered.len() ==> #[trigger] ordered@[j] < some.len(),
                forall|j: int| 0 <= j < some.len() ==> #[trigger] some@[j]
                    < self.sessions.len(),
                forall|j: int| 0 <= j < k ==> #[trigger] found@[j] == some@[ordered@[j] as int],
            decreases ordered.len() - k,
        {
            found.push(some[ordered[k]]);
            k += 1;
        }
        proof {
            let goal = order::picked(rows, order::places(ordered@));
            assert(order::picked(self@.sessions, order::places(found@)) =~= goal) by {
                assert forall|j: int| 0 <= j < found.len() implies order::picked(
                    self@.sessions,
                    order::places(found@),
                )[j] == goal[j] by {
                    assert(order::places(ordered@)[j] == ordered@[j] as int);
                    assert(order::places(found@)[j] == found@[j] as int);
                    assert(order::places(some@)[ordered@[j] as int] == some@[ordered@[j] as int] as int);
                }
            }
            assert forall|j: int| 0 <= j < found.len() implies #[trigger] found@[j]
                < self.sessions.len() by {
                assert(found@[j] == some@[ordered@[j] as int]);
            }
        }
        found
    }

    fn places_recording(&self) -> (found: Vec<usize>)
        ensures
            order::picked(self@.sessions, order::places(found@)) == recording_sessions(self@),
            forall|k: int| 0 <= k < found.len() ==> #[trigger] found@[k] < self.sessions.len(),
    {
        let ghost test = |i: int| self@.sessions[i].state == AgentSessionState::Recording;
        let mut some: Vec<usize> = Vec::new();
        let mut times: Vec<i64> = Vec::new();
        let mut i: usize = 0;
        assert(order::places(some@) =~= order::matching(0, test));
        while i < self.sessions.len()
            invariant
                i <= self.sessions.len(),
                test == (|i: int| self@.sessions[i].state == AgentSessionState::Recording),
                order::places(some@) == order::matching(i as nat, test),
                times.len() == some.len(),
                forall|k: int| 0 <= k < some.len() ==> #[trigger] some@[k] < i,
                forall|k: int|
                    0 <= k < some.len() ==> times@[k]
                        == self@.sessions[#[trigger] some@[k] as int].created_at_ms,
            decreases self.sessions.len() - i,
        {
            let row = &self.sessions[i];
            assert(self@.sessions[i as int] == row@);
            let ghost before = order::places(some@);
            if row.state == AgentSessionState::Recording {
                some.push(i);
                times.push(row.created_at_ms);
                assert(order::places(some@) =~= before.push(i as int));
            }
            i += 1;
        }
        let ghost rows = order::picked(self@.sessions, order::places(some@));
        assert(times@ =~= rows.map_values(|row: SessionRowView| row.created_at_ms)) by {
            assert forall|k: int| 0 <= k < times.len() implies times@[k]
                == rows[k].created_at_ms by {
                assert(order::places(some@)[k] == some@[k] as int);
            }
        }
        let ordered = order_oldest(&times);
        proof {
            ordered_in_range(ordered@, times@);
        }
        let mut found: Vec<usize> = Vec::new();
        let mut k: usize = 0;
        while k < ordered.len()
            invariant
                k <= ordered.len(),
                found.len() == k,
                forall|j: int| 0 <= j < ordered.len() ==> #[trigger] ordered@[j] < some.len(),
                forall|j: int| 0 <= j < some.len() ==> #[trigger] some@[j]
                    < self.sessions.len(),
                forall|j: int| 0 <= j < k ==> #[trigger] found@[j] == some@[ordered@[j] as int],
            decreases ordered.len() - k,
        {
            found.push(some[ordered[k]]);
            k += 1;
        }
        proof {
            let goal = order::picked(rows, order::places(ordered@));
            assert(order::picked(self@.sessions, order::places(found@)) =~= goal) by {
                assert forall|j: int| 0 <= j < found.len() implies order::picked(
                    self@.sessions,
                    order::places(found@),
                )[j] == goal[j] by {
                    assert(order::places(ordered@)[j] == ordered@[j] as int);
                    assert(order::places(found@)[j] == found@[j] as int);
                    assert(order::places(some@)[ordered@[j] as int] == some@[ordered@[j] as int] as int);
                }
            }
            assert forall|j: int| 0 <= j < found.len() implies #[trigger] found@[j]
                < self.sessions.len() by {
                assert(found@[j] == some@[ordered@[j] as int]);
            }
        }
        found
    }

    fn sessions_at(&self, found: &Vec<usize>, count: usize) -> (list: Vec<AgentSession>)
        requires
            count <= found.len(),
            forall|k: int| 0 <= k < found.len() ==> #[trigger] found@[k] < self.sessions.len(),
        ensures
            list@.map_values(|item: AgentSession| item@) == order::picked(
                self@.sessions,
                order::places(found@),
            ).take(count as int).map_values(|row: SessionRowView| sessions::session_of(row)),
    {
        let mut list: Vec<AgentSession> = Vec::new();
        let mut k: usize = 0;
        while k < count
            invariant
                k <= count <= found.len(),
                list.len() == k,
                forall|j: int| 0 <= j < found.len() ==> #[trigger] found@[j]
                    < self.sessions.len(),
                forall|j: int|
                    0 <= j < k ==> list@[j]@ == sessions::session_of(
                        self@.sessions[#[trigger] found@[j] as int],
                    ),
            decreases count - k,
        {
            let at = found[k];
            assert(self@.sessions[at as int] == self.sessions@[at as int]@);
            list.push(agent_session_from_row(&self.sessions[at]));
            k += 1;
        }
        assert(list@.map_values(|item: AgentSession| item@) =~= order::picked(
            self@.sessions,
            order::places(found@),
        ).take(count as int).map_values(|row: SessionRowView| sessions::session_of(row))) by {
            assert forall|j: int| 0 <= j < count implies list@[j]@ == sessions::session_of(
                order::picked(self@.sessions, order::places(found@))[j],
            ) by {
                assert(order::places(found@)[j] == found@[j] as int);
            }
        }
        list
    }

    /// The sessions of a workspace, or of all, the newest first and at most
    /// `limit` of them.
    pub fn list_agent_sessions(&self, workspace: Option<&str>, limit: u32) -> (list: Vec<
        AgentSession,
    >)
        ensures
            list@.map_values(|item: AgentSession| item@) == reading::at_most(
                sessions_asked(self@, reading::maybe_str(workspace)),
                limit as int,
            ).map_values(|row: SessionRowView| sessions::session_of(row)),
    {
        let found = self.places_asked(workspace);
        let ghost asked = sessions_asked(self@, reading::maybe_str(workspace));
        let mut count: usize = found.len();
        if (limit as u64) < (count as u64) {
            count = limit as usize;
        }
        assert(asked.len() == found.len());
        assert(asked.take(asked.len() as int) =~= asked);
        self.sessions_at(&found, count)
    }

    /// The sessions that are being recorded, the oldest first.
    pub fn active_agent_sessions(&self) -> (list: Vec<AgentSession>)
        ensures
            list@.map_values(|item: AgentSession| item@) == recording_sessions(self@).map_values(
                |row: SessionRowView| sessions::session_of(row),
            ),
    {
        let found = self.places_recording();
        let ghost all = recording_sessions(self@);
        assert(all.len() == found.len());
        assert(all.take(all.len() as int) =~= all);
        self.sessions_at(&found, found.len())
    }

    /// A session with everything recorded under it.
    pub fn get_agent_session(&self, id: &str, now: i64) -> (detail: Result<
        AgentSessionDetail,
        Error,
    >)
        ensures
            error::viewed(detail) == session_detail(self@, id@, now),
    {
        proof {
            order::position_is_first(self@.sessions, |row: SessionRowView| row.id == id@);
        }
        let at = match self.find_session(id) {
            None => {
                return Err(Error::AgentSessionNotFound(id.to_owned()));
            },
            Some(at) => at,
        };
        assert(self@.sessions[at as int] == self.sessions@[at as int]@);
        let session = agent_session_from_row(&self.sessions[at]);
        let places_run = self.places_of_executions(id);
        let mut executions: Vec<Execution> = Vec::new();
        let mut k: usize = 0;
        while k < places_run.len()
            invariant
                k <= places_run.len(),
                executions.len() == k,
                forall|j: int| 0 <= j < places_run.len() ==> #[trigger] places_run@[j]
                    < self.executions.len(),
                forall|j: int|
                    0 <= j < k ==> executions@[j]@ == executions::execution_of(
                        self@.executions[#[trigger] places_run@[j] as int],
                        now,
                    ),
            decreases places_run.len() - k,
        {
            let p = places_run[k];
            assert(self@.executions[p as int] == self.executions@[p as int]@);
            executions.push(execution_from_row(&self.executions[p], now));
            k += 1;
        }
        assert(executions@.map_values(|item: Execution| item@) =~= executions_under(
            self@,
            id@,
        ).map_values(|row: ExecutionRowView| executions::execution_of(row, now))) by {
            assert forall|j: int| 0 <= j < executions.len() implies executions@[j]@
                == executions::execution_of(order::picked(self@.executions, order::places(places_run@))[j], now) by {
                assert(order::places(places_run@)[j] == places_run@[j] as int);
            }
        }
        let places_told = self.places_of_turns(id);
        let mut turns: Vec<AgentTurn> = Vec::new();
        let mut k: usize = 0;
        while k < places_told.len()
            invariant
                k <= places_told.len(),
                turns.len() == k,
                forall|j: int| 0 <= j < places_told.len() ==> #[trigger] places_told@[j]
                    < self.turns.len(),
                forall|j: int|
                    0 <= j < k ==> turns@[j]@ == self@.turns[#[trigger] places_told@[j] as int],
            decreases places_told.len() - k,
        {
            let p = places_told[k];
            assert(self@.turns[p as int] == self.turns@[p as int]@);
            turns.push(self.turns[p].clone());
            k += 1;
        }
        assert(turns@.map_values(|item: AgentTurn| item@) =~= turns_under(self@, id@)) by {
            assert forall|j: int| 0 <= j < turns.len() implies turns@[j]@ == order::picked(
                self@.turns,
                order::places(places_told@),
            )[j] by {
                assert(order::places(places_told@)[j] == places_told@[j] as int);
            }
        }
        let places_done = self.places_of_actions(id);
        let mut actions: Vec<AgentAction> = Vec::new();
        let mut k: usize = 0;
        while k < places_done.len()
            invariant
                k <= places_done.len(),
                actions.len() == k,
                forall|j: int| 0 <= j < places_done.len() ==> #[trigger] places_done@[j]
                    < self.actions.len(),
                forall|j: int|
                    0 <= j < k ==> actions@[j]@ == self@.actions[#[trigger] places_done@[j] as int],
            decreases places_done.len() - k,
        {
            let p = places_done[k];
            assert(self@.actions[p as int] == self.actions@[p as int]@);
            actions.push(self.actions[p].clone());
            k += 1;
        }
        assert(actions@.map_values(|item: AgentAction| item@) =~= actions_under(self@, id@)) by {
            assert forall|j: int| 0 <= j < actions.len() implies actions@[j]@ == order::picked(
                self@.actions,
                order::places(places_done@),
            )[j] by {
                assert(order::places(places_done@)[j] == places_done@[j] as int);
            }
        }
        Ok(AgentSessionDetail { session, executions, turns, actions })
    }

    fn sessions_left(&self, id: &str) -> (keep: Vec<bool>)
        ensures
            keep.len() == self.sessions.len(),
            forall|k: int| 0 <= k < keep.len() ==> #[trigger] keep@[k] == (self@.sessions[k].id != id@),
    {
        let mut keep: Vec<bool> = Vec::new();
        let mut i: usize = 0;
        while i < self.sessions.len()
            invariant
                i <= self.sessions.len(),
                keep.len() == i,
                forall|k: int| 0 <= k < i ==> #[trigger] keep@[k] == (self@.sessions[k].id != id@),
            decreases self.sessions.len() - i,
        {
            assert(self@.sessions[i as int] == self.sessions@[i as int]@);
            keep.push(!same_text(self.sessions[i].id.as_str(), id));
            i += 1;
        }
        keep
    }

    fn turns_left(&self, id: &str) -> (keep: Vec<bool>)
        ensures
            keep.len() == self.turns.len(),
            forall|k: int| 0 <= k < keep.len() ==> #[trigger] keep@[k] == (self@.turns[k].session_id != id@),
    {
        let mut keep: Vec<bool> = Vec::new();
        let mut i: usize = 0;
        while i < self.turns.len()
            invariant
                i <= self.turns.len(),
                keep.len() == i,
                forall|k: int| 0 <= k < i ==> #[trigger] keep@[k] == (self@.turns[k].session_id != id@),
            decreases self.turns.len() - i,
        {
            assert(self@.turns[i as int] == self.turns@[i as int]@);
            keep.push(!same_text(self.turns[i].session_id.as_str(), id));
            i += 1;
        }
        keep
    }

    fn actions_left(&self, id: &str) -> (keep: Vec<bool>)
        ensures
            keep.len() == self.actions.len(),
            forall|k: int| 0 <= k < keep.len() ==> #[trigger] keep@[k] == (!action_under(self@, self@.actions[k], id@)),
    {
        let mut keep: Vec<bool> = Vec::new();
        let mut i: usize = 0;
        while i < self.actions.len()
            invariant
                i <= self.actions.len(),
                keep.len() == i,
                forall|k: int| 0 <= k < i ==> #[trigger] keep@[k] == (!action_under(self@, self@.actions[k], id@)),
            decreases self.actions.len() - i,
        {
            assert(self@.actions[i as int] == self.actions@[i as int]@);
            keep.push(!self.is_action_under(&self.actions[i], id));
            i += 1;
        }
        keep
    }

    fn release_executions(&mut self, id: &str)
        ensures
            final(self)@ == (DatabaseView {
                executions: old(self)@.executions.map_values(
                    |row: ExecutionRowView| released(row, id@),
                ),
                ..old(self)@
            }),
    {
        let ghost start = self@.executions;
        let ghost goal = start.map_values(|row: ExecutionRowView| released(row, id@));
        let mut i: usize = 0;
        while i < self.executions.len()
            invariant
                i <= self.executions.len(),
                self.executions.len() == start.len(),
                goal == start.map_values(|row: ExecutionRowView| released(row, id@)),
                self@.workspaces == old(self)@.workspaces,
                self@.sessions == old(self)@.sessions,
                self@.turns == old(self)@.turns,
                self@.actions == old(self)@.actions,
                forall|k: int| 0 <= k < i ==> #[trigger] self@.executions[k] == goal[k],
                forall|k: int| i <= k < start.len() ==> #[trigger] self@.executions[k] == start[k],
            decreases self.executions.len() - i,
        {
            let ghost held = self.executions@;
            let ghost shown = self@.executions;
            assert(shown[i as int] == held[i as int]@);
            if Database::runs_under(&self.executions[i], id) {
                let row = &mut self.executions[i];
                row.session_id = None;
                row.initiator.session_id = None;
            }
            assert(self.executions@[i as int]@ == goal[i as int]);
            assert forall|k: int| 0 <= k < start.len() && k != i implies
                #[trigger] self@.executions[k] == shown[k] by {
                assert(self.executions@[k] == held[k]);
            }
            i += 1;
        }
        assert(self@.executions =~= goal);
    }

    /// Deletes a session that has ended, with its turns and actions. The
    /// executions run under it stay.
    pub fn delete_agent_session(&mut self, id: &str) -> (deleted: Result<(), Error>)
        ensures
            (final(self)@, error::outcome_view(deleted, |u: ()| u)) == delete_session_step(
                old(self)@,
                id@,
            ),
    {
        proof {
            order::position_is_first(self@.sessions, |row: SessionRowView| row.id == id@);
        }
        match self.find_session(id) {
            None => Err(Error::AgentSessionNotFound(id.to_owned())),
            Some(at) => {
                assert(self@.sessions[at as int] == self.sessions@[at as int]@);
                if !self.sessions[at].state.is_terminal() {
                    return Err(
                        Error::InvalidRequest(
                            joined3("agent session ", id, " is still recording"),
                        ),
                    );
                }
                let ghost db = self@;
                self.release_executions(id);
                let sessions = self.sessions_left(id);
                let turns = self.turns_left(id);
                let actions = self.actions_left(id);
                proof {
                    order::retained_views(
                        self.sessions@,
                        |item: SessionRow| item@,
                        |i: int| sessions@[i],
                        0,
                    );
                    order::retained_views(self.turns@, |item: AgentTurn| item@, |i: int| turns@[i], 0);
                    order::retained_views(
                        self.actions@,
                        |item: AgentAction| item@,
                        |i: int| actions@[i],
                        0,
                    );
                    order::same_retained(
                        db.sessions,
                        |i: int| sessions@[i],
                        |i: int| db.sessions[i].id != id@,
                        0,
                    );
                    order::same_retained(
                        db.turns,
                        |i: int| turns@[i],
                        |i: int| db.turns[i].session_id != id@,
                        0,
                    );
                    order::same_retained(
                        db.actions,
                        |i: int| actions@[i],
                        |i: int| !action_under(db, db.actions[i], id@),
                        0,
                    );
                }
                keep_only(&mut self.sessions, &sessions);
                keep_only(&mut self.turns, &turns);
                keep_only(&mut self.actions, &actions);
                Ok(())
            },
        }
    }
}

} // verus!
