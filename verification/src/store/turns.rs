//! Recording what an agent reports: the turns of its conversations and the
//! actions within them.

use vstd::prelude::*;

use crate::error;
use crate::error::Error;
use crate::model::{
    AgentAction, AgentActionState, AgentActionView, AgentEvent, AgentEventRequest,
    AgentSessionState, AgentTurn, AgentTurnState, AgentTurnView,
};
use crate::order;
use crate::store::rows::{Database, DatabaseView, ExecutionRowView, SessionRowView};
use crate::store::sessions;
use crate::text;
use crate::text::{clone_maybe, joined3, same_text};

verus! {

/// Whether two optional texts are both there and the same.
fn both_same(left: &Option<String>, right: &Option<String>) -> (same: bool)
    ensures
        same == (left is Some && text::maybe_text(*left) == text::maybe_text(*right)),
{
    match (left, right) {
        (Some(a), Some(b)) => same_text(a.as_str(), b.as_str()),
        _ => false,
    }
}

fn in_thread(turn: &AgentTurn, request: &AgentEventRequest) -> (yes: bool)
    ensures
        yes == sessions::same_thread(turn@, request@),
{
    same_text(turn.session_id.as_str(), request.session_id.as_str()) && same_text(
        turn.provider.as_str(),
        request.provider.as_str(),
    ) && same_text(turn.provider_session_id.as_str(), request.provider_session_id.as_str())
}

impl Database {
    fn find_provider_turn(&self, request: &AgentEventRequest) -> (place: Option<usize>)
        ensures
            order::place_view(place) == sessions::named_turn(self@, request@),
            place matches Some(at) ==> at < self.turns.len(),
    {
        match &request.provider_turn_id {
            None => None,
            Some(id) => {
                let ghost test = |turn: AgentTurnView|
                    sessions::same_thread(turn, request@) && turn.provider_turn_id == Some(id@);
                let mut i: usize = 0;
                while i < self.turns.len()
                    invariant
                        i <= self.turns.len(),
                        test == (|turn: AgentTurnView|
                            sessions::same_thread(turn, request@) && turn.provider_turn_id == Some(id@)),
                        forall|k: int| 0 <= k < i ==> !test(#[trigger] self@.turns[k]),
                    decreases self.turns.len() - i,
                {
                    let turn = &self.turns[i];
                    assert(self@.turns[i as int] == turn@);
                    if in_thread(turn, request) && both_same(
                        &turn.provider_turn_id,
                        &request.provider_turn_id,
                    ) {
                        proof {
                            order::position_found(self@.turns, test, i as int);
                        }
                        return Some(i);
                    }
                    i += 1;
                }
                proof {
                    order::position_missing(self@.turns, test);
                }
                None
            },
        }
    }

    fn find_active_turn(&self, request: &AgentEventRequest) -> (place: Option<usize>)
        ensures
            order::place_view(place) == sessions::active_turn(self@.turns, request@),
            place matches Some(at) ==> at < self.turns.len(),
    {
        let mut best: Option<usize> = None;
        let mut i: usize = 0;
        assert(self@.turns.take(0) =~= Seq::empty());
        while i < self.turns.len()
            invariant
                i <= self.turns.len(),
                best matches Some(at) ==> at < i,
                order::place_view(best) == sessions::active_turn(self@.turns.take(i as int), request@),
            decreases self.turns.len() - i,
        {
            let turn = &self.turns[i];
            assert(self@.turns[i as int] == turn@);
            assert(self@.turns.take(i + 1).drop_last() =~= self@.turns.take(i as int));
            let newer = match best {
                Some(at) => {
                    assert(self@.turns[at as int] == self.turns@[at as int]@);
                    turn.created_at_ms >= self.turns[at].created_at_ms
                },
                None => true,
            };
            if in_thread(turn, request) && turn.state == AgentTurnState::Active && newer {
                best = Some(i);
            }
            i += 1;
        }
        assert(self@.turns.take(i as int) =~= self@.turns);
        best
    }

    fn turn_id_taken(&self, id: &str) -> (taken: bool)
        ensures
            taken == sessions::turn_taken(self@, id@),
    {
        let ghost test = |turn: AgentTurnView| turn.id == id@;
        let mut i: usize = 0;
        while i < self.turns.len()
            invariant
                i <= self.turns.len(),
                test == (|turn: AgentTurnView| turn.id == id@),
                forall|k: int| 0 <= k < i ==> !test(#[trigger] self@.turns[k]),
            decreases self.turns.len() - i,
        {
            assert(self@.turns[i as int] == self.turns@[i as int]@);
            if same_text(self.turns[i].id.as_str(), id) {
                proof {
                    order::position_found(self@.turns, test, i as int);
                }
                return true;
            }
            i += 1;
        }
        proof {
            order::position_missing(self@.turns, test);
        }
        false
    }

    fn action_id_taken(&self, id: &str) -> (taken: bool)
        ensures
            taken == sessions::action_taken(self@, id@),
    {
        let ghost test = |action: AgentActionView| action.id == id@;
        let mut i: usize = 0;
        while i < self.actions.len()
            invariant
                i <= self.actions.len(),
                test == (|action: AgentActionView| action.id == id@),
                forall|k: int| 0 <= k < i ==> !test(#[trigger] self@.actions[k]),
            decreases self.actions.len() - i,
        {
            assert(self@.actions[i as int] == self.actions@[i as int]@);
            if same_text(self.actions[i].id.as_str(), id) {
                proof {
                    order::position_found(self@.actions, test, i as int);
                }
                return true;
            }
            i += 1;
        }
        proof {
            order::position_missing(self@.actions, test);
        }
        false
    }

    fn find_action(&self, turn_id: &str, provider_action_id: &str) -> (place: Option<usize>)
        ensures
            order::place_view(place) == sessions::action_place(self@, turn_id@, provider_action_id@),
            place matches Some(at) ==> at < self.actions.len(),
    {
        let ghost test = |action: AgentActionView|
            action.turn_id == turn_id@ && action.provider_action_id == provider_action_id@;
        let mut i: usize = 0;
        while i < self.actions.len()
            invariant
                i <= self.actions.len(),
                test == (|action: AgentActionView|
                    action.turn_id == turn_id@ && action.provider_action_id
                        == provider_action_id@),
                forall|k: int| 0 <= k < i ==> !test(#[trigger] self@.actions[k]),
            decreases self.actions.len() - i,
        {
            assert(self@.actions[i as int] == self.actions@[i as int]@);
            if same_text(self.actions[i].turn_id.as_str(), turn_id) && same_text(
                self.actions[i].provider_action_id.as_str(),
                provider_action_id,
            ) {
                proof {
                    order::position_found(self@.actions, test, i as int);
                }
                return Some(i);
            }
            i += 1;
        }
        proof {
            order::position_missing(self@.actions, test);
        }
        None
    }

    fn insert_agent_turn(
        &mut self,
        request: &AgentEventRequest,
        prompt: &str,
        id: String,
        now: i64,
    ) -> (place: Result<usize, Error>)
        ensures
            (
                final(self)@,
                match place {
                    Ok(at) => Ok(at as int),
                    Err(error) => Err(error@),
                },
            ) == sessions::insert_turn(old(self)@, request@, prompt@, id@, now),
            place matches Ok(at) ==> at < final(self).turns.len(),
    {
        if self.turn_id_taken(id.as_str()) {
            return Err(Error::Database("UNIQUE constraint failed: agent_turns.id".to_owned()));
        }
        let turn = AgentTurn {
            id,
            session_id: request.session_id.clone(),
            provider: request.provider.clone(),
            provider_session_id: request.provider_session_id.clone(),
            provider_turn_id: clone_maybe(&request.provider_turn_id),
            state: AgentTurnState::Active,
            prompt: prompt.to_owned(),
            created_at_ms: now,
            ended_at_ms: None,
            last_assistant_message: None,
        };
        let at: usize = self.turns.len();
        self.turns.push(turn);
        assert(self@.turns =~= old(self)@.turns.push(turn@));
        Ok(at)
    }

    fn find_or_create_agent_turn(&mut self, request: &AgentEventRequest, id: String, now: i64) -> (place: Result<
        usize,
        Error,
    >)
        ensures
            (
                final(self)@,
                match place {
                    Ok(at) => Ok(at as int),
                    Err(error) => Err(error@),
                },
            ) == sessions::turn_for(old(self)@, request@, id@, now),
            place matches Ok(at) ==> at < final(self).turns.len(),
    {
        let existing = if request.provider_turn_id.is_some() {
            self.find_provider_turn(request)
        } else {
            self.find_active_turn(request)
        };
        match existing {
            Some(at) => Ok(at),
            None => {
                proof {
                    reveal_strlit("");
                    assert(""@ =~= Seq::<char>::empty());
                }
                self.insert_agent_turn(request, "", id, now)
            },
        }
    }

    fn supersede_turns(&mut self, request: &AgentEventRequest, now: i64)
        ensures
            final(self)@ == (DatabaseView {
                turns: sessions::superseded(old(self)@.turns, request@, now),
                ..old(self)@
            }),
    {
        let ghost start = self@.turns;
        let ghost goal = sessions::superseded(start, request@, now);
        let mut i: usize = 0;
        while i < self.turns.len()
            invariant
                i <= self.turns.len(),
                self.turns.len() == start.len(),
                goal == sessions::superseded(start, request@, now),
                self@.workspaces == old(self)@.workspaces,
                self@.executions == old(self)@.executions,
                self@.sessions == old(self)@.sessions,
                self@.actions == old(self)@.actions,
                forall|k: int| 0 <= k < i ==> #[trigger] self@.turns[k] == goal[k],
                forall|k: int| i <= k < start.len() ==> #[trigger] self@.turns[k] == start[k],
            decreases self.turns.len() - i,
        {
            let ghost held = self.turns@;
            let ghost shown = self@.turns;
            assert(shown[i as int] == held[i as int]@);
            let other = !both_same(
                &request.provider_turn_id,
                &self.turns[i].provider_turn_id,
            );
            if in_thread(&self.turns[i], request) && self.turns[i].state == AgentTurnState::Active
                && other {
                let turn = &mut self.turns[i];
                turn.state = AgentTurnState::Interrupted;
                turn.ended_at_ms = Some(now);
            }
            assert(self.turns@[i as int]@ == goal[i as int]);
            assert forall|k: int| 0 <= k < start.len() && k != i implies
                #[trigger] self@.turns[k] == shown[k] by {
                assert(self.turns@[k] == held[k]);
            }
            i += 1;
        }
        assert(self@.turns =~= goal);
    }

    fn has_session_execution(&self, id: &str, session_id: &str) -> (yes: bool)
        ensures
            yes == (order::position(
                self@.executions,
                |row: ExecutionRowView| row.id == id@ && row.session_id == Some(session_id@),
            ) is Some),
    {
        let ghost test = |row: ExecutionRowView|
            row.id == id@ && row.session_id == Some(session_id@);
        let mut i: usize = 0;
        while i < self.executions.len()
            invariant
                i <= self.executions.len(),
                test == (|row: ExecutionRowView|
                    row.id == id@ && row.session_id == Some(session_id@)),
                forall|k: int| 0 <= k < i ==> !test(#[trigger] self@.executions[k]),
            decreases self.executions.len() - i,
        {
            let row = &self.executions[i];
            assert(self@.executions[i as int] == row@);
            let linked = match &row.session_id {
                Some(linked) => same_text(linked.as_str(), session_id),
                None => false,
            };
            if linked && same_text(row.id.as_str(), id) {
                proof {
                    order::position_found(self@.executions, test, i as int);
                }
                return true;
            }
            i += 1;
        }
        proof {
            order::position_missing(self@.executions, test);
        }
        false
    }

    fn start_action(&mut self, fresh: AgentAction) -> (failed: Option<Error>)
        ensures
            (
                final(self)@,
                match failed {
                    Some(error) => Some(error@),
                    None => None,
                },
            ) == sessions::put_action(old(self)@, fresh@, sessions::restarted(fresh@.tool_name)),
    {
        match self.find_action(fresh.turn_id.as_str(), fresh.provider_action_id.as_str()) {
            Some(at) => {
                let ghost before = self@.actions[at as int];
                assert(before == self.actions@[at as int]@);
                let action = &mut self.actions[at];
                action.tool_name = fresh.tool_name;
                action.state = AgentActionState::Running;
                action.ended_at_ms = None;
                assert(self@.actions =~= old(self)@.actions.update(
                    at as int,
                    sessions::restarted(fresh@.tool_name)(before),
                ));
                None
            },
            None => {
                if self.action_id_taken(fresh.id.as_str()) {
                    return Some(
                        Error::Database("UNIQUE constraint failed: agent_actions.id".to_owned()),
                    );
                }
                self.actions.push(fresh);
                assert(self@.actions =~= old(self)@.actions.push(fresh@));
                None
            },
        }
    }

    fn finish_action(&mut self, fresh: AgentAction, now: i64) -> (failed: Option<Error>)
        ensures
            (
                final(self)@,
                match failed {
                    Some(error) => Some(error@),
                    None => None,
                },
            ) == sessions::put_action(
                old(self)@,
                fresh@,
                sessions::completed(fresh@.tool_name, fresh@.state, fresh@.execution_id, now),
            ),
    {
        match self.find_action(fresh.turn_id.as_str(), fresh.provider_action_id.as_str()) {
            Some(at) => {
                let ghost before = self@.actions[at as int];
                assert(before == self.actions@[at as int]@);
                let action = &mut self.actions[at];
                action.tool_name = fresh.tool_name;
                action.state = fresh.state;
                if fresh.execution_id.is_some() {
                    action.execution_id = fresh.execution_id;
                }
                action.ended_at_ms = Some(now);
                assert(self@.actions =~= old(self)@.actions.update(
                    at as int,
                    sessions::completed(fresh@.tool_name, fresh@.state, fresh@.execution_id, now)(before),
                ));
                None
            },
            None => {
                if self.action_id_taken(fresh.id.as_str()) {
                    return Some(
                        Error::Database("UNIQUE constraint failed: agent_actions.id".to_owned()),
                    );
                }
                self.actions.push(fresh);
                assert(self@.actions =~= old(self)@.actions.push(fresh@));
                None
            },
        }
    }

    /// Records an event that an agent reported.
    #[verifier::rlimit(60)]
    pub fn record_agent_event_at(
        &mut self,
        request: &AgentEventRequest,
        turn_id: String,
        action_id: String,
        now: i64,
    ) -> (recorded: Result<AgentTurn, Error>)
        ensures
            (final(self)@, error::viewed(recorded)) == sessions::record_event_step(
                old(self)@,
                request@,
                turn_id@,
                action_id@,
                now,
            ),
    {
        match request.validate() {
            Err(error) => {
                return Err(error);
            },
            Ok(()) => {},
        }
        proof {
            order::position_is_first(
                self@.sessions,
                |row: SessionRowView| row.id == request.session_id@,
            );
        }
        match self.find_session(request.session_id.as_str()) {
            None => {
                return Err(Error::AgentSessionNotFound(request.session_id.clone()));
            },
            Some(at) => {
                assert(self@.sessions[at as int] == self.sessions@[at as int]@);
                if self.sessions[at].state != AgentSessionState::Recording {
                    return Err(
                        Error::InvalidRequest(
                            joined3(
                                "agent session ",
                                request.session_id.as_str(),
                                " is no longer recording",
                            ),
                        ),
                    );
                }
            },
        }
        match &request.event {
            AgentEvent::PromptSubmitted { prompt } => {
                self.supersede_turns(request, now);
                match self.find_provider_turn(request) {
                    Some(at) => {
                        let ghost cut = self@.turns;
                        assert(cut[at as int] == self.turns@[at as int]@);
                        let turn = &mut self.turns[at];
                        turn.state = AgentTurnState::Active;
                        turn.prompt = prompt.clone();
                        turn.ended_at_ms = None;
                        turn.last_assistant_message = None;
                        assert(self@.turns =~= cut.update(at as int, self.turns@[at as int]@));
                        Ok(self.turns[at].clone())
                    },
                    None => match self.insert_agent_turn(request, prompt.as_str(), turn_id, now) {
                        Ok(at) => {
                            assert(self@.turns[at as int] == self.turns@[at as int]@);
                            Ok(self.turns[at].clone())
                        },
                        Err(error) => Err(error),
                    },
                }
            },
            AgentEvent::ToolStarted { action_id: named, tool_name } => {
                match self.find_or_create_agent_turn(request, turn_id, now) {
                    Err(error) => Err(error),
                    Ok(at) => {
                        assert(self@.turns[at as int] == self.turns@[at as int]@);
                        let turn = self.turns[at].clone();
                        let fresh = AgentAction {
                            id: action_id,
                            turn_id: turn.id.clone(),
                            provider_action_id: named.clone(),
                            tool_name: tool_name.clone(),
                            state: AgentActionState::Running,
                            execution_id: None,
                            created_at_ms: now,
                            ended_at_ms: None,
                        };
                        match self.start_action(fresh) {
                            Some(error) => Err(error),
                            None => Ok(turn),
                        }
                    },
                }
            },
            AgentEvent::ToolFinished { action_id: named, tool_name, failed, execution_id } => {
                match self.find_or_create_agent_turn(request, turn_id, now) {
                    Err(error) => Err(error),
                    Ok(at) => {
                        assert(self@.turns[at as int] == self.turns@[at as int]@);
                        let turn = self.turns[at].clone();
                        let linked = match execution_id {
                            Some(id) => if self.has_session_execution(
                                id.as_str(),
                                request.session_id.as_str(),
                            ) {
                                Some(id.clone())
                            } else {
                                None
                            },
                            None => None,
                        };
                        let state = if *failed {
                            AgentActionState::Failed
                        } else {
                            AgentActionState::Completed
                        };
                        let fresh = AgentAction {
                            id: action_id,
                            turn_id: turn.id.clone(),
                            provider_action_id: named.clone(),
                            tool_name: tool_name.clone(),
                            state,
                            execution_id: linked,
                            created_at_ms: now,
                            ended_at_ms: Some(now),
                        };
                        match self.finish_action(fresh, now) {
                            Some(error) => Err(error),
                            None => Ok(turn),
                        }
                    },
                }
            },
            AgentEvent::TurnFinished { failed, last_assistant_message } => {
                match self.find_or_create_agent_turn(request, turn_id, now) {
                    Err(error) => Err(error),
                    Ok(at) => {
                        let ghost before = self@.turns;
                        assert(before[at as int] == self.turns@[at as int]@);
                        let state = if *failed {
                            AgentTurnState::Failed
                        } else {
                            AgentTurnState::Completed
                        };
                        let message = clone_maybe(last_assistant_message);
                        let turn = &mut self.turns[at];
                        turn.state = state;
                        turn.ended_at_ms = Some(now);
                        turn.last_assistant_message = message;
                        assert(self@.turns =~= before.update(at as int, self.turns@[at as int]@));
                        Ok(self.turns[at].clone())
                    },
                }
            },
        }
    }
}

} // verus!
