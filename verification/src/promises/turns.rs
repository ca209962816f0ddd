//! How what an agent reports is put together into turns and actions.

use vstd::prelude::*;

use crate::model::{
    AgentActionState, AgentActionView, AgentEventRequestView, AgentEventView, AgentSessionState,
    AgentTurnState, AgentTurnView,
};
use crate::order;
use crate::store::rows::{DatabaseView, SessionRowView};
use crate::store::sessions;

verus! {

/// Whether a turn belongs to the conversation that a report is about.
pub open spec fn of_conversation(turn: AgentTurnView, request: AgentEventRequestView) -> bool {
    &&& turn.session_id == request.session_id
    &&& turn.provider == request.provider
    &&& turn.provider_session_id == request.provider_session_id
}

/// A new prompt cuts off the turns of its conversation that were active, but
/// for the one that it is itself about; the turns of other conversations, and
/// those that have ended, stay as they are.
pub proof fn a_prompt_cuts_off_what_was_active(
    db: DatabaseView,
    request: AgentEventRequestView,
    prompt: Seq<char>,
    turn_id: Seq<char>,
    action_id: Seq<char>,
    now: i64,
    t: int,
)
    requires
        request.event == (AgentEventView::PromptSubmitted { prompt }),
        sessions::record_event_step(db, request, turn_id, action_id, now).1 is Ok,
        0 <= t < db.turns.len(),
    ensures
        ({
            let (after, answer) = sessions::record_event_step(
                db,
                request,
                turn_id,
                action_id,
                now,
            );
            let turn = db.turns[t];
            let left = after.turns[t];
            let own = request.provider_turn_id is Some && turn.provider_turn_id
                == request.provider_turn_id;
            &&& after.actions == db.actions && after.executions == db.executions && after.sessions
                == db.sessions
            &&& after.turns.len() == db.turns.len() || after.turns.len() == db.turns.len() + 1
            &&& !of_conversation(turn, request) ==> left == turn
            &&& turn.state != AgentTurnState::Active && !own ==> left == turn
            &&& of_conversation(turn, request) && turn.state == AgentTurnState::Active && !own
                ==> left == (AgentTurnView {
                state: AgentTurnState::Interrupted,
                ended_at_ms: Some(now),
                ..turn
            })
        }),
{
    let cut = DatabaseView { turns: sessions::superseded(db.turns, request, now), ..db };
    match request.provider_turn_id {
        Some(id) => {
            order::position_is_first(
                cut.turns,
                |turn: AgentTurnView|
                    sessions::same_thread(turn, request) && turn.provider_turn_id == Some(id),
            );
        },
        None => {},
    }
}

proof fn the_newest_active(turns: Seq<AgentTurnView>, request: AgentEventRequestView)
    ensures
        match sessions::active_turn(turns, request) {
            Some(at) => {
                &&& 0 <= at < turns.len() && of_conversation(turns[at], request) && turns[at].state
                    == AgentTurnState::Active
                &&& forall|k: int|
                    0 <= k < turns.len() && of_conversation(#[trigger] turns[k], request)
                        && turns[k].state == AgentTurnState::Active ==> turns[k].created_at_ms
                        <= turns[at].created_at_ms
            },
            None => forall|k: int|
                0 <= k < turns.len() && of_conversation(#[trigger] turns[k], request)
                    ==> turns[k].state != AgentTurnState::Active,
        },
    decreases turns.len(),
{
    if turns.len() > 0 {
        let front = turns.drop_last();
        the_newest_active(front, request);
        assert forall|k: int| 0 <= k < front.len() implies #[trigger] turns[k] == front[k] by {}
        assert(turns[turns.len() - 1] == turns.last());
    }
}

/// A report that names its turn goes to the turn of its conversation with that
/// name; one that names none goes to the newest one that is active. Only where
/// there is no such turn does one begin, and then without a prompt.
pub proof fn a_report_goes_to_its_turn(
    db: DatabaseView,
    request: AgentEventRequestView,
    id: Seq<char>,
    now: i64,
)
    ensures
        match sessions::turn_for(db, request, id, now) {
            (after, Ok(at)) => {
                let turn = after.turns[at];
                &&& 0 <= at < after.turns.len() && of_conversation(turn, request)
                &&& request.provider_turn_id is Some ==> turn.provider_turn_id
                    == request.provider_turn_id
                &&& request.provider_turn_id is None ==> turn.state == AgentTurnState::Active && (
                forall|k: int|
                    0 <= k < db.turns.len() && of_conversation(#[trigger] db.turns[k], request)
                        && db.turns[k].state == AgentTurnState::Active ==> at < db.turns.len()
                        && db.turns[k].created_at_ms <= turn.created_at_ms)
                &&& at < db.turns.len() ==> after == db
                &&& at == db.turns.len() ==> after.turns.drop_last() == db.turns
                    && turn.prompt.len() == 0 && turn.id == id && turn.created_at_ms == now
                    && turn.state == AgentTurnState::Active
            },
            (after, Err(error)) => after == db && (exists|t: int|
                0 <= t < db.turns.len() && (#[trigger] db.turns[t]).id == id),
        },
{
    the_newest_active(db.turns, request);
    match request.provider_turn_id {
        Some(named) => {
            order::position_is_first(
                db.turns,
                |turn: AgentTurnView|
                    sessions::same_thread(turn, request) && turn.provider_turn_id == Some(named),
            );
        },
        None => {},
    }
    let test = |turn: AgentTurnView| turn.id == id;
    order::position_is_first(db.turns, test);
    match sessions::turn_for(db, request, id, now) {
        (after, Ok(at)) => {
            if at == db.turns.len() {
                assert(after.turns.drop_last() =~= db.turns);
            }
        },
        (after, Err(error)) => {
            let t = order::position(db.turns, test)->0;
            assert(test(db.turns[t]));
            assert(db.turns[t].id == id);
        },
    }
}

/// The end of a tool call ends the action that began with it: the action keeps
/// its identifier and its beginning, gets its end and its state, and keeps the
/// execution that it was linked to unless another one is named. No other action
/// changes.
pub proof fn the_end_of_a_call_ends_its_action(
    db: DatabaseView,
    request: AgentEventRequestView,
    turn_id: Seq<char>,
    action_id: Seq<char>,
    now: i64,
    named: Seq<char>,
    tool: Seq<char>,
    failed: bool,
    execution_id: Option<Seq<char>>,
    t: int,
    a: int,
)
    requires
        request.event == (AgentEventView::ToolFinished {
            action_id: named,
            tool_name: tool,
            failed,
            execution_id,
        }),
        sessions::record_event_step(db, request, turn_id, action_id, now).1 is Ok,
        sessions::turn_for(db, request, turn_id, now) == (
            db,
            Ok::<int, crate::error::ErrorView>(t),
        ),
        order::first_at(
            db.actions,
            |action: AgentActionView|
                action.turn_id == db.turns[t].id && action.provider_action_id == named,
            a,
        ),
    ensures
        ({
            let after = sessions::record_event_step(db, request, turn_id, action_id, now).0;
            let action = db.actions[a];
            let left = after.actions[a];
            &&& after == (DatabaseView { actions: db.actions.update(a, left), ..db })
            &&& left.id == action.id && left.turn_id == action.turn_id && left.provider_action_id
                == action.provider_action_id && left.created_at_ms == action.created_at_ms
            &&& left.tool_name == tool && left.ended_at_ms == Some(now)
            &&& left.state == (if failed {
                AgentActionState::Failed
            } else {
                AgentActionState::Completed
            })
            &&& match sessions::linked_execution(db, execution_id, request.session_id) {
                Some(id) => left.execution_id == Some(id),
                None => left.execution_id == action.execution_id,
            }
        }),
{
    order::position_found(
        db.actions,
        |action: AgentActionView|
            action.turn_id == db.turns[t].id && action.provider_action_id == named,
        a,
    );
}

/// The end of a turn changes that turn alone: it keeps its prompt and its
/// beginning.
pub proof fn the_end_of_a_turn_keeps_the_rest(
    db: DatabaseView,
    request: AgentEventRequestView,
    turn_id: Seq<char>,
    action_id: Seq<char>,
    now: i64,
    failed: bool,
    message: Option<Seq<char>>,
    t: int,
)
    requires
        request.event == (AgentEventView::TurnFinished {
            failed,
            last_assistant_message: message,
        }),
        sessions::record_event_step(db, request, turn_id, action_id, now).1 is Ok,
        sessions::turn_for(db, request, turn_id, now) == (
            db,
            Ok::<int, crate::error::ErrorView>(t),
        ),
    ensures
        ({
            let (after, answer) = sessions::record_event_step(
                db,
                request,
                turn_id,
                action_id,
                now,
            );
            let turn = db.turns[t];
            answer matches Ok(left) && after == (DatabaseView {
                turns: db.turns.update(t, left),
                ..db
            }) && left == (AgentTurnView {
                state: if failed {
                    AgentTurnState::Failed
                } else {
                    AgentTurnState::Completed
                },
                ended_at_ms: Some(now),
                last_assistant_message: message,
                ..turn
            })
        }),
{
}

/// A report that does not say of whom it is, or from whom, is refused, and so
/// is one about a session that is not there or not recorded; nothing changes
/// then.
pub proof fn nameless_reports_are_refused(
    db: DatabaseView,
    request: AgentEventRequestView,
    turn_id: Seq<char>,
    action_id: Seq<char>,
    now: i64,
)
    ensures
        request.session_id.len() == 0 || request.provider.len() == 0
            || request.provider_session_id.len() == 0 || (forall|s: int|
            0 <= s < db.sessions.len() ==> (#[trigger] db.sessions[s]).id != request.session_id
                || db.sessions[s].state != AgentSessionState::Recording)
            ==> sessions::record_event_step(db, request, turn_id, action_id, now).1 is Err
            && sessions::record_event_step(db, request, turn_id, action_id, now).0 == db,
{
    let test = |row: SessionRowView| row.id == request.session_id;
    order::position_is_first(db.sessions, test);
    match order::position(db.sessions, test) {
        Some(s) => {
            assert(test(db.sessions[s]));
        },
        None => {},
    }
}

} // verus!
