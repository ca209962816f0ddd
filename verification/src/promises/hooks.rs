//! What becomes of the hooks that an agent calls.

use vstd::prelude::*;

use crate::agent;
use crate::json;
use crate::json::{Json, JsonTree};
use crate::model::{
    AgentActionState, AgentActionView, AgentEventRequestView, AgentSessionState, AgentSessionView,
    AgentTurnState, AgentTurnView,
};
use crate::order;
use crate::store::rows::{DatabaseView, ExecutionRowView, SessionRowView};
use crate::store::sessions;

verus! {

/// Whether a hook has this name.
pub open spec fn hook_is(input: JsonTree, name: Seq<char>) -> bool {
    json::field(input, "hook_event_name"@) == Some(JsonTree::Text(name))
}

/// Whether a hook has this text in a field.
pub open spec fn hook_says(input: JsonTree, field: Seq<char>, text: Seq<char>) -> bool {
    json::field(input, field) == Some(JsonTree::Text(text))
}

/// Whether the store holds an action of a turn that the agent calls `named`,
/// in this state, for this tool.
pub open spec fn holds_action(
    db: DatabaseView,
    turn: AgentTurnView,
    named: Seq<char>,
    tool_name: Seq<char>,
    state: AgentActionState,
) -> bool {
    exists|i: int| #[trigger] action_at(db, i, turn, named, tool_name, state)
}

/// Whether the action at place `i` is of the turn, is called `named` by the
/// agent, and has this tool and this state.
pub open spec fn action_at(
    db: DatabaseView,
    i: int,
    turn: AgentTurnView,
    named: Seq<char>,
    tool_name: Seq<char>,
    state: AgentActionState,
) -> bool {
    &&& 0 <= i < db.actions.len()
    &&& db.actions[i].turn_id == turn.id
    &&& db.actions[i].provider_action_id == named
    &&& db.actions[i].tool_name == tool_name
    &&& db.actions[i].state == state
    &&& db.actions[i].ended_at_ms is Some == (state != AgentActionState::Running)
}

/// The hooks that are followed have different names.
pub proof fn names_differ()
    ensures
        "PostToolUse"@ != "PostToolUseFailure"@,
        "PostToolUse"@ != "PreToolUse"@,
        "PostToolUse"@ != "UserPromptSubmit"@,
        "PostToolUseFailure"@ != "PreToolUse"@,
        "PostToolUseFailure"@ != "UserPromptSubmit"@,
        "PreToolUse"@ != "UserPromptSubmit"@,
        "Stop"@ != "StopFailure"@,
        "Stop"@ != "UserPromptSubmit"@,
        "Stop"@ != "PreToolUse"@,
        "Stop"@ != "PostToolUse"@,
        "Stop"@ != "PostToolUseFailure"@,
        "StopFailure"@ != "UserPromptSubmit"@,
        "StopFailure"@ != "PreToolUse"@,
        "StopFailure"@ != "PostToolUse"@,
        "StopFailure"@ != "PostToolUseFailure"@,
{
    reveal_strlit("PostToolUse");
    reveal_strlit("PostToolUseFailure");
    reveal_strlit("PreToolUse");
    reveal_strlit("UserPromptSubmit");
    reveal_strlit("Stop");
    reveal_strlit("StopFailure");
    assert("PostToolUse"@.len() == 11 && "PostToolUseFailure"@.len() == 18);
    assert("PreToolUse"@.len() == 10 && "UserPromptSubmit"@.len() == 16);
    assert("Stop"@.len() == 4 && "StopFailure"@.len() == 11);
    assert("StopFailure"@[0] == 'S' && "PostToolUse"@[0] == 'P');
}

/// A tool call that an agent reports to have gone well is recorded as
/// completed, and one that it reports to have failed is recorded as failed.
pub proof fn the_end_of_a_tool_call_is_recorded(
    provider: Seq<char>,
    session_id: Seq<char>,
    input: JsonTree,
    failed: bool,
    named: Seq<char>,
    tool_name: Seq<char>,
    db: DatabaseView,
    turn_id: Seq<char>,
    action_id: Seq<char>,
    now: i64,
)
    requires
        hook_is(
            input,
            if failed {
                "PostToolUseFailure"@
            } else {
                "PostToolUse"@
            },
        ),
        hook_says(input, "tool_use_id"@, named),
        hook_says(input, "tool_name"@, tool_name),
    ensures
        agent::normalized(provider, session_id, input) matches Ok(event) ==> event matches Some(
            request,
        ) && ({
            let (after, answer) = sessions::record_event_step(
                db,
                request,
                turn_id,
                action_id,
                now,
            );
            answer matches Ok(turn) ==> holds_action(
                after,
                turn,
                named,
                tool_name,
                if failed {
                    AgentActionState::Failed
                } else {
                    AgentActionState::Completed
                },
            )
        }),
{
    names_differ();
    if agent::normalized(provider, session_id, input) is Ok {
        let request = agent::normalized(provider, session_id, input)->Ok_0->0;
        let (after, answer) = sessions::record_event_step(db, request, turn_id, action_id, now);
        if answer is Ok {
            let state = if failed {
                AgentActionState::Failed
            } else {
                AgentActionState::Completed
            };
            put_somewhere(db, request, turn_id, action_id, now, named, tool_name, state);
        }
    }
}

/// A tool call that an agent reports to begin is recorded as running.
pub proof fn the_beginning_of_a_tool_call_is_recorded(
    provider: Seq<char>,
    session_id: Seq<char>,
    input: JsonTree,
    named: Seq<char>,
    tool_name: Seq<char>,
    db: DatabaseView,
    turn_id: Seq<char>,
    action_id: Seq<char>,
    now: i64,
)
    requires
        hook_is(input, "PreToolUse"@),
        hook_says(input, "tool_use_id"@, named),
        hook_says(input, "tool_name"@, tool_name),
    ensures
        agent::normalized(provider, session_id, input) matches Ok(event) ==> event matches Some(
            request,
        ) && ({
            let (after, answer) = sessions::record_event_step(
                db,
                request,
                turn_id,
                action_id,
                now,
            );
            answer matches Ok(turn) ==> holds_action(
                after,
                turn,
                named,
                tool_name,
                AgentActionState::Running,
            )
        }),
{
    names_differ();
    if agent::normalized(provider, session_id, input) is Ok {
        let request = agent::normalized(provider, session_id, input)->Ok_0->0;
        let (after, answer) = sessions::record_event_step(db, request, turn_id, action_id, now);
        if answer is Ok {
            put_somewhere(
                db,
                request,
                turn_id,
                action_id,
                now,
                named,
                tool_name,
                AgentActionState::Running,
            );
        }
    }
}

proof fn put_somewhere(
    db: DatabaseView,
    request: AgentEventRequestView,
    turn_id: Seq<char>,
    action_id: Seq<char>,
    now: i64,
    named: Seq<char>,
    tool_name: Seq<char>,
    state: AgentActionState,
)
    requires
        sessions::record_event_step(db, request, turn_id, action_id, now).1 is Ok,
        match request.event {
            crate::model::AgentEventView::ToolStarted { action_id: own, tool_name: tool } => own
                == named && tool == tool_name && state == AgentActionState::Running,
            crate::model::AgentEventView::ToolFinished {
                action_id: own,
                tool_name: tool,
                failed,
                execution_id,
            } => own == named && tool == tool_name && state == (if failed {
                AgentActionState::Failed
            } else {
                AgentActionState::Completed
            }),
            _ => false,
        },
    ensures
        holds_action(
            sessions::record_event_step(db, request, turn_id, action_id, now).0,
            sessions::record_event_step(db, request, turn_id, action_id, now).1->Ok_0,
            named,
            tool_name,
            state,
        ),
{
    let (done, answer) = sessions::record_event_step(db, request, turn_id, action_id, now);
    let (after, at) = sessions::turn_for(db, request, turn_id, now);
    let turn = after.turns[at->Ok_0];
    assert(answer->Ok_0 == turn);
    let test = |action: AgentActionView|
        action.turn_id == turn.id && action.provider_action_id == named;
    order::position_is_first(after.actions, test);
    match sessions::action_place(after, turn.id, named) {
        Some(i) => {
            assert(action_at(done, i, turn, named, tool_name, state));
        },
        None => {
            assert(action_at(done, after.actions.len() as int, turn, named, tool_name, state));
        },
    }
}

/// A prompt begins a turn that is active and holds the prompt; it is the last
/// word on that turn.
pub proof fn a_prompt_begins_a_turn(
    provider: Seq<char>,
    session_id: Seq<char>,
    input: JsonTree,
    prompt: Seq<char>,
    db: DatabaseView,
    turn_id: Seq<char>,
    action_id: Seq<char>,
    now: i64,
)
    requires
        hook_is(input, "UserPromptSubmit"@),
        hook_says(input, "prompt"@, prompt),
    ensures
        agent::normalized(provider, session_id, input) matches Ok(event) ==> event matches Some(
            request,
        ) && ({
            let (after, answer) = sessions::record_event_step(
                db,
                request,
                turn_id,
                action_id,
                now,
            );
            answer matches Ok(turn) ==> after.turns.contains(turn) && turn.prompt == prompt
                && turn.state == AgentTurnState::Active && turn.ended_at_ms is None
                && turn.session_id == session_id && turn.provider == provider && hook_says(
                input,
                "session_id"@,
                turn.provider_session_id,
            )
        }),
{
    names_differ();
    if agent::normalized(provider, session_id, input) is Ok {
        let request = agent::normalized(provider, session_id, input)->Ok_0->0;
        let (after, answer) = sessions::record_event_step(db, request, turn_id, action_id, now);
        if answer is Ok {
            let cut = DatabaseView {
                turns: sessions::superseded(db.turns, request, now),
                ..db
            };
            match request.provider_turn_id {
                Some(id) => {
                    order::position_is_first(
                        cut.turns,
                        |turn: AgentTurnView|
                            sessions::same_thread(turn, request) && turn.provider_turn_id == Some(
                                id,
                            ),
                    );
                },
                None => {},
            }
            match sessions::named_turn(cut, request) {
                Some(at) => {
                    assert(after.turns[at] == answer->Ok_0);
                },
                None => {
                    assert(after.turns[cut.turns.len() as int] == answer->Ok_0);
                },
            }
        }
    }
}

/// A turn that an agent reports to have ended is recorded as completed, or as
/// failed where the agent says so, with the agent's last message.
pub proof fn the_end_of_a_turn_is_recorded(
    provider: Seq<char>,
    session_id: Seq<char>,
    input: JsonTree,
    failed: bool,
    db: DatabaseView,
    turn_id: Seq<char>,
    action_id: Seq<char>,
    now: i64,
)
    requires
        hook_is(
            input,
            if failed {
                "StopFailure"@
            } else {
                "Stop"@
            },
        ),
    ensures
        agent::normalized(provider, session_id, input) matches Ok(event) ==> event matches Some(
            request,
        ) && ({
            let (after, answer) = sessions::record_event_step(
                db,
                request,
                turn_id,
                action_id,
                now,
            );
            answer matches Ok(turn) ==> after.turns.contains(turn) && turn.ended_at_ms == Some(
                now,
            ) && turn.state == (if failed {
                AgentTurnState::Failed
            } else {
                AgentTurnState::Completed
            }) && (match turn.last_assistant_message {
                Some(message) => hook_says(input, "last_assistant_message"@, message),
                None => !(json::field(input, "last_assistant_message"@) matches Some(
                    JsonTree::Text(message),
                )),
            })
        }),
{
    names_differ();
    if agent::normalized(provider, session_id, input) is Ok {
        let request = agent::normalized(provider, session_id, input)->Ok_0->0;
        let (after, answer) = sessions::record_event_step(db, request, turn_id, action_id, now);
        if answer is Ok {
            let (found, at) = sessions::turn_for(db, request, turn_id, now);
            turn_is_there(db, request, turn_id, now);
            assert(after.turns[at->Ok_0] == answer->Ok_0);
        }
    }
}

proof fn active_turn_is_there(turns: Seq<AgentTurnView>, request: AgentEventRequestView)
    ensures
        sessions::active_turn(turns, request) matches Some(at) ==> 0 <= at < turns.len(),
    decreases turns.len(),
{
    if turns.len() > 0 {
        active_turn_is_there(turns.drop_last(), request);
    }
}

proof fn turn_is_there(
    db: DatabaseView,
    request: AgentEventRequestView,
    turn_id: Seq<char>,
    now: i64,
)
    ensures
        sessions::turn_for(db, request, turn_id, now) matches (found, Ok(at)) ==> 0 <= at
            < found.turns.len(),
{
    active_turn_is_there(db.turns, request);
    match request.provider_turn_id {
        Some(id) => {
            order::position_is_first(
                db.turns,
                |turn: AgentTurnView|
                    sessions::same_thread(turn, request) && turn.provider_turn_id == Some(id),
            );
        },
        None => {},
    }
}

/// What an agent reports is recorded for the session, the provider and the
/// conversation that it belongs to, and a hook that is not followed leaves
/// nothing to record.
pub proof fn reports_are_told_apart(provider: Seq<char>, session_id: Seq<char>, input: JsonTree)
    ensures
        match agent::normalized(provider, session_id, input) {
            Ok(Some(request)) => {
                &&& request.session_id == session_id
                &&& request.provider == provider
                &&& hook_says(input, "session_id"@, request.provider_session_id)
                &&& match request.provider_turn_id {
                    Some(id) => hook_says(input, "turn_id"@, id),
                    None => !(json::field(input, "turn_id"@) matches Some(JsonTree::Text(id))),
                }
                &&& hook_is(input, "UserPromptSubmit"@) || hook_is(input, "PreToolUse"@)
                    || hook_is(input, "PostToolUse"@) || hook_is(input, "PostToolUseFailure"@)
                    || hook_is(input, "Stop"@) || hook_is(input, "StopFailure"@)
            },
            Ok(None) => !hook_is(input, "UserPromptSubmit"@) && !hook_is(input, "PreToolUse"@)
                && !hook_is(input, "PostToolUse"@) && !hook_is(input, "PostToolUseFailure"@)
                && !hook_is(input, "Stop"@) && !hook_is(input, "StopFailure"@),
            Err(error) => error is InvalidRequest,
        },
{
}

/// Whether a hook says who calls it: its own session and the names it is
/// reported under are there.
pub open spec fn says_who(provider: Seq<char>, session_id: Seq<char>, input: JsonTree) -> bool {
    provider.len() > 0 && session_id.len() > 0 && (json::field(input, "session_id"@) matches Some(
        JsonTree::Text(own),
    ) && own.len() > 0)
}

/// Whether a field of a hook holds a text with something in it.
pub open spec fn has_text(input: JsonTree, field: Seq<char>) -> bool {
    json::field(input, field) matches Some(JsonTree::Text(text)) && text.len() > 0
}

/// A hook that says what it has to say is understood.
pub proof fn what_is_said_is_understood(provider: Seq<char>, session_id: Seq<char>, input: JsonTree)
    requires
        says_who(provider, session_id, input),
        hook_is(input, "UserPromptSubmit"@) && has_text(input, "prompt"@) || (hook_is(
            input,
            "PreToolUse"@,
        ) || hook_is(input, "PostToolUse"@) || hook_is(input, "PostToolUseFailure"@)) && has_text(
            input,
            "tool_use_id"@,
        ) && has_text(input, "tool_name"@) || hook_is(input, "Stop"@) || hook_is(
            input,
            "StopFailure"@,
        ),
    ensures
        agent::normalized(provider, session_id, input) matches Ok(Some(request)),
{
    names_differ();
    reveal_strlit("PostToolUse");
    reveal_strlit("PostToolUseFailure");
    reveal_strlit("PreToolUse");
    reveal_strlit("UserPromptSubmit");
    reveal_strlit("Stop");
    reveal_strlit("StopFailure");
}

/// What an agent reports under a session that is being recorded is taken, when
/// the identifiers for what is new are free; under any other session it is
/// refused, and nothing changes.
pub proof fn reports_are_taken_while_recording(
    db: DatabaseView,
    request: AgentEventRequestView,
    turn_id: Seq<char>,
    action_id: Seq<char>,
    now: i64,
    at: int,
)
    requires
        order::first_at(db.sessions, |row: SessionRowView| row.id == request.session_id, at),
        request.session_id.len() > 0 && request.provider.len() > 0
            && request.provider_session_id.len() > 0,
        forall|t: int| 0 <= t < db.turns.len() ==> (#[trigger] db.turns[t]).id != turn_id,
        forall|a: int| 0 <= a < db.actions.len() ==> (#[trigger] db.actions[a]).id != action_id,
    ensures
        ({
            let (after, answer) = sessions::record_event_step(
                db,
                request,
                turn_id,
                action_id,
                now,
            );
            if db.sessions[at].state == AgentSessionState::Recording {
                answer is Ok
            } else {
                answer is Err && after == db
            }
        }),
{
    order::position_found(
        db.sessions,
        |row: SessionRowView| row.id == request.session_id,
        at,
    );
    let used = |turn: AgentTurnView| turn.id == turn_id;
    order::position_missing(db.turns, used);
    order::position_missing(
        db.actions,
        |action: AgentActionView| action.id == action_id,
    );
    let cut = sessions::superseded(db.turns, request, now);
    assert forall|t: int| 0 <= t < cut.len() implies !used(#[trigger] cut[t]) by {
        assert(cut[t].id == db.turns[t].id);
    }
    order::position_missing(cut, used);
}

/// A tool call that ended is linked to the execution that its response names
/// directly, where that execution was run under the same session.
pub proof fn a_tool_call_is_linked_to_its_execution(
    provider: Seq<char>,
    session_id: Seq<char>,
    input: JsonTree,
    response: JsonTree,
    id: Seq<char>,
    db: DatabaseView,
    e: int,
)
    requires
        hook_is(input, "PostToolUse"@) || hook_is(input, "PostToolUseFailure"@),
        json::field(input, "tool_response"@) == Some(response),
        json::field(response, "execution_id"@) == Some(JsonTree::Text(id)),
    ensures
        agent::normalized(provider, session_id, input) matches Ok(event) ==> event matches Some(
            request,
        ) && (request.event matches crate::model::AgentEventView::ToolFinished {
            action_id,
            tool_name,
            failed,
            execution_id,
        } && execution_id == Some(id)),
        0 <= e < db.executions.len() && db.executions[e].id == id && db.executions[e].session_id
            == Some(session_id) ==> sessions::linked_execution(db, Some(id), session_id) == Some(
            id,
        ),
        (forall|k: int|
            0 <= k < db.executions.len() ==> (#[trigger] db.executions[k]).id != id
                || db.executions[k].session_id != Some(session_id)) ==> sessions::linked_execution(
            db,
            Some(id),
            session_id,
        ) is None,
{
    names_differ();
    let test = |row: ExecutionRowView| row.id == id && row.session_id == Some(session_id);
    order::position_is_first(db.executions, test);
    if 0 <= e < db.executions.len() && test(db.executions[e]) {
        order::position_exists(db.executions, test, e);
    }
}

/// A report is taken by a session that is being recorded, for its own agent or
/// for any, from its directory or below; and where there is such a session, one
/// takes it.
pub proof fn reports_reach_their_session(
    sessions: Seq<AgentSessionView>,
    provider: Seq<char>,
    cwd: Seq<char>,
)
    ensures
        match agent::reporting_session(sessions, provider, cwd) {
            Some(id) => exists|i: int|
                0 <= i < sessions.len() && (#[trigger] sessions[i]).id == id && may_report(
                    sessions[i],
                    provider,
                    cwd,
                ),
            None => forall|i: int|
                0 <= i < sessions.len() ==> !may_report(#[trigger] sessions[i], provider, cwd),
        },
{
    order::position_is_first(
        sessions,
        |session: AgentSessionView| agent::takes_reports(session, provider, cwd),
    );
}

/// Whether an agent of this provider may report to a session from a directory.
pub open spec fn may_report(
    session: AgentSessionView,
    provider: Seq<char>,
    cwd: Seq<char>,
) -> bool {
    &&& session.state == AgentSessionState::Recording
    &&& order::ascii_folded(session.agent_kind) == order::ascii_folded(provider)
        || order::ascii_folded(session.agent_kind) == order::ascii_folded("generic"@)
    &&& crate::paths::below(cwd, session.cwd)
}


/// A value within so many lists.
pub open spec fn within_lists(value: JsonTree, layers: nat) -> JsonTree
    decreases layers,
{
    if layers == 0 {
        value
    } else {
        JsonTree::List(seq![within_lists(value, (layers - 1) as nat)])
    }
}

proof fn found_through_lists(value: JsonTree, layers: nat, fuel: nat)
    ensures
        fuel >= layers ==> agent::id_in(within_lists(value, layers), fuel) == agent::id_in(
            value,
            (fuel - layers) as nat,
        ),
        fuel < layers ==> agent::id_in(within_lists(value, layers), fuel) is None,
    decreases layers,
{
    if layers > 0 && fuel > 0 {
        let inner = within_lists(value, (layers - 1) as nat);
        found_through_lists(value, (layers - 1) as nat, (fuel - 1) as nat);
        let items = seq![inner];
        assert(items.drop_first() =~= Seq::empty());
        reveal_with_fuel(agent::id_among, 2);
        assert(agent::id_among(items, (fuel - 1) as nat) == agent::id_in(inner, (fuel - 1) as nat));
    }
}

/// The identifier of an execution is found where a response has it, also in the
/// execution that the response holds, and through up to eight layers round
/// that, but no further.
pub proof fn an_identifier_is_looked_for_eight_deep(
    value: &Json,
    response: JsonTree,
    inner: JsonTree,
    id: Seq<char>,
    layers: nat,
    found: Option<String>,
)
    requires
        call_ensures(agent::find_execution_id, (value,), found),
        value@ == within_lists(response, layers),
        json::field(response, "execution_id"@) == Some(JsonTree::Text(id)) || (json::field(
            response,
            "execution_id"@,
        ) is None && json::field(response, "execution"@) == Some(inner) && json::field(
            inner,
            "id"@,
        ) == Some(JsonTree::Text(id))),
    ensures
        layers <= 8 ==> (found matches Some(text) && text@ == id),
        layers > 8 ==> found is None,
{
    found_through_lists(response, layers, 9);
}

/// What is handed over as a text is looked through like what it writes, and so
/// is every member of an object that has no identifier of its own.
pub proof fn an_identifier_is_found_inside(
    text: Seq<char>,
    inner: JsonTree,
    key: Seq<char>,
    fuel: nat,
)
    requires
        key != "execution_id"@ && key != "execution"@,
        vstd::utf8::encode_utf8(text).len() <= 1024 * 1024,
        json::json_reading(text) == Ok::<JsonTree, Seq<char>>(inner),
    ensures
        agent::id_in(JsonTree::Text(text), fuel + 1) == agent::id_in(inner, fuel),
        agent::id_in(JsonTree::Object(seq![(key, inner)]), fuel + 1) == agent::id_in(inner, fuel),
{
    let members = seq![(key, inner)];
    assert(members.drop_first() =~= Seq::empty());
    order::position_missing(members, json::has_key("execution_id"@));
    order::position_missing(members, json::has_key("execution"@));
    let values = members.map_values(|member: (Seq<char>, JsonTree)| member.1);
    assert(values.drop_first() =~= Seq::empty());
    assert(values[0] == inner);
    reveal_with_fuel(agent::id_among, 2);
    assert(agent::id_among(values, fuel) == agent::id_in(inner, fuel));
}

/// A command in the agent's own shell is denied exactly while commands are to
/// go through this runtime strictly, before the command is run.
pub proof fn the_shell_of_an_agent_is_denied(
    routing: Option<&str>,
    input: &Json,
    answer: Option<Json>,
)
    requires
        call_ensures(agent::deny_native_shell, (routing, input), answer),
    ensures
        answer is Some == ((routing matches Some(mode) && mode@ == "strict"@) && hook_is(
            input@,
            "PreToolUse"@,
        ) && hook_says(input@, "tool_name"@, "Bash"@)),
        answer matches Some(told) ==> (json::field(told@, "hookSpecificOutput"@) matches Some(
            decision,
        ) && json::field(decision, "permissionDecision"@) == Some(JsonTree::Text("deny"@))
            && json::field(decision, "hookEventName"@) == Some(JsonTree::Text("PreToolUse"@))),
{
    if answer is Some {
        let told = answer->0@;
        let members = told->Object_0;
        order::position_found(members, json::has_key("hookSpecificOutput"@), 0);
        let inner = members[0].1->Object_0;
        reveal_strlit("permissionDecision");
        reveal_strlit("hookEventName");
        assert("permissionDecision"@.len() != "hookEventName"@.len());
        order::position_found(inner, json::has_key("hookEventName"@), 0);
        order::position_found(inner, json::has_key("permissionDecision"@), 1);
    }
}

/// The directory that an agent works in is the one that its hook names.
pub proof fn a_hook_names_its_directory(input: &Json, cwd: Option<&str>, directory: Seq<char>)
    requires
        call_ensures(agent::hook_cwd, (input,), cwd),
    ensures
        hook_says(input@, "cwd"@, directory) ==> (cwd matches Some(named) && named@ == directory),
        json::field(input@, "cwd"@) is None ==> cwd is None,
{
}

} // verus!
