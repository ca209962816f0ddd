//! Recorded agent sessions in the store, with the turns and actions that an
//! agent reports while it is recorded.

use vstd::prelude::*;

use crate::error;
use crate::error::{Error, ErrorView};
use crate::model;
use crate::model::{
    AgentActionState, AgentActionView, AgentEventRequestView, AgentEventView, AgentSession,
    AgentSessionFinish, AgentSessionFinishView, AgentSessionRequest, AgentSessionRequestView,
    AgentSessionState, AgentSessionView, AgentTurnState, AgentTurnView, ExecutionOutcome,
};
use crate::order;
use crate::paths;
use crate::paths::path_starts_with;
use crate::store::executions;
use crate::store::executions::elapsed_ms;
use crate::store::rows;
use crate::store::rows::{Database, DatabaseView, ExecutionRowView, SessionRow, SessionRowView};
use crate::store::workspaces;
use crate::text::{clone_maybe, same_text};

verus! {

/// What clients see of a stored session.
pub open spec fn session_of(row: SessionRowView) -> AgentSessionView {
    AgentSessionView {
        id: row.id,
        workspace_id: row.workspace_id,
        state: row.state,
        agent_kind: row.agent_kind,
        name: row.name,
        command: row.command,
        command_display: model::shown_command(row.command),
        cwd: row.cwd,
        created_at_ms: row.created_at_ms,
        ended_at_ms: row.ended_at_ms,
        duration_ms: match row.ended_at_ms {
            Some(ended) => Some(executions::elapsed(row.created_at_ms, ended)),
            None => None,
        },
        recorder_pid: row.recorder_pid,
        outcome: row.outcome,
        captured_bytes: row.captured_bytes,
        output_truncated: row.output_truncated,
        initial_cols: row.initial_cols,
        initial_rows: row.initial_rows,
        cast_path: row.cast_path,
        html_path: row.html_path,
    }
}

/// What clients see of a stored session.
pub fn agent_session_from_row(row: &SessionRow) -> (session: AgentSession)
    ensures
        session@ == session_of(row@),
{
    let duration_ms = match row.ended_at_ms {
        Some(ended) => Some(elapsed_ms(row.created_at_ms, ended)),
        None => None,
    };
    let outcome = match &row.outcome {
        Some(outcome) => Some(outcome.clone()),
        None => None,
    };
    AgentSession {
        id: row.id.clone(),
        workspace_id: row.workspace_id.clone(),
        state: row.state,
        agent_kind: row.agent_kind.clone(),
        name: clone_maybe(&row.name),
        command: row.command.clone(),
        command_display: row.command.display(),
        cwd: row.cwd.clone(),
        created_at_ms: row.created_at_ms,
        ended_at_ms: row.ended_at_ms,
        duration_ms,
        recorder_pid: row.recorder_pid,
        outcome,
        captured_bytes: row.captured_bytes,
        output_truncated: row.output_truncated,
        initial_cols: row.initial_cols,
        initial_rows: row.initial_rows,
        cast_path: row.cast_path.clone(),
        html_path: row.html_path.clone(),
    }
}

/// The row of a session that begins.
pub open spec fn recording_row(
    request: AgentSessionRequestView,
    workspace_id: Seq<char>,
    cwd: Seq<char>,
    now: i64,
) -> SessionRowView {
    SessionRowView {
        id: request.id,
        workspace_id,
        state: AgentSessionState::Recording,
        agent_kind: request.agent_kind,
        name: request.name,
        command: request.command,
        cwd,
        created_at_ms: now,
        ended_at_ms: None,
        recorder_pid: request.recorder_pid,
        outcome: None,
        captured_bytes: 0,
        output_truncated: false,
        initial_cols: request.initial_cols,
        initial_rows: request.initial_rows,
        cast_path: request.cast_path,
        html_path: request.html_path,
    }
}

/// Beginning to record a session whose working directory is `cwd`, with its
/// links resolved.
pub open spec fn create_session_step(
    db: DatabaseView,
    request: AgentSessionRequestView,
    cwd: Seq<char>,
    now: i64,
) -> (DatabaseView, Result<AgentSessionView, ErrorView>) {
    if model::session_fault(request) is Some {
        (db, Err(model::session_fault(request)->0))
    } else {
        match workspaces::registered(db, request.workspace_id) {
            Err(error) => (db, Err(error)),
            Ok(workspace) => if !paths::below(cwd, workspace.root) {
                (
                    db,
                    Err(ErrorView::OutsideWorkspace { path: cwd, workspace: workspace.root }),
                )
            } else if rows::session_place(db, request.id) is Some {
                (db, Err(ErrorView::Database("UNIQUE constraint failed: agent_sessions.id"@)))
            } else {
                let row = recording_row(request, workspace.id, cwd, now);
                (DatabaseView { sessions: db.sessions.push(row), ..db }, Ok(session_of(row)))
            },
        }
    }
}

/// What is wrong with the report that a recording ended, if anything.
pub open spec fn finish_fault(finish: AgentSessionFinishView) -> Option<ErrorView> {
    if finish.state == AgentSessionState::Recording {
        Some(error::refused("finished agent session must use a terminal state"@))
    } else if (finish.state == AgentSessionState::Interrupted) != (finish.outcome is Interrupted) {
        Some(error::refused("interrupted agent session state and outcome must agree"@))
    } else {
        None
    }
}

/// The row of a session whose recording ended.
pub open spec fn finished_session_row(
    row: SessionRowView,
    finish: AgentSessionFinishView,
    now: i64,
) -> SessionRowView {
    SessionRowView {
        state: finish.state,
        ended_at_ms: Some(now),
        outcome: Some(finish.outcome),
        captured_bytes: if finish.captured_bytes > i64::MAX {
            0
        } else {
            finish.captured_bytes
        },
        output_truncated: finish.output_truncated,
        ..row
    }
}

/// A turn that was cut off.
pub open spec fn cut_turn(turn: AgentTurnView, now: i64) -> AgentTurnView {
    AgentTurnView { state: AgentTurnState::Interrupted, ended_at_ms: Some(now), ..turn }
}

/// Ending a recording: the session gets its outcome, and its turns that were
/// still active are cut off. A session that has ended stays as it is.
pub open spec fn finish_session_step(
    db: DatabaseView,
    id: Seq<char>,
    finish: AgentSessionFinishView,
    now: i64,
) -> (DatabaseView, Result<AgentSessionView, ErrorView>) {
    if finish_fault(finish) is Some {
        (db, Err(finish_fault(finish)->0))
    } else {
        match rows::session_place(db, id) {
            None => (db, Err(ErrorView::AgentSessionNotFound(id))),
            Some(at) => if db.sessions[at].state != AgentSessionState::Recording {
                (db, Ok(session_of(db.sessions[at])))
            } else {
                let row = finished_session_row(db.sessions[at], finish, now);
                (
                    DatabaseView {
                        sessions: db.sessions.update(at, row),
                        turns: db.turns.map_values(
                            |turn: AgentTurnView|
                                if turn.session_id == id && turn.state == AgentTurnState::Active {
                                    cut_turn(turn, now)
                                } else {
                                    turn
                                },
                        ),
                        ..db
                    },
                    Ok(session_of(row)),
                )
            },
        }
    }
}

/// Whether a turn belongs to the conversation that an event speaks of.
pub open spec fn same_thread(turn: AgentTurnView, request: AgentEventRequestView) -> bool {
    turn.session_id == request.session_id && turn.provider == request.provider
        && turn.provider_session_id == request.provider_session_id
}

/// The place of the turn that an event names.
pub open spec fn named_turn(db: DatabaseView, request: AgentEventRequestView) -> Option<int> {
    match request.provider_turn_id {
        None => None,
        Some(id) => order::position(
            db.turns,
            |turn: AgentTurnView| same_thread(turn, request) && turn.provider_turn_id == Some(id),
        ),
    }
}

/// The place of the newest active turn of the conversation, of equally new
/// ones the last.
pub open spec fn active_turn(turns: Seq<AgentTurnView>, request: AgentEventRequestView) -> Option<
    int,
>
    decreases turns.len(),
{
    if turns.len() == 0 {
        None
    } else {
        let before = active_turn(turns.drop_last(), request);
        let last = turns.last();
        if same_thread(last, request) && last.state == AgentTurnState::Active && (match before {
            Some(at) => last.created_at_ms >= turns[at].created_at_ms,
            None => true,
        }) {
            Some(turns.len() - 1)
        } else {
            before
        }
    }
}

/// A turn that begins.
pub open spec fn fresh_turn(
    request: AgentEventRequestView,
    prompt: Seq<char>,
    id: Seq<char>,
    now: i64,
) -> AgentTurnView {
    AgentTurnView {
        id,
        session_id: request.session_id,
        provider: request.provider,
        provider_session_id: request.provider_session_id,
        provider_turn_id: request.provider_turn_id,
        state: AgentTurnState::Active,
        prompt,
        created_at_ms: now,
        ended_at_ms: None,
        last_assistant_message: None,
    }
}

/// Whether a turn has this identifier.
pub open spec fn turn_taken(db: DatabaseView, id: Seq<char>) -> bool {
    order::position(db.turns, |turn: AgentTurnView| turn.id == id) is Some
}

/// Whether an action has this identifier.
pub open spec fn action_taken(db: DatabaseView, id: Seq<char>) -> bool {
    order::position(db.actions, |action: AgentActionView| action.id == id) is Some
}

/// Adding a turn.
pub open spec fn insert_turn(
    db: DatabaseView,
    request: AgentEventRequestView,
    prompt: Seq<char>,
    id: Seq<char>,
    now: i64,
) -> (DatabaseView, Result<int, ErrorView>) {
    if turn_taken(db, id) {
        (db, Err(ErrorView::Database("UNIQUE constraint failed: agent_turns.id"@)))
    } else {
        (
            DatabaseView { turns: db.turns.push(fresh_turn(request, prompt, id, now)), ..db },
            Ok(db.turns.len() as int),
        )
    }
}

/// The turn that an event belongs to: the one it names, or else the newest
/// active one of the conversation. Where there is none, one begins.
pub open spec fn turn_for(
    db: DatabaseView,
    request: AgentEventRequestView,
    id: Seq<char>,
    now: i64,
) -> (DatabaseView, Result<int, ErrorView>) {
    let existing = if request.provider_turn_id is Some {
        named_turn(db, request)
    } else {
        active_turn(db.turns, request)
    };
    match existing {
        Some(at) => (db, Ok(at)),
        None => insert_turn(db, request, Seq::empty(), id, now),
    }
}

/// Turns of the conversation that a new prompt cuts off: the active ones,
/// other than the one that the prompt names.
pub open spec fn superseded(turns: Seq<AgentTurnView>, request: AgentEventRequestView, now: i64) -> Seq<
    AgentTurnView,
> {
    turns.map_values(
        |turn: AgentTurnView|
            if same_thread(turn, request) && turn.state == AgentTurnState::Active && (
            request.provider_turn_id is None || turn.provider_turn_id is None
                || turn.provider_turn_id != request.provider_turn_id) {
                cut_turn(turn, now)
            } else {
                turn
            },
    )
}

/// The place of an action of a turn.
pub open spec fn action_place(
    db: DatabaseView,
    turn_id: Seq<char>,
    provider_action_id: Seq<char>,
) -> Option<int> {
    order::position(
        db.actions,
        |action: AgentActionView|
            action.turn_id == turn_id && action.provider_action_id == provider_action_id,
    )
}

/// The store with an action recorded: the one that the agent named before is
/// renewed by `renewed`, else `fresh` is added.
pub open spec fn put_action(
    db: DatabaseView,
    fresh: AgentActionView,
    renewed: spec_fn(AgentActionView) -> AgentActionView,
) -> (DatabaseView, Option<ErrorView>) {
    match action_place(db, fresh.turn_id, fresh.provider_action_id) {
        Some(at) => (
            DatabaseView { actions: db.actions.update(at, renewed(db.actions[at])), ..db },
            None,
        ),
        None => if action_taken(db, fresh.id) {
            (db, Some(ErrorView::Database("UNIQUE constraint failed: agent_actions.id"@)))
        } else {
            (DatabaseView { actions: db.actions.push(fresh), ..db }, None)
        },
    }
}

/// The execution that a finished action is linked to: the one it names, where
/// that one was run under the same session.
pub open spec fn linked_execution(
    db: DatabaseView,
    execution_id: Option<Seq<char>>,
    session_id: Seq<char>,
) -> Option<Seq<char>> {
    match execution_id {
        None => None,
        Some(id) => if order::position(
            db.executions,
            |row: ExecutionRowView| row.id == id && row.session_id == Some(session_id),
        ) is Some {
            Some(id)
        } else {
            None
        },
    }
}

/// What a tool call that begins does to the action.
pub open spec fn restarted(tool_name: Seq<char>) -> spec_fn(AgentActionView) -> AgentActionView {
    |action: AgentActionView|
        AgentActionView {
            tool_name,
            state: AgentActionState::Running,
            ended_at_ms: None,
            ..action
        }
}

/// What a tool call that ends does to the action.
pub open spec fn completed(
    tool_name: Seq<char>,
    state: AgentActionState,
    execution_id: Option<Seq<char>>,
    now: i64,
) -> spec_fn(AgentActionView) -> AgentActionView {
    |action: AgentActionView|
        AgentActionView {
            tool_name,
            state,
            execution_id: match execution_id {
                Some(id) => Some(id),
                None => action.execution_id,
            },
            ended_at_ms: Some(now),
            ..action
        }
}

/// The state of an action or of a turn after it ended.
pub open spec fn ended_action(failed: bool) -> AgentActionState {
    if failed {
        AgentActionState::Failed
    } else {
        AgentActionState::Completed
    }
}

/// The turn as it is after the agent reported its end.
pub open spec fn ended_turn(
    turn: AgentTurnView,
    failed: bool,
    message: Option<Seq<char>>,
    now: i64,
) -> AgentTurnView {
    AgentTurnView {
        state: if failed {
            AgentTurnState::Failed
        } else {
            AgentTurnState::Completed
        },
        ended_at_ms: Some(now),
        last_assistant_message: message,
        ..turn
    }
}

/// What an event does to the store, when its session is recording.
pub open spec fn event_effect(
    db: DatabaseView,
    request: AgentEventRequestView,
    turn_id: Seq<char>,
    action_id: Seq<char>,
    now: i64,
) -> (DatabaseView, Result<AgentTurnView, ErrorView>) {
    match request.event {
        AgentEventView::PromptSubmitted { prompt } => {
            let cut = DatabaseView { turns: superseded(db.turns, request, now), ..db };
            match named_turn(cut, request) {
                Some(at) => {
                    let turn = AgentTurnView {
                        state: AgentTurnState::Active,
                        prompt,
                        ended_at_ms: None,
                        last_assistant_message: None,
                        ..cut.turns[at]
                    };
                    (DatabaseView { turns: cut.turns.update(at, turn), ..cut }, Ok(turn))
                },
                None => match insert_turn(cut, request, prompt, turn_id, now) {
                    (after, Ok(at)) => (after, Ok(after.turns[at])),
                    (after, Err(error)) => (after, Err(error)),
                },
            }
        },
        AgentEventView::ToolStarted { action_id: named, tool_name } => match turn_for(
            db,
            request,
            turn_id,
            now,
        ) {
            (after, Err(error)) => (after, Err(error)),
            (after, Ok(at)) => {
                let fresh = AgentActionView {
                    id: action_id,
                    turn_id: after.turns[at].id,
                    provider_action_id: named,
                    tool_name,
                    state: AgentActionState::Running,
                    execution_id: None,
                    created_at_ms: now,
                    ended_at_ms: None,
                };
                match put_action(after, fresh, restarted(tool_name)) {
                    (done, Some(error)) => (done, Err(error)),
                    (done, None) => (done, Ok(after.turns[at])),
                }
            },
        },
        AgentEventView::ToolFinished { action_id: named, tool_name, failed, execution_id } =>
        match turn_for(db, request, turn_id, now) {
            (after, Err(error)) => (after, Err(error)),
            (after, Ok(at)) => {
                let linked = linked_execution(after, execution_id, request.session_id);
                let fresh = AgentActionView {
                    id: action_id,
                    turn_id: after.turns[at].id,
                    provider_action_id: named,
                    tool_name,
                    state: ended_action(failed),
                    execution_id: linked,
                    created_at_ms: now,
                    ended_at_ms: Some(now),
                };
                match put_action(
                    after,
                    fresh,
                    completed(tool_name, ended_action(failed), linked, now),
                ) {
                    (done, Some(error)) => (done, Err(error)),
                    (done, None) => (done, Ok(after.turns[at])),
                }
            },
        },
        AgentEventView::TurnFinished { failed, last_assistant_message } => match turn_for(
            db,
            request,
            turn_id,
            now,
        ) {
            (after, Err(error)) => (after, Err(error)),
            (after, Ok(at)) => {
                let turn = ended_turn(after.turns[at], failed, last_assistant_message, now);
                (DatabaseView { turns: after.turns.update(at, turn), ..after }, Ok(turn))
            },
        },
    }
}

/// Recording an event that an agent reported; `turn_id` and `action_id` are
/// the identifiers for what it may add.
pub open spec fn record_event_step(
    db: DatabaseView,
    request: AgentEventRequestView,
    turn_id: Seq<char>,
    action_id: Seq<char>,
    now: i64,
) -> (DatabaseView, Result<AgentTurnView, ErrorView>) {
    if model::agent_event_fault(request) is Some {
        (db, Err(model::agent_event_fault(request)->0))
    } else {
        match rows::session_place(db, request.session_id) {
            None => (db, Err(ErrorView::AgentSessionNotFound(request.session_id))),
            Some(at) => if db.sessions[at].state != AgentSessionState::Recording {
                (
                    db,
                    Err(
                        error::refused(
                            "agent session "@ + request.session_id + " is no longer recording"@,
                        ),
                    ),
                )
            } else {
                event_effect(db, request, turn_id, action_id, now)
            },
        }
    }
}

impl Database {
    /// Begins to record a session.
    pub fn create_agent_session_at(
        &mut self,
        request: &AgentSessionRequest,
        cwd: &str,
        now: i64,
    ) -> (created: Result<AgentSession, Error>)
        ensures
            (final(self)@, error::viewed(created)) == create_session_step(
                old(self)@,
                request@,
                cwd@,
                now,
            ),
    {
        match request.validate() {
            Err(error) => {
                return Err(error);
            },
            Ok(()) => {},
        }
        let workspace = match self.get_workspace(request.workspace_id.as_str()) {
            Ok(workspace) => workspace,
            Err(error) => {
                return Err(error);
            },
        };
        if !path_starts_with(cwd, workspace.root.as_str()) {
            return Err(
                Error::OutsideWorkspace { path: cwd.to_owned(), workspace: workspace.root },
            );
        }
        if self.find_session(request.id.as_str()).is_some() {
            return Err(Error::Database("UNIQUE constraint failed: agent_sessions.id".to_owned()));
        }
        let row = SessionRow {
            id: request.id.clone(),
            workspace_id: workspace.id,
            state: AgentSessionState::Recording,
            agent_kind: request.agent_kind.clone(),
            name: clone_maybe(&request.name),
            command: request.command.clone(),
            cwd: cwd.to_owned(),
            created_at_ms: now,
            ended_at_ms: None,
            recorder_pid: request.recorder_pid,
            outcome: None,
            captured_bytes: 0,
            output_truncated: false,
            initial_cols: request.initial_cols,
            initial_rows: request.initial_rows,
            cast_path: request.cast_path.clone(),
            html_path: request.html_path.clone(),
        };
        let session = agent_session_from_row(&row);
        self.sessions.push(row);
        assert(self@.sessions =~= old(self)@.sessions.push(row@));
        Ok(session)
    }

    fn cut_active_turns(&mut self, id: &str, now: i64)
        ensures
            final(self)@ == (DatabaseView {
                turns: old(self)@.turns.map_values(
                    |turn: AgentTurnView|
                        if turn.session_id == id@ && turn.state == AgentTurnState::Active {
                            cut_turn(turn, now)
                        } else {
                            turn
                        },
                ),
                ..old(self)@
            }),
    {
        let ghost start = self@.turns;
        let ghost goal = start.map_values(
            |turn: AgentTurnView|
                if turn.session_id == id@ && turn.state == AgentTurnState::Active {
                    cut_turn(turn, now)
                } else {
                    turn
                },
        );
        let mut i: usize = 0;
        while i < self.turns.len()
            invariant
                i <= self.turns.len(),
                self.turns.len() == start.len(),
                goal.len() == start.len(),
                self@.workspaces == old(self)@.workspaces,
                self@.executions == old(self)@.executions,
                self@.sessions == old(self)@.sessions,
                self@.actions == old(self)@.actions,
                forall|k: int| 0 <= k < i ==> #[trigger] self@.turns[k] == goal[k],
                forall|k: int| i <= k < start.len() ==> #[trigger] self@.turns[k] == start[k],
            decreases self.turns.len() - i,
        {
            let ghost held = self.turns@;
            let ghost shown = self@.turns;
            assert(shown[i as int] == held[i as int]@);
            if same_text(self.turns[i].session_id.as_str(), id) && self.turns[i].state
                == AgentTurnState::Active {
                let turn = &mut self.turns[i];
                turn.state = AgentTurnState::Interrupted;
                turn.ended_at_ms = Some(now);
            }
            assert(self.turns@[i as int]@ == goal[i as int]);
            assert forall|k: int| 0 <= k < start.len() && k != i implies
                #[trigger] self@.turns[k] == shown[k] by {
                assert(self.turns@[k] == held[k]);
            }
            i += 1;
        }
        assert(self@.turns =~= goal);
    }

    /// Ends the recording of a session.
    pub fn finish_agent_session_at(&mut self, id: &str, finish: &AgentSessionFinish, now: i64) -> (finished: Result<
        AgentSession,
        Error,
    >)
        ensures
            (final(self)@, error::viewed(finished)) == finish_session_step(
                old(self)@,
                id@,
                finish@,
                now,
            ),
    {
        if finish.state == AgentSessionState::Recording {
            return Err(
                Error::InvalidRequest(
                    "finished agent session must use a terminal state".to_owned(),
                ),
            );
        }
        let interrupted = match &finish.outcome {
            ExecutionOutcome::Interrupted { reason } => true,
            ExecutionOutcome::Exited { code } => false,
            ExecutionOutcome::Signaled { signal } => false,
            ExecutionOutcome::SpawnError { message } => false,
            ExecutionOutcome::Cancelled { signal } => false,
        };
        if (finish.state == AgentSessionState::Interrupted) != interrupted {
            return Err(
                Error::InvalidRequest(
                    "interrupted agent session state and outcome must agree".to_owned(),
                ),
            );
        }
        proof {
            order::position_is_first(self@.sessions, |row: SessionRowView| row.id == id@);
        }
        match self.find_session(id) {
            None => Err(Error::AgentSessionNotFound(id.to_owned())),
            Some(at) => {
                assert(self@.sessions[at as int] == self.sessions@[at as int]@);
                if self.sessions[at].state.is_terminal() {
                    return Ok(agent_session_from_row(&self.sessions[at]));
                }
                let outcome = finish.outcome.clone();
                let captured_bytes: u64 = if finish.captured_bytes > i64::MAX as u64 {
                    0
                } else {
                    finish.captured_bytes
                };
                let row = &mut self.sessions[at];
                row.state = finish.state;
                row.ended_at_ms = Some(now);
                row.outcome = Some(outcome);
                row.captured_bytes = captured_bytes;
                row.output_truncated = finish.output_truncated;
                proof {
                    let before = old(self)@.sessions[at as int];
                    assert(self.sessions@[at as int]@ == finished_session_row(
                        before,
                        finish@,
                        now,
                    ));
                    assert(self@.sessions =~= old(self)@.sessions.update(
                        at as int,
                        finished_session_row(before, finish@, now),
                    ));
                }
                self.cut_active_turns(id, now);
                assert(self@.sessions[at as int] == self.sessions@[at as int]@);
                Ok(agent_session_from_row(&self.sessions[at]))
            },
        }
    }
}

} // verus!
