//! What is recorded of a session, from its beginning to its removal.

use vstd::prelude::*;

use crate::model::{
    AgentSessionFinishView, AgentSessionRequestView, AgentSessionState, AgentTurnState,
    CommandSpecView,
};
use crate::order;
use crate::paths;
use crate::store::rows::{DatabaseView, SessionRowView, WorkspaceRowView};
use crate::store::session_reading;
use crate::store::sessions;
use crate::store::workspaces;
use crate::text;

verus! {

/// What clients see of a session is what is stored, and how long it was
/// recorded.
pub proof fn clients_see_the_session(row: SessionRowView)
    ensures
        ({
            let shown = sessions::session_of(row);
            &&& shown.id == row.id
            &&& shown.workspace_id == row.workspace_id
            &&& shown.state == row.state
            &&& shown.agent_kind == row.agent_kind
            &&& shown.name == row.name
            &&& shown.command == row.command
            &&& shown.cwd == row.cwd
            &&& shown.created_at_ms == row.created_at_ms
            &&& shown.ended_at_ms == row.ended_at_ms
            &&& shown.recorder_pid == row.recorder_pid
            &&& shown.outcome == row.outcome
            &&& shown.captured_bytes == row.captured_bytes
            &&& shown.output_truncated == row.output_truncated
            &&& shown.initial_cols == row.initial_cols && shown.initial_rows == row.initial_rows
            &&& shown.cast_path == row.cast_path && shown.html_path == row.html_path
            &&& match (row.ended_at_ms, shown.duration_ms) {
                (Some(to), Some(took)) => row.created_at_ms <= to && to - row.created_at_ms
                    <= i64::MAX ==> took == to - row.created_at_ms,
                (None, None) => true,
                _ => false,
            }
        }),
{
}

/// Whether a request to record a session is in order by itself.
pub open spec fn can_be_recorded(request: AgentSessionRequestView) -> bool {
    &&& request.id.len() > 0 && request.workspace_id.len() > 0 && !text::blank(request.agent_kind)
    &&& request.initial_cols > 0 && request.initial_rows > 0
    &&& match request.command {
        CommandSpecView::Argv { program, args } => program.len() > 0,
        CommandSpecView::Shell { command, shell } => command.len() > 0,
    }
}

/// A session that begins is recorded as it was asked for, in its workspace and
/// its directory, behind what is there. It begins where the request is in
/// order, the workspace is registered, the directory lies in it and the
/// identifier is free; else nothing changes.
pub proof fn a_session_begins(
    db: DatabaseView,
    request: AgentSessionRequestView,
    cwd: Seq<char>,
    now: i64,
)
    ensures
        ({
            let (after, answer) = sessions::create_session_step(db, request, cwd, now);
            match answer {
                Ok(session) => {
                    &&& after == (DatabaseView { sessions: after.sessions, ..db })
                    &&& after.sessions.len() == db.sessions.len() + 1
                    &&& after.sessions.drop_last() == db.sessions
                    &&& session == sessions::session_of(after.sessions.last())
                    &&& session.id == request.id
                    &&& session.agent_kind == request.agent_kind
                    &&& session.name == request.name
                    &&& session.command == request.command
                    &&& session.cwd == cwd
                    &&& session.state == AgentSessionState::Recording
                    &&& session.created_at_ms == now && session.ended_at_ms is None
                    &&& session.outcome is None && session.captured_bytes == 0
                        && !session.output_truncated
                    &&& session.recorder_pid == request.recorder_pid
                    &&& session.initial_cols == request.initial_cols && session.initial_rows
                        == request.initial_rows
                    &&& session.cast_path == request.cast_path && session.html_path
                        == request.html_path
                    &&& can_be_recorded(request)
                    &&& exists|w: int|
                        0 <= w < db.workspaces.len() && (#[trigger] db.workspaces[w]).active
                            && db.workspaces[w].workspace.id == session.workspace_id
                            && paths::below(cwd, db.workspaces[w].workspace.root)
                },
                Err(error) => after == db,
            }
        }),
        can_be_recorded(request) && (forall|s: int|
            0 <= s < db.sessions.len() ==> (#[trigger] db.sessions[s]).id != request.id) && (
        workspaces::registered(db, request.workspace_id) matches Ok(workspace) && paths::below(
            cwd,
            workspace.root,
        )) ==> sessions::create_session_step(db, request, cwd, now).1 is Ok,
{
    let (after, answer) = sessions::create_session_step(db, request, cwd, now);
    order::position_is_first(db.sessions, |row: SessionRowView| row.id == request.id);
    order::position_is_first(
        db.workspaces,
        |row: WorkspaceRowView|
            row.active && crate::store::rows::goes_by(row.workspace, request.workspace_id),
    );
    if answer is Ok {
        assert(after.sessions.drop_last() =~= db.sessions);
        let w = crate::store::rows::registered_place(db, request.workspace_id)->0;
        assert(db.workspaces[w].active);
    }
}

/// A recording that ends gets its state, its outcome and its end, and of its
/// turns those that were active are cut off; nothing else changes. A session
/// that has ended stays as it is, whatever is reported of it later.
pub proof fn a_session_ends(
    db: DatabaseView,
    id: Seq<char>,
    finish: AgentSessionFinishView,
    now: i64,
    at: int,
)
    requires
        order::first_at(db.sessions, |row: SessionRowView| row.id == id, at),
        finish.state != AgentSessionState::Recording,
        (finish.state == AgentSessionState::Interrupted) == (finish.outcome is Interrupted),
    ensures
        ({
            let (after, answer) = sessions::finish_session_step(db, id, finish, now);
            let row = db.sessions[at];
            &&& answer matches Ok(session) && session == sessions::session_of(after.sessions[at])
            &&& after.workspaces == db.workspaces && after.executions == db.executions
                && after.actions == db.actions
            &&& if row.state != AgentSessionState::Recording {
                after == db
            } else {
                let new = after.sessions[at];
                &&& after.sessions == db.sessions.update(at, new)
                &&& new.state == finish.state
                &&& new.outcome == Some(finish.outcome)
                &&& new.ended_at_ms == Some(now)
                &&& finish.captured_bytes <= i64::MAX ==> new.captured_bytes
                    == finish.captured_bytes
                &&& new.output_truncated == finish.output_truncated
                &&& new.id == row.id && new.workspace_id == row.workspace_id && new.agent_kind
                    == row.agent_kind && new.name == row.name && new.command == row.command
                    && new.cwd == row.cwd && new.created_at_ms == row.created_at_ms
                    && new.cast_path == row.cast_path && new.html_path == row.html_path
                &&& after.turns.len() == db.turns.len()
                &&& forall|t: int|
                    0 <= t < db.turns.len() ==> {
                        let turn = db.turns[t];
                        let now_is = #[trigger] after.turns[t];
                        if turn.session_id == id && turn.state == AgentTurnState::Active {
                            now_is.state == AgentTurnState::Interrupted
                                && now_is.ended_at_ms == Some(now) && now_is.prompt == turn.prompt
                                && now_is.id == turn.id
                        } else {
                            now_is == turn
                        }
                    }
            }
        }),
{
    order::position_found(db.sessions, |row: SessionRowView| row.id == id, at);
}

/// A session that has ended is removed with its turns and their actions, and
/// with nothing else; one that is still being recorded is not removed.
pub proof fn a_session_is_removed(db: DatabaseView, id: Seq<char>, at: int)
    requires
        order::first_at(db.sessions, |row: SessionRowView| row.id == id, at),
    ensures
        ({
            let (after, answer) = session_reading::delete_session_step(db, id);
            if db.sessions[at].state == AgentSessionState::Recording {
                answer is Err && after == db
            } else {
                &&& answer is Ok
                &&& after.workspaces == db.workspaces
                &&& after.executions.len() == db.executions.len()
                &&& forall|s: int|
                    0 <= s < after.sessions.len() ==> (#[trigger] after.sessions[s]).id != id
                        && db.sessions.contains(after.sessions[s])
                &&& forall|s: int|
                    0 <= s < db.sessions.len() && (#[trigger] db.sessions[s]).id != id
                        ==> after.sessions.contains(db.sessions[s])
                &&& forall|t: int|
                    0 <= t < after.turns.len() ==> (#[trigger] after.turns[t]).session_id != id
                        && db.turns.contains(after.turns[t])
                &&& forall|t: int|
                    0 <= t < db.turns.len() && (#[trigger] db.turns[t]).session_id != id
                        ==> after.turns.contains(db.turns[t])
            }
        }),
{
    order::position_found(db.sessions, |row: SessionRowView| row.id == id, at);
    let keep = |i: int| db.sessions[i].id != id;
    let stay = |i: int| db.turns[i].session_id != id;
    order::retained_is_exact(db.sessions, keep, 0);
    order::retained_is_exact(db.turns, stay, 0);
    let (after, answer) = session_reading::delete_session_step(db, id);
    if answer is Ok {
        assert forall|s: int| 0 <= s < after.sessions.len() implies (
        #[trigger] after.sessions[s]).id != id && db.sessions.contains(after.sessions[s]) by {
            assert(order::kept_entry(db.sessions, keep, 0, after.sessions[s]));
        }
        assert forall|s: int| 0 <= s < db.sessions.len() && (#[trigger] db.sessions[s]).id
            != id implies after.sessions.contains(db.sessions[s]) by {
            assert(keep(s));
        }
        assert forall|t: int| 0 <= t < after.turns.len() implies (
        #[trigger] after.turns[t]).session_id != id && db.turns.contains(after.turns[t]) by {
            assert(order::kept_entry(db.turns, stay, 0, after.turns[t]));
        }
        assert forall|t: int| 0 <= t < db.turns.len() && (#[trigger] db.turns[t]).session_id
            != id implies after.turns.contains(db.turns[t]) by {
            assert(stay(t));
        }
    }
}

/// The end of a recording is taken only where it is one: its state says that it
/// is over, and says that it was cut off exactly where its outcome does. Else
/// nothing changes.
pub proof fn only_an_end_ends_a_recording(
    db: DatabaseView,
    id: Seq<char>,
    finish: AgentSessionFinishView,
    now: i64,
)
    ensures
        finish.state == AgentSessionState::Recording || (finish.state
            == AgentSessionState::Interrupted) != (finish.outcome is Interrupted)
            ==> sessions::finish_session_step(db, id, finish, now).1 is Err
            && sessions::finish_session_step(db, id, finish, now).0 == db,
        (forall|s: int| 0 <= s < db.sessions.len() ==> (#[trigger] db.sessions[s]).id != id)
            ==> sessions::finish_session_step(db, id, finish, now).1 is Err
            && sessions::finish_session_step(db, id, finish, now).0 == db,
{
    order::position_is_first(db.sessions, |row: SessionRowView| row.id == id);
}

} // verus!
