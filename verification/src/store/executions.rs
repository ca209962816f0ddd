//! Executions in the store: their life from queued to ended, the events that
//! record it, and the pages in which events are read.

use vstd::prelude::*;

use crate::codec;
use crate::codec::encode_base64;
use crate::error;
use crate::error::{Error, ErrorView};
use crate::model;
use crate::model::{
    AgentSessionState, Execution, ExecutionEvent, ExecutionEventPayload, ExecutionEventPayloadView,
    ExecutionEventView, ExecutionOutcome, ExecutionOutcomeView, ExecutionRequest,
    ExecutionRequestView, ExecutionState, ExecutionView, OutputStream,
};
use crate::order;
use crate::store::rows;
use crate::store::rows::{
    Database, DatabaseView, ExecutionRow, ExecutionRowView, StoredEvent, StoredEventView,
    StoredPayload, StoredPayloadView,
};
use crate::text;
use crate::text::{clone_maybe, clone_texts, joined3, same_text};

verus! {

/// How long it took from one reading of the clock to another, in
/// milliseconds: nothing where the clock went back, and never more than the
/// clock itself can hold.
pub open spec fn elapsed(from: i64, to: i64) -> u64 {
    if to <= from {
        0
    } else if to - from > i64::MAX {
        i64::MAX as u64
    } else {
        (to - from) as u64
    }
}

/// How long it took from one reading of the clock to another.
pub fn elapsed_ms(from: i64, to: i64) -> (took: u64)
    ensures
        took == elapsed(from, to),
{
    if to <= from {
        0
    } else {
        let took: i128 = to as i128 - from as i128;
        if took > i64::MAX as i128 {
            i64::MAX as u64
        } else {
            took as u64
        }
    }
}

/// What clients see of a stored execution at the time `now`. An execution that
/// has started and not ended has run until now.
pub open spec fn execution_of(row: ExecutionRowView, now: i64) -> ExecutionView {
    ExecutionView {
        id: row.id,
        workspace_id: row.workspace_id,
        state: row.state,
        command: row.command,
        command_display: model::shown_command(row.command),
        cwd: row.cwd,
        env_keys: row.env_keys,
        initiator: row.initiator,
        created_at_ms: row.created_at_ms,
        started_at_ms: row.started_at_ms,
        ended_at_ms: row.ended_at_ms,
        duration_ms: match row.started_at_ms {
            Some(started) => Some(
                elapsed(
                    started,
                    match row.ended_at_ms {
                        Some(ended) => ended,
                        None => now,
                    },
                ),
            ),
            None => None,
        },
        pid: row.pid,
        pgid: row.pgid,
        outcome: row.outcome,
        captured_bytes: row.captured_bytes,
        output_truncated: row.output_truncated,
        last_seq: row.events.len() as u64,
    }
}

/// What clients see of a stored event. Output bytes travel as base64 text.
pub open spec fn event_of(id: Seq<char>, seq: u64, event: StoredEventView) -> ExecutionEventView {
    ExecutionEventView {
        execution_id: id,
        seq,
        timestamp_ms: event.timestamp_ms,
        payload: match event.payload {
            StoredPayloadView::Started { pid, pgid } => ExecutionEventPayloadView::Started {
                pid,
                pgid,
            },
            StoredPayloadView::Output { stream, data } => ExecutionEventPayloadView::Output {
                stream,
                data_base64: codec::base64_text(data),
            },
            StoredPayloadView::CaptureTruncated { limit_bytes } =>
                ExecutionEventPayloadView::CaptureTruncated { limit_bytes },
            StoredPayloadView::Finished { outcome } => ExecutionEventPayloadView::Finished {
                outcome,
            },
        },
    }
}

/// Whether an event hands its output over whole: decoding its text gives the
/// bytes that were stored.
pub open spec fn carries(event: ExecutionEventView, stored: StoredEventView) -> bool {
    match stored.payload {
        StoredPayloadView::Output { stream, data } => match event.payload {
            ExecutionEventPayloadView::Output { stream: shown, data_base64 } => shown == stream
                && codec::base64_decoding(data_base64) == codec::good(data),
            _ => false,
        },
        _ => true,
    }
}

/// What clients see of a stored execution.
pub fn execution_from_row(row: &ExecutionRow, now: i64) -> (execution: Execution)
    ensures
        execution@ == execution_of(row@, now),
{
    let duration_ms = match row.started_at_ms {
        Some(started) => match row.ended_at_ms {
            Some(ended) => Some(elapsed_ms(started, ended)),
            None => Some(elapsed_ms(started, now)),
        },
        None => None,
    };
    let outcome = match &row.outcome {
        Some(outcome) => Some(outcome.clone()),
        None => None,
    };
    Execution {
        id: row.id.clone(),
        workspace_id: row.workspace_id.clone(),
        state: row.state,
        command: row.command.clone(),
        command_display: row.command.display(),
        cwd: row.cwd.clone(),
        env_keys: clone_texts(&row.env_keys),
        initiator: row.initiator.clone(),
        created_at_ms: row.created_at_ms,
        started_at_ms: row.started_at_ms,
        ended_at_ms: row.ended_at_ms,
        duration_ms,
        pid: row.pid,
        pgid: row.pgid,
        outcome,
        captured_bytes: row.captured_bytes,
        output_truncated: row.output_truncated,
        last_seq: row.events.len() as u64,
    }
}

/// What clients see of a piece of output.
pub fn output_event(
    id: &str,
    seq: u64,
    timestamp_ms: i64,
    stream: OutputStream,
    data: &Vec<u8>,
) -> (event: ExecutionEvent)
    ensures
        event@ == event_of(
            id@,
            seq,
            StoredEventView {
                timestamp_ms,
                payload: StoredPayloadView::Output { stream, data: data@ },
            },
        ),
        event.payload matches ExecutionEventPayload::Output { stream: shown, data_base64 }
            && shown == stream && codec::base64_decoding(data_base64@) == codec::good(data@),
{
    ExecutionEvent {
        execution_id: id.to_owned(),
        seq,
        timestamp_ms,
        payload: ExecutionEventPayload::Output {
            stream,
            data_base64: encode_base64(data.as_slice()),
        },
    }
}

/// What clients see of a stored event.
pub fn event_from_row(id: &str, seq: u64, stored: &StoredEvent) -> (event: ExecutionEvent)
    ensures
        event@ == event_of(id@, seq, stored@),
        carries(event@, stored@),
{
    let payload = match &stored.payload {
        StoredPayload::Started { pid, pgid } => ExecutionEventPayload::Started {
            pid: *pid,
            pgid: *pgid,
        },
        StoredPayload::Output { stream, data } => {
            return output_event(id, seq, stored.timestamp_ms, *stream, data);
        },
        StoredPayload::CaptureTruncated { limit_bytes } =>
            ExecutionEventPayload::CaptureTruncated { limit_bytes: *limit_bytes },
        StoredPayload::Finished { outcome } => ExecutionEventPayload::Finished {
            outcome: outcome.clone(),
        },
    };
    ExecutionEvent { execution_id: id.to_owned(), seq, timestamp_ms: stored.timestamp_ms, payload }
}

/// The store with one execution replaced.
pub open spec fn with_execution(
    db: DatabaseView,
    at: int,
    row: ExecutionRowView,
) -> DatabaseView {
    DatabaseView { executions: db.executions.update(at, row), ..db }
}

/// An execution with one more event.
pub open spec fn with_event(
    row: ExecutionRowView,
    timestamp_ms: i64,
    payload: StoredPayloadView,
) -> ExecutionRowView {
    ExecutionRowView { events: row.events.push(StoredEventView { timestamp_ms, payload }), ..row }
}

/// The latest event of an execution as clients see it.
pub open spec fn latest_event(row: ExecutionRowView) -> ExecutionEventView {
    event_of(row.id, row.events.len() as u64, row.events.last())
}

/// What is wrong with asking for an execution on behalf of a session, if
/// anything: the session has to exist, to belong to the same workspace and to
/// be recording.
pub open spec fn initiator_fault(db: DatabaseView, request: ExecutionRequestView) -> Option<ErrorView> {
    match request.initiator.session_id {
        Some(session_id) => match rows::session_place(db, session_id) {
            None => Some(ErrorView::AgentSessionNotFound(session_id)),
            Some(at) => if db.sessions[at].workspace_id != request.workspace_id {
                Some(
                    ErrorView::InvalidRequest(
                        "agent session "@ + session_id + " belongs to a different workspace"@,
                    ),
                )
            } else if db.sessions[at].state != AgentSessionState::Recording {
                Some(
                    ErrorView::InvalidRequest(
                        "agent session "@ + session_id + " is no longer recording"@,
                    ),
                )
            } else {
                None
            },
        },
        None => None,
    }
}

/// The row of a new execution: queued, without events.
pub open spec fn queued_row(
    request: ExecutionRequestView,
    cwd: Seq<char>,
    id: Seq<char>,
    now: i64,
) -> ExecutionRowView {
    ExecutionRowView {
        id,
        workspace_id: request.workspace_id,
        state: ExecutionState::Queued,
        command: request.command,
        cwd,
        env_keys: request.env.map_values(|var: crate::model::EnvVarView| var.key),
        initiator: request.initiator,
        created_at_ms: now,
        started_at_ms: None,
        ended_at_ms: None,
        pid: None,
        pgid: None,
        outcome: None,
        captured_bytes: 0,
        output_truncated: false,
        session_id: request.initiator.session_id,
        events: Seq::empty(),
    }
}

/// Recording a new execution, under the identifier `id`.
pub open spec fn create_execution_step(
    db: DatabaseView,
    request: ExecutionRequestView,
    cwd: Seq<char>,
    id: Seq<char>,
    now: i64,
) -> (DatabaseView, Result<ExecutionView, ErrorView>) {
    if model::request_fault(request) is Some {
        (db, Err(model::request_fault(request)->0))
    } else if initiator_fault(db, request) is Some {
        (db, Err(initiator_fault(db, request)->0))
    } else if rows::execution_place(db, id) is Some {
        (db, Err(ErrorView::Database("UNIQUE constraint failed: executions.id"@)))
    } else if rows::workspace_place(db, request.workspace_id) is None {
        (db, Err(ErrorView::Database("FOREIGN KEY constraint failed"@)))
    } else {
        let row = queued_row(request, cwd, id, now);
        (
            DatabaseView { executions: db.executions.push(row), ..db },
            Ok(execution_of(row, now)),
        )
    }
}

/// The row of an execution whose process has started.
pub open spec fn running_row(
    row: ExecutionRowView,
    pid: u32,
    pgid: i32,
    now: i64,
) -> ExecutionRowView {
    with_event(
        ExecutionRowView {
            state: ExecutionState::Running,
            started_at_ms: Some(now),
            pid: Some(pid),
            pgid: Some(pgid),
            ..row
        },
        now,
        StoredPayloadView::Started { pid, pgid },
    )
}

/// Recording that the process of a queued execution has started.
pub open spec fn mark_running_step(
    db: DatabaseView,
    id: Seq<char>,
    pid: u32,
    pgid: i32,
    now: i64,
) -> (DatabaseView, Result<ExecutionEventView, ErrorView>) {
    match rows::execution_place(db, id) {
        None => (db, Err(ErrorView::ExecutionNotFound(id))),
        Some(at) => if db.executions[at].state != ExecutionState::Queued {
            (db, Err(ErrorView::AlreadyTerminal(id)))
        } else {
            let row = running_row(db.executions[at], pid, pgid, now);
            (with_execution(db, at, row), Ok(latest_event(row)))
        },
    }
}

/// The row of an execution that has ended.
pub open spec fn ended_row(
    row: ExecutionRowView,
    state: ExecutionState,
    outcome: ExecutionOutcomeView,
    now: i64,
) -> ExecutionRowView {
    with_event(
        ExecutionRowView { state, ended_at_ms: Some(now), outcome: Some(outcome), ..row },
        now,
        StoredPayloadView::Finished { outcome },
    )
}

/// Recording how an execution ended. What has ended ends no second time.
pub open spec fn finish_step(
    db: DatabaseView,
    id: Seq<char>,
    state: ExecutionState,
    outcome: ExecutionOutcomeView,
    now: i64,
) -> (DatabaseView, Result<ExecutionEventView, ErrorView>) {
    match rows::execution_place(db, id) {
        None => (db, Err(ErrorView::ExecutionNotFound(id))),
        Some(at) => if model::terminal(db.executions[at].state) {
            (db, Err(ErrorView::AlreadyTerminal(id)))
        } else {
            let row = ended_row(db.executions[at], state, outcome, now);
            (with_execution(db, at, row), Ok(latest_event(row)))
        },
    }
}

proof fn found_row(db: &Database, id: Seq<char>)
    ensures
        match rows::execution_place(db@, id) {
            Some(at) => 0 <= at < db.executions@.len() && db@.executions[at] == db.executions@[at]@
                && db.executions@[at].id@ == id,
            None => true,
        },
{
    crate::order::position_is_first(db@.executions, |row: ExecutionRowView| row.id == id);
}

impl Database {
    /// Records a new execution, under the identifier `id`.
    pub fn create_execution_at(
        &mut self,
        request: &ExecutionRequest,
        cwd: &str,
        id: String,
        now: i64,
    ) -> (created: Result<Execution, Error>)
        ensures
            (final(self)@, error::viewed(created)) == create_execution_step(
                old(self)@,
                request@,
                cwd@,
                id@,
                now,
            ),
    {
        match request.validate() {
            Err(error) => {
                return Err(error);
            },
            Ok(()) => {},
        }
        match &request.initiator.session_id {
            Some(session_id) => {
                proof {
                    crate::order::position_is_first(
                        self@.sessions,
                        |row: crate::store::rows::SessionRowView| row.id == session_id@,
                    );
                }
                match self.find_session(session_id.as_str()) {
                    None => {
                        return Err(Error::AgentSessionNotFound(session_id.clone()));
                    },
                    Some(at) => {
                        let session = &self.sessions[at];
                        assert(self@.sessions[at as int] == session@);
                        if !same_text(
                            session.workspace_id.as_str(),
                            request.workspace_id.as_str(),
                        ) {
                            return Err(
                                Error::InvalidRequest(
                                    joined3(
                                        "agent session ",
                                        session_id.as_str(),
                                        " belongs to a different workspace",
                                    ),
                                ),
                            );
                        }
                        if session.state != AgentSessionState::Recording {
                            return Err(
                                Error::InvalidRequest(
                                    joined3(
                                        "agent session ",
                                        session_id.as_str(),
                                        " is no longer recording",
                                    ),
                                ),
                            );
                        }
                    },
                }
            },
            None => {},
        }
        if self.find_execution(id.as_str()).is_some() {
            return Err(Error::Database("UNIQUE constraint failed: executions.id".to_owned()));
        }
        if self.find_workspace(request.workspace_id.as_str()).is_none() {
            return Err(Error::Database("FOREIGN KEY constraint failed".to_owned()));
        }
        let mut env_keys: Vec<String> = Vec::new();
        let mut i: usize = 0;
        while i < request.env.len()
            invariant
                i <= request.env.len(),
                env_keys.len() == i,
                forall|k: int| 0 <= k < i ==> env_keys@[k]@ == request.env@[k].key@,
            decreases request.env.len() - i,
        {
            env_keys.push(request.env[i].key.clone());
            i += 1;
        }
        let row = ExecutionRow {
            id,
            workspace_id: request.workspace_id.clone(),
            state: ExecutionState::Queued,
            command: request.command.clone(),
            cwd: cwd.to_owned(),
            env_keys,
            initiator: request.initiator.clone(),
            created_at_ms: now,
            started_at_ms: None,
            ended_at_ms: None,
            pid: None,
            pgid: None,
            outcome: None,
            captured_bytes: 0,
            output_truncated: false,
            session_id: clone_maybe(&request.initiator.session_id),
            events: Vec::new(),
        };
        proof {
            assert(row@.env_keys =~= queued_row(request@, cwd@, id@, now).env_keys);
            assert(row@.events =~= Seq::empty());
            assert(row@ == queued_row(request@, cwd@, id@, now));
        }
        let created = execution_from_row(&row, now);
        self.executions.push(row);
        assert(self@.executions =~= old(self)@.executions.push(row@));
        Ok(created)
    }

    /// Records that the process of a queued execution has started.
    pub fn mark_running_at(&mut self, id: &str, pid: u32, pgid: i32, now: i64) -> (marked: Result<
        ExecutionEvent,
        Error,
    >)
        ensures
            (final(self)@, error::viewed(marked)) == mark_running_step(old(self)@, id@, pid, pgid, now),
    {
        proof {
            found_row(self, id@);
        }
        match self.find_execution(id) {
            None => Err(Error::ExecutionNotFound(id.to_owned())),
            Some(at) => {
                if self.executions[at].state != ExecutionState::Queued {
                    return Err(Error::AlreadyTerminal(id.to_owned()));
                }
                let ghost before = self.executions@[at as int]@;
                let event = StoredEvent {
                    timestamp_ms: now,
                    payload: StoredPayload::Started { pid, pgid },
                };
                let row = &mut self.executions[at];
                row.state = ExecutionState::Running;
                row.started_at_ms = Some(now);
                row.pid = Some(pid);
                row.pgid = Some(pgid);
                row.events.push(event);
                proof {
                    assert(self.executions@[at as int]@.events =~= before.events.push(event@));
                    assert(self.executions@[at as int]@ == running_row(before, pid, pgid, now));
                    assert(self@.executions =~= old(self)@.executions.update(
                        at as int,
                        running_row(before, pid, pgid, now),
                    ));
                }
                let seq: u64 = self.executions[at].events.len() as u64;
                Ok(
                    ExecutionEvent {
                        execution_id: id.to_owned(),
                        seq,
                        timestamp_ms: now,
                        payload: ExecutionEventPayload::Started { pid, pgid },
                    },
                )
            },
        }
    }

    /// Records how an execution ended.
    pub fn finish_at(
        &mut self,
        id: &str,
        state: ExecutionState,
        outcome: ExecutionOutcome,
        now: i64,
    ) -> (finished: Result<ExecutionEvent, Error>)
        ensures
            (final(self)@, error::viewed(finished)) == finish_step(
                old(self)@,
                id@,
                state,
                outcome@,
                now,
            ),
    {
        proof {
            found_row(self, id@);
        }
        match self.find_execution(id) {
            None => Err(Error::ExecutionNotFound(id.to_owned())),
            Some(at) => {
                if self.executions[at].state.is_terminal() {
                    return Err(Error::AlreadyTerminal(id.to_owned()));
                }
                Ok(self.end_execution(at, state, outcome, now))
            },
        }
    }

    /// Ends the execution at place `at`.
    pub fn end_execution(
        &mut self,
        at: usize,
        state: ExecutionState,
        outcome: ExecutionOutcome,
        now: i64,
    ) -> (event: ExecutionEvent)
        requires
            at < old(self).executions.len(),
        ensures
            final(self)@ == with_execution(
                old(self)@,
                at as int,
                ended_row(old(self)@.executions[at as int], state, outcome@, now),
            ),
            event@ == latest_event(
                ended_row(old(self)@.executions[at as int], state, outcome@, now),
            ),
            final(self).executions.len() == old(self).executions.len(),
    {
        let ghost before = self.executions@[at as int]@;
        assert(self@.executions[at as int] == before);
        let event = StoredEvent {
            timestamp_ms: now,
            payload: StoredPayload::Finished { outcome: outcome.clone() },
        };
        let kept = outcome.clone();
        let row = &mut self.executions[at];
        row.state = state;
        row.ended_at_ms = Some(now);
        row.outcome = Some(kept);
        row.events.push(event);
        proof {
            assert(self.executions@[at as int]@.events =~= before.events.push(event@));
            assert(self.executions@[at as int]@ == ended_row(before, state, outcome@, now));
            assert(self@.executions =~= old(self)@.executions.update(
                at as int,
                ended_row(before, state, outcome@, now),
            ));
        }
        let seq: u64 = self.executions[at].events.len() as u64;
        ExecutionEvent {
            execution_id: self.executions[at].id.clone(),
            seq,
            timestamp_ms: now,
            payload: ExecutionEventPayload::Finished { outcome },
        }
    }

    /// What clients see of the execution with this identifier.
    pub fn get_execution(&self, id: &str, now: i64) -> (found: Result<Execution, Error>)
        ensures
            error::viewed(found) == (match rows::execution_place(self@, id@) {
                Some(at) => Ok(execution_of(self@.executions[at], now)),
                None => Err(ErrorView::ExecutionNotFound(id@)),
            }),
    {
        proof {
            found_row(self, id@);
        }
        match self.find_execution(id) {
            Some(at) => Ok(execution_from_row(&self.executions[at], now)),
            None => Err(Error::ExecutionNotFound(id.to_owned())),
        }
    }
}

} // verus!
