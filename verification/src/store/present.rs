//! Working on the store at the present time, with fresh identifiers for what is
//! added.

use vstd::prelude::*;

use crate::codec;
use crate::codec::{new_id, now_ms};
use crate::error;
use crate::error::{Error, ErrorView};
use crate::model::{
    AgentEventRequest, AgentSession, AgentSessionFinish, AgentSessionRequest, AgentTurn, Execution,
    ExecutionEvent, ExecutionEventView, ExecutionOutcome, ExecutionRequest, ExecutionState,
    OutputStream, Workspace,
};
use crate::store::capture;
use crate::store::capture::{CaptureRecord, CaptureRecordView};
use crate::store::executions;
use crate::store::retention;
use crate::store::rows::{Database, DatabaseView};
use crate::store::sessions;
use crate::store::workspaces;

verus! {

/// Appending a record on its own.
pub open spec fn append_step(db: DatabaseView, record: CaptureRecordView) -> (
    DatabaseView,
    Result<ExecutionEventView, ErrorView>,
) {
    match capture::record_step(db, record) {
        Ok((after, event)) => (after, Ok(event)),
        Err(error) => (db, Err(error)),
    }
}

/// The record of output that a command wrote.
pub open spec fn output_record(
    id: Seq<char>,
    now: i64,
    stream: OutputStream,
    data: Seq<u8>,
) -> CaptureRecordView {
    CaptureRecordView::Output { execution_id: id, timestamp_ms: now, stream, data }
}

/// The record that the output of a command was cut off.
pub open spec fn truncation_record(id: Seq<char>, now: i64, limit: u64) -> CaptureRecordView {
    CaptureRecordView::Truncated { execution_id: id, timestamp_ms: now, limit_bytes: limit }
}

/// A batch of one record is that record on its own.
proof fn batch_of_one(db: DatabaseView, record: CaptureRecordView)
    ensures
        capture::append_batch_step(db, seq![record]) == (match append_step(db, record) {
            (after, Ok(event)) => (after, Ok::<Seq<ExecutionEventView>, ErrorView>(seq![event])),
            (after, Err(error)) => (after, Err(error)),
        }),
{
    let list = seq![record];
    assert(list.drop_last() =~= Seq::empty());
    assert(capture::records_step(db, list.drop_last()) == Ok::<
        (DatabaseView, Seq<ExecutionEventView>),
        ErrorView,
    >((db, Seq::empty())));
    match capture::record_step(db, record) {
        Ok((after, event)) => {
            assert(Seq::<ExecutionEventView>::empty().push(event) =~= seq![event]);
        },
        Err(error) => {},
    }
}

impl Database {
    /// Registers the directory `root` under `name`.
    pub fn add_workspace(&mut self, name: &str, root: &str, is_directory: bool) -> (added: Result<
        Workspace,
        Error,
    >)
        ensures
            exists|id: Seq<char>, now: i64|
                codec::identifier_form(id) && (final(self)@, error::viewed(added))
                    == #[trigger] workspaces::add_workspace_step(
                    old(self)@,
                    name@,
                    root@,
                    is_directory,
                    id,
                    now,
                ),
    {
        self.add_workspace_at(name, root, is_directory, new_id(), now_ms())
    }

    /// Records a new execution.
    pub fn create_execution(&mut self, request: &ExecutionRequest, cwd: &str) -> (created: Result<
        Execution,
        Error,
    >)
        ensures
            exists|id: Seq<char>, now: i64|
                codec::identifier_form(id) && (final(self)@, error::viewed(created))
                    == #[trigger] executions::create_execution_step(
                    old(self)@,
                    request@,
                    cwd@,
                    id,
                    now,
                ),
    {
        self.create_execution_at(request, cwd, new_id(), now_ms())
    }

    /// Records that the process of a queued execution has started.
    pub fn mark_running(&mut self, id: &str, pid: u32, pgid: i32) -> (marked: Result<
        ExecutionEvent,
        Error,
    >)
        ensures
            exists|now: i64|
                (final(self)@, error::viewed(marked)) == #[trigger] executions::mark_running_step(
                    old(self)@,
                    id@,
                    pid,
                    pgid,
                    now,
                ),
    {
        self.mark_running_at(id, pid, pgid, now_ms())
    }

    /// Appends a record on its own.
    fn append_one(&mut self, record: CaptureRecord) -> (appended: Result<ExecutionEvent, Error>)
        ensures
            (final(self)@, error::viewed(appended)) == append_step(old(self)@, record@),
    {
        let ghost view = record@;
        let mut records: Vec<CaptureRecord> = Vec::new();
        records.push(record);
        proof {
            assert(capture::record_views(records@) =~= seq![view]);
            batch_of_one(self@, view);
        }
        match self.append_capture_batch(&records) {
            Err(error) => Err(error),
            Ok(mut events) => {
                let ghost list = capture::event_views(events@);
                proof {
                    assert(list.len() == 1);
                    assert(list[0] == events@[0]@);
                }
                Ok(events.remove(0))
            },
        }
    }

    /// Appends output that a command wrote.
    pub fn append_output(&mut self, id: &str, stream: OutputStream, data: &[u8]) -> (appended:
        Result<ExecutionEvent, Error>)
        ensures
            exists|now: i64|
                (final(self)@, error::viewed(appended)) == append_step(
                    old(self)@,
                    #[trigger] output_record(id@, now, stream, data@),
                ),
    {
        let timestamp_ms = now_ms();
        let record = CaptureRecord::Output {
            execution_id: id.to_owned(),
            timestamp_ms,
            stream,
            data: vstd::slice::slice_to_vec(data),
        };
        assert(record@ == output_record(id@, timestamp_ms, stream, data@));
        self.append_one(record)
    }

    /// Notes that the output of a command was cut off at a limit.
    pub fn mark_truncated(&mut self, id: &str, limit: u64) -> (marked: Result<
        ExecutionEvent,
        Error,
    >)
        ensures
            exists|now: i64|
                (final(self)@, error::viewed(marked)) == append_step(
                    old(self)@,
                    #[trigger] truncation_record(id@, now, limit),
                ),
    {
        let timestamp_ms = now_ms();
        let record = CaptureRecord::Truncated {
            execution_id: id.to_owned(),
            timestamp_ms,
            limit_bytes: limit,
        };
        assert(record@ == truncation_record(id@, timestamp_ms, limit));
        self.append_one(record)
    }

    /// Records how an execution ended.
    pub fn finish(&mut self, id: &str, state: ExecutionState, outcome: ExecutionOutcome) -> (finished:
        Result<ExecutionEvent, Error>)
        ensures
            exists|now: i64|
                (final(self)@, error::viewed(finished)) == #[trigger] executions::finish_step(
                    old(self)@,
                    id@,
                    state,
                    outcome@,
                    now,
                ),
    {
        self.finish_at(id, state, outcome, now_ms())
    }

    /// Begins to record a session.
    pub fn create_agent_session(&mut self, request: &AgentSessionRequest, cwd: &str) -> (created:
        Result<AgentSession, Error>)
        ensures
            exists|now: i64|
                (final(self)@, error::viewed(created)) == #[trigger] sessions::create_session_step(
                    old(self)@,
                    request@,
                    cwd@,
                    now,
                ),
    {
        self.create_agent_session_at(request, cwd, now_ms())
    }

    /// Ends the recording of a session.
    pub fn finish_agent_session(&mut self, id: &str, finish: &AgentSessionFinish) -> (finished:
        Result<AgentSession, Error>)
        ensures
            exists|now: i64|
                (final(self)@, error::viewed(finished)) == #[trigger] sessions::finish_session_step(
                    old(self)@,
                    id@,
                    finish@,
                    now,
                ),
    {
        self.finish_agent_session_at(id, finish, now_ms())
    }

    /// Records an event that an agent reported.
    pub fn record_agent_event(&mut self, request: &AgentEventRequest) -> (recorded: Result<
        AgentTurn,
        Error,
    >)
        ensures
            exists|turn_id: Seq<char>, action_id: Seq<char>, now: i64|
                codec::identifier_form(turn_id) && codec::identifier_form(action_id) && (
                    final(self)@,
                    error::viewed(recorded),
                ) == #[trigger] sessions::record_event_step(
                    old(self)@,
                    request@,
                    turn_id,
                    action_id,
                    now,
                ),
    {
        self.record_agent_event_at(request, new_id(), new_id(), now_ms())
    }

    /// Ends what a restart cut off; returns how many executions that were.
    pub fn reconcile_incomplete(&mut self) -> (count: usize)
        ensures
            exists|now: i64| final(self)@ == #[trigger] retention::reconciled(old(self)@, now),
            count == retention::open_places(old(self)@).len(),
    {
        self.reconcile_incomplete_at(now_ms())
    }

    /// Cancels what is queued; returns the events that say so.
    pub fn cancel_queued(&mut self) -> (events: Vec<ExecutionEvent>)
        ensures
            exists|now: i64|
                final(self)@ == #[trigger] retention::queue_cancelled(old(self)@, now)
                    && capture::event_views(events@) == retention::queued_places(
                    old(self)@,
                ).map_values(
                    |i: int|
                        executions::latest_event(
                            retention::cancelled_row(old(self)@.executions[i], now),
                        ),
                ),
    {
        self.cancel_queued_at(now_ms())
    }

    /// Forgets history that is too old or too large; returns how many
    /// executions left.
    pub fn prune(&mut self, retention_days: u64, retention_bytes: u64) -> (removed: Result<
        usize,
        Error,
    >)
        ensures
            exists|now: i64|
                (final(self)@, error::outcome_view(removed, |count: usize| count as int))
                    == #[trigger] retention::prune_step(
                    old(self)@,
                    retention_days,
                    retention_bytes,
                    now,
                ),
    {
        self.prune_at(retention_days, retention_bytes, now_ms())
    }
}

} // verus!
