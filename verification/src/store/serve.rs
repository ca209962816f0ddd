//! The commands that the store is asked to carry out, one at a time.

use vstd::prelude::*;

use crate::codec;
use crate::codec::{new_id, now_ms};
use crate::error;
use crate::error::{Error, ErrorView};
use crate::model::{
    AgentEventRequest, AgentSession, AgentSessionDetail, AgentSessionFinish, AgentSessionRequest,
    AgentTurn, Execution, ExecutionEvent, ExecutionOutcome, ExecutionRequest, ExecutionState,
    ExecutionStats, ReadOutputResponse, Workspace,
};
use crate::store::capture;
use crate::store::capture::{CaptureRecord, CaptureRecordView};
use crate::store::executions;
use crate::store::reading;
use crate::store::retention;
use crate::store::rows;
use crate::store::rows::{Database, DatabaseView, ExecutionRowView, SessionRowView};
use crate::store::session_reading;
use crate::store::sessions;
use crate::store::stats;
use crate::store::workspaces;
use crate::text;

verus! {

/// A command to the store. Paths come with their links resolved.
#[allow(inconsistent_fields)]
#[derive(Debug)]
pub enum StoreCommand {
    AddWorkspace { name: String, root: String, is_directory: bool },
    RemoveWorkspace { identifier: String },
    GetWorkspace { identifier: String },
    FindWorkspaceByRoot { root: String },
    ListWorkspaces,
    CreateExecution { request: ExecutionRequest, cwd: String },
    MarkRunning { id: String, pid: u32, pgid: i32 },
    AppendCaptureBatch { records: Vec<CaptureRecord> },
    Finish { id: String, state: ExecutionState, outcome: ExecutionOutcome },
    GetExecution { id: String },
    ListExecutions { workspace: Option<String>, limit: u32 },
    ExecutionStats { workspace: String, since_ms: i64, until_ms: i64 },
    CreateAgentSession { request: AgentSessionRequest, cwd: String },
    FinishAgentSession { id: String, finish: AgentSessionFinish },
    GetAgentSession { id: String },
    ListAgentSessions { workspace: Option<String>, limit: u32 },
    DeleteAgentSession { id: String },
    RecordAgentEvent { request: AgentEventRequest },
    ActiveAgentSessions,
    ReadOutput { id: String, after_seq: u64, max_bytes: usize },
    ReconcileIncomplete,
    CancelQueued,
    Prune { retention_days: u64, retention_bytes: u64 },
    Shutdown,
}

/// The answer to a command.
#[derive(Debug)]
pub enum StoreReply {
    Done(Result<(), Error>),
    Workspace(Result<Workspace, Error>),
    MaybeWorkspace(Option<Workspace>),
    Workspaces(Vec<Workspace>),
    Execution(Result<Execution, Error>),
    Executions(Vec<Execution>),
    Event(Result<ExecutionEvent, Error>),
    Events(Result<Vec<ExecutionEvent>, Error>),
    Stats(Result<ExecutionStats, Error>),
    Session(Result<AgentSession, Error>),
    Sessions(Vec<AgentSession>),
    Detail(Result<AgentSessionDetail, Error>),
    Turn(Result<AgentTurn, Error>),
    Output(Result<ReadOutputResponse, Error>),
    Count(Result<usize, Error>),
    Stopped,
}

/// What a command does to the store and how it is answered, at the time `now`;
/// `first` and `second` are the identifiers for what it may add.
pub open spec fn served(
    db: DatabaseView,
    command: StoreCommand,
    now: i64,
    first: Seq<char>,
    second: Seq<char>,
    after: DatabaseView,
    reply: StoreReply,
) -> bool {
    match command {
        StoreCommand::AddWorkspace { name, root, is_directory } => reply matches
            StoreReply::Workspace(answer) && (after, error::viewed(answer)) == workspaces::add_workspace_step(
            db,
            name@,
            root@,
            is_directory,
            first,
            now,
        ),
        StoreCommand::RemoveWorkspace { identifier } => reply matches StoreReply::Done(answer) && (
            after,
            error::outcome_view(answer, |u: ()| u),
        ) == workspaces::remove_workspace_step(db, identifier@),
        StoreCommand::GetWorkspace { identifier } => after == db && (reply matches
            StoreReply::Workspace(answer) && error::viewed(answer) == workspaces::registered(db, identifier@)),
        StoreCommand::FindWorkspaceByRoot { root } => after == db && (reply matches
            StoreReply::MaybeWorkspace(answer) && (match answer {
            Some(workspace) => Some(workspace@),
            None => None,
        }) == workspaces::registered_root(db, root@)),
        StoreCommand::ListWorkspaces => after == db && (reply matches StoreReply::Workspaces(list)
            && list@.map_values(|item: Workspace| item@) == workspaces::registered_list(db)),
        StoreCommand::CreateExecution { request, cwd } => reply matches
            StoreReply::Execution(answer) && (after, error::viewed(answer)) == executions::create_execution_step(
            db,
            request@,
            cwd@,
            first,
            now,
        ),
        StoreCommand::MarkRunning { id, pid, pgid } => reply matches StoreReply::Event(answer) && (
            after,
            error::viewed(answer),
        ) == executions::mark_running_step(db, id@, pid, pgid, now),
        StoreCommand::AppendCaptureBatch { records } => reply matches StoreReply::Events(answer)
            && (after, error::outcome_view(answer, |events: Vec<ExecutionEvent>| capture::event_views(events@)))
            == capture::append_batch_step(db, capture::record_views(records@)),
        StoreCommand::Finish { id, state, outcome } => reply matches StoreReply::Event(answer) && (
            after,
            error::viewed(answer),
        ) == executions::finish_step(db, id@, state, outcome@, now),
        StoreCommand::GetExecution { id } => after == db && (reply matches
            StoreReply::Execution(answer) && error::viewed(answer) == (match rows::execution_place(db, id@) {
            Some(at) => Ok(executions::execution_of(db.executions[at], now)),
            None => Err(ErrorView::ExecutionNotFound(id@)),
        })),
        StoreCommand::ListExecutions { workspace, limit } => after == db && (reply matches
            StoreReply::Executions(list) && list@.map_values(|item: Execution| item@) == reading::at_most(
            reading::executions_asked(db, text::maybe_text(workspace)),
            limit as int,
        ).map_values(|row: ExecutionRowView| executions::execution_of(row, now))),
        StoreCommand::ExecutionStats { workspace, since_ms, until_ms } => after == db
            && (reply matches StoreReply::Stats(answer) && stats::stats_answer(
            db,
            workspace@,
            since_ms,
            until_ms,
            error::viewed(answer),
        )),
        StoreCommand::CreateAgentSession { request, cwd } => reply matches
            StoreReply::Session(answer) && (after, error::viewed(answer)) == sessions::create_session_step(
            db,
            request@,
            cwd@,
            now,
        ),
        StoreCommand::FinishAgentSession { id, finish } => reply matches
            StoreReply::Session(answer) && (after, error::viewed(answer)) == sessions::finish_session_step(
            db,
            id@,
            finish@,
            now,
        ),
        StoreCommand::GetAgentSession { id } => after == db && (reply matches
            StoreReply::Detail(answer) && error::viewed(answer) == session_reading::session_detail(db, id@, now)),
        StoreCommand::ListAgentSessions { workspace, limit } => after == db && (reply matches
            StoreReply::Sessions(list) && list@.map_values(|item: AgentSession| item@) == reading::at_most(
            session_reading::sessions_asked(db, text::maybe_text(workspace)),
            limit as int,
        ).map_values(|row: SessionRowView| sessions::session_of(row))),
        StoreCommand::DeleteAgentSession { id } => reply matches StoreReply::Done(answer) && (
            after,
            error::outcome_view(answer, |u: ()| u),
        ) == session_reading::delete_session_step(db, id@),
        StoreCommand::RecordAgentEvent { request } => reply matches StoreReply::Turn(answer) && (
            after,
            error::viewed(answer),
        ) == sessions::record_event_step(db, request@, first, second, now),
        StoreCommand::ActiveAgentSessions => after == db && (reply matches
            StoreReply::Sessions(list) && list@.map_values(|item: AgentSession| item@)
            == session_reading::recording_sessions(db).map_values(|row: SessionRowView| sessions::session_of(row))),
        StoreCommand::ReadOutput { id, after_seq, max_bytes } => after == db && (reply matches
            StoreReply::Output(answer) && error::viewed(answer) == (match rows::execution_place(db, id@) {
            None => Err(ErrorView::ExecutionNotFound(id@)),
            Some(at) => Ok(reading::page_of(db.executions[at], after_seq, max_bytes, now)),
        })),
        StoreCommand::ReconcileIncomplete => after == retention::reconciled(db, now) && (reply matches
            StoreReply::Count(answer) && (answer matches Ok(count) && count == retention::open_places(
            db,
        ).len())),
        StoreCommand::CancelQueued => after == retention::queue_cancelled(db, now) && (reply matches
            StoreReply::Events(answer) && (answer matches Ok(events) && capture::event_views(events@)
            == retention::queued_places(db).map_values(
            |i: int| executions::latest_event(retention::cancelled_row(db.executions[i], now)),
        ))),
        StoreCommand::Prune { retention_days, retention_bytes } => reply matches
            StoreReply::Count(answer) && (after, error::outcome_view(answer, |count: usize| count as int))
            == retention::prune_step(db, retention_days, retention_bytes, now),
        StoreCommand::Shutdown => after == db && reply is Stopped,
    }
}

/// What a command may change.
#[derive(Debug)]
pub enum Scope {
    /// Nothing.
    Nothing,
    /// The workspaces.
    Workspaces,
    /// Whether one more execution stands behind the others.
    LatestExecution,
    /// The executions with these identifiers.
    Executions(Vec<String>),
    /// The sessions with their turns and actions.
    Sessions,
    /// Everything but the workspaces.
    Records,
}

/// What a `Scope` holds.
pub enum ScopeView {
    Nothing,
    Workspaces,
    LatestExecution,
    Executions(Seq<Seq<char>>),
    Sessions,
    Records,
}

impl View for Scope {
    type V = ScopeView;

    open spec fn view(&self) -> ScopeView {
        match self {
            Scope::Nothing => ScopeView::Nothing,
            Scope::Workspaces => ScopeView::Workspaces,
            Scope::LatestExecution => ScopeView::LatestExecution,
            Scope::Executions(ids) => ScopeView::Executions(text::texts(ids@)),
            Scope::Sessions => ScopeView::Sessions,
            Scope::Records => ScopeView::Records,
        }
    }
}

/// What each command may change.
pub open spec fn scope_for(command: StoreCommand) -> ScopeView {
    match command {
        StoreCommand::AddWorkspace { .. } | StoreCommand::RemoveWorkspace {
            ..
        } => ScopeView::Workspaces,
        StoreCommand::CreateExecution { .. } => ScopeView::LatestExecution,
        StoreCommand::MarkRunning { id, .. } | StoreCommand::Finish {
            id,
            ..
        } => ScopeView::Executions(seq![id@]),
        StoreCommand::AppendCaptureBatch { records } => ScopeView::Executions(
            named_executions(capture::record_views(records@)),
        ),
        StoreCommand::CreateAgentSession { .. } | StoreCommand::FinishAgentSession {
            ..
        } | StoreCommand::RecordAgentEvent { .. } => ScopeView::Sessions,
        StoreCommand::DeleteAgentSession { .. } | StoreCommand::ReconcileIncomplete
        | StoreCommand::CancelQueued | StoreCommand::Prune { .. } => ScopeView::Records,
        _ => ScopeView::Nothing,
    }
}

/// The executions that records belong to.
pub open spec fn named_executions(records: Seq<CaptureRecordView>) -> Seq<Seq<char>> {
    records.map_values(|record: CaptureRecordView| capture::record_execution(record))
}

/// Whether nothing outside the scope differs.
pub open spec fn same_outside(scope: ScopeView, db: DatabaseView, after: DatabaseView) -> bool {
    match scope {
        ScopeView::Nothing => after == db,
        ScopeView::Workspaces => after == (DatabaseView { workspaces: after.workspaces, ..db }),
        ScopeView::LatestExecution => after == db || (after == (DatabaseView {
            executions: after.executions,
            ..db
        }) && after.executions.len() == db.executions.len() + 1 && after.executions.drop_last()
            == db.executions),
        ScopeView::Executions(ids) => after == (DatabaseView { executions: after.executions, ..db })
            && same_but(ids, db.executions, after.executions),
        ScopeView::Sessions => after.workspaces == db.workspaces && after.executions
            == db.executions,
        ScopeView::Records => after.workspaces == db.workspaces,
    }
}

/// Whether each execution stands where it stood, and none but those with the
/// identifiers `ids` differs.
pub open spec fn same_but(
    ids: Seq<Seq<char>>,
    rows: Seq<ExecutionRowView>,
    after: Seq<ExecutionRowView>,
) -> bool {
    after.len() == rows.len() && forall|i: int|
        0 <= i < rows.len() ==> (#[trigger] after[i]).id == rows[i].id && (ids.contains(rows[i].id)
            || after[i] == rows[i])
}

/// Whether `row` is one of `rows`, with more events behind those it had.
pub open spec fn continues(rows: Seq<ExecutionRowView>, row: ExecutionRowView) -> bool {
    exists|j: int|
        0 <= j < rows.len() && (#[trigger] rows[j]).id == row.id && rows[j].events.is_prefix_of(
            row.events,
        )
}

/// Whether each execution keeps the events it had in front of those that were
/// added, and what is new has none.
pub open spec fn history_grows(
    rows: Seq<ExecutionRowView>,
    after: Seq<ExecutionRowView>,
) -> bool {
    forall|i: int|
        0 <= i < after.len() ==> (#[trigger] after[i]).events.len() == 0 || continues(
            rows,
            after[i],
        )
}

/// Tells what a command may change.
pub fn scope_of(command: &StoreCommand) -> (scope: Scope)
    ensures
        scope@ == scope_for(*command),
{
    match command {
        StoreCommand::AddWorkspace { .. } | StoreCommand::RemoveWorkspace {
            ..
        } => Scope::Workspaces,
        StoreCommand::CreateExecution { .. } => Scope::LatestExecution,
        StoreCommand::MarkRunning { id, .. } => one_execution(id),
        StoreCommand::Finish { id, .. } => one_execution(id),
        StoreCommand::AppendCaptureBatch { records } => Scope::Executions(
            execution_ids(records),
        ),
        StoreCommand::CreateAgentSession { .. } | StoreCommand::FinishAgentSession {
            ..
        } | StoreCommand::RecordAgentEvent { .. } => Scope::Sessions,
        StoreCommand::DeleteAgentSession { .. } | StoreCommand::ReconcileIncomplete
        | StoreCommand::CancelQueued | StoreCommand::Prune { .. } => Scope::Records,
        _ => Scope::Nothing,
    }
}

fn one_execution(id: &String) -> (scope: Scope)
    ensures
        scope@ == ScopeView::Executions(seq![id@]),
{
    let mut ids: Vec<String> = Vec::new();
    ids.push(id.clone());
    assert(text::texts(ids@) =~= seq![id@]);
    Scope::Executions(ids)
}

fn execution_ids(records: &Vec<CaptureRecord>) -> (ids: Vec<String>)
    ensures
        text::texts(ids@) == named_executions(capture::record_views(records@)),
{
    let mut ids: Vec<String> = Vec::new();
    let mut i: usize = 0;
    while i < records.len()
        invariant
            i <= records.len(),
            ids.len() == i,
            forall|k: int|
                0 <= k < i ==> (#[trigger] ids@[k])@ == capture::record_execution(records@[k]@),
        decreases records.len() - i,
    {
        match &records[i] {
            CaptureRecord::Output { execution_id, .. } => ids.push(execution_id.clone()),
            CaptureRecord::Truncated { execution_id, .. } => ids.push(execution_id.clone()),
        }
        i += 1;
    }
    assert(text::texts(ids@) =~= named_executions(capture::record_views(records@)));
    ids
}

proof fn appended_stay_in_scope(db: DatabaseView, records: Seq<CaptureRecordView>)
    ensures
        capture::records_step(db, records) matches Ok((after, events)) ==> same_outside(
            ScopeView::Executions(named_executions(records)),
            db,
            after,
        ) && history_grows_in_place(db.executions, after.executions),
    decreases records.len(),
{
    if records.len() > 0 && capture::records_step(db, records) is Ok {
        let some = records.drop_last();
        appended_stay_in_scope(db, some);
        let before = capture::records_step(db, some)->Ok_0.0;
        let after = capture::records_step(db, records)->Ok_0.0;
        let ids = named_executions(records);
        crate::order::position_is_first(
            before.executions,
            |row: ExecutionRowView| row.id == capture::record_execution(records.last()),
        );
        assert(ids.last() == capture::record_execution(records.last()));
        assert(ids.contains(ids.last()));
        assert forall|i: int| 0 <= i < db.executions.len() implies (#[trigger] after.executions[i]).id
            == db.executions[i].id && (ids.contains(db.executions[i].id) || after.executions[i]
            == db.executions[i]) by {
            assert(before.executions[i].id == db.executions[i].id);
            if named_executions(some).contains(db.executions[i].id) {
                let k = choose|k: int|
                    0 <= k < named_executions(some).len() && named_executions(some)[k]
                        == db.executions[i].id;
                assert(ids[k] == db.executions[i].id);
            }
        }
        assert forall|i: int| 0 <= i < db.executions.len() implies db.executions[i].events.is_prefix_of(
            (#[trigger] after.executions[i]).events,
        ) by {
            assert(db.executions[i].events.is_prefix_of(before.executions[i].events));
        }
    }
}

/// Whether each execution stands where it stood, with more events behind those
/// it had.
spec fn history_grows_in_place(
    rows: Seq<ExecutionRowView>,
    after: Seq<ExecutionRowView>,
) -> bool {
    after.len() == rows.len() && forall|i: int|
        0 <= i < rows.len() ==> (#[trigger] after[i]).id == rows[i].id
            && rows[i].events.is_prefix_of(after[i].events)
}

proof fn growth_in_place(rows: Seq<ExecutionRowView>, after: Seq<ExecutionRowView>)
    requires
        history_grows_in_place(rows, after),
    ensures
        history_grows(rows, after),
{
    assert forall|i: int| 0 <= i < after.len() implies (#[trigger] after[i]).events.len() == 0
        || continues(rows, after[i]) by {
        assert(rows[i].id == after[i].id);
    }
}

/// A command changes nothing outside its scope, and it takes no event of an
/// execution that stays: what is kept of each table can follow the store by
/// writing the scope, and of each execution only the events that were added.
pub proof fn commands_keep_to_their_scope(
    db: DatabaseView,
    command: StoreCommand,
    now: i64,
    first: Seq<char>,
    second: Seq<char>,
    after: DatabaseView,
    reply: StoreReply,
)
    requires
        served(db, command, now, first, second, after, reply),
    ensures
        same_outside(scope_for(command), db, after),
        history_grows(db.executions, after.executions),
{
    let rows = db.executions;
    match command {
        StoreCommand::CreateExecution { request, cwd } => {
            if after.executions.len() > rows.len() {
                assert(after.executions.drop_last() =~= rows);
            }
            assert forall|i: int| 0 <= i < after.executions.len() implies (
            #[trigger] after.executions[i]).events.len() == 0 || continues(
                rows,
                after.executions[i],
            ) by {
                if i < rows.len() {
                    assert(rows[i] == after.executions[i]);
                }
            }
        },
        StoreCommand::MarkRunning { id, pid, pgid } => {
            crate::order::position_is_first(rows, |row: ExecutionRowView| row.id == id@);
            assert(seq![id@].contains(id@)) by {
                assert(seq![id@][0] == id@);
            }
            growth_in_place(rows, after.executions);
        },
        StoreCommand::Finish { id, state, outcome } => {
            crate::order::position_is_first(rows, |row: ExecutionRowView| row.id == id@);
            assert(seq![id@].contains(id@)) by {
                assert(seq![id@][0] == id@);
            }
            growth_in_place(rows, after.executions);
        },
        StoreCommand::AppendCaptureBatch { records } => {
            appended_stay_in_scope(db, capture::record_views(records@));
            growth_in_place(rows, after.executions);
        },
        StoreCommand::Prune { retention_days, retention_bytes } => {
            let cutoff = now - retention_days * retention::DAY_MS;
            let keep = |i: int| retention::stays(rows, cutoff, retention_bytes, i);
            crate::order::retained_is_exact(rows, keep, 0);
            assert forall|i: int| 0 <= i < after.executions.len() implies (
            #[trigger] after.executions[i]).events.len() == 0 || continues(
                rows,
                after.executions[i],
            ) by {
                if after == db {
                    assert(rows[i] == after.executions[i]);
                } else {
                    assert(crate::order::kept_entry(rows, keep, 0, after.executions[i]));
                }
            }
        },
        _ => {
            growth_in_place(rows, after.executions);
        },
    }
}

fn as_deref(text: &Option<String>) -> (inner: Option<&str>)
    ensures
        crate::store::reading::maybe_str(inner) == text::maybe_text(*text),
{
    match text {
        Some(inner) => Some(inner.as_str()),
        None => None,
    }
}

impl Database {
    /// Carries out a command at the time `now`.
    #[verifier::rlimit(60)]
    pub fn serve_at(
        &mut self,
        command: StoreCommand,
        now: i64,
        first: String,
        second: String,
    ) -> (reply: StoreReply)
        ensures
            served(old(self)@, command, now, first@, second@, final(self)@, reply),
    {
        match command {
            StoreCommand::AddWorkspace { name, root, is_directory } => StoreReply::Workspace(
                self.add_workspace_at(name.as_str(), root.as_str(), is_directory, first, now),
            ),
            StoreCommand::RemoveWorkspace { identifier } => StoreReply::Done(
                self.remove_workspace(identifier.as_str()),
            ),
            StoreCommand::GetWorkspace { identifier } => StoreReply::Workspace(
                self.get_workspace(identifier.as_str()),
            ),
            StoreCommand::FindWorkspaceByRoot { root } => StoreReply::MaybeWorkspace(
                self.find_workspace_by_root(root.as_str()),
            ),
            StoreCommand::ListWorkspaces => StoreReply::Workspaces(self.list_workspaces()),
            StoreCommand::CreateExecution { request, cwd } => StoreReply::Execution(
                self.create_execution_at(&request, cwd.as_str(), first, now),
            ),
            StoreCommand::MarkRunning { id, pid, pgid } => StoreReply::Event(
                self.mark_running_at(id.as_str(), pid, pgid, now),
            ),
            StoreCommand::AppendCaptureBatch { records } => StoreReply::Events(
                self.append_capture_batch(&records),
            ),
            StoreCommand::Finish { id, state, outcome } => StoreReply::Event(
                self.finish_at(id.as_str(), state, outcome, now),
            ),
            StoreCommand::GetExecution { id } => StoreReply::Execution(
                self.get_execution(id.as_str(), now),
            ),
            StoreCommand::ListExecutions { workspace, limit } => StoreReply::Executions(
                self.list_executions(as_deref(&workspace), limit, now),
            ),
            StoreCommand::ExecutionStats { workspace, since_ms, until_ms } => StoreReply::Stats(
                self.execution_stats(workspace.as_str(), since_ms, until_ms),
            ),
            StoreCommand::CreateAgentSession { request, cwd } => StoreReply::Session(
                self.create_agent_session_at(&request, cwd.as_str(), now),
            ),
            StoreCommand::FinishAgentSession { id, finish } => StoreReply::Session(
                self.finish_agent_session_at(id.as_str(), &finish, now),
            ),
            StoreCommand::GetAgentSession { id } => StoreReply::Detail(
                self.get_agent_session(id.as_str(), now),
            ),
            StoreCommand::ListAgentSessions { workspace, limit } => StoreReply::Sessions(
                self.list_agent_sessions(as_deref(&workspace), limit),
            ),
            StoreCommand::DeleteAgentSession { id } => StoreReply::Done(
                self.delete_agent_session(id.as_str()),
            ),
            StoreCommand::RecordAgentEvent { request } => StoreReply::Turn(
                self.record_agent_event_at(&request, first, second, now),
            ),
            StoreCommand::ActiveAgentSessions => StoreReply::Sessions(
                self.active_agent_sessions(),
            ),
            StoreCommand::ReadOutput { id, after_seq, max_bytes } => StoreReply::Output(
                self.read_output(id.as_str(), after_seq, max_bytes, now),
            ),
            StoreCommand::ReconcileIncomplete => StoreReply::Count(
                Ok(self.reconcile_incomplete_at(now)),
            ),
            StoreCommand::CancelQueued => StoreReply::Events(Ok(self.cancel_queued_at(now))),
            StoreCommand::Prune { retention_days, retention_bytes } => StoreReply::Count(
                self.prune_at(retention_days, retention_bytes, now),
            ),
            StoreCommand::Shutdown => StoreReply::Stopped,
        }
    }

    /// Carries out a command now, with fresh identifiers for what it adds.
    pub fn serve(&mut self, command: StoreCommand) -> (reply: StoreReply)
        ensures
            exists|now: i64, first: Seq<char>, second: Seq<char>|
                codec::identifier_form(first) && codec::identifier_form(second)
                    && #[trigger] served(
                    old(self)@,
                    command,
                    now,
                    first,
                    second,
                    final(self)@,
                    reply,
                ),
    {
        let now = now_ms();
        let first = new_id();
        let second = new_id();
        let ghost a = first@;
        let ghost b = second@;
        let ghost start = self@;
        let ghost asked = command;
        let reply = self.serve_at(command, now, first, second);
        assert(served(start, asked, now, a, b, self@, reply));
        reply
    }
}

} // verus!
