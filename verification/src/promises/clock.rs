//! What the calls do that take the time and their identifiers themselves, and
//! what the calls tell that only read.

use vstd::prelude::*;

use crate::codec;
use crate::error;
use crate::error::Error;
use crate::executor;
use crate::executor::{CaptureMeter, Run, RunAction, RunInput};
use crate::model::{
    AgentEventRequest, AgentSession, AgentSessionDetail, AgentSessionFinish, AgentSessionRequest,
    AgentTurn, Execution, ExecutionEvent, ExecutionOutcome, ExecutionRequest, ExecutionState,
    OutputStream, ReadOutputResponse, Workspace,
};
use crate::order;
use crate::paths;
use crate::slots;
use crate::slots::{SlotChange, SlotEvent, Slots};
use crate::store::capture;
use crate::store::capture::CaptureRecord;
use crate::store::executions;
use crate::store::reading;
use crate::store::rows::{Database, ExecutionRowView, StoredPayloadView};
use crate::store::serve;
use crate::store::serve::{StoreCommand, StoreReply};
use crate::store::session_reading;
use crate::store::sessions;
use crate::store::workspaces;

verus! {

/// An execution, a workspace, a session or a report that is recorded by the
/// clock is recorded at some moment under identifiers of its own, and otherwise
/// as it was asked for.
pub proof fn what_is_asked_for_is_recorded_by_the_clock(
    db: &mut Database,
    request: &ExecutionRequest,
    cwd: &str,
    created: Result<Execution, Error>,
    other: &mut Database,
    name: &str,
    root: &str,
    is_directory: bool,
    added: Result<Workspace, Error>,
)
    requires
        call_ensures(Database::create_execution, (db, request, cwd), created),
        call_ensures(Database::add_workspace, (other, name, root, is_directory), added),
    ensures
        created matches Ok(execution) ==> codec::identifier_form(execution@.id)
            && execution@.command == request@.command && execution@.cwd == cwd@
            && execution@.workspace_id == request@.workspace_id && execution@.state
            == ExecutionState::Queued,
        created is Err ==> final(db)@ == old(db)@,
        added matches Ok(workspace) ==> workspace@.name == name@ && workspace@.root == root@,
        added is Err ==> final(other)@ == old(other)@,
{
    let test = |row: crate::store::rows::WorkspaceRowView| row.workspace.root == root@;
    order::position_is_first(old(other)@.workspaces, test);
    if added is Ok {
        match crate::store::rows::root_place(old(other)@, root@) {
            Some(at) => {
                assert(test(old(other)@.workspaces[at]));
            },
            None => {},
        }
    }
}

/// A start and an end that are noted by the clock are the ones that are given.
pub proof fn starts_and_ends_are_noted_by_the_clock(
    db: &mut Database,
    id: &str,
    pid: u32,
    pgid: i32,
    marked: Result<ExecutionEvent, Error>,
    other: &mut Database,
    state: ExecutionState,
    outcome: ExecutionOutcome,
    finished: Result<ExecutionEvent, Error>,
    third: &mut Database,
    limit: u64,
    cut: Result<ExecutionEvent, Error>,
    at: int,
)
    requires
        call_ensures(Database::mark_running, (db, id, pid, pgid), marked),
        call_ensures(Database::finish, (other, id, state, outcome), finished),
        call_ensures(Database::mark_truncated, (third, id, limit), cut),
    ensures
        marked is Ok && order::first_at(
            old(db)@.executions,
            |row: ExecutionRowView| row.id == id@,
            at,
        ) ==> final(db)@.executions[at].pid == Some(pid) && final(db)@.executions[at].pgid == Some(
            pgid,
        ) && final(db)@.executions[at].state == ExecutionState::Running,
        finished is Ok && order::first_at(
            old(other)@.executions,
            |row: ExecutionRowView| row.id == id@,
            at,
        ) ==> final(other)@.executions[at].state == state && final(other)@.executions[at].outcome
            == Some(outcome@),
        cut is Ok && order::first_at(
            old(third)@.executions,
            |row: ExecutionRowView| row.id == id@,
            at,
        ) ==> final(third)@.executions[at].output_truncated
            && final(third)@.executions[at].events.last().payload == (
        StoredPayloadView::CaptureTruncated { limit_bytes: limit }),
        marked is Err ==> final(db)@ == old(db)@,
        finished is Err ==> final(other)@ == old(other)@,
        cut is Err ==> final(third)@ == old(third)@,
{
    let test = |row: ExecutionRowView| row.id == id@;
    if order::first_at(old(db)@.executions, test, at) {
        order::position_found(old(db)@.executions, test, at);
    }
    if order::first_at(old(other)@.executions, test, at) {
        order::position_found(old(other)@.executions, test, at);
    }
    if order::first_at(old(third)@.executions, test, at) {
        order::position_found(old(third)@.executions, test, at);
    }
}

/// A session that begins or ends by the clock does so as it was asked for, and
/// so is what an agent reports.
pub proof fn sessions_are_kept_by_the_clock(
    db: &mut Database,
    request: &AgentSessionRequest,
    cwd: &str,
    created: Result<AgentSession, Error>,
    other: &mut Database,
    id: &str,
    finish: &AgentSessionFinish,
    finished: Result<AgentSession, Error>,
    third: &mut Database,
    report: &AgentEventRequest,
    recorded: Result<AgentTurn, Error>,
)
    requires
        call_ensures(Database::create_agent_session, (db, request, cwd), created),
        call_ensures(Database::finish_agent_session, (other, id, finish), finished),
        call_ensures(Database::record_agent_event, (third, report), recorded),
    ensures
        created matches Ok(session) ==> session@.id == request@.id && session@.command
            == request@.command && session@.cwd == cwd@,
        exists|now: i64|
            (final(other)@, error::viewed(finished)) == #[trigger] sessions::finish_session_step(
                old(other)@,
                id@,
                finish@,
                now,
            ),
        exists|turn_id: Seq<char>, action_id: Seq<char>, now: i64|
            (final(third)@, error::viewed(recorded)) == #[trigger] sessions::record_event_step(
                old(third)@,
                report@,
                turn_id,
                action_id,
                now,
            ),
{
}

/// After a restart by the clock nothing is open, and after the queue is
/// cancelled nothing is queued; both leave what had ended.
pub proof fn upkeep_by_the_clock(
    db: &mut Database,
    count: usize,
    other: &mut Database,
    events: Vec<ExecutionEvent>,
    e: int,
)
    requires
        call_ensures(Database::reconcile_incomplete, (db,), count),
        call_ensures(Database::cancel_queued, (other,), events),
    ensures
        0 <= e < old(db)@.executions.len() ==> final(db)@.executions[e].state
            != ExecutionState::Queued && final(db)@.executions[e].state != ExecutionState::Running,
        0 <= e < old(other)@.executions.len() ==> final(other)@.executions[e].state
            != ExecutionState::Queued,
        0 <= e < old(other)@.executions.len() && old(other)@.executions[e].state
            != ExecutionState::Queued ==> final(other)@.executions[e] == old(other)@.executions[e],
{
}

/// What is read is what is stored under the identifier that was given, at the
/// moment that was given; and a call that reads says so where it finds nothing.
pub proof fn what_is_read_is_what_is_stored(
    db: &Database,
    id: &str,
    now: i64,
    found: Result<Execution, Error>,
    after_seq: u64,
    max_bytes: usize,
    page: Result<ReadOutputResponse, Error>,
    detail: Result<AgentSessionDetail, Error>,
    at: int,
)
    requires
        call_ensures(Database::get_execution, (db, id, now), found),
        call_ensures(Database::read_output, (db, id, after_seq, max_bytes, now), page),
        call_ensures(Database::get_agent_session, (db, id, now), detail),
    ensures
        order::first_at(db@.executions, |row: ExecutionRowView| row.id == id@, at) ==> (
        found matches Ok(execution) && execution@ == executions::execution_of(
            db@.executions[at],
            now,
        )) && (page matches Ok(read) && read@ == reading::page_of(
            db@.executions[at],
            after_seq,
            max_bytes,
            now,
        )),
        (forall|e: int| 0 <= e < db@.executions.len() ==> (#[trigger] db@.executions[e]).id != id@)
            ==> found is Err && page is Err,
        error::viewed(detail) == session_reading::session_detail(db@, id@, now),
{
    let test = |row: ExecutionRowView| row.id == id@;
    order::position_is_first(db@.executions, test);
    if order::first_at(db@.executions, test, at) {
        order::position_found(db@.executions, test, at);
    }
}

/// A list is the beginning of what was asked for, of the workspace that was
/// named, and has no more rows than were asked for.
pub proof fn lists_are_what_was_asked_for(
    db: &Database,
    workspace: Option<&str>,
    limit: u32,
    now: i64,
    list: Vec<Execution>,
    records: Vec<AgentSession>,
    k: int,
)
    requires
        call_ensures(Database::list_executions, (db, workspace, limit, now), list),
        call_ensures(Database::list_agent_sessions, (db, workspace, limit), records),
    ensures
        list@.len() <= limit && records@.len() <= limit,
        0 <= k < list@.len() ==> k < reading::executions_asked(
            db@,
            reading::maybe_str(workspace),
        ).len() && list@[k]@ == executions::execution_of(
            reading::executions_asked(db@, reading::maybe_str(workspace))[k],
            now,
        ),
        list@.len() < limit ==> list@.len() == reading::executions_asked(
            db@,
            reading::maybe_str(workspace),
        ).len(),
        0 <= k < records@.len() ==> k < session_reading::sessions_asked(
            db@,
            reading::maybe_str(workspace),
        ).len() && records@[k]@ == sessions::session_of(
            session_reading::sessions_asked(db@, reading::maybe_str(workspace))[k],
        ),
{
    let works = list@.map_values(|item: Execution| item@);
    let told = records@.map_values(|item: AgentSession| item@);
    assert(works.len() == list@.len());
    assert(told.len() == records@.len());
    if 0 <= k < list@.len() {
        assert(works[k] == list@[k]@);
    }
    if 0 <= k < records@.len() {
        assert(told[k] == records@[k]@);
    }
}

/// A command that is handed to the store is served at some moment, or at the
/// one that is given.
pub proof fn commands_are_served(
    db: &mut Database,
    command: StoreCommand,
    now: i64,
    first: String,
    second: String,
    reply: StoreReply,
)
    requires
        call_ensures(Database::serve_at, (db, command, now, first, second), reply),
    ensures
        serve::served(old(db)@, command, now, first@, second@, final(db)@, reply),
{
}

/// A run, a meter and the slots go on as is said of them.
pub proof fn steps_are_taken(
    run: &mut Run,
    input: RunInput,
    now: i64,
    action: RunAction,
    meter: &mut CaptureMeter,
    id: &str,
    stream: OutputStream,
    data: &Vec<u8>,
    records: Vec<CaptureRecord>,
    places: &mut Slots,
    event: SlotEvent,
    change: SlotChange,
)
    requires
        call_ensures(Run::step, (run, input, now), action),
        call_ensures(CaptureMeter::capture_output, (meter, id, stream, data, now), records),
        call_ensures(Slots::step, (places, event), change),
    ensures
        (final(run)@, action@) == executor::run_on(old(run)@, input@, now),
        (*final(meter), capture::record_views(records@)) == executor::measured(
            *old(meter),
            id@,
            stream,
            data@,
            now,
        ),
        (final(places)@, change@) == slots::slot_step(old(places)@, event),
{
}

/// Work that is admitted runs in a directory of its workspace, is put under the
/// workspace's own identifier, and runs the command that was asked for; what
/// points outside is refused and leaves everything as it was.
pub proof fn admitted_work_is_what_was_asked(
    db: &mut Database,
    workspace: &Workspace,
    request: &mut ExecutionRequest,
    canonical: String,
    id: String,
    now: i64,
    execution: Result<Execution, Error>,
)
    requires
        call_ensures(
            executor::admit_execution,
            (db, workspace, request, canonical, id, now),
            execution,
        ),
    ensures
        !paths::below(canonical@, workspace@.root) ==> (execution matches Err(error) && error
            is OutsideWorkspace) && final(db)@ == old(db)@,
        execution matches Ok(admitted) ==> admitted@.id == id@ && admitted@.cwd == canonical@
            && admitted@.command == old(request)@.command && admitted@.workspace_id
            == workspace@.id && paths::below(canonical@, workspace@.root),
        final(request)@.command == old(request)@.command && final(request)@.stdin_base64
            == old(request)@.stdin_base64 && final(request)@.env == old(request)@.env,
{
}

} // verus!
