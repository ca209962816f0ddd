//! What commands to the store do, and how their replies reach the client.

use vstd::prelude::*;

use crate::cli;
use crate::client;
use crate::config::AppPaths;
use crate::dispatch;
use crate::error;
use crate::error::{Error, ErrorView};
use crate::model;
use crate::model::{
    AgentSession, AgentSessionRequest, AgentTurn, CommandSpec, CommandSpecView, Execution,
    ExecutionRequest, ExecutionStats, Health, ReadOutputResponse, WaitResponse, Workspace,
};
use crate::protocol::{ProtocolResult, ProtocolResultView};
use crate::report;
use crate::screen;
use crate::store::capture;
use crate::store::executions;
use crate::store::reading;
use crate::store::retention;
use crate::store::rows::{DatabaseView, ExecutionRowView};
use crate::store::serve;
use crate::store::serve::{StoreCommand, StoreReply};
use crate::store::session_reading;
use crate::store::sessions;
use crate::store::workspaces;
use crate::text;

verus! {

/// Each command to the store is carried out as the step that it names, with its
/// own arguments, and a command that reads changes nothing.
pub proof fn commands_do_what_they_say(
    db: DatabaseView,
    command: StoreCommand,
    now: i64,
    first: Seq<char>,
    second: Seq<char>,
    after: DatabaseView,
    reply: StoreReply,
)
    requires
        serve::served(db, command, now, first, second, after, reply),
    ensures
        match (command, reply) {
            (StoreCommand::RemoveWorkspace { identifier }, StoreReply::Done(answer)) => after
                == workspaces::remove_workspace_step(db, identifier@).0 && answer is Ok
                == workspaces::remove_workspace_step(db, identifier@).1 is Ok,
            (StoreCommand::MarkRunning { id, pid, pgid }, StoreReply::Event(answer)) => (
                after,
                error::viewed(answer),
            ) == executions::mark_running_step(db, id@, pid, pgid, now),
            (StoreCommand::Finish { id, state, outcome }, StoreReply::Event(answer)) => (
                after,
                error::viewed(answer),
            ) == executions::finish_step(db, id@, state, outcome@, now),
            (StoreCommand::AppendCaptureBatch { records }, StoreReply::Events(answer)) => after
                == capture::append_batch_step(db, capture::record_views(records@)).0 && answer
                is Ok == capture::append_batch_step(db, capture::record_views(records@)).1 is Ok,
            (StoreCommand::CreateAgentSession { request, cwd }, StoreReply::Session(answer)) => (
                after,
                error::viewed(answer),
            ) == sessions::create_session_step(db, request@, cwd@, now),
            (StoreCommand::FinishAgentSession { id, finish }, StoreReply::Session(answer)) => (
                after,
                error::viewed(answer),
            ) == sessions::finish_session_step(db, id@, finish@, now),
            (StoreCommand::DeleteAgentSession { id }, StoreReply::Done(answer)) => after
                == session_reading::delete_session_step(db, id@).0 && answer is Ok
                == session_reading::delete_session_step(db, id@).1 is Ok,
            (StoreCommand::RecordAgentEvent { request }, StoreReply::Turn(answer)) => (
                after,
                error::viewed(answer),
            ) == sessions::record_event_step(db, request@, first, second, now),
            (StoreCommand::ReconcileIncomplete, StoreReply::Count(answer)) => after
                == retention::reconciled(db, now),
            (StoreCommand::CancelQueued, StoreReply::Events(answer)) => after
                == retention::queue_cancelled(db, now),
            (StoreCommand::Prune { retention_days, retention_bytes }, StoreReply::Count(answer)) =>
                after == retention::prune_step(db, retention_days, retention_bytes, now).0,
            (StoreCommand::GetAgentSession { id }, StoreReply::Detail(answer)) => after == db
                && error::viewed(answer) == session_reading::session_detail(db, id@, now),
            (
                StoreCommand::ListAgentSessions { workspace, limit },
                StoreReply::Sessions(list),
            ) => after == db && list@.len() == reading::at_most(
                session_reading::sessions_asked(db, text::maybe_text(workspace)),
                limit as int,
            ).len() && (forall|k: int|
                0 <= k < list@.len() ==> (#[trigger] list@[k])@ == sessions::session_of(
                    session_reading::sessions_asked(db, text::maybe_text(workspace))[k],
                )),
            (StoreCommand::ListExecutions { workspace, limit }, StoreReply::Executions(list)) =>
                after == db && list@.len() == reading::at_most(
                reading::executions_asked(db, text::maybe_text(workspace)),
                limit as int,
            ).len() && (forall|k: int|
                0 <= k < list@.len() ==> (#[trigger] list@[k])@ == executions::execution_of(
                    reading::executions_asked(db, text::maybe_text(workspace))[k],
                    now,
                )),
            (StoreCommand::ActiveAgentSessions, StoreReply::Sessions(list)) => after == db
                && list@.len() == session_reading::recording_sessions(db).len(),
            (
                StoreCommand::ReadOutput { id, after_seq, max_bytes },
                StoreReply::Output(answer),
            ) => after == db && (answer matches Ok(page) ==> exists|e: int|
                0 <= e < db.executions.len() && (#[trigger] db.executions[e]).id == id@ && page@
                    == reading::page_of(db.executions[e], after_seq, max_bytes, now)),
            (StoreCommand::GetExecution { id }, StoreReply::Execution(answer)) => after == db,
            (StoreCommand::CreateExecution { request, cwd }, StoreReply::Execution(answer)) => (
                after,
                error::viewed(answer),
            ) == executions::create_execution_step(db, request@, cwd@, first, now),
            (
                StoreCommand::AddWorkspace { name, root, is_directory },
                StoreReply::Workspace(answer),
            ) => (after, error::viewed(answer)) == workspaces::add_workspace_step(
                db,
                name@,
                root@,
                is_directory,
                first,
                now,
            ),
            (StoreCommand::GetWorkspace { identifier }, StoreReply::Workspace(answer)) => after
                == db,
            (StoreCommand::FindWorkspaceByRoot { root }, StoreReply::MaybeWorkspace(answer)) =>
                after == db,
            (StoreCommand::ListWorkspaces, StoreReply::Workspaces(list)) => after == db,
            (
                StoreCommand::ExecutionStats { workspace, since_ms, until_ms },
                StoreReply::Stats(answer),
            ) => after == db,
            (StoreCommand::Shutdown, StoreReply::Stopped) => after == db,
            _ => false,
        },
{
    match (command, reply) {
        (
            StoreCommand::ListAgentSessions { workspace, limit },
            StoreReply::Sessions(list),
        ) => {
            let views = list@.map_values(|item: AgentSession| item@);
            let rows = reading::at_most(
                session_reading::sessions_asked(db, text::maybe_text(workspace)),
                limit as int,
            );
            assert(views.len() == list@.len());
            assert forall|k: int| 0 <= k < list@.len() implies (#[trigger] list@[k])@
                == sessions::session_of(
                session_reading::sessions_asked(db, text::maybe_text(workspace))[k],
            ) by {
                assert(views[k] == list@[k]@);
                assert(views[k] == sessions::session_of(rows[k]));
            }
        },
        (StoreCommand::ListExecutions { workspace, limit }, StoreReply::Executions(list)) => {
            let views = list@.map_values(|item: Execution| item@);
            let rows = reading::at_most(
                reading::executions_asked(db, text::maybe_text(workspace)),
                limit as int,
            );
            assert(views.len() == list@.len());
            assert forall|k: int| 0 <= k < list@.len() implies (#[trigger] list@[k])@
                == executions::execution_of(
                reading::executions_asked(db, text::maybe_text(workspace))[k],
                now,
            ) by {
                assert(views[k] == list@[k]@);
                assert(views[k] == executions::execution_of(rows[k], now));
            }
        },
        (StoreCommand::ActiveAgentSessions, StoreReply::Sessions(list)) => {
            let views = list@.map_values(|item: AgentSession| item@);
            assert(views.len() == list@.len());
        },
        (StoreCommand::ReadOutput { id, after_seq, max_bytes }, StoreReply::Output(answer)) => {
            let test = |row: ExecutionRowView| row.id == id@;
            crate::order::position_is_first(db.executions, test);
            if answer is Ok {
                let e = crate::store::rows::execution_place(db, id@)->0;
                assert(test(db.executions[e]));
                assert(db.executions[e].id == id@);
            }
        },
        _ => {},
    }
}

/// What the store replies is told as it is: a value as that value, and a
/// failure as that failure.
pub proof fn replies_are_told_as_they_are(reply: StoreReply)
    ensures
        match reply {
            StoreReply::Execution(Ok(value)) => dispatch::told(reply) == Some(
                Ok::<ProtocolResultView, ErrorView>(ProtocolResultView::Execution(value@)),
            ),
            StoreReply::Execution(Err(error)) => dispatch::told(reply) == Some(
                Err::<ProtocolResultView, ErrorView>(error@),
            ),
            StoreReply::Workspace(Ok(value)) => dispatch::told(reply) == Some(
                Ok::<ProtocolResultView, ErrorView>(ProtocolResultView::Workspace(value@)),
            ),
            StoreReply::Session(Ok(value)) => dispatch::told(reply) == Some(
                Ok::<ProtocolResultView, ErrorView>(ProtocolResultView::AgentSession(value@)),
            ),
            StoreReply::Detail(Ok(value)) => dispatch::told(reply) == Some(
                Ok::<ProtocolResultView, ErrorView>(ProtocolResultView::AgentSessionDetail(value@)),
            ),
            StoreReply::Turn(Ok(value)) => dispatch::told(reply) == Some(
                Ok::<ProtocolResultView, ErrorView>(ProtocolResultView::AgentTurn(value@)),
            ),
            StoreReply::Output(Ok(value)) => dispatch::told(reply) == Some(
                Ok::<ProtocolResultView, ErrorView>(ProtocolResultView::Output(value@)),
            ),
            StoreReply::Stats(Ok(value)) => dispatch::told(reply) == Some(
                Ok::<ProtocolResultView, ErrorView>(ProtocolResultView::Stats(value@)),
            ),
            StoreReply::Done(Ok(_)) => dispatch::told(reply) == Some(
                Ok::<ProtocolResultView, ErrorView>(ProtocolResultView::Empty),
            ),
            StoreReply::Workspace(Err(error)) => dispatch::told(reply) == Some(
                Err::<ProtocolResultView, ErrorView>(error@),
            ),
            StoreReply::Session(Err(error)) => dispatch::told(reply) == Some(
                Err::<ProtocolResultView, ErrorView>(error@),
            ),
            StoreReply::Detail(Err(error)) => dispatch::told(reply) == Some(
                Err::<ProtocolResultView, ErrorView>(error@),
            ),
            StoreReply::Turn(Err(error)) => dispatch::told(reply) == Some(
                Err::<ProtocolResultView, ErrorView>(error@),
            ),
            StoreReply::Output(Err(error)) => dispatch::told(reply) == Some(
                Err::<ProtocolResultView, ErrorView>(error@),
            ),
            StoreReply::Stats(Err(error)) => dispatch::told(reply) == Some(
                Err::<ProtocolResultView, ErrorView>(error@),
            ),
            StoreReply::Done(Err(error)) => dispatch::told(reply) == Some(
                Err::<ProtocolResultView, ErrorView>(error@),
            ),
            StoreReply::Executions(list) => dispatch::told(reply) == Some(
                Ok::<ProtocolResultView, ErrorView>(ProtocolResult::Executions(list)@),
            ),
            StoreReply::Sessions(list) => dispatch::told(reply) == Some(
                Ok::<ProtocolResultView, ErrorView>(ProtocolResult::AgentSessions(list)@),
            ),
            StoreReply::Workspaces(list) => dispatch::told(reply) == Some(
                Ok::<ProtocolResultView, ErrorView>(ProtocolResult::Workspaces(list)@),
            ),
            _ => true,
        },
{
}

/// A client takes from an answer what it asked for, as it is, and hands any
/// other answer back.
pub proof fn clients_take_what_they_asked_for(
    result: ProtocolResult,
    health: Result<Health, ProtocolResult>,
    workspace: Result<Workspace, ProtocolResult>,
    execution: Result<Execution, ProtocolResult>,
    stats: Result<ExecutionStats, ProtocolResult>,
    output: Result<ReadOutputResponse, ProtocolResult>,
    wait: Result<WaitResponse, ProtocolResult>,
    session: Result<AgentSession, ProtocolResult>,
    turn: Result<AgentTurn, ProtocolResult>,
    empty: Result<(), ProtocolResult>,
)
    requires
        call_ensures(client::expect_health, (result,), health),
        call_ensures(client::expect_workspace, (result,), workspace),
        call_ensures(client::expect_execution, (result,), execution),
        call_ensures(client::expect_stats, (result,), stats),
        call_ensures(client::expect_output, (result,), output),
        call_ensures(client::expect_wait, (result,), wait),
        call_ensures(client::expect_session, (result,), session),
        call_ensures(client::expect_turn, (result,), turn),
        call_ensures(client::expect_empty, (result,), empty),
    ensures
        match result@ {
            ProtocolResultView::Health(told) => health matches Ok(value) && value@ == told,
            ProtocolResultView::Workspace(told) => workspace matches Ok(value) && value@ == told,
            ProtocolResultView::Execution(told) => execution matches Ok(value) && value@ == told,
            ProtocolResultView::Stats(told) => stats matches Ok(value) && value@ == told,
            ProtocolResultView::Output(told) => output matches Ok(value) && value@ == told,
            ProtocolResultView::Wait(told) => wait matches Ok(value) && value@ == told,
            ProtocolResultView::AgentSession(told) => session matches Ok(value) && value@ == told,
            ProtocolResultView::AgentTurn(told) => turn matches Ok(value) && value@ == told,
            ProtocolResultView::Empty => empty is Ok,
            _ => true,
        },
        !(result is Health) ==> health is Err,
        !(result is Execution) ==> execution is Err,
        !(result is Output) ==> output is Err,
        !(result is AgentSession) ==> session is Err,
        !(result is Empty) ==> empty is Err,
{
}

/// Everything that is kept has its directory made: for the state, for the
/// sessions, for the runtime, and for the settings where they have one.
pub proof fn directories_are_made(
    paths: &AppPaths,
    config_dir: Option<String>,
    directories: Vec<String>,
)
    requires
        call_ensures(AppPaths::ensure, (paths, config_dir), directories),
    ensures
        text::texts(directories@).contains(paths@.state_dir),
        text::texts(directories@).contains(paths@.sessions_dir),
        text::texts(directories@).contains(paths@.runtime_dir),
        config_dir matches Some(path) ==> text::texts(directories@).contains(path@),
{
    let all = text::texts(directories@);
    assert(all[0] == paths@.state_dir && all[1] == paths@.sessions_dir && all[2]
        == paths@.runtime_dir);
    match config_dir {
        Some(path) => {
            assert(all[3] == path@);
        },
        None => {},
    }
}

/// What is recorded is asked for as it stands on the command line, and its end
/// is reported once more only where no daemon was there; without a terminal
/// nothing is recorded.
pub proof fn a_recording_is_asked_for(
    id: String,
    workspace_id: String,
    requested: Option<String>,
    second: &str,
    name: Option<String>,
    command: CommandSpec,
    cwd: String,
    recorder_pid: u32,
    cols: u16,
    rows: u16,
    cast_path: String,
    html_path: String,
    request: AgentSessionRequest,
)
    requires
        call_ensures(
            cli::session_request,
            (
                id,
                workspace_id,
                requested,
                second,
                name,
                command,
                cwd,
                recorder_pid,
                cols,
                rows,
                cast_path,
                html_path,
            ),
            request,
        ),
    ensures
        request@.id == id@ && request@.workspace_id == workspace_id@ && request@.command
            == command@ && request@.cwd == cwd@,
        request@.recorder_pid == recorder_pid && request@.initial_cols == cols
            && request@.initial_rows == rows,
        request@.cast_path == cast_path@ && request@.html_path == html_path@,
        requested matches Some(kind) ==> request@.agent_kind == kind@,
        name matches Some(given) ==> request@.name == Some(given@),
        name is None ==> request@.name is None,
{
}

/// The end of a recording is reported once more only where no daemon was there
/// to take it; and what needs a terminal is refused without one.
pub proof fn reports_are_tried_again(
    answer: &Result<AgentSession, Error>,
    again: bool,
    feature: &str,
    input: bool,
    output: bool,
    checked: Result<(), Error>,
)
    requires
        call_ensures(cli::tries_again, (answer,), again),
        call_ensures(cli::ensure_interactive, (feature, input, output), checked),
    ensures
        again == (answer is Err && answer->Err_0 is DaemonUnavailable),
        checked is Ok == (input && output),
{
}

/// What a request gives a command to read is what its text decodes to.
pub proof fn input_is_what_was_given(
    request: &ExecutionRequest,
    stdin: Result<Option<Vec<u8>>, Error>,
)
    requires
        call_ensures(ExecutionRequest::stdin_bytes, (request,), stdin),
    ensures
        match (request@.stdin_base64, stdin) {
            (None, Ok(None)) => true,
            (Some(given), Ok(Some(data))) => crate::codec::base64_decoding(given)
                == crate::codec::good(data@),
            (Some(given), Err(_)) => crate::codec::base64_decoding(given) is Err,
            _ => false,
        },
{
}

/// A line for a shell is shown as it is.
pub proof fn a_line_is_shown_as_it_is(line: Seq<char>, shell: Option<Seq<char>>)
    ensures
        model::shown_command(CommandSpecView::Shell { command: line, shell }) == line,
{
}

/// Texts that are put together stand in the result, each of them.
pub proof fn joined_texts_are_all_there(list: Seq<Seq<char>>, separator: Seq<char>, i: int)
    requires
        0 <= i < list.len(),
    ensures
        text::occurs(report::separated(list, separator), list[i]),
    decreases list.len(),
{
    let all = report::separated(list, separator);
    let item = list[i];
    if i == list.len() - 1 {
        let at = all.len() - item.len();
        assert(all.subrange(at, at + item.len()) =~= item);
        assert(text::stands_at(all, item, at));
    } else {
        let front = report::separated(list.drop_last(), separator);
        joined_texts_are_all_there(list.drop_last(), separator, i);
        let at = choose|at: int| #[trigger] text::stands_at(front, item, at);
        assert(all.subrange(at, at + item.len()) =~= front.subrange(at, at + item.len()));
        assert(text::stands_at(all, item, at));
    }
}

/// Some words one after the other, with nothing between them.
pub open spec fn run_together(words: Seq<Seq<char>>) -> Seq<char>
    decreases words.len(),
{
    if words.len() == 0 {
        Seq::empty()
    } else {
        run_together(words.drop_last()) + words.last()
    }
}

/// A text without its white space.
pub open spec fn without_white_space(own: Seq<char>) -> Seq<char>
    decreases own.len(),
{
    if own.len() == 0 {
        Seq::empty()
    } else if text::white_space(own.last()) {
        without_white_space(own.drop_last())
    } else {
        without_white_space(own.drop_last()).push(own.last())
    }
}

/// The words of a text are all that it holds but for the white space, in its
/// order; none of them is empty, and none holds white space.
pub proof fn words_are_the_text(own: Seq<char>)
    ensures
        run_together(screen::words(own)) == without_white_space(own),
        forall|i: int|
            0 <= i < screen::words(own).len() ==> (#[trigger] screen::words(own)[i]).len() > 0,
        own.len() > 0 && !text::white_space(own.last()) ==> screen::words(own).len() > 0,
    decreases own.len(),
{
    let all = screen::words(own);
    if own.len() > 0 {
        let front = own.drop_last();
        let before = screen::words(front);
        let c = own.last();
        words_are_the_text(front);
        if !text::white_space(c) {
            if own.len() == 1 || text::white_space(own[own.len() - 2]) {
                assert(all.drop_last() =~= before);
                assert(run_together(all) =~= run_together(before).push(c));
            } else {
                assert(front.last() == own[own.len() - 2]);
                assert(all.drop_last() =~= before.drop_last());
                assert(all.last() == before.last().push(c));
                assert(run_together(all) =~= run_together(before).push(c));
                assert forall|i: int| 0 <= i < all.len() implies (#[trigger] all[i]).len() > 0 by {
                    if i < all.len() - 1 {
                        assert(all[i] == before[i]);
                    }
                }
            }
        }
    }
}

} // verus!
