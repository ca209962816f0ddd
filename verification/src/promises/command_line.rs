//! What the command line makes of its arguments and of the answers.

use vstd::prelude::*;

use crate::cli;
use crate::codec;
use crate::error;
use crate::error::ErrorView;
use crate::model::{
    CommandSpecView, EnvVarView, ExecutionOutcomeView, ExecutionState, ExecutionView, HealthView,
    WorkspaceView,
};
use crate::order;
use crate::paths;
use crate::store::rows::{DatabaseView, SessionRowView};
use crate::store::sessions;

verus! {

/// An argument that sets a variable is its key, an equals sign and its value,
/// and the key is not empty and holds no equals sign. Every such text is one.
pub proof fn a_setting_is_taken_apart(text: Seq<char>, key: Seq<char>, value: Seq<char>)
    ensures
        (cli::env_argument(text) == Ok::<EnvVarView, Seq<char>>(EnvVarView { key, value })) == (text
            == key.push('=') + value && key.len() > 0 && !key.contains('=')),
{
    let test = |c: char| c == '=';
    order::position_is_first(text, test);
    if text == key.push('=') + value && key.len() > 0 && !key.contains('=') {
        let at = key.len() as int;
        assert forall|k: int| 0 <= k < at implies !test(#[trigger] text[k]) by {
            assert(text[k] == key[k]);
            assert(key.contains(key[k]));
        }
        assert(text[at] == '=');
        order::position_found(text, test, at);
        assert(text.take(at) =~= key);
        assert(text.skip(at + 1) =~= value);
    }
    if cli::env_argument(text) == Ok::<EnvVarView, Seq<char>>(EnvVarView { key, value }) {
        let at = order::position(text, test)->0;
        assert(test(text[at]));
        assert(text =~= key.push('=') + value);
        if key.contains('=') {
            let k = choose|k: int| 0 <= k < key.len() && key[k] == '=';
            assert(!test(text[k]));
        }
    }
}

/// Words are a command and its arguments, in their order and with nothing left
/// out; without a word there is no command. A line for a shell is taken as it
/// is, whatever words there are.
pub proof fn a_command_is_taken_from_its_words(
    line: Option<Seq<char>>,
    shell: Option<Seq<char>>,
    argv: Seq<Seq<char>>,
    json: bool,
)
    ensures
        match (line, cli::command_asked(line, shell, argv)) {
            (Some(line), Ok(CommandSpecView::Shell { command, shell: by })) => command == line && by
                == shell,
            (None, Ok(CommandSpecView::Argv { program, args })) => seq![program] + args == argv,
            (None, Err(_)) => argv.len() == 0,
            _ => false,
        },
        match cli::command_to_record(json, argv) {
            Ok(CommandSpecView::Argv { program, args }) => !json && seq![program] + args == argv,
            Ok(_) => false,
            Err(_) => json || argv.len() == 0,
        },
{
    if argv.len() > 0 {
        assert(seq![argv[0]] + argv.drop_first() =~= argv);
    }
}

/// Of the settings of a variable the last one holds, and no variable is set
/// that no argument sets.
pub proof fn the_last_setting_holds(items: Seq<EnvVarView>, key: Seq<char>)
    ensures
        match cli::env_value(cli::env_of(items), key) {
            Some(value) => exists|i: int|
                {
                    &&& 0 <= i < items.len()
                    &&& (#[trigger] items[i]).key == key && items[i].value == value
                    &&& forall|k: int| i < k < items.len() ==> (#[trigger] items[k]).key != key
                },
            None => forall|i: int| 0 <= i < items.len() ==> (#[trigger] items[i]).key != key,
        },
    decreases items.len(),
{
    if items.len() > 0 {
        let front = items.drop_last();
        let n = items.len() - 1;
        the_last_setting_holds(front, key);
        cli::variables_stand_in_order(front);
        cli::setting_a_variable(cli::env_of(front), items.last(), key);
        if items.last().key == key {
            assert(items[n].key == key && items[n].value == items.last().value);
        } else {
            match cli::env_value(cli::env_of(front), key) {
                Some(value) => {
                    let i = choose|i: int|
                        {
                            &&& 0 <= i < front.len()
                            &&& (#[trigger] front[i]).key == key && front[i].value == value
                            &&& forall|k: int|
                                i < k < front.len() ==> (#[trigger] front[k]).key != key
                        };
                    assert(items[i].key == key && items[i].value == value);
                    assert forall|k: int| i < k < items.len() implies (#[trigger] items[k]).key
                        != key by {
                        if k < n {
                            assert(front[k] == items[k]);
                        }
                    }
                },
                None => {
                    assert forall|i: int| 0 <= i < items.len() implies (#[trigger] items[i]).key
                        != key by {
                        if i < n {
                            assert(front[i] == items[i]);
                        }
                    }
                },
            }
        }
    }
}

/// What is asked of the daemon is what stands on the command line: the command,
/// where it runs, what it reads, its variables and its limit. It is said to
/// come from the command line, and from the session that the environment names.
pub proof fn what_is_asked_is_what_stands_there(
    workspace_id: Seq<char>,
    cwd: Option<Seq<char>>,
    command: CommandSpecView,
    env: Seq<EnvVarView>,
    stdin: Option<Seq<u8>>,
    session: Option<Seq<char>>,
    limit: Option<u64>,
    key: Seq<char>,
)
    requires
        stdin matches Some(data) ==> codec::base64_decoding(codec::base64_text(data))
            == codec::good(data),
    ensures
        ({
            let request = cli::line_request(
                workspace_id,
                cwd,
                command,
                env,
                stdin,
                session,
                limit,
            );
            &&& request.workspace_id == workspace_id
            &&& request.cwd == cwd
            &&& request.command == command
            &&& request.capture_limit_bytes == limit
            &&& match (stdin, request.stdin_base64) {
                (Some(data), Some(text)) => codec::base64_decoding(text) == codec::good(data),
                (None, None) => true,
                _ => false,
            }
            &&& match cli::env_value(request.env, key) {
                Some(value) => exists|i: int|
                    0 <= i < env.len() && (#[trigger] env[i]).key == key && env[i].value == value,
                None => forall|i: int| 0 <= i < env.len() ==> (#[trigger] env[i]).key != key,
            }
            &&& request.initiator.kind == "cli"@ && request.initiator.name == Some("loom"@)
            &&& match request.initiator.session_id {
                Some(id) => session == Some(id) && id.len() > 0,
                None => session matches Some(id) ==> id.len() == 0,
            }
        }),
{
    the_last_setting_holds(env, key);
    if cli::env_value(cli::env_of(env), key) is Some {
        let value = cli::env_value(cli::env_of(env), key)->0;
        let i = choose|i: int|
            {
                &&& 0 <= i < env.len()
                &&& (#[trigger] env[i]).key == key && env[i].value == value
                &&& forall|k: int| i < k < env.len() ==> (#[trigger] env[k]).key != key
            };
        assert(env[i].key == key && env[i].value == value);
    }
}

/// The workspace that was named is used; else one that the directory lies in,
/// and none that it lies in has a longer root. Without one there is an error.
pub proof fn a_directory_finds_its_workspace(
    requested: Option<Seq<char>>,
    workspaces: Seq<WorkspaceView>,
    cwd: Seq<char>,
)
    ensures
        match (requested, cli::workspace_for(requested, workspaces, cwd)) {
            (Some(name), Ok(id)) => id == name,
            (None, Ok(id)) => exists|w: int|
                {
                    &&& 0 <= w < workspaces.len()
                    &&& (#[trigger] workspaces[w]).id == id
                    &&& paths::below(cwd, workspaces[w].root)
                    &&& forall|k: int|
                        0 <= k < workspaces.len() && paths::below(
                            cwd,
                            (#[trigger] workspaces[k]).root,
                        ) ==> cli::byte_count(workspaces[k].root) <= cli::byte_count(
                            workspaces[w].root,
                        )
                },
            (None, Err(_)) => forall|k: int|
                0 <= k < workspaces.len() ==> !paths::below(cwd, (#[trigger] workspaces[k]).root),
            _ => false,
        },
{
    cli::the_closest_holds(workspaces, cwd);
    if requested is None && cli::closest(workspaces, cwd) is Some {
        let w = cli::closest(workspaces, cwd)->0;
        assert(workspaces[w].id == cli::workspace_for(requested, workspaces, cwd)->Ok_0);
    }
}

/// The agent that was named is the agent; else it is the one of the two known
/// ones after which the program's file is called, and no known one for any
/// other program or a line for a shell.
pub proof fn an_agent_is_known_by_its_program(
    requested: Option<Seq<char>>,
    second: Seq<char>,
    command: CommandSpecView,
)
    ensures
        ({
            let kind = cli::agent_kind_of(requested, second, command);
            match requested {
                Some(named) => kind == named,
                None => match command {
                    CommandSpecView::Argv { program, args } => match paths::last_name(program) {
                        Some(file) => {
                            &&& file == "codex"@ || file == second ==> kind == file
                            &&& file != "codex"@ && file != second ==> kind == "generic"@
                        },
                        None => kind == "generic"@ || kind == program,
                    },
                    CommandSpecView::Shell { command, shell } => kind == "generic"@,
                },
            }
        }),
{
}

/// The window of so many days holds exactly what is not older than that many
/// times twenty-four hours.
pub proof fn a_window_reaches_back_so_many_days(now: i64, days: u32, at: i64)
    ensures
        (cli::days_before(now, days) <= at) == (now - at <= days * 24 * 60 * 60 * 1000),
        i64::MIN <= cli::days_before(now, days) <= now,
{
    assert(days * 24 * 60 * 60 * 1000 == days * cli::DAY_MS) by (nonlinear_arith)
        requires
            cli::DAY_MS == 86_400_000,
    ;
}

/// The program ends with success exactly where the command did, and with the
/// command's own code where it has one. A command that a signal ended shows as
/// the signal above one hundred and twenty-eight, as in a shell, so that the
/// signal can be told from the code.
pub proof fn the_exit_code_tells_the_outcome(outcome: Option<ExecutionOutcomeView>)
    ensures
        match outcome {
            Some(ExecutionOutcomeView::Exited { code }) => cli::exit_code(outcome) == code,
            Some(ExecutionOutcomeView::Signaled { signal }) => cli::exit_code(outcome) - 128
                == signal,
            Some(ExecutionOutcomeView::Cancelled { signal: Some(signal) }) => cli::exit_code(
                outcome,
            ) - 128 == signal,
            Some(ExecutionOutcomeView::Cancelled { signal: None }) => cli::exit_code(outcome) - 128
                == 15,
            Some(ExecutionOutcomeView::SpawnError { message }) => cli::exit_code(outcome) == 126,
            _ => cli::exit_code(outcome) == 1,
        },
        (match outcome {
            Some(ExecutionOutcomeView::Signaled { signal }) => signal > 0,
            Some(ExecutionOutcomeView::Cancelled { signal: Some(signal) }) => signal > 0,
            _ => true,
        }) ==> ((cli::exit_code(outcome) == 0) == (outcome == Some(
            ExecutionOutcomeView::Exited { code: 0 },
        ))),
{
}

/// A daemon is restarted where it is forced to be, or says of itself that it
/// runs nothing and records nothing; and in no other case.
pub proof fn only_an_idle_daemon_is_restarted(health: HealthView, force: bool)
    ensures
        (cli::restart_fault(health, force) is None) == (force || (health.active_executions == Some(
            0u64,
        ) && health.active_sessions == Some(0u64))),
{
}

/// A stream of events gives the execution it was of, and only once that has
/// ended.
pub proof fn a_closed_stream_gives_what_ended(execution: ExecutionView)
    ensures
        cli::closed_with(execution) == (if execution.state == ExecutionState::Queued
            || execution.state == ExecutionState::Running {
            Err(ErrorView::Protocol("execution subscription closed before completion"@))
        } else {
            Ok(execution)
        }),
{
}

/// The end of a recording that is reported is the one that is stored: with the
/// outcome of the command, or, where the recording failed, cut off with the
/// reason.
pub proof fn the_end_of_a_recording_is_stored(
    db: DatabaseView,
    id: Seq<char>,
    outcome: ExecutionOutcomeView,
    bytes: u64,
    truncated: bool,
    failure: ErrorView,
    now: i64,
    at: int,
)
    requires
        order::first_at(db.sessions, |row: SessionRowView| row.id == id, at),
        db.sessions[at].state == crate::model::AgentSessionState::Recording,
        bytes <= i64::MAX,
    ensures
        sessions::finish_session_step(
            db,
            id,
            cli::recorded_end(outcome, bytes, truncated),
            now,
        ).1 matches Ok(session) && session.outcome == Some(outcome) && session.captured_bytes
            == bytes && session.output_truncated == truncated && session.ended_at_ms == Some(now),
        sessions::finish_session_step(db, id, cli::failed_end(failure), now).1 matches Ok(session)
            && session.outcome == Some(
            ExecutionOutcomeView::Interrupted { reason: error::error_message(failure) },
        ),
{
    order::position_found(db.sessions, |row: SessionRowView| row.id == id, at);
}

} // verus!
