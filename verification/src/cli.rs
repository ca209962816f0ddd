//! The command line: what its arguments ask for, and what is made of answers.

use vstd::prelude::*;

use crate::codec;
use crate::codec::{decode_base64, encode_base64};
use crate::error;
use crate::error::{Error, ErrorView};
use crate::model;
use crate::model::{
    AgentSession, AgentSessionFinish, AgentSessionFinishView, AgentSessionRequest,
    AgentSessionRequestView, AgentSessionState, CommandSpec, CommandSpecView, EnvVar, EnvVarView, Execution, ExecutionEvent, ExecutionEventPayload, ExecutionEventPayloadView,
    ExecutionOutcome, ExecutionOutcomeView, ExecutionRequest, ExecutionRequestView, ExecutionView, Health,
    HealthView, Initiator, InitiatorView, OutputStream, Workspace, WorkspaceView,
};
use crate::order;
use crate::order::comes_after;
use crate::paths;
use crate::paths::{file_name, path_starts_with};
use crate::text;
use crate::text::{chars_of, decimal_text, joined, joined3, same_text, text_between};

verus! {

/// How often a client looks whether a daemon that it has stopped is gone.
pub const STOP_ATTEMPTS: u32 = 600;

/// How long a client waits before it looks again, in milliseconds.
pub const STOP_INTERVAL_MS: u64 = 50;

/// A day in milliseconds.
pub const DAY_MS: i64 = 86_400_000;

/// The name by which a program is called: that of its file, or the whole path
/// where it has none.
pub open spec fn called(program: Seq<char>) -> Seq<char> {
    match paths::last_name(program) {
        Some(name) => name,
        None => program,
    }
}

/// The agent that a command is taken for: the one that was asked for, or else
/// the one of the two that its program is called like.
pub open spec fn agent_kind_of(
    requested: Option<Seq<char>>,
    claude_name: Seq<char>,
    command: CommandSpecView,
) -> Seq<char> {
    match requested {
        Some(kind) => kind,
        None => match command {
            CommandSpecView::Argv { program, args } => if called(program) == "codex"@ {
                "codex"@
            } else if called(program) == claude_name {
                claude_name
            } else {
                "generic"@
            },
            CommandSpecView::Shell { command, shell } => "generic"@,
        },
    }
}

/// Decides which agent a command is. The name of the second agent is handed in.
pub fn resolve_agent_kind(requested: Option<String>, claude_name: &str, command: &CommandSpec) -> (kind:
    String)
    ensures
        kind@ == agent_kind_of(text::maybe_text(requested), claude_name@, command@),
{
    match requested {
        Some(kind) => {
            return kind;
        },
        None => {},
    }
    match command {
        CommandSpec::Argv { program, args } => {
            let name = match file_name(program.as_str()) {
                Some(name) => name,
                None => program.clone(),
            };
            if same_text(name.as_str(), "codex") || same_text(name.as_str(), claude_name) {
                name
            } else {
                "generic".to_owned()
            }
        },
        CommandSpec::Shell { command, shell } => "generic".to_owned(),
    }
}

/// The command that words make: the first is the program. `missing` is the
/// complaint where there is none.
pub open spec fn argv_command(argv: Seq<Seq<char>>, missing: Seq<char>) -> Result<
    CommandSpecView,
    ErrorView,
> {
    if argv.len() == 0 {
        Err(error::refused(missing))
    } else {
        Ok(CommandSpecView::Argv { program: argv[0], args: argv.drop_first() })
    }
}

/// Makes a command of words.
pub fn command_from_argv(argv: Vec<String>, missing: &str) -> (command: Result<CommandSpec, Error>)
    ensures
        error::viewed(command) == argv_command(text::texts(argv@), missing@),
{
    let mut words = argv;
    if words.len() == 0 {
        return Err(Error::InvalidRequest(missing.to_owned()));
    }
    let ghost all = words@;
    let program = words.remove(0);
    assert(text::texts(words@) =~= text::texts(all).drop_first());
    Ok(CommandSpec::Argv { program, args: words })
}

/// The command that a command line asks for: a line for a shell, or else words.
pub open spec fn command_asked(
    shell: Option<Seq<char>>,
    shell_program: Option<Seq<char>>,
    argv: Seq<Seq<char>>,
) -> Result<CommandSpecView, ErrorView> {
    match shell {
        Some(line) => Ok(CommandSpecView::Shell { command: line, shell: shell_program }),
        None => argv_command(argv, "missing command"@),
    }
}

/// The command to run: a line for a shell, or else words.
pub fn requested_command(shell: Option<String>, shell_program: Option<String>, argv: Vec<String>) -> (command:
    Result<CommandSpec, Error>)
    ensures
        error::viewed(command) == command_asked(
            text::maybe_text(shell),
            text::maybe_text(shell_program),
            text::texts(argv@),
        ),
{
    match shell {
        Some(line) => Ok(CommandSpec::Shell { command: line, shell: shell_program }),
        None => command_from_argv(argv, "missing command"),
    }
}

/// The variable that an argument of the form `KEY=VALUE` sets: the first equals
/// sign ends the key.
pub open spec fn env_argument(text: Seq<char>) -> Result<EnvVarView, Seq<char>> {
    match crate::order::position(text, |c: char| c == '=') {
        None => Err("expected KEY=VALUE"@),
        Some(at) => if at == 0 {
            Err("environment key must be non-empty"@)
        } else {
            Ok(EnvVarView { key: text.take(at), value: text.skip(at + 1) })
        },
    }
}

/// Reads an argument of the form `KEY=VALUE`.
pub fn parse_env(value: &str) -> (parsed: Result<EnvVar, String>)
    ensures
        (match parsed {
            Ok(item) => Ok::<EnvVarView, Seq<char>>(item@),
            Err(message) => Err(message@),
        }) == env_argument(value@),
{
    let chars = chars_of(value);
    let ghost test = |c: char| c == '=';
    let mut i: usize = 0;
    while i < chars.len()
        invariant
            i <= chars.len(),
            chars@ == value@,
            test == (|c: char| c == '='),
            forall|k: int| 0 <= k < i ==> !test(#[trigger] chars@[k]),
        decreases chars.len() - i,
    {
        if chars[i] == '=' {
            proof {
                crate::order::position_found(chars@, test, i as int);
            }
            if i == 0 {
                return Err("environment key must be non-empty".to_owned());
            }
            let key = text_between(&chars, 0, i);
            let rest = text_between(&chars, i + 1, chars.len());
            assert(key@ =~= value@.take(i as int));
            assert(rest@ =~= value@.skip(i + 1));
            return Ok(EnvVar { key, value: rest });
        }
        i += 1;
    }
    proof {
        crate::order::position_missing(chars@, test);
    }
    Err("expected KEY=VALUE".to_owned())
}

/// Variables in the order of their keys, with one more set.
pub open spec fn env_with(env: Seq<EnvVarView>, item: EnvVarView) -> Seq<EnvVarView>
    decreases env.len(),
{
    if env.len() == 0 {
        seq![item]
    } else if env[0].key == item.key {
        seq![item] + env.drop_first()
    } else if order::text_above(env[0].key, item.key) {
        seq![item] + env
    } else {
        seq![env[0]] + env_with(env.drop_first(), item)
    }
}

/// Variables set one after the other: what is set later holds.
pub open spec fn env_of(items: Seq<EnvVarView>) -> Seq<EnvVarView>
    decreases items.len(),
{
    if items.len() == 0 {
        Seq::empty()
    } else {
        env_with(env_of(items.drop_last()), items.last())
    }
}

/// What a variable is set to.
pub open spec fn env_value(env: Seq<EnvVarView>, key: Seq<char>) -> Option<Seq<char>>
    decreases env.len(),
{
    if env.len() == 0 {
        None
    } else if env[0].key == key {
        Some(env[0].value)
    } else {
        env_value(env.drop_first(), key)
    }
}

/// Setting a variable keeps the order, gives that variable its value and
/// leaves the others as they are.
pub proof fn setting_a_variable(env: Seq<EnvVarView>, item: EnvVarView, other: Seq<char>)
    requires
        model::env_ascends(env),
    ensures
        model::env_ascends(env_with(env, item)),
        env_value(env_with(env, item), item.key) == Some(item.value),
        other != item.key ==> env_value(env_with(env, item), other) == env_value(env, other),
        forall|k: int|
            0 <= k < env_with(env, item).len() ==> (#[trigger] env_with(env, item)[k]).key
                == item.key || exists|m: int|
                0 <= m < env.len() && (#[trigger] env[m]).key == env_with(env, item)[k].key,
    decreases env.len(),
{
    let after = env_with(env, item);
    if env.len() == 0 {
        assert(after.drop_first() =~= Seq::empty());
        assert(env_value(after.drop_first(), other) is None);
    } else if env[0].key == item.key {
        assert(after.drop_first() =~= env.drop_first());
        assert forall|i: int, j: int| 0 <= i < j < after.len() implies order::text_above(
            #[trigger] after[j].key,
            #[trigger] after[i].key,
        ) by {
            assert(after[j].key == env[j].key);
            assert(after[i].key == env[i].key);
        }
        assert forall|k: int| 0 <= k < after.len() implies (#[trigger] after[k]).key == item.key
            || exists|m: int| 0 <= m < env.len() && (#[trigger] env[m]).key == after[k].key by {
            assert(env[k].key == after[k].key);
        }
    } else if order::text_above(env[0].key, item.key) {
        assert(after.drop_first() =~= env);
        assert forall|i: int, j: int| 0 <= i < j < after.len() implies order::text_above(
            #[trigger] after[j].key,
            #[trigger] after[i].key,
        ) by {
            assert(after[j] == env[j - 1]);
            if i == 0 {
                if j > 1 {
                    assert(order::text_above(env[j - 1].key, env[0].key));
                    order::text_above_orders(env[j - 1].key, env[0].key, item.key);
                    order::text_above_orders(env[0].key, item.key, item.key);
                }
            } else {
                assert(after[i] == env[i - 1]);
            }
        }
        assert forall|k: int| 0 <= k < after.len() implies (#[trigger] after[k]).key == item.key
            || exists|m: int| 0 <= m < env.len() && (#[trigger] env[m]).key == after[k].key by {
            if k > 0 {
                assert(env[k - 1].key == after[k].key);
            }
        }
    } else {
        let rest = env.drop_first();
        let tail = env_with(rest, item);
        assert forall|i: int, j: int| 0 <= i < j < rest.len() implies order::text_above(
            #[trigger] rest[j].key,
            #[trigger] rest[i].key,
        ) by {
            assert(rest[j] == env[j + 1]);
            assert(rest[i] == env[i + 1]);
        }
        setting_a_variable(rest, item, other);
        assert(after.drop_first() =~= tail);
        order::text_above_orders(item.key, env[0].key, env[0].key);
        order::text_above_orders(env[0].key, item.key, item.key);
        assert(order::text_above(item.key, env[0].key));
        assert forall|i: int, j: int| 0 <= i < j < after.len() implies order::text_above(
            #[trigger] after[j].key,
            #[trigger] after[i].key,
        ) by {
            assert(after[j] == tail[j - 1]);
            if i == 0 {
                if tail[j - 1].key != item.key {
                    let m = choose|m: int|
                        0 <= m < rest.len() && (#[trigger] rest[m]).key == tail[j - 1].key;
                    assert(rest[m] == env[m + 1]);
                    assert(order::text_above(env[m + 1].key, env[0].key));
                }
            } else {
                assert(after[i] == tail[i - 1]);
            }
        }
        assert forall|k: int| 0 <= k < after.len() implies (#[trigger] after[k]).key == item.key
            || exists|m: int| 0 <= m < env.len() && (#[trigger] env[m]).key == after[k].key by {
            if k == 0 {
                assert(env[0].key == after[0].key);
            } else {
                assert(after[k] == tail[k - 1]);
                if tail[k - 1].key != item.key {
                    let m = choose|m: int|
                        0 <= m < rest.len() && (#[trigger] rest[m]).key == tail[k - 1].key;
                    assert(env[m + 1].key == after[k].key);
                }
            }
        }
    }
}

/// However variables are set, their keys are distinct and stand in their
/// order.
pub proof fn variables_stand_in_order(items: Seq<EnvVarView>)
    ensures
        model::env_ascends(env_of(items)),
    decreases items.len(),
{
    if items.len() > 0 {
        variables_stand_in_order(items.drop_last());
        setting_a_variable(env_of(items.drop_last()), items.last(), items.last().key);
    }
}

/// The views of a list of variables.
pub open spec fn env_views(env: Seq<EnvVar>) -> Seq<EnvVarView> {
    env.map_values(|item: EnvVar| item@)
}

fn put_env(env: &mut Vec<EnvVar>, item: EnvVar)
    ensures
        env_views(final(env)@) == env_with(env_views(old(env)@), item@),
{
    let ghost all = env_views(env@);
    let ghost before = env@;
    let mut i: usize = 0;
    assert(all.skip(0) =~= all);
    assert(all.take(0) + env_with(all, item@) =~= env_with(all, item@));
    while i < env.len()
        invariant
            i <= env.len(),
            env@ == before,
            all == env_views(before),
            env_with(all, item@) == all.take(i as int) + env_with(all.skip(i as int), item@),
        decreases env.len() - i,
    {
        proof {
            assert(all.skip(i as int)[0] == before[i as int]@);
            assert(all.skip(i as int).drop_first() =~= all.skip(i + 1));
        }
        if same_text(env[i].key.as_str(), item.key.as_str()) {
            let ghost view = item@;
            env.set(i, item);
            assert(env_views(env@) =~= all.take(i as int) + (seq![view] + all.skip(i + 1)));
            return;
        }
        if comes_after(env[i].key.as_str(), item.key.as_str()) {
            let ghost view = item@;
            env.insert(i, item);
            assert(env_views(env@) =~= all.take(i as int) + (seq![view] + all.skip(i as int)));
            return;
        }
        assert(all.take(i as int) + (seq![all.skip(i as int)[0]] + env_with(
            all.skip(i + 1),
            item@,
        )) =~= all.take(i + 1) + env_with(all.skip(i + 1), item@));
        i += 1;
    }
    let ghost view = item@;
    env.push(item);
    assert(all.skip(i as int) =~= Seq::empty());
    assert(env_views(env@) =~= all.take(i as int) + seq![view]);
}

/// Sets variables one after the other.
pub fn collect_env(items: Vec<EnvVar>) -> (env: Vec<EnvVar>)
    ensures
        env_views(env@) == env_of(env_views(items@)),
        model::env_ascends(env_views(env@)),
{
    let ghost all = env_views(items@);
    let mut env: Vec<EnvVar> = Vec::new();
    let mut i: usize = 0;
    assert(env_views(env@) =~= Seq::empty());
    assert(all.take(0) =~= Seq::empty());
    while i < items.len()
        invariant
            i <= items.len(),
            all == env_views(items@),
            env_views(env@) == env_of(all.take(i as int)),
        decreases items.len() - i,
    {
        proof {
            assert(all.take(i + 1).drop_last() =~= all.take(i as int));
            assert(all.take(i + 1).last() == items@[i as int]@);
        }
        put_env(&mut env, items[i].clone());
        i += 1;
    }
    proof {
        assert(all.take(i as int) =~= all);
        variables_stand_in_order(all);
    }
    env
}

/// The session that a command runs under, as the environment names it: none
/// where the name is empty.
pub open spec fn session_named(value: Option<Seq<char>>) -> Option<Seq<char>> {
    match value {
        Some(id) => if id.len() == 0 {
            None
        } else {
            Some(id)
        },
        None => None,
    }
}

/// The request of a command line: `session` is what the environment names, and
/// `stdin` what the command gets to read.
pub open spec fn line_request(
    workspace_id: Seq<char>,
    cwd: Option<Seq<char>>,
    command: CommandSpecView,
    env: Seq<EnvVarView>,
    stdin: Option<Seq<u8>>,
    session: Option<Seq<char>>,
    capture_limit_bytes: Option<u64>,
) -> ExecutionRequestView {
    ExecutionRequestView {
        workspace_id,
        cwd,
        command,
        env: env_of(env),
        stdin_base64: match stdin {
            Some(data) => Some(codec::base64_text(data)),
            None => None,
        },
        initiator: InitiatorView {
            kind: "cli"@,
            name: Some("loom"@),
            session_id: session_named(session),
        },
        capture_limit_bytes,
    }
}

/// Makes the request of a command line.
pub fn execution_request(
    workspace_id: String,
    cwd: Option<String>,
    command: CommandSpec,
    env: Vec<EnvVar>,
    stdin: Option<Vec<u8>>,
    session: Option<String>,
    capture_limit_bytes: Option<u64>,
) -> (request: ExecutionRequest)
    ensures
        request@ == line_request(
            workspace_id@,
            text::maybe_text(cwd),
            command@,
            env_views(env@),
            match stdin {
                Some(data) => Some(data@),
                None => None,
            },
            text::maybe_text(session),
            capture_limit_bytes,
        ),
        request@.well_formed(),
{
    let session_id = match session {
        Some(id) => {
            if id.as_str().is_empty() {
                None
            } else {
                Some(id)
            }
        },
        None => None,
    };
    let stdin_base64 = match stdin {
        Some(data) => Some(encode_base64(data.as_slice())),
        None => None,
    };
    ExecutionRequest {
        workspace_id,
        cwd,
        command,
        env: collect_env(env),
        stdin_base64,
        initiator: Initiator { kind: "cli".to_owned(), name: Some("loom".to_owned()), session_id },
        capture_limit_bytes,
    }
}

/// The length of a text in bytes.
pub open spec fn byte_count(text: Seq<char>) -> nat {
    vstd::utf8::encode_utf8(text).len()
}

/// The workspace that a directory is taken to be in: of those that it lies in
/// the one with the longest root, and the last one of these.
pub open spec fn closest(workspaces: Seq<WorkspaceView>, cwd: Seq<char>) -> Option<int>
    decreases workspaces.len(),
{
    if workspaces.len() == 0 {
        None
    } else {
        let before = closest(workspaces.drop_last(), cwd);
        let last = workspaces.last();
        if !paths::below(cwd, last.root) {
            before
        } else {
            match before {
                Some(at) => if byte_count(last.root) >= byte_count(workspaces[at].root) {
                    Some(workspaces.len() - 1)
                } else {
                    Some(at)
                },
                None => Some(workspaces.len() - 1),
            }
        }
    }
}

/// The workspace that a directory is taken to be in holds it, and of those
/// that hold it none has a longer root. There is one as soon as a workspace
/// holds the directory.
pub proof fn the_closest_holds(workspaces: Seq<WorkspaceView>, cwd: Seq<char>)
    ensures
        match closest(workspaces, cwd) {
            Some(at) => 0 <= at < workspaces.len() && paths::below(cwd, workspaces[at].root) && forall|
                k: int,
            |
                0 <= k < workspaces.len() && paths::below(cwd, (#[trigger] workspaces[k]).root)
                    ==> byte_count(workspaces[k].root) <= byte_count(workspaces[at].root),
            None => forall|k: int|
                0 <= k < workspaces.len() ==> !paths::below(cwd, (#[trigger] workspaces[k]).root),
        },
    decreases workspaces.len(),
{
    if workspaces.len() > 0 {
        let front = workspaces.drop_last();
        the_closest_holds(front, cwd);
        assert forall|k: int| 0 <= k < workspaces.len() - 1 implies #[trigger] workspaces[k]
            == front[k] by {}
    }
}

/// The workspace to use: the one asked for, or else the one that the current
/// directory is in.
pub open spec fn workspace_for(
    requested: Option<Seq<char>>,
    workspaces: Seq<WorkspaceView>,
    cwd: Seq<char>,
) -> Result<Seq<char>, ErrorView> {
    match requested {
        Some(name) => Ok(name),
        None => match closest(workspaces, cwd) {
            Some(at) => Ok(workspaces[at].id),
            None => Err(
                error::refused(
                    "current directory is not in a registered workspace; run `loom workspace add .`"@,
                ),
            ),
        },
    }
}

/// Decides which workspace to use.
pub fn resolve_workspace(requested: Option<String>, workspaces: &Vec<Workspace>, cwd: &str) -> (resolved:
    Result<String, Error>)
    ensures
        error::outcome_view(resolved, |id: String| id@) == workspace_for(
            text::maybe_text(requested),
            workspaces@.map_values(|item: Workspace| item@),
            cwd@,
        ),
{
    match requested {
        Some(name) => {
            return Ok(name);
        },
        None => {},
    }
    let ghost all = workspaces@.map_values(|item: Workspace| item@);
    let mut best: Option<usize> = None;
    let mut i: usize = 0;
    assert(all.take(0) =~= Seq::empty());
    while i < workspaces.len()
        invariant
            i <= workspaces.len(),
            all == workspaces@.map_values(|item: Workspace| item@),
            (match best {
                Some(at) => Some(at as int),
                None => None,
            }) == closest(all.take(i as int), cwd@),
            best matches Some(at) ==> at < i,
        decreases workspaces.len() - i,
    {
        let workspace = &workspaces[i];
        proof {
            assert(all[i as int] == workspace@);
            assert(all.take(i + 1).drop_last() =~= all.take(i as int));
            assert(all.take(i + 1).last() == workspace@);
        }
        if path_starts_with(cwd, workspace.root.as_str()) {
            match best {
                Some(at) => {
                    assert(all.take(i + 1)[at as int] == workspaces@[at as int]@);
                    if workspace.root.as_str().as_bytes().len()
                        >= workspaces[at].root.as_str().as_bytes().len() {
                        best = Some(i);
                    }
                },
                None => {
                    best = Some(i);
                },
            }
        }
        i += 1;
    }
    assert(all.take(i as int) =~= all);
    match best {
        Some(at) => {
            assert(all[at as int] == workspaces@[at as int]@);
            Ok(workspaces[at].id.clone())
        },
        None => Err(
            Error::InvalidRequest(
                "current directory is not in a registered workspace; run `loom workspace add .`".to_owned(),
            ),
        ),
    }
}

/// The name under which a directory is registered: the one asked for, or else
/// its own.
pub open spec fn registered_name(requested: Option<Seq<char>>, root: Seq<char>) -> Seq<char> {
    match requested {
        Some(name) => name,
        None => match paths::last_name(root) {
            Some(name) => name,
            None => "workspace"@,
        },
    }
}

/// Decides under which name a directory is registered.
pub fn workspace_name(requested: Option<String>, root: &str) -> (name: String)
    ensures
        name@ == registered_name(text::maybe_text(requested), root@),
{
    match requested {
        Some(name) => name,
        None => match file_name(root) {
            Some(name) => name,
            None => "workspace".to_owned(),
        },
    }
}

/// When the last `days` days began, or the earliest time there is.
pub open spec fn days_before(now: i64, days: u32) -> int {
    if now - days * DAY_MS < i64::MIN {
        i64::MIN as int
    } else {
        now - days * DAY_MS
    }
}

/// When the last `days` days began.
pub fn window_start(now: i64, days: u32) -> (since: i64)
    ensures
        since == days_before(now, days),
{
    let window: i64 = days as i64 * DAY_MS;
    if now < i64::MIN + window {
        i64::MIN
    } else {
        now - window
    }
}

/// Whether an outcome has an exit code: a signal has to leave room for the
/// number that is added to it.
pub open spec fn has_exit_code(outcome: Option<ExecutionOutcomeView>) -> bool {
    match outcome {
        Some(ExecutionOutcomeView::Signaled { signal }) => signal <= i32::MAX - 128,
        Some(ExecutionOutcomeView::Cancelled { signal }) => match signal {
            Some(signal) => signal <= i32::MAX - 128,
            None => true,
        },
        _ => true,
    }
}

/// The exit code that stands for an outcome.
pub open spec fn exit_code(outcome: Option<ExecutionOutcomeView>) -> int {
    match outcome {
        Some(ExecutionOutcomeView::Exited { code }) => code as int,
        Some(ExecutionOutcomeView::Signaled { signal }) => 128 + signal,
        Some(ExecutionOutcomeView::Cancelled { signal }) => match signal {
            Some(signal) => 128 + signal,
            None => 143,
        },
        Some(ExecutionOutcomeView::SpawnError { message }) => 126,
        Some(ExecutionOutcomeView::Interrupted { reason }) => 1,
        None => 1,
    }
}

/// The exit code that stands for how an execution ended.
pub fn process_exit_code(execution: &Execution) -> (code: i32)
    requires
        has_exit_code(execution@.outcome),
    ensures
        code == exit_code(execution@.outcome),
{
    match &execution.outcome {
        Some(outcome) => match outcome {
            ExecutionOutcome::Exited { code } => *code,
            ExecutionOutcome::Signaled { signal } => 128 + *signal,
            ExecutionOutcome::Cancelled { signal } => match signal {
                Some(signal) => 128 + *signal,
                None => 143,
            },
            ExecutionOutcome::SpawnError { message } => 126,
            ExecutionOutcome::Interrupted { reason } => 1,
        },
        None => 1,
    }
}

/// What is shown of an event.
#[derive(Debug)]
pub enum Rendering {
    /// Nothing.
    Nothing,
    /// Bytes for the standard output.
    Stdout(Vec<u8>),
    /// Bytes for the standard error.
    Stderr(Vec<u8>),
    /// A line for people.
    Note(String),
}

/// What a `Rendering` holds.
pub enum RenderingView {
    Nothing,
    Stdout(Seq<u8>),
    Stderr(Seq<u8>),
    Note(Seq<char>),
}

impl View for Rendering {
    type V = RenderingView;

    open spec fn view(&self) -> RenderingView {
        match *self {
            Rendering::Nothing => RenderingView::Nothing,
            Rendering::Stdout(data) => RenderingView::Stdout(data@),
            Rendering::Stderr(data) => RenderingView::Stderr(data@),
            Rendering::Note(text) => RenderingView::Note(text@),
        }
    }
}

/// Bytes for the stream that they were written to.
pub open spec fn shown_on(stream: OutputStream, data: Seq<u8>) -> RenderingView {
    match stream {
        OutputStream::Stdout => RenderingView::Stdout(data),
        OutputStream::Stderr => RenderingView::Stderr(data),
    }
}

/// What is shown of an event, given what its output decodes to.
pub open spec fn rendered(payload: ExecutionEventPayloadView, decoded: Result<Seq<u8>, Seq<char>>) -> Result<
    RenderingView,
    ErrorView,
> {
    match payload {
        ExecutionEventPayloadView::Output { stream, data_base64 } => match decoded {
            Ok(data) => Ok(shown_on(stream, data)),
            Err(message) => Err(ErrorView::Protocol("invalid output encoding: "@ + message)),
        },
        ExecutionEventPayloadView::CaptureTruncated { limit_bytes } => Ok(
            RenderingView::Note(
                "loom: output capture truncated at "@ + text::decimal(limit_bytes as nat) + " bytes"@,
            ),
        ),
        ExecutionEventPayloadView::Started { pid, pgid } => Ok(RenderingView::Nothing),
        ExecutionEventPayloadView::Finished { outcome } => Ok(RenderingView::Nothing),
    }
}

/// The output of an event, still encoded.
pub open spec fn output_of(payload: ExecutionEventPayloadView) -> Seq<char> {
    match payload {
        ExecutionEventPayloadView::Output { stream, data_base64 } => data_base64,
        _ => Seq::empty(),
    }
}

/// Decides what is shown of output, given what it decodes to.
pub fn render_output(stream: OutputStream, decoded: Result<Vec<u8>, String>) -> (rendering: Result<
    Rendering,
    Error,
>)
    ensures
        error::viewed(rendering) == (match decoded {
            Ok(data) => Ok(shown_on(stream, data@)),
            Err(message) => Err(ErrorView::Protocol("invalid output encoding: "@ + message@)),
        }),
{
    match decoded {
        Ok(data) => Ok(
            match stream {
                OutputStream::Stdout => Rendering::Stdout(data),
                OutputStream::Stderr => Rendering::Stderr(data),
            },
        ),
        Err(message) => Err(
            Error::Protocol(joined("invalid output encoding: ", message.as_str())),
        ),
    }
}

/// Decides what is shown of an event.
pub fn render_event(event: &ExecutionEvent) -> (rendering: Result<Rendering, Error>)
    ensures
        error::viewed(rendering) == rendered(
            event@.payload,
            codec::base64_decoding(output_of(event@.payload)),
        ),
{
    match &event.payload {
        ExecutionEventPayload::Output { stream, data_base64 } => render_output(
            *stream,
            decode_base64(data_base64.as_str()),
        ),
        ExecutionEventPayload::CaptureTruncated { limit_bytes } => Ok(
            Rendering::Note(
                joined3(
                    "loom: output capture truncated at ",
                    decimal_text(*limit_bytes).as_str(),
                    " bytes",
                ),
            ),
        ),
        ExecutionEventPayload::Started { pid, pgid } => Ok(Rendering::Nothing),
        ExecutionEventPayload::Finished { outcome } => Ok(Rendering::Nothing),
    }
}

/// What a stream of events that has closed gives: the execution, which must
/// have ended.
pub open spec fn closed_with(execution: ExecutionView) -> Result<ExecutionView, ErrorView> {
    if model::terminal(execution.state) {
        Ok(execution)
    } else {
        Err(ErrorView::Protocol("execution subscription closed before completion"@))
    }
}

/// Takes the execution whose stream of events has closed.
pub fn stream_closed(execution: Execution) -> (ended: Result<Execution, Error>)
    ensures
        error::viewed(ended) == closed_with(execution@),
{
    if execution.state.is_terminal() {
        Ok(execution)
    } else {
        Err(Error::Protocol("execution subscription closed before completion".to_owned()))
    }
}

/// Whether a daemon may be restarted: not while it is busy, or does not say
/// whether it is, unless it is forced to.
pub open spec fn restart_fault(health: HealthView, force: bool) -> Option<ErrorView> {
    if force {
        None
    } else {
        match health.active_executions {
            None => Some(
                error::refused(
                    "daemon does not report active executions; use --force to restart it"@,
                ),
            ),
            Some(executions) => if executions != 0 {
                Some(
                    error::refused(
                        "daemon has "@ + text::decimal(executions as nat)
                            + " active execution(s); wait for them or use --force"@,
                    ),
                )
            } else {
                match health.active_sessions {
                    None => Some(
                        error::refused(
                            "daemon does not report active agent sessions; use --force to restart it"@,
                        ),
                    ),
                    Some(sessions) => if sessions != 0 {
                        Some(
                            error::refused(
                                "daemon has "@ + text::decimal(sessions as nat)
                                    + " active agent session(s); wait for them or use --force"@,
                            ),
                        )
                    } else {
                        None
                    },
                }
            },
        }
    }
}

/// Refuses to restart a daemon that is busy.
pub fn may_restart(health: &Health, force: bool) -> (checked: Result<(), Error>)
    ensures
        error::outcome_view(checked, |u: ()| u) == crate::model::verdict(restart_fault(health@, force)),
{
    if force {
        return Ok(());
    }
    match health.active_executions {
        None => {
            return Err(
                Error::InvalidRequest(
                    "daemon does not report active executions; use --force to restart it".to_owned(),
                ),
            );
        },
        Some(executions) => {
            if executions != 0 {
                return Err(
                    Error::InvalidRequest(
                        joined3(
                            "daemon has ",
                            decimal_text(executions).as_str(),
                            " active execution(s); wait for them or use --force",
                        ),
                    ),
                );
            }
        },
    }
    match health.active_sessions {
        None => Err(
            Error::InvalidRequest(
                "daemon does not report active agent sessions; use --force to restart it".to_owned(),
            ),
        ),
        Some(sessions) => {
            if sessions != 0 {
                Err(
                    Error::InvalidRequest(
                        joined3(
                            "daemon has ",
                            decimal_text(sessions).as_str(),
                            " active agent session(s); wait for them or use --force",
                        ),
                    ),
                )
            } else {
                Ok(())
            }
        },
    }
}

/// What can be recorded: a session has a terminal, so it cannot answer with
/// JSON, and it has a command.
pub open spec fn command_to_record(json: bool, argv: Seq<Seq<char>>) -> Result<
    CommandSpecView,
    ErrorView,
> {
    if json {
        Err(error::refused("--json is not supported by interactive session recording"@))
    } else {
        argv_command(argv, "missing agent command"@)
    }
}

/// Decides what is recorded.
pub fn recorded_command(json: bool, argv: Vec<String>) -> (command: Result<CommandSpec, Error>)
    ensures
        error::viewed(command) == command_to_record(json, text::texts(argv@)),
{
    if json {
        return Err(
            Error::InvalidRequest(
                "--json is not supported by interactive session recording".to_owned(),
            ),
        );
    }
    command_from_argv(argv, "missing agent command")
}

/// The request to record a session: `requested` is the agent that was named, if
/// one was, and `cast_path` and `html_path` are where the recording goes.
pub fn session_request(
    id: String,
    workspace_id: String,
    requested: Option<String>,
    claude_name: &str,
    name: Option<String>,
    command: CommandSpec,
    cwd: String,
    recorder_pid: u32,
    initial_cols: u16,
    initial_rows: u16,
    cast_path: String,
    html_path: String,
) -> (request: AgentSessionRequest)
    ensures
        request@ == (AgentSessionRequestView {
            id: id@,
            workspace_id: workspace_id@,
            agent_kind: agent_kind_of(text::maybe_text(requested), claude_name@, command@),
            name: text::maybe_text(name),
            command: command@,
            cwd: cwd@,
            recorder_pid,
            initial_cols,
            initial_rows,
            cast_path: cast_path@,
            html_path: html_path@,
        }),
{
    let agent_kind = resolve_agent_kind(requested, claude_name, &command);
    AgentSessionRequest {
        id,
        workspace_id,
        agent_kind,
        name,
        command,
        cwd,
        recorder_pid,
        initial_cols,
        initial_rows,
        cast_path,
        html_path,
    }
}

/// Whether the end of a recording is reported once more, over a new connection:
/// only where no daemon was there to take it.
pub fn tries_again(answer: &Result<AgentSession, Error>) -> (yes: bool)
    ensures
        yes == (answer matches Err(error) && error@ is DaemonUnavailable),
{
    match answer {
        Err(Error::DaemonUnavailable(reason)) => true,
        _ => false,
    }
}

/// How a recording is ended that went through.
pub open spec fn recorded_end(
    outcome: ExecutionOutcomeView,
    captured_bytes: u64,
    output_truncated: bool,
) -> AgentSessionFinishView {
    AgentSessionFinishView {
        state: if outcome is Interrupted {
            AgentSessionState::Interrupted
        } else {
            AgentSessionState::Finished
        },
        outcome,
        captured_bytes,
        output_truncated,
    }
}

/// How a recording is ended that failed.
pub open spec fn failed_end(error: ErrorView) -> AgentSessionFinishView {
    AgentSessionFinishView {
        state: AgentSessionState::Interrupted,
        outcome: ExecutionOutcomeView::Interrupted { reason: error::error_message(error) },
        captured_bytes: 0,
        output_truncated: false,
    }
}

/// Ends a recording that went through.
pub fn recording_finished(outcome: ExecutionOutcome, captured_bytes: u64, output_truncated: bool) -> (finish:
    AgentSessionFinish)
    ensures
        finish@ == recorded_end(outcome@, captured_bytes, output_truncated),
{
    let state = match &outcome {
        ExecutionOutcome::Interrupted { reason } => AgentSessionState::Interrupted,
        _ => AgentSessionState::Finished,
    };
    AgentSessionFinish { state, outcome, captured_bytes, output_truncated }
}

/// Ends a recording that failed.
pub fn recording_failed(error: &Error) -> (finish: AgentSessionFinish)
    ensures
        finish@ == failed_end(error@),
{
    AgentSessionFinish {
        state: AgentSessionState::Interrupted,
        outcome: ExecutionOutcome::Interrupted { reason: error.message() },
        captured_bytes: 0,
        output_truncated: false,
    }
}

/// Refuses to go on without a terminal.
pub fn ensure_interactive(feature: &str, input_is_terminal: bool, output_is_terminal: bool) -> (checked:
    Result<(), Error>)
    ensures
        error::outcome_view(checked, |u: ()| u) == (if input_is_terminal && output_is_terminal {
            Ok(())
        } else {
            Err(error::refused("`"@ + feature@ + "` requires an interactive terminal"@))
        }),
{
    if !input_is_terminal || !output_is_terminal {
        return Err(
            Error::InvalidRequest(joined3("`", feature, "` requires an interactive terminal")),
        );
    }
    Ok(())
}

} // verus!
