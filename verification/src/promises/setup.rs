//! What setting up a project leaves behind.

use vstd::prelude::*;

use crate::agent;
use crate::cli;
use crate::error::ErrorView;
use crate::json;
use crate::json::JsonTree;
use crate::onboarding;
use crate::onboarding::{
    AgentSelection, ConfigAction, ConfigSourcesView, HookEnvironmentView, InitPlanView,
};
use crate::order;
use crate::paths;
use crate::promises::hooks;
use crate::promises::places;
use crate::quoting;

verus! {

/// Each variable that is set is passed on under its own name, and no other.
pub proof fn settings_are_passed_on(env: HookEnvironmentView, name: Seq<char>, value: Seq<char>)
    ensures
        onboarding::passed_on(env).contains((name, value)) == (name == "LOOMTERM_CONFIG"@
            && env.config == Some(value) || name == "LOOMTERM_STATE_DIR"@ && env.state_dir == Some(
            value,
        ) || name == "LOOMTERM_RUNTIME_DIR"@ && env.runtime_dir == Some(value)),
        forall|i: int|
            0 <= i < onboarding::passed_on(env).len() ==> quoting::plain_word(
                (#[trigger] onboarding::passed_on(env)[i]).0,
            ),
{
    let vars = onboarding::passed_on(env);
    reveal_strlit("LOOMTERM_CONFIG");
    reveal_strlit("LOOMTERM_STATE_DIR");
    reveal_strlit("LOOMTERM_RUNTIME_DIR");
    let config = match env.config {
        Some(value) => seq![("LOOMTERM_CONFIG"@, value)],
        None => Seq::empty(),
    };
    let state_dir = match env.state_dir {
        Some(value) => seq![("LOOMTERM_STATE_DIR"@, value)],
        None => Seq::empty(),
    };
    let c = config.len() as int;
    let s = state_dir.len() as int;
    if env.config is Some {
        assert(vars[0] == ("LOOMTERM_CONFIG"@, env.config->0));
    }
    if env.state_dir is Some {
        assert(vars[c] == ("LOOMTERM_STATE_DIR"@, env.state_dir->0));
    }
    if env.runtime_dir is Some {
        assert(vars[c + s] == ("LOOMTERM_RUNTIME_DIR"@, env.runtime_dir->0));
    }
}

/// The line that an agent calls for a hook is read by its shell as the
/// variables that are set, this program, and the words that say what is
/// reported and of whom. It has five seconds.
pub proof fn a_hook_calls_this_program(
    command: Seq<char>,
    provider: Seq<char>,
    second: Seq<char>,
    env: HookEnvironmentView,
)
    requires
        provider != second,
        quoting::plain_word(provider),
    ensures
        ({
            let handler = onboarding::handler_for(command, provider, second, env);
            &&& json::field(handler, "type"@) == Some(JsonTree::Text("command"@))
            &&& json::field(handler, "timeout"@) == Some(JsonTree::Unsigned(5))
            &&& json::field(handler, "command"@) matches Some(JsonTree::Text(line))
                && quoting::shell_words(line) == Some(
                onboarding::passed_on(env).map_values(
                    |var: (Seq<char>, Seq<char>)| quoting::setting(var),
                ) + seq![command, "agent-event"@, "--provider"@, provider],
            )
        }),
{
    let members = onboarding::handler_for(command, provider, second, env)->Object_0;
    reveal_strlit("command");
    reveal_strlit("timeout");
    reveal_strlit("type");
    assert("command"@[0] == 'c' && "timeout"@[0] == 't' && "type"@.len() == 4 && "timeout"@.len()
        == 7);
    order::position_found(members, json::has_key("command"@), 0);
    order::position_found(members, json::has_key("timeout"@), 1);
    order::position_found(members, json::has_key("type"@), 2);
    settings_are_passed_on(env, command, command);
    quoting::a_hook_line_reads_back(onboarding::passed_on(env), command, provider);
}

proof fn assignments_are_settings(vars: Seq<(Seq<char>, Seq<char>)>)
    ensures
        onboarding::argument_assignments(vars) == vars.map_values(
            |var: (Seq<char>, Seq<char>)| JsonTree::Text(quoting::setting(var)),
        ),
    decreases vars.len(),
{
    reveal_strlit("=");
    assert("="@ =~= seq!['=']);
    if vars.len() > 0 {
        assignments_are_settings(vars.drop_last());
    }
    assert(onboarding::argument_assignments(vars) =~= vars.map_values(
        |var: (Seq<char>, Seq<char>)| JsonTree::Text(quoting::setting(var)),
    ));
}

/// The second agent starts a program with arguments for a hook: this program
/// with the words that say what is reported and of whom, behind `env` and the
/// variables where some are set.
pub proof fn a_hook_starts_this_program(
    command: Seq<char>,
    second: Seq<char>,
    env: HookEnvironmentView,
)
    ensures
        ({
            let handler = onboarding::handler_for(command, second, second, env);
            let vars = onboarding::passed_on(env);
            let words = seq![
                JsonTree::Text("agent-event"@),
                JsonTree::Text("--provider"@),
                JsonTree::Text(second),
            ];
            &&& json::field(handler, "type"@) == Some(JsonTree::Text("command"@))
            &&& json::field(handler, "timeout"@) == Some(JsonTree::Unsigned(5))
            &&& if vars.len() == 0 {
                &&& json::field(handler, "command"@) == Some(JsonTree::Text(command))
                &&& json::field(handler, "args"@) == Some(JsonTree::List(words))
            } else {
                &&& json::field(handler, "command"@) == Some(JsonTree::Text("/usr/bin/env"@))
                &&& json::field(handler, "args"@) == Some(
                    JsonTree::List(
                        vars.map_values(
                            |var: (Seq<char>, Seq<char>)| JsonTree::Text(quoting::setting(var)),
                        ) + seq![JsonTree::Text(command)] + words,
                    ),
                )
            }
        }),
{
    let members = onboarding::handler_for(command, second, second, env)->Object_0;
    let vars = onboarding::passed_on(env);
    reveal_strlit("args");
    reveal_strlit("command");
    reveal_strlit("timeout");
    reveal_strlit("type");
    assert("args"@[0] == 'a' && "command"@[0] == 'c' && "timeout"@[0] == 't' && "type"@[0] == 't'
        && "type"@.len() == 4 && "timeout"@.len() == 7);
    order::position_found(members, json::has_key("args"@), 0);
    order::position_found(members, json::has_key("command"@), 1);
    order::position_found(members, json::has_key("timeout"@), 2);
    order::position_found(members, json::has_key("type"@), 3);
    assignments_are_settings(vars);
    let words = seq![
        JsonTree::Text("agent-event"@),
        JsonTree::Text("--provider"@),
        JsonTree::Text(second),
    ];
    assert(onboarding::argument_assignments(vars).push(JsonTree::Text(command)) + words
        =~= onboarding::argument_assignments(vars) + seq![JsonTree::Text(command)] + words);
}

/// Every event whose hook is set up is understood when it is reported, and the
/// second agent has a hook for every event that is understood.
pub proof fn what_is_followed_is_understood(
    agent_name: Seq<char>,
    second: Seq<char>,
    provider: Seq<char>,
    session_id: Seq<char>,
    input: JsonTree,
    event: Seq<char>,
)
    requires
        hooks::hook_is(input, event),
    ensures
        onboarding::followed(agent_name, second).contains(event) ==> agent::normalized(
            provider,
            session_id,
            input,
        ) != Ok::<Option<crate::model::AgentEventRequestView>, ErrorView>(None),
        agent::normalized(provider, session_id, input) matches Ok(Some(request))
            ==> onboarding::followed(second, second).contains(event),
{
    hooks::reports_are_told_apart(provider, session_id, input);
    let all = onboarding::followed(second, second);
    assert(all[0] == "UserPromptSubmit"@ && all[1] == "PreToolUse"@ && all[2] == "PostToolUse"@
        && all[3] == "PostToolUseFailure"@ && all[4] == "Stop"@ && all[5] == "StopFailure"@);
}

/// Whether one of some groups calls a handler.
pub open spec fn calls(groups: Seq<JsonTree>, handler: JsonTree) -> bool {
    exists|g: int, k: int| #[trigger] calls_at(groups, handler, g, k)
}

/// Whether the group at place `g` calls a handler as its entry `k`.
pub open spec fn calls_at(groups: Seq<JsonTree>, handler: JsonTree, g: int, k: int) -> bool {
    &&& 0 <= g < groups.len()
    &&& json::field(groups[g], "hooks"@) matches Some(JsonTree::List(handlers)) && 0 <= k
        < handlers.len() && handlers[k] == handler
}

proof fn others_are_kept(handlers: Seq<JsonTree>, provider: Seq<char>, handler: JsonTree)
    ensures
        onboarding::others(handlers, provider).contains(handler) == (handlers.contains(handler)
            && !onboarding::is_own_hook(handler, provider)),
    decreases handlers.len(),
{
    let left = onboarding::others(handlers, provider);
    if handlers.len() > 0 {
        let front = handlers.drop_last();
        let rest = onboarding::others(front, provider);
        others_are_kept(front, provider, handler);
        if handlers.contains(handler) {
            let k = choose|k: int| 0 <= k < handlers.len() && handlers[k] == handler;
            if k < front.len() {
                assert(front[k] == handler);
                assert(front.contains(handler));
            }
            if rest.contains(handler) {
                let j = choose|j: int| 0 <= j < rest.len() && rest[j] == handler;
                assert(left[j] == handler);
            }
            if k == front.len() && !onboarding::is_own_hook(handler, provider) {
                assert(left[left.len() - 1] == handler);
            }
        }
        if left.contains(handler) {
            let j = choose|j: int| 0 <= j < left.len() && left[j] == handler;
            if j < rest.len() {
                assert(rest[j] == handler);
                assert(rest.contains(handler));
                let k = choose|k: int| 0 <= k < front.len() && front[k] == handler;
                assert(handlers[k] == handler);
            } else {
                assert(handlers[handlers.len() - 1] == handler);
            }
        }
    }
}

proof fn cleaned_calls(groups: Seq<JsonTree>, provider: Seq<char>, handler: JsonTree)
    requires
        json::ordered_items(groups),
    ensures
        calls(onboarding::cleaned(groups, provider), handler) == (calls(groups, handler)
            && !onboarding::is_own_hook(handler, provider)),
    decreases groups.len(),
{
    if groups.len() > 0 {
        let n = groups.len() - 1;
        let front = groups.drop_last();
        json::ordered_items_each(groups);
        json::ordered_items_each(front);
        assert(json::ordered_items(front));
        cleaned_calls(front, provider, handler);
        let before = onboarding::cleaned(front, provider);
        let all = onboarding::cleaned(groups, provider);
        let last = groups.last();
        let group = onboarding::stripped(last, provider);
        assert(json::ordered(groups[n]));
        match (last, onboarding::handlers_of(last)) {
            (JsonTree::Object(members), Some(handlers)) => {
                others_are_kept(handlers, provider, handler);
                let left = JsonTree::List(onboarding::others(handlers, provider));
                json::setting_a_member(members, "hooks"@, left, "hooks"@);
                assert(json::field(group, "hooks"@) == Some(left));
            },
            _ => {},
        }
        if calls(groups, handler) && !onboarding::is_own_hook(handler, provider) {
            let (g, k) = choose|g: int, k: int| #[trigger] calls_at(groups, handler, g, k);
            if g < n {
                assert(calls_at(front, handler, g, k));
                let (h, m) = choose|h: int, m: int| #[trigger] calls_at(before, handler, h, m);
                assert(calls_at(all, handler, h, m));
            } else {
                let handlers = onboarding::handlers_of(last)->0;
                assert(handlers.contains(handler));
                let left = onboarding::others(handlers, provider);
                let m = choose|m: int| 0 <= m < left.len() && left[m] == handler;
                assert(onboarding::group_lives(group));
                assert(calls_at(all, handler, before.len() as int, m));
            }
        }
        if calls(all, handler) {
            let (h, m) = choose|h: int, m: int| #[trigger] calls_at(all, handler, h, m);
            if h < before.len() {
                assert(calls_at(before, handler, h, m));
                let (g, k) = choose|g: int, k: int| #[trigger] calls_at(front, handler, g, k);
                assert(calls_at(groups, handler, g, k));
            } else {
                let handlers = onboarding::handlers_of(last)->0;
                let left = onboarding::others(handlers, provider);
                assert(left[m] == handler);
                assert(left.contains(handler));
                let k = choose|k: int| 0 <= k < handlers.len() && handlers[k] == handler;
                assert(calls_at(groups, handler, n, k));
            }
        }
    } else if calls(onboarding::cleaned(groups, provider), handler) || calls(groups, handler) {
        assert(onboarding::cleaned(groups, provider).len() == 0);
    }
}

/// When the handler of this program is put among the hooks of an event, it is
/// called, everything that others have put there is still called, and nothing
/// else is: no handler of this program that is out of date, and nothing new.
pub proof fn the_hooks_of_others_stay(
    groups: Seq<JsonTree>,
    desired: JsonTree,
    provider: Seq<char>,
    handler: JsonTree,
)
    requires
        json::ordered_items(groups),
    ensures
        calls(onboarding::renewed(groups, desired, provider), handler) == (handler == desired || (
        calls(groups, handler) && !onboarding::is_own_hook(handler, provider))),
{
    let before = onboarding::cleaned(groups, provider);
    let all = onboarding::renewed(groups, desired, provider);
    let own = onboarding::own_group(desired);
    cleaned_calls(groups, provider, handler);
    order::position_found(own->Object_0, json::has_key("hooks"@), 0);
    assert(json::field(own, "hooks"@) == Some(JsonTree::List(seq![desired])));
    let n = before.len() as int;
    assert(all[n] == own);
    if handler == desired {
        assert(calls_at(all, handler, n, 0));
    }
    if calls(before, handler) {
        let (g, k) = choose|g: int, k: int| #[trigger] calls_at(before, handler, g, k);
        assert(calls_at(all, handler, g, k));
    }
    if calls(all, handler) {
        let (g, k) = choose|g: int, k: int| #[trigger] calls_at(all, handler, g, k);
        if g < n {
            assert(calls_at(before, handler, g, k));
        }
    }
}

/// An entry of this program that is missing is written, one that is as it
/// should be is left, and one that is different is replaced by force and only
/// by force.
pub proof fn only_force_replaces(path: Seq<char>, present: Option<bool>, force: bool)
    ensures
        match onboarding::entry_change(path, present, force) {
            Ok(ConfigAction::Create) => present is None,
            Ok(ConfigAction::Unchanged) => present == Some(true),
            Ok(ConfigAction::Replace) => present == Some(false) && force,
            Ok(ConfigAction::Skip) => false,
            Err(error) => present == Some(false) && !force && error is Config,
        },
{
}

/// The server that is entered is the program that was given, spoken to over its
/// standard streams, without arguments.
pub proof fn the_server_is_this_program(command: Seq<char>)
    ensures
        json::field(onboarding::server_for(command), "command"@) == Some(JsonTree::Text(command)),
        json::field(onboarding::server_for(command), "type"@) == Some(JsonTree::Text("stdio"@)),
        json::field(onboarding::server_for(command), "args"@) == Some(
            JsonTree::List(Seq::<JsonTree>::empty()),
        ),
{
    let members = onboarding::server_for(command)->Object_0;
    reveal_strlit("args");
    reveal_strlit("command");
    reveal_strlit("env");
    reveal_strlit("type");
    assert("args"@[0] == 'a' && "command"@[0] == 'c' && "env"@[0] == 'e' && "type"@[0] == 't');
    order::position_found(members, json::has_key("args"@), 0);
    order::position_found(members, json::has_key("command"@), 1);
    order::position_found(members, json::has_key("type"@), 3);
}

/// Setting up a project writes below its root, and nothing of an agent that was
/// not chosen. It is refused where the root is no directory.
pub proof fn only_what_was_chosen_is_written(
    root: Seq<char>,
    is_directory: bool,
    name: Option<Seq<char>>,
    agents: AgentSelection,
    second: Seq<char>,
    force: bool,
    mcp_command: Seq<char>,
    sources: ConfigSourcesView,
    env: HookEnvironmentView,
)
    requires
        root.len() > 0,
    ensures
        !is_directory ==> onboarding::init_plan(
            root,
            is_directory,
            name,
            agents,
            second,
            force,
            mcp_command,
            sources,
            env,
        ) is Err,
        onboarding::init_plan(
            root,
            is_directory,
            name,
            agents,
            second,
            force,
            mcp_command,
            sources,
            env,
        ) matches Ok(plan) ==> {
            &&& plan.root == root && plan.mcp_command == mcp_command
            &&& plan.name == cli::registered_name(name, root)
            &&& !agents.codex ==> plan.codex.content is None && plan.codex_hooks.content is None
            &&& !agents.claude ==> plan.claude.content is None && plan.claude_hooks.content is None
            &&& paths::below(plan.codex.path, root) && paths::below(plan.codex_hooks.path, root)
            &&& paths::below(plan.claude.path, root) && paths::below(plan.claude_hooks.path, root)
            &&& plan.codex.path != plan.codex_hooks.path && plan.codex.path != plan.claude.path
                && plan.codex_hooks.path != plan.claude.path
        },
{
    reveal_strlit(".codex/config.toml");
    reveal_strlit(".codex/hooks.json");
    reveal_strlit(".mcp.json");
    reveal_strlit(".");
    places::a_joined_path_goes_on(root, ".codex/config.toml"@);
    places::a_joined_path_goes_on(root, ".codex/hooks.json"@);
    places::a_joined_path_goes_on(root, ".mcp.json"@);
    let last = "."@ + second + "/settings.json"@;
    assert(last[0] == '.');
    places::a_joined_path_goes_on(root, last);
    assert(paths::joined_path(root, ".codex/config.toml"@).len() != paths::joined_path(
        root,
        ".codex/hooks.json"@,
    ).len());
    assert(paths::joined_path(root, ".mcp.json"@).len() < paths::joined_path(
        root,
        ".codex/hooks.json"@,
    ).len());
}

/// What carrying a plan out writes is what the plans of the four files say, in
/// their order, each to its own file.
pub proof fn what_is_planned_is_written(plan: InitPlanView, path: Seq<char>, content: Seq<char>)
    ensures
        onboarding::writes_of(plan).contains((path, content)) == (plan.codex.path == path
            && plan.codex.content == Some(content) || plan.codex_hooks.path == path
            && plan.codex_hooks.content == Some(content) || plan.claude.path == path
            && plan.claude.content == Some(content) || plan.claude_hooks.path == path
            && plan.claude_hooks.content == Some(content)),
{
    let a = onboarding::write_of(plan.codex);
    let b = onboarding::write_of(plan.codex_hooks);
    let c = onboarding::write_of(plan.claude);
    let all = onboarding::writes_of(plan);
    if plan.codex.content is Some {
        assert(all[0] == (plan.codex.path, plan.codex.content->0));
    }
    if plan.codex_hooks.content is Some {
        assert(all[a.len() as int] == (plan.codex_hooks.path, plan.codex_hooks.content->0));
    }
    if plan.claude.content is Some {
        assert(all[(a.len() + b.len()) as int] == (plan.claude.path, plan.claude.content->0));
    }
    if plan.claude_hooks.content is Some {
        assert(all[(a.len() + b.len() + c.len()) as int] == (
            plan.claude_hooks.path,
            plan.claude_hooks.content->0,
        ));
    }
}

proof fn left_alone_calls(
    path: Seq<char>,
    source: Option<Seq<char>>,
    desired: JsonTree,
    provider: Seq<char>,
    second: Seq<char>,
    force: bool,
    root: JsonTree,
    event: Seq<char>,
)
    requires
        onboarding::hooks_plan(path, source, desired, provider, second, force) matches Ok(plan)
            && plan.action == ConfigAction::Unchanged,
        onboarding::present_json(path, source) == Ok::<JsonTree, ErrorView>(root),
        onboarding::followed(provider, second).contains(event),
    ensures
        calls(onboarding::groups_of(onboarding::hooks_within(root), event), desired),
{
    let found = onboarding::hooks_within(root);
    let events = onboarding::followed(provider, second);
    let i = choose|i: int| 0 <= i < events.len() && events[i] == event;
    let groups = onboarding::groups_of(found, events[i]);
    assert(onboarding::exact_in(groups, desired, provider));
    let g = choose|g: int|
        0 <= g < groups.len() && #[trigger] onboarding::group_exact(groups[g], desired, provider);
    let handlers = onboarding::handlers_of(groups[g])->0;
    let k = choose|k: int|
        0 <= k < handlers.len() && onboarding::is_own_hook(#[trigger] handlers[k], provider)
            && handlers[k] == desired;
    assert(calls_at(groups, desired, g, k));
}

/// Where a project is found set up, each event that is followed calls the
/// program `loom` beside the server, for its own agent, and the server that is
/// entered is the one that was given.
pub proof fn what_is_set_up_reports(
    root: Seq<char>,
    name: Option<Seq<char>>,
    agents: AgentSelection,
    second: Seq<char>,
    force: bool,
    mcp_command: Seq<char>,
    sources: ConfigSourcesView,
    env: HookEnvironmentView,
    plan: InitPlanView,
    found: JsonTree,
    event: Seq<char>,
)
    requires
        onboarding::init_plan(
            root,
            true,
            name,
            agents,
            second,
            force,
            mcp_command,
            sources,
            env,
        ) == Ok::<InitPlanView, ErrorView>(plan),
    ensures
        plan.codex_hooks.action == ConfigAction::Unchanged && onboarding::present_json(
            plan.codex_hooks.path,
            sources.codex_hooks,
        ) == Ok::<JsonTree, ErrorView>(found) && onboarding::followed("codex"@, second).contains(
            event,
        ) ==> calls(
            onboarding::groups_of(onboarding::hooks_within(found), event),
            onboarding::handler_for(
                onboarding::beside(mcp_command, "loom"@),
                "codex"@,
                second,
                env,
            ),
        ),
        plan.claude_hooks.action == ConfigAction::Unchanged && onboarding::present_json(
            plan.claude_hooks.path,
            sources.claude_hooks,
        ) == Ok::<JsonTree, ErrorView>(found) && onboarding::followed(second, second).contains(
            event,
        ) ==> calls(
            onboarding::groups_of(onboarding::hooks_within(found), event),
            onboarding::handler_for(
                onboarding::beside(mcp_command, "loom"@),
                second,
                second,
                env,
            ),
        ),
        plan.claude.action == ConfigAction::Unchanged && onboarding::present_json(
            plan.claude.path,
            sources.claude,
        ) == Ok::<JsonTree, ErrorView>(found) ==> json::member_of(
            onboarding::servers_of(found),
            "loomterm"@,
        ) == Some(onboarding::server_for(mcp_command)),
{
    let program = onboarding::beside(mcp_command, "loom"@);
    if plan.codex_hooks.action == ConfigAction::Unchanged && onboarding::present_json(
        plan.codex_hooks.path,
        sources.codex_hooks,
    ) == Ok::<JsonTree, ErrorView>(found) && onboarding::followed("codex"@, second).contains(
        event,
    ) {
        left_alone_calls(
            plan.codex_hooks.path,
            sources.codex_hooks,
            onboarding::handler_for(program, "codex"@, second, env),
            "codex"@,
            second,
            force,
            found,
            event,
        );
    }
    if plan.claude_hooks.action == ConfigAction::Unchanged && onboarding::present_json(
        plan.claude_hooks.path,
        sources.claude_hooks,
    ) == Ok::<JsonTree, ErrorView>(found) && onboarding::followed(second, second).contains(
        event,
    ) {
        left_alone_calls(
            plan.claude_hooks.path,
            sources.claude_hooks,
            onboarding::handler_for(program, second, second, env),
            second,
            second,
            force,
            found,
            event,
        );
    }
}

/// A file of hooks is refused where it is not made as it should be, and where
/// it holds a hook of this program that is out of date, unless it is forced; it
/// is left alone exactly where every event calls the handler and nothing is out
/// of date.
pub proof fn hooks_are_changed_where_they_must(
    path: Seq<char>,
    root: JsonTree,
    desired: JsonTree,
    provider: Seq<char>,
    second: Seq<char>,
    force: bool,
    event: Seq<char>,
    handler: JsonTree,
)
    requires
        onboarding::followed(provider, second).contains(event),
    ensures
        !(root is Object) ==> onboarding::hooks_change(
            path,
            root,
            desired,
            provider,
            second,
            force,
        ) is Err,
        (json::field(root, "hooks"@) matches Some(found) && !(found is Object))
            ==> onboarding::hooks_change(path, root, desired, provider, second, force) is Err,
        (json::member_of(onboarding::hooks_within(root), event) matches Some(found) && !(found
            is List)) ==> onboarding::hooks_change(path, root, desired, provider, second, force)
            is Err,
        calls(onboarding::groups_of(onboarding::hooks_within(root), event), handler)
            && onboarding::is_own_hook(handler, provider) && handler != desired ==> (
        match onboarding::hooks_change(path, root, desired, provider, second, force) {
            Ok(Some((action, after))) => force && action == ConfigAction::Replace,
            Ok(None) => false,
            Err(error) => true,
        }),
        !calls(onboarding::groups_of(onboarding::hooks_within(root), event), desired)
            ==> onboarding::hooks_change(path, root, desired, provider, second, force) != Ok::<
            Option<(ConfigAction, JsonTree)>,
            ErrorView,
        >(None),
{
    let events = onboarding::followed(provider, second);
    let i = choose|i: int| 0 <= i < events.len() && events[i] == event;
    let found = onboarding::hooks_within(root);
    let groups = onboarding::groups_of(found, events[i]);
    let broken = |name: Seq<char>| onboarding::event_broken(found, name);
    order::position_is_first(events, broken);
    if onboarding::event_broken(found, event) {
        assert(broken(events[i]));
    }
    if calls(groups, handler) && onboarding::is_own_hook(handler, provider) && handler != desired {
        let (g, k) = choose|g: int, k: int| #[trigger] calls_at(groups, handler, g, k);
        let handlers = onboarding::handlers_of(groups[g])->0;
        assert(handlers[k] == handler);
        assert(onboarding::stale_among(handlers, desired, provider));
        assert(onboarding::group_stale(groups[g], desired, provider));
        assert(onboarding::stale_in(groups, desired, provider));
        assert(onboarding::any_stale(found, events, desired, provider));
    }
    if onboarding::exact_in(groups, desired, provider) {
        let g = choose|g: int|
            0 <= g < groups.len() && #[trigger] onboarding::group_exact(
                groups[g],
                desired,
                provider,
            );
        let handlers = onboarding::handlers_of(groups[g])->0;
        let k = choose|k: int|
            0 <= k < handlers.len() && onboarding::is_own_hook(#[trigger] handlers[k], provider)
                && handlers[k] == desired;
        assert(calls_at(groups, desired, g, k));
    }
}

} // verus!
