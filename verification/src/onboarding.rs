//! Setting a project up: the configuration files of the agents are planned
//! before anything is written, and only entries of this program are touched.

use vstd::prelude::*;

use crate::error;
use crate::error::{Error, ErrorView};
use crate::json;
use crate::json::{
    as_list, as_text, clone_json, find_member, get_field, put_member, read_json, same_json,
    unsigned_number, write_json, Json, JsonMember, JsonTree,
};
use crate::model;
use crate::order;
use crate::paths;
use crate::paths::{join_path, file_name};
use crate::readback;
use crate::text;
use crate::text::{chars_of, clone_maybe, contains_text, is_blank, joined, joined3, same_text};
use crate::toml_text;
use crate::toml_text::{
    add_table, clone_item, get_entry, get_setting, item_is_inline, item_is_table, make_string_item,
    parse_document, put_entry, show_item, write_document,
};

verus! {

/// Which agents are set up.
#[derive(Debug, Clone, Copy, PartialEq, Eq, Structural)]
pub struct AgentSelection {
    pub codex: bool,
    pub claude: bool,
}

/// What happens to a configuration file.
#[derive(Debug, Clone, Copy, PartialEq, Eq, Structural)]
pub enum ConfigAction {
    Create,
    Replace,
    Unchanged,
    Skip,
}

/// What happens to one configuration file, and its new content where it gets
/// one.
#[derive(Debug, PartialEq, Eq)]
pub struct ConfigPlan {
    pub path: String,
    pub action: ConfigAction,
    pub content: Option<String>,
}

/// What a `ConfigPlan` holds.
#[verifier::ext_equal]
pub struct ConfigPlanView {
    pub path: Seq<char>,
    pub action: ConfigAction,
    pub content: Option<Seq<char>>,
}

impl View for ConfigPlan {
    type V = ConfigPlanView;

    open spec fn view(&self) -> ConfigPlanView {
        ConfigPlanView {
            path: self.path@,
            action: self.action,
            content: text::maybe_text(self.content),
        }
    }
}

impl Clone for ConfigPlan {
    fn clone(&self) -> (copy: Self)
        ensures
            copy@ == self@,
    {
        ConfigPlan {
            path: self.path.clone(),
            action: self.action,
            content: clone_maybe(&self.content),
        }
    }
}

/// What setting a project up does.
#[derive(Debug, PartialEq, Eq)]
pub struct InitPlan {
    pub root: String,
    pub name: String,
    pub mcp_command: String,
    pub loom_command: String,
    pub codex: ConfigPlan,
    pub codex_hooks: ConfigPlan,
    pub claude: ConfigPlan,
    pub claude_hooks: ConfigPlan,
}

/// What an `InitPlan` holds.
#[verifier::ext_equal]
pub struct InitPlanView {
    pub root: Seq<char>,
    pub name: Seq<char>,
    pub mcp_command: Seq<char>,
    pub loom_command: Seq<char>,
    pub codex: ConfigPlanView,
    pub codex_hooks: ConfigPlanView,
    pub claude: ConfigPlanView,
    pub claude_hooks: ConfigPlanView,
}

impl View for InitPlan {
    type V = InitPlanView;

    open spec fn view(&self) -> InitPlanView {
        InitPlanView {
            root: self.root@,
            name: self.name@,
            mcp_command: self.mcp_command@,
            loom_command: self.loom_command@,
            codex: self.codex@,
            codex_hooks: self.codex_hooks@,
            claude: self.claude@,
            claude_hooks: self.claude_hooks@,
        }
    }
}

impl Clone for InitPlan {
    fn clone(&self) -> (copy: Self)
        ensures
            copy@ == self@,
    {
        InitPlan {
            root: self.root.clone(),
            name: self.name.clone(),
            mcp_command: self.mcp_command.clone(),
            loom_command: self.loom_command.clone(),
            codex: self.codex.clone(),
            codex_hooks: self.codex_hooks.clone(),
            claude: self.claude.clone(),
            claude_hooks: self.claude_hooks.clone(),
        }
    }
}

/// The present contents of the configuration files, where they exist.
#[derive(Debug, PartialEq, Eq)]
pub struct ConfigSources {
    pub codex: Option<String>,
    pub codex_hooks: Option<String>,
    pub claude: Option<String>,
    pub claude_hooks: Option<String>,
}

/// What a `ConfigSources` holds.
#[verifier::ext_equal]
pub struct ConfigSourcesView {
    pub codex: Option<Seq<char>>,
    pub codex_hooks: Option<Seq<char>>,
    pub claude: Option<Seq<char>>,
    pub claude_hooks: Option<Seq<char>>,
}

impl View for ConfigSources {
    type V = ConfigSourcesView;

    open spec fn view(&self) -> ConfigSourcesView {
        ConfigSourcesView {
            codex: text::maybe_text(self.codex),
            codex_hooks: text::maybe_text(self.codex_hooks),
            claude: text::maybe_text(self.claude),
            claude_hooks: text::maybe_text(self.claude_hooks),
        }
    }
}

impl Clone for ConfigSources {
    fn clone(&self) -> (copy: Self)
        ensures
            copy@ == self@,
    {
        ConfigSources {
            codex: clone_maybe(&self.codex),
            codex_hooks: clone_maybe(&self.codex_hooks),
            claude: clone_maybe(&self.claude),
            claude_hooks: clone_maybe(&self.claude_hooks),
        }
    }
}

/// The variables of this program that hooks have to pass on, where they are
/// set.
#[derive(Debug, PartialEq, Eq)]
pub struct HookEnvironment {
    pub config: Option<String>,
    pub state_dir: Option<String>,
    pub runtime_dir: Option<String>,
}

/// What a `HookEnvironment` holds.
#[verifier::ext_equal]
pub struct HookEnvironmentView {
    pub config: Option<Seq<char>>,
    pub state_dir: Option<Seq<char>>,
    pub runtime_dir: Option<Seq<char>>,
}

impl View for HookEnvironment {
    type V = HookEnvironmentView;

    open spec fn view(&self) -> HookEnvironmentView {
        HookEnvironmentView {
            config: text::maybe_text(self.config),
            state_dir: text::maybe_text(self.state_dir),
            runtime_dir: text::maybe_text(self.runtime_dir),
        }
    }
}

impl Clone for HookEnvironment {
    fn clone(&self) -> (copy: Self)
        ensures
            copy@ == self@,
    {
        HookEnvironment {
            config: clone_maybe(&self.config),
            state_dir: clone_maybe(&self.state_dir),
            runtime_dir: clone_maybe(&self.runtime_dir),
        }
    }
}

/// The variables that hooks have to pass on, with their names.
pub open spec fn passed_on(env: HookEnvironmentView) -> Seq<(Seq<char>, Seq<char>)> {
    let config = match env.config {
        Some(value) => seq![("LOOMTERM_CONFIG"@, value)],
        None => Seq::empty(),
    };
    let state_dir = match env.state_dir {
        Some(value) => seq![("LOOMTERM_STATE_DIR"@, value)],
        None => Seq::empty(),
    };
    let runtime_dir = match env.runtime_dir {
        Some(value) => seq![("LOOMTERM_RUNTIME_DIR"@, value)],
        None => Seq::empty(),
    };
    config + state_dir + runtime_dir
}

/// A text between single quotes, for a shell.
pub open spec fn quoted(value: Seq<char>) -> Seq<char> {
    seq!['\''] + model::requoted(value) + seq!['\'']
}

/// Quotes a text for a shell.
pub fn shell_quote(value: &str) -> (shown: String)
    ensures
        shown@ == quoted(value@),
{
    let chars = chars_of(value);
    let mut shown = String::new();
    shown.push('\'');
    assert(shown@ =~= seq!['\''] + model::requoted(chars@.take(0)));
    let mut i: usize = 0;
    while i < chars.len()
        invariant
            i <= chars.len(),
            shown@ == seq!['\''] + model::requoted(chars@.take(i as int)),
        decreases chars.len() - i,
    {
        let ghost before = shown@;
        assert(chars@.take(i + 1).drop_last() =~= chars@.take(i as int));
        if chars[i] == '\'' {
            shown.push('\'');
            shown.push('\\');
            shown.push('\'');
            shown.push('\'');
            assert(shown@ =~= before + seq!['\'', '\\', '\'', '\'']);
        } else {
            shown.push(chars[i]);
        }
        assert(shown@ =~= seq!['\''] + model::requoted(chars@.take(i + 1)));
        i += 1;
    }
    shown.push('\'');
    assert(chars@.take(chars@.len() as int) =~= value@);
    assert(shown@ =~= quoted(value@));
    shown
}

/// The assignments of the variables, as a shell reads them, each followed by a
/// space.
pub open spec fn shell_assignments(vars: Seq<(Seq<char>, Seq<char>)>) -> Seq<char>
    decreases vars.len(),
{
    if vars.len() == 0 {
        Seq::empty()
    } else {
        shell_assignments(vars.drop_last()) + vars.last().0 + "="@ + quoted(vars.last().1) + " "@
    }
}

/// The assignments of the variables as arguments.
pub open spec fn argument_assignments(vars: Seq<(Seq<char>, Seq<char>)>) -> Seq<JsonTree>
    decreases vars.len(),
{
    if vars.len() == 0 {
        Seq::empty()
    } else {
        argument_assignments(vars.drop_last()).push(
            JsonTree::Text(vars.last().0 + "="@ + vars.last().1),
        )
    }
}

/// The words by which a hook of this program is known.
pub open spec fn hook_words(provider: Seq<char>) -> Seq<JsonTree> {
    seq![
        JsonTree::Text("agent-event"@),
        JsonTree::Text("--provider"@),
        JsonTree::Text(provider),
    ]
}

/// The handler that an agent is to call: for the second agent, whose name is
/// given, the program with its arguments, behind `env` where variables have to
/// be passed on; for every other a line for a shell.
pub open spec fn handler_for(
    command: Seq<char>,
    provider: Seq<char>,
    claude_name: Seq<char>,
    env: HookEnvironmentView,
) -> JsonTree {
    let vars = passed_on(env);
    if provider == claude_name {
        let (program, args) = if vars.len() == 0 {
            (command, hook_words(provider))
        } else {
            (
                "/usr/bin/env"@,
                argument_assignments(vars).push(JsonTree::Text(command)) + hook_words(provider),
            )
        };
        JsonTree::Object(
            seq![
                ("args"@, JsonTree::List(args)),
                ("command"@, JsonTree::Text(program)),
                ("timeout"@, JsonTree::Unsigned(5)),
                ("type"@, JsonTree::Text("command"@)),
            ],
        )
    } else {
        JsonTree::Object(
            seq![
                (
                    "command"@,
                    JsonTree::Text(
                        shell_assignments(vars) + quoted(command) + " agent-event --provider "@
                            + provider,
                    ),
                ),
                ("timeout"@, JsonTree::Unsigned(5)),
                ("type"@, JsonTree::Text("command"@)),
            ],
        )
    }
}

fn member(key: &str, value: Json) -> (member: JsonMember)
    ensures
        member.key@ == key@,
        member.value@ == value@,
{
    JsonMember { key: key.to_owned(), value }
}

fn text_value(text: &str) -> (json: Json)
    ensures
        json@ == JsonTree::Text(text@),
{
    Json::Text(text.to_owned())
}

fn list_passed_on(env: &HookEnvironment) -> (vars: Vec<(String, String)>)
    ensures
        vars@.map_values(|var: (String, String)| (var.0@, var.1@)) == passed_on(env@),
{
    let mut vars: Vec<(String, String)> = Vec::new();
    match &env.config {
        Some(value) => {
            vars.push(("LOOMTERM_CONFIG".to_owned(), value.clone()));
        },
        None => {},
    }
    match &env.state_dir {
        Some(value) => {
            vars.push(("LOOMTERM_STATE_DIR".to_owned(), value.clone()));
        },
        None => {},
    }
    match &env.runtime_dir {
        Some(value) => {
            vars.push(("LOOMTERM_RUNTIME_DIR".to_owned(), value.clone()));
        },
        None => {},
    }
    assert(vars@.map_values(|var: (String, String)| (var.0@, var.1@)) =~= passed_on(env@));
    vars
}

/// Builds the handler that an agent is to call.
pub fn hook_handler(
    command: &str,
    provider: &str,
    claude_name: &str,
    env: &HookEnvironment,
) -> (handler: Json)
    ensures
        handler@ == handler_for(command@, provider@, claude_name@, env@),
{
    let vars = list_passed_on(env);
    let ghost all = passed_on(env@);
    assert(all.len() == vars.len());
    let mut members: Vec<JsonMember> = Vec::new();
    if same_text(provider, claude_name) {
        let mut args: Vec<Json> = Vec::new();
        let program = if vars.len() == 0 {
            command.to_owned()
        } else {
            let mut i: usize = 0;
            assert(json::trees(args@) =~= argument_assignments(all.take(0)));
            while i < vars.len()
                invariant
                    i <= vars.len(),
                    all.len() == vars.len(),
                    all == vars@.map_values(|var: (String, String)| (var.0@, var.1@)),
                    json::trees(args@) == argument_assignments(all.take(i as int)),
                decreases vars.len() - i,
            {
                let ghost before = json::trees(args@);
                let assignment = text_value(
                    joined3(vars[i].0.as_str(), "=", vars[i].1.as_str()).as_str(),
                );
                args.push(assignment);
                proof {
                    assert(all.take(i + 1).drop_last() =~= all.take(i as int));
                    assert(json::trees(args@) =~= before.push(assignment@));
                }
                i += 1;
            }
            assert(all.take(i as int) =~= all);
            args.push(text_value(command));
            "/usr/bin/env".to_owned()
        };
        let ghost front = json::trees(args@);
        proof {
            if vars.len() == 0 {
                assert(front =~= Seq::empty());
            } else {
                assert(front =~= argument_assignments(all).push(JsonTree::Text(command@)));
            }
        }
        args.push(text_value("agent-event"));
        args.push(text_value("--provider"));
        args.push(text_value(provider));
        let ghost words = json::trees(args@);
        assert(words =~= front + hook_words(provider@));
        let list = Json::List(args);
        proof {
            json::tree_parts(list);
            if vars.len() == 0 {
                assert(words =~= hook_words(provider@));
            }
        }
        members.push(member("args", list));
        members.push(member("command", text_value(program.as_str())));
    } else {
        let mut line = String::new();
        let mut i: usize = 0;
        assert(line@ =~= shell_assignments(all.take(0)));
        while i < vars.len()
            invariant
                i <= vars.len(),
                all.len() == vars.len(),
                all == vars@.map_values(|var: (String, String)| (var.0@, var.1@)),
                line@ == shell_assignments(all.take(i as int)),
            decreases vars.len() - i,
        {
            assert(all.take(i + 1).drop_last() =~= all.take(i as int));
            line.append(vars[i].0.as_str());
            line.append("=");
            line.append(shell_quote(vars[i].1.as_str()).as_str());
            line.append(" ");
            i += 1;
        }
        assert(all.take(i as int) =~= all);
        line.append(shell_quote(command).as_str());
        line.append(" agent-event --provider ");
        line.append(provider);
        members.push(member("command", Json::Text(line)));
    }
    members.push(member("timeout", Json::Number(unsigned_number(5))));
    members.push(member("type", text_value("command")));
    let handler = Json::Object(members);
    proof {
        json::tree_parts(handler);
        assert(json::member_trees(members@) =~= handler_for(command@, provider@, claude_name@, env@)->Object_0);
    }
    handler
}

/// Whether the words of a hook stand in a list of arguments at `at`.
pub open spec fn words_at(args: Seq<JsonTree>, provider: Seq<char>, at: int) -> bool {
    0 <= at && at + 3 <= args.len() && args[at] == JsonTree::Text("agent-event"@) && args[at + 1]
        == JsonTree::Text("--provider"@) && args[at + 2] == JsonTree::Text(provider)
}

/// Whether the words of a hook stand in a list of arguments.
pub open spec fn has_words(args: Seq<JsonTree>, provider: Seq<char>) -> bool {
    exists|at: int| #[trigger] words_at(args, provider, at)
}

/// Whether a handler is one of this program for the provider.
pub open spec fn is_own_hook(handler: JsonTree, provider: Seq<char>) -> bool {
    ||| json::text_in(json::field(handler, "command"@)) matches Some(command) && text::occurs(
        command,
        "agent-event --provider "@ + provider,
    )
    ||| json::list_in(json::field(handler, "args"@)) matches Some(args) && has_words(args, provider)
}

fn is_text(json: &Json, text: &str) -> (yes: bool)
    ensures
        yes == (json@ == JsonTree::Text(text@)),
{
    match json {
        Json::Text(inner) => same_text(inner.as_str(), text),
        _ => false,
    }
}

/// Whether a handler is one of this program for the provider.
pub fn is_loomterm_hook(handler: &Json, provider: &str) -> (own: bool)
    ensures
        own == is_own_hook(handler@, provider@),
{
    let suffix = joined("agent-event --provider ", provider);
    match as_text(get_field(handler, "command")) {
        Some(command) => {
            if contains_text(command, suffix.as_str()) {
                return true;
            }
        },
        None => {},
    }
    match as_list(get_field(handler, "args")) {
        Some(args) => {
            let ghost all = json::trees(args@);
            if args.len() < 3 {
                return false;
            }
            let mut at: usize = 0;
            while at <= args.len() - 3
                invariant
                    args.len() >= 3,
                    at <= args.len() - 2,
                    all == json::trees(args@),
                    forall|k: int| 0 <= k < at ==> !#[trigger] words_at(all, provider@, k),
                decreases args.len() - at,
            {
                proof {
                    assert(all[at as int] == args@[at as int]@);
                    assert(all[at + 1] == args@[at + 1]@);
                    assert(all[at + 2] == args@[at + 2]@);
                }
                if is_text(&args[at], "agent-event") && is_text(&args[at + 1], "--provider")
                    && is_text(&args[at + 2], provider) {
                    assert(words_at(all, provider@, at as int));
                    return true;
                }
                at += 1;
            }
            false
        },
        None => false,
    }
}

/// The handlers of a group, where it has a list of them.
pub open spec fn handlers_of(group: JsonTree) -> Option<Seq<JsonTree>> {
    json::list_in(json::field(group, "hooks"@))
}

/// Whether one of the handlers is of this program and other than `desired`.
pub open spec fn stale_among(
    handlers: Seq<JsonTree>,
    desired: JsonTree,
    provider: Seq<char>,
) -> bool {
    exists|k: int|
        0 <= k < handlers.len() && is_own_hook(#[trigger] handlers[k], provider) && handlers[k]
            != desired
}

/// Whether one of the handlers is `desired`, and of this program.
pub open spec fn exact_among(
    handlers: Seq<JsonTree>,
    desired: JsonTree,
    provider: Seq<char>,
) -> bool {
    exists|k: int|
        0 <= k < handlers.len() && is_own_hook(#[trigger] handlers[k], provider) && handlers[k]
            == desired
}

/// Whether a group calls a handler of this program other than `desired`.
pub open spec fn group_stale(group: JsonTree, desired: JsonTree, provider: Seq<char>) -> bool {
    match handlers_of(group) {
        Some(handlers) => stale_among(handlers, desired, provider),
        None => false,
    }
}

/// Whether a group calls the handler `desired`.
pub open spec fn group_exact(group: JsonTree, desired: JsonTree, provider: Seq<char>) -> bool {
    match handlers_of(group) {
        Some(handlers) => exact_among(handlers, desired, provider),
        None => false,
    }
}

/// Whether some groups call a handler of this program other than `desired`.
pub open spec fn stale_in(groups: Seq<JsonTree>, desired: JsonTree, provider: Seq<char>) -> bool {
    exists|i: int| 0 <= i < groups.len() && #[trigger] group_stale(groups[i], desired, provider)
}

/// Whether some groups call the handler `desired`.
pub open spec fn exact_in(groups: Seq<JsonTree>, desired: JsonTree, provider: Seq<char>) -> bool {
    exists|i: int| 0 <= i < groups.len() && #[trigger] group_exact(groups[i], desired, provider)
}

/// Handlers without those of this program.
pub open spec fn others(handlers: Seq<JsonTree>, provider: Seq<char>) -> Seq<JsonTree>
    decreases handlers.len(),
{
    if handlers.len() == 0 {
        Seq::empty()
    } else if is_own_hook(handlers.last(), provider) {
        others(handlers.drop_last(), provider)
    } else {
        others(handlers.drop_last(), provider).push(handlers.last())
    }
}

/// A group without the handlers of this program.
pub open spec fn stripped(group: JsonTree, provider: Seq<char>) -> JsonTree {
    match (group, handlers_of(group)) {
        (JsonTree::Object(members), Some(handlers)) => JsonTree::Object(
            json::with_member(members, "hooks"@, JsonTree::List(others(handlers, provider))),
        ),
        _ => group,
    }
}

/// Whether a group has anything left to call.
pub open spec fn group_lives(group: JsonTree) -> bool {
    match handlers_of(group) {
        Some(handlers) => handlers.len() > 0,
        None => true,
    }
}

/// Groups without the handlers of this program, and without groups that have
/// nothing left.
pub open spec fn cleaned(groups: Seq<JsonTree>, provider: Seq<char>) -> Seq<JsonTree>
    decreases groups.len(),
{
    if groups.len() == 0 {
        Seq::empty()
    } else {
        let before = cleaned(groups.drop_last(), provider);
        let group = stripped(groups.last(), provider);
        if group_lives(group) {
            before.push(group)
        } else {
            before
        }
    }
}

/// The group that calls the handler `desired`.
pub open spec fn own_group(desired: JsonTree) -> JsonTree {
    JsonTree::Object(seq![("hooks"@, JsonTree::List(seq![desired]))])
}

/// Groups with the handler `desired` in place of what was there of this
/// program.
pub open spec fn renewed(groups: Seq<JsonTree>, desired: JsonTree, provider: Seq<char>) -> Seq<
    JsonTree,
> {
    cleaned(groups, provider).push(own_group(desired))
}

fn other_handlers(handlers: &Vec<Json>, provider: &str) -> (left: Vec<Json>)
    ensures
        json::trees(left@) == others(json::trees(handlers@), provider@),
{
    let ghost all = json::trees(handlers@);
    let mut left: Vec<Json> = Vec::new();
    let mut i: usize = 0;
    assert(json::trees(left@) =~= others(all.take(0), provider@));
    while i < handlers.len()
        invariant
            i <= handlers.len(),
            all == json::trees(handlers@),
            json::trees(left@) == others(all.take(i as int), provider@),
        decreases handlers.len() - i,
    {
        let ghost before = json::trees(left@);
        proof {
            assert(all.take(i + 1).drop_last() =~= all.take(i as int));
            assert(all.take(i + 1).last() == handlers@[i as int]@);
        }
        if !is_loomterm_hook(&handlers[i], provider) {
            left.push(clone_json(&handlers[i]));
            assert(json::trees(left@) =~= before.push(handlers@[i as int]@));
        }
        i += 1;
    }
    assert(all.take(i as int) =~= all);
    left
}

fn clone_members(members: &Vec<JsonMember>) -> (copy: Vec<JsonMember>)
    ensures
        json::member_trees(copy@) == json::member_trees(members@),
{
    let mut copy: Vec<JsonMember> = Vec::new();
    let mut i: usize = 0;
    while i < members.len()
        invariant
            i <= members.len(),
            copy.len() == i,
            forall|k: int|
                0 <= k < i ==> (#[trigger] copy@[k]).key@ == members@[k].key@ && copy@[k].value@
                    == members@[k].value@,
        decreases members.len() - i,
    {
        copy.push(
            JsonMember { key: members[i].key.clone(), value: clone_json(&members[i].value) },
        );
        i += 1;
    }
    assert(json::member_trees(copy@) =~= json::member_trees(members@));
    copy
}

fn strip_group(group: &Json, provider: &str) -> (left: Json)
    ensures
        left@ == stripped(group@, provider@),
{
    proof {
        json::tree_parts(*group);
    }
    match group {
        Json::Object(members) => match as_list(get_field(group, "hooks")) {
            Some(handlers) => {
                let list = Json::List(other_handlers(handlers, provider));
                let mut copy = clone_members(members);
                proof {
                    json::tree_parts(list);
                }
                put_member(&mut copy, "hooks", list);
                let left = Json::Object(copy);
                proof {
                    json::tree_parts(left);
                }
                left
            },
            None => clone_json(group),
        },
        _ => clone_json(group),
    }
}

fn renew_groups(groups: &Vec<Json>, desired: &Json, provider: &str) -> (list: Vec<Json>)
    ensures
        json::trees(list@) == renewed(json::trees(groups@), desired@, provider@),
{
    let ghost all = json::trees(groups@);
    let mut list: Vec<Json> = Vec::new();
    let mut i: usize = 0;
    assert(json::trees(list@) =~= cleaned(all.take(0), provider@));
    while i < groups.len()
        invariant
            i <= groups.len(),
            all == json::trees(groups@),
            json::trees(list@) == cleaned(all.take(i as int), provider@),
        decreases groups.len() - i,
    {
        let ghost before = json::trees(list@);
        proof {
            assert(all.take(i + 1).drop_last() =~= all.take(i as int));
            assert(all.take(i + 1).last() == groups@[i as int]@);
        }
        let group = strip_group(&groups[i], provider);
        let lives = match as_list(get_field(&group, "hooks")) {
            Some(handlers) => {
                assert(json::trees(handlers@).len() == handlers.len());
                handlers.len() > 0
            },
            None => true,
        };
        if lives {
            list.push(group);
            assert(json::trees(list@) =~= before.push(group@));
        }
        i += 1;
    }
    assert(all.take(i as int) =~= all);
    let ghost before = json::trees(list@);
    let mut handlers: Vec<Json> = Vec::new();
    handlers.push(clone_json(desired));
    let mut members: Vec<JsonMember> = Vec::new();
    let inner = Json::List(handlers);
    proof {
        json::tree_parts(inner);
        assert(json::trees(handlers@) =~= seq![desired@]);
    }
    members.push(member("hooks", inner));
    let own = Json::Object(members);
    proof {
        json::tree_parts(own);
        assert(json::member_trees(members@) =~= own_group(desired@)->Object_0);
    }
    list.push(own);
    assert(json::trees(list@) =~= before.push(own@));
    list
}

/// The events whose hooks are followed: of the second agent, whose name is
/// given, failures are told apart.
pub open spec fn followed(provider: Seq<char>, claude_name: Seq<char>) -> Seq<Seq<char>> {
    if provider == claude_name {
        seq![
            "UserPromptSubmit"@,
            "PreToolUse"@,
            "PostToolUse"@,
            "PostToolUseFailure"@,
            "Stop"@,
            "StopFailure"@,
        ]
    } else {
        seq!["UserPromptSubmit"@, "PreToolUse"@, "PostToolUse"@, "Stop"@]
    }
}

/// The events whose hooks are followed.
pub fn followed_events(provider: &str, claude_name: &str) -> (events: Vec<String>)
    ensures
        text::texts(events@) == followed(provider@, claude_name@),
{
    let mut events: Vec<String> = Vec::new();
    events.push("UserPromptSubmit".to_owned());
    events.push("PreToolUse".to_owned());
    events.push("PostToolUse".to_owned());
    if same_text(provider, claude_name) {
        events.push("PostToolUseFailure".to_owned());
    }
    events.push("Stop".to_owned());
    if same_text(provider, claude_name) {
        events.push("StopFailure".to_owned());
    }
    assert(text::texts(events@) =~= followed(provider@, claude_name@));
    events
}

/// The groups of an event: none where the event is not there.
pub open spec fn groups_of(hooks: Seq<(Seq<char>, JsonTree)>, event: Seq<char>) -> Seq<JsonTree> {
    match json::member_of(hooks, event) {
        Some(JsonTree::List(items)) => items,
        _ => Seq::empty(),
    }
}

/// Whether an event is there and is no list.
pub open spec fn event_broken(hooks: Seq<(Seq<char>, JsonTree)>, event: Seq<char>) -> bool {
    match json::member_of(hooks, event) {
        Some(JsonTree::List(items)) => false,
        Some(_) => true,
        None => false,
    }
}

/// The first of the events that is there and is no list.
pub open spec fn broken_event(hooks: Seq<(Seq<char>, JsonTree)>, events: Seq<Seq<char>>) -> Option<
    Seq<char>,
> {
    match crate::order::position(events, |event: Seq<char>| event_broken(hooks, event)) {
        Some(at) => Some(events[at]),
        None => None,
    }
}

/// Hooks with the handler `desired` for every event.
pub open spec fn renewed_events(
    hooks: Seq<(Seq<char>, JsonTree)>,
    events: Seq<Seq<char>>,
    desired: JsonTree,
    provider: Seq<char>,
) -> Seq<(Seq<char>, JsonTree)>
    decreases events.len(),
{
    if events.len() == 0 {
        hooks
    } else {
        let before = renewed_events(hooks, events.drop_last(), desired, provider);
        json::with_member(
            before,
            events.last(),
            JsonTree::List(renewed(groups_of(before, events.last()), desired, provider)),
        )
    }
}

/// The refusal to replace an entry of this program that is different.
pub open spec fn collision_error(path: Seq<char>) -> ErrorView {
    ErrorView::Config(
        path
            + " already contains a different Loomterm configuration; use --force to replace only Loomterm-managed entries"@,
    )
}

fn collision(path: &str) -> (error: Error)
    ensures
        error@ == collision_error(path@),
{
    Error::Config(
        joined(
            path,
            " already contains a different Loomterm configuration; use --force to replace only Loomterm-managed entries",
        ),
    )
}

/// Whether a hook of this program is out of date for one of the events.
pub open spec fn any_stale(
    hooks: Seq<(Seq<char>, JsonTree)>,
    events: Seq<Seq<char>>,
    desired: JsonTree,
    provider: Seq<char>,
) -> bool {
    exists|i: int|
        0 <= i < events.len() && #[trigger] stale_in(groups_of(hooks, events[i]), desired, provider)
}

/// Whether the handler `desired` is there for every event.
pub open spec fn all_exact(
    hooks: Seq<(Seq<char>, JsonTree)>,
    events: Seq<Seq<char>>,
    desired: JsonTree,
    provider: Seq<char>,
) -> bool {
    forall|i: int|
        0 <= i < events.len() ==> #[trigger] exact_in(
            groups_of(hooks, events[i]),
            desired,
            provider,
        )
}

/// What is to become of a hooks file that holds `root`: nothing, or a new
/// value in place of the old.
pub open spec fn hooks_change(
    path: Seq<char>,
    root: JsonTree,
    desired: JsonTree,
    provider: Seq<char>,
    claude_name: Seq<char>,
    force: bool,
) -> Result<Option<(ConfigAction, JsonTree)>, ErrorView> {
    let events = followed(provider, claude_name);
    match root {
        JsonTree::Object(members) => match json::member_of(members, "hooks"@) {
            Some(JsonTree::Object(hooks)) => hooks_change_in(
                path,
                members,
                hooks,
                desired,
                provider,
                claude_name,
                force,
            ),
            Some(_) => Err(ErrorView::Config(path + ": hooks must be a JSON object"@)),
            None => hooks_change_in(path, members, Seq::empty(), desired, provider, claude_name, force),
        },
        _ => Err(ErrorView::Config(path + ": root must be a JSON object"@)),
    }
}

/// What is to become of a hooks file whose hooks are `hooks`.
pub open spec fn hooks_change_in(
    path: Seq<char>,
    members: Seq<(Seq<char>, JsonTree)>,
    hooks: Seq<(Seq<char>, JsonTree)>,
    desired: JsonTree,
    provider: Seq<char>,
    claude_name: Seq<char>,
    force: bool,
) -> Result<Option<(ConfigAction, JsonTree)>, ErrorView> {
    let events = followed(provider, claude_name);
    if broken_event(hooks, events) is Some {
        Err(
            ErrorView::Config(
                path + ": hooks."@ + broken_event(hooks, events)->0 + " must be a JSON array"@,
            ),
        )
    } else if any_stale(hooks, events, desired, provider) && !force {
        Err(collision_error(path))
    } else if !any_stale(hooks, events, desired, provider) && all_exact(
        hooks,
        events,
        desired,
        provider,
    ) {
        Ok(None)
    } else {
        Ok(
            Some(
                (
                    if any_stale(hooks, events, desired, provider) {
                        ConfigAction::Replace
                    } else {
                        ConfigAction::Create
                    },
                    JsonTree::Object(
                        json::with_member(
                            members,
                            "hooks"@,
                            JsonTree::Object(renewed_events(hooks, events, desired, provider)),
                        ),
                    ),
                ),
            ),
        )
    }
}

/// What the groups of an event call of this program: something out of date,
/// and the handler `desired`.
fn inspect_groups(groups: &Vec<Json>, desired: &Json, provider: &str) -> (found: (bool, bool))
    requires
        json::whole_only(desired@),
    ensures
        found.0 == stale_in(json::trees(groups@), desired@, provider@),
        found.1 == exact_in(json::trees(groups@), desired@, provider@),
{
    let ghost all = json::trees(groups@);
    let mut stale = false;
    let mut exact = false;
    let mut i: usize = 0;
    while i < groups.len()
        invariant
            i <= groups.len(),
            all == json::trees(groups@),
            json::whole_only(desired@),
            stale == (exists|k: int| 0 <= k < i && #[trigger] group_stale(
                all[k],
                desired@,
                provider@,
            )),
            exact == (exists|k: int| 0 <= k < i && #[trigger] group_exact(
                all[k],
                desired@,
                provider@,
            )),
        decreases groups.len() - i,
    {
        assert(all[i as int] == groups@[i as int]@);
        let ghost was_stale = stale;
        let ghost was_exact = exact;
        match as_list(get_field(&groups[i], "hooks")) {
            Some(handlers) => {
                let ghost inner = json::trees(handlers@);
                assert(handlers_of(all[i as int]) == Some(inner));
                let mut here_stale = false;
                let mut here_exact = false;
                let mut k: usize = 0;
                while k < handlers.len()
                    invariant
                        k <= handlers.len(),
                        inner == json::trees(handlers@),
                        json::whole_only(desired@),
                        here_stale == (exists|j: int|
                            0 <= j < k && is_own_hook(#[trigger] inner[j], provider@) && inner[j]
                                != desired@),
                        here_exact == (exists|j: int|
                            0 <= j < k && is_own_hook(#[trigger] inner[j], provider@) && inner[j]
                                == desired@),
                    decreases handlers.len() - k,
                {
                    assert(inner[k as int] == handlers@[k as int]@);
                    if is_loomterm_hook(&handlers[k], provider) {
                        if same_json(&handlers[k], desired) {
                            here_exact = true;
                        } else {
                            here_stale = true;
                        }
                    }
                    k += 1;
                }
                if here_stale {
                    stale = true;
                }
                if here_exact {
                    exact = true;
                }
                proof {
                    assert(here_stale == stale_among(inner, desired@, provider@));
                    assert(here_exact == exact_among(inner, desired@, provider@));
                    assert(group_stale(all[i as int], desired@, provider@) == here_stale);
                    assert(group_exact(all[i as int], desired@, provider@) == here_exact);
                }
            },
            None => {
                assert(!group_stale(all[i as int], desired@, provider@));
                assert(!group_exact(all[i as int], desired@, provider@));
            },
        }
        proof {
            if exists|k: int| 0 <= k < i + 1 && #[trigger] group_stale(all[k], desired@, provider@) {
                let k = choose|k: int|
                    0 <= k < i + 1 && #[trigger] group_stale(all[k], desired@, provider@);
                if k < i {
                    assert(was_stale);
                }
            }
            if exists|k: int| 0 <= k < i + 1 && #[trigger] group_exact(all[k], desired@, provider@) {
                let k = choose|k: int|
                    0 <= k < i + 1 && #[trigger] group_exact(all[k], desired@, provider@);
                if k < i {
                    assert(was_exact);
                }
            }
        }
        i += 1;
    }
    (stale, exact)
}

/// The groups of an event, or the fact that it is no list.
fn event_groups(hooks: &Vec<JsonMember>, event: &str) -> (groups: Option<Vec<Json>>)
    ensures
        groups is None == event_broken(json::member_trees(hooks@), event@),
        groups matches Some(list) ==> json::trees(list@) == groups_of(json::member_trees(hooks@), event@),
{
    match find_member(hooks, event) {
        Some(at) => {
            assert(json::member_trees(hooks@)[at as int] == (
                hooks@[at as int].key@,
                hooks@[at as int].value@,
            ));
            let copy = clone_json(&hooks[at].value);
            proof {
                json::tree_parts(copy);
            }
            match copy {
                Json::List(items) => Some(items),
                _ => None,
            }
        },
        None => {
            let list: Vec<Json> = Vec::new();
            assert(json::trees(list@) =~= Seq::empty());
            Some(list)
        },
    }
}

/// Decides what is to become of a hooks file.
#[verifier::rlimit(40)]
pub fn change_hooks(
    path: &str,
    root: &Json,
    desired: &Json,
    provider: &str,
    claude_name: &str,
    force: bool,
) -> (change: Result<Option<(ConfigAction, Json)>, Error>)
    requires
        json::whole_only(desired@),
    ensures
        error::outcome_view(
            change,
            |change: Option<(ConfigAction, Json)>|
                match change {
                    Some(change) => Some((change.0, change.1@)),
                    None => None,
                },
        ) == hooks_change(path@, root@, desired@, provider@, claude_name@, force),
{
    proof {
        json::tree_parts(*root);
    }
    let members = match root {
        Json::Object(members) => members,
        _ => {
            return Err(Error::Config(joined(path, ": root must be a JSON object")));
        },
    };
    let mut hooks: Vec<JsonMember> = Vec::new();
    assert(json::member_trees(hooks@) =~= Seq::empty());
    match get_field(root, "hooks") {
        Some(value) => {
            proof {
                json::tree_parts(*value);
            }
            match value {
                Json::Object(inner) => {
                    hooks = clone_members(inner);
                },
                _ => {
                    return Err(Error::Config(joined(path, ": hooks must be a JSON object")));
                },
            }
        },
        None => {},
    }
    let ghost start = json::member_trees(hooks@);
    assert(hooks_change(path@, root@, desired@, provider@, claude_name@, force) == hooks_change_in(
        path@,
        json::member_trees(members@),
        start,
        desired@,
        provider@,
        claude_name@,
        force,
    ));
    let events = followed_events(provider, claude_name);
    let ghost names = followed(provider@, claude_name@);
    assert(names.len() == events.len());
    let ghost broken = |event: Seq<char>| event_broken(start, event);
    let mut stale = false;
    let mut exact_events: usize = 0;
    let mut i: usize = 0;
    while i < events.len()
        invariant
            i <= events.len(),
            names == text::texts(events@),
            start == json::member_trees(hooks@),
            json::whole_only(desired@),
            broken == (|event: Seq<char>| event_broken(start, event)),
            forall|k: int| 0 <= k < i ==> !broken(#[trigger] names[k]),
            exact_events <= i,
            stale == (exists|k: int|
                0 <= k < i && #[trigger] stale_in(
                    groups_of(start, names[k]),
                    desired@,
                    provider@,
                )),
            (exact_events == i) == (forall|k: int|
                0 <= k < i ==> #[trigger] exact_in(
                    groups_of(start, names[k]),
                    desired@,
                    provider@,
                )),
        decreases events.len() - i,
    {
        assert(names[i as int] == events@[i as int]@);
        let ghost was_stale = stale;
        let ghost was_exact = exact_events == i;
        match event_groups(&hooks, events[i].as_str()) {
            None => {
                proof {
                    crate::order::position_found(names, broken, i as int);
                }
                let mut reason = joined3(path, ": hooks.", events[i].as_str());
                reason.append(" must be a JSON array");
                return Err(Error::Config(reason));
            },
            Some(groups) => {
                let (here_stale, here_exact) = inspect_groups(&groups, desired, provider);
                if here_stale {
                    stale = true;
                }
                if here_exact {
                    exact_events += 1;
                }
                proof {
                    assert(here_stale == stale_in(
                        groups_of(start, names[i as int]),
                        desired@,
                        provider@,
                    ));
                    if exists|k: int|
                        0 <= k < i + 1 && #[trigger] stale_in(
                            groups_of(start, names[k]),
                            desired@,
                            provider@,
                        ) {
                        let k = choose|k: int|
                            0 <= k < i + 1 && #[trigger] stale_in(
                                groups_of(start, names[k]),
                                desired@,
                                provider@,
                            );
                        if k < i {
                            assert(was_stale);
                        }
                    }
                    if was_exact && here_exact {
                        assert forall|k: int| 0 <= k < i + 1 implies #[trigger] exact_in(
                            groups_of(start, names[k]),
                            desired@,
                            provider@,
                        ) by {
                            if k < i {
                            }
                        }
                    }
                    if !was_exact {
                        let k = choose|k: int|
                            0 <= k < i && !#[trigger] exact_in(
                                groups_of(start, names[k]),
                                desired@,
                                provider@,
                            );
                        assert(!exact_in(groups_of(start, names[k]), desired@, provider@));
                    }
                }
            },
        }
        i += 1;
    }
    proof {
        crate::order::position_missing(names, broken);
    }
    if stale && !force {
        return Err(collision(path));
    }
    if !stale && exact_events == events.len() {
        return Ok(None);
    }
    let mut i: usize = 0;
    assert(names.take(0) =~= Seq::empty());
    while i < events.len()
        invariant
            i <= events.len(),
            names == text::texts(events@),
            json::member_trees(hooks@) == renewed_events(
                start,
                names.take(i as int),
                desired@,
                provider@,
            ),
        decreases events.len() - i,
    {
        proof {
            assert(names.take(i + 1).drop_last() =~= names.take(i as int));
            assert(names.take(i + 1).last() == events@[i as int]@);
        }
        let groups = match event_groups(&hooks, events[i].as_str()) {
            Some(groups) => groups,
            None => {
                let none: Vec<Json> = Vec::new();
                assert(json::trees(none@) =~= Seq::empty());
                none
            },
        };
        let list = Json::List(renew_groups(&groups, desired, provider));
        proof {
            json::tree_parts(list);
        }
        put_member(&mut hooks, events[i].as_str(), list);
        i += 1;
    }
    assert(names.take(i as int) =~= names);
    let mut copy = clone_members(members);
    let inner = Json::Object(hooks);
    proof {
        json::tree_parts(inner);
    }
    put_member(&mut copy, "hooks", inner);
    let whole = Json::Object(copy);
    proof {
        json::tree_parts(whole);
    }
    let action = if stale {
        ConfigAction::Replace
    } else {
        ConfigAction::Create
    };
    Ok(Some((action, whole)))
}

proof fn texts_are_whole(items: Seq<JsonTree>)
    requires
        forall|i: int| 0 <= i < items.len() ==> (#[trigger] items[i]) is Text,
    ensures
        json::whole_items(items),
        json::ordered_items(items),
{
    assert forall|i: int| 0 <= i < items.len() implies json::whole_only(#[trigger] items[i]) by {
        assert(items[i] is Text);
    }
    assert forall|i: int| 0 <= i < items.len() implies json::ordered(#[trigger] items[i]) by {
        assert(items[i] is Text);
    }
    crate::json::whole_items_all(items);
    json::ordered_items_each(items);
}

proof fn assignments_are_texts(vars: Seq<(Seq<char>, Seq<char>)>)
    ensures
        forall|i: int|
            0 <= i < argument_assignments(vars).len() ==> (#[trigger] argument_assignments(vars)[i])
                is Text,
    decreases vars.len(),
{
    if vars.len() > 0 {
        assignments_are_texts(vars.drop_last());
    }
}

/// The keys that handlers and servers are written with stand in this order.
proof fn known_keys_ascend()
    ensures
        order::text_above("command"@, "args"@),
        order::text_above("timeout"@, "args"@),
        order::text_above("type"@, "args"@),
        order::text_above("env"@, "args"@),
        order::text_above("timeout"@, "command"@),
        order::text_above("type"@, "command"@),
        order::text_above("env"@, "command"@),
        order::text_above("type"@, "env"@),
        order::text_above("type"@, "timeout"@),
{
    reveal_strlit("args");
    reveal_strlit("command");
    reveal_strlit("env");
    reveal_strlit("timeout");
    reveal_strlit("type");
    reveal_with_fuel(order::text_above, 3);
    assert("type"@.drop_first()[0] == 'y');
    assert("timeout"@.drop_first()[0] == 'i');
}

proof fn first_member(members: Seq<(Seq<char>, JsonTree)>)
    requires
        members.len() > 0,
    ensures
        json::member_of(members, members[0].0) == Some(members[0].1),
{
    crate::order::position_found(members, crate::json::has_key(members[0].0), 0);
}

/// The handler is known as one of this program, holds no number but whole
/// ones, and has its members in order.
pub proof fn handler_is_own(
    command: Seq<char>,
    provider: Seq<char>,
    claude_name: Seq<char>,
    env: HookEnvironmentView,
)
    ensures
        is_own_hook(handler_for(command, provider, claude_name, env), provider),
        json::whole_only(handler_for(command, provider, claude_name, env)),
        json::ordered(handler_for(command, provider, claude_name, env)),
{
    let handler = handler_for(command, provider, claude_name, env);
    let members = handler->Object_0;
    let vars = passed_on(env);
    known_keys_ascend();
    first_member(members);
    if provider == claude_name {
        let args = members[0].1->List_0;
        assignments_are_texts(vars);
        assert(json::list_in(json::field(handler, "args"@)) == Some(args));
        let words = hook_words(provider);
        assert forall|i: int| 0 <= i < args.len() implies (#[trigger] args[i]) is Text by {
            if vars.len() > 0 {
                let front = argument_assignments(vars).push(JsonTree::Text(command));
                if i < front.len() {
                    assert(args[i] == front[i]);
                    if i < front.len() - 1 {
                        assert(front[i] == argument_assignments(vars)[i]);
                    }
                } else {
                    assert(args[i] == words[i - front.len()]);
                }
            }
        }
        texts_are_whole(args);
        let at = args.len() - 3;
        assert(args[at] == words[0] && args[at + 1] == words[1] && args[at + 2] == words[2]);
        assert(words_at(args, provider, at));
        assert(members[3].1 is Text && members[2].1 is Unsigned && members[1].1 is Text);
        assert(json::whole_only(members[0].1) && json::ordered(members[0].1));
    } else {
        let line = members[0].1->Text_0;
        assert(json::text_in(json::field(handler, "command"@)) == Some(line));
        let front = shell_assignments(vars) + quoted(command);
        let suffix = "agent-event --provider "@ + provider;
        reveal_strlit(" agent-event --provider ");
        reveal_strlit("agent-event --provider ");
        assert(" agent-event --provider "@ =~= seq![' '] + "agent-event --provider "@);
        assert(line =~= front + seq![' '] + suffix);
        let at = line.len() - suffix.len();
        assert(line.subrange(at, at + suffix.len()) =~= suffix);
        assert(crate::text::stands_at(line, suffix, at));
        assert(members[2].1 is Text && members[1].1 is Unsigned && members[0].1 is Text);
    }
    assert forall|i: int| 0 <= i < members.len() implies json::whole_only((#[trigger] members[i]).1) by {
        if i > 0 || provider != claude_name {
            assert(members[i].1 is Text || members[i].1 is Unsigned);
        }
    }
    assert forall|i: int| 0 <= i < members.len() implies json::ordered((#[trigger] members[i]).1) by {
        if i > 0 || provider != claude_name {
            assert(members[i].1 is Text || members[i].1 is Unsigned);
        }
    }
    crate::json::whole_members_all(members);
    json::ordered_members_each(members);
}

proof fn others_are_others(handlers: Seq<JsonTree>, provider: Seq<char>)
    ensures
        forall|i: int|
            0 <= i < others(handlers, provider).len() ==> !is_own_hook(
                #[trigger] others(handlers, provider)[i],
                provider,
            ),
        json::ordered_items(handlers) ==> json::ordered_items(others(handlers, provider)),
    decreases handlers.len(),
{
    if handlers.len() > 0 {
        let front = handlers.drop_last();
        others_are_others(front, provider);
        let left = others(handlers, provider);
        if !is_own_hook(handlers.last(), provider) {
            assert(left.drop_last() =~= others(front, provider));
            assert(left[left.len() - 1] == handlers.last());
        }
    }
}

proof fn stripped_facts(group: JsonTree, desired: JsonTree, provider: Seq<char>)
    requires
        json::ordered(group),
    ensures
        json::ordered(stripped(group, provider)),
        !group_stale(stripped(group, provider), desired, provider),
{
    match (group, handlers_of(group)) {
        (JsonTree::Object(members), Some(handlers)) => {
            others_are_others(handlers, provider);
            let left = JsonTree::List(others(handlers, provider));
            assert(json::ordered_items(handlers)) by {
                json::ordered_members_each(members);
                crate::order::position_is_first(members, crate::json::has_key("hooks"@));
                let at = crate::order::position(members, crate::json::has_key("hooks"@))->0;
                assert(json::ordered(members[at].1));
            }
            json::setting_a_member(members, "hooks"@, left, "hooks"@);
            assert(handlers_of(stripped(group, provider)) == Some(others(handlers, provider)));
        },
        _ => {},
    }
}

proof fn cleaned_facts(groups: Seq<JsonTree>, desired: JsonTree, provider: Seq<char>)
    requires
        json::ordered_items(groups),
    ensures
        json::ordered_items(cleaned(groups, provider)),
        forall|i: int|
            0 <= i < cleaned(groups, provider).len() ==> !group_stale(
                #[trigger] cleaned(groups, provider)[i],
                desired,
                provider,
            ),
    decreases groups.len(),
{
    if groups.len() > 0 {
        let front = groups.drop_last();
        cleaned_facts(front, desired, provider);
        let group = stripped(groups.last(), provider);
        stripped_facts(groups.last(), desired, provider);
        let all = cleaned(groups, provider);
        if group_lives(group) {
            assert(all.drop_last() =~= cleaned(front, provider));
            assert(all[all.len() - 1] == group);
        }
    }
}

proof fn renewed_facts(groups: Seq<JsonTree>, desired: JsonTree, provider: Seq<char>)
    requires
        json::ordered_items(groups),
        json::ordered(desired),
        is_own_hook(desired, provider),
    ensures
        json::ordered_items(renewed(groups, desired, provider)),
        !stale_in(renewed(groups, desired, provider), desired, provider),
        exact_in(renewed(groups, desired, provider), desired, provider),
{
    cleaned_facts(groups, desired, provider);
    let all = renewed(groups, desired, provider);
    let own = own_group(desired);
    let handlers = seq![desired];
    first_member(own->Object_0);
    assert(handlers_of(own) == Some(handlers));
    assert(handlers[0] == desired);
    assert(exact_among(handlers, desired, provider));
    assert(group_exact(all[all.len() - 1], desired, provider));
    assert(!group_stale(own, desired, provider));
    assert forall|i: int| 0 <= i < all.len() implies !#[trigger] group_stale(
        all[i],
        desired,
        provider,
    ) by {
        if i < all.len() - 1 {
            assert(all[i] == cleaned(groups, provider)[i]);
        }
    }
    assert(all.drop_last() =~= cleaned(groups, provider));
    let inner = own->Object_0;
    json::ordered_items_each(handlers);
    assert(json::ordered(JsonTree::List(handlers)));
    assert(inner[0].1 == JsonTree::List(handlers));
    json::ordered_members_each(inner);
    assert(json::ordered(own));
    assert(json::ordered(all[all.len() - 1]));
}

proof fn groups_are_ordered(hooks: Seq<(Seq<char>, JsonTree)>, event: Seq<char>)
    requires
        json::ordered_members(hooks),
    ensures
        json::ordered_items(groups_of(hooks, event)),
{
    crate::order::position_is_first(hooks, crate::json::has_key(event));
    match json::member_of(hooks, event) {
        Some(JsonTree::List(items)) => {
            json::ordered_members_each(hooks);
            let at = crate::order::position(hooks, crate::json::has_key(event))->0;
            assert(json::ordered(hooks[at].1));
        },
        _ => {
            assert(json::ordered_items(Seq::empty()));
        },
    }
}

proof fn renewed_events_facts(
    hooks: Seq<(Seq<char>, JsonTree)>,
    events: Seq<Seq<char>>,
    desired: JsonTree,
    provider: Seq<char>,
)
    requires
        json::ascending(hooks),
        json::ordered_members(hooks),
        json::ordered(desired),
        is_own_hook(desired, provider),
    ensures
        json::ascending(renewed_events(hooks, events, desired, provider)),
        json::ordered_members(renewed_events(hooks, events, desired, provider)),
    decreases events.len(),
{
    if events.len() > 0 {
        let front = events.drop_last();
        renewed_events_facts(hooks, front, desired, provider);
        let before = renewed_events(hooks, front, desired, provider);
        groups_are_ordered(before, events.last());
        renewed_facts(groups_of(before, events.last()), desired, provider);
        json::setting_a_member(
            before,
            events.last(),
            JsonTree::List(renewed(groups_of(before, events.last()), desired, provider)),
            events.last(),
        );
    }
}

#[verifier::rlimit(40)]
proof fn renewed_event_at(
    hooks: Seq<(Seq<char>, JsonTree)>,
    events: Seq<Seq<char>>,
    desired: JsonTree,
    provider: Seq<char>,
    key: Seq<char>,
)
    requires
        json::ascending(hooks),
        json::ordered_members(hooks),
        json::ordered(desired),
        is_own_hook(desired, provider),
        forall|i: int, j: int|
            0 <= i < j < events.len() ==> #[trigger] events[i] != #[trigger] events[j],
    ensures
        events.contains(key) ==> json::member_of(
            renewed_events(hooks, events, desired, provider),
            key,
        ) == Some(JsonTree::List(renewed(groups_of(hooks, key), desired, provider))),
        !events.contains(key) ==> json::member_of(
            renewed_events(hooks, events, desired, provider),
            key,
        ) == json::member_of(hooks, key),
    decreases events.len(),
{
    if events.len() > 0 {
        let front = events.drop_last();
        let last = events.last();
        let before = renewed_events(hooks, front, desired, provider);
        assert forall|i: int, j: int| 0 <= i < j < front.len() implies #[trigger] front[i]
            != #[trigger] front[j] by {
            assert(front[i] == events[i] && front[j] == events[j]);
        }
        renewed_event_at(hooks, front, desired, provider, key);
        renewed_event_at(hooks, front, desired, provider, last);
        renewed_events_facts(hooks, front, desired, provider);
        let value = JsonTree::List(renewed(groups_of(before, last), desired, provider));
        json::setting_a_member(before, last, value, key);
        assert(!front.contains(last)) by {
            if front.contains(last) {
                let i = choose|i: int| 0 <= i < front.len() && front[i] == last;
                assert(events[i] == events[events.len() - 1]);
            }
        }
        if events.contains(key) && key != last {
            let i = choose|i: int| 0 <= i < events.len() && events[i] == key;
            assert(front[i] == key);
        }
        if front.contains(key) {
            let i = choose|i: int| 0 <= i < front.len() && front[i] == key;
            assert(events[i] == key);
        }
        if key == last {
            assert(events[events.len() - 1] == key);
        }
    }
}

proof fn followed_are_distinct(provider: Seq<char>, claude_name: Seq<char>)
    ensures
        forall|i: int, j: int|
            0 <= i < j < followed(provider, claude_name).len() ==> #[trigger] followed(provider, claude_name)[i]
                != #[trigger] followed(provider, claude_name)[j],
{
    reveal_strlit("UserPromptSubmit");
    reveal_strlit("PreToolUse");
    reveal_strlit("PostToolUse");
    reveal_strlit("PostToolUseFailure");
    reveal_strlit("Stop");
    reveal_strlit("StopFailure");
    assert("UserPromptSubmit"@.len() == 16);
    assert("PreToolUse"@.len() == 10);
    assert("PostToolUse"@.len() == 11);
    assert("PostToolUseFailure"@.len() == 18);
    assert("Stop"@.len() == 4);
    assert("StopFailure"@.len() == 11);
    assert("PostToolUse"@[0] == 'P' && "StopFailure"@[0] == 'S');
}

/// The hooks that a file is changed to.
pub open spec fn hooks_within(root: JsonTree) -> Seq<(Seq<char>, JsonTree)> {
    match json::field(root, "hooks"@) {
        Some(JsonTree::Object(hooks)) => hooks,
        _ => Seq::empty(),
    }
}

/// What a file is changed to, where it is.
pub open spec fn changed_root(
    path: Seq<char>,
    root: JsonTree,
    desired: JsonTree,
    provider: Seq<char>,
    claude_name: Seq<char>,
    force: bool,
) -> JsonTree {
    match hooks_change(path, root, desired, provider, claude_name, force) {
        Ok(Some((action, after))) => after,
        _ => root,
    }
}

/// Setting hooks up is done once: what a file is changed to needs no change.
/// Everything else in the file stays as it is, and so do the hooks of events
/// that are not followed.
pub proof fn setting_hooks_up_settles(
    path: Seq<char>,
    root: JsonTree,
    desired: JsonTree,
    provider: Seq<char>,
    claude_name: Seq<char>,
    force: bool,
    again: bool,
    key: Seq<char>,
)
    requires
        json::ordered(root),
        json::ordered(desired),
        is_own_hook(desired, provider),
        hooks_change(path, root, desired, provider, claude_name, force) matches Ok(Some(_)),
    ensures
        ({
            let after = changed_root(path, root, desired, provider, claude_name, force);
            &&& json::ordered(after)
            &&& hooks_change(path, after, desired, provider, claude_name, again) == Ok::<
                Option<(ConfigAction, JsonTree)>,
                ErrorView,
            >(None)
            &&& key != "hooks"@ ==> json::field(after, key) == json::field(root, key)
            &&& !followed(provider, claude_name).contains(key) ==> json::member_of(hooks_within(after), key)
                == json::member_of(hooks_within(root), key)
        }),
{
    let events = followed(provider, claude_name);
    let after = changed_root(path, root, desired, provider, claude_name, force);
    let members = root->Object_0;
    let hooks = hooks_within(root);
    crate::order::position_is_first(members, crate::json::has_key("hooks"@));
    json::ordered_members_each(members);
    assert(json::ascending(hooks) && json::ordered_members(hooks)) by {
        match json::member_of(members, "hooks"@) {
            Some(JsonTree::Object(inner)) => {
                let at = crate::order::position(members, crate::json::has_key("hooks"@))->0;
                assert(json::ordered(members[at].1));
            },
            _ => {
                assert(json::ordered_members(Seq::empty()));
            },
        }
    }
    let new_hooks = renewed_events(hooks, events, desired, provider);
    renewed_events_facts(hooks, events, desired, provider);
    json::setting_a_member(members, "hooks"@, JsonTree::Object(new_hooks), key);
    assert(after == JsonTree::Object(
        json::with_member(members, "hooks"@, JsonTree::Object(new_hooks)),
    ));
    assert(hooks_within(after) == new_hooks);
    followed_are_distinct(provider, claude_name);
    renewed_event_at(hooks, events, desired, provider, key);
    assert forall|i: int| 0 <= i < events.len() implies !event_broken(
        new_hooks,
        #[trigger] events[i],
    ) && !stale_in(groups_of(new_hooks, events[i]), desired, provider) && exact_in(
        groups_of(new_hooks, events[i]),
        desired,
        provider,
    ) by {
        renewed_event_at(hooks, events, desired, provider, events[i]);
        assert(events.contains(events[i]));
        groups_are_ordered(hooks, events[i]);
        renewed_facts(groups_of(hooks, events[i]), desired, provider);
    }
    let broken = |event: Seq<char>| event_broken(new_hooks, event);
    assert forall|i: int| 0 <= i < events.len() implies !broken(#[trigger] events[i]) by {}
    crate::order::position_missing(events, broken);
    assert(!any_stale(new_hooks, events, desired, provider)) by {
        if any_stale(new_hooks, events, desired, provider) {
            let i = choose|i: int|
                0 <= i < events.len() && #[trigger] stale_in(
                    groups_of(new_hooks, events[i]),
                    desired,
                    provider,
                );
            assert(!event_broken(new_hooks, events[i]));
        }
    }
    assert(all_exact(new_hooks, events, desired, provider)) by {
        assert forall|i: int| 0 <= i < events.len() implies #[trigger] exact_in(
            groups_of(new_hooks, events[i]),
            desired,
            provider,
        ) by {
            assert(!event_broken(new_hooks, events[i]));
        }
    }
}

/// What the file that a plan is made for holds, as a JSON value: an empty
/// object where there is no file.
pub open spec fn present_json(path: Seq<char>, source: Option<Seq<char>>) -> Result<
    JsonTree,
    ErrorView,
> {
    match source {
        None => Ok(JsonTree::Object(Seq::empty())),
        Some(text) => match json::json_reading(text) {
            Ok(root) => Ok(root),
            Err(message) => Err(ErrorView::Config(path + ": "@ + message)),
        },
    }
}

/// A plan that writes a JSON value, on a line of its own at the end.
pub open spec fn json_plan(path: Seq<char>, action: ConfigAction, root: JsonTree) -> Result<
    ConfigPlanView,
    ErrorView,
> {
    match json::json_pretty(root) {
        Ok(text) => Ok(ConfigPlanView { path, action, content: Some(text.push('\n')) }),
        Err(message) => Err(ErrorView::Json(message)),
    }
}

/// A plan that leaves a file as it is.
pub open spec fn untouched(path: Seq<char>, action: ConfigAction) -> ConfigPlanView {
    ConfigPlanView { path, action, content: None }
}

/// The plan for a hooks file.
pub open spec fn hooks_plan(
    path: Seq<char>,
    source: Option<Seq<char>>,
    desired: JsonTree,
    provider: Seq<char>,
    claude_name: Seq<char>,
    force: bool,
) -> Result<ConfigPlanView, ErrorView> {
    match present_json(path, source) {
        Err(error) => Err(error),
        Ok(root) => match hooks_change(path, root, desired, provider, claude_name, force) {
            Err(error) => Err(error),
            Ok(None) => Ok(untouched(path, ConfigAction::Unchanged)),
            Ok(Some((action, after))) => json_plan(path, action, after),
        },
    }
}

fn read_present(path: &str, source: &Option<String>) -> (root: Result<Json, Error>)
    ensures
        error::outcome_view(root, |json: Json| json@) == present_json(path@, text::maybe_text(*source)),
        root matches Ok(json) ==> json::ordered(json@),
{
    match source {
        None => {
            let members: Vec<JsonMember> = Vec::new();
            let root = Json::Object(members);
            proof {
                json::tree_parts(root);
                assert(json::member_trees(members@) =~= Seq::empty());
                assert(json::ordered_members(Seq::empty()));
            }
            Ok(root)
        },
        Some(text) => match read_json(text.as_str()) {
            Ok(root) => Ok(root),
            Err(message) => Err(Error::Config(joined3(path, ": ", message.as_str()))),
        },
    }
}

fn write_plan(path: &str, action: ConfigAction, root: &Json) -> (plan: Result<ConfigPlan, Error>)
    requires
        json::ordered(root@),
    ensures
        error::viewed(plan) == json_plan(path@, action, root@),
        plan matches Ok(config) && config@.content is Some && (json::plain(
            root@,
            json::READABLE_LEVELS as nat,
        ) ==> present_json(path@, config@.content) == Ok::<JsonTree, ErrorView>(root@)),
{
    match write_json(root) {
        Ok(text) => {
            let mut content = text;
            content.push('\n');
            Ok(ConfigPlan { path: path.to_owned(), action, content: Some(content) })
        },
        Err(message) => Err(Error::Json(message)),
    }
}

/// Whether a file is missing, or what it holds is plain as far as it is JSON.
pub open spec fn plain_source(source: Option<Seq<char>>) -> bool {
    match source {
        Some(text) => json::json_reading(text) matches Ok(root) ==> json::plain(
            root,
            json::READABLE_LEVELS as nat,
        ),
        None => true,
    }
}

/// Whether the plan for a hooks file is to do nothing, by force or not.
pub open spec fn hooks_settled(
    path: Seq<char>,
    source: Option<Seq<char>>,
    desired: JsonTree,
    provider: Seq<char>,
    claude_name: Seq<char>,
) -> bool {
    forall|force: bool|
        #[trigger] hooks_plan(path, source, desired, provider, claude_name, force) == Ok::<
            ConfigPlanView,
            ErrorView,
        >(untouched(path, ConfigAction::Unchanged))
}

proof fn setting_hooks_up_settles_all(
    path: Seq<char>,
    root: JsonTree,
    desired: JsonTree,
    provider: Seq<char>,
    claude_name: Seq<char>,
    force: bool,
)
    requires
        json::ordered(root),
        json::ordered(desired),
        is_own_hook(desired, provider),
        hooks_change(path, root, desired, provider, claude_name, force) matches Ok(Some(_)),
    ensures
        ({
            let after = changed_root(path, root, desired, provider, claude_name, force);
            &&& json::ordered(after)
            &&& forall|again: bool|
                #[trigger] hooks_change(path, after, desired, provider, claude_name, again) == Ok::<
                    Option<(ConfigAction, JsonTree)>,
                    ErrorView,
                >(None)
            &&& forall|key: Seq<char>|
                key != "hooks"@ ==> #[trigger] json::field(after, key) == json::field(root, key)
            &&& forall|event: Seq<char>|
                !followed(provider, claude_name).contains(event) ==> #[trigger] json::member_of(
                    hooks_within(after),
                    event,
                ) == json::member_of(hooks_within(root), event)
        }),
{
    let after = changed_root(path, root, desired, provider, claude_name, force);
    let p = path;
    let n = claude_name;
    setting_hooks_up_settles(p, root, desired, provider, n, force, true, "hooks"@);
    setting_hooks_up_settles(p, root, desired, provider, n, force, false, "hooks"@);
    assert forall|key: Seq<char>| key != "hooks"@ implies #[trigger] json::field(after, key)
        == json::field(root, key) by {
        setting_hooks_up_settles(p, root, desired, provider, n, force, force, key);
    }
    assert forall|event: Seq<char>|
        !followed(provider, claude_name).contains(event) implies #[trigger] json::member_of(
        hooks_within(after),
        event,
    ) == json::member_of(hooks_within(root), event) by {
        setting_hooks_up_settles(p, root, desired, provider, n, force, force, event);
    }
}

/// Whether a hooks file holds what it held, but for hooks of followed events.
pub open spec fn other_hooks_stay(
    path: Seq<char>,
    source: Option<Seq<char>>,
    after: Option<Seq<char>>,
    events: Seq<Seq<char>>,
) -> bool {
    match (present_json(path, source), present_json(path, after)) {
        (Ok(root), Ok(new)) => (forall|key: Seq<char>|
            key != "hooks"@ ==> #[trigger] json::field(new, key) == json::field(root, key)) && (
        forall|event: Seq<char>|
            !events.contains(event) ==> #[trigger] json::member_of(hooks_within(new), event)
                == json::member_of(hooks_within(root), event)),
        _ => false,
    }
}

/// Whether a file that names servers holds what it held, but for the server of
/// this program.
pub open spec fn other_servers_stay(
    path: Seq<char>,
    source: Option<Seq<char>>,
    after: Option<Seq<char>>,
) -> bool {
    match (present_json(path, source), present_json(path, after)) {
        (Ok(root), Ok(new)) => (forall|key: Seq<char>|
            key != "mcpServers"@ ==> #[trigger] json::field(new, key) == json::field(root, key))
            && (forall|key: Seq<char>|
            key != "loomterm"@ ==> #[trigger] json::member_of(servers_of(new), key)
                == json::member_of(servers_of(root), key)),
        _ => false,
    }
}

proof fn nothing_is_there(
    path: Seq<char>,
    desired: JsonTree,
    provider: Seq<char>,
    claude_name: Seq<char>,
    force: bool,
)
    ensures
        hooks_change(
            path,
            JsonTree::Object(Seq::empty()),
            desired,
            provider,
            claude_name,
            force,
        ) matches Ok(Some((action, after))) && action == ConfigAction::Create,
{
    let hooks = Seq::<(Seq<char>, JsonTree)>::empty();
    let events = followed(provider, claude_name);
    assert forall|key: Seq<char>| #[trigger] json::member_of(hooks, key) is None by {
        crate::order::position_is_first(hooks, crate::json::has_key(key));
    }
    crate::order::position_missing(events, |event: Seq<char>| event_broken(hooks, event));
    assert forall|i: int| 0 <= i < events.len() implies !(#[trigger] stale_in(
        groups_of(hooks, events[i]),
        desired,
        provider,
    )) && !exact_in(groups_of(hooks, events[i]), desired, provider) by {
        assert(groups_of(hooks, events[i]).len() == 0);
    }
    assert(!exact_in(groups_of(hooks, events[0]), desired, provider));
}

proof fn plain_when_missing()
    ensures
        json::plain(JsonTree::Object(Seq::empty()), json::READABLE_LEVELS as nat),
{
}

/// Plans a hooks file. A file that is missing is created. Where the file is
/// plain, everything but the hooks of followed events stays as it is, and there
/// is nothing left to plan once the plan is carried out.
pub fn plan_hooks(
    path: &str,
    source: &Option<String>,
    command: &str,
    provider: &str,
    claude_name: &str,
    env: &HookEnvironment,
    force: bool,
) -> (plan: Result<ConfigPlan, Error>)
    ensures
        error::viewed(plan) == hooks_plan(
            path@,
            text::maybe_text(*source),
            handler_for(command@, provider@, claude_name@, env@),
            provider@,
            claude_name@,
            force,
        ),
        *source is None ==> (plan matches Ok(config) && config@.action == ConfigAction::Create
            && config@.content is Some),
        plan matches Ok(config) ==> plain_source(text::maybe_text(*source)) ==> hooks_settled(
            path@,
            after_plan(text::maybe_text(*source), config@),
            handler_for(command@, provider@, claude_name@, env@),
            provider@,
            claude_name@,
        ) && other_hooks_stay(
            path@,
            text::maybe_text(*source),
            after_plan(text::maybe_text(*source), config@),
            followed(provider@, claude_name@),
        ),
{
    let root = match read_present(path, source) {
        Ok(root) => root,
        Err(error) => {
            return Err(error);
        },
    };
    let desired = hook_handler(command, provider, claude_name, env);
    proof {
        handler_is_own(command@, provider@, claude_name@, env@);
        readback::handler_is_plain(command@, provider@, claude_name@, env@);
        plain_when_missing();
        if source is None {
            nothing_is_there(path@, desired@, provider@, claude_name@, force);
        }
    }
    match change_hooks(path, &root, &desired, provider, claude_name, force) {
        Err(error) => Err(error),
        Ok(None) => Ok(
            ConfigPlan { path: path.to_owned(), action: ConfigAction::Unchanged, content: None },
        ),
        Ok(Some((action, after))) => {
            proof {
                setting_hooks_up_settles_all(
                    path@,
                    root@,
                    desired@,
                    provider@,
                    claude_name@,
                    force,
                );
                if json::plain(root@, json::READABLE_LEVELS as nat) {
                    readback::changed_hooks_are_plain(
                        path@,
                        root@,
                        desired@,
                        provider@,
                        claude_name@,
                        force,
                    );
                }
            }
            write_plan(path, action, &after)
        },
    }
}

/// The entry of this program among the servers of an agent.
pub open spec fn server_for(command: Seq<char>) -> JsonTree {
    JsonTree::Object(
        seq![
            ("args"@, JsonTree::List(Seq::empty())),
            ("command"@, JsonTree::Text(command)),
            ("env"@, JsonTree::Object(Seq::empty())),
            ("type"@, JsonTree::Text("stdio"@)),
        ],
    )
}

/// What is to become of an entry of this program, when one is there or not:
/// it is written where it is missing, left where it is the same, and replaced
/// only by force.
pub open spec fn entry_change(path: Seq<char>, present: Option<bool>, force: bool) -> Result<
    ConfigAction,
    ErrorView,
> {
    match present {
        Some(same) => if same {
            Ok(ConfigAction::Unchanged)
        } else if !force {
            Err(collision_error(path))
        } else {
            Ok(ConfigAction::Replace)
        },
        None => Ok(ConfigAction::Create),
    }
}

/// Decides what is to become of an entry of this program; `present` says
/// whether one is there, and then whether it is the same as the one wanted.
pub fn decide_entry(path: &str, present: Option<bool>, force: bool) -> (action: Result<
    ConfigAction,
    Error,
>)
    ensures
        error::outcome_view(action, |action: ConfigAction| action) == entry_change(
            path@,
            present,
            force,
        ),
{
    match present {
        Some(same) => {
            if same {
                Ok(ConfigAction::Unchanged)
            } else if !force {
                Err(collision(path))
            } else {
                Ok(ConfigAction::Replace)
            }
        },
        None => Ok(ConfigAction::Create),
    }
}

/// The servers that a file names.
pub open spec fn servers_within(path: Seq<char>, members: Seq<(Seq<char>, JsonTree)>) -> Result<
    Seq<(Seq<char>, JsonTree)>,
    ErrorView,
> {
    match json::member_of(members, "mcpServers"@) {
        Some(JsonTree::Object(servers)) => Ok(servers),
        Some(_) => Err(ErrorView::Config(path + ": mcpServers must be a JSON object"@)),
        None => Ok(Seq::empty()),
    }
}

/// What is to become of a file that names servers and holds `root`: nothing, or
/// a new value in place of the old.
pub open spec fn servers_change(
    path: Seq<char>,
    root: JsonTree,
    command: Seq<char>,
    force: bool,
) -> Result<Option<(ConfigAction, JsonTree)>, ErrorView> {
    match root {
        JsonTree::Object(members) => match servers_within(path, members) {
            Err(error) => Err(error),
            Ok(servers) => {
                let present = match json::member_of(servers, "loomterm"@) {
                    Some(current) => Some(current == server_for(command)),
                    None => None,
                };
                match entry_change(path, present, force) {
                    Err(error) => Err(error),
                    Ok(action) => if action == ConfigAction::Unchanged {
                        Ok(None)
                    } else {
                        Ok(Some((action, with_server(members, servers, command))))
                    },
                }
            },
        },
        _ => Err(ErrorView::Config(path + ": root must be a JSON object"@)),
    }
}

/// The value of a file that names servers, with the entry of this program.
pub open spec fn with_server(
    members: Seq<(Seq<char>, JsonTree)>,
    servers: Seq<(Seq<char>, JsonTree)>,
    command: Seq<char>,
) -> JsonTree {
    JsonTree::Object(
        json::with_member(
            members,
            "mcpServers"@,
            JsonTree::Object(json::with_member(servers, "loomterm"@, server_for(command))),
        ),
    )
}

/// The servers that a value names, where it names any.
pub open spec fn servers_of(root: JsonTree) -> Seq<(Seq<char>, JsonTree)> {
    match json::field(root, "mcpServers"@) {
        Some(JsonTree::Object(servers)) => servers,
        _ => Seq::empty(),
    }
}

/// What a file that names servers holds once it is changed.
pub open spec fn entered_root(
    path: Seq<char>,
    root: JsonTree,
    command: Seq<char>,
    force: bool,
) -> JsonTree {
    match servers_change(path, root, command, force) {
        Ok(Some((action, after))) => after,
        _ => root,
    }
}

/// Entering the server is done once: what a file is changed to needs no change.
/// Everything else in the file stays as it is, and so does every other server.
pub proof fn entering_the_server_settles(
    path: Seq<char>,
    root: JsonTree,
    command: Seq<char>,
    force: bool,
    again: bool,
    key: Seq<char>,
)
    requires
        json::ordered(root),
        servers_change(path, root, command, force) matches Ok(Some(_)),
    ensures
        ({
            let after = entered_root(path, root, command, force);
            &&& json::ordered(after)
            &&& servers_change(path, after, command, again) == Ok::<
                Option<(ConfigAction, JsonTree)>,
                ErrorView,
            >(None)
            &&& json::member_of(servers_of(after), "loomterm"@) == Some(server_for(command))
            &&& key != "mcpServers"@ ==> json::field(after, key) == json::field(root, key)
            &&& key != "loomterm"@ ==> json::member_of(servers_of(after), key) == json::member_of(
                servers_of(root),
                key,
            )
        }),
{
    let members = root->Object_0;
    let servers = servers_of(root);
    server_is_plain(command);
    json::ordered_members_each(members);
    crate::order::position_is_first(members, crate::json::has_key("mcpServers"@));
    assert(json::ordered_members(Seq::empty()));
    assert(json::ascending(servers) && json::ordered_members(servers)) by {
        match json::member_of(members, "mcpServers"@) {
            Some(value) => {
                let at = crate::order::position(members, crate::json::has_key("mcpServers"@))->0;
                assert(json::ordered(members[at].1));
            },
            None => {},
        }
    }
    let entry = JsonTree::Object(json::with_member(servers, "loomterm"@, server_for(command)));
    json::setting_a_member(servers, "loomterm"@, server_for(command), key);
    json::setting_a_member(members, "mcpServers"@, entry, key);
}

/// Whether the plan for the file that names servers is to do nothing, by force
/// or not.
pub open spec fn claude_settled(
    path: Seq<char>,
    source: Option<Seq<char>>,
    command: Seq<char>,
) -> bool {
    forall|force: bool|
        #[trigger] claude_plan(path, source, command, force) == Ok::<ConfigPlanView, ErrorView>(
            untouched(path, ConfigAction::Unchanged),
        )
}

/// The plan for the file that names servers.
pub open spec fn claude_plan(
    path: Seq<char>,
    source: Option<Seq<char>>,
    command: Seq<char>,
    force: bool,
) -> Result<ConfigPlanView, ErrorView> {
    match present_json(path, source) {
        Err(error) => Err(error),
        Ok(root) => match servers_change(path, root, command, force) {
            Err(error) => Err(error),
            Ok(None) => Ok(untouched(path, ConfigAction::Unchanged)),
            Ok(Some((action, after))) => json_plan(path, action, after),
        },
    }
}

proof fn server_is_plain(command: Seq<char>)
    ensures
        json::whole_only(server_for(command)),
        json::ordered(server_for(command)),
{
    known_keys_ascend();
    let members = server_for(command)->Object_0;
    assert(json::whole_items(Seq::empty()) && json::whole_members(Seq::empty()));
    assert(json::ordered_items(Seq::empty()) && json::ordered_members(Seq::empty()));
    assert(members[0].1 is List && members[1].1 is Text && members[2].1 is Object
        && members[3].1 is Text);
    assert(json::whole_only(members[0].1) && json::whole_only(members[2].1));
    assert(json::ordered(members[0].1) && json::ordered(members[2].1));
    crate::json::whole_members_all(members);
    json::ordered_members_each(members);
}

fn server_entry(command: &str) -> (entry: Json)
    ensures
        entry@ == server_for(command@),
{
    let args: Vec<Json> = Vec::new();
    let env: Vec<JsonMember> = Vec::new();
    let list = Json::List(args);
    let object = Json::Object(env);
    proof {
        json::tree_parts(list);
        json::tree_parts(object);
        assert(json::trees(args@) =~= Seq::empty());
        assert(json::member_trees(env@) =~= Seq::empty());
    }
    let mut members: Vec<JsonMember> = Vec::new();
    members.push(member("args", list));
    members.push(member("command", text_value(command)));
    members.push(member("env", object));
    members.push(member("type", text_value("stdio")));
    let entry = Json::Object(members);
    proof {
        json::tree_parts(entry);
        assert(json::member_trees(members@) =~= server_for(command@)->Object_0);
    }
    entry
}

/// Decides what is to become of a file that names servers and holds `root`.
pub fn change_servers(path: &str, root: &Json, command: &str, force: bool) -> (change: Result<
    Option<(ConfigAction, Json)>,
    Error,
>)
    ensures
        error::outcome_view(
            change,
            |change: Option<(ConfigAction, Json)>|
                match change {
                    Some(change) => Some((change.0, change.1@)),
                    None => None,
                },
        ) == servers_change(path@, root@, command@, force),
{
    proof {
        json::tree_parts(*root);
        server_is_plain(command@);
    }
    let members = match root {
        Json::Object(members) => members,
        _ => {
            return Err(Error::Config(joined(path, ": root must be a JSON object")));
        },
    };
    let mut servers: Vec<JsonMember> = Vec::new();
    assert(json::member_trees(servers@) =~= Seq::empty());
    let ghost all = json::member_trees(members@);
    proof {
        crate::order::position_is_first(all, crate::json::has_key("mcpServers"@));
    }
    match get_field(root, "mcpServers") {
        Some(value) => {
            proof {
                json::tree_parts(*value);
            }
            match value {
                Json::Object(inner) => {
                    servers = clone_members(inner);
                },
                _ => {
                    return Err(
                        Error::Config(joined(path, ": mcpServers must be a JSON object")),
                    );
                },
            }
        },
        None => {},
    }
    let ghost inner = json::member_trees(servers@);
    let desired = server_entry(command);
    let present = match find_member(&servers, "loomterm") {
        Some(at) => {
            assert(inner[at as int] == (servers@[at as int].key@, servers@[at as int].value@));
            Some(same_json(&servers[at].value, &desired))
        },
        None => None,
    };
    match decide_entry(path, present, force) {
        Err(error) => Err(error),
        Ok(action) => {
            if action == ConfigAction::Unchanged {
                return Ok(None);
            }
            put_member(&mut servers, "loomterm", desired);
            let object = Json::Object(servers);
            let mut copy = clone_members(members);
            proof {
                json::tree_parts(object);
            }
            put_member(&mut copy, "mcpServers", object);
            let whole = Json::Object(copy);
            proof {
                json::tree_parts(whole);
            }
            Ok(Some((action, whole)))
        },
    }
}

/// Plans the file that names servers. A file that is missing is created. Where
/// the file is plain, everything but the server of this program stays as it is,
/// and there is nothing left to plan once the plan is carried out.
pub fn plan_claude(path: &str, source: &Option<String>, command: &str, force: bool) -> (plan: Result<
    ConfigPlan,
    Error,
>)
    ensures
        error::viewed(plan) == claude_plan(path@, text::maybe_text(*source), command@, force),
        *source is None ==> (plan matches Ok(config) && config@.action == ConfigAction::Create
            && config@.content is Some),
        plan matches Ok(config) ==> plain_source(text::maybe_text(*source)) ==> claude_settled(
            path@,
            after_plan(text::maybe_text(*source), config@),
            command@,
        ) && other_servers_stay(
            path@,
            text::maybe_text(*source),
            after_plan(text::maybe_text(*source), config@),
        ),
{
    let root = match read_present(path, source) {
        Ok(root) => root,
        Err(error) => {
            return Err(error);
        },
    };
    proof {
        plain_when_missing();
        if source is None {
            let members = Seq::<(Seq<char>, JsonTree)>::empty();
            crate::order::position_is_first(members, crate::json::has_key("mcpServers"@));
            crate::order::position_is_first(members, crate::json::has_key("loomterm"@));
        }
    }
    match change_servers(path, &root, command, force) {
        Err(error) => Err(error),
        Ok(None) => Ok(
            ConfigPlan { path: path.to_owned(), action: ConfigAction::Unchanged, content: None },
        ),
        Ok(Some((action, after))) => {
            proof {
                entering_the_server_settles(path@, root@, command@, force, true, "mcpServers"@);
                entering_the_server_settles(path@, root@, command@, force, false, "mcpServers"@);
                let new = entered_root(path@, root@, command@, force);
                assert forall|key: Seq<char>| key != "mcpServers"@ implies #[trigger] json::field(
                    new,
                    key,
                ) == json::field(root@, key) by {
                    entering_the_server_settles(path@, root@, command@, force, force, key);
                }
                assert forall|key: Seq<char>| key != "loomterm"@ implies #[trigger] json::member_of(
                    servers_of(new),
                    key,
                ) == json::member_of(servers_of(root@), key) by {
                    entering_the_server_settles(path@, root@, command@, force, force, key);
                }
                if json::plain(root@, json::READABLE_LEVELS as nat) {
                    readback::entered_server_is_plain(path@, root@, command@, force);
                }
            }
            write_plan(path, action, &after)
        },
    }
}

/// The plan for the file in TOML: `current` is what it holds of this program
/// and `desired` what it is to hold.
pub open spec fn codex_change(
    path: Seq<char>,
    current: Option<Seq<char>>,
    desired: Seq<char>,
    force: bool,
) -> Result<ConfigAction, ErrorView> {
    entry_change(
        path,
        match current {
            Some(entry) => Some(entry == desired),
            None => None,
        },
        force,
    )
}

/// Decides what is to become of the file in TOML.
pub fn decide_codex(path: &str, current: &Option<String>, desired: &str, force: bool) -> (action: Result<
    ConfigAction,
    Error,
>)
    ensures
        error::outcome_view(action, |action: ConfigAction| action) == codex_change(
            path@,
            text::maybe_text(*current),
            desired@,
            force,
        ),
{
    let present = match current {
        Some(entry) => Some(same_text(entry.as_str(), desired)),
        None => None,
    };
    decide_entry(path, present, force)
}

/// What a file that may be missing holds.
pub open spec fn text_of(source: Option<Seq<char>>) -> Seq<char> {
    match source {
        Some(text) => text,
        None => Seq::empty(),
    }
}

/// The plan for the file in TOML.
pub open spec fn codex_plan(
    path: Seq<char>,
    source: Option<Seq<char>>,
    command: Seq<char>,
    force: bool,
) -> Result<ConfigPlanView, ErrorView> {
    let servers = "mcp_servers"@;
    let own = "loomterm"@;
    match toml_text::document_in(text_of(source)) {
        Err(message) => Err(ErrorView::Config(path + ": "@ + message)),
        Ok(document) => match toml_text::document_in(toml_text::codex_document(command)) {
            Err(message) => Err(
                ErrorView::Config("could not build Codex configuration: "@ + message),
            ),
            Ok(built) => match toml_text::entry_of(built, servers, own) {
                None => Err(
                    ErrorView::Config("could not build Codex configuration: no entry"@),
                ),
                Some(item) => match codex_change(
                    path,
                    toml_text::shown(toml_text::entry_of(document, servers, own)),
                    toml_text::item_text(item),
                    force,
                ) {
                    Err(error) => Err(error),
                    Ok(action) => if action == ConfigAction::Unchanged {
                        Ok(untouched(path, action))
                    } else if !toml_text::takes(document, servers) {
                        Err(ErrorView::Config(path + ": mcp_servers must be a table"@))
                    } else {
                        Ok(
                            ConfigPlanView {
                                path,
                                action,
                                content: Some(
                                    toml_text::document_text(
                                        toml_text::entered(document, servers, own, item),
                                    ),
                                ),
                            },
                        )
                    },
                },
            },
        },
    }
}

/// What a file holds once its plan is carried out.
pub open spec fn after_plan(source: Option<Seq<char>>, plan: ConfigPlanView) -> Option<Seq<char>> {
    match plan.content {
        Some(text) => Some(text),
        None => source,
    }
}

/// Whether the plan for the file in TOML is to do nothing, by force or not.
pub open spec fn codex_settled(
    path: Seq<char>,
    source: Option<Seq<char>>,
    command: Seq<char>,
) -> bool {
    forall|force: bool|
        #[trigger] codex_plan(path, source, command, force) == Ok::<ConfigPlanView, ErrorView>(
            untouched(path, ConfigAction::Unchanged),
        )
}

/// Whether the servers stand in an ordinary table of a document, or nowhere.
pub open spec fn ordinary_servers(source: Seq<char>) -> bool {
    match toml_text::document_in(source) {
        Ok(document) => toml_text::ordinary(document, "mcp_servers"@),
        Err(message) => false,
    }
}

fn find_own_entry(document: &toml_edit::DocumentMut) -> (found: Option<&toml_edit::Item>)
    ensures
        match found {
            Some(item) => toml_text::entry_of(*document, "mcp_servers"@, "loomterm"@) == Some(
                *item,
            ),
            None => toml_text::entry_of(*document, "mcp_servers"@, "loomterm"@) is None,
        },
{
    match get_setting(document, "mcp_servers") {
        Some(servers) => get_entry(servers, "loomterm"),
        None => None,
    }
}

/// Plans the file in TOML. A file that is missing is created. Where the servers
/// stand in an ordinary table, or nowhere yet, the plan leaves every other
/// setting as it is, and once it is carried out there is nothing left to plan.
pub fn plan_codex(path: &str, source: &Option<String>, command: &str, force: bool) -> (plan: Result<
    ConfigPlan,
    Error,
>)
    ensures
        error::viewed(plan) == codex_plan(path@, text::maybe_text(*source), command@, force),
        *source is None ==> (plan matches Ok(config) && config@.action == ConfigAction::Create
            && config@.content is Some) && ordinary_servers(Seq::empty()),
        plan matches Ok(config) ==> ordinary_servers(text_of(text::maybe_text(*source)))
            ==> codex_settled(
            path@,
            after_plan(text::maybe_text(*source), config@),
            command@,
        ) && (config@.content is Some ==> toml_text::reads_back(
            config@.content->0,
            text_of(text::maybe_text(*source)),
            command@,
        )),
{
    let text = match source {
        Some(text) => text.clone(),
        None => String::new(),
    };
    assert(source is None ==> text@ =~= Seq::empty());
    let mut document = match parse_document(text.as_str()) {
        Ok(document) => document,
        Err(message) => {
            return Err(Error::Config(joined3(path, ": ", message.as_str())));
        },
    };
    let ghost before = document;
    let other = joined3(
        "[mcp_servers.loomterm]\ncommand = ",
        show_item(&make_string_item(command)).as_str(),
        "\ncwd = \".\"\nenv_vars = [\"LOOMTERM_CONFIG\", \"LOOMTERM_STATE_DIR\", \"LOOMTERM_RUNTIME_DIR\", \"LOOMTERM_SESSION_ID\", \"LOOMTERM_AGENT_KIND\"]\nstartup_timeout_sec = 30\ntool_timeout_sec = 90\nrequired = true\ndefault_tools_approval_mode = \"writes\"\n",
    );
    assert(other@ == toml_text::codex_document(command@));
    let built = match parse_document(other.as_str()) {
        Ok(built) => built,
        Err(message) => {
            return Err(
                Error::Config(
                    joined("could not build Codex configuration: ", message.as_str()),
                ),
            );
        },
    };
    let desired = match find_own_entry(&built) {
        Some(item) => clone_item(item),
        None => {
            return Err(
                Error::Config("could not build Codex configuration: no entry".to_owned()),
            );
        },
    };
    let current = match find_own_entry(&document) {
        Some(item) => Some(show_item(item)),
        None => None,
    };
    match decide_codex(path, &current, show_item(&desired).as_str(), force) {
        Err(error) => Err(error),
        Ok(action) => {
            if action == ConfigAction::Unchanged {
                return Ok(ConfigPlan { path: path.to_owned(), action, content: None });
            }
            let room = match get_setting(&document, "mcp_servers") {
                Some(servers) => Some(item_is_table(servers) || item_is_inline(servers)),
                None => None,
            };
            match room {
                Some(true) => {},
                Some(false) => {
                    return Err(Error::Config(joined(path, ": mcp_servers must be a table")));
                },
                None => {
                    add_table(&mut document, "mcp_servers");
                },
            }
            put_entry(&mut document, "mcp_servers", "loomterm", desired);
            let content = write_document(&document);
            proof {
                if toml_text::ordinary(before, "mcp_servers"@) {
                    assert(toml_text::got_own_entry(document, text@, command@));
                }
            }
            Ok(ConfigPlan { path: path.to_owned(), action, content: Some(content) })
        },
    }
}

/// A path with its last part replaced, as `std::path::Path::with_file_name`
/// gives it.
pub uninterp spec fn beside(path: Seq<char>, name: Seq<char>) -> Seq<char>;

/// `std::path::Path::with_file_name`: a function of the two texts alone.
#[verifier::external_body]
pub(crate) fn with_file_name(path: &str, name: &str) -> (other: String)
    ensures
        other@ == beside(path@, name@),
{
    std::path::Path::new(path).with_file_name(name).to_string_lossy().into_owned()
}

/// The name that a project is registered under: the one given, or else that of
/// its directory.
pub open spec fn project_name(root: Seq<char>, name: Option<Seq<char>>) -> Seq<char> {
    match name {
        Some(name) => name,
        None => match paths::last_name(root) {
            Some(name) => name,
            None => "workspace"@,
        },
    }
}

/// What setting up a project does.
pub open spec fn init_plan(
    root: Seq<char>,
    is_directory: bool,
    name: Option<Seq<char>>,
    agents: AgentSelection,
    claude_name: Seq<char>,
    force: bool,
    mcp_command: Seq<char>,
    sources: ConfigSourcesView,
    env: HookEnvironmentView,
) -> Result<InitPlanView, ErrorView> {
    let chosen = project_name(root, name);
    let loom_command = beside(mcp_command, "loom"@);
    let codex_path = paths::joined_path(root, ".codex/config.toml"@);
    let codex_hooks_path = paths::joined_path(root, ".codex/hooks.json"@);
    let claude_path = paths::joined_path(root, ".mcp.json"@);
    let claude_hooks_path = paths::joined_path(root, "."@ + claude_name + "/settings.json"@);
    let codex = if agents.codex {
        codex_plan(codex_path, sources.codex, mcp_command, force)
    } else {
        Ok(untouched(codex_path, ConfigAction::Skip))
    };
    let codex_hooks = if agents.codex {
        hooks_plan(
            codex_hooks_path,
            sources.codex_hooks,
            handler_for(loom_command, "codex"@, claude_name, env),
            "codex"@,
            claude_name,
            force,
        )
    } else {
        Ok(untouched(codex_hooks_path, ConfigAction::Skip))
    };
    let claude = if agents.claude {
        claude_plan(claude_path, sources.claude, mcp_command, force)
    } else {
        Ok(untouched(claude_path, ConfigAction::Skip))
    };
    let claude_hooks = if agents.claude {
        hooks_plan(
            claude_hooks_path,
            sources.claude_hooks,
            handler_for(loom_command, claude_name, claude_name, env),
            claude_name,
            claude_name,
            force,
        )
    } else {
        Ok(untouched(claude_hooks_path, ConfigAction::Skip))
    };
    if !is_directory {
        Err(error::refused("workspace root is not a directory: "@ + root))
    } else if text::blank(chosen) {
        Err(error::refused("workspace name must not be empty"@))
    } else {
        match codex {
            Err(error) => Err(error),
            Ok(codex) => match codex_hooks {
                Err(error) => Err(error),
                Ok(codex_hooks) => match claude {
                    Err(error) => Err(error),
                    Ok(claude) => match claude_hooks {
                        Err(error) => Err(error),
                        Ok(claude_hooks) => Ok(
                            InitPlanView {
                                root,
                                name: chosen,
                                mcp_command,
                                loom_command,
                                codex,
                                codex_hooks,
                                claude,
                                claude_hooks,
                            },
                        ),
                    },
                },
            },
        }
    }
}

/// The name that is given, if one is.
pub open spec fn name_given(name: Option<&str>) -> Option<Seq<char>> {
    match name {
        Some(name) => Some(name@),
        None => None,
    }
}

/// Whether none of the files is there.
pub open spec fn nothing_present(sources: ConfigSourcesView) -> bool {
    sources.codex is None && sources.codex_hooks is None && sources.claude is None
        && sources.claude_hooks is None
}

/// Whether each file is missing or plain: what is in JSON has no numbers but
/// whole ones, and what is in TOML has its servers in an ordinary table, if
/// anywhere.
pub open spec fn plain_sources(sources: ConfigSourcesView) -> bool {
    ordinary_servers(text_of(sources.codex)) && plain_source(sources.codex_hooks)
        && plain_source(sources.claude) && plain_source(sources.claude_hooks)
}

/// What the files hold once a plan is carried out.
pub open spec fn carried_out(sources: ConfigSourcesView, plan: InitPlanView) -> ConfigSourcesView {
    ConfigSourcesView {
        codex: after_plan(sources.codex, plan.codex),
        codex_hooks: after_plan(sources.codex_hooks, plan.codex_hooks),
        claude: after_plan(sources.claude, plan.claude),
        claude_hooks: after_plan(sources.claude_hooks, plan.claude_hooks),
    }
}

/// Whether a plan does the same to all files of an agent: `action` where the
/// agent is chosen, else nothing.
pub open spec fn acts(plan: InitPlanView, agents: AgentSelection, action: ConfigAction) -> bool {
    let codex = if agents.codex {
        action
    } else {
        ConfigAction::Skip
    };
    let claude = if agents.claude {
        action
    } else {
        ConfigAction::Skip
    };
    plan.codex.action == codex && plan.codex_hooks.action == codex && plan.claude.action == claude
        && plan.claude_hooks.action == claude
}

/// Whether planning again finds nothing to do, by force or not.
pub open spec fn all_settled(
    root: Seq<char>,
    name: Option<Seq<char>>,
    agents: AgentSelection,
    claude_name: Seq<char>,
    mcp_command: Seq<char>,
    sources: ConfigSourcesView,
    env: HookEnvironmentView,
) -> bool {
    forall|force: bool|
        match #[trigger] init_plan(
            root,
            true,
            name,
            agents,
            claude_name,
            force,
            mcp_command,
            sources,
            env,
        ) {
            Ok(again) => acts(again, agents, ConfigAction::Unchanged) && writes_of(again)
                == Seq::<(Seq<char>, Seq<char>)>::empty(),
            Err(error) => false,
        }
}

fn skipped(path: String) -> (plan: ConfigPlan)
    ensures
        plan@ == untouched(path@, ConfigAction::Skip),
{
    ConfigPlan { path, action: ConfigAction::Skip, content: None }
}

/// Plans what setting up a project does, with the commands given. In a project
/// without any of the files, all of those of the chosen agents are created;
/// and where the files are missing or plain, once a plan is carried out,
/// planning again finds nothing to do and writes nothing.
pub fn plan_with_command(
    root: &str,
    is_directory: bool,
    name: Option<&str>,
    agents: AgentSelection,
    claude_name: &str,
    force: bool,
    mcp_command: String,
    sources: &ConfigSources,
    env: &HookEnvironment,
) -> (plan: Result<InitPlan, Error>)
    ensures
        error::viewed(plan) == init_plan(
            root@,
            is_directory,
            name_given(name),
            agents,
            claude_name@,
            force,
            mcp_command@,
            sources@,
            env@,
        ),
        is_directory && !text::blank(project_name(root@, name_given(name))) && nothing_present(
            sources@,
        ) ==> (plan matches Ok(done) && done@.mcp_command == mcp_command@ && acts(
            done@,
            agents,
            ConfigAction::Create,
        )),
        plan matches Ok(done) ==> plain_sources(sources@) || nothing_present(sources@)
            ==> all_settled(
            root@,
            name_given(name),
            agents,
            claude_name@,
            mcp_command@,
            carried_out(sources@, done@),
            env@,
        ),
{
    if !is_directory {
        return Err(
            Error::InvalidRequest(joined("workspace root is not a directory: ", root)),
        );
    }
    let chosen = match name {
        Some(name) => name.to_owned(),
        None => match file_name(root) {
            Some(name) => name,
            None => "workspace".to_owned(),
        },
    };
    if is_blank(chosen.as_str()) {
        return Err(Error::InvalidRequest("workspace name must not be empty".to_owned()));
    }
    let loom_command = with_file_name(mcp_command.as_str(), "loom");
    let codex_path = join_path(root, ".codex/config.toml");
    let codex_hooks_path = join_path(root, ".codex/hooks.json");
    let claude_path = join_path(root, ".mcp.json");
    let claude_hooks_path = join_path(root, joined3(".", claude_name, "/settings.json").as_str());
    let codex = if agents.codex {
        match plan_codex(codex_path.as_str(), &sources.codex, mcp_command.as_str(), force) {
            Ok(plan) => plan,
            Err(error) => {
                return Err(error);
            },
        }
    } else {
        skipped(codex_path)
    };
    let codex_hooks = if agents.codex {
        match plan_hooks(
            codex_hooks_path.as_str(),
            &sources.codex_hooks,
            loom_command.as_str(),
            "codex",
            claude_name,
            env,
            force,
        ) {
            Ok(plan) => plan,
            Err(error) => {
                return Err(error);
            },
        }
    } else {
        skipped(codex_hooks_path)
    };
    let claude = if agents.claude {
        match plan_claude(claude_path.as_str(), &sources.claude, mcp_command.as_str(), force) {
            Ok(plan) => plan,
            Err(error) => {
                return Err(error);
            },
        }
    } else {
        skipped(claude_path)
    };
    let claude_hooks = if agents.claude {
        match plan_hooks(
            claude_hooks_path.as_str(),
            &sources.claude_hooks,
            loom_command.as_str(),
            claude_name,
            claude_name,
            env,
            force,
        ) {
            Ok(plan) => plan,
            Err(error) => {
                return Err(error);
            },
        }
    } else {
        skipped(claude_hooks_path)
    };
    Ok(
        InitPlan {
            root: root.to_owned(),
            name: chosen,
            mcp_command,
            loom_command,
            codex,
            codex_hooks,
            claude,
            claude_hooks,
        },
    )
}

/// Plans what setting up a project does: with the server program that was
/// found on the search path, or else beside this program.
pub fn plan(
    root: &str,
    is_directory: bool,
    name: Option<&str>,
    agents: AgentSelection,
    claude_name: &str,
    force: bool,
    on_path: Option<String>,
    sibling: Option<String>,
    sources: &ConfigSources,
    env: &HookEnvironment,
) -> (plan: Result<InitPlan, Error>)
    ensures
        error::viewed(plan) == (match (on_path, sibling) {
            (Some(command), _) => init_plan(
                root@,
                is_directory,
                name_given(name),
                agents,
                claude_name@,
                force,
                command@,
                sources@,
                env@,
            ),
            (None, Some(command)) => init_plan(
                root@,
                is_directory,
                name_given(name),
                agents,
                claude_name@,
                force,
                command@,
                sources@,
                env@,
            ),
            (None, None) => Err(
                ErrorView::Config("could not find loom-mcp in PATH or beside the loom binary"@),
            ),
        }),
{
    match (on_path, sibling) {
        (Some(command), _) => plan_with_command(
            root,
            is_directory,
            name,
            agents,
            claude_name,
            force,
            command,
            sources,
            env,
        ),
        (None, Some(command)) => plan_with_command(
            root,
            is_directory,
            name,
            agents,
            claude_name,
            force,
            command,
            sources,
            env,
        ),
        (None, None) => Err(
            Error::Config("could not find loom-mcp in PATH or beside the loom binary".to_owned()),
        ),
    }
}

/// A file and what is to be written to it.
#[derive(Debug)]
pub struct FileWrite {
    pub path: String,
    pub content: String,
}

/// What carrying a plan out writes, in order.
pub open spec fn writes_of(plan: InitPlanView) -> Seq<(Seq<char>, Seq<char>)> {
    write_of(plan.codex) + write_of(plan.codex_hooks) + write_of(plan.claude) + write_of(
        plan.claude_hooks,
    )
}

/// What carrying out the plan for one file writes.
pub open spec fn write_of(config: ConfigPlanView) -> Seq<(Seq<char>, Seq<char>)> {
    match config.content {
        Some(content) => seq![(config.path, content)],
        None => Seq::empty(),
    }
}

/// The views of a list of writes.
pub open spec fn write_views(writes: Seq<FileWrite>) -> Seq<(Seq<char>, Seq<char>)> {
    writes.map_values(|write: FileWrite| (write.path@, write.content@))
}

fn push_write(writes: &mut Vec<FileWrite>, config: &ConfigPlan)
    ensures
        write_views(final(writes)@) == write_views(old(writes)@) + write_of(config@),
{
    match &config.content {
        Some(content) => {
            writes.push(FileWrite { path: config.path.clone(), content: content.clone() });
        },
        None => {},
    }
    assert(write_views(writes@) =~= write_views(old(writes)@) + write_of(config@));
}

/// What carrying a plan out writes, in order.
pub fn apply(plan: &InitPlan) -> (writes: Vec<FileWrite>)
    ensures
        write_views(writes@) == writes_of(plan@),
{
    let mut writes: Vec<FileWrite> = Vec::new();
    assert(write_views(writes@) =~= Seq::empty());
    push_write(&mut writes, &plan.codex);
    push_write(&mut writes, &plan.codex_hooks);
    push_write(&mut writes, &plan.claude);
    push_write(&mut writes, &plan.claude_hooks);
    assert(write_views(writes@) =~= writes_of(plan@));
    writes
}

} // verus!
