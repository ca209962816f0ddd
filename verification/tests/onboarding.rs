use loomterm::error::Error;
use loomterm::json::{as_list, as_text, get_field, read_json, same_json, write_json, Json};
use loomterm::onboarding::{
    apply, change_servers, followed_events, plan, plan_with_command, shell_quote, AgentSelection,
    ConfigAction, ConfigSources, HookEnvironment, InitPlan,
};
use loomterm::ui::AgentProvider;

const ROOT: &str = "/t/project";
const COMMAND: &str = "/opt/bin/loom-mcp";

fn second_agent() -> String {
    format!("{:?}", AgentProvider::Claude).to_lowercase()
}

fn nothing() -> ConfigSources {
    ConfigSources { codex: None, codex_hooks: None, claude: None, claude_hooks: None }
}

fn no_environment() -> HookEnvironment {
    HookEnvironment { config: None, state_dir: None, runtime_dir: None }
}

fn both() -> AgentSelection {
    AgentSelection { codex: true, claude: true }
}

fn planned(
    agents: AgentSelection,
    force: bool,
    sources: &ConfigSources,
) -> Result<InitPlan, Error> {
    plan_with_command(
        ROOT,
        true,
        None,
        agents,
        &second_agent(),
        force,
        COMMAND.into(),
        sources,
        &no_environment(),
    )
}

fn written(plan: &InitPlan, sources: &ConfigSources) -> ConfigSources {
    let mut after = sources.clone();
    for write in apply(plan) {
        if write.path == plan.codex.path {
            after.codex = Some(write.content);
        } else if write.path == plan.codex_hooks.path {
            after.codex_hooks = Some(write.content);
        } else if write.path == plan.claude.path {
            after.claude = Some(write.content);
        } else if write.path == plan.claude_hooks.path {
            after.claude_hooks = Some(write.content);
        }
    }
    after
}

fn first_handler(source: &str, event: &str) -> Json {
    let document = read_json(source).unwrap();
    let hooks = get_field(&document, "hooks").unwrap();
    let groups = as_list(get_field(hooks, event)).unwrap();
    let handlers = as_list(get_field(&groups[0], "hooks")).unwrap();
    read_json(&write_json(&handlers[0]).unwrap()).unwrap()
}

#[test]
fn creates_and_reuses_both_configs() {
    let first = planned(both(), false, &nothing()).unwrap();
    assert_eq!(first.mcp_command, COMMAND);
    assert_eq!(first.codex.action, ConfigAction::Create);
    assert_eq!(first.codex_hooks.action, ConfigAction::Create);
    assert_eq!(first.claude.action, ConfigAction::Create);
    assert_eq!(first.claude_hooks.action, ConfigAction::Create);
    assert_eq!(first.codex.path, "/t/project/.codex/config.toml");
    assert_eq!(first.claude.path, "/t/project/.mcp.json");
    assert_eq!(first.loom_command, "/opt/bin/loom");
    assert_eq!(first.name, "project");
    let after = written(&first, &nothing());
    let second = planned(both(), false, &after).unwrap();
    assert_eq!(second.codex.action, ConfigAction::Unchanged);
    assert_eq!(second.codex_hooks.action, ConfigAction::Unchanged);
    assert_eq!(second.claude.action, ConfigAction::Unchanged);
    assert_eq!(second.claude_hooks.action, ConfigAction::Unchanged);
    assert!(apply(&second).is_empty());

    let handler = first_handler(after.codex_hooks.as_deref().unwrap(), "UserPromptSubmit");
    assert_eq!(as_text(get_field(&handler, "type")), Some("command"));
    let handler = first_handler(after.claude_hooks.as_deref().unwrap(), "PostToolUseFailure");
    let args: Vec<String> = as_list(get_field(&handler, "args"))
        .unwrap()
        .iter()
        .map(|item| as_text(Some(item)).unwrap().to_owned())
        .collect();
    assert_eq!(args, ["agent-event", "--provider", second_agent().as_str()]);
}

#[test]
fn preserves_unrelated_settings_and_force_replaces_only_loomterm() {
    let sources = ConfigSources {
        codex: Some(
            "model = \"gpt-test\"\n[mcp_servers.other]\ncommand = \"other\"\n\
             [mcp_servers.loomterm]\ncommand = \"old\"\n"
                .into(),
        ),
        codex_hooks: None,
        claude: Some(
            r#"{"other":true,"mcpServers":{"other":{"command":"other"},"loomterm":{"command":"old"}}}"#
                .into(),
        ),
        claude_hooks: None,
    };
    assert!(planned(both(), false, &sources).is_err());
    let replacement = planned(both(), true, &sources).unwrap();
    assert_eq!(replacement.codex.action, ConfigAction::Replace);
    assert_eq!(replacement.claude.action, ConfigAction::Replace);
    let after = written(&replacement, &sources);
    let codex = after.codex.unwrap();
    assert!(codex.contains("model = \"gpt-test\""));
    assert!(codex.contains("[mcp_servers.other]"));
    assert!(codex.contains(COMMAND));
    assert!(!codex.contains("old"));
    let document = read_json(&after.claude.unwrap()).unwrap();
    assert!(matches!(get_field(&document, "other"), Some(Json::Bool(true))));
    let servers = get_field(&document, "mcpServers").unwrap();
    let other = get_field(servers, "other").unwrap();
    assert_eq!(as_text(get_field(other, "command")), Some("other"));
    let own = get_field(servers, "loomterm").unwrap();
    assert_eq!(as_text(get_field(own, "command")), Some(COMMAND));
}

#[test]
fn rejects_invalid_existing_documents_without_writing() {
    let sources = ConfigSources { codex: Some("not = [valid".into()), ..nothing() };
    let agents = AgentSelection { codex: true, claude: false };
    assert!(planned(agents, false, &sources).is_err());
    let sources = ConfigSources { claude: Some("[1]".into()), ..nothing() };
    assert!(planned(both(), false, &sources).is_err());
    let sources = ConfigSources { claude_hooks: Some("{".into()), ..nothing() };
    assert!(planned(both(), true, &sources).is_err());
}

#[test]
fn an_agent_that_was_not_chosen_is_left_alone() {
    let agents = AgentSelection { codex: false, claude: true };
    let plan = planned(agents, false, &nothing()).unwrap();
    assert_eq!(plan.codex.action, ConfigAction::Skip);
    assert_eq!(plan.codex_hooks.action, ConfigAction::Skip);
    assert_eq!(apply(&plan).len(), 2);
}

#[test]
fn foreign_hooks_stay() {
    let foreign = r#"{"hooks":{"Stop":[{"hooks":[{"type":"command","command":"mine"}]}]}}"#;
    let sources = ConfigSources { codex_hooks: Some(foreign.into()), ..nothing() };
    let plan = planned(both(), false, &sources).unwrap();
    let after = written(&plan, &sources).codex_hooks.unwrap();
    assert!(after.contains("\"mine\""));
    assert!(after.contains("agent-event"));
}

#[test]
fn the_server_is_looked_for() {
    let find = |on_path: Option<&str>, sibling: Option<&str>, root: &str, is_directory: bool| {
        plan(
            root,
            is_directory,
            Some("named"),
            both(),
            &second_agent(),
            false,
            on_path.map(str::to_owned),
            sibling.map(str::to_owned),
            &nothing(),
            &no_environment(),
        )
    };
    assert_eq!(find(Some("/a/loom-mcp"), None, ROOT, true).unwrap().mcp_command, "/a/loom-mcp");
    let beside = find(None, Some("/b/loom-mcp"), ROOT, true).unwrap();
    assert_eq!(beside.mcp_command, "/b/loom-mcp");
    assert_eq!(beside.name, "named");
    assert!(find(None, None, ROOT, true).is_err());
    assert!(find(Some("/a/loom-mcp"), None, ROOT, false).is_err());
    assert_eq!(shell_quote("it's"), "'it'\\''s'");
}

#[test]
fn entering_the_server_keeps_the_others() {
    let root = read_json(r#"{"mcpServers": {"other": {"command": "x"}}, "theme": "dark"}"#).unwrap();
    let (action, after) = change_servers("f", &root, COMMAND, false).unwrap().unwrap();
    assert_eq!(action, ConfigAction::Create);
    assert_eq!(as_text(get_field(&after, "theme")), Some("dark"));
    let servers = get_field(&after, "mcpServers").unwrap();
    assert_eq!(as_text(get_field(get_field(servers, "other").unwrap(), "command")), Some("x"));
    let own = get_field(servers, "loomterm").unwrap();
    assert_eq!(as_text(get_field(own, "command")), Some(COMMAND));
    assert_eq!(as_text(get_field(own, "type")), Some("stdio"));
    assert!(change_servers("f", &after, COMMAND, true).unwrap().is_none());

    assert!(matches!(change_servers("f", &after, "/elsewhere", false), Err(Error::Config(_))));
    let (action, moved) = change_servers("f", &after, "/elsewhere", true).unwrap().unwrap();
    assert_eq!(action, ConfigAction::Replace);
    assert!(change_servers("f", &moved, "/elsewhere", false).unwrap().is_none());

    let listed = read_json(r#"{"mcpServers": []}"#).unwrap();
    match change_servers("f", &listed, COMMAND, true) {
        Err(Error::Config(message)) => assert_eq!(message, "f: mcpServers must be a JSON object"),
        other => panic!("{other:?}"),
    }
    match change_servers("f", &Json::Bool(true), COMMAND, true) {
        Err(Error::Config(message)) => assert_eq!(message, "f: root must be a JSON object"),
        other => panic!("{other:?}"),
    }
}

#[test]
fn planning_twice_changes_nothing() {
    let servers = [
        "",
        "model = \"m\" # kept\n",
        "[mcp_servers.other]\ncommand = \"x\"\n\n[profile]\nname = 'p'\n",
        "mcp_servers.other.command = \"x\"\n[[list]]\na = 1\n[list.sub]\nb = 2\n[[list]]\n",
        "[profile]\nname = 'p'\n[z]\n[mcp_servers]\nother.command = \"x\"\nloomterm = 1\n# end",
        "# first\r\n[mcp_servers.loomterm.env]\r\nA = \"1\"\r\n[last]\r\ntext = \"\"\"a\r\nb\"\"\"\r\n",
    ];
    for source in servers {
        let sources = ConfigSources {
            codex: Some(source.into()),
            codex_hooks: Some(r#"{"n": -1, "hooks": {"Other": [{"hooks": []}]}}"#.into()),
            claude: Some(r#"{"list": [-9223372036854775808, [2, {"a": null}]]}"#.into()),
            claude_hooks: None,
        };
        let first = planned(both(), true, &sources).unwrap();
        let after = written(&first, &sources);
        for force in [false, true] {
            let second = planned(both(), force, &after).unwrap();
            assert_eq!(second.codex.action, ConfigAction::Unchanged, "{source}");
            assert_eq!(second.codex_hooks.action, ConfigAction::Unchanged);
            assert_eq!(second.claude.action, ConfigAction::Unchanged);
            assert_eq!(second.claude_hooks.action, ConfigAction::Unchanged);
            assert!(apply(&second).is_empty());
        }
        let codex = after.codex.unwrap();
        let document = codex.parse::<toml_edit::DocumentMut>().unwrap();
        let before = source.parse::<toml_edit::DocumentMut>().unwrap();
        for (key, item) in before.iter() {
            if key != "mcp_servers" {
                assert_eq!(document[key].to_string(), item.to_string());
            }
        }
        let others = before.get("mcp_servers").and_then(toml_edit::Item::as_table_like);
        for (key, item) in others.into_iter().flat_map(|entries| entries.iter()) {
            if key != "loomterm" {
                assert_eq!(document["mcp_servers"][key].to_string(), item.to_string());
            }
        }
    }
}

#[test]
fn servers_that_are_no_table_are_refused() {
    let refused = |text: &str| {
        let sources = ConfigSources { codex: Some(text.into()), ..nothing() };
        match planned(both(), true, &sources) {
            Err(Error::Config(message)) => message,
            other => panic!("{other:?}"),
        }
    };
    let expected = "/t/project/.codex/config.toml: mcp_servers must be a table";
    assert_eq!(refused("mcp_servers = 1"), expected);
    assert_eq!(refused("[[mcp_servers]]\na = 1\n"), expected);
    let braces = ConfigSources { codex: Some("mcp_servers = {}".into()), ..nothing() };
    let plan = planned(both(), false, &braces).unwrap();
    assert_eq!(plan.codex.action, ConfigAction::Create);
}

#[test]
fn agents_are_followed_by_their_names() {
    let second = second_agent();
    assert_eq!(followed_events(&second, &second).len(), 6);
    assert_eq!(followed_events("codex", &second).len(), 4);
    assert_eq!(followed_events("another", &second), followed_events("codex", &second));
}

#[test]
fn whole_numbers_of_either_sign_read_back() {
    let source = r#"[-9223372036854775808, -1, 0, 1, 18446744073709551615]"#;
    let value = read_json(source).unwrap();
    let again = read_json(&write_json(&value).unwrap()).unwrap();
    assert!(same_json(&value, &again));
    let number = |text: &str| read_json(text).unwrap();
    assert!(same_json(&number("-5"), &number("-5")));
    assert!(!same_json(&number("-5"), &number("-6")));
    assert!(!same_json(&number("5"), &number("-5")));
    assert!(!same_json(&number("-5.5"), &number("-5")));
    assert!(!same_json(&number("1.5"), &number("1")));
}
