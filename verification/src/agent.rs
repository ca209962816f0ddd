//! What agents report through their hooks.

use vstd::prelude::*;

use crate::error;
use crate::error::{Error, ErrorView};
use crate::json;
use crate::json::{as_text, get_field, read_json, Json, JsonMember, JsonTree};
use crate::model;
use crate::model::{
    AgentEvent, AgentEventRequest, AgentEventRequestView, AgentEventView, AgentSession,
    AgentSessionState, AgentSessionView,
};
use crate::order;
use crate::order::ascii_fold;
use crate::paths;
use crate::paths::path_starts_with;
use crate::text::{joined3, same_text};

verus! {

/// The largest input that a hook hands over, in bytes.
pub const MAX_HOOK_INPUT_BYTES: u64 = 1_048_576;

/// How deep the identifier of an execution is looked for.
pub const MAX_SEARCH_DEPTH: usize = 8;

/// The working directory that a hook reports.
pub fn hook_cwd<'a>(input: &'a Json) -> (cwd: Option<&'a str>)
    ensures
        (match cwd {
            Some(text) => Some(text@),
            None => None,
        }) == json::text_in(json::field(input@, "cwd"@)),
{
    as_text(get_field(input, "cwd"))
}

/// Whether a session takes what an agent of this provider reports from `cwd`:
/// it is being recorded, is of the provider or of any, and its directory is
/// `cwd` or lies above it.
pub open spec fn takes_reports(session: AgentSessionView, provider: Seq<char>, cwd: Seq<char>) -> bool {
    &&& session.state == AgentSessionState::Recording
    &&& order::ascii_folded(session.agent_kind) == order::ascii_folded(provider) || order::ascii_folded(
        session.agent_kind,
    ) == order::ascii_folded("generic"@)
    &&& paths::below(cwd, session.cwd)
}

/// The session that takes a report.
pub open spec fn reporting_session(
    sessions: Seq<AgentSessionView>,
    provider: Seq<char>,
    cwd: Seq<char>,
) -> Option<Seq<char>> {
    match order::position(sessions, |session: AgentSessionView| takes_reports(session, provider, cwd)) {
        Some(at) => Some(sessions[at].id),
        None => None,
    }
}

fn same_folded(left: &str, right: &str) -> (same: bool)
    ensures
        same == (order::ascii_folded(left@) == order::ascii_folded(right@)),
{
    same_text(ascii_fold(left).as_str(), ascii_fold(right).as_str())
}

/// Finds the session that takes what an agent of this provider reports from
/// the directory `cwd`.
pub fn select_active_session_id(sessions: &Vec<AgentSession>, provider: &str, cwd: &str) -> (id: Option<
    String,
>)
    ensures
        crate::text::maybe_text(id) == reporting_session(
            sessions@.map_values(|item: AgentSession| item@),
            provider@,
            cwd@,
        ),
{
    let ghost all = sessions@.map_values(|item: AgentSession| item@);
    let ghost test = |session: AgentSessionView| takes_reports(session, provider@, cwd@);
    let mut i: usize = 0;
    while i < sessions.len()
        invariant
            i <= sessions.len(),
            all == sessions@.map_values(|item: AgentSession| item@),
            test == (|session: AgentSessionView| takes_reports(session, provider@, cwd@)),
            forall|k: int| 0 <= k < i ==> !test(#[trigger] all[k]),
        decreases sessions.len() - i,
    {
        let session = &sessions[i];
        assert(all[i as int] == session@);
        if session.state == AgentSessionState::Recording && (same_folded(
            session.agent_kind.as_str(),
            provider,
        ) || same_folded(session.agent_kind.as_str(), "generic")) && path_starts_with(
            cwd,
            session.cwd.as_str(),
        ) {
            proof {
                order::position_found(all, test, i as int);
            }
            return Some(session.id.clone());
        }
        i += 1;
    }
    proof {
        order::position_missing(all, test);
    }
    None
}

/// A field that has to hold a text that is not empty.
pub open spec fn needed(value: Option<JsonTree>, name: Seq<char>) -> Result<Seq<char>, ErrorView> {
    match json::text_in(value) {
        Some(text) => if text.len() > 0 {
            Ok(text)
        } else {
            Err(error::refused("hook field "@ + name + " must be a string"@))
        },
        None => Err(error::refused("hook field "@ + name + " must be a string"@)),
    }
}

fn required_string<'a>(value: Option<&'a Json>, name: &str) -> (text: Result<&'a str, Error>)
    ensures
        error::outcome_view(text, |text: &'a str| text@) == needed(
            match value {
                Some(value) => Some(value@),
                None => None,
            },
            name@,
        ),
{
    match as_text(value) {
        Some(text) => {
            if !text.is_empty() {
                Ok(text)
            } else {
                Err(
                    Error::InvalidRequest(joined3("hook field ", name, " must be a string")),
                )
            }
        },
        None => Err(Error::InvalidRequest(joined3("hook field ", name, " must be a string"))),
    }
}

/// The first identifier found among some values.
pub open spec fn id_among(values: Seq<JsonTree>, fuel: nat) -> Option<Seq<char>>
    decreases fuel, values.len(),
{
    if values.len() == 0 {
        None
    } else {
        match id_in(values[0], fuel) {
            Some(id) => Some(id),
            None => id_among(values.drop_first(), fuel),
        }
    }
}

/// The identifier of an execution within a value, looked for `fuel` layers
/// deep: the `execution_id` of an object, or the `id` of its `execution`, or
/// else what its members hold, in the order of their keys; what the values of
/// a list hold; and what a text holds that is itself JSON.
pub open spec fn id_in(value: JsonTree, fuel: nat) -> Option<Seq<char>>
    decreases fuel, 0nat,
{
    if fuel == 0 {
        None
    } else {
        match value {
            JsonTree::Object(members) => {
                let direct = json::text_in(json::member_of(members, "execution_id"@));
                let nested = match json::member_of(members, "execution"@) {
                    Some(JsonTree::Object(inner)) => json::text_in(json::member_of(inner, "id"@)),
                    _ => None,
                };
                if direct is Some {
                    direct
                } else if nested is Some {
                    nested
                } else {
                    id_among(
                        members.map_values(|member: (Seq<char>, JsonTree)| member.1),
                        (fuel - 1) as nat,
                    )
                }
            },
            JsonTree::List(items) => id_among(items, (fuel - 1) as nat),
            JsonTree::Text(text) => if vstd::utf8::encode_utf8(text).len()
                <= MAX_HOOK_INPUT_BYTES {
                match json::json_reading(text) {
                    Ok(inner) => id_in(inner, (fuel - 1) as nat),
                    Err(message) => None,
                }
            } else {
                None
            },
            _ => None,
        }
    }
}

/// How many layers are still searched at a depth.
pub open spec fn layers_left(depth: usize) -> nat {
    if depth > MAX_SEARCH_DEPTH {
        0
    } else {
        (MAX_SEARCH_DEPTH + 1 - depth) as nat
    }
}

/// Looks for the identifier of an execution within a value.
pub fn find_execution_id_at_depth(value: &Json, depth: usize) -> (id: Option<String>)
    ensures
        crate::text::maybe_text(id) == id_in(value@, layers_left(depth)),
    decreases layers_left(depth),
{
    if depth > MAX_SEARCH_DEPTH {
        return None;
    }
    proof {
        json::tree_parts(*value);
    }
    let ghost fuel = (MAX_SEARCH_DEPTH - depth) as nat;
    match value {
        Json::Object(members) => {
            match as_text(get_field(value, "execution_id")) {
                Some(id) => {
                    return Some(id.to_owned());
                },
                None => {},
            }
            match get_field(value, "execution") {
                Some(inner) => {
                    proof {
                        json::tree_parts(*inner);
                    }
                    match inner {
                        Json::Object(_) => match as_text(get_field(inner, "id")) {
                            Some(id) => {
                                return Some(id.to_owned());
                            },
                            None => {},
                        },
                        _ => {},
                    }
                },
                None => {},
            }
            let ghost values = json::member_trees(members@).map_values(
                |member: (Seq<char>, JsonTree)| member.1,
            );
            let mut i: usize = 0;
            assert(values.skip(0) =~= values);
            while i < members.len()
                invariant
                    i <= members.len(),
                    depth <= MAX_SEARCH_DEPTH,
                    fuel == MAX_SEARCH_DEPTH - depth,
                    values == json::member_trees(members@).map_values(
                        |member: (Seq<char>, JsonTree)| member.1,
                    ),
                    id_among(values, fuel) == id_among(values.skip(i as int), fuel),
                decreases members.len() - i,
            {
                proof {
                    assert(values.skip(i as int)[0] == members@[i as int].value@);
                    assert(values.skip(i as int).drop_first() =~= values.skip(i + 1));
                }
                match find_execution_id_at_depth(&members[i].value, depth + 1) {
                    Some(id) => {
                        return Some(id);
                    },
                    None => {},
                }
                i += 1;
            }
            None
        },
        Json::List(items) => {
            let ghost values = json::trees(items@);
            let mut i: usize = 0;
            assert(values.skip(0) =~= values);
            while i < items.len()
                invariant
                    i <= items.len(),
                    depth <= MAX_SEARCH_DEPTH,
                    fuel == MAX_SEARCH_DEPTH - depth,
                    values == json::trees(items@),
                    id_among(values, fuel) == id_among(values.skip(i as int), fuel),
                decreases items.len() - i,
            {
                proof {
                    assert(values.skip(i as int)[0] == items@[i as int]@);
                    assert(values.skip(i as int).drop_first() =~= values.skip(i + 1));
                }
                match find_execution_id_at_depth(&items[i], depth + 1) {
                    Some(id) => {
                        return Some(id);
                    },
                    None => {},
                }
                i += 1;
            }
            None
        },
        Json::Text(text) => {
            if text.as_str().as_bytes().len() as u64 <= MAX_HOOK_INPUT_BYTES {
                match read_json(text.as_str()) {
                    Ok(inner) => find_execution_id_at_depth(&inner, depth + 1),
                    Err(_) => None,
                }
            } else {
                None
            }
        },
        _ => None,
    }
}

/// The identifier of an execution within a value.
pub fn find_execution_id(value: &Json) -> (id: Option<String>)
    ensures
        crate::text::maybe_text(id) == id_in(value@, (MAX_SEARCH_DEPTH + 1) as nat),
{
    find_execution_id_at_depth(value, 0)
}

/// What a hook reports, apart from whom it concerns; nothing for a hook that
/// is not followed.
pub open spec fn hook_event(input: JsonTree, name: Seq<char>) -> Result<
    Option<AgentEventView>,
    ErrorView,
> {
    if name == "UserPromptSubmit"@ {
        match needed(json::field(input, "prompt"@), "prompt"@) {
            Err(error) => Err(error),
            Ok(prompt) => Ok(Some(AgentEventView::PromptSubmitted { prompt })),
        }
    } else if name == "PreToolUse"@ {
        match needed(json::field(input, "tool_use_id"@), "tool_use_id"@) {
            Err(error) => Err(error),
            Ok(action_id) => match needed(json::field(input, "tool_name"@), "tool_name"@) {
                Err(error) => Err(error),
                Ok(tool_name) => Ok(Some(AgentEventView::ToolStarted { action_id, tool_name })),
            },
        }
    } else if name == "PostToolUse"@ || name == "PostToolUseFailure"@ {
        match needed(json::field(input, "tool_use_id"@), "tool_use_id"@) {
            Err(error) => Err(error),
            Ok(action_id) => match needed(json::field(input, "tool_name"@), "tool_name"@) {
                Err(error) => Err(error),
                Ok(tool_name) => Ok(
                    Some(
                        AgentEventView::ToolFinished {
                            action_id,
                            tool_name,
                            failed: name == "PostToolUseFailure"@,
                            execution_id: match json::field(input, "tool_response"@) {
                                Some(response) => id_in(
                                    response,
                                    (MAX_SEARCH_DEPTH + 1) as nat,
                                ),
                                None => None,
                            },
                        },
                    ),
                ),
            },
        }
    } else if name == "Stop"@ || name == "StopFailure"@ {
        Ok(
            Some(
                AgentEventView::TurnFinished {
                    failed: name == "StopFailure"@,
                    last_assistant_message: json::text_in(json::field(input, "last_assistant_message"@)),
                },
            ),
        )
    } else {
        Ok(None)
    }
}

/// The event that a hook reports.
pub open spec fn normalized(provider: Seq<char>, session_id: Seq<char>, input: JsonTree) -> Result<
    Option<AgentEventRequestView>,
    ErrorView,
> {
    if !(input is Object) {
        Err(error::refused("hook input must be a JSON object"@))
    } else {
        match needed(json::field(input, "session_id"@), "session_id"@) {
            Err(error) => Err(error),
            Ok(provider_session_id) => match needed(
                json::field(input, "hook_event_name"@),
                "hook_event_name"@,
            ) {
                Err(error) => Err(error),
                Ok(name) => match hook_event(input, name) {
                    Err(error) => Err(error),
                    Ok(None) => Ok(None),
                    Ok(Some(event)) => {
                        let request = AgentEventRequestView {
                            session_id,
                            provider,
                            provider_session_id,
                            provider_turn_id: json::text_in(json::field(input, "turn_id"@)),
                            event,
                        };
                        match model::agent_event_fault(request) {
                            Some(error) => Err(error),
                            None => Ok(Some(request)),
                        }
                    },
                },
            },
        }
    }
}

fn owned(text: Option<&str>) -> (copy: Option<String>)
    ensures
        crate::text::maybe_text(copy) == (match text {
            Some(text) => Some(text@),
            None => None,
        }),
{
    match text {
        Some(text) => Some(text.to_owned()),
        None => None,
    }
}

fn read_hook_event(input: &Json, name: &str) -> (event: Result<Option<AgentEvent>, Error>)
    ensures
        error::outcome_view(
            event,
            |event: Option<AgentEvent>|
                match event {
                    Some(event) => Some(event@),
                    None => None,
                },
        ) == hook_event(input@, name@),
{
    if same_text(name, "UserPromptSubmit") {
        match required_string(get_field(input, "prompt"), "prompt") {
            Err(error) => Err(error),
            Ok(prompt) => Ok(Some(AgentEvent::PromptSubmitted { prompt: prompt.to_owned() })),
        }
    } else if same_text(name, "PreToolUse") {
        match required_string(get_field(input, "tool_use_id"), "tool_use_id") {
            Err(error) => Err(error),
            Ok(action_id) => match required_string(get_field(input, "tool_name"), "tool_name") {
                Err(error) => Err(error),
                Ok(tool_name) => Ok(
                    Some(
                        AgentEvent::ToolStarted {
                            action_id: action_id.to_owned(),
                            tool_name: tool_name.to_owned(),
                        },
                    ),
                ),
            },
        }
    } else if same_text(name, "PostToolUse") || same_text(name, "PostToolUseFailure") {
        match required_string(get_field(input, "tool_use_id"), "tool_use_id") {
            Err(error) => Err(error),
            Ok(action_id) => match required_string(get_field(input, "tool_name"), "tool_name") {
                Err(error) => Err(error),
                Ok(tool_name) => {
                    let execution_id = match get_field(input, "tool_response") {
                        Some(response) => find_execution_id(response),
                        None => None,
                    };
                    Ok(
                        Some(
                            AgentEvent::ToolFinished {
                                action_id: action_id.to_owned(),
                                tool_name: tool_name.to_owned(),
                                failed: same_text(name, "PostToolUseFailure"),
                                execution_id,
                            },
                        ),
                    )
                },
            },
        }
    } else if same_text(name, "Stop") || same_text(name, "StopFailure") {
        Ok(
            Some(
                AgentEvent::TurnFinished {
                    failed: same_text(name, "StopFailure"),
                    last_assistant_message: owned(
                        as_text(get_field(input, "last_assistant_message")),
                    ),
                },
            ),
        )
    } else {
        Ok(None)
    }
}

/// Reads the event that a hook reports; nothing comes of a hook that is not
/// followed.
pub fn normalize_hook_event(provider: &str, loom_session_id: &str, input: &Json) -> (request: Result<
    Option<AgentEventRequest>,
    Error,
>)
    ensures
        error::outcome_view(
            request,
            |request: Option<AgentEventRequest>|
                match request {
                    Some(request) => Some(request@),
                    None => None,
                },
        ) == normalized(provider@, loom_session_id@, input@),
{
    proof {
        json::tree_parts(*input);
    }
    match input {
        Json::Object(_) => {},
        _ => {
            return Err(Error::InvalidRequest("hook input must be a JSON object".to_owned()));
        },
    }
    let provider_session_id = match required_string(
        get_field(input, "session_id"),
        "session_id",
    ) {
        Ok(text) => text,
        Err(error) => {
            return Err(error);
        },
    };
    let name = match required_string(get_field(input, "hook_event_name"), "hook_event_name") {
        Ok(text) => text,
        Err(error) => {
            return Err(error);
        },
    };
    match read_hook_event(input, name) {
        Err(error) => Err(error),
        Ok(None) => Ok(None),
        Ok(Some(event)) => {
            let request = AgentEventRequest {
                session_id: loom_session_id.to_owned(),
                provider: provider.to_owned(),
                provider_session_id: provider_session_id.to_owned(),
                provider_turn_id: owned(as_text(get_field(input, "turn_id"))),
                event,
            };
            match request.validate() {
                Err(error) => Err(error),
                Ok(()) => Ok(Some(request)),
            }
        },
    }
}

/// Whether a hook asks to run a command in the agent's own shell while commands
/// are to go through this runtime.
pub open spec fn bypasses(routing: Option<Seq<char>>, input: JsonTree) -> bool {
    &&& routing == Some("strict"@)
    &&& json::text_in(json::field(input, "hook_event_name"@)) == Some("PreToolUse"@)
    &&& json::text_in(json::field(input, "tool_name"@)) == Some("Bash"@)
}

/// What is answered to a hook that is denied.
pub open spec fn denial() -> JsonTree {
    JsonTree::Object(
        seq![
            (
                "hookSpecificOutput"@,
                JsonTree::Object(
                    seq![
                        ("hookEventName"@, JsonTree::Text("PreToolUse"@)),
                        ("permissionDecision"@, JsonTree::Text("deny"@)),
                        (
                            "permissionDecisionReason"@,
                            JsonTree::Text(
                                "shell commands go through Loomterm here; use the loom_run tool"@,
                            ),
                        ),
                    ],
                ),
            ),
        ],
    )
}

fn is_text(found: Option<&str>, text: &str) -> (yes: bool)
    ensures
        yes == (found matches Some(own) && own@ == text@),
{
    match found {
        Some(own) => same_text(own, text),
        None => false,
    }
}

fn text_member(key: &str, text: &str) -> (member: JsonMember)
    ensures
        member.key@ == key@,
        member.value@ == JsonTree::Text(text@),
{
    JsonMember { key: key.to_owned(), value: Json::Text(text.to_owned()) }
}

/// Denies a hook that would run a command in the agent's own shell while
/// commands are to go through this runtime; `routing` is what the environment
/// asks for. Nothing is said of any other hook.
pub fn deny_native_shell(routing: Option<&str>, input: &Json) -> (answer: Option<Json>)
    ensures
        match answer {
            Some(answer) => bypasses(crate::store::reading::maybe_str(routing), input@) && answer@
                == denial(),
            None => !bypasses(crate::store::reading::maybe_str(routing), input@),
        },
{
    if !is_text(routing, "strict") || !is_text(
        as_text(get_field(input, "hook_event_name")),
        "PreToolUse",
    ) || !is_text(as_text(get_field(input, "tool_name")), "Bash") {
        return None;
    }
    let mut inner: Vec<JsonMember> = Vec::new();
    inner.push(text_member("hookEventName", "PreToolUse"));
    inner.push(text_member("permissionDecision", "deny"));
    inner.push(
        text_member(
            "permissionDecisionReason",
            "shell commands go through Loomterm here; use the loom_run tool",
        ),
    );
    let ghost members = json::member_trees(inner@);
    let decision = Json::Object(inner);
    proof {
        json::tree_parts(decision);
        assert(members =~= seq![
            ("hookEventName"@, JsonTree::Text("PreToolUse"@)),
            ("permissionDecision"@, JsonTree::Text("deny"@)),
            (
                "permissionDecisionReason"@,
                JsonTree::Text("shell commands go through Loomterm here; use the loom_run tool"@),
            ),
        ]);
    }
    let ghost shown = decision@;
    let mut outer: Vec<JsonMember> = Vec::new();
    outer.push(JsonMember { key: "hookSpecificOutput".to_owned(), value: decision });
    let ghost top = json::member_trees(outer@);
    let answer = Json::Object(outer);
    proof {
        json::tree_parts(answer);
        assert(top =~= seq![("hookSpecificOutput"@, shown)]);
    }
    Some(answer)
}

} // verus!
