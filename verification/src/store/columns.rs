//! How stored text is read back: the names of states, kinds and streams, and
//! the steps that bring an older database up to date.

use vstd::prelude::*;

use crate::error;
use crate::error::{Error, ErrorView};
use crate::model;
use crate::model::{
    AgentActionState, AgentSessionState, AgentTurnState, ExecutionState, OutputStream,
};
use crate::text;
use crate::text::{joined, joined3, same_text, signed_decimal_text};

verus! {

/// The execution state with this name.
pub fn parse_state(value: &str) -> (parsed: Result<ExecutionState, String>)
    ensures
        match parsed {
            Ok(state) => model::state_name(state) == value@,
            Err(reason) => reason@ == "unknown execution state "@ + value@ && forall|
                other: ExecutionState,
            | #[trigger] model::state_name(other) != value@,
        },
{
    if same_text(value, "queued") {
        Ok(ExecutionState::Queued)
    } else if same_text(value, "running") {
        Ok(ExecutionState::Running)
    } else if same_text(value, "finished") {
        Ok(ExecutionState::Finished)
    } else if same_text(value, "cancelled") {
        Ok(ExecutionState::Cancelled)
    } else if same_text(value, "interrupted") {
        Ok(ExecutionState::Interrupted)
    } else {
        Err(joined("unknown execution state ", value))
    }
}

/// The session state with this name.
pub fn parse_agent_session_state(value: &str) -> (parsed: Result<AgentSessionState, String>)
    ensures
        match parsed {
            Ok(state) => model::session_state_name(state) == value@,
            Err(reason) => reason@ == "unknown agent session state "@ + value@ && forall|
                other: AgentSessionState,
            | #[trigger] model::session_state_name(other) != value@,
        },
{
    if same_text(value, "recording") {
        Ok(AgentSessionState::Recording)
    } else if same_text(value, "finished") {
        Ok(AgentSessionState::Finished)
    } else if same_text(value, "interrupted") {
        Ok(AgentSessionState::Interrupted)
    } else {
        Err(joined("unknown agent session state ", value))
    }
}

/// The turn state with this name.
pub fn parse_agent_turn_state(value: &str) -> (parsed: Result<AgentTurnState, String>)
    ensures
        match parsed {
            Ok(state) => model::turn_state_name(state) == value@,
            Err(reason) => reason@ == "unknown agent turn state "@ + value@ && forall|
                other: AgentTurnState,
            | #[trigger] model::turn_state_name(other) != value@,
        },
{
    if same_text(value, "active") {
        Ok(AgentTurnState::Active)
    } else if same_text(value, "completed") {
        Ok(AgentTurnState::Completed)
    } else if same_text(value, "failed") {
        Ok(AgentTurnState::Failed)
    } else if same_text(value, "interrupted") {
        Ok(AgentTurnState::Interrupted)
    } else {
        Err(joined("unknown agent turn state ", value))
    }
}

/// The action state with this name.
pub fn parse_agent_action_state(value: &str) -> (parsed: Result<AgentActionState, String>)
    ensures
        match parsed {
            Ok(state) => model::action_state_name(state) == value@,
            Err(reason) => reason@ == "unknown agent action state "@ + value@ && forall|
                other: AgentActionState,
            | #[trigger] model::action_state_name(other) != value@,
        },
{
    if same_text(value, "running") {
        Ok(AgentActionState::Running)
    } else if same_text(value, "completed") {
        Ok(AgentActionState::Completed)
    } else if same_text(value, "failed") {
        Ok(AgentActionState::Failed)
    } else {
        Err(joined("unknown agent action state ", value))
    }
}

/// The output stream with this name.
pub fn parse_stream(value: &str) -> (parsed: Option<OutputStream>)
    ensures
        match parsed {
            Some(stream) => model::stream_name(stream) == value@,
            None => forall|other: OutputStream| #[trigger] model::stream_name(other) != value@,
        },
{
    if same_text(value, "stdout") {
        Some(OutputStream::Stdout)
    } else if same_text(value, "stderr") {
        Some(OutputStream::Stderr)
    } else {
        None
    }
}

/// The kinds of stored events.
#[derive(Debug, Clone, Copy, PartialEq, Eq, Structural)]
pub enum EventKind {
    Started,
    Output,
    CaptureTruncated,
    Finished,
}

/// The name of a kind of event.
pub open spec fn kind_name(kind: EventKind) -> Seq<char> {
    match kind {
        EventKind::Started => "started"@,
        EventKind::Output => "output"@,
        EventKind::CaptureTruncated => "capture_truncated"@,
        EventKind::Finished => "finished"@,
    }
}

impl EventKind {
    /// The name of this kind.
    pub fn as_str(self) -> (name: &'static str)
        ensures
            name@ == kind_name(self),
    {
        match self {
            EventKind::Started => "started",
            EventKind::Output => "output",
            EventKind::CaptureTruncated => "capture_truncated",
            EventKind::Finished => "finished",
        }
    }
}

/// The kind of event with this name.
pub fn parse_event_kind(value: &str) -> (parsed: Result<EventKind, String>)
    ensures
        match parsed {
            Ok(kind) => kind_name(kind) == value@,
            Err(reason) => reason@ == "unknown event kind "@ + value@ && forall|other: EventKind|
                #[trigger] kind_name(other) != value@,
        },
{
    if same_text(value, "started") {
        Ok(EventKind::Started)
    } else if same_text(value, "output") {
        Ok(EventKind::Output)
    } else if same_text(value, "capture_truncated") {
        Ok(EventKind::CaptureTruncated)
    } else if same_text(value, "finished") {
        Ok(EventKind::Finished)
    } else {
        Err(joined("unknown event kind ", value))
    }
}

/// The version of the database layout.
pub const SCHEMA_VERSION: i64 = 4;

/// A step that brings a database closer to the present layout.
#[derive(Debug, Clone, Copy, PartialEq, Eq, Structural)]
pub enum Migration {
    CreateSchema,
    AddActiveColumn,
    AddAgentSessions,
    AddAgentTurns,
}

/// The version that a step leads to.
pub open spec fn leads_to(step: Migration) -> int {
    match step {
        Migration::CreateSchema => 4,
        Migration::AddActiveColumn => 2,
        Migration::AddAgentSessions => 3,
        Migration::AddAgentTurns => 4,
    }
}

/// The steps that a database of the given version needs. A newer one than is
/// known is refused.
pub open spec fn migration_steps(version: i64) -> Result<Seq<Migration>, ErrorView> {
    if version > SCHEMA_VERSION {
        Err(
            ErrorView::Config(
                "database schema "@ + text::signed_decimal(version as int)
                    + " is newer than supported schema "@ + text::signed_decimal(SCHEMA_VERSION as int),
            ),
        )
    } else if version == 0 {
        Ok(seq![Migration::CreateSchema])
    } else if version == 4 {
        Ok(Seq::empty())
    } else if version == 3 {
        Ok(seq![Migration::AddAgentTurns])
    } else if version == 1 {
        Ok(
            seq![
                Migration::AddActiveColumn,
                Migration::AddAgentSessions,
                Migration::AddAgentTurns,
            ],
        )
    } else {
        Ok(seq![Migration::AddAgentSessions, Migration::AddAgentTurns])
    }
}

/// The steps that a database of the given version needs.
pub fn migration_plan(version: i64) -> (plan: Result<Vec<Migration>, Error>)
    ensures
        error::outcome_view(plan, |steps: Vec<Migration>| steps@) == migration_steps(version),
{
    if version > SCHEMA_VERSION {
        let mut reason = joined3(
            "database schema ",
            signed_decimal_text(version).as_str(),
            " is newer than supported schema ",
        );
        reason.append(signed_decimal_text(SCHEMA_VERSION).as_str());
        return Err(Error::Config(reason));
    }
    let mut steps: Vec<Migration> = Vec::new();
    if version == 0 {
        steps.push(Migration::CreateSchema);
    } else if version == 1 {
        steps.push(Migration::AddActiveColumn);
    }
    if version <= 2 && version != 0 {
        steps.push(Migration::AddAgentSessions);
    }
    if version <= 3 && version != 0 {
        steps.push(Migration::AddAgentTurns);
    }
    assert(steps@ =~= migration_steps(version)->Ok_0);
    Ok(steps)
}

/// Whatever version a database of a known layout has, the last step leads to
/// the present one.
pub proof fn migration_ends_at_present(version: i64)
    requires
        0 <= version < SCHEMA_VERSION,
    ensures
        migration_steps(version) matches Ok(steps) && steps.len() > 0 && leads_to(steps.last())
            == SCHEMA_VERSION,
{
}

} // verus!
