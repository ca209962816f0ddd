//! The names under which things are stored, and how they are read back.

use vstd::prelude::*;

use crate::error::Error;
use crate::model;
use crate::model::{
    AgentActionState, AgentSessionState, AgentTurnState, ExecutionState, OutputStream, Workspace,
};
use crate::paths;
use crate::promises::words;
use crate::startup;
use crate::store::columns;
use crate::store::columns::{EventKind, Migration};
use crate::text;

verus! {

/// Each state of an execution has its own name, and reading a name gives the
/// state that was written.
pub proof fn states_read_back(
    state: ExecutionState,
    name: &'static str,
    parsed: Result<ExecutionState, String>,
)
    requires
        call_ensures(ExecutionState::as_str, (&state,), name),
        call_ensures(columns::parse_state, (name,), parsed),
    ensures
        parsed matches Ok(read) && read == state,
        (name@ == "queued"@) == (state == ExecutionState::Queued),
        (name@ == "running"@) == (state == ExecutionState::Running),
        (name@ == "finished"@) == (state == ExecutionState::Finished),
        (name@ == "cancelled"@) == (state == ExecutionState::Cancelled),
        (name@ == "interrupted"@) == (state == ExecutionState::Interrupted),
{
    words_differ();
    assert(model::state_name(state) == name@);
}

/// Each state of a session has its own name, and reading a name gives the state
/// that was written.
pub proof fn session_states_read_back(
    state: AgentSessionState,
    name: &'static str,
    parsed: Result<AgentSessionState, String>,
)
    requires
        call_ensures(AgentSessionState::as_str, (&state,), name),
        call_ensures(columns::parse_agent_session_state, (name,), parsed),
    ensures
        parsed matches Ok(read) && read == state,
        (name@ == "recording"@) == (state == AgentSessionState::Recording),
        (name@ == "finished"@) == (state == AgentSessionState::Finished),
        (name@ == "interrupted"@) == (state == AgentSessionState::Interrupted),
{
    words_differ();
    assert(model::session_state_name(state) == name@);
}

/// Each state of a turn has its own name, and reading a name gives the state
/// that was written.
pub proof fn turn_states_read_back(
    state: AgentTurnState,
    name: &'static str,
    parsed: Result<AgentTurnState, String>,
)
    requires
        call_ensures(AgentTurnState::as_str, (&state,), name),
        call_ensures(columns::parse_agent_turn_state, (name,), parsed),
    ensures
        parsed matches Ok(read) && read == state,
        (name@ == "active"@) == (state == AgentTurnState::Active),
        (name@ == "completed"@) == (state == AgentTurnState::Completed),
        (name@ == "failed"@) == (state == AgentTurnState::Failed),
        (name@ == "interrupted"@) == (state == AgentTurnState::Interrupted),
{
    words_differ();
    assert(model::turn_state_name(state) == name@);
}

/// Each state of an action has its own name, and reading a name gives the state
/// that was written.
pub proof fn action_states_read_back(
    state: AgentActionState,
    name: &'static str,
    parsed: Result<AgentActionState, String>,
)
    requires
        call_ensures(AgentActionState::as_str, (&state,), name),
        call_ensures(columns::parse_agent_action_state, (name,), parsed),
    ensures
        parsed matches Ok(read) && read == state,
        (name@ == "running"@) == (state == AgentActionState::Running),
        (name@ == "completed"@) == (state == AgentActionState::Completed),
        (name@ == "failed"@) == (state == AgentActionState::Failed),
{
    words_differ();
    assert(model::action_state_name(state) == name@);
}

/// Each stream has its own name, and reading a name gives the stream that was
/// written.
pub proof fn streams_read_back(
    stream: OutputStream,
    name: &'static str,
    parsed: Option<OutputStream>,
)
    requires
        call_ensures(OutputStream::as_str, (stream,), name),
        call_ensures(columns::parse_stream, (name,), parsed),
    ensures
        parsed == Some(stream),
        (name@ == "stdout"@) == (stream == OutputStream::Stdout),
        (name@ == "stderr"@) == (stream == OutputStream::Stderr),
{
    words_differ();
    assert(model::stream_name(stream) == name@);
}

/// Each kind of event has its own name, and reading a name gives the kind that
/// was written.
pub proof fn kinds_read_back(
    kind: EventKind,
    name: &'static str,
    parsed: Result<EventKind, String>,
)
    requires
        call_ensures(EventKind::as_str, (kind,), name),
        call_ensures(columns::parse_event_kind, (name,), parsed),
    ensures
        parsed matches Ok(read) && read == kind,
        (name@ == "started"@) == (kind == EventKind::Started),
        (name@ == "output"@) == (kind == EventKind::Output),
        (name@ == "capture_truncated"@) == (kind == EventKind::CaptureTruncated),
        (name@ == "finished"@) == (kind == EventKind::Finished),
{
    words_differ();
    assert(columns::kind_name(kind) == name@);
}

proof fn words_differ()
    ensures
        "queued"@.len() == 6 && "queued"@[0] == 'q',
        "running"@.len() == 7 && "running"@[0] == 'r',
        "finished"@.len() == 8 && "finished"@[0] == 'f',
        "cancelled"@.len() == 9 && "cancelled"@[0] == 'c',
        "interrupted"@.len() == 11 && "interrupted"@[0] == 'i',
        "recording"@.len() == 9 && "recording"@[0] == 'r',
        "active"@.len() == 6 && "active"@[0] == 'a',
        "completed"@.len() == 9 && "completed"@[0] == 'c',
        "failed"@.len() == 6 && "failed"@[0] == 'f',
        "stdout"@.len() == 6 && "stdout"@[3] == 'o',
        "stderr"@.len() == 6 && "stderr"@[3] == 'e',
        "started"@.len() == 7 && "started"@[0] == 's',
        "output"@.len() == 6 && "output"@[0] == 'o',
        "capture_truncated"@.len() == 17,
{
    reveal_strlit("queued");
    reveal_strlit("running");
    reveal_strlit("finished");
    reveal_strlit("cancelled");
    reveal_strlit("interrupted");
    reveal_strlit("recording");
    reveal_strlit("active");
    reveal_strlit("completed");
    reveal_strlit("failed");
    reveal_strlit("stdout");
    reveal_strlit("stderr");
    reveal_strlit("started");
    reveal_strlit("output");
    reveal_strlit("capture_truncated");
}

/// Where nothing more can happen is said of every state but the two that are
/// open, and of every recording that does not go on.
pub proof fn open_states_are_known(
    state: ExecutionState,
    over: bool,
    recording: AgentSessionState,
    done: bool,
)
    requires
        call_ensures(ExecutionState::is_terminal, (&state,), over),
        call_ensures(AgentSessionState::is_terminal, (&recording,), done),
    ensures
        !over == (state == ExecutionState::Queued || state == ExecutionState::Running),
        !done == (recording == AgentSessionState::Recording),
{
}

/// A database that is not up to date is brought forward one version at a time,
/// up to the fourth; an empty one is made as it should be at once; and one from
/// the future is refused.
pub proof fn databases_are_brought_forward(
    version: i64,
    plan: Result<Vec<Migration>, Error>,
    i: int,
)
    requires
        version >= 0,
        call_ensures(columns::migration_plan, (version,), plan),
    ensures
        plan is Ok == (version <= 4),
        plan matches Ok(steps) ==> {
            &&& version == 0 ==> steps@ == seq![Migration::CreateSchema]
            &&& version > 0 ==> steps@.len() == 4 - version
            &&& version > 0 && 0 <= i < steps@.len() ==> (match steps@[i] {
                Migration::AddActiveColumn => version + i == 1,
                Migration::AddAgentSessions => version + i == 2,
                Migration::AddAgentTurns => version + i == 3,
                Migration::CreateSchema => false,
            })
        },
{
}

/// A directory is accepted for work in a workspace exactly where it lies at or
/// below its root, and is used as it is.
pub proof fn work_stays_in_its_workspace(
    workspace: &Workspace,
    canonical: String,
    resolved: Result<String, Error>,
)
    requires
        call_ensures(Workspace::resolve_cwd, (workspace, canonical), resolved),
    ensures
        resolved is Ok == paths::below(canonical@, workspace@.root),
        resolved matches Ok(cwd) ==> cwd@ == canonical@,
        resolved matches Err(error) ==> error is OutsideWorkspace,
{
}

proof fn digits_write_a_number(digits: Seq<char>)
    requires
        digits.len() > 0,
        forall|i: int| 0 <= i < digits.len() ==> '0' <= #[trigger] digits[i] && digits[i] <= '9',
    ensures
        startup::written_number(digits) == Some(words::number_of(digits)),
    decreases digits.len(),
{
    reveal_with_fuel(words::number_of, 2);
    let front = digits.drop_last();
    assert('0' <= digits[digits.len() - 1] && digits[digits.len() - 1] <= '9');
    if digits.len() > 1 {
        assert forall|i: int| 0 <= i < front.len() implies '0' <= #[trigger] front[i] && front[i]
            <= '9' by {
            assert(digits[i] == front[i]);
        }
        digits_write_a_number(front);
    } else {
        assert(front =~= Seq::empty());
    }
}

/// The process that a lock names is the one whose number was written there,
/// whatever white space follows; a lock that names none is nobody's.
pub proof fn a_lock_names_its_process(
    source: &str,
    owner: Option<i32>,
    pid: nat,
    after: Seq<char>,
)
    requires
        call_ensures(startup::lock_owner, (source,), owner),
        pid <= i32::MAX,
        text::blank(after),
    ensures
        source@ == text::decimal(pid) + after ==> owner == Some(pid as i32),
        text::blank(source@) ==> owner is None,
{
    if source@ == text::decimal(pid) + after {
        let numeral = text::decimal(pid);
        let whole = source@;
        words::a_numeral_is_its_number(pid);
        digits_write_a_number(numeral);
        let n = numeral.len() as int;
        assert('0' <= numeral[0] && numeral[0] <= '9');
        assert('0' <= numeral[n - 1] && numeral[n - 1] <= '9');
        assert(!text::white_space(whole[0]));
        assert(!text::white_space(whole[n - 1]));
        assert forall|i: int| n <= i < whole.len() implies text::white_space(
            #[trigger] whole[i],
        ) by {
            assert(whole[i] == after[i - n]);
        }
        assert(text::bounds_trimmed(whole, 0, n));
        let (f, t) = text::trim_bounds(whole);
        assert(text::bounds_trimmed(whole, f, t));
        assert(f == 0 && t == n);
        assert(text::trimmed(whole) =~= numeral);
    }
}

/// A number below zero is written with a minus sign and read back with it.
pub proof fn a_lock_may_name_a_group(source: &str, owner: Option<i32>, pid: nat)
    requires
        call_ensures(startup::lock_owner, (source,), owner),
        0 < pid <= i32::MAX,
        source@ == seq!['-'] + text::decimal(pid),
    ensures
        owner == Some((-pid) as i32),
{
    let numeral = text::decimal(pid);
    let whole = source@;
    words::a_numeral_is_its_number(pid);
    digits_write_a_number(numeral);
    let n = whole.len() as int;
    assert('0' <= numeral[n - 2] && numeral[n - 2] <= '9');
    assert(!text::white_space(whole[0]));
    assert(!text::white_space(whole[n - 1]));
    assert(text::bounds_trimmed(whole, 0, n));
    let (f, t) = text::trim_bounds(whole);
    assert(text::bounds_trimmed(whole, f, t));
    assert(f == 0 && t == n);
    assert(text::trimmed(whole) =~= whole);
    assert(whole.drop_first() =~= numeral);
}

} // verus!
