//! The client's side of the wire: what an answer means, and how a subscriber
//! keeps count.

use vstd::prelude::*;

use crate::error;
use crate::error::{Error, ErrorView};
use crate::model::{
    AgentSession, AgentSessionDetail, AgentTurn, Execution, ExecutionEvent, ExecutionEventView,
    ExecutionStats, Health, ReadOutputResponse, WaitResponse, Workspace, PROTOCOL_VERSION,
};
use crate::protocol::{
    ProtocolResult, ProtocolResultView, ResponseBody, ResponseBodyView, SubscriptionResponseView,
    WireMessage, WireMessageView,
};
use crate::text;
use crate::text::{decimal_text, joined3, same_text};

verus! {

/// How often a client looks for a daemon that it has started.
pub const START_ATTEMPTS: u32 = 60;

/// How long a client waits before it looks again, in milliseconds.
pub const START_INTERVAL_MS: u64 = 50;

/// A client of the daemon that listens at a socket.
#[derive(Debug)]
pub struct DaemonClient {
    pub socket: String,
}

impl DaemonClient {
    /// A client of the daemon at `socket`.
    pub fn new(socket: String) -> (client: DaemonClient)
        ensures
            client.socket@ == socket@,
    {
        DaemonClient { socket }
    }
}

/// What a client does that has asked a daemon for its health.
#[derive(Debug)]
pub enum StartStep {
    /// The daemon is there.
    Ready,
    /// The daemon is not there: it is to be started, or waited for.
    Wait,
    /// The daemon is there and something is wrong.
    Fail(Error),
}

/// Whether a daemon that was asked for its health is there. Only one that does
/// not listen is started; `attempts_left` says how often it may be looked for
/// again.
pub fn start_step(client: &DaemonClient, failure: Option<Error>, attempts_left: u32) -> (step: StartStep)
    ensures
        match failure {
            None => step is Ready,
            Some(error) => match error@ {
                ErrorView::DaemonUnavailable(path) => if attempts_left > 0 {
                    step is Wait
                } else {
                    step matches StartStep::Fail(last) && last@ == ErrorView::DaemonUnavailable(
                        client.socket@,
                    )
                },
                _ => step matches StartStep::Fail(last) && last@ == error@,
            },
        },
{
    match failure {
        None => StartStep::Ready,
        Some(error) => match error {
            Error::DaemonUnavailable(_) => {
                if attempts_left > 0 {
                    StartStep::Wait
                } else {
                    StartStep::Fail(Error::DaemonUnavailable(client.socket.clone()))
                }
            },
            other => StartStep::Fail(other),
        },
    }
}

/// What an answer gives to the client that asked under `expected`.
pub open spec fn answer_of(message: WireMessageView, expected: Seq<char>) -> Result<
    ProtocolResultView,
    ErrorView,
> {
    match message {
        WireMessageView::Response { version, request_id, body } => if version
            != PROTOCOL_VERSION {
            Err(
                ErrorView::ProtocolVersionMismatch { client: PROTOCOL_VERSION, daemon: version },
            )
        } else if request_id != expected {
            Err(ErrorView::Protocol("response request_id did not match"@))
        } else {
            match body {
                ResponseBodyView::Success { result } => Ok(result),
                ResponseBodyView::Error { error } => Err(
                    ErrorView::Protocol(error.code + ": "@ + error.message),
                ),
            }
        },
        _ => Err(ErrorView::Protocol("expected daemon response"@)),
    }
}

/// Reads the answer to the request `expected_request_id`.
pub fn decode_response(message: WireMessage, expected_request_id: &str) -> (result: Result<
    ProtocolResult,
    Error,
>)
    ensures
        error::viewed(result) == answer_of(message@, expected_request_id@),
{
    match message {
        WireMessage::Response { version, request_id, body } => {
            if version != PROTOCOL_VERSION {
                return Err(
                    Error::ProtocolVersionMismatch { client: PROTOCOL_VERSION, daemon: version },
                );
            }
            if !same_text(request_id.as_str(), expected_request_id) {
                return Err(Error::Protocol("response request_id did not match".to_owned()));
            }
            match body {
                ResponseBody::Success { result } => Ok(result),
                ResponseBody::Error { error } => Err(error.into_error()),
            }
        },
        _ => Err(Error::Protocol("expected daemon response".to_owned())),
    }
}

/// The failure to report for an answer of the wrong kind, of which `actual` is
/// the description.
pub fn unexpected(expected: &str, actual: &str) -> (error: Error)
    ensures
        error@ == ErrorView::Protocol(
            "expected "@ + expected@ + " response, received "@ + actual@,
        ),
{
    let mut reason = joined3("expected ", expected, " response, received ");
    reason.append(actual);
    Error::Protocol(reason)
}

/// The health in an answer, or the answer itself where it is something else.
pub fn expect_health(result: ProtocolResult) -> (health: Result<Health, ProtocolResult>)
    ensures
        match health {
            Ok(health) => result@ == ProtocolResultView::Health(health@),
            Err(other) => other == result && !(result is Health),
        },
{
    match result {
        ProtocolResult::Health(value) => Ok(value),
        value => Err(value),
    }
}

/// The workspace in an answer, or the answer itself where it is something else.
pub fn expect_workspace(result: ProtocolResult) -> (workspace: Result<Workspace, ProtocolResult>)
    ensures
        match workspace {
            Ok(workspace) => result@ == ProtocolResultView::Workspace(workspace@),
            Err(other) => other == result && !(result is Workspace),
        },
{
    match result {
        ProtocolResult::Workspace(value) => Ok(value),
        value => Err(value),
    }
}

/// The execution in an answer, or the answer itself where it is something
/// else.
pub fn expect_execution(result: ProtocolResult) -> (execution: Result<Execution, ProtocolResult>)
    ensures
        match execution {
            Ok(execution) => result@ == ProtocolResultView::Execution(execution@),
            Err(other) => other == result && !(result is Execution),
        },
{
    match result {
        ProtocolResult::Execution(value) => Ok(value),
        value => Err(value),
    }
}

/// The workspaces in an answer, or the answer itself where it is something else.
pub fn expect_workspaces(result: ProtocolResult) -> (value: Result<Vec<Workspace>, ProtocolResult>)
    ensures
        match value {
            Ok(value) => result == ProtocolResult::Workspaces(value),
            Err(other) => other == result && !(result is Workspaces),
        },
{
    match result {
        ProtocolResult::Workspaces(value) => Ok(value),
        value => Err(value),
    }
}

/// The executions in an answer, or the answer itself where it is something else.
pub fn expect_executions(result: ProtocolResult) -> (value: Result<Vec<Execution>, ProtocolResult>)
    ensures
        match value {
            Ok(value) => result == ProtocolResult::Executions(value),
            Err(other) => other == result && !(result is Executions),
        },
{
    match result {
        ProtocolResult::Executions(value) => Ok(value),
        value => Err(value),
    }
}

/// The statistics in an answer, or the answer itself where it is something else.
pub fn expect_stats(result: ProtocolResult) -> (value: Result<ExecutionStats, ProtocolResult>)
    ensures
        match value {
            Ok(value) => result == ProtocolResult::Stats(value),
            Err(other) => other == result && !(result is Stats),
        },
{
    match result {
        ProtocolResult::Stats(value) => Ok(value),
        value => Err(value),
    }
}

/// The page of output in an answer, or the answer itself where it is something else.
pub fn expect_output(result: ProtocolResult) -> (value: Result<ReadOutputResponse, ProtocolResult>)
    ensures
        match value {
            Ok(value) => result == ProtocolResult::Output(value),
            Err(other) => other == result && !(result is Output),
        },
{
    match result {
        ProtocolResult::Output(value) => Ok(value),
        value => Err(value),
    }
}

/// The outcome of a wait in an answer, or the answer itself where it is something else.
pub fn expect_wait(result: ProtocolResult) -> (value: Result<WaitResponse, ProtocolResult>)
    ensures
        match value {
            Ok(value) => result == ProtocolResult::Wait(value),
            Err(other) => other == result && !(result is Wait),
        },
{
    match result {
        ProtocolResult::Wait(value) => Ok(value),
        value => Err(value),
    }
}

/// The session in an answer, or the answer itself where it is something else.
pub fn expect_session(result: ProtocolResult) -> (value: Result<AgentSession, ProtocolResult>)
    ensures
        match value {
            Ok(value) => result == ProtocolResult::AgentSession(value),
            Err(other) => other == result && !(result is AgentSession),
        },
{
    match result {
        ProtocolResult::AgentSession(value) => Ok(value),
        value => Err(value),
    }
}

/// The sessions in an answer, or the answer itself where it is something else.
pub fn expect_sessions(result: ProtocolResult) -> (value: Result<Vec<AgentSession>, ProtocolResult>)
    ensures
        match value {
            Ok(value) => result == ProtocolResult::AgentSessions(value),
            Err(other) => other == result && !(result is AgentSessions),
        },
{
    match result {
        ProtocolResult::AgentSessions(value) => Ok(value),
        value => Err(value),
    }
}

/// The session with its records in an answer, or the answer itself where it is something else.
pub fn expect_session_detail(result: ProtocolResult) -> (value: Result<AgentSessionDetail, ProtocolResult>)
    ensures
        match value {
            Ok(value) => result == ProtocolResult::AgentSessionDetail(value),
            Err(other) => other == result && !(result is AgentSessionDetail),
        },
{
    match result {
        ProtocolResult::AgentSessionDetail(value) => Ok(value),
        value => Err(value),
    }
}

/// The turn in an answer, or the answer itself where it is something else.
pub fn expect_turn(result: ProtocolResult) -> (value: Result<AgentTurn, ProtocolResult>)
    ensures
        match value {
            Ok(value) => result == ProtocolResult::AgentTurn(value),
            Err(other) => other == result && !(result is AgentTurn),
        },
{
    match result {
        ProtocolResult::AgentTurn(value) => Ok(value),
        value => Err(value),
    }
}

/// Nothing, or the answer itself where it says something.
pub fn expect_empty(result: ProtocolResult) -> (value: Result<(), ProtocolResult>)
    ensures
        match value {
            Ok(_) => result is Empty,
            Err(other) => other == result && !(result is Empty),
        },
{
    match result {
        ProtocolResult::Empty => Ok(()),
        value => Err(value),
    }
}

/// Whether a daemon can do what is asked of it.
pub fn require_capability(health: &Health, capability: &str) -> (checked: Result<(), Error>)
    ensures
        error::outcome_view(checked, |u: ()| u) == (if health@.capabilities.contains(capability@) {
            Ok(())
        } else {
            Err(
                ErrorView::DaemonUpgradeRequired {
                    daemon_pid: health@.daemon_pid,
                    capability: capability@,
                },
            )
        }),
{
    let ghost all = text::texts(health.capabilities@);
    let mut i: usize = 0;
    while i < health.capabilities.len()
        invariant
            i <= health.capabilities.len(),
            all == text::texts(health.capabilities@),
            forall|k: int| 0 <= k < i ==> #[trigger] all[k] != capability@,
        decreases health.capabilities.len() - i,
    {
        assert(all[i as int] == health.capabilities@[i as int]@);
        if same_text(health.capabilities[i].as_str(), capability) {
            assert(all.contains(capability@));
            return Ok(());
        }
        i += 1;
    }
    Err(
        Error::DaemonUpgradeRequired {
            daemon_pid: health.daemon_pid,
            capability: capability.to_owned(),
        },
    )
}

/// A subscription as the subscriber keeps it.
#[derive(Debug)]
pub struct ExecutionSubscription {
    pub subscription_id: String,
    pub execution: Execution,
    pub next_seq: u64,
}

/// What a subscriber makes of a message, when it has the events up to
/// `next_seq`: only the next event is taken.
pub open spec fn taken_event(
    message: WireMessageView,
    subscription: Seq<char>,
    next_seq: u64,
) -> Result<ExecutionEventView, ErrorView> {
    match message {
        WireMessageView::Event { version, subscription_id, event } => if version
            != PROTOCOL_VERSION {
            Err(
                ErrorView::ProtocolVersionMismatch { client: PROTOCOL_VERSION, daemon: version },
            )
        } else if subscription_id != subscription {
            Err(ErrorView::Protocol("subscription event id did not match"@))
        } else if event.seq != next_seq + 1 {
            Err(
                ErrorView::Protocol(
                    "subscription sequence was not contiguous after "@ + text::decimal(next_seq as nat)
                        + ": received "@ + text::decimal(event.seq as nat),
                ),
            )
        } else {
            Ok(event)
        },
        _ => Err(ErrorView::Protocol("expected subscription event from daemon"@)),
    }
}

impl ExecutionSubscription {
    /// The subscription that an answer opens, or the answer itself where it is
    /// something else.
    pub fn open(subscription_id: String, result: ProtocolResult) -> (opened: Result<
        ExecutionSubscription,
        ProtocolResult,
    >)
        ensures
            match opened {
                Ok(subscription) => result@ == ProtocolResultView::Subscription(
                    SubscriptionResponseView {
                        execution: subscription.execution@,
                        next_seq: subscription.next_seq,
                    },
                ) && subscription.subscription_id@ == subscription_id@,
                Err(other) => other == result && !(result is Subscription),
            },
    {
        match result {
            ProtocolResult::Subscription(response) => Ok(
                ExecutionSubscription {
                    subscription_id,
                    execution: response.execution,
                    next_seq: response.next_seq,
                },
            ),
            value => Err(value),
        }
    }

    /// Takes the next event from a message. Where it is not the next one
    /// nothing changes.
    pub fn next_event(&mut self, message: WireMessage) -> (event: Result<ExecutionEvent, Error>)
        ensures
            error::viewed(event) == taken_event(
                message@,
                old(self).subscription_id@,
                old(self).next_seq,
            ),
            final(self).subscription_id@ == old(self).subscription_id@,
            final(self).execution@ == old(self).execution@,
            final(self).next_seq == (match error::viewed(event) {
                Ok(event) => event.seq,
                Err(error) => old(self).next_seq,
            }),
    {
        match message {
            WireMessage::Event { version, subscription_id, event } => {
                if version != PROTOCOL_VERSION {
                    return Err(
                        Error::ProtocolVersionMismatch {
                            client: PROTOCOL_VERSION,
                            daemon: version,
                        },
                    );
                }
                if !same_text(subscription_id.as_str(), self.subscription_id.as_str()) {
                    return Err(
                        Error::Protocol("subscription event id did not match".to_owned()),
                    );
                }
                if self.next_seq == u64::MAX || event.seq != self.next_seq + 1 {
                    let mut reason = joined3(
                        "subscription sequence was not contiguous after ",
                        decimal_text(self.next_seq).as_str(),
                        ": received ",
                    );
                    reason.append(decimal_text(event.seq).as_str());
                    return Err(Error::Protocol(reason));
                }
                self.next_seq = event.seq;
                Ok(event)
            },
            _ => Err(Error::Protocol("expected subscription event from daemon".to_owned())),
        }
    }
}

/// The events that a subscriber has taken from some messages, one after the
/// other, when all of them were taken.
pub open spec fn taken_all(
    messages: Seq<WireMessageView>,
    subscription: Seq<char>,
    next_seq: u64,
) -> Option<Seq<ExecutionEventView>>
    decreases messages.len(),
{
    if messages.len() == 0 {
        Some(Seq::empty())
    } else {
        match taken_event(messages[0], subscription, next_seq) {
            Err(error) => None,
            Ok(event) => match taken_all(messages.drop_first(), subscription, event.seq) {
                None => None,
                Some(rest) => Some(seq![event] + rest),
            },
        }
    }
}

/// A subscriber that has taken events has them without a gap: they are
/// numbered one after the other from where it began.
pub proof fn taken_events_are_contiguous(
    messages: Seq<WireMessageView>,
    subscription: Seq<char>,
    next_seq: u64,
)
    ensures
        taken_all(messages, subscription, next_seq) matches Some(events) ==> events.len()
            == messages.len() && forall|k: int|
            0 <= k < events.len() ==> (#[trigger] events[k]).seq == next_seq + k + 1,
    decreases messages.len(),
{
    if messages.len() > 0 && taken_all(messages, subscription, next_seq) is Some {
        let event = taken_event(messages[0], subscription, next_seq)->Ok_0;
        taken_events_are_contiguous(messages.drop_first(), subscription, event.seq);
        let rest = taken_all(messages.drop_first(), subscription, event.seq)->0;
        let events = taken_all(messages, subscription, next_seq)->0;
        assert forall|k: int| 0 <= k < events.len() implies (#[trigger] events[k]).seq == next_seq
            + k + 1 by {
            if k > 0 {
                assert(events[k] == rest[k - 1]);
            }
        }
    }
}

/// The owned path type of std.
#[verifier::external_type_specification]
#[verifier::external_body]
pub struct ExPathBuf(std::path::PathBuf);

/// The text that `std::path::Path::to_string_lossy` makes of a path.
pub uninterp spec fn path_text(path: std::path::PathBuf) -> Seq<char>;

/// `std::path::Path::to_string_lossy`: what is not Unicode in the path is
/// replaced. A function of the path alone.
#[verifier::external_body]
pub(crate) fn lossy_text(path: &std::path::PathBuf) -> (text: String)
    ensures
        text@ == path_text(*path),
{
    path.to_string_lossy().into_owned()
}

/// A path as text.
pub fn path_to_string(path: &std::path::PathBuf) -> (text: String)
    ensures
        text@ == path_text(*path),
{
    lossy_text(path)
}

} // verus!
