//! The daemon: what it makes of requests, how it serves subscribers, and what
//! it does about recordings that were abandoned.

use vstd::prelude::*;

use crate::error;
use crate::error::{Error, ErrorView};
use crate::json;
use crate::json::{read_json, Json, JsonTree};
use crate::model;
use crate::model::{
    AgentSession, AgentSessionFinish, AgentSessionFinishView, AgentSessionState, ExecutionEvent,
    ExecutionEventPayload, ExecutionEventView, ExecutionOutcome, ExecutionOutcomeView,
    ReadOutputResponse, ReadOutputResponseView, PROTOCOL_VERSION,
};
use crate::paths;
use crate::paths::{list_starts_with, path_components};
use crate::protocol;
use crate::protocol::{
    Operation, OperationView, ProtocolResult, ProtocolResultView, ResponseBodyView,
    SubscriptionResponse, SubscriptionResponseView, WireMessage, WireMessageView,
};
use crate::store::executions;
use crate::store::reading;
use crate::store::rows;
use crate::store::rows::{Database, DatabaseView, ExecutionRowView};
use crate::store::sessions;
use crate::text;
use crate::text::{decimal_text, joined, joined3, same_text};

verus! {

/// What came over a connection.
#[derive(Debug)]
pub enum Incoming {
    /// Something that is no message; the text says why.
    Malformed(String),
    /// A message.
    Message(WireMessage),
}

/// What the daemon does with what came.
#[derive(Debug)]
pub enum Reception {
    /// Answers at once.
    Answer(WireMessage),
    /// Turns the connection into a subscription.
    Subscribe { request_id: String, execution_id: String, after_seq: u64 },
    /// Carries the operation out and answers.
    Dispatch { request_id: String, operation: Operation },
}

/// What a `Reception` holds.
pub enum ReceptionView {
    Answer(WireMessageView),
    Subscribe { request_id: Seq<char>, execution_id: Seq<char>, after_seq: u64 },
    Dispatch { request_id: Seq<char>, operation: OperationView },
}

impl View for Reception {
    type V = ReceptionView;

    open spec fn view(&self) -> ReceptionView {
        match *self {
            Reception::Answer(message) => ReceptionView::Answer(message@),
            Reception::Subscribe { request_id, execution_id, after_seq } =>
                ReceptionView::Subscribe {
                request_id: request_id@,
                execution_id: execution_id@,
                after_seq,
            },
            Reception::Dispatch { request_id, operation } => ReceptionView::Dispatch {
                request_id: request_id@,
                operation: operation@,
            },
        }
    }
}

/// The answer that a request failed.
pub open spec fn failure(request_id: Seq<char>, error: ErrorView) -> WireMessageView {
    WireMessageView::Response {
        version: PROTOCOL_VERSION,
        request_id,
        body: ResponseBodyView::Error { error: protocol::wire_error(error) },
    }
}

/// The answer that a request was carried out.
pub open spec fn success(request_id: Seq<char>, result: ProtocolResultView) -> WireMessageView {
    WireMessageView::Response {
        version: PROTOCOL_VERSION,
        request_id,
        body: ResponseBodyView::Success { result },
    }
}

/// What the daemon does with what came: only a request of the same protocol
/// version is carried out.
pub open spec fn received(incoming: Incoming) -> ReceptionView {
    match incoming {
        Incoming::Malformed(reason) => ReceptionView::Answer(
            failure("invalid"@, error::refused("invalid protocol request: "@ + reason@)),
        ),
        Incoming::Message(message) => match message@ {
            WireMessageView::Request { version, request_id, operation } => if version
                != PROTOCOL_VERSION {
                ReceptionView::Answer(
                    failure(
                        request_id,
                        ErrorView::Protocol(
                            "unsupported protocol version "@ + text::decimal(version as nat),
                        ),
                    ),
                )
            } else {
                match operation {
                    OperationView::Subscribe { execution_id, after_seq } =>
                        ReceptionView::Subscribe { request_id, execution_id, after_seq },
                    _ => ReceptionView::Dispatch { request_id, operation },
                }
            },
            _ => ReceptionView::Answer(
                failure("invalid"@, error::refused("client message must be a request"@)),
            ),
        },
    }
}

/// Decides what to do with what came.
pub fn receive(incoming: Incoming) -> (reception: Reception)
    ensures
        reception@ == received(incoming),
{
    match incoming {
        Incoming::Malformed(reason) => Reception::Answer(
            WireMessage::error(
                "invalid".to_owned(),
                &Error::InvalidRequest(joined("invalid protocol request: ", reason.as_str())),
            ),
        ),
        Incoming::Message(message) => match message {
            WireMessage::Request { version, request_id, operation } => {
                if version != PROTOCOL_VERSION {
                    return Reception::Answer(
                        WireMessage::error(
                            request_id,
                            &Error::Protocol(
                                joined(
                                    "unsupported protocol version ",
                                    decimal_text(version as u64).as_str(),
                                ),
                            ),
                        ),
                    );
                }
                match operation {
                    Operation::Subscribe { execution_id, after_seq } => Reception::Subscribe {
                        request_id,
                        execution_id,
                        after_seq,
                    },
                    other => Reception::Dispatch { request_id, operation: other },
                }
            },
            _ => Reception::Answer(
                WireMessage::error(
                    "invalid".to_owned(),
                    &Error::InvalidRequest("client message must be a request".to_owned()),
                ),
            ),
        },
    }
}

/// The answer to a request, by how it went.
pub fn answer(request_id: String, result: Result<ProtocolResult, Error>) -> (message: WireMessage)
    ensures
        message@ == (match error::viewed(result) {
            Ok(value) => success(request_id@, value),
            Err(error) => failure(request_id@, error),
        }),
{
    match result {
        Ok(value) => WireMessage::ok(request_id, value),
        Err(error) => WireMessage::error(request_id, &error),
    }
}

/// A subscription as the daemon keeps it: the events up to `cursor` have been
/// sent.
#[derive(Debug)]
pub struct Subscription {
    pub subscription_id: String,
    pub execution_id: String,
    pub cursor: u64,
}

/// What a `Subscription` holds.
#[verifier::ext_equal]
pub struct SubscriptionView {
    pub subscription_id: Seq<char>,
    pub execution_id: Seq<char>,
    pub cursor: u64,
}

impl View for Subscription {
    type V = SubscriptionView;

    open spec fn view(&self) -> SubscriptionView {
        SubscriptionView {
            subscription_id: self.subscription_id@,
            execution_id: self.execution_id@,
            cursor: self.cursor,
        }
    }
}

/// The answer to a request to subscribe, and the subscription that it opens.
/// One cannot begin after events that are yet to come.
pub open spec fn subscription_opened(
    db: DatabaseView,
    subscription_id: Seq<char>,
    execution_id: Seq<char>,
    after_seq: u64,
    now: i64,
) -> (WireMessageView, Option<SubscriptionView>) {
    match rows::execution_place(db, execution_id) {
        None => (failure(subscription_id, ErrorView::ExecutionNotFound(execution_id)), None),
        Some(at) => {
            let execution = executions::execution_of(db.executions[at], now);
            if after_seq > execution.last_seq {
                (
                    failure(
                        subscription_id,
                        error::refused(
                            "after_seq "@ + text::decimal(after_seq as nat)
                                + " exceeds execution cursor "@ + text::decimal(
                                execution.last_seq as nat,
                            ),
                        ),
                    ),
                    None,
                )
            } else {
                (
                    success(
                        subscription_id,
                        ProtocolResultView::Subscription(
                            SubscriptionResponseView { execution, next_seq: after_seq },
                        ),
                    ),
                    Some(SubscriptionView { subscription_id, execution_id, cursor: after_seq }),
                )
            }
        },
    }
}

/// Opens a subscription.
pub fn open_subscription(
    db: &Database,
    subscription_id: String,
    execution_id: String,
    after_seq: u64,
    now: i64,
) -> (opened: (WireMessage, Option<Subscription>))
    ensures
        (
            opened.0@,
            match opened.1 {
                Some(subscription) => Some(subscription@),
                None => None,
            },
        ) == subscription_opened(db@, subscription_id@, execution_id@, after_seq, now),
{
    match db.get_execution(execution_id.as_str(), now) {
        Err(error) => (WireMessage::error(subscription_id, &error), None),
        Ok(execution) => {
            if after_seq > execution.last_seq {
                let mut reason = joined3(
                    "after_seq ",
                    decimal_text(after_seq).as_str(),
                    " exceeds execution cursor ",
                );
                reason.append(decimal_text(execution.last_seq).as_str());
                return (
                    WireMessage::error(subscription_id, &Error::InvalidRequest(reason)),
                    None,
                );
            }
            let message = WireMessage::ok(
                subscription_id.clone(),
                ProtocolResult::Subscription(
                    SubscriptionResponse { execution, next_seq: after_seq },
                ),
            );
            (message, Some(Subscription { subscription_id, execution_id, cursor: after_seq }))
        },
    }
}

/// Whether an event says that the execution has ended.
pub open spec fn is_last(event: ExecutionEventView) -> bool {
    event.payload is Finished
}

fn ends(event: &ExecutionEvent) -> (last: bool)
    ensures
        last == is_last(event@),
{
    match &event.payload {
        ExecutionEventPayload::Finished { outcome } => true,
        ExecutionEventPayload::Started { pid, pgid } => false,
        ExecutionEventPayload::Output { stream, data_base64 } => false,
        ExecutionEventPayload::CaptureTruncated { limit_bytes } => false,
    }
}

/// The message that carries an event to a subscriber.
pub open spec fn event_message(subscription_id: Seq<char>, event: ExecutionEventView) -> WireMessageView {
    WireMessageView::Event { version: PROTOCOL_VERSION, subscription_id, event }
}

/// What is done after a page was replayed.
#[derive(Debug, Clone, Copy, PartialEq, Eq, Structural)]
pub enum ReplayStatus {
    /// There is more to replay.
    Again,
    /// All has been replayed; what comes next comes live.
    Live,
    /// The subscription is over.
    Closed,
}

/// The messages for the events of a page: those after the cursor, up to the
/// one that ends the execution. The cursor moves with them.
pub open spec fn replayed_events(
    subscription: SubscriptionView,
    events: Seq<ExecutionEventView>,
) -> (SubscriptionView, Seq<WireMessageView>, bool)
    decreases events.len(),
{
    if events.len() == 0 {
        (subscription, Seq::empty(), false)
    } else {
        let (before, messages, over) = replayed_events(subscription, events.drop_last());
        let event = events.last();
        if over || event.seq <= before.cursor {
            (before, messages, over)
        } else {
            (
                SubscriptionView { cursor: event.seq, ..before },
                messages.push(event_message(before.subscription_id, event)),
                is_last(event),
            )
        }
    }
}

/// Replaying a page.
pub open spec fn replayed(subscription: SubscriptionView, page: ReadOutputResponseView) -> (
    SubscriptionView,
    Seq<WireMessageView>,
    ReplayStatus,
) {
    let (after, messages, over) = replayed_events(subscription, page.events);
    (
        after,
        messages,
        if over {
            ReplayStatus::Closed
        } else if page.has_more {
            ReplayStatus::Again
        } else if model::terminal(page.execution.state) && after.cursor >= page.execution.last_seq {
            ReplayStatus::Closed
        } else {
            ReplayStatus::Live
        },
    )
}

/// The views of a list of messages.
pub open spec fn message_views(messages: Seq<WireMessage>) -> Seq<WireMessageView> {
    messages.map_values(|item: WireMessage| item@)
}

/// What is done about a live event.
#[derive(Debug)]
pub enum LiveStep {
    /// Nothing.
    Ignore,
    /// It is sent on, and where it is the last one the subscription is over.
    Send { message: WireMessage, last: bool },
    /// Events were missed, and are replayed from the store.
    Replay,
}

/// The subscription after a live event, and what is sent for it: the next event
/// and no other.
pub open spec fn sent_live(before: SubscriptionView, event: ExecutionEventView) -> (
    SubscriptionView,
    Seq<WireMessageView>,
) {
    if event.execution_id == before.execution_id && event.seq == before.cursor + 1 {
        (
            SubscriptionView { cursor: event.seq, ..before },
            seq![event_message(before.subscription_id, event)],
        )
    } else {
        (before, Seq::empty())
    }
}

impl Subscription {
    /// Turns a page into messages.
    pub fn replay_page(&mut self, page: &ReadOutputResponse) -> (replay: (
        Vec<WireMessage>,
        ReplayStatus,
    ))
        ensures
            (final(self)@, message_views(replay.0@), replay.1) == replayed(old(self)@, page@),
    {
        let ghost start = self@;
        let ghost all = page@.events;
        let mut messages: Vec<WireMessage> = Vec::new();
        let mut over = false;
        let mut i: usize = 0;
        assert(all.take(0) =~= Seq::empty());
        assert(message_views(messages@) =~= Seq::empty());
        while i < page.events.len()
            invariant
                i <= page.events.len(),
                all == page@.events,
                all.len() == page.events.len(),
                (self@, message_views(messages@), over) == replayed_events(
                    start,
                    all.take(i as int),
                ),
            decreases page.events.len() - i,
        {
            let event = &page.events[i];
            proof {
                assert(all[i as int] == event@);
                assert(all.take(i + 1).drop_last() =~= all.take(i as int));
                assert(all.take(i + 1).last() == event@);
            }
            if !over && event.seq > self.cursor {
                let ghost before = message_views(messages@);
                self.cursor = event.seq;
                over = ends(event);
                let message = WireMessage::event(self.subscription_id.clone(), event.clone());
                messages.push(message);
                assert(message_views(messages@) =~= before.push(message@));
            }
            i += 1;
        }
        assert(all.take(i as int) =~= all);
        let status = if over {
            ReplayStatus::Closed
        } else if page.has_more {
            ReplayStatus::Again
        } else if page.execution.state.is_terminal() && self.cursor >= page.execution.last_seq {
            ReplayStatus::Closed
        } else {
            ReplayStatus::Live
        };
        (messages, status)
    }

    /// Decides about an event that has just happened: the next one is sent on,
    /// older ones and those of other executions are ignored, and where events
    /// were missed they are replayed.
    pub fn live_event(&mut self, event: ExecutionEvent) -> (step: LiveStep)
        ensures
            final(self)@ == sent_live(old(self)@, event@).0,
            ({
                let before = old(self)@;
                if event@.execution_id != before.execution_id || event@.seq <= before.cursor {
                    step is Ignore
                } else if event@.seq == before.cursor + 1 {
                    &&& step matches LiveStep::Send { message, last }
                    &&& seq![message@] == sent_live(before, event@).1
                    &&& last == is_last(event@)
                } else {
                    step is Replay
                }
            }),
    {
        if !same_text(event.execution_id.as_str(), self.execution_id.as_str()) || event.seq
            <= self.cursor {
            return LiveStep::Ignore;
        }
        if event.seq - 1 == self.cursor {
            self.cursor = event.seq;
            let last = ends(&event);
            LiveStep::Send {
                message: WireMessage::event(self.subscription_id.clone(), event),
                last,
            }
        } else {
            LiveStep::Replay
        }
    }

    /// What a frame from a subscriber means: a subscriber has nothing more to
    /// say. `None` stands for a connection that is closed or broken.
    pub fn incoming_frame(&self, frame: Option<()>) -> (outcome: Result<(), Error>)
        ensures
            error::outcome_view(outcome, |u: ()| u) == (match frame {
                None => Ok(()),
                Some(_) => Err(
                    ErrorView::Protocol(
                        "subscription connections do not accept additional requests"@,
                    ),
                ),
            }),
    {
        match frame {
            None => Ok(()),
            Some(_) => Err(
                Error::Protocol(
                    "subscription connections do not accept additional requests".to_owned(),
                ),
            ),
        }
    }
}

/// A page that was read from the cursor on is sent on from the next event,
/// without a gap: the messages carry the events one after the other, the cursor
/// is the number of the last one sent, and the event that ends the execution
/// is followed by no other.
pub proof fn replaying_leaves_no_gap(
    subscription: SubscriptionView,
    row: ExecutionRowView,
    max_bytes: usize,
    now: i64,
)
    requires
        subscription.cursor <= row.events.len(),
        row.events.len() <= i64::MAX,
    ensures
        ({
            let page = reading::page_of(row, subscription.cursor, max_bytes, now);
            let (after, messages, status) = replayed(subscription, page);
            &&& after.cursor == subscription.cursor + messages.len()
            &&& messages.len() <= page.events.len()
            &&& status != ReplayStatus::Closed ==> messages.len() == page.events.len()
            &&& forall|k: int|
                0 <= k < messages.len() ==> #[trigger] messages[k] == event_message(
                    subscription.subscription_id,
                    page.events[k],
                ) && page.events[k].seq == subscription.cursor + k + 1 && (is_last(page.events[k])
                    ==> k == messages.len() - 1 && status == ReplayStatus::Closed)
        }),
{
    let page = reading::page_of(row, subscription.cursor, max_bytes, now);
    crate::store::laws::a_page_continues_the_reading(row, subscription.cursor, max_bytes, now);
    replayed_prefix(subscription, page.events, page.events.len() as int);
    assert(page.events.take(page.events.len() as int) =~= page.events);
}

proof fn replayed_prefix(
    subscription: SubscriptionView,
    events: Seq<ExecutionEventView>,
    count: int,
)
    requires
        0 <= count <= events.len(),
        forall|k: int|
            0 <= k < events.len() ==> (#[trigger] events[k]).seq == subscription.cursor + k + 1,
    ensures
        ({
            let (after, messages, over) = replayed_events(subscription, events.take(count));
            &&& after.subscription_id == subscription.subscription_id
            &&& after.cursor == subscription.cursor + messages.len()
            &&& messages.len() <= count
            &&& !over ==> messages.len() == count
            &&& forall|k: int|
                0 <= k < messages.len() ==> #[trigger] messages[k] == event_message(
                    subscription.subscription_id,
                    events[k],
                ) && (is_last(events[k]) ==> over && k == messages.len() - 1)
        }),
    decreases count,
{
    if count > 0 {
        replayed_prefix(subscription, events, count - 1);
        assert(events.take(count).drop_last() =~= events.take(count - 1));
        assert(events.take(count).last() == events[count - 1]);
    } else {
        assert(events.take(count) =~= Seq::empty());
    }
}

/// Replaying moves the cursor of a subscription and nothing else.
pub proof fn replaying_keeps_the_subscription(
    subscription: SubscriptionView,
    events: Seq<ExecutionEventView>,
)
    ensures
        ({
            let after = replayed_events(subscription, events).0;
            after == (SubscriptionView { cursor: after.cursor, ..subscription })
        }),
    decreases events.len(),
{
    if events.len() > 0 {
        replaying_keeps_the_subscription(subscription, events.drop_last());
    }
}

/// The directory that holds a file, as components: none for a root and for no
/// path at all.
pub open spec fn parent_parts(path: Seq<char>) -> Option<Seq<Seq<char>>> {
    let parts = paths::components(path);
    if parts.len() == 0 || parts.last() == "/"@ {
        None
    } else {
        Some(parts.drop_last())
    }
}

/// The directory that holds a file.
pub fn parent_of(path: &str) -> (parent: Option<Vec<String>>)
    ensures
        (match parent {
            Some(parts) => Some(text::texts(parts@)),
            None => None,
        }) == parent_parts(path@),
{
    let mut parts = path_components(path);
    let ghost all = paths::components(path@);
    assert(all.len() == parts.len());
    if parts.len() == 0 {
        return None;
    }
    assert(all.last() == parts@[parts.len() - 1]@);
    if same_text(parts[parts.len() - 1].as_str(), "/") {
        return None;
    }
    let _ = parts.pop();
    assert(text::texts(parts@) =~= all.drop_last());
    Some(parts)
}

/// Whether the last part of a directory is the name `name`.
pub open spec fn named(parts: Seq<Seq<char>>, name: Seq<char>) -> bool {
    parts.len() > 0 && parts.last() != "/"@ && parts.last() != ".."@ && parts.last() != "."@
        && parts.last() == name
}

/// What is wrong with where a session keeps its files, if anything: they share
/// a directory of their own below the directory for sessions, which has the
/// name of the session.
pub open spec fn artifact_fault(
    sessions_dir: Seq<char>,
    session_id: Seq<char>,
    cast_path: Seq<char>,
    html_path: Seq<char>,
) -> Option<ErrorView> {
    match parent_parts(cast_path) {
        None => Some(error::refused("cast_path has no parent"@)),
        Some(directory) => if directory == paths::components(sessions_dir) || !paths::components(
            sessions_dir,
        ).is_prefix_of(directory) || parent_parts(html_path) != Some(directory) || !named(
            directory,
            session_id,
        ) {
            Some(
                error::refused(
                    "session artifacts must share a private directory under the Loomterm state directory"@,
                ),
            )
        } else {
            None
        },
    }
}

/// Refuses a session that would keep its files elsewhere than in a directory
/// of its own.
pub fn validate_session_paths(
    sessions_dir: &str,
    session_id: &str,
    cast_path: &str,
    html_path: &str,
) -> (checked: Result<(), Error>)
    ensures
        error::outcome_view(checked, |u: ()| u) == crate::model::verdict(
            artifact_fault(sessions_dir@, session_id@, cast_path@, html_path@),
        ),
{
    let directory = match parent_of(cast_path) {
        Some(directory) => directory,
        None => {
            return Err(Error::InvalidRequest("cast_path has no parent".to_owned()));
        },
    };
    let ghost dir = text::texts(directory@);
    let base = path_components(sessions_dir);
    let ghost top = text::texts(base@);
    let below_base = list_starts_with(&directory, &base);
    proof {
        if top.is_prefix_of(dir) && dir.len() == top.len() {
            assert(dir =~= dir.subrange(0, top.len() as int));
        }
        if dir == top {
            assert(dir.subrange(0, top.len() as int) =~= dir);
        }
    }
    let own = below_base && directory.len() != base.len();
    assert(own == (top.is_prefix_of(dir) && dir != top));
    let shared = match parent_of(html_path) {
        Some(other) => {
            let ghost o = text::texts(other@);
            let same = other.len() == directory.len() && list_starts_with(&other, &directory);
            proof {
                if same {
                    assert(o =~= o.subrange(0, dir.len() as int));
                }
                if o == dir {
                    assert(o.subrange(0, dir.len() as int) =~= dir);
                }
            }
            same
        },
        None => false,
    };
    let matching_name = directory.len() > 0 && {
        let last = &directory[directory.len() - 1];
        assert(dir.last() == last@);
        !same_text(last.as_str(), "/") && !same_text(last.as_str(), "..") && !same_text(
            last.as_str(),
            ".",
        ) && same_text(last.as_str(), session_id)
    };
    if !own || !shared || !matching_name {
        return Err(
            Error::InvalidRequest(
                "session artifacts must share a private directory under the Loomterm state directory".to_owned(),
            ),
        );
    }
    Ok(())
}

/// How a recording is ended whose recorder is gone: `captured` is what its
/// file holds, where that could be read.
pub fn abandoned(session: &AgentSession, captured: Option<u64>) -> (finish: AgentSessionFinish)
    ensures
        finish@ == (AgentSessionFinishView {
            state: AgentSessionState::Interrupted,
            outcome: ExecutionOutcomeView::Interrupted {
                reason: "session recorder exited before finalization"@,
            },
            captured_bytes: match captured {
                Some(bytes) => bytes,
                None => session@.captured_bytes,
            },
            output_truncated: session@.output_truncated,
        }),
{
    AgentSessionFinish {
        state: AgentSessionState::Interrupted,
        outcome: ExecutionOutcome::Interrupted {
            reason: "session recorder exited before finalization".to_owned(),
        },
        captured_bytes: match captured {
            Some(bytes) => bytes,
            None => session.captured_bytes,
        },
        output_truncated: session.output_truncated,
    }
}

/// The bytes of output in one event of a recording; nothing where the line is
/// no such event.
pub open spec fn line_bytes(event: JsonTree) -> Option<int> {
    match event {
        JsonTree::List(items) => Some(
            if items.len() > 1 && items[1] == JsonTree::Text("o"@) {
                if items.len() > 2 && items[2] is Text {
                    vstd::utf8::encode_utf8(items[2]->Text_0).len() as int
                } else {
                    0
                }
            } else {
                0
            },
        ),
        _ => None,
    }
}

/// The bytes of output in some lines of a recording, held at the largest
/// number that is counted to; nothing where one of them is no event.
pub open spec fn recorded_bytes(lines: Seq<Seq<char>>) -> Option<int>
    decreases lines.len(),
{
    if lines.len() == 0 {
        Some(0)
    } else {
        match recorded_bytes(lines.drop_last()) {
            None => None,
            Some(before) => match json::json_reading(lines.last()) {
                Err(message) => None,
                Ok(event) => match line_bytes(event) {
                    None => None,
                    Some(bytes) => Some(
                        if before + bytes > u64::MAX {
                            u64::MAX as int
                        } else {
                            before + bytes
                        },
                    ),
                },
            },
        }
    }
}

/// Counts the bytes of output in one event of a recording.
pub fn event_bytes(event: &Json) -> (bytes: Option<u64>)
    ensures
        (match bytes {
            Some(bytes) => Some(bytes as int),
            None => None,
        }) == line_bytes(event@),
{
    proof {
        json::tree_parts(*event);
    }
    match event {
        Json::List(items) => {
            let ghost all = json::trees(items@);
            assert(all.len() == items.len());
            if items.len() > 1 {
                assert(all[1] == items@[1]@);
                match &items[1] {
                    Json::Text(kind) => {
                        if same_text(kind.as_str(), "o") && items.len() > 2 {
                            assert(all[2] == items@[2]@);
                            match &items[2] {
                                Json::Text(text) => {
                                    return Some(text.as_str().as_bytes().len() as u64);
                                },
                                _ => {},
                            }
                        }
                    },
                    _ => {},
                }
            }
            Some(0)
        },
        _ => None,
    }
}

/// Counts the bytes of output in a recording: its first line is a header, and
/// every other line an event.
pub fn cast_output_bytes(lines: &Vec<String>) -> (bytes: Option<u64>)
    ensures
        (match bytes {
            Some(bytes) => Some(bytes as int),
            None => None,
        }) == recorded_bytes(
            if lines.len() > 0 {
                text::texts(lines@).drop_first()
            } else {
                Seq::empty()
            },
        ),
{
    let ghost all = text::texts(lines@);
    if lines.len() == 0 {
        return Some(0);
    }
    let ghost body = all.drop_first();
    let mut total: u64 = 0;
    let mut i: usize = 1;
    assert(body.take(0) =~= Seq::empty());
    while i < lines.len()
        invariant
            1 <= i <= lines.len(),
            all == text::texts(lines@),
            body == all.drop_first(),
            recorded_bytes(body.take(i - 1)) == Some(total as int),
        decreases lines.len() - i,
    {
        proof {
            assert(body.take(i as int).drop_last() =~= body.take(i - 1));
            assert(body.take(i as int).last() == lines@[i as int]@);
        }
        match read_json(lines[i].as_str()) {
            Err(_) => {
                proof {
                    unread_spreads(body, i as int);
                }
                return None;
            },
            Ok(event) => match event_bytes(&event) {
                None => {
                    proof {
                        unread_spreads(body, i as int);
                    }
                    return None;
                },
                Some(bytes) => {
                    total = total.saturating_add(bytes);
                },
            },
        }
        i += 1;
    }
    assert(body.take(i - 1) =~= body);
    Some(total)
}

proof fn unread_spreads(lines: Seq<Seq<char>>, count: int)
    requires
        0 <= count <= lines.len(),
        recorded_bytes(lines.take(count)) is None,
    ensures
        recorded_bytes(lines) is None,
    decreases lines.len() - count,
{
    if count < lines.len() {
        assert(lines.take(count + 1).drop_last() =~= lines.take(count));
        unread_spreads(lines, count + 1);
    } else {
        assert(lines.take(count) =~= lines);
    }
}

} // verus!
