//! Where recordings lie, what goes with them, and what they hold.

use vstd::prelude::*;

use crate::daemon;
use crate::daemon::{ReplayStatus, SubscriptionView};
use crate::dispatch;
use crate::error::ErrorView;
use crate::json;
use crate::json::JsonTree;
use crate::model::{
    AgentSessionState, ExecutionEventPayloadView, ExecutionEventView, ExecutionState,
    ReadOutputResponseView,
};
use crate::order;
use crate::paths;
use crate::promises::places;
use crate::protocol::{
    ProtocolResultView, ResponseBodyView, SubscriptionResponseView, WireMessageView,
};
use crate::store::executions;
use crate::store::rows::{DatabaseView, ExecutionRowView, SessionRowView};

verus! {

/// Whether a text can be the name of one file.
pub open spec fn plain_name(name: Seq<char>) -> bool {
    &&& name.len() > 0
    &&& !name.contains('/')
    &&& name != seq!['.'] && name != seq!['.', '.']
}

proof fn one_stretch(name: Seq<char>)
    requires
        !name.contains('/'),
    ensures
        paths::segments(name) == seq![name],
    decreases name.len(),
{
    if name.len() == 0 {
        assert(name =~= Seq::empty());
    } else {
        let front = name.drop_last();
        assert forall|i: int| 0 <= i < front.len() implies front[i] != '/' by {
            assert(name.contains(name[i]));
        }
        one_stretch(front);
        assert(name.contains(name.last()));
        assert(front.push(name.last()) =~= name);
        assert(paths::segments(name) =~= seq![name]);
    }
}

proof fn one_component(name: Seq<char>)
    requires
        plain_name(name),
    ensures
        !paths::rooted(name),
        paths::components(name) == seq![name],
        places::going_on(name) == seq![name],
{
    one_stretch(name);
    assert(name.contains(name[0]));
    let list = seq![name];
    assert(list.drop_last() =~= Seq::empty());
    reveal_with_fuel(paths::counting, 2);
    assert(paths::components(name) =~= seq![name]);
}

/// A file in a directory has that directory as its parent, and its own name.
pub proof fn a_file_lies_in_its_directory(directory: Seq<char>, name: Seq<char>)
    requires
        directory.len() > 0,
        plain_name(name),
    ensures
        daemon::parent_parts(paths::joined_path(directory, name)) == Some(
            paths::components(directory),
        ),
        paths::last_name(paths::joined_path(directory, name)) == Some(name),
{
    one_component(name);
    places::a_joined_path_goes_on(directory, name);
    let parts = paths::components(paths::joined_path(directory, name));
    assert(parts =~= paths::components(directory).push(name));
    assert(parts.drop_last() =~= paths::components(directory));
    reveal_strlit("/");
    reveal_strlit(".");
    reveal_strlit("..");
    assert("/"@ =~= seq!['/']);
    assert("."@ =~= seq!['.']);
    assert(".."@ =~= seq!['.', '.']);
    assert(seq!['/'].contains('/')) by {
        assert(seq!['/'][0] == '/');
    }
}

/// A session may keep its files in the directory of its own that is named after
/// it below the directory for sessions, whatever the files are called.
pub proof fn a_directory_of_its_own_is_accepted(
    sessions_dir: Seq<char>,
    session_id: Seq<char>,
    cast: Seq<char>,
    html: Seq<char>,
)
    requires
        sessions_dir.len() > 0,
        plain_name(session_id) && plain_name(cast) && plain_name(html),
    ensures
        ({
            let own = paths::joined_path(sessions_dir, session_id);
            daemon::artifact_fault(
                sessions_dir,
                session_id,
                paths::joined_path(own, cast),
                paths::joined_path(own, html),
            ) is None
        }),
{
    let own = paths::joined_path(sessions_dir, session_id);
    one_component(session_id);
    places::a_joined_path_goes_on(sessions_dir, session_id);
    a_file_lies_in_its_directory(sessions_dir, session_id);
    a_file_lies_in_its_directory(own, cast);
    a_file_lies_in_its_directory(own, html);
    let base = paths::components(sessions_dir);
    let parts = paths::components(own);
    assert(parts =~= base.push(session_id));
    reveal_strlit("/");
    reveal_strlit(".");
    reveal_strlit("..");
    assert("/"@ =~= seq!['/']);
    assert("."@ =~= seq!['.']);
    assert(".."@ =~= seq!['.', '.']);
    assert(seq!['/'].contains('/')) by {
        assert(seq!['/'][0] == '/');
    }
}

/// Nowhere else may a session keep its files: both lie in one directory, that
/// directory lies below the directory for sessions and is not that directory,
/// and it is named after the session.
pub proof fn files_lie_in_a_directory_of_their_own(
    sessions_dir: Seq<char>,
    session_id: Seq<char>,
    cast_path: Seq<char>,
    html_path: Seq<char>,
)
    requires
        daemon::artifact_fault(sessions_dir, session_id, cast_path, html_path) is None,
    ensures
        ({
            let base = paths::components(sessions_dir);
            let cast = paths::components(cast_path);
            let html = paths::components(html_path);
            &&& cast.drop_last() == html.drop_last()
            &&& cast.len() >= base.len() + 2 && cast.take(base.len() as int) == base
            &&& cast[cast.len() - 2] == session_id
            &&& paths::below(cast_path, sessions_dir) && paths::below(html_path, sessions_dir)
        }),
{
    let base = paths::components(sessions_dir);
    let cast = paths::components(cast_path);
    let html = paths::components(html_path);
    let own = cast.drop_last();
    assert(base.len() <= own.len());
    assert(base.len() < own.len()) by {
        if base.len() == own.len() {
            assert(base =~= own);
        }
    }
    assert(own.last() == cast[cast.len() - 2]);
    assert(cast.take(base.len() as int) =~= base) by {
        assert(base == own.subrange(0, base.len() as int));
    }
    assert(cast.subrange(0, base.len() as int) =~= base);
    assert(html.subrange(0, base.len() as int) =~= base) by {
        assert forall|i: int| 0 <= i < base.len() implies html[i] == base[i] by {
            assert(html.drop_last()[i] == html[i]);
            assert(own[i] == cast[i]);
            assert(own.subrange(0, base.len() as int)[i] == own[i]);
        }
    }
}

/// Removing a session takes its files only where they lie below the directory
/// for sessions, and only once it has ended. A session that is not there is not
/// removed.
pub proof fn only_its_own_files_go(
    db: DatabaseView,
    session_id: Seq<char>,
    sessions_dir: Seq<char>,
)
    ensures
        match dispatch::deletion(db, session_id, sessions_dir) {
            Ok(files) => exists|s: int|
                {
                    &&& 0 <= s < db.sessions.len()
                    &&& (#[trigger] db.sessions[s]).id == session_id
                    &&& db.sessions[s].state != AgentSessionState::Recording
                    &&& files matches Some(path) ==> path == db.sessions[s].cast_path
                        && paths::below(path, sessions_dir)
                },
            Err(error) => if error is AgentSessionNotFound {
                forall|s: int|
                    0 <= s < db.sessions.len() ==> (#[trigger] db.sessions[s]).id != session_id
            } else {
                exists|s: int|
                    0 <= s < db.sessions.len() && (#[trigger] db.sessions[s]).id == session_id
                        && db.sessions[s].state == AgentSessionState::Recording
            },
        },
{
    let test = |row: SessionRowView| row.id == session_id;
    order::position_is_first(db.sessions, test);
    match crate::store::rows::session_place(db, session_id) {
        Some(s) => {
            assert(test(db.sessions[s]));
            assert(db.sessions[s].id == session_id);
            let path = db.sessions[s].cast_path;
            let base = paths::components(sessions_dir);
            let parts = paths::components(path);
            if dispatch::deletion(db, session_id, sessions_dir) == Ok::<
                Option<Seq<char>>,
                ErrorView,
            >(Some(path)) {
                assert(base == parts.drop_last().subrange(0, base.len() as int));
                assert(parts.subrange(0, base.len() as int) =~= base);
            }
        },
        None => {
            assert forall|s: int| 0 <= s < db.sessions.len() implies (
            #[trigger] db.sessions[s]).id != session_id by {
                assert(!test(db.sessions[s]));
            }
        },
    }
}

/// A line of a recording that says what was put out adds the bytes of its text
/// to what the recording holds, any other event adds nothing, and a line that
/// is no event makes the count impossible.
pub proof fn recorded_output_is_counted(
    lines: Seq<Seq<char>>,
    line: Seq<char>,
    event: JsonTree,
    time: JsonTree,
    data: Seq<char>,
    kind: Seq<char>,
)
    requires
        json::json_reading(line) == Ok::<JsonTree, Seq<char>>(event),
        daemon::recorded_bytes(lines) matches Some(before) && before + vstd::utf8::encode_utf8(
            data,
        ).len() <= u64::MAX,
    ensures
        event == JsonTree::List(seq![time, JsonTree::Text("o"@), JsonTree::Text(data)])
            ==> daemon::recorded_bytes(lines.push(line)) == Some(
            daemon::recorded_bytes(lines)->0 + vstd::utf8::encode_utf8(data).len(),
        ),
        event == JsonTree::List(seq![time, JsonTree::Text(kind), JsonTree::Text(data)]) && kind
            != "o"@ ==> daemon::recorded_bytes(lines.push(line)) == Some(
            daemon::recorded_bytes(lines)->0,
        ),
        !(event is List) ==> daemon::recorded_bytes(lines.push(line)) is None,
{
    assert(lines.push(line).drop_last() =~= lines);
    counted_within_bounds(lines);
}

proof fn counted_within_bounds(lines: Seq<Seq<char>>)
    ensures
        daemon::recorded_bytes(lines) matches Some(bytes) ==> 0 <= bytes <= u64::MAX,
    decreases lines.len(),
{
    if lines.len() > 0 {
        counted_within_bounds(lines.drop_last());
    }
}

/// A subscription is opened for an execution that is there, from any place up
/// to its last event, and what is told at its opening is the execution and that
/// place; else nothing is opened and the one who asked is told of a failure.
pub proof fn a_subscription_begins_where_asked(
    db: DatabaseView,
    subscription_id: Seq<char>,
    execution_id: Seq<char>,
    after_seq: u64,
    now: i64,
    at: int,
)
    requires
        order::first_at(db.executions, |row: ExecutionRowView| row.id == execution_id, at),
    ensures
        ({
            let (message, opened) = daemon::subscription_opened(
                db,
                subscription_id,
                execution_id,
                after_seq,
                now,
            );
            let execution = executions::execution_of(db.executions[at], now);
            match message {
                WireMessageView::Response { version, request_id, body } => {
                    &&& version == 2 && request_id == subscription_id
                    &&& if after_seq <= execution.last_seq {
                        &&& body == (ResponseBodyView::Success {
                            result: ProtocolResultView::Subscription(
                                SubscriptionResponseView { execution, next_seq: after_seq },
                            ),
                        })
                        &&& opened matches Some(subscription) && subscription.subscription_id
                            == subscription_id && subscription.execution_id == execution_id
                            && subscription.cursor == after_seq
                    } else {
                        body is Error && opened is None
                    }
                },
                _ => false,
            }
        }),
{
    order::position_found(db.executions, |row: ExecutionRowView| row.id == execution_id, at);
}

/// After a page was replayed there is more to replay exactly while the page
/// says so and the execution's end was not on it. The subscription is over once
/// the end was sent, or the execution has ended and all of it was sent; else
/// what comes next comes live.
pub proof fn a_replay_goes_on_while_there_is_more(
    subscription: SubscriptionView,
    page: ReadOutputResponseView,
)
    ensures
        ({
            let (after, messages, status) = daemon::replayed(subscription, page);
            let over = daemon::replayed_events(subscription, page.events).2;
            let ended = page.execution.state != ExecutionState::Queued && page.execution.state
                != ExecutionState::Running;
            &&& (status == ReplayStatus::Again) == (!over && page.has_more)
            &&& (status == ReplayStatus::Closed) == (over || (!page.has_more && ended
                && after.cursor >= page.execution.last_seq))
        }),
{
}

/// The end of an execution is what is told as its last event, and nothing else
/// is.
pub proof fn the_end_is_the_last_event(event: ExecutionEventView)
    ensures
        daemon::is_last(event) == (match event.payload {
            ExecutionEventPayloadView::Finished { outcome } => true,
            _ => false,
        }),
{
}

} // verus!
