//! What is kept of output and of sessions, and what is told of it.

use vstd::prelude::*;

use crate::codec;
use crate::error::ErrorView;
use crate::model::{
    AgentActionView, AgentSessionState, AgentTurnView, ExecutionEventPayloadView,
    ExecutionRequestView,
};
use crate::order;
use crate::promises::records;
use crate::store::capture;
use crate::store::capture::CaptureRecordView;
use crate::store::executions;
use crate::store::reading;
use crate::store::retention;
use crate::store::rows;
use crate::store::rows::{
    DatabaseView, ExecutionRowView, SessionRowView, StoredEventView, StoredPayloadView,
    WorkspaceRowView,
};
use crate::store::session_reading;
use crate::store::workspaces;

verus! {

/// An event is told as it was stored: of its execution, with its number and its
/// time, the process that started, the bytes on their stream, the limit that
/// was reached, or the outcome.
pub proof fn events_are_told_as_stored(id: Seq<char>, seq: u64, event: StoredEventView)
    ensures
        ({
            let told = executions::event_of(id, seq, event);
            &&& told.execution_id == id && told.seq == seq && told.timestamp_ms
                == event.timestamp_ms
            &&& match (event.payload, told.payload) {
                (
                    StoredPayloadView::Started { pid, pgid },
                    ExecutionEventPayloadView::Started { pid: p, pgid: g },
                ) => p == pid && g == pgid,
                (
                    StoredPayloadView::Output { stream, data },
                    ExecutionEventPayloadView::Output { stream: on, data_base64 },
                ) => on == stream && data_base64 == codec::base64_text(data),
                (
                    StoredPayloadView::CaptureTruncated { limit_bytes },
                    ExecutionEventPayloadView::CaptureTruncated { limit_bytes: limit },
                ) => limit == limit_bytes,
                (
                    StoredPayloadView::Finished { outcome },
                    ExecutionEventPayloadView::Finished { outcome: end },
                ) => end == outcome,
                _ => false,
            }
        }),
{
}

/// Output that is captured is put behind the log of its execution, on its
/// stream and with its time, and counted; that something was lost is noted in
/// the same way. Nothing else of the execution changes, and no other execution
/// does.
pub proof fn captured_output_is_put_behind(
    db: DatabaseView,
    record: CaptureRecordView,
    id: Seq<char>,
    at: int,
)
    requires
        order::first_at(db.executions, |row: ExecutionRowView| row.id == id, at),
        match record {
            CaptureRecordView::Output { execution_id, timestamp_ms, stream, data } => execution_id
                == id && db.executions[at].captured_bytes + data.len() <= i64::MAX,
            CaptureRecordView::Truncated { execution_id, timestamp_ms, limit_bytes } => execution_id
                == id,
        },
        db.executions[at].events.len() < u64::MAX,
    ensures
        capture::record_step(db, record) matches Ok((after, event)) && ({
            let row = db.executions[at];
            let new = after.executions[at];
            &&& after == (DatabaseView { executions: db.executions.update(at, new), ..db })
            &&& new.events.len() == row.events.len() + 1 && new.events.drop_last() == row.events
            &&& event == executions::event_of(id, new.events.len() as u64, new.events.last())
            &&& match record {
                CaptureRecordView::Output { execution_id, timestamp_ms, stream, data } => {
                    &&& new.events.last() == (StoredEventView {
                        timestamp_ms,
                        payload: StoredPayloadView::Output { stream, data },
                    })
                    &&& new == (ExecutionRowView {
                        events: new.events,
                        captured_bytes: (row.captured_bytes + data.len()) as u64,
                        ..row
                    })
                },
                CaptureRecordView::Truncated { execution_id, timestamp_ms, limit_bytes } => {
                    &&& new.events.last() == (StoredEventView {
                        timestamp_ms,
                        payload: StoredPayloadView::CaptureTruncated { limit_bytes },
                    })
                    &&& new == (ExecutionRowView {
                        events: new.events,
                        output_truncated: true,
                        ..row
                    })
                },
            }
        }),
{
    order::position_found(db.executions, |row: ExecutionRowView| row.id == id, at);
    let after = capture::record_step(db, record)->Ok_0.0;
    assert(after.executions[at].events.drop_last() =~= db.executions[at].events);
}

/// A batch is stored whole, with one event for each record and in its order, or
/// not at all.
pub proof fn a_batch_is_stored_whole(db: DatabaseView, batch: Seq<CaptureRecordView>)
    ensures
        match capture::append_batch_step(db, batch) {
            (after, Ok(events)) => events.len() == batch.len() && (forall|k: int|
                0 <= k < events.len() ==> (#[trigger] events[k]).execution_id == (match batch[k] {
                    CaptureRecordView::Output { execution_id, timestamp_ms, stream, data } =>
                        execution_id,
                    CaptureRecordView::Truncated { execution_id, timestamp_ms, limit_bytes } =>
                        execution_id,
                })),
            (after, Err(error)) => after == db,
        },
    decreases batch.len(),
{
    if batch.len() > 0 {
        let front = batch.drop_last();
        a_batch_is_stored_whole(db, front);
        match capture::records_step(db, front) {
            Ok((before, events)) => {
                let id = capture::record_execution(batch.last());
                order::position_is_first(
                    before.executions,
                    |row: ExecutionRowView| row.id == id,
                );
                if capture::record_step(before, batch.last()) is Ok {
                    let all = capture::records_step(db, batch)->Ok_0.1;
                    assert forall|k: int| 0 <= k < all.len() implies (
                    #[trigger] all[k]).execution_id == (match batch[k] {
                        CaptureRecordView::Output { execution_id, timestamp_ms, stream, data } =>
                            execution_id,
                        CaptureRecordView::Truncated {
                            execution_id,
                            timestamp_ms,
                            limit_bytes,
                        } => execution_id,
                    }) by {
                        if k < events.len() {
                            assert(all[k] == events[k]);
                            assert(front[k] == batch[k]);
                        }
                    }
                }
            },
            Err(error) => {},
        }
    }
}

/// A page goes on from where the reader is: its events are the next ones of the
/// log under their numbers, the reader's place moves past them, and it says
/// whether there are more. There is something on it as long as something is
/// left.
pub proof fn a_page_goes_on_from_the_reader(
    row: ExecutionRowView,
    after_seq: u64,
    max_bytes: usize,
    now: i64,
    k: int,
)
    requires
        after_seq <= row.events.len() <= i64::MAX,
    ensures
        ({
            let page = reading::page_of(row, after_seq, max_bytes, now);
            &&& page.execution == executions::execution_of(row, now)
            &&& page.next_seq == after_seq + page.events.len()
            &&& page.next_seq <= row.events.len()
            &&& page.has_more == (page.next_seq < row.events.len())
            &&& page.events.len() <= 4096
            &&& after_seq < row.events.len() ==> page.events.len() > 0
            &&& 0 <= k < page.events.len() ==> page.events[k] == executions::event_of(
                row.id,
                (after_seq + k + 1) as u64,
                row.events[after_seq + k],
            )
        }),
{
    let start = after_seq as int;
    reading::page_end_bounds(row.events, start, start, 0, max_bytes as int);
    if start < row.events.len() {
        reading::page_end_bounds(
            row.events,
            start,
            start + 1,
            reading::held(reading::event_size(row.events[start])),
            max_bytes as int,
        );
    }
}

/// A workspace that is removed is no longer registered; it stays known with its
/// name and its root, and so do all others and everything that was run.
pub proof fn removing_a_workspace_only_unregisters_it(
    db: DatabaseView,
    identifier: Seq<char>,
    at: int,
)
    requires
        order::first_at(
            db.workspaces,
            |row: WorkspaceRowView| rows::goes_by(row.workspace, identifier),
            at,
        ),
    ensures
        ({
            let (after, answer) = workspaces::remove_workspace_step(db, identifier);
            &&& answer is Ok
            &&& after == (DatabaseView { workspaces: after.workspaces, ..db })
            &&& after.workspaces.len() == db.workspaces.len()
            &&& !after.workspaces[at].active && after.workspaces[at].workspace
                == db.workspaces[at].workspace
            &&& forall|w: int|
                0 <= w < db.workspaces.len() && w != at ==> #[trigger] after.workspaces[w]
                    == db.workspaces[w]
        }),
{
    order::position_found(
        db.workspaces,
        |row: WorkspaceRowView| rows::goes_by(row.workspace, identifier),
        at,
    );
}

/// When a session is removed, what was run under it stays as it is but for the
/// session's name, and of the actions exactly those of its turns go.
pub proof fn removing_a_session_keeps_its_work(
    db: DatabaseView,
    id: Seq<char>,
    e: int,
    action: AgentActionView,
)
    requires
        session_reading::delete_session_step(db, id).1 is Ok,
        0 <= e < db.executions.len(),
    ensures
        ({
            let after = session_reading::delete_session_step(db, id).0;
            let row = db.executions[e];
            let left = after.executions[e];
            &&& row.session_id != Some(id) ==> left == row
            &&& row.session_id == Some(id) ==> left.session_id is None
                && left.initiator.session_id is None && left.initiator.kind == row.initiator.kind
                && left.initiator.name == row.initiator.name && left == (ExecutionRowView {
                session_id: None,
                initiator: left.initiator,
                ..row
            })
            &&& after.actions.contains(action) == (db.actions.contains(action)
                && !session_reading::action_under(db, action, id))
        }),
{
    let after = session_reading::delete_session_step(db, id).0;
    let keep = |i: int| !session_reading::action_under(db, db.actions[i], id);
    order::retained_is_exact(db.actions, keep, 0);
    if after.actions.contains(action) {
        let k = choose|k: int| 0 <= k < after.actions.len() && after.actions[k] == action;
        assert(order::kept_entry(db.actions, keep, 0, after.actions[k]));
    }
    if db.actions.contains(action) && !session_reading::action_under(db, action, id) {
        let i = choose|i: int| 0 <= i < db.actions.len() && db.actions[i] == action;
        assert(keep(i));
    }
}

/// Tidying up removes executions and nothing else: it says how many went, what
/// stays is as it was, and an action keeps its link as long as the execution is
/// there.
pub proof fn tidying_leaves_the_rest(
    db: DatabaseView,
    days: u64,
    bytes: u64,
    now: i64,
    a: int,
    row: ExecutionRowView,
)
    requires
        retention::prune_step(db, days, bytes, now).1 is Ok,
        0 <= a < db.actions.len(),
    ensures
        ({
            let (after, answer) = retention::prune_step(db, days, bytes, now);
            let action = db.actions[a];
            let left = after.actions[a];
            &&& answer == Ok::<int, ErrorView>(db.executions.len() - after.executions.len())
            &&& after.sessions == db.sessions && after.turns == db.turns && after.workspaces
                == db.workspaces && after.actions.len() == db.actions.len()
            &&& after.executions.contains(row) ==> db.executions.contains(row)
            &&& left == (AgentActionView { execution_id: left.execution_id, ..action })
            &&& match action.execution_id {
                None => left.execution_id is None,
                Some(id) => if exists|e: int|
                    0 <= e < after.executions.len() && (#[trigger] after.executions[e]).id == id {
                    left.execution_id == Some(id)
                } else {
                    left.execution_id is None
                },
            }
        }),
{
    let (after, answer) = retention::prune_step(db, days, bytes, now);
    let cutoff = now - days * crate::store::retention::DAY_MS;
    let keep = |i: int| retention::stays(db.executions, cutoff, bytes, i);
    order::retained_is_exact(db.executions, keep, 0);
    if after.executions.contains(row) {
        let k = choose|k: int| 0 <= k < after.executions.len() && after.executions[k] == row;
        assert(order::kept_entry(db.executions, keep, 0, after.executions[k]));
    }
    match db.actions[a].execution_id {
        Some(id) => {
            let test = |entry: ExecutionRowView| entry.id == id;
            order::position_is_first(after.executions, test);
            match order::position(after.executions, test) {
                Some(e) => {
                    assert(test(after.executions[e]));
                    assert(after.executions[e].id == id);
                },
                None => {
                    assert forall|e: int| 0 <= e < after.executions.len() implies (
                    #[trigger] after.executions[e]).id != id by {
                        assert(!test(after.executions[e]));
                    }
                },
            }
        },
        None => {},
    }
}

/// Work is started under a session that is there, belongs to the same workspace
/// and is being recorded; under any other session it is refused, and nothing
/// changes.
pub proof fn work_is_started_under_a_recording(
    db: DatabaseView,
    request: ExecutionRequestView,
    cwd: Seq<char>,
    id: Seq<char>,
    now: i64,
    session: Seq<char>,
    s: int,
)
    requires
        request.initiator.session_id == Some(session),
        order::first_at(db.sessions, |row: SessionRowView| row.id == session, s),
        records::can_be_run(request),
        rows::execution_place(db, id) is None,
        rows::workspace_place(db, request.workspace_id) is Some,
    ensures
        ({
            let (after, answer) = executions::create_execution_step(db, request, cwd, id, now);
            if db.sessions[s].state == AgentSessionState::Recording && db.sessions[s].workspace_id
                == request.workspace_id {
                answer matches Ok(execution) && execution.initiator.session_id == Some(session)
                    && after.executions.last().session_id == Some(session)
            } else {
                answer is Err && after == db
            }
        }),
{
    records::only_what_cannot_be_run_is_refused(request);
    order::position_found(db.sessions, |row: SessionRowView| row.id == session, s);
}

/// Time that has passed is what lies between the two moments, and none where
/// they are the other way round.
pub proof fn elapsed_time_is_the_difference(from: i64, to: i64, took: u64)
    requires
        call_ensures(executions::elapsed_ms, (from, to), took),
    ensures
        to <= from ==> took == 0,
        from <= to && to - from <= i64::MAX ==> took == to - from,
{
}

/// An action is of the session that its turn belongs to, and of none where its
/// turn is not there.
pub proof fn actions_belong_by_their_turns(
    db: DatabaseView,
    action: AgentActionView,
    id: Seq<char>,
    t: int,
)
    ensures
        order::first_at(db.turns, |turn: AgentTurnView| turn.id == action.turn_id, t) ==> (
        session_reading::action_under(db, action, id) == (db.turns[t].session_id == id)),
        (forall|k: int| 0 <= k < db.turns.len() ==> (#[trigger] db.turns[k]).id != action.turn_id)
            ==> !session_reading::action_under(db, action, id),
{
    let test = |turn: AgentTurnView| turn.id == action.turn_id;
    order::position_is_first(db.turns, test);
    if order::first_at(db.turns, test, t) {
        order::position_found(db.turns, test, t);
    }
}

/// The bytes of output that an event holds.
pub open spec fn output_bytes(event: StoredEventView) -> int {
    match event.payload {
        StoredPayloadView::Output { stream, data } => data.len() as int,
        _ => 0,
    }
}

/// The bytes of output in the events from one place up to another.
pub open spec fn bytes_between(events: Seq<StoredEventView>, from: int, to: int) -> int
    decreases to - from,
{
    if from >= to {
        0
    } else {
        output_bytes(events[from]) + bytes_between(events, from + 1, to)
    }
}

proof fn a_page_ends_where_it_must(
    events: Seq<StoredEventView>,
    start: int,
    at: int,
    used: int,
    max_bytes: int,
)
    requires
        0 <= start <= at <= events.len(),
        at - start <= 4096,
        0 <= used,
    ensures
        ({
            let end = reading::page_end(events, start, at, used, max_bytes);
            &&& at <= end <= events.len() && end - start <= 4096
            &&& end < events.len() && end - start < 4096 ==> used + bytes_between(events, at, end)
                + output_bytes(events[end]) > max_bytes
        }),
    decreases events.len() - at,
{
    if at < events.len() && at - start < 4096 {
        let size = reading::event_size(events[at]);
        assert(size == output_bytes(events[at]));
        if !(at > start && reading::held(used + size) > max_bytes) {
            a_page_ends_where_it_must(
                events,
                start,
                at + 1,
                reading::held(used + size),
                max_bytes,
            );
        }
    }
}

/// A page holds as much as it may: while more is left it ends only after four
/// thousand and ninety-six events, or where the next event would take it beyond
/// the size that was asked for.
pub proof fn a_page_holds_as_much_as_it_may(
    row: ExecutionRowView,
    after_seq: u64,
    max_bytes: usize,
    now: i64,
)
    requires
        after_seq <= row.events.len() <= i64::MAX,
    ensures
        ({
            let page = reading::page_of(row, after_seq, max_bytes, now);
            let next = after_seq + page.events.len();
            page.has_more && page.events.len() < 4096 ==> bytes_between(
                row.events,
                after_seq as int,
                next,
            ) + output_bytes(row.events[next]) > max_bytes
        }),
{
    a_page_ends_where_it_must(
        row.events,
        after_seq as int,
        after_seq as int,
        0,
        max_bytes as int,
    );
}

} // verus!
