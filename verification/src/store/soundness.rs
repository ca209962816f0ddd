//! What holds of every state of the store: identifiers are not given twice,
//! what one record says of another is there, and the parts of a record agree.

use vstd::prelude::*;

use crate::model;
use crate::model::{
    AgentActionView, AgentEventRequestView, AgentEventView, AgentTurnState, AgentTurnView,
    ExecutionOutcomeView, ExecutionState,
};
use crate::order;
use crate::store::capture;
use crate::store::capture::CaptureRecordView;
use crate::store::executions;
use crate::store::retention;
use crate::store::rows;
use crate::store::rows::{
    DatabaseView, ExecutionRowView, SessionRowView, StoredEventView, StoredPayloadView,
    WorkspaceRowView,
};
use crate::store::serve;
use crate::store::serve::{StoreCommand, StoreReply};
use crate::store::session_reading;
use crate::store::sessions;
use crate::store::workspaces;
use crate::text;

verus! {

/// Whether no two entries have the same key.
pub open spec fn distinct<A, K>(list: Seq<A>, key: spec_fn(A) -> K) -> bool {
    forall|i: int, j: int|
        0 <= i < j < list.len() ==> key(#[trigger] list[i]) != key(#[trigger] list[j])
}

/// Whether some entry has this key.
pub open spec fn has_key<A, K>(list: Seq<A>, key: spec_fn(A) -> K, value: K) -> bool {
    exists|k: int| 0 <= k < list.len() && key(#[trigger] list[k]) == value
}

/// Whether what the entries of one list name is there in another.
pub open spec fn refers<A, B, K>(
    list: Seq<A>,
    named: spec_fn(A) -> Option<K>,
    other: Seq<B>,
    key: spec_fn(B) -> K,
) -> bool {
    forall|i: int|
        0 <= i < list.len() ==> match named(#[trigger] list[i]) {
            Some(value) => has_key(other, key, value),
            None => true,
        }
}

/// The identifier of a workspace.
pub open spec fn workspace_id() -> spec_fn(WorkspaceRowView) -> Seq<char> {
    |row: WorkspaceRowView| row.workspace.id
}

/// The name of a workspace.
pub open spec fn workspace_name() -> spec_fn(WorkspaceRowView) -> Seq<char> {
    |row: WorkspaceRowView| row.workspace.name
}

/// The root of a workspace.
pub open spec fn workspace_root() -> spec_fn(WorkspaceRowView) -> Seq<char> {
    |row: WorkspaceRowView| row.workspace.root
}

/// The identifier of an execution.
pub open spec fn execution_id() -> spec_fn(ExecutionRowView) -> Seq<char> {
    |row: ExecutionRowView| row.id
}

/// The identifier of a session.
pub open spec fn session_id() -> spec_fn(SessionRowView) -> Seq<char> {
    |row: SessionRowView| row.id
}

/// The identifier of a turn.
pub open spec fn turn_id() -> spec_fn(AgentTurnView) -> Seq<char> {
    |turn: AgentTurnView| turn.id
}

/// The identifier of an action.
pub open spec fn action_id() -> spec_fn(AgentActionView) -> Seq<char> {
    |action: AgentActionView| action.id
}

/// The name of an action within its turn.
pub open spec fn action_name() -> spec_fn(AgentActionView) -> (Seq<char>, Seq<char>) {
    |action: AgentActionView| (action.turn_id, action.provider_action_id)
}

/// The workspace of an execution.
pub open spec fn execution_workspace() -> spec_fn(ExecutionRowView) -> Option<Seq<char>> {
    |row: ExecutionRowView| Some(row.workspace_id)
}

/// The session of an execution.
pub open spec fn execution_session() -> spec_fn(ExecutionRowView) -> Option<Seq<char>> {
    |row: ExecutionRowView| row.session_id
}

/// The workspace of a session.
pub open spec fn session_workspace() -> spec_fn(SessionRowView) -> Option<Seq<char>> {
    |row: SessionRowView| Some(row.workspace_id)
}

/// The session of a turn.
pub open spec fn turn_session() -> spec_fn(AgentTurnView) -> Option<Seq<char>> {
    |turn: AgentTurnView| Some(turn.session_id)
}

/// The turn of an action.
pub open spec fn action_turn() -> spec_fn(AgentActionView) -> Option<Seq<char>> {
    |action: AgentActionView| Some(action.turn_id)
}

/// The execution that an action ran.
pub open spec fn action_execution() -> spec_fn(AgentActionView) -> Option<Seq<char>> {
    |action: AgentActionView| action.execution_id
}

/// How many bytes of output some events hold.
pub open spec fn output_bytes(events: Seq<StoredEventView>) -> int
    decreases events.len(),
{
    if events.len() == 0 {
        0
    } else {
        output_bytes(events.drop_last()) + match events.last().payload {
            StoredPayloadView::Output { stream, data } => data.len() as int,
            _ => 0,
        }
    }
}

/// Whether some event says that output was lost.
pub open spec fn notes_loss(events: Seq<StoredEventView>) -> bool {
    exists|k: int| 0 <= k < events.len() && (#[trigger] events[k]).payload is CaptureTruncated
}

/// Whether the parts of an execution's record agree: what has ended has an end
/// and an outcome and nothing else has, what runs has started, what is queued
/// has not, the bytes that are counted are those of the events, a loss is
/// noted exactly where an event tells of it, and the session is the one that
/// asked for it.
pub open spec fn agrees(row: ExecutionRowView) -> bool {
    &&& row.outcome is Some == model::terminal(row.state)
    &&& row.ended_at_ms is Some == model::terminal(row.state)
    &&& row.state == ExecutionState::Running ==> row.started_at_ms is Some && row.pid is Some
    &&& row.state == ExecutionState::Queued ==> row.started_at_ms is None
    &&& row.captured_bytes == output_bytes(row.events)
    &&& row.output_truncated == notes_loss(row.events)
    &&& row.session_id == row.initiator.session_id
}

/// Whether the parts of every execution's record agree.
pub open spec fn all_agree(list: Seq<ExecutionRowView>) -> bool {
    forall|i: int| 0 <= i < list.len() ==> agrees(#[trigger] list[i])
}

/// Whether every workspace has a name with something in it.
pub open spec fn all_named(list: Seq<WorkspaceRowView>) -> bool {
    forall|i: int| 0 <= i < list.len() ==> !text::blank((#[trigger] list[i]).workspace.name)
}

/// Whether the store is sound.
pub open spec fn sound(db: DatabaseView) -> bool {
    &&& all_named(db.workspaces)
    &&& distinct(db.workspaces, workspace_id())
    &&& distinct(db.workspaces, workspace_name())
    &&& distinct(db.workspaces, workspace_root())
    &&& distinct(db.executions, execution_id())
    &&& distinct(db.sessions, session_id())
    &&& distinct(db.turns, turn_id())
    &&& distinct(db.actions, action_id())
    &&& distinct(db.actions, action_name())
    &&& refers(db.executions, execution_workspace(), db.workspaces, workspace_id())
    &&& refers(db.executions, execution_session(), db.sessions, session_id())
    &&& refers(db.sessions, session_workspace(), db.workspaces, workspace_id())
    &&& refers(db.turns, turn_session(), db.sessions, session_id())
    &&& refers(db.actions, action_turn(), db.turns, turn_id())
    &&& refers(db.actions, action_execution(), db.executions, execution_id())
    &&& all_agree(db.executions)
}

proof fn distinct_push<A, K>(list: Seq<A>, key: spec_fn(A) -> K, more: A)
    requires
        distinct(list, key),
        !has_key(list, key, key(more)),
    ensures
        distinct(list.push(more), key),
{
    let all = list.push(more);
    assert forall|i: int, j: int| 0 <= i < j < all.len() implies key(#[trigger] all[i]) != key(
        #[trigger] all[j],
    ) by {
        assert(all[i] == list[i]);
        if j < list.len() {
            assert(all[j] == list[j]);
        }
    }
}

proof fn distinct_same<A, K>(list: Seq<A>, other: Seq<A>, key: spec_fn(A) -> K)
    requires
        distinct(list, key),
        same_keys(list, other, key),
    ensures
        distinct(other, key),
{
    assert forall|i: int, j: int| 0 <= i < j < other.len() implies key(#[trigger] other[i]) != key(
        #[trigger] other[j],
    ) by {
        assert(key(list[i]) == key(other[i]));
        assert(key(list[j]) == key(other[j]));
    }
}

/// Whether two lists have the same keys at the same places.
spec fn same_keys<A, K>(list: Seq<A>, other: Seq<A>, key: spec_fn(A) -> K) -> bool {
    &&& list.len() == other.len()
    &&& forall|i: int| 0 <= i < list.len() ==> key(#[trigger] list[i]) == key(#[trigger] other[i])
}

/// Whether the keys of one list are among those of another.
spec fn keys_stay<A, K>(list: Seq<A>, other: Seq<A>, key: spec_fn(A) -> K) -> bool {
    forall|value: K| #[trigger] has_key(list, key, value) ==> has_key(other, key, value)
}

proof fn same_keys_stay<A, K>(list: Seq<A>, other: Seq<A>, key: spec_fn(A) -> K)
    requires
        same_keys(list, other, key),
    ensures
        keys_stay(list, other, key),
{
    assert forall|value: K| #[trigger] has_key(list, key, value) implies has_key(
        other,
        key,
        value,
    ) by {
        let k = choose|k: int| 0 <= k < list.len() && key(#[trigger] list[k]) == value;
        assert(key(other[k]) == value);
    }
}

proof fn keys_stay_push<A, K>(list: Seq<A>, key: spec_fn(A) -> K, more: A)
    ensures
        keys_stay(list, list.push(more), key),
        has_key(list.push(more), key, key(more)),
{
    let all = list.push(more);
    assert(all[list.len() as int] == more);
    assert forall|value: K| #[trigger] has_key(list, key, value) implies has_key(all, key, value) by {
        let k = choose|k: int| 0 <= k < list.len() && key(#[trigger] list[k]) == value;
        assert(key(all[k]) == value);
    }
}

proof fn refers_grown<A, B, K>(
    list: Seq<A>,
    named: spec_fn(A) -> Option<K>,
    before: Seq<B>,
    after: Seq<B>,
    key: spec_fn(B) -> K,
)
    requires
        refers(list, named, before, key),
        keys_stay(before, after, key),
    ensures
        refers(list, named, after, key),
{
    assert forall|i: int| 0 <= i < list.len() implies match named(#[trigger] list[i]) {
        Some(value) => has_key(after, key, value),
        None => true,
    } by {
        if named(list[i]) is Some {
            assert(has_key(before, key, named(list[i])->0));
        }
    }
}

proof fn refers_push<A, B, K>(
    list: Seq<A>,
    named: spec_fn(A) -> Option<K>,
    more: A,
    other: Seq<B>,
    key: spec_fn(B) -> K,
)
    requires
        refers(list, named, other, key),
        named(more) matches Some(value) ==> has_key(other, key, value),
    ensures
        refers(list.push(more), named, other, key),
{
    let all = list.push(more);
    assert forall|i: int| 0 <= i < all.len() implies match named(#[trigger] all[i]) {
        Some(value) => has_key(other, key, value),
        None => true,
    } by {
        if i < list.len() {
            assert(all[i] == list[i]);
        }
    }
}

proof fn refers_same<A, B, K>(
    list: Seq<A>,
    after: Seq<A>,
    named: spec_fn(A) -> Option<K>,
    other: Seq<B>,
    key: spec_fn(B) -> K,
)
    requires
        refers(list, named, other, key),
        same_keys(list, after, named),
    ensures
        refers(after, named, other, key),
{
    assert forall|i: int| 0 <= i < after.len() implies match named(#[trigger] after[i]) {
        Some(value) => has_key(other, key, value),
        None => true,
    } by {
        assert(named(list[i]) == named(after[i]));
    }
}

proof fn distinct_retained<A, K>(
    list: Seq<A>,
    key: spec_fn(A) -> K,
    keep: spec_fn(int) -> bool,
    from: int,
)
    requires
        distinct(list, key),
        0 <= from <= list.len(),
    ensures
        distinct(order::retained(list, keep, from), key),
    decreases list.len() - from,
{
    if from < list.len() {
        distinct_retained(list, key, keep, from + 1);
        order::retained_is_exact(list, keep, from + 1);
        let rest = order::retained(list, keep, from + 1);
        let all = order::retained(list, keep, from);
        assert forall|i: int, j: int| 0 <= i < j < all.len() implies key(#[trigger] all[i]) != key(
            #[trigger] all[j],
        ) by {
            if keep(from) {
                assert(all[j] == rest[j - 1]);
                if i > 0 {
                    assert(all[i] == rest[i - 1]);
                } else {
                    assert(all[0] == list[from]);
                    assert(order::kept_entry(list, keep, from + 1, rest[j - 1]));
                    let k = choose|k: int|
                        from + 1 <= k < list.len() && keep(k) && #[trigger] list[k] == rest[j - 1];
                    assert(key(list[from]) != key(list[k]));
                }
            }
        }
    }
}

proof fn refers_retained<A, B, K>(
    list: Seq<A>,
    named: spec_fn(A) -> Option<K>,
    keep: spec_fn(int) -> bool,
    other: Seq<B>,
    key: spec_fn(B) -> K,
)
    requires
        refers(list, named, other, key),
    ensures
        refers(order::retained(list, keep, 0), named, other, key),
{
    let left = order::retained(list, keep, 0);
    order::retained_is_exact(list, keep, 0);
    assert forall|i: int| 0 <= i < left.len() implies match named(#[trigger] left[i]) {
        Some(value) => has_key(other, key, value),
        None => true,
    } by {
        assert(order::kept_entry(list, keep, 0, left[i]));
        let k = choose|k: int| 0 <= k < list.len() && keep(k) && #[trigger] list[k] == left[i];
        assert(named(list[k]) == named(left[i]));
    }
}

proof fn place_means_key<A, K>(list: Seq<A>, key: spec_fn(A) -> K, value: K, test: spec_fn(A) -> bool)
    requires
        forall|entry: A| #[trigger] test(entry) == (key(entry) == value),
    ensures
        order::position(list, test) is Some == has_key(list, key, value),
{
    order::position_is_first(list, test);
    if has_key(list, key, value) {
        let k = choose|k: int| 0 <= k < list.len() && key(#[trigger] list[k]) == value;
        assert(test(list[k]));
        order::position_exists(list, test, k);
    }
    if order::position(list, test) is Some {
        let at = order::position(list, test)->0;
        assert(test(list[at]));
    }
}

/// An empty store is sound.
pub proof fn an_empty_store_is_sound()
    ensures
        sound(
            DatabaseView {
                workspaces: Seq::empty(),
                executions: Seq::empty(),
                sessions: Seq::empty(),
                turns: Seq::empty(),
                actions: Seq::empty(),
            },
        ),
{
}

/// A change of the executions that keeps their identifiers, workspaces and
/// sessions keeps the store sound where their records still agree.
proof fn executions_changed(db: DatabaseView, list: Seq<ExecutionRowView>)
    requires
        sound(db),
        same_keys(db.executions, list, execution_id()),
        same_keys(db.executions, list, execution_workspace()),
        same_keys(db.executions, list, execution_session()),
        all_agree(list),
    ensures
        sound(DatabaseView { executions: list, ..db }),
{
    distinct_same(db.executions, list, execution_id());
    same_keys_stay(db.executions, list, execution_id());
    refers_same(db.executions, list, execution_workspace(), db.workspaces, workspace_id());
    refers_same(db.executions, list, execution_session(), db.sessions, session_id());
    refers_grown(db.actions, action_execution(), db.executions, list, execution_id());
}

proof fn execution_replaced(db: DatabaseView, at: int, row: ExecutionRowView)
    requires
        sound(db),
        0 <= at < db.executions.len(),
        row.id == db.executions[at].id,
        row.workspace_id == db.executions[at].workspace_id,
        row.session_id == db.executions[at].session_id,
        agrees(row),
    ensures
        sound(executions::with_execution(db, at, row)),
{
    let list = db.executions.update(at, row);
    assert forall|i: int| 0 <= i < list.len() implies agrees(#[trigger] list[i]) by {
        if i != at {
            assert(list[i] == db.executions[i]);
        }
    }
    executions_changed(db, list);
}

/// One more event that holds no output and tells of no loss changes neither
/// the bytes nor the loss that the events tell of.
proof fn plain_event(events: Seq<StoredEventView>, event: StoredEventView)
    requires
        !(event.payload is Output),
        !(event.payload is CaptureTruncated),
    ensures
        output_bytes(events.push(event)) == output_bytes(events),
        notes_loss(events.push(event)) == notes_loss(events),
{
    let all = events.push(event);
    assert(all.drop_last() =~= events);
    if notes_loss(events) {
        let k = choose|k: int|
            0 <= k < events.len() && (#[trigger] events[k]).payload is CaptureTruncated;
        assert(all[k].payload is CaptureTruncated);
    }
    if notes_loss(all) {
        let k = choose|k: int|
            0 <= k < all.len() && (#[trigger] all[k]).payload is CaptureTruncated;
        assert(events[k] == all[k]);
    }
}

proof fn ended_agrees(
    row: ExecutionRowView,
    state: ExecutionState,
    outcome: ExecutionOutcomeView,
    now: i64,
)
    requires
        agrees(row),
        model::terminal(state),
    ensures
        agrees(executions::ended_row(row, state, outcome, now)),
{
    plain_event(
        row.events,
        StoredEventView { timestamp_ms: now, payload: StoredPayloadView::Finished { outcome } },
    );
}

proof fn record_keeps_sound(db: DatabaseView, record: CaptureRecordView)
    requires
        sound(db),
    ensures
        capture::record_step(db, record) matches Ok((after, event)) ==> sound(after),
{
    let id = capture::record_execution(record);
    order::position_is_first(db.executions, |row: ExecutionRowView| row.id == id);
    if capture::record_step(db, record) is Ok {
        let at = rows::execution_place(db, id)->0;
        let row = db.executions[at];
        let next = capture::recorded_row(row, record);
        let all = next.events;
        assert(agrees(row));
        assert(all.drop_last() =~= row.events);
        if notes_loss(row.events) {
            let k = choose|k: int|
                0 <= k < row.events.len() && (#[trigger] row.events[k]).payload
                    is CaptureTruncated;
            assert(all[k].payload is CaptureTruncated);
        }
        match record {
            CaptureRecordView::Output { execution_id, timestamp_ms, stream, data } => {
                if notes_loss(all) {
                    let k = choose|k: int|
                        0 <= k < all.len() && (#[trigger] all[k]).payload is CaptureTruncated;
                    assert(row.events[k] == all[k]);
                }
            },
            CaptureRecordView::Truncated { execution_id, timestamp_ms, limit_bytes } => {
                assert(all[all.len() - 1].payload is CaptureTruncated);
            },
        }
        execution_replaced(db, at, next);
    }
}

proof fn records_keep_sound(db: DatabaseView, records: Seq<CaptureRecordView>)
    requires
        sound(db),
    ensures
        capture::records_step(db, records) matches Ok((after, events)) ==> sound(after),
    decreases records.len(),
{
    if records.len() > 0 {
        records_keep_sound(db, records.drop_last());
        if capture::records_step(db, records) is Ok {
            let middle = capture::records_step(db, records.drop_last())->Ok_0.0;
            record_keeps_sound(middle, records.last());
        }
    }
}

proof fn active_change_keeps_sound(db: DatabaseView, at: int, active: bool)
    requires
        sound(db),
        0 <= at < db.workspaces.len(),
    ensures
        sound(workspaces::with_active(db, at, active)),
{
    let list = workspaces::with_active(db, at, active).workspaces;
    assert forall|i: int| 0 <= i < list.len() implies !text::blank(
        (#[trigger] list[i]).workspace.name,
    ) by {
        assert(list[i].workspace == db.workspaces[i].workspace);
    }
    distinct_same(db.workspaces, list, workspace_id());
    distinct_same(db.workspaces, list, workspace_name());
    distinct_same(db.workspaces, list, workspace_root());
    same_keys_stay(db.workspaces, list, workspace_id());
    refers_grown(db.executions, execution_workspace(), db.workspaces, list, workspace_id());
    refers_grown(db.sessions, session_workspace(), db.workspaces, list, workspace_id());
}

proof fn adding_keeps_sound(
    db: DatabaseView,
    name: Seq<char>,
    root: Seq<char>,
    is_directory: bool,
    id: Seq<char>,
    now: i64,
)
    requires
        sound(db),
    ensures
        sound(workspaces::add_workspace_step(db, name, root, is_directory, id, now).0),
{
    let roots = |row: WorkspaceRowView| row.workspace.root == root;
    let names = |row: WorkspaceRowView| row.workspace.name == name;
    let ids = |row: WorkspaceRowView| row.workspace.id == id;
    order::position_is_first(db.workspaces, roots);
    place_means_key(db.workspaces, workspace_root(), root, roots);
    place_means_key(db.workspaces, workspace_name(), name, names);
    place_means_key(db.workspaces, workspace_id(), id, ids);
    let (after, answer) = workspaces::add_workspace_step(db, name, root, is_directory, id, now);
    if answer is Ok {
        match rows::root_place(db, root) {
            Some(at) => active_change_keeps_sound(db, at, true),
            None => {
                let more = after.workspaces.last();
                assert(after.workspaces =~= db.workspaces.push(more));
                distinct_push(db.workspaces, workspace_id(), more);
                distinct_push(db.workspaces, workspace_name(), more);
                distinct_push(db.workspaces, workspace_root(), more);
                keys_stay_push(db.workspaces, workspace_id(), more);
                refers_grown(
                    db.executions,
                    execution_workspace(),
                    db.workspaces,
                    after.workspaces,
                    workspace_id(),
                );
                refers_grown(
                    db.sessions,
                    session_workspace(),
                    db.workspaces,
                    after.workspaces,
                    workspace_id(),
                );
            },
        }
    }
}

proof fn creating_keeps_sound(
    db: DatabaseView,
    request: crate::model::ExecutionRequestView,
    cwd: Seq<char>,
    id: Seq<char>,
    now: i64,
)
    requires
        sound(db),
    ensures
        sound(executions::create_execution_step(db, request, cwd, id, now).0),
{
    place_means_key(
        db.executions,
        execution_id(),
        id,
        |row: ExecutionRowView| row.id == id,
    );
    place_means_key(
        db.workspaces,
        workspace_id(),
        request.workspace_id,
        |row: WorkspaceRowView| row.workspace.id == request.workspace_id,
    );
    if request.initiator.session_id is Some {
        let wanted = request.initiator.session_id->0;
        place_means_key(
            db.sessions,
            session_id(),
            wanted,
            |row: SessionRowView| row.id == wanted,
        );
    }
    let (after, answer) = executions::create_execution_step(db, request, cwd, id, now);
    if answer is Ok {
        let more = executions::queued_row(request, cwd, id, now);
        assert(agrees(more));
        assert forall|i: int| 0 <= i < after.executions.len() implies agrees(
            #[trigger] after.executions[i],
        ) by {
            if i < db.executions.len() {
                assert(after.executions[i] == db.executions[i]);
            }
        }
        distinct_push(db.executions, execution_id(), more);
        keys_stay_push(db.executions, execution_id(), more);
        refers_push(db.executions, execution_workspace(), more, db.workspaces, workspace_id());
        refers_push(db.executions, execution_session(), more, db.sessions, session_id());
        refers_grown(
            db.actions,
            action_execution(),
            db.executions,
            after.executions,
            execution_id(),
        );
    }
}

proof fn recording_keeps_sound(
    db: DatabaseView,
    request: crate::model::AgentSessionRequestView,
    cwd: Seq<char>,
    now: i64,
)
    requires
        sound(db),
    ensures
        sound(sessions::create_session_step(db, request, cwd, now).0),
{
    place_means_key(
        db.sessions,
        session_id(),
        request.id,
        |row: SessionRowView| row.id == request.id,
    );
    let known = |row: WorkspaceRowView|
        row.active && rows::goes_by(row.workspace, request.workspace_id);
    order::position_is_first(db.workspaces, known);
    let (after, answer) = sessions::create_session_step(db, request, cwd, now);
    if answer is Ok {
        let at = rows::registered_place(db, request.workspace_id)->0;
        let more = after.sessions.last();
        assert(after.sessions =~= db.sessions.push(more));
        assert(workspace_id()(db.workspaces[at]) == more.workspace_id);
        assert(has_key(db.workspaces, workspace_id(), more.workspace_id));
        distinct_push(db.sessions, session_id(), more);
        keys_stay_push(db.sessions, session_id(), more);
        refers_push(db.sessions, session_workspace(), more, db.workspaces, workspace_id());
        refers_grown(
            db.executions,
            execution_session(),
            db.sessions,
            after.sessions,
            session_id(),
        );
        refers_grown(db.turns, turn_session(), db.sessions, after.sessions, session_id());
    }
}

/// A change of the turns that keeps their identifiers and sessions keeps the
/// store sound.
proof fn turns_changed(db: DatabaseView, list: Seq<AgentTurnView>)
    requires
        sound(db),
        same_keys(db.turns, list, turn_id()),
        same_keys(db.turns, list, turn_session()),
    ensures
        sound(DatabaseView { turns: list, ..db }),
{
    distinct_same(db.turns, list, turn_id());
    same_keys_stay(db.turns, list, turn_id());
    refers_same(db.turns, list, turn_session(), db.sessions, session_id());
    refers_grown(db.actions, action_turn(), db.turns, list, turn_id());
}

proof fn finishing_keeps_sound(
    db: DatabaseView,
    id: Seq<char>,
    finish: crate::model::AgentSessionFinishView,
    now: i64,
)
    requires
        sound(db),
    ensures
        sound(sessions::finish_session_step(db, id, finish, now).0),
{
    order::position_is_first(db.sessions, |row: SessionRowView| row.id == id);
    let after = sessions::finish_session_step(db, id, finish, now).0;
    assert(same_keys(db.sessions, after.sessions, session_id()));
    assert(same_keys(db.sessions, after.sessions, session_workspace()));
    let middle = DatabaseView { sessions: after.sessions, ..db };
    distinct_same(db.sessions, after.sessions, session_id());
    same_keys_stay(db.sessions, after.sessions, session_id());
    refers_same(
        db.sessions,
        after.sessions,
        session_workspace(),
        db.workspaces,
        workspace_id(),
    );
    refers_grown(db.executions, execution_session(), db.sessions, after.sessions, session_id());
    refers_grown(db.turns, turn_session(), db.sessions, after.sessions, session_id());
    assert(sound(middle));
    turns_changed(middle, after.turns);
    assert(after =~= (DatabaseView { turns: after.turns, ..middle }));
}

proof fn deleting_keeps_sound(db: DatabaseView, id: Seq<char>)
    requires
        sound(db),
    ensures
        sound(session_reading::delete_session_step(db, id).0),
{
    let (after, answer) = session_reading::delete_session_step(db, id);
    if answer is Ok {
        let others = |i: int| db.sessions[i].id != id;
        let elsewhere = |i: int| db.turns[i].session_id != id;
        let apart = |i: int| !session_reading::action_under(db, db.actions[i], id);
        order::retained_is_exact(db.sessions, others, 0);
        order::retained_is_exact(db.turns, elsewhere, 0);
        order::retained_is_exact(db.actions, apart, 0);
        distinct_retained(db.sessions, session_id(), others, 0);
        distinct_retained(db.turns, turn_id(), elsewhere, 0);
        distinct_retained(db.actions, action_id(), apart, 0);
        distinct_retained(db.actions, action_name(), apart, 0);
        distinct_same(db.executions, after.executions, execution_id());
        same_keys_stay(db.executions, after.executions, execution_id());
        refers_same(
            db.executions,
            after.executions,
            execution_workspace(),
            db.workspaces,
            workspace_id(),
        );
        refers_retained(
            db.sessions,
            session_workspace(),
            others,
            db.workspaces,
            workspace_id(),
        );
        assert forall|value: Seq<char>|
            #[trigger] has_key(db.sessions, session_id(), value) && value != id implies has_key(
            after.sessions,
            session_id(),
            value,
        ) by {
            let k = choose|k: int|
                0 <= k < db.sessions.len() && session_id()(#[trigger] db.sessions[k]) == value;
            assert(others(k));
            assert(after.sessions.contains(db.sessions[k]));
            let m = choose|m: int|
                0 <= m < after.sessions.len() && after.sessions[m] == db.sessions[k];
            assert(session_id()(after.sessions[m]) == value);
        }
        assert forall|i: int| 0 <= i < after.executions.len() implies match execution_session()(
            #[trigger] after.executions[i],
        ) {
            Some(value) => has_key(after.sessions, session_id(), value),
            None => true,
        } by {
            let row = db.executions[i];
            assert(after.executions[i] == session_reading::released(row, id));
            if row.session_id is Some && row.session_id != Some(id) {
                assert(execution_session()(row) == row.session_id);
                assert(has_key(db.sessions, session_id(), row.session_id->0));
            }
        }
        assert forall|i: int| 0 <= i < after.turns.len() implies match turn_session()(
            #[trigger] after.turns[i],
        ) {
            Some(value) => has_key(after.sessions, session_id(), value),
            None => true,
        } by {
            assert(order::kept_entry(
                db.turns,
                elsewhere,
                0,
                order::retained(db.turns, elsewhere, 0)[i],
            ));
            let k = choose|k: int|
                0 <= k < db.turns.len() && elsewhere(k) && #[trigger] db.turns[k]
                    == after.turns[i];
            assert(turn_session()(db.turns[k]) == Some(db.turns[k].session_id));
            assert(has_key(db.sessions, session_id(), db.turns[k].session_id));
        }
        assert forall|i: int| 0 <= i < after.actions.len() implies match action_turn()(
            #[trigger] after.actions[i],
        ) {
            Some(value) => has_key(after.turns, turn_id(), value),
            None => true,
        } by {
            assert(order::kept_entry(
                db.actions,
                apart,
                0,
                order::retained(db.actions, apart, 0)[i],
            ));
            let k = choose|k: int|
                0 <= k < db.actions.len() && apart(k) && #[trigger] db.actions[k]
                    == after.actions[i];
            let wanted = db.actions[k].turn_id;
            let test = |turn: AgentTurnView| turn.id == wanted;
            assert(action_turn()(db.actions[k]) == Some(wanted));
            assert(has_key(db.turns, turn_id(), wanted));
            place_means_key(db.turns, turn_id(), wanted, test);
            order::position_is_first(db.turns, test);
            let at = order::position(db.turns, test)->0;
            assert(elsewhere(at));
            assert(after.turns.contains(db.turns[at]));
            let m = choose|m: int|
                0 <= m < after.turns.len() && after.turns[m] == db.turns[at];
            assert(turn_id()(after.turns[m]) == wanted);
        }
        refers_retained(
            db.actions,
            action_execution(),
            apart,
            db.executions,
            execution_id(),
        );
        refers_grown(
            after.actions,
            action_execution(),
            db.executions,
            after.executions,
            execution_id(),
        );
        assert forall|i: int| 0 <= i < after.executions.len() implies agrees(
            #[trigger] after.executions[i],
        ) by {
            assert(agrees(db.executions[i]));
        }
    }
}

proof fn pruning_keeps_sound(
    db: DatabaseView,
    retention_days: u64,
    retention_bytes: u64,
    now: i64,
)
    requires
        sound(db),
    ensures
        sound(retention::prune_step(db, retention_days, retention_bytes, now).0),
{
    let (after, answer) = retention::prune_step(db, retention_days, retention_bytes, now);
    if answer is Ok {
        let list = db.executions;
        let cutoff = now - retention_days * retention::DAY_MS;
        let keep = |i: int| retention::stays(list, cutoff, retention_bytes, i);
        order::retained_is_exact(list, keep, 0);
        distinct_retained(list, execution_id(), keep, 0);
        refers_retained(list, execution_workspace(), keep, db.workspaces, workspace_id());
        refers_retained(list, execution_session(), keep, db.sessions, session_id());
        distinct_same(db.actions, after.actions, action_id());
        distinct_same(db.actions, after.actions, action_name());
        refers_same(db.actions, after.actions, action_turn(), db.turns, turn_id());
        assert forall|i: int| 0 <= i < after.actions.len() implies match action_execution()(
            #[trigger] after.actions[i],
        ) {
            Some(value) => has_key(after.executions, execution_id(), value),
            None => true,
        } by {
            if db.actions[i].execution_id is Some {
                let wanted = db.actions[i].execution_id->0;
                place_means_key(
                    after.executions,
                    execution_id(),
                    wanted,
                    |row: ExecutionRowView| row.id == wanted,
                );
            }
        }
        assert forall|i: int| 0 <= i < after.executions.len() implies agrees(
            #[trigger] after.executions[i],
        ) by {
            assert(order::kept_entry(list, keep, 0, order::retained(list, keep, 0)[i]));
            let k = choose|k: int|
                0 <= k < list.len() && keep(k) && #[trigger] list[k] == after.executions[i];
            assert(agrees(list[k]));
        }
    }
}

proof fn inserting_a_turn_keeps_sound(
    db: DatabaseView,
    request: AgentEventRequestView,
    prompt: Seq<char>,
    id: Seq<char>,
    now: i64,
)
    requires
        sound(db),
        has_key(db.sessions, session_id(), request.session_id),
    ensures
        ({
            let (after, answer) = sessions::insert_turn(db, request, prompt, id, now);
            &&& sound(after)
            &&& after.sessions == db.sessions
            &&& after.executions == db.executions
            &&& answer matches Ok(at) ==> 0 <= at < after.turns.len()
        }),
{
    place_means_key(db.turns, turn_id(), id, |turn: AgentTurnView| turn.id == id);
    let (after, answer) = sessions::insert_turn(db, request, prompt, id, now);
    if answer is Ok {
        let more = sessions::fresh_turn(request, prompt, id, now);
        distinct_push(db.turns, turn_id(), more);
        keys_stay_push(db.turns, turn_id(), more);
        refers_push(db.turns, turn_session(), more, db.sessions, session_id());
        refers_grown(db.actions, action_turn(), db.turns, after.turns, turn_id());
    }
}

proof fn active_turn_bounds(turns: Seq<AgentTurnView>, request: AgentEventRequestView)
    ensures
        sessions::active_turn(turns, request) matches Some(at) ==> 0 <= at < turns.len(),
    decreases turns.len(),
{
    if turns.len() > 0 {
        active_turn_bounds(turns.drop_last(), request);
    }
}

proof fn a_turn_is_found(
    db: DatabaseView,
    request: AgentEventRequestView,
    id: Seq<char>,
    now: i64,
)
    requires
        sound(db),
        has_key(db.sessions, session_id(), request.session_id),
    ensures
        ({
            let (after, answer) = sessions::turn_for(db, request, id, now);
            &&& sound(after)
            &&& after.executions == db.executions
            &&& answer matches Ok(at) ==> 0 <= at < after.turns.len()
        }),
{
    inserting_a_turn_keeps_sound(db, request, Seq::empty(), id, now);
    active_turn_bounds(db.turns, request);
    named_turn_bounds(db, request);
}

proof fn named_turn_bounds(db: DatabaseView, request: AgentEventRequestView)
    ensures
        sessions::named_turn(db, request) matches Some(at) ==> 0 <= at < db.turns.len(),
{
    if request.provider_turn_id is Some {
        let id = request.provider_turn_id->0;
        order::position_is_first(
            db.turns,
            |turn: AgentTurnView|
                sessions::same_thread(turn, request) && turn.provider_turn_id == Some(id),
        );
    }
}

proof fn putting_an_action_keeps_sound(
    db: DatabaseView,
    fresh: AgentActionView,
    renewed: spec_fn(AgentActionView) -> AgentActionView,
)
    requires
        sound(db),
        has_key(db.turns, turn_id(), fresh.turn_id),
        fresh.execution_id matches Some(id) ==> has_key(db.executions, execution_id(), id),
        forall|action: AgentActionView|
            #![trigger renewed(action)]
            renewed(action).id == action.id && renewed(action).turn_id == action.turn_id
                && renewed(action).provider_action_id == action.provider_action_id && (
            renewed(action).execution_id == action.execution_id || renewed(action).execution_id
                == fresh.execution_id),
    ensures
        sound(sessions::put_action(db, fresh, renewed).0),
{
    let same = |action: AgentActionView|
        action.turn_id == fresh.turn_id && action.provider_action_id == fresh.provider_action_id;
    let taken = |action: AgentActionView| action.id == fresh.id;
    order::position_is_first(db.actions, same);
    place_means_key(
        db.actions,
        action_name(),
        (fresh.turn_id, fresh.provider_action_id),
        same,
    );
    place_means_key(db.actions, action_id(), fresh.id, taken);
    let (after, fault) = sessions::put_action(db, fresh, renewed);
    match sessions::action_place(db, fresh.turn_id, fresh.provider_action_id) {
        Some(at) => {
            let next = renewed(db.actions[at]);
            assert(after.actions == db.actions.update(at, next));
            distinct_same(db.actions, after.actions, action_id());
            distinct_same(db.actions, after.actions, action_name());
            refers_same(db.actions, after.actions, action_turn(), db.turns, turn_id());
            assert forall|i: int| 0 <= i < after.actions.len() implies match action_execution()(
                #[trigger] after.actions[i],
            ) {
                Some(value) => has_key(after.executions, execution_id(), value),
                None => true,
            } by {
                assert(action_execution()(db.actions[i]) == db.actions[i].execution_id);
            }
        },
        None => {
            if fault is None {
                distinct_push(db.actions, action_id(), fresh);
                distinct_push(db.actions, action_name(), fresh);
                refers_push(db.actions, action_turn(), fresh, db.turns, turn_id());
                refers_push(
                    db.actions,
                    action_execution(),
                    fresh,
                    db.executions,
                    execution_id(),
                );
            }
        },
    }
}

proof fn an_event_keeps_sound(
    db: DatabaseView,
    request: AgentEventRequestView,
    turn: Seq<char>,
    action: Seq<char>,
    now: i64,
)
    requires
        sound(db),
    ensures
        sound(sessions::record_event_step(db, request, turn, action, now).0),
{
    place_means_key(
        db.sessions,
        session_id(),
        request.session_id,
        |row: SessionRowView| row.id == request.session_id,
    );
    if model::agent_event_fault(request) is None && has_key(
        db.sessions,
        session_id(),
        request.session_id,
    ) {
        match request.event {
            AgentEventView::PromptSubmitted { prompt } => {
                let cut = DatabaseView {
                    turns: sessions::superseded(db.turns, request, now),
                    ..db
                };
                turns_changed(db, cut.turns);
                inserting_a_turn_keeps_sound(cut, request, prompt, turn, now);
                named_turn_bounds(cut, request);
                match sessions::named_turn(cut, request) {
                    Some(at) => {
                        let next = AgentTurnView {
                            state: AgentTurnState::Active,
                            prompt,
                            ended_at_ms: None,
                            last_assistant_message: None,
                            ..cut.turns[at]
                        };
                        turns_changed(cut, cut.turns.update(at, next));
                    },
                    None => {},
                }
            },
            AgentEventView::ToolStarted { action_id: named, tool_name } => {
                a_turn_is_found(db, request, turn, now);
                let (after, answer) = sessions::turn_for(db, request, turn, now);
                if answer is Ok {
                    let at = answer->Ok_0;
                    let fresh = AgentActionView {
                        id: action,
                        turn_id: after.turns[at].id,
                        provider_action_id: named,
                        tool_name,
                        state: crate::model::AgentActionState::Running,
                        execution_id: None,
                        created_at_ms: now,
                        ended_at_ms: None,
                    };
                    assert(turn_id()(after.turns[at]) == fresh.turn_id);
                    putting_an_action_keeps_sound(after, fresh, sessions::restarted(tool_name));
                }
            },
            AgentEventView::ToolFinished { action_id: named, tool_name, failed, execution_id: ran } => {
                a_turn_is_found(db, request, turn, now);
                let (after, answer) = sessions::turn_for(db, request, turn, now);
                if answer is Ok {
                    let at = answer->Ok_0;
                    let linked = sessions::linked_execution(after, ran, request.session_id);
                    let state = sessions::ended_action(failed);
                    let fresh = AgentActionView {
                        id: action,
                        turn_id: after.turns[at].id,
                        provider_action_id: named,
                        tool_name,
                        state,
                        execution_id: linked,
                        created_at_ms: now,
                        ended_at_ms: Some(now),
                    };
                    assert(turn_id()(after.turns[at]) == fresh.turn_id);
                    if linked is Some {
                        let id = linked->0;
                        let test = |row: ExecutionRowView|
                            row.id == id && row.session_id == Some(request.session_id);
                        order::position_is_first(after.executions, test);
                        let place = order::position(after.executions, test)->0;
                        assert(execution_id()(after.executions[place]) == id);
                    }
                    putting_an_action_keeps_sound(
                        after,
                        fresh,
                        sessions::completed(tool_name, state, linked, now),
                    );
                }
            },
            AgentEventView::TurnFinished { failed, last_assistant_message } => {
                a_turn_is_found(db, request, turn, now);
                let (after, answer) = sessions::turn_for(db, request, turn, now);
                if answer is Ok {
                    let at = answer->Ok_0;
                    let next = sessions::ended_turn(
                        after.turns[at],
                        failed,
                        last_assistant_message,
                        now,
                    );
                    turns_changed(after, after.turns.update(at, next));
                }
            },
        }
    }
}

/// Whether a command that ends an execution ends it: the state that it asks
/// for is one in which an execution has ended.
pub open spec fn ends_for_good(command: StoreCommand) -> bool {
    command matches StoreCommand::Finish { id, state, outcome } ==> model::terminal(state)
}

/// Whatever the store is asked, it stays sound.
pub proof fn serving_keeps_the_store_sound(
    db: DatabaseView,
    command: StoreCommand,
    now: i64,
    first: Seq<char>,
    second: Seq<char>,
    after: DatabaseView,
    reply: StoreReply,
)
    requires
        sound(db),
        ends_for_good(command),
        serve::served(db, command, now, first, second, after, reply),
    ensures
        sound(after),
{
    match command {
        StoreCommand::AddWorkspace { name, root, is_directory } => {
            adding_keeps_sound(db, name@, root@, is_directory, first, now);
        },
        StoreCommand::RemoveWorkspace { identifier } => {
            order::position_is_first(
                db.workspaces,
                |row: WorkspaceRowView| rows::goes_by(row.workspace, identifier@),
            );
            match rows::known_place(db, identifier@) {
                Some(at) => active_change_keeps_sound(db, at, false),
                None => {},
            }
        },
        StoreCommand::CreateExecution { request, cwd } => {
            creating_keeps_sound(db, request@, cwd@, first, now);
        },
        StoreCommand::MarkRunning { id, pid, pgid } => {
            order::position_is_first(db.executions, |row: ExecutionRowView| row.id == id@);
            match rows::execution_place(db, id@) {
                Some(at) => {
                    let row = db.executions[at];
                    assert(agrees(row));
                    if row.state == ExecutionState::Queued {
                        plain_event(
                            row.events,
                            StoredEventView {
                                timestamp_ms: now,
                                payload: StoredPayloadView::Started { pid, pgid },
                            },
                        );
                        execution_replaced(db, at, executions::running_row(row, pid, pgid, now));
                    }
                },
                None => {},
            }
        },
        StoreCommand::AppendCaptureBatch { records } => {
            records_keep_sound(db, capture::record_views(records@));
        },
        StoreCommand::Finish { id, state, outcome } => {
            order::position_is_first(db.executions, |row: ExecutionRowView| row.id == id@);
            match rows::execution_place(db, id@) {
                Some(at) => {
                    let row = db.executions[at];
                    assert(agrees(row));
                    ended_agrees(row, state, outcome@, now);
                    execution_replaced(db, at, executions::ended_row(row, state, outcome@, now));
                },
                None => {},
            }
        },
        StoreCommand::CreateAgentSession { request, cwd } => {
            recording_keeps_sound(db, request@, cwd@, now);
        },
        StoreCommand::FinishAgentSession { id, finish } => {
            finishing_keeps_sound(db, id@, finish@, now);
        },
        StoreCommand::DeleteAgentSession { id } => {
            deleting_keeps_sound(db, id@);
        },
        StoreCommand::RecordAgentEvent { request } => {
            an_event_keeps_sound(db, request@, first, second, now);
        },
        StoreCommand::ReconcileIncomplete => {
            assert forall|i: int| 0 <= i < after.executions.len() implies agrees(
                #[trigger] after.executions[i],
            ) by {
                let row = db.executions[i];
                assert(agrees(row));
                ended_agrees(row, ExecutionState::Interrupted, retention::cut_off(), now);
            }
            executions_changed(db, after.executions);
        },
        StoreCommand::CancelQueued => {
            assert forall|i: int| 0 <= i < after.executions.len() implies agrees(
                #[trigger] after.executions[i],
            ) by {
                let row = db.executions[i];
                assert(agrees(row));
                ended_agrees(
                    row,
                    ExecutionState::Cancelled,
                    ExecutionOutcomeView::Cancelled { signal: None },
                    now,
                );
            }
            executions_changed(db, after.executions);
        },
        StoreCommand::Prune { retention_days, retention_bytes } => {
            pruning_keeps_sound(db, retention_days, retention_bytes, now);
        },
        _ => {},
    }
}

/// How far an execution has come.
pub open spec fn stage(state: ExecutionState) -> int {
    match state {
        ExecutionState::Queued => 0,
        ExecutionState::Running => 1,
        _ => 2,
    }
}

/// Whether no execution has gone back.
pub open spec fn none_went_back(before: DatabaseView, after: DatabaseView) -> bool {
    &&& before.executions.len() <= after.executions.len()
    &&& forall|i: int|
        0 <= i < before.executions.len() ==> stage(before.executions[i].state) <= stage(
            (#[trigger] after.executions[i]).state,
        )
}

proof fn records_keep_states(db: DatabaseView, records: Seq<CaptureRecordView>)
    ensures
        capture::records_step(db, records) matches Ok((after, events)) ==> none_went_back(db, after),
    decreases records.len(),
{
    if records.len() > 0 {
        records_keep_states(db, records.drop_last());
        if capture::records_step(db, records) is Ok {
            let middle = capture::records_step(db, records.drop_last())->Ok_0.0;
            let after = capture::records_step(db, records)->Ok_0.0;
            let id = capture::record_execution(records.last());
            order::position_is_first(middle.executions, |row: ExecutionRowView| row.id == id);
            assert forall|i: int| 0 <= i < db.executions.len() implies stage(
                db.executions[i].state,
            ) <= stage((#[trigger] after.executions[i]).state) by {
                assert(after.executions[i].state == middle.executions[i].state);
            }
        }
    }
}

/// An execution goes from queued to running and from there to its end, and
/// never back.
pub proof fn executions_move_forward(
    db: DatabaseView,
    command: StoreCommand,
    now: i64,
    first: Seq<char>,
    second: Seq<char>,
    after: DatabaseView,
    reply: StoreReply,
)
    requires
        ends_for_good(command),
        !(command is Prune),
        serve::served(db, command, now, first, second, after, reply),
    ensures
        none_went_back(db, after),
{
    match command {
        StoreCommand::MarkRunning { id, pid, pgid } => {
            order::position_is_first(db.executions, |row: ExecutionRowView| row.id == id@);
        },
        StoreCommand::Finish { id, state, outcome } => {
            order::position_is_first(db.executions, |row: ExecutionRowView| row.id == id@);
        },
        StoreCommand::AppendCaptureBatch { records } => {
            records_keep_states(db, capture::record_views(records@));
        },
        StoreCommand::RecordAgentEvent { request } => {
            assert(after.executions == db.executions);
        },
        _ => {},
    }
}

/// The runs of the executor ask for no other endings: what it finishes ends.
pub proof fn runs_end_for_good(
    run: crate::executor::RunView,
    input: crate::executor::RunInputView,
    now: i64,
)
    ensures
        crate::executor::run_on(run, input, now).1 matches
            crate::executor::RunActionView::Finish { state, outcome } ==> model::terminal(state),
{
}

} // verus!
