//! Reading executions: lists, and the pages in which events are handed out.

use vstd::prelude::*;

use crate::error;
use crate::error::{Error, ErrorView};
use crate::model::{Execution, ExecutionEvent, ReadOutputResponse, ReadOutputResponseView};
use crate::order;
use crate::order::order_newest;
use crate::store::executions;
use crate::store::executions::{event_from_row, execution_from_row};
use crate::store::rows;
use crate::store::rows::{
    Database, DatabaseView, ExecutionRowView, StoredEvent, StoredEventView, StoredPayload,
    StoredPayloadView, WorkspaceRowView,
};
use crate::text::same_text;

verus! {

/// Whether something in the workspace `workspace_id` is asked for: everything
/// is where no workspace is named, else what belongs to the workspace that
/// goes by the name or identifier given.
pub open spec fn asked_for(
    db: DatabaseView,
    workspace_id: Seq<char>,
    filter: Option<Seq<char>>,
) -> bool {
    match filter {
        None => true,
        Some(workspace) => match rows::workspace_place(db, workspace_id) {
            Some(at) => workspace_id == workspace || db.workspaces[at].workspace.name == workspace,
            None => false,
        },
    }
}

/// The executions asked for, the newest first.
pub open spec fn executions_asked(db: DatabaseView, filter: Option<Seq<char>>) -> Seq<
    ExecutionRowView,
> {
    let rows = order::picked(
        db.executions,
        order::matching(
            db.executions.len(),
            |i: int| asked_for(db, db.executions[i].workspace_id, filter),
        ),
    );
    order::picked(rows, order::newest_first(rows.map_values(|row: ExecutionRowView| row.created_at_ms)))
}

/// The first `limit` entries of a list, or all where there are fewer.
pub open spec fn at_most<A>(list: Seq<A>, limit: int) -> Seq<A> {
    if limit < list.len() {
        list.take(limit)
    } else {
        list
    }
}

/// The view of an optional borrowed text.
pub open spec fn maybe_str(text: Option<&str>) -> Option<Seq<char>> {
    match text {
        Some(inner) => Some(inner@),
        None => None,
    }
}

/// How many bytes of output an event carries.
pub open spec fn event_size(event: StoredEventView) -> int {
    match event.payload {
        StoredPayloadView::Output { stream, data } => data.len() as int,
        StoredPayloadView::Started { pid, pgid } => 0,
        StoredPayloadView::CaptureTruncated { limit_bytes } => 0,
        StoredPayloadView::Finished { outcome } => 0,
    }
}

/// The most events that one page holds.
pub const PAGE_EVENTS: usize = 4096;

/// A count of bytes, held at the largest number a machine word takes.
pub open spec fn held(bytes: int) -> int {
    if bytes > usize::MAX {
        usize::MAX as int
    } else {
        bytes
    }
}

/// Where the page that begins at event `start` ends, when it holds the events
/// before `at` with `used` bytes between them: it takes one event in any case,
/// and then as many as fit.
pub open spec fn page_end(
    events: Seq<StoredEventView>,
    start: int,
    at: int,
    used: int,
    max_bytes: int,
) -> int
    decreases events.len() - at,
{
    if at >= events.len() || at - start >= PAGE_EVENTS {
        at
    } else if at > start && held(used + event_size(events[at])) > max_bytes {
        at
    } else {
        page_end(events, start, at + 1, held(used + event_size(events[at])), max_bytes)
    }
}

/// The place at which reading after event number `after_seq` begins. A number
/// that no event can have reads from the beginning.
pub open spec fn page_start(after_seq: u64) -> int {
    if after_seq > i64::MAX {
        0
    } else {
        after_seq as int
    }
}

/// Reading the events after number `after_seq`.
pub open spec fn page_of(
    row: ExecutionRowView,
    after_seq: u64,
    max_bytes: usize,
    now: i64,
) -> ReadOutputResponseView {
    let start = page_start(after_seq);
    let end = page_end(row.events, start, start, 0, max_bytes as int);
    let next_seq = if end > start {
        end as u64
    } else {
        after_seq
    };
    ReadOutputResponseView {
        execution: executions::execution_of(row, now),
        events: Seq::new(
            (end - start) as nat,
            |k: int| executions::event_of(row.id, (start + k + 1) as u64, row.events[start + k]),
        ),
        next_seq,
        has_more: next_seq < row.events.len() as u64,
    }
}

/// A page ends no earlier than it has come, and within the events.
pub proof fn page_end_bounds(
    events: Seq<StoredEventView>,
    start: int,
    at: int,
    used: int,
    max_bytes: int,
)
    ensures
        page_end(events, start, at, used, max_bytes) >= at,
        page_end(events, start, at, used, max_bytes) <= if at > events.len() {
            at
        } else {
            events.len() as int
        },
        at <= start + PAGE_EVENTS ==> page_end(events, start, at, used, max_bytes) <= start
            + PAGE_EVENTS,
    decreases events.len() - at,
{
    if at >= events.len() || at - start >= PAGE_EVENTS {
    } else if at > start && held(used + event_size(events[at])) > max_bytes {
    } else {
        page_end_bounds(events, start, at + 1, held(used + event_size(events[at])), max_bytes);
    }
}

fn stored_size(event: &StoredEvent) -> (size: usize)
    ensures
        size == event_size(event@),
{
    match &event.payload {
        StoredPayload::Output { stream, data } => data.len(),
        StoredPayload::Started { pid, pgid } => 0,
        StoredPayload::CaptureTruncated { limit_bytes } => 0,
        StoredPayload::Finished { outcome } => 0,
    }
}

impl Database {
    /// Whether something in the workspace `workspace_id` is asked for.
    pub fn is_asked_for(&self, workspace_id: &str, filter: Option<&str>) -> (yes: bool)
        ensures
            yes == asked_for(self@, workspace_id@, maybe_str(filter)),
    {
        match filter {
            None => true,
            Some(workspace) => {
                proof {
                    order::position_is_first(
                        self@.workspaces,
                        |row: WorkspaceRowView| row.workspace.id == workspace_id@,
                    );
                }
                match self.find_workspace(workspace_id) {
                    Some(at) => {
                        assert(self@.workspaces[at as int] == self.workspaces@[at as int]@);
                        same_text(workspace_id, workspace) || same_text(
                            self.workspaces[at].workspace.name.as_str(),
                            workspace,
                        )
                    },
                    None => false,
                }
            },
        }
    }

    /// The executions of a workspace, or of all, the newest first and at most
    /// `limit` of them.
    pub fn list_executions(&self, workspace: Option<&str>, limit: u32, now: i64) -> (list: Vec<
        Execution,
    >)
        ensures
            list@.map_values(|item: Execution| item@) == at_most(
                executions_asked(self@, maybe_str(workspace)),
                limit as int,
            ).map_values(|row: ExecutionRowView| executions::execution_of(row, now)),
    {
        let ghost filter = maybe_str(workspace);
        let ghost test = |i: int| asked_for(self@, self@.executions[i].workspace_id, filter);
        let mut found: Vec<usize> = Vec::new();
        let mut times: Vec<i64> = Vec::new();
        let mut i: usize = 0;
        assert(order::places(found@) =~= order::matching(0, test));
        while i < self.executions.len()
            invariant
                i <= self.executions.len(),
                filter == maybe_str(workspace),
                test == (|i: int| asked_for(self@, self@.executions[i].workspace_id, filter)),
                order::places(found@) == order::matching(i as nat, test),
                times.len() == found.len(),
                forall|k: int| 0 <= k < found.len() ==> #[trigger] found@[k] < i,
                forall|k: int|
                    0 <= k < found.len() ==> times@[k]
                        == self@.executions[#[trigger] found@[k] as int].created_at_ms,
            decreases self.executions.len() - i,
        {
            assert(self@.executions[i as int] == self.executions@[i as int]@);
            let ghost before = order::places(found@);
            if self.is_asked_for(self.executions[i].workspace_id.as_str(), workspace) {
                found.push(i);
                times.push(self.executions[i].created_at_ms);
                assert(order::places(found@) =~= before.push(i as int));
            }
            i += 1;
        }
        let ghost rows = order::picked(self@.executions, order::matching(self@.executions.len(), test));
        proof {
            assert(times@ =~= rows.map_values(|row: ExecutionRowView| row.created_at_ms)) by {
                assert forall|k: int| 0 <= k < times.len() implies times@[k]
                    == rows[k].created_at_ms by {
                    assert(order::places(found@)[k] == found@[k] as int);
                }
            }
        }
        let ordered = order_newest(&times);
        let ghost asked = executions_asked(self@, filter);
        proof {
            order::order_is_complete(
                times@.len(),
                crate::order::key_above(crate::order::newest_keys(times@)),
            );
            assert(asked.len() == ordered.len());
            assert(ordered.len() == order::places(ordered@).len());
            assert forall|j: int| 0 <= j < ordered.len() implies #[trigger] ordered@[j]
                < found.len() by {
                assert(order::places(ordered@)[j] == ordered@[j] as int);
            }
        }
        let mut count: usize = ordered.len();
        if (limit as u64) < (count as u64) {
            count = limit as usize;
        }
        let mut list: Vec<Execution> = Vec::new();
        let mut k: usize = 0;
        while k < count
            invariant
                k <= count <= ordered.len(),
                list.len() == k,
                ordered.len() == found.len(),
                order::places(ordered@) == order::newest_first(times@),
                asked.len() == ordered.len(),
                asked == order::picked(rows, order::places(ordered@)),
                rows == order::picked(self@.executions, order::places(found@)),
                forall|j: int| 0 <= j < ordered.len() ==> #[trigger] ordered@[j] < found.len(),
                forall|j: int| 0 <= j < found.len() ==> #[trigger] found@[j]
                    < self.executions.len(),
                forall|j: int| 0 <= j < k ==> list@[j]@ == executions::execution_of(#[trigger] asked[j], now),
            decreases count - k,
        {
            let at = found[ordered[k]];
            proof {
                assert(order::places(ordered@)[k as int] == ordered@[k as int] as int);
                assert(order::places(found@)[ordered@[k as int] as int] == at as int);
                assert(asked[k as int] == self@.executions[at as int]);
                assert(self@.executions[at as int] == self.executions@[at as int]@);
            }
            list.push(execution_from_row(&self.executions[at], now));
            k += 1;
        }
        assert(list@.map_values(|item: Execution| item@) =~= at_most(asked, limit as int).map_values(
            |row: ExecutionRowView| executions::execution_of(row, now),
        ));
        list
    }

    /// Reads the events of an execution after number `after_seq`, at most
    /// `max_bytes` of output, but one event at least where there is one.
    pub fn read_output(&self, id: &str, after_seq: u64, max_bytes: usize, now: i64) -> (page: Result<
        ReadOutputResponse,
        Error,
    >)
        ensures
            error::viewed(page) == (match rows::execution_place(self@, id@) {
                None => Err(ErrorView::ExecutionNotFound(id@)),
                Some(at) => Ok(page_of(self@.executions[at], after_seq, max_bytes, now)),
            }),
            page matches Ok(read) ==> forall|k: int|
                0 <= k < read.events.len() ==> executions::carries(
                    (#[trigger] read.events@[k])@,
                    self@.executions[rows::execution_place(self@, id@)->0].events[page_start(after_seq)
                        + k],
                ),
    {
        proof {
            order::position_is_first(self@.executions, |row: ExecutionRowView| row.id == id@);
        }
        let at = match self.find_execution(id) {
            None => {
                return Err(Error::ExecutionNotFound(id.to_owned()));
            },
            Some(at) => at,
        };
        assert(self@.executions[at as int] == self.executions@[at as int]@);
        let row = &self.executions[at];
        let ghost view = row@;
        let count: usize = row.events.len();
        assert(view.events.len() == count);
        let ghost start = page_start(after_seq);
        let mut events: Vec<ExecutionEvent> = Vec::new();
        let mut next_seq: u64 = after_seq;
        let begin: u64 = if after_seq > i64::MAX as u64 {
            0
        } else {
            after_seq
        };
        if begin < count as u64 {
            let first: usize = begin as usize;
            let mut used: usize = 0;
            let mut i: usize = first;
            let mut full = false;
            while i < count && i - first < PAGE_EVENTS && !full
                invariant
                    first <= i <= count,
                    start == first,
                    view == row@,
                    view.events.len() == count,
                    row.events.len() == count,
                    row.id@ == id@,
                    events.len() == i - first,
                    forall|k: int|
                        0 <= k < events.len() ==> (#[trigger] events@[k])@ == executions::event_of(
                            id@,
                            (start + k + 1) as u64,
                            view.events[start + k],
                        ),
                    forall|k: int|
                        0 <= k < events.len() ==> executions::carries(
                            (#[trigger] events@[k])@,
                            view.events[start + k],
                        ),
                    full ==> i == page_end(view.events, start, start, 0, max_bytes as int),
                    !full ==> page_end(view.events, start, start, 0, max_bytes as int) == page_end(
                        view.events,
                        start,
                        i as int,
                        used as int,
                        max_bytes as int,
                    ),
                decreases count - i, if full { 0int } else { 1int },
            {
                let size = stored_size(&row.events[i]);
                assert(view.events[i as int] == row.events@[i as int]@);
                let total: usize = if size > usize::MAX - used {
                    usize::MAX
                } else {
                    used + size
                };
                if i > first && total > max_bytes {
                    full = true;
                } else {
                    used = total;
                    events.push(event_from_row(id, i as u64 + 1, &row.events[i]));
                    i += 1;
                }
            }
            if i > first {
                next_seq = i as u64;
            }
        }
        proof {
            let end = page_end(view.events, start, start, 0, max_bytes as int);
            page_end_bounds(view.events, start, start, 0, max_bytes as int);
            assert(events@.map_values(|item: ExecutionEvent| item@) =~= page_of(
                view,
                after_seq,
                max_bytes,
                now,
            ).events);
        }
        Ok(
            ReadOutputResponse {
                execution: execution_from_row(row, now),
                events,
                next_seq,
                has_more: next_seq < count as u64,
            },
        )
    }
}

} // verus!
