//! Captured output: records are appended in batches, and a batch is stored as
//! a whole or not at all.

use vstd::prelude::*;

use crate::error;
use crate::error::{Error, ErrorView};
use crate::model::{ExecutionEvent, ExecutionEventView, OutputStream};
use crate::order;
use crate::store::executions;
use crate::store::executions::event_from_row;
use crate::store::rows;
use crate::store::rows::{
    Database, DatabaseView, ExecutionRowView, StoredEvent, StoredPayload, StoredPayloadView,
};
use crate::text::clone_bytes;

verus! {

/// One record of captured output: bytes that came, or the note that no more
/// are kept.
#[derive(Debug)]
pub enum CaptureRecord {
    Output { execution_id: String, timestamp_ms: i64, stream: OutputStream, data: Vec<u8> },
    Truncated { execution_id: String, timestamp_ms: i64, limit_bytes: u64 },
}

/// What a `CaptureRecord` holds.
#[verifier::ext_equal]
pub enum CaptureRecordView {
    Output { execution_id: Seq<char>, timestamp_ms: i64, stream: OutputStream, data: Seq<u8> },
    Truncated { execution_id: Seq<char>, timestamp_ms: i64, limit_bytes: u64 },
}

impl View for CaptureRecord {
    type V = CaptureRecordView;

    open spec fn view(&self) -> CaptureRecordView {
        match *self {
            CaptureRecord::Output {
                execution_id,
                timestamp_ms,
                stream,
                data,
            } => CaptureRecordView::Output {
                execution_id: execution_id@,
                timestamp_ms,
                stream,
                data: data@,
            },
            CaptureRecord::Truncated {
                execution_id,
                timestamp_ms,
                limit_bytes,
            } => CaptureRecordView::Truncated {
                execution_id: execution_id@,
                timestamp_ms,
                limit_bytes,
            },
        }
    }
}

impl Clone for CaptureRecord {
    fn clone(&self) -> (copy: Self)
        ensures
            copy@ == self@,
    {
        match self {
            CaptureRecord::Output {
                execution_id,
                timestamp_ms,
                stream,
                data,
            } => CaptureRecord::Output {
                execution_id: execution_id.clone(),
                timestamp_ms: *timestamp_ms,
                stream: *stream,
                data: clone_bytes(data),
            },
            CaptureRecord::Truncated {
                execution_id,
                timestamp_ms,
                limit_bytes,
            } => CaptureRecord::Truncated {
                execution_id: execution_id.clone(),
                timestamp_ms: *timestamp_ms,
                limit_bytes: *limit_bytes,
            },
        }
    }
}

/// Copies a list of `CaptureRecord` values.
pub fn clone_capture_record_list(list: &Vec<CaptureRecord>) -> (copy: Vec<CaptureRecord>)
    ensures
        copy@.map_values(|item: CaptureRecord| item@) == list@.map_values(|item: CaptureRecord| item@),
{
    let mut copy: Vec<CaptureRecord> = Vec::new();
    let mut i: usize = 0;
    while i < list.len()
        invariant
            i <= list.len(),
            copy.len() == i,
            forall|k: int| 0 <= k < i ==> copy@[k]@ == list@[k]@,
        decreases list.len() - i,
    {
        copy.push(list[i].clone());
        i += 1;
    }
    assert(copy@.map_values(|item: CaptureRecord| item@) =~= list@.map_values(|item: CaptureRecord| item@));
    copy
}

/// The execution that a record belongs to.
pub open spec fn record_execution(record: CaptureRecordView) -> Seq<char> {
    match record {
        CaptureRecordView::Output { execution_id, timestamp_ms, stream, data } => execution_id,
        CaptureRecordView::Truncated { execution_id, timestamp_ms, limit_bytes } => execution_id,
    }
}

/// The row of an execution with one record appended. Output adds to the count
/// of captured bytes; a truncation is noted on the execution.
pub open spec fn recorded_row(row: ExecutionRowView, record: CaptureRecordView) -> ExecutionRowView {
    match record {
        CaptureRecordView::Output { execution_id, timestamp_ms, stream, data } => executions::with_event(
            ExecutionRowView {
                captured_bytes: (row.captured_bytes + data.len()) as u64,
                ..row
            },
            timestamp_ms,
            StoredPayloadView::Output { stream, data },
        ),
        CaptureRecordView::Truncated { execution_id, timestamp_ms, limit_bytes } => executions::with_event(
            ExecutionRowView { output_truncated: true, ..row },
            timestamp_ms,
            StoredPayloadView::CaptureTruncated { limit_bytes },
        ),
    }
}

/// Whether the count of captured bytes can take the record.
pub open spec fn record_fits(row: ExecutionRowView, record: CaptureRecordView) -> bool {
    match record {
        CaptureRecordView::Output { execution_id, timestamp_ms, stream, data } =>
            row.captured_bytes + data.len() <= i64::MAX,
        CaptureRecordView::Truncated { execution_id, timestamp_ms, limit_bytes } => true,
    }
}

/// Appending one record.
pub open spec fn record_step(db: DatabaseView, record: CaptureRecordView) -> Result<
    (DatabaseView, ExecutionEventView),
    ErrorView,
> {
    match rows::execution_place(db, record_execution(record)) {
        None => Err(ErrorView::ExecutionNotFound(record_execution(record))),
        Some(at) => if !record_fits(db.executions[at], record) {
            Err(ErrorView::Database("integer overflow"@))
        } else {
            let row = recorded_row(db.executions[at], record);
            Ok((executions::with_execution(db, at, row), executions::latest_event(row)))
        },
    }
}

/// Appending records one after the other, up to the first that fails.
pub open spec fn records_step(db: DatabaseView, records: Seq<CaptureRecordView>) -> Result<
    (DatabaseView, Seq<ExecutionEventView>),
    ErrorView,
>
    decreases records.len(),
{
    if records.len() == 0 {
        Ok((db, Seq::empty()))
    } else {
        match records_step(db, records.drop_last()) {
            Err(error) => Err(error),
            Ok((before, events)) => match record_step(before, records.last()) {
                Err(error) => Err(error),
                Ok((after, event)) => Ok((after, events.push(event))),
            },
        }
    }
}

/// Appending a batch: where one record fails, nothing is stored.
pub open spec fn append_batch_step(db: DatabaseView, records: Seq<CaptureRecordView>) -> (
    DatabaseView,
    Result<Seq<ExecutionEventView>, ErrorView>,
) {
    match records_step(db, records) {
        Ok((after, events)) => (after, Ok(events)),
        Err(error) => (db, Err(error)),
    }
}

/// The views of a list of events.
pub open spec fn event_views(events: Seq<ExecutionEvent>) -> Seq<ExecutionEventView> {
    events.map_values(|item: ExecutionEvent| item@)
}

/// The views of a list of records.
pub open spec fn record_views(records: Seq<CaptureRecord>) -> Seq<CaptureRecordView> {
    records.map_values(|item: CaptureRecord| item@)
}

proof fn failure_spreads(db: DatabaseView, records: Seq<CaptureRecordView>, k: int)
    requires
        0 <= k <= records.len(),
        records_step(db, records.take(k)) is Err,
    ensures
        records_step(db, records) == Err::<(DatabaseView, Seq<ExecutionEventView>), ErrorView>(
            records_step(db, records.take(k))->Err_0,
        ),
    decreases records.len() - k,
{
    if k < records.len() {
        assert(records.take(k + 1).drop_last() =~= records.take(k));
        failure_spreads(db, records, k + 1);
    } else {
        assert(records.take(k) =~= records);
    }
}

/// What has to be put back to undo one appended record.
struct Undo {
    at: usize,
    captured_bytes: u64,
    output_truncated: bool,
}

impl Database {
    fn append_record(&mut self, record: &CaptureRecord) -> (appended: Result<
        (ExecutionEvent, Undo),
        Error,
    >)
        ensures
            match record_step(old(self)@, record@) {
                Ok((after, event)) => {
                    &&& appended matches Ok((e, undo))
                    &&& final(self)@ == after
                    &&& e@ == event
                    &&& undo.at < old(self)@.executions.len()
                    &&& undo.captured_bytes
                        == old(self)@.executions[undo.at as int].captured_bytes
                    &&& undo.output_truncated
                        == old(self)@.executions[undo.at as int].output_truncated
                    &&& rows::execution_place(old(self)@, record_execution(record@)) == Some(
                        undo.at as int,
                    )
                },
                Err(error) => {
                    &&& appended matches Err(e)
                    &&& e@ == error
                    &&& final(self)@ == old(self)@
                },
            },
    {
        let id = match record {
            CaptureRecord::Output { execution_id, timestamp_ms, stream, data } => execution_id,
            CaptureRecord::Truncated { execution_id, timestamp_ms, limit_bytes } => execution_id,
        };
        proof {
            order::position_is_first(self@.executions, |row: ExecutionRowView| row.id == id@);
        }
        match self.find_execution(id.as_str()) {
            None => Err(Error::ExecutionNotFound(id.clone())),
            Some(at) => {
                let ghost before = self.executions@[at as int]@;
                assert(self@.executions[at as int] == before);
                let undo = Undo {
                    at,
                    captured_bytes: self.executions[at].captured_bytes,
                    output_truncated: self.executions[at].output_truncated,
                };
                match record {
                    CaptureRecord::Output { execution_id, timestamp_ms, stream, data } => {
                        let size: u64 = data.len() as u64;
                        let limit: u64 = i64::MAX as u64;
                        if self.executions[at].captured_bytes > limit || size > limit
                            - self.executions[at].captured_bytes {
                            return Err(Error::Database("integer overflow".to_owned()));
                        }
                        let event = StoredEvent {
                            timestamp_ms: *timestamp_ms,
                            payload: StoredPayload::Output {
                                stream: *stream,
                                data: clone_bytes(data),
                            },
                        };
                        let row = &mut self.executions[at];
                        row.captured_bytes = row.captured_bytes + size;
                        row.events.push(event);
                        assert(self.executions@[at as int]@.events =~= before.events.push(event@));
                    },
                    CaptureRecord::Truncated { execution_id, timestamp_ms, limit_bytes } => {
                        let event = StoredEvent {
                            timestamp_ms: *timestamp_ms,
                            payload: StoredPayload::CaptureTruncated { limit_bytes: *limit_bytes },
                        };
                        let row = &mut self.executions[at];
                        row.output_truncated = true;
                        row.events.push(event);
                        assert(self.executions@[at as int]@.events =~= before.events.push(event@));
                    },
                }
                proof {
                    assert(self.executions@[at as int]@ == recorded_row(before, record@));
                    assert(self@.executions =~= old(self)@.executions.update(
                        at as int,
                        recorded_row(before, record@),
                    ));
                }
                let last: usize = self.executions[at].events.len() - 1;
                assert(self.executions@[at as int]@.events.last()
                    == self.executions@[at as int].events@[last as int]@);
                let event = event_from_row(
                    id.as_str(),
                    self.executions[at].events.len() as u64,
                    &self.executions[at].events[last],
                );
                Ok((event, undo))
            },
        }
    }

    fn undo_record(&mut self, undo: &Undo, Ghost(before): Ghost<DatabaseView>, Ghost(record): Ghost<
        CaptureRecordView,
    >)
        requires
            undo.at < before.executions.len(),
            undo.captured_bytes == before.executions[undo.at as int].captured_bytes,
            undo.output_truncated == before.executions[undo.at as int].output_truncated,
            old(self)@ == executions::with_execution(
                before,
                undo.at as int,
                recorded_row(before.executions[undo.at as int], record),
            ),
        ensures
            final(self)@ == before,
    {
        let ghost was = before.executions[undo.at as int];
        let at = undo.at;
        assert(self.executions@.len() == self@.executions.len());
        assert(self@.executions[at as int] == self.executions@[at as int]@);
        let ghost held = self.executions@;
        let ghost prior = self.executions@[at as int].events@;
        let ghost grown = self.executions@[at as int]@.events;
        assert(grown == recorded_row(was, record).events);
        proof {
            match record {
                CaptureRecordView::Output { execution_id, timestamp_ms, stream, data } => {
                    assert(grown.len() == was.events.len() + 1);
                },
                CaptureRecordView::Truncated { execution_id, timestamp_ms, limit_bytes } => {
                    assert(grown.len() == was.events.len() + 1);
                },
            }
        }
        assert(grown.len() == prior.len());
        let row = &mut self.executions[at];
        let _ = row.events.pop();
        row.captured_bytes = undo.captured_bytes;
        row.output_truncated = undo.output_truncated;
        proof {
            assert(self.executions@[at as int].events@ == prior.drop_last());
            assert(self.executions@[at as int]@.events =~= grown.drop_last());
            assert(grown.drop_last() =~= was.events);
            assert(self.executions@[at as int]@ == was);
            assert forall|k: int| 0 <= k < before.executions.len() implies self@.executions[k]
                == before.executions[k] by {
                if k != at {
                    assert(self.executions@[k] == held[k]);
                    assert(old(self)@.executions[k] == held[k]@);
                    assert(old(self)@.executions[k] == before.executions[k]);
                }
            }
            assert(self@.executions =~= before.executions);
        }
    }

    fn roll_back(&mut self, undos: &Vec<Undo>, Ghost(start): Ghost<DatabaseView>, Ghost(list): Ghost<
        Seq<CaptureRecordView>,
    >)
        requires
            undos.len() <= list.len(),
            old(self)@ == records_step(start, list.take(undos.len() as int))->Ok_0.0,
            forall|j: int| 0 <= j < undos.len() ==> undoes(#[trigger] undos@[j], start, list, j),
        ensures
            final(self)@ == start,
    {
        let mut k: usize = undos.len();
        while k > 0
            invariant
                k <= undos.len() <= list.len(),
                self@ == records_step(start, list.take(k as int))->Ok_0.0,
                forall|j: int|
                    0 <= j < undos.len() ==> undoes(#[trigger] undos@[j], start, list, j),
            decreases k,
        {
            k -= 1;
            assert(undoes(undos@[k as int], start, list, k as int));
            self.undo_record(
                &undos[k],
                Ghost(records_step(start, list.take(k as int))->Ok_0.0),
                Ghost(list[k as int]),
            );
        }
        assert(list.take(0) =~= Seq::empty());
    }

    /// Appends a batch of captured output. Where one record fails, nothing is
    /// stored.
    #[verifier::loop_isolation(true)]
    #[verifier::rlimit(40)]
    pub fn append_capture_batch(&mut self, records: &Vec<CaptureRecord>) -> (appended: Result<
        Vec<ExecutionEvent>,
        Error,
    >)
        ensures
            (
                final(self)@,
                error::outcome_view(appended, |events: Vec<ExecutionEvent>| event_views(events@)),
            ) == append_batch_step(old(self)@, record_views(records@)),
    {
        let ghost list = record_views(records@);
        let ghost start = self@;
        let mut events: Vec<ExecutionEvent> = Vec::new();
        let mut undos: Vec<Undo> = Vec::new();
        let mut i: usize = 0;
        proof {
            assert(list.take(0) =~= Seq::empty());
            assert(event_views(events@) =~= Seq::empty());
        }
        while i < records.len()
            invariant
                i <= records.len(),
                start == old(self)@,
                list == record_views(records@),
                list.len() == records.len(),
                undos.len() == i,
                records_step(start, list.take(i as int)) == Ok::<
                    (DatabaseView, Seq<ExecutionEventView>),
                    ErrorView,
                >((self@, event_views(events@))),
                forall|k: int|
                    0 <= k < i ==> undoes(#[trigger] undos@[k], start, list, k),
            decreases records.len() - i,
        {
            let ghost before = self@;
            let ghost events_before = event_views(events@);
            proof {
                assert(list.take(i + 1).drop_last() =~= list.take(i as int));
                assert(list.take(i + 1).last() == records@[i as int]@);
            }
            match self.append_record(&records[i]) {
                Ok((event, undo)) => {
                    events.push(event);
                    undos.push(undo);
                    assert(event_views(events@) =~= events_before.push(event@));
                    assert(undoes(undo, start, list, i as int));
                },
                Err(error) => {
                    proof {
                        failure_spreads(start, list, i + 1);
                    }
                    self.roll_back(&undos, Ghost(start), Ghost(list));
                    return Err(error);
                },
            }
            i += 1;
        }
        assert(list.take(i as int) =~= list);
        Ok(events)
    }
}

/// Whether `undo` takes back the record at place `k` of the batch.
closed spec fn undoes(
    undo: Undo,
    start: DatabaseView,
    list: Seq<CaptureRecordView>,
    k: int,
) -> bool {
    let before = records_step(start, list.take(k));
    let after = records_step(start, list.take(k + 1));
    &&& before is Ok
    &&& after is Ok
    &&& undo.at < before->Ok_0.0.executions.len()
    &&& undo.captured_bytes == before->Ok_0.0.executions[undo.at as int].captured_bytes
    &&& undo.output_truncated == before->Ok_0.0.executions[undo.at as int].output_truncated
    &&& after->Ok_0.0 == executions::with_execution(
        before->Ok_0.0,
        undo.at as int,
        recorded_row(before->Ok_0.0.executions[undo.at as int], list[k]),
    )
}

} // verus!
