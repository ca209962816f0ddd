//! The execution engine: how one execution is carried through from its slot to
//! its end, what is kept of its output, and how executions are admitted,
//! waited for and cancelled.

use vstd::prelude::*;

use crate::codec;
use crate::codec::decode_base64;
use crate::config::{Settings, SettingsView};
use crate::error;
use crate::error::{Error, ErrorView};
use crate::model;
use crate::model::{
    Execution, ExecutionEvent, ExecutionEventView, ExecutionOutcome, ExecutionOutcomeView, ExecutionRequest,
    ExecutionRequestView, ExecutionState, ExecutionView, OutputStream, ReadOutputResponse,
    ReadOutputResponseView, WaitResponse, WaitResponseView, Workspace, WorkspaceView,
};
use crate::paths;
use crate::paths::path_starts_with;
use crate::store::capture;
use crate::store::capture::{clone_capture_record_list, CaptureRecord, CaptureRecordView};
use crate::store::executions;
use crate::store::rows;
use crate::store::rows::{Database, DatabaseView, ExecutionRowView};
use crate::store::workspaces;
use crate::supervisor::{
    SupervisorCommand, SupervisorCommandView, SupervisorEvent, SupervisorEventView,
};
use crate::text;
use crate::text::{clone_maybe, joined, joined3, same_text};

verus! {

/// Where the engine stands: open for executions, running out, or through.
#[derive(Debug, Clone, Copy, PartialEq, Eq, Structural)]
pub enum Lifecycle {
    Accepting,
    Draining,
    Stopped,
}

/// The measure of what has come from an execution, against the limit of what is
/// kept.
#[derive(Debug, Clone, Copy, PartialEq, Eq, Structural)]
pub struct CaptureMeter {
    pub limit: u64,
    pub seen: u64,
    pub truncated: bool,
}

/// What comes back from the last thing that was done for an execution.
#[derive(Debug)]
pub enum RunInput {
    SlotGranted,
    SlotsClosed,
    State { state: ExecutionState },
    Spawned,
    SpawnFailed { message: String },
    Done,
    SendFailed,
    Event { event: SupervisorEvent },
    StreamEnded,
    ControlFailed { error: Error },
    ControlAborted { message: String },
    Exited { status: String },
    Failed { error: Error },
}

/// What a `RunInput` holds.
#[verifier::ext_equal]
pub enum RunInputView {
    SlotGranted,
    SlotsClosed,
    State { state: ExecutionState },
    Spawned,
    SpawnFailed { message: Seq<char> },
    Done,
    SendFailed,
    Event { event: SupervisorEventView },
    StreamEnded,
    ControlFailed { error: ErrorView },
    ControlAborted { message: Seq<char> },
    Exited { status: Seq<char> },
    Failed { error: ErrorView },
}

impl View for RunInput {
    type V = RunInputView;

    open spec fn view(&self) -> RunInputView {
        match *self {
            RunInput::SlotGranted => RunInputView::SlotGranted,
            RunInput::SlotsClosed => RunInputView::SlotsClosed,
            RunInput::State { state } => RunInputView::State { state },
            RunInput::Spawned => RunInputView::Spawned,
            RunInput::SpawnFailed { message } => RunInputView::SpawnFailed { message: message@ },
            RunInput::Done => RunInputView::Done,
            RunInput::SendFailed => RunInputView::SendFailed,
            RunInput::Event { event } => RunInputView::Event { event: event@ },
            RunInput::StreamEnded => RunInputView::StreamEnded,
            RunInput::ControlFailed { error } => RunInputView::ControlFailed { error: error@ },
            RunInput::ControlAborted { message } => RunInputView::ControlAborted {
                message: message@,
            },
            RunInput::Exited { status } => RunInputView::Exited { status: status@ },
            RunInput::Failed { error } => RunInputView::Failed { error: error@ },
        }
    }
}

impl Clone for RunInput {
    fn clone(&self) -> (copy: Self)
        ensures
            copy@ == self@,
    {
        match self {
            RunInput::SlotGranted => RunInput::SlotGranted,
            RunInput::SlotsClosed => RunInput::SlotsClosed,
            RunInput::State { state } => RunInput::State { state: *state },
            RunInput::Spawned => RunInput::Spawned,
            RunInput::SpawnFailed { message } => RunInput::SpawnFailed { message: message.clone() },
            RunInput::Done => RunInput::Done,
            RunInput::SendFailed => RunInput::SendFailed,
            RunInput::Event { event } => RunInput::Event { event: event.clone() },
            RunInput::StreamEnded => RunInput::StreamEnded,
            RunInput::ControlFailed { error } => RunInput::ControlFailed { error: error.clone() },
            RunInput::ControlAborted { message } => RunInput::ControlAborted {
                message: message.clone(),
            },
            RunInput::Exited { status } => RunInput::Exited { status: status.clone() },
            RunInput::Failed { error } => RunInput::Failed { error: error.clone() },
        }
    }
}

/// What is to be done next for an execution. A state is loaded exclusively
/// where nothing may come between it and what follows, up to the next read.
#[derive(Debug)]
pub enum RunAction {
    AcquireSlot,
    LoadState { exclusive: bool },
    StartSupervisor,
    Send { command: SupervisorCommand },
    Register,
    ReadEvent,
    MarkRunning { pid: u32, pgid: i32 },
    Capture { records: Vec<CaptureRecord> },
    FlushCapture,
    Finish { state: ExecutionState, outcome: ExecutionOutcome },
    CloseControl,
    AwaitExit,
    Prune,
    Complete,
    Fail { error: Error },
}

/// What a `RunAction` holds.
#[verifier::ext_equal]
pub enum RunActionView {
    AcquireSlot,
    LoadState { exclusive: bool },
    StartSupervisor,
    Send { command: SupervisorCommandView },
    Register,
    ReadEvent,
    MarkRunning { pid: u32, pgid: i32 },
    Capture { records: Seq<CaptureRecordView> },
    FlushCapture,
    Finish { state: ExecutionState, outcome: ExecutionOutcomeView },
    CloseControl,
    AwaitExit,
    Prune,
    Complete,
    Fail { error: ErrorView },
}

impl View for RunAction {
    type V = RunActionView;

    open spec fn view(&self) -> RunActionView {
        match *self {
            RunAction::AcquireSlot => RunActionView::AcquireSlot,
            RunAction::LoadState { exclusive } => RunActionView::LoadState { exclusive },
            RunAction::StartSupervisor => RunActionView::StartSupervisor,
            RunAction::Send { command } => RunActionView::Send { command: command@ },
            RunAction::Register => RunActionView::Register,
            RunAction::ReadEvent => RunActionView::ReadEvent,
            RunAction::MarkRunning { pid, pgid } => RunActionView::MarkRunning {
                pid,
                pgid,
            },
            RunAction::Capture { records } => RunActionView::Capture {
                records: records@.map_values(|item: CaptureRecord| item@),
            },
            RunAction::FlushCapture => RunActionView::FlushCapture,
            RunAction::Finish { state, outcome } => RunActionView::Finish {
                state,
                outcome: outcome@,
            },
            RunAction::CloseControl => RunActionView::CloseControl,
            RunAction::AwaitExit => RunActionView::AwaitExit,
            RunAction::Prune => RunActionView::Prune,
            RunAction::Complete => RunActionView::Complete,
            RunAction::Fail { error } => RunActionView::Fail { error: error@ },
        }
    }
}

impl Clone for RunAction {
    fn clone(&self) -> (copy: Self)
        ensures
            copy@ == self@,
    {
        match self {
            RunAction::AcquireSlot => RunAction::AcquireSlot,
            RunAction::LoadState { exclusive } => RunAction::LoadState { exclusive: *exclusive },
            RunAction::StartSupervisor => RunAction::StartSupervisor,
            RunAction::Send { command } => RunAction::Send { command: command.clone() },
            RunAction::Register => RunAction::Register,
            RunAction::ReadEvent => RunAction::ReadEvent,
            RunAction::MarkRunning { pid, pgid } => RunAction::MarkRunning {
                pid: *pid,
                pgid: *pgid,
            },
            RunAction::Capture { records } => RunAction::Capture {
                records: clone_capture_record_list(records),
            },
            RunAction::FlushCapture => RunAction::FlushCapture,
            RunAction::Finish { state, outcome } => RunAction::Finish {
                state: *state,
                outcome: outcome.clone(),
            },
            RunAction::CloseControl => RunAction::CloseControl,
            RunAction::AwaitExit => RunAction::AwaitExit,
            RunAction::Prune => RunAction::Prune,
            RunAction::Complete => RunAction::Complete,
            RunAction::Fail { error } => RunAction::Fail { error: error.clone() },
        }
    }
}

/// What the run of an execution waits for.
#[derive(Debug)]
pub enum RunPhase {
    Slot,
    State,
    Supervisor,
    SpawnSent,
    RegisterState,
    Registered,
    Event,
    StartedState { pid: u32, pgid: i32 },
    Marked,
    CancelSent,
    Captured,
    LastFlush { outcome: ExecutionOutcome },
    LastState { outcome: ExecutionOutcome },
    Ended,
    Control,
    Exit,
    LostFlush { status: String },
    LostState { status: String },
    LostEnded,
    NoStart,
    Pruned,
    Over,
}

/// What a `RunPhase` holds.
#[verifier::ext_equal]
pub enum RunPhaseView {
    Slot,
    State,
    Supervisor,
    SpawnSent,
    RegisterState,
    Registered,
    Event,
    StartedState { pid: u32, pgid: i32 },
    Marked,
    CancelSent,
    Captured,
    LastFlush { outcome: ExecutionOutcomeView },
    LastState { outcome: ExecutionOutcomeView },
    Ended,
    Control,
    Exit,
    LostFlush { status: Seq<char> },
    LostState { status: Seq<char> },
    LostEnded,
    NoStart,
    Pruned,
    Over,
}

impl View for RunPhase {
    type V = RunPhaseView;

    open spec fn view(&self) -> RunPhaseView {
        match *self {
            RunPhase::Slot => RunPhaseView::Slot,
            RunPhase::State => RunPhaseView::State,
            RunPhase::Supervisor => RunPhaseView::Supervisor,
            RunPhase::SpawnSent => RunPhaseView::SpawnSent,
            RunPhase::RegisterState => RunPhaseView::RegisterState,
            RunPhase::Registered => RunPhaseView::Registered,
            RunPhase::Event => RunPhaseView::Event,
            RunPhase::StartedState { pid, pgid } => RunPhaseView::StartedState {
                pid,
                pgid,
            },
            RunPhase::Marked => RunPhaseView::Marked,
            RunPhase::CancelSent => RunPhaseView::CancelSent,
            RunPhase::Captured => RunPhaseView::Captured,
            RunPhase::LastFlush { outcome } => RunPhaseView::LastFlush { outcome: outcome@ },
            RunPhase::LastState { outcome } => RunPhaseView::LastState { outcome: outcome@ },
            RunPhase::Ended => RunPhaseView::Ended,
            RunPhase::Control => RunPhaseView::Control,
            RunPhase::Exit => RunPhaseView::Exit,
            RunPhase::LostFlush { status } => RunPhaseView::LostFlush { status: status@ },
            RunPhase::LostState { status } => RunPhaseView::LostState { status: status@ },
            RunPhase::LostEnded => RunPhaseView::LostEnded,
            RunPhase::NoStart => RunPhaseView::NoStart,
            RunPhase::Pruned => RunPhaseView::Pruned,
            RunPhase::Over => RunPhaseView::Over,
        }
    }
}

impl Clone for RunPhase {
    fn clone(&self) -> (copy: Self)
        ensures
            copy@ == self@,
    {
        match self {
            RunPhase::Slot => RunPhase::Slot,
            RunPhase::State => RunPhase::State,
            RunPhase::Supervisor => RunPhase::Supervisor,
            RunPhase::SpawnSent => RunPhase::SpawnSent,
            RunPhase::RegisterState => RunPhase::RegisterState,
            RunPhase::Registered => RunPhase::Registered,
            RunPhase::Event => RunPhase::Event,
            RunPhase::StartedState { pid, pgid } => RunPhase::StartedState {
                pid: *pid,
                pgid: *pgid,
            },
            RunPhase::Marked => RunPhase::Marked,
            RunPhase::CancelSent => RunPhase::CancelSent,
            RunPhase::Captured => RunPhase::Captured,
            RunPhase::LastFlush { outcome } => RunPhase::LastFlush { outcome: outcome.clone() },
            RunPhase::LastState { outcome } => RunPhase::LastState { outcome: outcome.clone() },
            RunPhase::Ended => RunPhase::Ended,
            RunPhase::Control => RunPhase::Control,
            RunPhase::Exit => RunPhase::Exit,
            RunPhase::LostFlush { status } => RunPhase::LostFlush { status: status.clone() },
            RunPhase::LostState { status } => RunPhase::LostState { status: status.clone() },
            RunPhase::LostEnded => RunPhase::LostEnded,
            RunPhase::NoStart => RunPhase::NoStart,
            RunPhase::Pruned => RunPhase::Pruned,
            RunPhase::Over => RunPhase::Over,
        }
    }
}

/// The run of one execution.
#[derive(Debug)]
pub struct Run {
    pub id: String,
    pub spawn: SupervisorCommand,
    pub phase: RunPhase,
    pub meter: CaptureMeter,
    pub received_finished: bool,
}

/// What a `Run` holds.
#[verifier::ext_equal]
pub struct RunView {
    pub id: Seq<char>,
    pub spawn: SupervisorCommandView,
    pub phase: RunPhaseView,
    pub meter: CaptureMeter,
    pub received_finished: bool,
}

impl View for Run {
    type V = RunView;

    open spec fn view(&self) -> RunView {
        RunView {
            id: self.id@,
            spawn: self.spawn@,
            phase: self.phase@,
            meter: self.meter,
            received_finished: self.received_finished,
        }
    }
}

impl Clone for Run {
    fn clone(&self) -> (copy: Self)
        ensures
            copy@ == self@,
    {
        Run {
            id: self.id.clone(),
            spawn: self.spawn.clone(),
            phase: self.phase.clone(),
            meter: self.meter,
            received_finished: self.received_finished,
        }
    }
}

/// How many records are stored at once.
pub const CAPTURE_BATCH_SIZE: usize = 64;

/// How many records wait to be stored.
pub const CAPTURE_QUEUE_DEPTH: usize = 256;

/// How long a daemon that stops waits beyond the grace period.
pub const SHUTDOWN_SETTLE_MS: u64 = 5_000;

/// How much is read where a wait does not say.
pub const DEFAULT_READ_BYTES: usize = 1_048_576;

/// How many bytes of a piece of output are kept.
pub open spec fn kept_of(meter: CaptureMeter, size: int) -> int {
    let remaining = if meter.seen < meter.limit {
        meter.limit - meter.seen
    } else {
        0
    };
    if remaining < size {
        remaining
    } else {
        size
    }
}

/// Measuring a piece of output: the front of it is kept, up to the limit, and
/// the first piece of which something is lost is followed by a note.
pub open spec fn measured(
    meter: CaptureMeter,
    id: Seq<char>,
    stream: OutputStream,
    data: Seq<u8>,
    now: i64,
) -> (CaptureMeter, Seq<CaptureRecordView>) {
    let kept = kept_of(meter, data.len() as int);
    let lost = kept < data.len();
    let output = if kept > 0 {
        seq![
            CaptureRecordView::Output {
                execution_id: id,
                timestamp_ms: now,
                stream,
                data: data.take(kept),
            },
        ]
    } else {
        Seq::empty()
    };
    let note = if lost && !meter.truncated {
        seq![
            CaptureRecordView::Truncated {
                execution_id: id,
                timestamp_ms: now,
                limit_bytes: meter.limit,
            },
        ]
    } else {
        Seq::empty()
    };
    (
        CaptureMeter {
            limit: meter.limit,
            seen: meter.seen.wrapping_add(data.len() as u64),
            truncated: meter.truncated || lost,
        },
        output + note,
    )
}

impl CaptureMeter {
    /// A measure for an execution of which `limit` bytes are kept.
    pub fn new(limit: u64) -> (meter: CaptureMeter)
        ensures
            meter == (CaptureMeter { limit, seen: 0, truncated: false }),
    {
        CaptureMeter { limit, seen: 0, truncated: false }
    }

    /// Measures a piece of output and gives the records to keep of it.
    pub fn capture_output(
        &mut self,
        id: &str,
        stream: OutputStream,
        data: &Vec<u8>,
        now: i64,
    ) -> (records: Vec<CaptureRecord>)
        ensures
            (*final(self), capture::record_views(records@)) == measured(
                *old(self),
                id@,
                stream,
                data@,
                now,
            ),
    {
        let ghost start = *self;
        let size: u64 = data.len() as u64;
        let remaining: u64 = if self.seen < self.limit {
            self.limit - self.seen
        } else {
            0
        };
        let kept: usize = if remaining < size {
            remaining as usize
        } else {
            data.len()
        };
        let mut records: Vec<CaptureRecord> = Vec::new();
        assert(capture::record_views(records@) =~= Seq::empty());
        if kept > 0 {
            let mut front: Vec<u8> = Vec::new();
            let mut i: usize = 0;
            while i < kept
                invariant
                    i <= kept <= data.len(),
                    front@ == data@.take(i as int),
                decreases kept - i,
            {
                front.push(data[i]);
                assert(data@.take(i + 1) =~= data@.take(i as int).push(data@[i as int]));
                i += 1;
            }
            records.push(
                CaptureRecord::Output {
                    execution_id: id.to_owned(),
                    timestamp_ms: now,
                    stream,
                    data: front,
                },
            );
        }
        let ghost first = capture::record_views(records@);
        assert(first =~= measured(start, id@, stream, data@, now).1.take(first.len() as int));
        if kept < data.len() {
            if !self.truncated {
                records.push(
                    CaptureRecord::Truncated {
                        execution_id: id.to_owned(),
                        timestamp_ms: now,
                        limit_bytes: self.limit,
                    },
                );
            }
            self.truncated = true;
        }
        self.seen = self.seen.wrapping_add(size);
        assert(capture::record_views(records@) =~= measured(start, id@, stream, data@, now).1);
        records
    }
}

/// The bytes that some records keep.
pub open spec fn bytes_kept(records: Seq<CaptureRecordView>) -> Seq<u8>
    decreases records.len(),
{
    if records.len() == 0 {
        Seq::empty()
    } else {
        match records.last() {
            CaptureRecordView::Output { execution_id, timestamp_ms, stream, data } => bytes_kept(
                records.drop_last(),
            ) + data,
            CaptureRecordView::Truncated { execution_id, timestamp_ms, limit_bytes } => bytes_kept(
                records.drop_last(),
            ),
        }
    }
}

/// How many notes of a truncation some records hold.
pub open spec fn notes(records: Seq<CaptureRecordView>) -> nat
    decreases records.len(),
{
    if records.len() == 0 {
        0
    } else {
        notes(records.drop_last()) + if records.last() is Truncated {
            1nat
        } else {
            0nat
        }
    }
}

/// A piece of output, with the stream and the time it came.
pub struct PieceView {
    pub stream: OutputStream,
    pub data: Seq<u8>,
    pub now: i64,
}

/// All that came.
pub open spec fn all_bytes(pieces: Seq<PieceView>) -> Seq<u8>
    decreases pieces.len(),
{
    if pieces.len() == 0 {
        Seq::empty()
    } else {
        all_bytes(pieces.drop_last()) + pieces.last().data
    }
}

/// The measure and the records after some pieces of output.
pub open spec fn measured_all(limit: u64, id: Seq<char>, pieces: Seq<PieceView>) -> (
    CaptureMeter,
    Seq<CaptureRecordView>,
)
    decreases pieces.len(),
{
    if pieces.len() == 0 {
        (CaptureMeter { limit, seen: 0, truncated: false }, Seq::empty())
    } else {
        let (meter, records) = measured_all(limit, id, pieces.drop_last());
        let piece = pieces.last();
        let (after, more) = measured(meter, id, piece.stream, piece.data, piece.now);
        (after, records + more)
    }
}

proof fn kept_of_more(records: Seq<CaptureRecordView>, more: Seq<CaptureRecordView>)
    ensures
        bytes_kept(records + more) == bytes_kept(records) + bytes_kept(more),
        notes(records + more) == notes(records) + notes(more),
    decreases more.len(),
{
    if more.len() == 0 {
        assert(records + more =~= records);
        assert(bytes_kept(records) + bytes_kept(more) =~= bytes_kept(records));
    } else {
        assert((records + more).drop_last() =~= records + more.drop_last());
        assert((records + more).last() == more.last());
        kept_of_more(records, more.drop_last());
        assert(bytes_kept(records + more) =~= bytes_kept(records) + bytes_kept(more));
    }
}

/// What is kept of an execution is the front of all that came from it, up to
/// the limit; the loss is noted exactly when there is one, and once.
pub proof fn the_front_is_kept(limit: u64, id: Seq<char>, pieces: Seq<PieceView>)
    requires
        all_bytes(pieces).len() <= u64::MAX,
    ensures
        ({
            let (meter, records) = measured_all(limit, id, pieces);
            let all = all_bytes(pieces);
            &&& meter.seen == all.len()
            &&& meter.limit == limit
            &&& meter.truncated == (all.len() > limit)
            &&& bytes_kept(records) == all.take(
                if all.len() < limit {
                    all.len() as int
                } else {
                    limit as int
                },
            )
            &&& notes(records) == if all.len() > limit {
                1nat
            } else {
                0nat
            }
        }),
    decreases pieces.len(),
{
    if pieces.len() == 0 {
        assert(all_bytes(pieces).take(0) =~= Seq::empty());
    } else {
        let before = pieces.drop_last();
        let piece = pieces.last();
        the_front_is_kept(limit, id, before);
        let (meter, records) = measured_all(limit, id, before);
        let (after, more) = measured(meter, id, piece.stream, piece.data, piece.now);
        let held = all_bytes(before);
        let all = all_bytes(pieces);
        assert(all =~= held + piece.data);
        kept_of_more(records, more);
        let kept = kept_of(meter, piece.data.len() as int);
        reveal_with_fuel(bytes_kept, 3);
        reveal_with_fuel(notes, 3);
        let output = CaptureRecordView::Output {
            execution_id: id,
            timestamp_ms: piece.now,
            stream: piece.stream,
            data: piece.data.take(kept),
        };
        let note = CaptureRecordView::Truncated {
            execution_id: id,
            timestamp_ms: piece.now,
            limit_bytes: limit,
        };
        let lost = kept < piece.data.len();
        if kept > 0 && lost && !meter.truncated {
            assert(more =~= seq![output, note]);
            assert(more.drop_last() =~= seq![output]);
            assert(seq![output].drop_last() =~= Seq::empty());
        } else if kept > 0 {
            assert(more =~= seq![output]);
            assert(more.drop_last() =~= Seq::empty());
        } else if lost && !meter.truncated {
            assert(more =~= seq![note]);
            assert(more.drop_last() =~= Seq::empty());
        } else {
            assert(more =~= Seq::empty());
        }
        assert(bytes_kept(more) =~= piece.data.take(kept));
        let until = if all.len() < limit {
            all.len() as int
        } else {
            limit as int
        };
        assert(bytes_kept(records + more) =~= all.take(until));
    }
}

/// Records that wait to be stored, and a failure that a barrier has to report.
#[derive(Debug)]
pub struct CaptureQueue {
    pub records: Vec<CaptureRecord>,
    pub pending_error: Option<String>,
}

/// What a `CaptureQueue` holds.
#[verifier::ext_equal]
pub struct CaptureQueueView {
    pub records: Seq<CaptureRecordView>,
    pub pending_error: Option<Seq<char>>,
}

impl View for CaptureQueue {
    type V = CaptureQueueView;

    open spec fn view(&self) -> CaptureQueueView {
        CaptureQueueView {
            records: capture::record_views(self.records@),
            pending_error: text::maybe_text(self.pending_error),
        }
    }
}

/// The view of an optional batch.
pub open spec fn batch_view(batch: Option<Vec<CaptureRecord>>) -> Option<Seq<CaptureRecordView>> {
    match batch {
        Some(records) => Some(capture::record_views(records@)),
        None => None,
    }
}

/// Taking out what waits, if anything does.
pub open spec fn emptied(queue: CaptureQueueView) -> (
    CaptureQueueView,
    Option<Seq<CaptureRecordView>>,
) {
    if queue.records.len() == 0 {
        (queue, None)
    } else {
        (CaptureQueueView { records: Seq::empty(), ..queue }, Some(queue.records))
    }
}

/// Queueing a record: a full batch is taken out to be stored.
pub open spec fn queued(queue: CaptureQueueView, record: CaptureRecordView) -> (
    CaptureQueueView,
    Option<Seq<CaptureRecordView>>,
) {
    let longer = CaptureQueueView { records: queue.records.push(record), ..queue };
    if longer.records.len() >= CAPTURE_BATCH_SIZE {
        emptied(longer)
    } else {
        (longer, None)
    }
}

/// A queue of which a batch could not be stored.
pub open spec fn failed_batch(queue: CaptureQueueView, message: Seq<char>) -> CaptureQueueView {
    CaptureQueueView { pending_error: Some(message), ..queue }
}

/// What a barrier reports of a queue, and the queue behind it.
pub open spec fn barrier(queue: CaptureQueueView) -> (CaptureQueueView, Result<(), ErrorView>) {
    (
        CaptureQueueView { pending_error: None, ..queue },
        match queue.pending_error {
            Some(message) => Err(ErrorView::StorageUnavailable(message)),
            None => Ok(()),
        },
    )
}

impl CaptureQueue {
    /// An empty queue.
    pub fn new() -> (queue: CaptureQueue)
        ensures
            queue@ == (CaptureQueueView { records: Seq::empty(), pending_error: None }),
    {
        let queue = CaptureQueue { records: Vec::new(), pending_error: None };
        assert(queue@.records =~= Seq::empty());
        queue
    }

    /// Takes out what waits, to be stored.
    pub fn take_batch(&mut self) -> (batch: Option<Vec<CaptureRecord>>)
        ensures
            (final(self)@, batch_view(batch)) == emptied(old(self)@),
    {
        if self.records.len() == 0 {
            return None;
        }
        let mut batch: Vec<CaptureRecord> = Vec::new();
        batch.append(&mut self.records);
        assert(capture::record_views(batch@) =~= old(self)@.records);
        assert(self@.records =~= Seq::empty());
        Some(batch)
    }

    /// Queues a record; where a batch is full it is to be stored.
    pub fn push(&mut self, record: CaptureRecord) -> (batch: Option<Vec<CaptureRecord>>)
        ensures
            (final(self)@, batch_view(batch)) == queued(old(self)@, record@),
    {
        self.records.push(record);
        assert(self@.records =~= old(self)@.records.push(record@));
        if self.records.len() >= CAPTURE_BATCH_SIZE {
            self.take_batch()
        } else {
            None
        }
    }

    /// Notes that a batch could not be stored.
    pub fn batch_failed(&mut self, message: String)
        ensures
            final(self)@ == failed_batch(old(self)@, message@),
    {
        self.pending_error = Some(message);
    }

    /// What a barrier reports, once what waited has been stored: a failure is
    /// reported once.
    pub fn pass_barrier(&mut self) -> (passed: Result<(), Error>)
        ensures
            (final(self)@, error::outcome_view(passed, |u: ()| u)) == barrier(old(self)@),
    {
        let pending = clone_maybe(&self.pending_error);
        self.pending_error = None;
        match pending {
            Some(message) => Err(Error::StorageUnavailable(message)),
            None => Ok(()),
        }
    }
}

/// No record is lost or reordered: what was taken out and what waits is what
/// waited before and the new record after it.
pub proof fn queueing_keeps_order(queue: CaptureQueueView, record: CaptureRecordView)
    ensures
        ({
            let (after, batch) = queued(queue, record);
            let out = match batch {
                Some(records) => records,
                None => Seq::empty(),
            };
            &&& out + after.records == queue.records.push(record)
            &&& after.records.len() < CAPTURE_BATCH_SIZE || after.records.len()
                > queue.records.len()
        }),
{
    let (after, batch) = queued(queue, record);
    let out = match batch {
        Some(records) => records,
        None => Seq::empty(),
    };
    assert(out + after.records =~= queue.records.push(record));
}

/// The state in which an execution with this outcome ends.
pub open spec fn state_for(outcome: ExecutionOutcomeView) -> ExecutionState {
    match outcome {
        ExecutionOutcomeView::Cancelled { signal } => ExecutionState::Cancelled,
        ExecutionOutcomeView::Interrupted { reason } => ExecutionState::Interrupted,
        _ => ExecutionState::Finished,
    }
}

/// The state in which an execution with this outcome ends.
pub fn final_state(outcome: &ExecutionOutcome) -> (state: ExecutionState)
    ensures
        state == state_for(outcome@),
{
    match outcome {
        ExecutionOutcome::Cancelled { signal } => ExecutionState::Cancelled,
        ExecutionOutcome::Interrupted { reason } => ExecutionState::Interrupted,
        ExecutionOutcome::Exited { code } => ExecutionState::Finished,
        ExecutionOutcome::Signaled { signal } => ExecutionState::Finished,
        ExecutionOutcome::SpawnError { message } => ExecutionState::Finished,
    }
}

/// How many bytes are kept of the output of a request.
pub open spec fn capture_limit(request: ExecutionRequestView, settings: SettingsView) -> u64 {
    match request.capture_limit_bytes {
        Some(limit) => limit,
        None => settings.capture_limit_bytes,
    }
}

/// What the supervisor is told to start for a request.
pub open spec fn spawn_for(
    request: ExecutionRequestView,
    cwd: Seq<char>,
    settings: SettingsView,
) -> SupervisorCommandView {
    SupervisorCommandView::Spawn {
        command: request.command,
        cwd,
        env: request.env,
        stdin_base64: request.stdin_base64,
        shell: settings.shell,
        cancel_grace_ms: settings.cancel_grace_ms,
    }
}

/// The run of a new execution.
pub open spec fn new_run(
    id: Seq<char>,
    request: ExecutionRequestView,
    cwd: Seq<char>,
    settings: SettingsView,
) -> RunView {
    RunView {
        id,
        spawn: spawn_for(request, cwd, settings),
        phase: RunPhaseView::Slot,
        meter: CaptureMeter {
            limit: capture_limit(request, settings),
            seen: 0,
            truncated: false,
        },
        received_finished: false,
    }
}

/// A run that waits in a phase.
pub open spec fn waits(run: RunView, phase: RunPhaseView) -> RunView {
    RunView { phase, ..run }
}

/// A run that is through.
pub open spec fn through(run: RunView, action: RunActionView) -> (RunView, RunActionView) {
    (waits(run, RunPhaseView::Over), action)
}

/// A run that failed.
pub open spec fn failed(run: RunView, error: ErrorView) -> (RunView, RunActionView) {
    through(run, RunActionView::Fail { error })
}

/// The outcome of an execution whose supervisor could not be started.
pub open spec fn no_start(message: Seq<char>) -> ExecutionOutcomeView {
    ExecutionOutcomeView::SpawnError { message: "could not start loom-supervisor: "@ + message }
}

/// The outcome of an execution whose supervisor ended without a report.
pub open spec fn supervisor_lost(status: Seq<char>) -> ExecutionOutcomeView {
    ExecutionOutcomeView::Interrupted {
        reason: "loom-supervisor exited without a terminal event: "@ + status,
    }
}

/// How a run goes on with output, given what it decodes to.
pub open spec fn output_taken(
    run: RunView,
    stream: OutputStream,
    decoded: Result<Seq<u8>, Seq<char>>,
    now: i64,
) -> (RunView, RunActionView) {
    match decoded {
        Err(message) => failed(
            run,
            ErrorView::Protocol("invalid supervisor output: "@ + message),
        ),
        Ok(data) => {
            let (meter, records) = measured(run.meter, run.id, stream, data, now);
            if records.len() == 0 {
                (
                    RunView { meter, ..waits(run, RunPhaseView::Event) },
                    RunActionView::ReadEvent,
                )
            } else {
                (
                    RunView { meter, ..waits(run, RunPhaseView::Captured) },
                    RunActionView::Capture { records },
                )
            }
        },
    }
}

/// How a run goes on: what it waits for next, and what is to be done.
pub open spec fn run_on(run: RunView, input: RunInputView, now: i64) -> (RunView, RunActionView) {
    match (run.phase, input) {
        (RunPhaseView::Slot, RunInputView::SlotGranted) => (
            waits(run, RunPhaseView::State),
            RunActionView::LoadState { exclusive: false },
        ),
        (RunPhaseView::Slot, RunInputView::SlotsClosed) => through(run, RunActionView::Complete),
        (RunPhaseView::State, RunInputView::State { state }) => if model::terminal(state) {
            through(run, RunActionView::Complete)
        } else {
            (waits(run, RunPhaseView::Supervisor), RunActionView::StartSupervisor)
        },
        (RunPhaseView::Supervisor, RunInputView::SpawnFailed { message }) => (
            waits(run, RunPhaseView::NoStart),
            RunActionView::Finish { state: ExecutionState::Finished, outcome: no_start(message) },
        ),
        (RunPhaseView::NoStart, RunInputView::Done) => through(run, RunActionView::Complete),
        (RunPhaseView::Supervisor, RunInputView::Spawned) => (
            waits(run, RunPhaseView::SpawnSent),
            RunActionView::Send { command: run.spawn },
        ),
        (RunPhaseView::SpawnSent, RunInputView::SendFailed) => failed(
            run,
            ErrorView::Protocol("supervisor control writer stopped"@),
        ),
        (RunPhaseView::SpawnSent, RunInputView::Done) => (
            waits(run, RunPhaseView::RegisterState),
            RunActionView::LoadState { exclusive: true },
        ),
        (RunPhaseView::RegisterState, RunInputView::State { state }) => if model::terminal(state) {
            (
                waits(run, RunPhaseView::CancelSent),
                RunActionView::Send { command: SupervisorCommandView::Cancel },
            )
        } else {
            (waits(run, RunPhaseView::Registered), RunActionView::Register)
        },
        (RunPhaseView::Registered, RunInputView::Done) => (
            waits(run, RunPhaseView::Event),
            RunActionView::ReadEvent,
        ),
        (RunPhaseView::CancelSent, RunInputView::Done) => (
            waits(run, RunPhaseView::Event),
            RunActionView::ReadEvent,
        ),
        (RunPhaseView::CancelSent, RunInputView::SendFailed) => (
            waits(run, RunPhaseView::Event),
            RunActionView::ReadEvent,
        ),
        (RunPhaseView::Marked, RunInputView::Done) => (
            waits(run, RunPhaseView::Event),
            RunActionView::ReadEvent,
        ),
        (RunPhaseView::Captured, RunInputView::Done) => (
            waits(run, RunPhaseView::Event),
            RunActionView::ReadEvent,
        ),
        (RunPhaseView::Event, RunInputView::Event { event }) => match event {
            SupervisorEventView::Started { pid, pgid } => (
                waits(run, RunPhaseView::StartedState { pid, pgid }),
                RunActionView::LoadState { exclusive: true },
            ),
            SupervisorEventView::Output { stream, data_base64 } => output_taken(
                run,
                stream,
                codec::base64_decoding(data_base64),
                now,
            ),
            SupervisorEventView::Finished { outcome } => (
                waits(run, RunPhaseView::LastFlush { outcome }),
                RunActionView::FlushCapture,
            ),
        },
        (RunPhaseView::Event, RunInputView::StreamEnded) => (
            waits(run, RunPhaseView::Control),
            RunActionView::CloseControl,
        ),
        (RunPhaseView::StartedState { pid, pgid }, RunInputView::State { state }) => if model::terminal(
            state,
        ) {
            (
                waits(run, RunPhaseView::CancelSent),
                RunActionView::Send { command: SupervisorCommandView::Cancel },
            )
        } else {
            (waits(run, RunPhaseView::Marked), RunActionView::MarkRunning { pid, pgid })
        },
        (RunPhaseView::LastFlush { outcome }, RunInputView::Done) => (
            waits(run, RunPhaseView::LastState { outcome }),
            RunActionView::LoadState { exclusive: false },
        ),
        (RunPhaseView::LastState { outcome }, RunInputView::State { state }) => if model::terminal(state) {
            (
                RunView { received_finished: true, ..waits(run, RunPhaseView::Control) },
                RunActionView::CloseControl,
            )
        } else {
            (
                waits(run, RunPhaseView::Ended),
                RunActionView::Finish { state: state_for(outcome), outcome },
            )
        },
        (RunPhaseView::Ended, RunInputView::Done) => (
            RunView { received_finished: true, ..waits(run, RunPhaseView::Control) },
            RunActionView::CloseControl,
        ),
        (RunPhaseView::Control, RunInputView::Done) => (
            waits(run, RunPhaseView::Exit),
            RunActionView::AwaitExit,
        ),
        (RunPhaseView::Control, RunInputView::ControlFailed { error }) =>
        if run.received_finished {
            (waits(run, RunPhaseView::Exit), RunActionView::AwaitExit)
        } else {
            failed(run, error)
        },
        (RunPhaseView::Control, RunInputView::ControlAborted { message }) => failed(
            run,
            ErrorView::Protocol("supervisor control task failed: "@ + message),
        ),
        (RunPhaseView::Exit, RunInputView::Exited { status }) => if run.received_finished {
            (waits(run, RunPhaseView::Pruned), RunActionView::Prune)
        } else {
            (waits(run, RunPhaseView::LostFlush { status }), RunActionView::FlushCapture)
        },
        (RunPhaseView::LostFlush { status }, RunInputView::Done) => (
            waits(run, RunPhaseView::LostState { status }),
            RunActionView::LoadState { exclusive: false },
        ),
        (RunPhaseView::LostState { status }, RunInputView::State { state }) => if model::terminal(state) {
            (waits(run, RunPhaseView::Pruned), RunActionView::Prune)
        } else {
            (
                waits(run, RunPhaseView::LostEnded),
                RunActionView::Finish {
                    state: ExecutionState::Interrupted,
                    outcome: supervisor_lost(status),
                },
            )
        },
        (RunPhaseView::LostEnded, RunInputView::Done) => (
            waits(run, RunPhaseView::Pruned),
            RunActionView::Prune,
        ),
        (RunPhaseView::Pruned, RunInputView::Done) => through(run, RunActionView::Complete),
        (RunPhaseView::Pruned, RunInputView::Failed { error }) => through(
            run,
            RunActionView::Complete,
        ),
        (_, RunInputView::Failed { error }) => failed(run, error),
        _ => failed(run, ErrorView::Protocol("execution step answered out of order"@)),
    }
}

impl Run {
    /// The run of a new execution; the first thing to do is to get a slot.
    pub fn new(id: String, request: ExecutionRequest, cwd: String, settings: &Settings) -> (run: Run)
        ensures
            run@ == new_run(id@, request@, cwd@, settings@),
    {
        let limit: u64 = match request.capture_limit_bytes {
            Some(limit) => limit,
            None => settings.capture_limit_bytes,
        };
        Run {
            id,
            spawn: SupervisorCommand::Spawn {
                command: request.command,
                cwd,
                env: request.env,
                stdin_base64: request.stdin_base64,
                shell: settings.shell.clone(),
                cancel_grace_ms: settings.cancel_grace_ms,
            },
            phase: RunPhase::Slot,
            meter: CaptureMeter::new(limit),
            received_finished: false,
        }
    }

    fn wait_for(&mut self, phase: RunPhase, action: RunAction) -> (next: RunAction)
        ensures
            final(self)@ == waits(old(self)@, phase@),
            next == action,
    {
        self.phase = phase;
        action
    }

    fn fail(&mut self, error: Error) -> (next: RunAction)
        ensures
            (final(self)@, next@) == failed(old(self)@, error@),
    {
        self.phase = RunPhase::Over;
        RunAction::Fail { error }
    }

    /// Goes on with output, given what it decodes to.
    pub fn take_output(
        &mut self,
        stream: OutputStream,
        decoded: Result<Vec<u8>, String>,
        now: i64,
    ) -> (action: RunAction)
        ensures
            (final(self)@, action@) == output_taken(
                old(self)@,
                stream,
                match decoded {
                    Ok(data) => Ok(data@),
                    Err(message) => Err(message@),
                },
                now,
            ),
    {
        match decoded {
            Err(message) => self.fail(
                Error::Protocol(joined("invalid supervisor output: ", message.as_str())),
            ),
            Ok(data) => {
                let records = self.meter.capture_output(self.id.as_str(), stream, &data, now);
                if records.len() == 0 {
                    self.wait_for(RunPhase::Event, RunAction::ReadEvent)
                } else {
                    self.wait_for(RunPhase::Captured, RunAction::Capture { records })
                }
            },
        }
    }

    /// Goes on with what came back from the last action.
    #[verifier::rlimit(80)]
    pub fn step(&mut self, input: RunInput, now: i64) -> (action: RunAction)
        ensures
            (final(self)@, action@) == run_on(old(self)@, input@, now),
    {
        let mut phase = RunPhase::Over;
        std::mem::swap(&mut phase, &mut self.phase);
        match (phase, input) {
            (RunPhase::Slot, RunInput::SlotGranted) => self.wait_for(
                RunPhase::State,
                RunAction::LoadState { exclusive: false },
            ),
            (RunPhase::Slot, RunInput::SlotsClosed) => self.wait_for(
                RunPhase::Over,
                RunAction::Complete,
            ),
            (RunPhase::State, RunInput::State { state }) => {
                if state.is_terminal() {
                    self.wait_for(RunPhase::Over, RunAction::Complete)
                } else {
                    self.wait_for(RunPhase::Supervisor, RunAction::StartSupervisor)
                }
            },
            (RunPhase::Supervisor, RunInput::SpawnFailed { message }) => self.wait_for(
                RunPhase::NoStart,
                RunAction::Finish {
                    state: ExecutionState::Finished,
                    outcome: ExecutionOutcome::SpawnError {
                        message: joined("could not start loom-supervisor: ", message.as_str()),
                    },
                },
            ),
            (RunPhase::NoStart, RunInput::Done) => self.wait_for(
                RunPhase::Over,
                RunAction::Complete,
            ),
            (RunPhase::Supervisor, RunInput::Spawned) => {
                let command = self.spawn.clone();
                self.wait_for(RunPhase::SpawnSent, RunAction::Send { command })
            },
            (RunPhase::SpawnSent, RunInput::SendFailed) => self.fail(
                Error::Protocol("supervisor control writer stopped".to_owned()),
            ),
            (RunPhase::SpawnSent, RunInput::Done) => self.wait_for(
                RunPhase::RegisterState,
                RunAction::LoadState { exclusive: true },
            ),
            (RunPhase::RegisterState, RunInput::State { state }) => {
                if state.is_terminal() {
                    self.wait_for(
                        RunPhase::CancelSent,
                        RunAction::Send { command: SupervisorCommand::Cancel },
                    )
                } else {
                    self.wait_for(RunPhase::Registered, RunAction::Register)
                }
            },
            (RunPhase::Registered, RunInput::Done) => self.wait_for(
                RunPhase::Event,
                RunAction::ReadEvent,
            ),
            (RunPhase::CancelSent, RunInput::Done) => self.wait_for(
                RunPhase::Event,
                RunAction::ReadEvent,
            ),
            (RunPhase::CancelSent, RunInput::SendFailed) => self.wait_for(
                RunPhase::Event,
                RunAction::ReadEvent,
            ),
            (RunPhase::Marked, RunInput::Done) => self.wait_for(
                RunPhase::Event,
                RunAction::ReadEvent,
            ),
            (RunPhase::Captured, RunInput::Done) => self.wait_for(
                RunPhase::Event,
                RunAction::ReadEvent,
            ),
            (RunPhase::Event, RunInput::Event { event }) => match event {
                SupervisorEvent::Started { pid, pgid } => self.wait_for(
                    RunPhase::StartedState { pid, pgid },
                    RunAction::LoadState { exclusive: true },
                ),
                SupervisorEvent::Output { stream, data_base64 } => self.take_output(
                    stream,
                    decode_base64(data_base64.as_str()),
                    now,
                ),
                SupervisorEvent::Finished { outcome } => self.wait_for(
                    RunPhase::LastFlush { outcome },
                    RunAction::FlushCapture,
                ),
            },
            (RunPhase::Event, RunInput::StreamEnded) => self.wait_for(
                RunPhase::Control,
                RunAction::CloseControl,
            ),
            (RunPhase::StartedState { pid, pgid }, RunInput::State { state }) => {
                if state.is_terminal() {
                    self.wait_for(
                        RunPhase::CancelSent,
                        RunAction::Send { command: SupervisorCommand::Cancel },
                    )
                } else {
                    self.wait_for(RunPhase::Marked, RunAction::MarkRunning { pid, pgid })
                }
            },
            (RunPhase::LastFlush { outcome }, RunInput::Done) => self.wait_for(
                RunPhase::LastState { outcome },
                RunAction::LoadState { exclusive: false },
            ),
            (RunPhase::LastState { outcome }, RunInput::State { state }) => {
                if state.is_terminal() {
                    self.received_finished = true;
                    self.wait_for(RunPhase::Control, RunAction::CloseControl)
                } else {
                    let end = final_state(&outcome);
                    self.wait_for(RunPhase::Ended, RunAction::Finish { state: end, outcome })
                }
            },
            (RunPhase::Ended, RunInput::Done) => {
                self.received_finished = true;
                self.wait_for(RunPhase::Control, RunAction::CloseControl)
            },
            (RunPhase::Control, RunInput::Done) => self.wait_for(
                RunPhase::Exit,
                RunAction::AwaitExit,
            ),
            (RunPhase::Control, RunInput::ControlFailed { error }) => {
                if self.received_finished {
                    self.wait_for(RunPhase::Exit, RunAction::AwaitExit)
                } else {
                    self.fail(error)
                }
            },
            (RunPhase::Control, RunInput::ControlAborted { message }) => self.fail(
                Error::Protocol(joined("supervisor control task failed: ", message.as_str())),
            ),
            (RunPhase::Exit, RunInput::Exited { status }) => {
                if self.received_finished {
                    self.wait_for(RunPhase::Pruned, RunAction::Prune)
                } else {
                    self.wait_for(RunPhase::LostFlush { status }, RunAction::FlushCapture)
                }
            },
            (RunPhase::LostFlush { status }, RunInput::Done) => self.wait_for(
                RunPhase::LostState { status },
                RunAction::LoadState { exclusive: false },
            ),
            (RunPhase::LostState { status }, RunInput::State { state }) => {
                if state.is_terminal() {
                    self.wait_for(RunPhase::Pruned, RunAction::Prune)
                } else {
                    self.wait_for(
                        RunPhase::LostEnded,
                        RunAction::Finish {
                            state: ExecutionState::Interrupted,
                            outcome: ExecutionOutcome::Interrupted {
                                reason: joined(
                                    "loom-supervisor exited without a terminal event: ",
                                    status.as_str(),
                                ),
                            },
                        },
                    )
                }
            },
            (RunPhase::LostEnded, RunInput::Done) => self.wait_for(
                RunPhase::Pruned,
                RunAction::Prune,
            ),
            (RunPhase::Pruned, RunInput::Done) => self.wait_for(
                RunPhase::Over,
                RunAction::Complete,
            ),
            (RunPhase::Pruned, RunInput::Failed { error }) => self.wait_for(
                RunPhase::Over,
                RunAction::Complete,
            ),
            (_, RunInput::Failed { error }) => self.fail(error),
            _ => self.fail(
                Error::Protocol("execution step answered out of order".to_owned()),
            ),
        }
    }
}

/// An ending is recorded only for an execution that was just seen not to have
/// ended, or whose supervisor could not be started; and an execution is marked
/// as running only when it was just seen not to have ended.
pub proof fn only_what_is_open_is_ended(run: RunView, input: RunInputView, now: i64)
    ensures
        match run_on(run, input, now).1 {
            RunActionView::Finish { state, outcome } => input is SpawnFailed || (input matches
                RunInputView::State { state: seen } && !model::terminal(seen)),
            RunActionView::MarkRunning { pid, pgid } => input matches RunInputView::State {
                state: seen,
            } && !model::terminal(seen),
            _ => true,
        },
{
}

/// The report of the supervisor decides how an execution ends: an ending that
/// follows such a report has its outcome, and the state that goes with it.
pub proof fn the_report_decides(run: RunView, state: ExecutionState, now: i64)
    requires
        run.phase is LastState,
        !model::terminal(state),
    ensures
        run_on(run, RunInputView::State { state }, now).1 == (RunActionView::Finish {
            state: state_for(run.phase->LastState_outcome),
            outcome: run.phase->LastState_outcome,
        }),
        model::terminal(state_for(run.phase->LastState_outcome)),
{
}

/// The run of an execution that has been admitted, before anything was done.
pub open spec fn begun(run: RunView) -> bool {
    run.phase == RunPhaseView::Slot && !run.received_finished
}

/// The run after some answers, each with the time it came at.
pub open spec fn run_after(run: RunView, answers: Seq<(RunInputView, i64)>) -> RunView
    decreases answers.len(),
{
    if answers.len() == 0 {
        run
    } else {
        run_on(
            run_after(run, answers.drop_last()),
            answers.last().0,
            answers.last().1,
        ).0
    }
}

/// What the run asks for after the last of some answers.
pub open spec fn asked_last(run: RunView, answers: Seq<(RunInputView, i64)>) -> RunActionView {
    run_on(run_after(run, answers.drop_last()), answers.last().0, answers.last().1).1
}

/// Whether a slot was granted in one of the answers.
pub open spec fn slot_granted(answers: Seq<(RunInputView, i64)>) -> bool {
    exists|k: int| 0 <= k < answers.len() && (#[trigger] answers[k]).0 is SlotGranted
}

/// How many endings the run has asked to be recorded.
pub open spec fn endings(run: RunView, answers: Seq<(RunInputView, i64)>) -> nat
    decreases answers.len(),
{
    if answers.len() == 0 {
        0
    } else {
        endings(run, answers.drop_last()) + if asked_last(run, answers) is Finish {
            1nat
        } else {
            0nat
        }
    }
}

proof fn waits_for_its_slot(run: RunView, answers: Seq<(RunInputView, i64)>)
    requires
        begun(run),
        !slot_granted(answers),
    ensures
        run_after(run, answers).phase is Slot || run_after(run, answers).phase is Over,
    decreases answers.len(),
{
    if answers.len() > 0 {
        let before = answers.drop_last();
        assert forall|k: int| 0 <= k < before.len() implies !((#[trigger] before[k]).0
            is SlotGranted) by {
            assert(before[k] == answers[k]);
        }
        waits_for_its_slot(run, before);
        assert(!(answers[answers.len() - 1].0 is SlotGranted));
    }
}

/// A command is started only once a slot has been granted, and only when its
/// execution was just seen not to have ended: what was cancelled while it
/// waited is never started.
pub proof fn a_command_needs_a_slot(run: RunView, answers: Seq<(RunInputView, i64)>)
    requires
        begun(run),
        answers.len() > 0,
        asked_last(run, answers) is StartSupervisor,
    ensures
        slot_granted(answers.drop_last()),
        answers.last().0 matches RunInputView::State { state } && !model::terminal(state),
{
    if !slot_granted(answers.drop_last()) {
        waits_for_its_slot(run, answers.drop_last());
    }
}

/// A run that is turned away while it waits for its slot is over, without an
/// error, and whatever comes after it never starts a command.
pub proof fn a_run_turned_away_starts_nothing(run: RunView, answers: Seq<(RunInputView, i64)>)
    requires
        begun(run),
        answers.len() > 0,
        answers[0].0 is SlotsClosed,
    ensures
        asked_last(run, answers.take(1)) == RunActionView::Complete,
        run_after(run, answers).phase is Over,
        !(asked_last(run, answers) is StartSupervisor),
    decreases answers.len(),
{
    let before = answers.drop_last();
    if before.len() == 0 {
        assert(answers.take(1) =~= answers);
        assert(run_after(run, before) == run);
    } else {
        assert(before.take(1) =~= answers.take(1));
        a_run_turned_away_starts_nothing(run, before);
    }
}

/// Whether a run asks for no further ending.
spec fn past_its_end(run: RunView) -> bool {
    match run.phase {
        RunPhaseView::Ended => true,
        RunPhaseView::LostEnded => true,
        RunPhaseView::NoStart => true,
        RunPhaseView::Pruned => true,
        RunPhaseView::Over => true,
        RunPhaseView::Control => run.received_finished,
        RunPhaseView::Exit => run.received_finished,
        _ => false,
    }
}

proof fn no_ending_follows_an_ending(run: RunView, answers: Seq<(RunInputView, i64)>)
    ensures
        endings(run, answers) > 0 ==> past_its_end(run_after(run, answers)),
        endings(run, answers) <= 1,
    decreases answers.len(),
{
    if answers.len() > 0 {
        no_ending_follows_an_ending(run, answers.drop_last());
    }
}

/// Whatever happens, a run asks for at most one ending.
pub proof fn a_run_ends_its_execution_once(run: RunView, answers: Seq<(RunInputView, i64)>)
    ensures
        endings(run, answers) <= 1,
{
    no_ending_follows_an_ending(run, answers);
}

/// Whether a directory lies at or below a root.
pub fn workspace_contains(root: &str, cwd: &str) -> (yes: bool)
    ensures
        yes == paths::below(cwd@, root@),
{
    path_starts_with(cwd, root)
}

/// What stands in the way of an execution before its directory is looked at.
pub open spec fn admission(db: DatabaseView, lifecycle: Lifecycle, request: ExecutionRequestView) -> Result<
    WorkspaceView,
    ErrorView,
> {
    if model::request_fault(request) is Some {
        Err(model::request_fault(request)->0)
    } else if lifecycle != Lifecycle::Accepting {
        Err(ErrorView::DaemonDraining)
    } else {
        workspaces::registered(db, request.workspace_id)
    }
}

/// The workspace of a request, and the directory that it points at.
pub open spec fn prepared(
    db: DatabaseView,
    lifecycle: Lifecycle,
    request: ExecutionRequestView,
) -> Result<(WorkspaceView, Seq<char>), ErrorView> {
    match admission(db, lifecycle, request) {
        Err(error) => Err(error),
        Ok(workspace) => Ok((workspace, model::cwd_pointed_at(workspace.root, request.cwd))),
    }
}

/// Finds the workspace of a request, and the directory that it points at, with
/// its links not yet resolved.
pub fn prepare_execution(db: &Database, lifecycle: Lifecycle, request: &ExecutionRequest) -> (prepared: Result<
    (Workspace, String),
    Error,
>)
    ensures
        error::outcome_view(prepared, |found: (Workspace, String)| (found.0@, found.1@))
            == self::prepared(db@, lifecycle, request@),
{
    match request.validate() {
        Err(error) => {
            return Err(error);
        },
        Ok(()) => {},
    }
    if lifecycle != Lifecycle::Accepting {
        return Err(Error::DaemonDraining);
    }
    match db.get_workspace(request.workspace_id.as_str()) {
        Err(error) => Err(error),
        Ok(workspace) => {
            let candidate = match &request.cwd {
                Some(path) => workspace.cwd_candidate(Some(path.as_str())),
                None => workspace.cwd_candidate(None),
            };
            Ok((workspace, candidate))
        },
    }
}

/// Admitting an execution: it is recorded under the workspace's identifier,
/// with a directory inside the workspace.
pub open spec fn admitted(
    db: DatabaseView,
    workspace: WorkspaceView,
    request: ExecutionRequestView,
    canonical: Seq<char>,
    id: Seq<char>,
    now: i64,
) -> (DatabaseView, Result<ExecutionView, ErrorView>) {
    if !paths::below(canonical, workspace.root) {
        (
            db,
            Err(ErrorView::OutsideWorkspace { path: canonical, workspace: workspace.root }),
        )
    } else {
        executions::create_execution_step(
            db,
            ExecutionRequestView { workspace_id: workspace.id, ..request },
            canonical,
            id,
            now,
        )
    }
}

/// Admits an execution whose directory is `canonical`, with its links
/// resolved.
pub fn admit_execution(
    db: &mut Database,
    workspace: &Workspace,
    request: &mut ExecutionRequest,
    canonical: String,
    id: String,
    now: i64,
) -> (execution: Result<Execution, Error>)
    ensures
        (final(db)@, error::viewed(execution)) == admitted(
            old(db)@,
            workspace@,
            old(request)@,
            canonical@,
            id@,
            now,
        ),
        final(request)@ == (ExecutionRequestView {
            workspace_id: workspace@.id,
            ..old(request)@
        }),
{
    request.workspace_id = workspace.id.clone();
    match workspace.resolve_cwd(canonical) {
        Err(error) => Err(error),
        Ok(cwd) => db.create_execution_at(request, cwd.as_str(), id, now),
    }
}

/// An execution that was admitted runs in a directory of its workspace, and is
/// queued.
pub proof fn admitted_work_stays_inside(
    db: DatabaseView,
    workspace: WorkspaceView,
    request: ExecutionRequestView,
    canonical: Seq<char>,
    id: Seq<char>,
    now: i64,
)
    ensures
        admitted(db, workspace, request, canonical, id, now).1 matches Ok(execution)
            ==> paths::below(execution.cwd, workspace.root) && execution.workspace_id
            == workspace.id && execution.state == ExecutionState::Queued,
        admitted(db, workspace, request, canonical, id, now).1 is Err ==> admitted(
            db,
            workspace,
            request,
            canonical,
            id,
            now,
        ).0 == db,
{
}

/// What is done about a run that failed.
#[derive(Debug)]
pub struct FailurePlan {
    pub fatal: Option<String>,
    pub ending: Option<ExecutionOutcome>,
}

/// What stops the daemon of a failure: a store that is gone.
pub open spec fn fatal_part(error: ErrorView) -> Option<Seq<char>> {
    if error is StorageUnavailable {
        Some(error::error_message(error))
    } else {
        None
    }
}

/// How an execution ends whose run failed: it is interrupted, unless it has
/// ended or is not known.
pub open spec fn ending_on_failure(error: ErrorView, current: Option<ExecutionState>) -> Option<
    ExecutionOutcomeView,
> {
    match current {
        Some(state) => if model::terminal(state) {
            None
        } else {
            Some(ExecutionOutcomeView::Interrupted { reason: error::error_message(error) })
        },
        None => None,
    }
}

/// What is done about a run that failed: a store that is gone stops the
/// daemon, and an execution that has not ended is interrupted. `current` is
/// the state of the execution where it could be loaded.
pub fn plan_failure(error: &Error, current: Option<ExecutionState>) -> (plan: FailurePlan)
    ensures
        text::maybe_text(plan.fatal) == fatal_part(error@),
        (match plan.ending {
            Some(outcome) => Some(outcome@),
            None => None,
        }) == ending_on_failure(error@, current),
{
    let fatal = match error {
        Error::StorageUnavailable(_) => Some(error.message()),
        _ => None,
    };
    let ending = match current {
        Some(state) => if state.is_terminal() {
            None
        } else {
            Some(ExecutionOutcome::Interrupted { reason: error.message() })
        },
        None => None,
    };
    FailurePlan { fatal, ending }
}

/// What cancelling an execution takes.
#[derive(Debug, Clone, Copy, PartialEq, Eq, Structural)]
pub enum CancelPlan {
    /// End it as cancelled, and tell its supervisor, where it has one.
    EndQueued,
    /// Tell its supervisor.
    TellSupervisor,
}

/// What cancelling an execution takes, by its state.
pub open spec fn cancel_plan(id: Seq<char>, state: ExecutionState, supervised: bool) -> Result<
    CancelPlan,
    ErrorView,
> {
    match state {
        ExecutionState::Queued => Ok(CancelPlan::EndQueued),
        ExecutionState::Running => if supervised {
            Ok(CancelPlan::TellSupervisor)
        } else {
            Err(
                ErrorView::Protocol(
                    "execution "@ + id + " is running but has no supervisor handle"@,
                ),
            )
        },
        _ => Err(ErrorView::AlreadyTerminal(id)),
    }
}

/// What cancelling an execution takes.
pub fn plan_cancel(id: &str, state: ExecutionState, supervised: bool) -> (plan: Result<
    CancelPlan,
    Error,
>)
    ensures
        error::outcome_view(plan, |plan: CancelPlan| plan) == cancel_plan(id@, state, supervised),
{
    match state {
        ExecutionState::Queued => Ok(CancelPlan::EndQueued),
        ExecutionState::Running => {
            if supervised {
                Ok(CancelPlan::TellSupervisor)
            } else {
                Err(
                    Error::Protocol(
                        joined3("execution ", id, " is running but has no supervisor handle"),
                    ),
                )
            }
        },
        _ => Err(Error::AlreadyTerminal(id.to_owned())),
    }
}

/// How an execution ends that is cancelled while it is queued.
pub fn cancel_ending() -> (ending: (ExecutionState, ExecutionOutcome))
    ensures
        ending.0 == ExecutionState::Cancelled,
        ending.1@ == (ExecutionOutcomeView::Cancelled { signal: None }),
{
    (ExecutionState::Cancelled, ExecutionOutcome::Cancelled { signal: None })
}

/// What is seen while an execution that was told to end is waited for.
#[derive(Debug)]
pub enum CancelLook {
    /// Its record.
    Found { execution: Execution },
    /// Its record cannot be read.
    Failed { error: Error },
    /// Nothing more will be heard of it.
    Closed,
    /// It has taken too long.
    TimedOut,
}

/// What comes next for the one who cancelled.
#[derive(Debug)]
pub enum CancelStep {
    /// Answer.
    Answer { answer: Result<Execution, Error> },
    /// Look again once something has happened.
    Wait,
}

/// The answer to the one who cancelled, where there is one: the execution is
/// handed back only once it has ended.
pub open spec fn cancel_answer(look: CancelLook) -> Option<Result<ExecutionView, ErrorView>> {
    match look {
        CancelLook::Found { execution } => if model::terminal(execution@.state) {
            Some(Ok(execution@))
        } else {
            None
        },
        CancelLook::Failed { error } => Some(Err(error@)),
        CancelLook::Closed => Some(Err(ErrorView::Protocol("execution event channel closed"@))),
        CancelLook::TimedOut => Some(Err(ErrorView::Timeout)),
    }
}

/// Decides whether the one who cancelled is answered or waits on.
pub fn cancel_step(look: CancelLook) -> (step: CancelStep)
    ensures
        (match step {
            CancelStep::Answer { answer } => Some(error::viewed(answer)),
            CancelStep::Wait => None,
        }) == cancel_answer(look),
{
    match look {
        CancelLook::Found { execution } => {
            if execution.state.is_terminal() {
                CancelStep::Answer { answer: Ok(execution) }
            } else {
                CancelStep::Wait
            }
        },
        CancelLook::Failed { error } => CancelStep::Answer { answer: Err(error) },
        CancelLook::Closed => CancelStep::Answer {
            answer: Err(Error::Protocol("execution event channel closed".to_owned())),
        },
        CancelLook::TimedOut => CancelStep::Answer { answer: Err(Error::Timeout) },
    }
}

/// An execution that is cancelled while it is queued ends at once, and whoever
/// cancelled it is answered at the first look.
pub proof fn cancelling_what_is_queued_is_answered(
    db: DatabaseView,
    id: Seq<char>,
    now: i64,
    later: i64,
    look: CancelLook,
)
    requires
        rows::execution_place(db, id) matches Some(at) && db.executions[at].state
            == ExecutionState::Queued,
        ({
            let after = executions::finish_step(
                db,
                id,
                ExecutionState::Cancelled,
                ExecutionOutcomeView::Cancelled { signal: None },
                now,
            ).0;
            look matches CancelLook::Found { execution } && execution@ == executions::execution_of(
                after.executions[rows::execution_place(db, id)->0],
                later,
            )
        }),
    ensures
        cancel_answer(look) matches Some(Ok(execution)) && execution.id == id && execution.state
            == ExecutionState::Cancelled && execution.outcome == Some(
            ExecutionOutcomeView::Cancelled { signal: None },
        ),
{
    crate::order::position_is_first(db.executions, |row: ExecutionRowView| row.id == id);
}

/// How long cancelling or running out may take.
pub open spec fn settle_time(cancel_grace_ms: u64) -> int {
    if cancel_grace_ms + SHUTDOWN_SETTLE_MS > u64::MAX {
        u64::MAX as int
    } else {
        cancel_grace_ms + SHUTDOWN_SETTLE_MS
    }
}

/// How long cancelling or running out may take.
pub fn settle_timeout_ms(cancel_grace_ms: u64) -> (timeout: u64)
    ensures
        timeout == settle_time(cancel_grace_ms),
{
    cancel_grace_ms.saturating_add(SHUTDOWN_SETTLE_MS)
}

/// Whether a wait is answered at once: the execution has ended, or there is
/// something to read.
pub open spec fn answerable(page: ReadOutputResponseView) -> bool {
    model::terminal(page.execution.state) || page.events.len() > 0
}

/// Whether an event ends a wait for what comes after `after_seq`.
pub open spec fn ends_wait(event: ExecutionEventView, id: Seq<char>, after_seq: u64) -> bool {
    event.execution_id == id && event.seq > after_seq
}

/// The answer to a wait.
pub open spec fn wait_answer(page: ReadOutputResponseView, timed_out: bool) -> WaitResponseView {
    WaitResponseView {
        execution: page.execution,
        events: page.events,
        next_seq: page.next_seq,
        has_more: page.has_more,
        timed_out,
    }
}

/// Whether a wait is answered at once.
pub fn answers_at_once(page: &ReadOutputResponse) -> (yes: bool)
    ensures
        yes == answerable(page@),
{
    page.execution.state.is_terminal() || page.events.len() > 0
}

/// Whether an event ends a wait for what comes after `after_seq`.
pub fn wakes(event: &ExecutionEvent, id: &str, after_seq: u64) -> (yes: bool)
    ensures
        yes == ends_wait(event@, id@, after_seq),
{
    same_text(event.execution_id.as_str(), id) && event.seq > after_seq
}

/// The answer to a wait.
pub fn wait_response(page: ReadOutputResponse, timed_out: bool) -> (response: WaitResponse)
    ensures
        response@ == wait_answer(page@, timed_out),
{
    WaitResponse {
        execution: page.execution,
        events: page.events,
        next_seq: page.next_seq,
        has_more: page.has_more,
        timed_out,
    }
}

/// Where the engine stands once it has begun to run out.
pub open spec fn drained(lifecycle: Lifecycle) -> Lifecycle {
    if lifecycle == Lifecycle::Stopped {
        Lifecycle::Stopped
    } else {
        Lifecycle::Draining
    }
}

/// Begins to run out, unless the engine is through already; says whether there
/// is anything to do.
pub fn begin_drain(lifecycle: &mut Lifecycle) -> (begun: bool)
    ensures
        begun == (*old(lifecycle) != Lifecycle::Stopped),
        *final(lifecycle) == drained(*old(lifecycle)),
{
    if *lifecycle == Lifecycle::Stopped {
        false
    } else {
        *lifecycle = Lifecycle::Draining;
        true
    }
}

/// While the engine runs out nothing is admitted.
pub proof fn draining_admits_nothing(
    db: DatabaseView,
    lifecycle: Lifecycle,
    request: ExecutionRequestView,
)
    requires
        lifecycle != Lifecycle::Accepting,
    ensures
        admission(db, lifecycle, request) is Err,
{
}

} // verus!
