//! What becomes of a command's output, from its capture to the subscriber: the
//! bytes that came are the bytes that are stored and read, and every event
//! comes once and in order.

use vstd::prelude::*;

use crate::client;
use crate::daemon;
use crate::daemon::{ReplayStatus, SubscriptionView};
use crate::error;
use crate::executor;
use crate::executor::PieceView;
use crate::model::{ExecutionEventView, OutputStream};
use crate::order;
use crate::protocol::{ProtocolResultView, SubscriptionResponseView, WireMessageView};
use crate::store::capture;
use crate::store::capture::CaptureRecordView;
use crate::store::executions;
use crate::store::laws;
use crate::store::reading;
use crate::store::rows;
use crate::store::rows::{DatabaseView, ExecutionRowView, StoredEventView, StoredPayloadView};
use crate::text;

verus! {

/// The event that a record is stored as.
pub open spec fn stored_as(record: CaptureRecordView) -> StoredEventView {
    match record {
        CaptureRecordView::Output { execution_id, timestamp_ms, stream, data } =>
            StoredEventView {
                timestamp_ms,
                payload: StoredPayloadView::Output { stream, data },
            },
        CaptureRecordView::Truncated { execution_id, timestamp_ms, limit_bytes } =>
            StoredEventView {
                timestamp_ms,
                payload: StoredPayloadView::CaptureTruncated { limit_bytes },
            },
    }
}

/// The events that the records of one execution are stored as.
pub open spec fn stored_for(records: Seq<CaptureRecordView>, id: Seq<char>) -> Seq<StoredEventView>
    decreases records.len(),
{
    if records.len() == 0 {
        Seq::empty()
    } else {
        let before = stored_for(records.drop_last(), id);
        if capture::record_execution(records.last()) == id {
            before.push(stored_as(records.last()))
        } else {
            before
        }
    }
}

/// A batch of records is stored whole and in order, whatever else stands in
/// the batch: what is stored of an execution is what was stored before, and
/// its own records after that.
pub proof fn a_batch_is_stored_in_order(
    db: DatabaseView,
    records: Seq<CaptureRecordView>,
    id: Seq<char>,
)
    requires
        rows::execution_place(db, id) is Some,
        capture::records_step(db, records) is Ok,
    ensures
        ({
            let at = rows::execution_place(db, id)->0;
            let after = capture::records_step(db, records)->Ok_0.0;
            &&& 0 <= at < db.executions.len()
            &&& rows::execution_place(after, id) == Some(at)
            &&& after.executions.len() == db.executions.len()
            &&& after.executions[at].events == db.executions[at].events + stored_for(records, id)
        }),
    decreases records.len(),
{
    let test = |row: ExecutionRowView| row.id == id;
    order::position_is_first(db.executions, test);
    let at = rows::execution_place(db, id)->0;
    if records.len() == 0 {
        assert(db.executions[at].events + stored_for(records, id) =~= db.executions[at].events);
    } else {
        let front = records.drop_last();
        let record = records.last();
        a_batch_is_stored_in_order(db, front, id);
        let middle = capture::records_step(db, front)->Ok_0.0;
        let after = capture::records_step(db, records)->Ok_0.0;
        order::position_is_first(middle.executions, test);
        let other = capture::record_execution(record);
        let match_other = |row: ExecutionRowView| row.id == other;
        order::position_is_first(middle.executions, match_other);
        let changed = rows::execution_place(middle, other)->0;
        if other == id {
            assert(changed == at);
        } else {
            assert(changed != at);
        }
        assert forall|k: int| 0 <= k < after.executions.len() implies (#[trigger] after.executions[k]).id
            == middle.executions[k].id by {}
        assert(order::first_at(after.executions, test, at));
        order::position_found(after.executions, test, at);
        assert(after.executions[at].events =~= db.executions[at].events + stored_for(records, id));
    }
}

/// The bytes of output that some events hold, one after the other.
pub open spec fn bytes_in(events: Seq<StoredEventView>) -> Seq<u8>
    decreases events.len(),
{
    if events.len() == 0 {
        Seq::empty()
    } else {
        match events.last().payload {
            StoredPayloadView::Output { stream, data } => bytes_in(events.drop_last()) + data,
            _ => bytes_in(events.drop_last()),
        }
    }
}

proof fn bytes_in_more(events: Seq<StoredEventView>, more: Seq<StoredEventView>)
    ensures
        bytes_in(events + more) == bytes_in(events) + bytes_in(more),
    decreases more.len(),
{
    if more.len() == 0 {
        assert(events + more =~= events);
        assert(bytes_in(events) + bytes_in(more) =~= bytes_in(events));
    } else {
        bytes_in_more(events, more.drop_last());
        assert((events + more).drop_last() =~= events + more.drop_last());
        assert((events + more).last() == more.last());
        assert(bytes_in(events + more) =~= bytes_in(events) + bytes_in(more));
    }
}

proof fn kept_is_stored(records: Seq<CaptureRecordView>, id: Seq<char>)
    requires
        forall|k: int|
            0 <= k < records.len() ==> capture::record_execution(#[trigger] records[k]) == id,
    ensures
        bytes_in(stored_for(records, id)) == executor::bytes_kept(records),
    decreases records.len(),
{
    if records.len() > 0 {
        kept_is_stored(records.drop_last(), id);
        let all = stored_for(records, id);
        assert(capture::record_execution(records[records.len() - 1]) == id);
        assert(all.drop_last() =~= stored_for(records.drop_last(), id));
    }
}

proof fn measured_for_one(limit: u64, id: Seq<char>, pieces: Seq<PieceView>)
    ensures
        ({
            let records = executor::measured_all(limit, id, pieces).1;
            forall|k: int|
                0 <= k < records.len() ==> capture::record_execution(#[trigger] records[k]) == id
        }),
    decreases pieces.len(),
{
    if pieces.len() > 0 {
        measured_for_one(limit, id, pieces.drop_last());
        let (meter, before) = executor::measured_all(limit, id, pieces.drop_last());
        let piece = pieces.last();
        let more = executor::measured(meter, id, piece.stream, piece.data, piece.now).1;
        let records = executor::measured_all(limit, id, pieces).1;
        assert(records == before + more);
        assert forall|k: int| 0 <= k < records.len() implies capture::record_execution(
            #[trigger] records[k],
        ) == id by {
            if k < before.len() {
                assert(records[k] == before[k]);
            } else {
                assert(records[k] == more[k - before.len()]);
            }
        }
    }
}

/// What is stored of an execution is what came from it, byte for byte and in
/// the order it came, up to the limit.
pub proof fn stored_output_is_what_came(
    db: DatabaseView,
    limit: u64,
    id: Seq<char>,
    pieces: Seq<PieceView>,
)
    requires
        rows::execution_place(db, id) is Some,
        executor::all_bytes(pieces).len() <= u64::MAX,
        capture::records_step(db, executor::measured_all(limit, id, pieces).1) is Ok,
    ensures
        ({
            let at = rows::execution_place(db, id)->0;
            let records = executor::measured_all(limit, id, pieces).1;
            let after = capture::records_step(db, records)->Ok_0.0;
            let all = executor::all_bytes(pieces);
            bytes_in(after.executions[at].events) == bytes_in(db.executions[at].events) + all.take(
                if all.len() < limit {
                    all.len() as int
                } else {
                    limit as int
                },
            )
        }),
{
    let at = rows::execution_place(db, id)->0;
    let records = executor::measured_all(limit, id, pieces).1;
    a_batch_is_stored_in_order(db, records, id);
    executor::the_front_is_kept(limit, id, pieces);
    measured_for_one(limit, id, pieces);
    kept_is_stored(records, id);
    bytes_in_more(db.executions[at].events, stored_for(records, id));
}

/// The bytes that some events hold of one stream, one after the other.
pub open spec fn stream_in(events: Seq<StoredEventView>, stream: OutputStream) -> Seq<u8>
    decreases events.len(),
{
    if events.len() == 0 {
        Seq::empty()
    } else {
        match events.last().payload {
            StoredPayloadView::Output { stream: own, data } => if own == stream {
                stream_in(events.drop_last(), stream) + data
            } else {
                stream_in(events.drop_last(), stream)
            },
            _ => stream_in(events.drop_last(), stream),
        }
    }
}

/// All that came on one stream.
pub open spec fn stream_of(pieces: Seq<PieceView>, stream: OutputStream) -> Seq<u8>
    decreases pieces.len(),
{
    if pieces.len() == 0 {
        Seq::empty()
    } else if pieces.last().stream == stream {
        stream_of(pieces.drop_last(), stream) + pieces.last().data
    } else {
        stream_of(pieces.drop_last(), stream)
    }
}

proof fn stream_in_more(
    events: Seq<StoredEventView>,
    more: Seq<StoredEventView>,
    stream: OutputStream,
)
    ensures
        stream_in(events + more, stream) == stream_in(events, stream) + stream_in(more, stream),
    decreases more.len(),
{
    if more.len() == 0 {
        assert(events + more =~= events);
        assert(stream_in(events, stream) + stream_in(more, stream) =~= stream_in(events, stream));
    } else {
        stream_in_more(events, more.drop_last(), stream);
        assert((events + more).drop_last() =~= events + more.drop_last());
        assert((events + more).last() == more.last());
        assert(stream_in(events + more, stream) =~= stream_in(events, stream) + stream_in(
            more,
            stream,
        ));
    }
}

proof fn stored_for_more(
    records: Seq<CaptureRecordView>,
    more: Seq<CaptureRecordView>,
    id: Seq<char>,
)
    ensures
        stored_for(records + more, id) == stored_for(records, id) + stored_for(more, id),
    decreases more.len(),
{
    if more.len() == 0 {
        assert(records + more =~= records);
        assert(stored_for(records, id) + stored_for(more, id) =~= stored_for(records, id));
    } else {
        stored_for_more(records, more.drop_last(), id);
        assert((records + more).drop_last() =~= records + more.drop_last());
        assert((records + more).last() == more.last());
        assert(stored_for(records + more, id) =~= stored_for(records, id) + stored_for(more, id));
    }
}

/// What a piece of output is stored as, of one stream.
proof fn piece_of_stream(
    meter: executor::CaptureMeter,
    id: Seq<char>,
    piece: PieceView,
    stream: OutputStream,
)
    ensures
        ({
            let more = executor::measured(meter, id, piece.stream, piece.data, piece.now).1;
            let kept = executor::kept_of(meter, piece.data.len() as int);
            stream_in(stored_for(more, id), stream) == if piece.stream == stream {
                piece.data.take(kept)
            } else {
                Seq::empty()
            }
        }),
{
    let more = executor::measured(meter, id, piece.stream, piece.data, piece.now).1;
    let kept = executor::kept_of(meter, piece.data.len() as int);
    let output = CaptureRecordView::Output {
        execution_id: id,
        timestamp_ms: piece.now,
        stream: piece.stream,
        data: piece.data.take(kept),
    };
    let note = CaptureRecordView::Truncated {
        execution_id: id,
        timestamp_ms: piece.now,
        limit_bytes: meter.limit,
    };
    let lost = kept < piece.data.len();
    reveal_with_fuel(stored_for, 3);
    reveal_with_fuel(stream_in, 3);
    let events = stored_for(more, id);
    if kept > 0 && lost && !meter.truncated {
        assert(more =~= seq![output, note]);
        assert(more.drop_last() =~= seq![output]);
        assert(seq![output].drop_last() =~= Seq::empty());
        assert(events =~= seq![stored_as(output), stored_as(note)]);
        assert(events.drop_last() =~= seq![stored_as(output)]);
        assert(seq![stored_as(output)].drop_last() =~= Seq::empty());
    } else if kept > 0 {
        assert(more =~= seq![output]);
        assert(more.drop_last() =~= Seq::empty());
        assert(events =~= seq![stored_as(output)]);
        assert(events.drop_last() =~= Seq::empty());
    } else if lost && !meter.truncated {
        assert(more =~= seq![note]);
        assert(more.drop_last() =~= Seq::empty());
        assert(events =~= seq![stored_as(note)]);
        assert(events.drop_last() =~= Seq::empty());
    } else {
        assert(more =~= Seq::empty());
    }
    assert(Seq::<u8>::empty() + piece.data.take(kept) =~= piece.data.take(kept));
    if kept <= 0 {
        assert(piece.data.take(kept) =~= Seq::empty());
    }
}

proof fn stream_is_kept(limit: u64, id: Seq<char>, pieces: Seq<PieceView>, stream: OutputStream)
    requires
        executor::all_bytes(pieces).len() <= u64::MAX,
    ensures
        ({
            let stored = stream_in(
                stored_for(executor::measured_all(limit, id, pieces).1, id),
                stream,
            );
            let came = stream_of(pieces, stream);
            &&& stored.len() <= came.len()
            &&& stored == came.take(stored.len() as int)
            &&& executor::all_bytes(pieces).len() <= limit ==> stored == came
        }),
    decreases pieces.len(),
{
    if pieces.len() > 0 {
        let before = pieces.drop_last();
        let piece = pieces.last();
        assert(executor::all_bytes(pieces).len() == executor::all_bytes(before).len()
            + piece.data.len());
        stream_is_kept(limit, id, before, stream);
        executor::the_front_is_kept(limit, id, before);
        let (meter, records) = executor::measured_all(limit, id, before);
        let more = executor::measured(meter, id, piece.stream, piece.data, piece.now).1;
        let kept = executor::kept_of(meter, piece.data.len() as int);
        stored_for_more(records, more, id);
        stream_in_more(stored_for(records, id), stored_for(more, id), stream);
        piece_of_stream(meter, id, piece, stream);
        let held = stream_in(stored_for(records, id), stream);
        let stored = stream_in(stored_for(records + more, id), stream);
        let came = stream_of(pieces, stream);
        if piece.stream == stream {
            if executor::all_bytes(before).len() <= limit {
                assert(held == stream_of(before, stream));
                assert(stored =~= came.take(stored.len() as int));
                if executor::all_bytes(pieces).len() <= limit {
                    assert(piece.data.take(kept) =~= piece.data);
                }
            } else {
                assert(kept == 0);
                assert(stored =~= held);
                assert(stored =~= came.take(stored.len() as int));
            }
        } else {
            assert(stored =~= held);
        }
    } else {
        assert(stream_of(pieces, stream).take(0) =~= Seq::empty());
    }
}

/// What is stored of a stream is what came on it, byte for byte, whatever came
/// on the other one in between: the front of it, and all of it where the limit
/// is not exceeded.
pub proof fn each_stream_is_stored_exactly(
    db: DatabaseView,
    limit: u64,
    id: Seq<char>,
    pieces: Seq<PieceView>,
    stream: OutputStream,
)
    requires
        rows::execution_place(db, id) is Some,
        executor::all_bytes(pieces).len() <= u64::MAX,
        capture::records_step(db, executor::measured_all(limit, id, pieces).1) is Ok,
    ensures
        ({
            let at = rows::execution_place(db, id)->0;
            let records = executor::measured_all(limit, id, pieces).1;
            let after = capture::records_step(db, records)->Ok_0.0;
            let before = stream_in(db.executions[at].events, stream);
            let stored = stream_in(after.executions[at].events, stream);
            let came = stream_of(pieces, stream);
            &&& before.len() <= stored.len() <= before.len() + came.len()
            &&& stored == before + came.take(stored.len() - before.len())
            &&& executor::all_bytes(pieces).len() <= limit ==> stored == before + came
        }),
{
    let at = rows::execution_place(db, id)->0;
    let records = executor::measured_all(limit, id, pieces).1;
    a_batch_is_stored_in_order(db, records, id);
    stream_in_more(db.executions[at].events, stored_for(records, id), stream);
    stream_is_kept(limit, id, pieces, stream);
}

/// One step in serving a subscriber: a page that is read from the cursor on
/// and replayed, or an event that has just happened.
pub enum DeliveryView {
    Page { row: ExecutionRowView, max_bytes: usize, now: i64 },
    Live { event: ExecutionEventView },
}

/// Whether a step serves from the log of an execution: a page comes from an
/// earlier stage of it that reaches to the cursor, and a live event of the
/// execution is the one that the log holds under its number.
pub open spec fn serves(log: ExecutionRowView, subscription: SubscriptionView, step: DeliveryView) -> bool {
    match step {
        DeliveryView::Page { row, max_bytes, now } => {
            &&& row.id == log.id
            &&& row.events.is_prefix_of(log.events)
            &&& subscription.cursor <= row.events.len()
        },
        DeliveryView::Live { event } => event.execution_id == subscription.execution_id ==> {
            &&& 1 <= event.seq <= log.events.len()
            &&& event == executions::event_of(log.id, event.seq, log.events[event.seq - 1])
        },
    }
}

/// The subscription after a step, and the messages that it sends.
pub open spec fn delivered(subscription: SubscriptionView, step: DeliveryView) -> (
    SubscriptionView,
    Seq<WireMessageView>,
) {
    match step {
        DeliveryView::Page { row, max_bytes, now } => {
            let (after, messages, status) = daemon::replayed(
                subscription,
                reading::page_of(row, subscription.cursor, max_bytes, now),
            );
            (after, messages)
        },
        DeliveryView::Live { event } => daemon::sent_live(subscription, event),
    }
}

/// The subscription after some steps, and all the messages that they send.
pub open spec fn delivered_all(subscription: SubscriptionView, steps: Seq<DeliveryView>) -> (
    SubscriptionView,
    Seq<WireMessageView>,
)
    decreases steps.len(),
{
    if steps.len() == 0 {
        (subscription, Seq::empty())
    } else {
        let (before, messages) = delivered_all(subscription, steps.drop_last());
        let (after, more) = delivered(before, steps.last());
        (after, messages + more)
    }
}

/// Whether every step serves from the log, with the subscription as it stands
/// then.
pub open spec fn all_serve(
    log: ExecutionRowView,
    subscription: SubscriptionView,
    steps: Seq<DeliveryView>,
) -> bool
    decreases steps.len(),
{
    steps.len() > 0 ==> all_serve(log, subscription, steps.drop_last()) && serves(
        log,
        delivered_all(subscription, steps.drop_last()).0,
        steps.last(),
    )
}

/// The first messages of a log from a cursor on.
pub open spec fn log_messages(
    log: ExecutionRowView,
    subscription_id: Seq<char>,
    cursor: int,
    count: nat,
) -> Seq<WireMessageView> {
    Seq::new(
        count,
        |k: int|
            daemon::event_message(
                subscription_id,
                executions::event_of(log.id, (cursor + k + 1) as u64, log.events[cursor + k]),
            ),
    )
}

/// However a subscriber is served, by pages of any size and by live events in
/// any mixture, it is sent the log of the execution from its cursor on: every
/// event once, in order and without a gap.
pub proof fn a_subscriber_is_sent_the_log(
    log: ExecutionRowView,
    subscription: SubscriptionView,
    steps: Seq<DeliveryView>,
)
    requires
        log.id == subscription.execution_id,
        log.events.len() <= i64::MAX,
        subscription.cursor <= log.events.len(),
        all_serve(log, subscription, steps),
    ensures
        ({
            let (after, messages) = delivered_all(subscription, steps);
            &&& after.subscription_id == subscription.subscription_id
            &&& after.execution_id == subscription.execution_id
            &&& after.cursor == subscription.cursor + messages.len()
            &&& after.cursor <= log.events.len()
            &&& messages == log_messages(
                log,
                subscription.subscription_id,
                subscription.cursor as int,
                messages.len(),
            )
        }),
    decreases steps.len(),
{
    let (after, messages) = delivered_all(subscription, steps);
    if steps.len() == 0 {
        assert(messages =~= log_messages(
            log,
            subscription.subscription_id,
            subscription.cursor as int,
            messages.len(),
        ));
    } else {
        a_subscriber_is_sent_the_log(log, subscription, steps.drop_last());
        let (before, sent) = delivered_all(subscription, steps.drop_last());
        let (then, more) = delivered(before, steps.last());
        match steps.last() {
            DeliveryView::Page { row, max_bytes, now } => {
                let page = reading::page_of(row, before.cursor, max_bytes, now);
                assert(row.events =~= log.events.subrange(0, row.events.len() as int));
                laws::a_page_continues_the_reading(row, before.cursor, max_bytes, now);
                daemon::replaying_leaves_no_gap(before, row, max_bytes, now);
                daemon::replaying_keeps_the_subscription(before, page.events);
                assert forall|k: int| 0 <= k < more.len() implies #[trigger] more[k]
                    == daemon::event_message(
                    subscription.subscription_id,
                    executions::event_of(
                        log.id,
                        (before.cursor + k + 1) as u64,
                        log.events[before.cursor + k],
                    ),
                ) by {
                    assert(more[k] == daemon::event_message(
                        before.subscription_id,
                        page.events[k],
                    ));
                    assert(page.events[k].seq == before.cursor + k + 1);
                    assert(row.events[before.cursor + k] == log.events[before.cursor + k]);
                }
            },
            DeliveryView::Live { event } => {},
        }
        assert forall|k: int| 0 <= k < messages.len() implies messages[k] == log_messages(
            log,
            subscription.subscription_id,
            subscription.cursor as int,
            messages.len(),
        )[k] by {
            if k >= sent.len() {
                assert(messages[k] == more[k - sent.len()]);
                assert(subscription.cursor + k == before.cursor + (k - sent.len()));
            } else {
                assert(messages[k] == sent[k]);
            }
        }
        assert(messages =~= log_messages(
            log,
            subscription.subscription_id,
            subscription.cursor as int,
            messages.len(),
        ));
    }
}

/// Whether a subscription is over after a step.
pub open spec fn ends_with(subscription: SubscriptionView, step: DeliveryView) -> bool {
    match step {
        DeliveryView::Page { row, max_bytes, now } => daemon::replayed(
            subscription,
            reading::page_of(row, subscription.cursor, max_bytes, now),
        ).2 == ReplayStatus::Closed,
        DeliveryView::Live { event } => daemon::sent_live(subscription, event).1.len() > 0
            && daemon::is_last(event),
    }
}

/// How many of the steps are taken: those up to the one that the subscription
/// is over with.
pub open spec fn steps_taken(subscription: SubscriptionView, steps: Seq<DeliveryView>) -> int
    decreases steps.len(),
{
    if steps.len() == 0 {
        0
    } else {
        let some = steps.drop_last();
        let count = steps_taken(subscription, some);
        if count < some.len() || (count > 0 && ends_with(
            delivered_all(subscription, some.take(count - 1)).0,
            some[count - 1],
        )) {
            count
        } else {
            count + 1
        }
    }
}

/// All that is sent to someone who asks to subscribe: the answer, and where it
/// opens a subscription the messages of the steps that are taken.
pub open spec fn conversation(
    db: DatabaseView,
    subscription_id: Seq<char>,
    execution_id: Seq<char>,
    after_seq: u64,
    now: i64,
    steps: Seq<DeliveryView>,
) -> Seq<WireMessageView> {
    let (answer, opened) = daemon::subscription_opened(
        db,
        subscription_id,
        execution_id,
        after_seq,
        now,
    );
    match opened {
        None => seq![answer],
        Some(subscription) => seq![answer] + delivered_all(
            subscription,
            steps.take(steps_taken(subscription, steps)),
        ).1,
    }
}

proof fn steps_taken_bounds(subscription: SubscriptionView, steps: Seq<DeliveryView>)
    ensures
        0 <= steps_taken(subscription, steps) <= steps.len(),
        forall|k: int|
            0 <= k < steps_taken(subscription, steps) - 1 ==> !ends_with(
                delivered_all(subscription, #[trigger] steps.take(k)).0,
                steps[k],
            ),
    decreases steps.len(),
{
    if steps.len() > 0 {
        let some = steps.drop_last();
        steps_taken_bounds(subscription, some);
        assert forall|k: int| 0 <= k < steps_taken(subscription, steps) - 1 implies !ends_with(
            delivered_all(subscription, #[trigger] steps.take(k)).0,
            steps[k],
        ) by {
            assert(some.take(k) =~= steps.take(k));
            assert(some[k] == steps[k]);
        }
    }
}

proof fn nothing_follows_the_last(
    log: ExecutionRowView,
    subscription: SubscriptionView,
    steps: Seq<DeliveryView>,
)
    requires
        log.id == subscription.execution_id,
        log.events.len() <= i64::MAX,
        subscription.cursor <= log.events.len(),
        all_serve(log, subscription, steps),
        forall|k: int|
            0 <= k < steps.len() - 1 ==> !ends_with(
                delivered_all(subscription, #[trigger] steps.take(k)).0,
                steps[k],
            ),
    ensures
        ({
            let messages = delivered_all(subscription, steps).1;
            forall|k: int|
                0 <= k < messages.len() && (
                #[trigger] log.events[subscription.cursor + k]).payload is Finished ==> k
                    == messages.len() - 1 && steps.len() > 0 && ends_with(
                    delivered_all(subscription, steps.drop_last()).0,
                    steps.last(),
                )
        }),
    decreases steps.len(),
{
    if steps.len() > 0 {
        let some = steps.drop_last();
        assert forall|k: int| 0 <= k < some.len() - 1 implies !ends_with(
            delivered_all(subscription, #[trigger] some.take(k)).0,
            some[k],
        ) by {
            assert(some.take(k) =~= steps.take(k));
            assert(some[k] == steps[k]);
        }
        nothing_follows_the_last(log, subscription, some);
        a_subscriber_is_sent_the_log(log, subscription, some);
        a_subscriber_is_sent_the_log(log, subscription, steps);
        let (before, sent) = delivered_all(subscription, some);
        let (after, more) = delivered(before, steps.last());
        let messages = delivered_all(subscription, steps).1;
        if some.len() > 0 {
            let k = some.len() - 1;
            assert(steps.take(k) =~= some.drop_last());
            assert(steps[k] == some.last());
            assert(!ends_with(delivered_all(subscription, steps.take(k)).0, steps[k]));
        }
        assert forall|k: int|
            0 <= k < messages.len() && (
            #[trigger] log.events[subscription.cursor + k]).payload is Finished implies k
            == messages.len() - 1 && ends_with(before, steps.last()) by {
            if k >= sent.len() {
                let j = k - sent.len();
                match steps.last() {
                    DeliveryView::Page { row, max_bytes, now } => {
                        let page = reading::page_of(row, before.cursor, max_bytes, now);
                        laws::a_page_continues_the_reading(row, before.cursor, max_bytes, now);
                        daemon::replaying_leaves_no_gap(before, row, max_bytes, now);
                        assert(row.events[before.cursor + j] == log.events[before.cursor + j]);
                        assert(page.events[j].seq == before.cursor + j + 1);
                        assert(daemon::is_last(page.events[j]));
                        assert(more[j] == daemon::event_message(
                            before.subscription_id,
                            page.events[j],
                        ));
                    },
                    DeliveryView::Live { event } => {
                        assert(log.events[event.seq - 1].payload is Finished);
                    },
                }
            } else {
                assert(log.events[subscription.cursor + k].payload is Finished);
            }
        }
    }
}

/// Someone who asks to subscribe from beyond the last event is told so, and
/// nothing else is sent. Anyone else who asks for an execution that exists is
/// sent one answer, and then the events of the execution from the number asked
/// for, stored ones and live ones alike, each once, in order and without a gap;
/// the event that ends the execution is the last thing that is sent.
pub proof fn a_subscription_from_beginning_to_end(
    db: DatabaseView,
    log: ExecutionRowView,
    subscription_id: Seq<char>,
    execution_id: Seq<char>,
    after_seq: u64,
    now: i64,
    steps: Seq<DeliveryView>,
)
    requires
        rows::execution_place(db, execution_id) is Some,
        log.id == execution_id,
        log.events.len() <= i64::MAX,
        db.executions[rows::execution_place(db, execution_id)->0].events.is_prefix_of(log.events),
        ({
            let subscription = SubscriptionView {
                subscription_id,
                execution_id,
                cursor: after_seq,
            };
            all_serve(log, subscription, steps.take(steps_taken(subscription, steps)))
        }),
    ensures
        ({
            let row = db.executions[rows::execution_place(db, execution_id)->0];
            let sent = conversation(db, subscription_id, execution_id, after_seq, now, steps);
            if after_seq > row.events.len() {
                sent == seq![
                    daemon::failure(
                        subscription_id,
                        error::refused(
                            "after_seq "@ + text::decimal(after_seq as nat)
                                + " exceeds execution cursor "@ + text::decimal(row.events.len()),
                        ),
                    ),
                ]
            } else {
                let count = (sent.len() - 1) as nat;
                &&& sent.len() >= 1
                &&& after_seq + count <= log.events.len()
                &&& sent[0] == daemon::success(
                    subscription_id,
                    ProtocolResultView::Subscription(
                        SubscriptionResponseView {
                            execution: executions::execution_of(row, now),
                            next_seq: after_seq,
                        },
                    ),
                )
                &&& sent.drop_first() == log_messages(
                    log,
                    subscription_id,
                    after_seq as int,
                    count,
                )
                &&& forall|k: int|
                    0 <= k < count && (#[trigger] log.events[after_seq + k]).payload is Finished
                        ==> k == count - 1
            }
        }),
{
    let row = db.executions[rows::execution_place(db, execution_id)->0];
    let sent = conversation(db, subscription_id, execution_id, after_seq, now, steps);
    if after_seq <= row.events.len() {
        let subscription = SubscriptionView { subscription_id, execution_id, cursor: after_seq };
        let some = steps.take(steps_taken(subscription, steps));
        steps_taken_bounds(subscription, steps);
        assert forall|k: int| 0 <= k < some.len() - 1 implies !ends_with(
            delivered_all(subscription, #[trigger] some.take(k)).0,
            some[k],
        ) by {
            assert(some.take(k) =~= steps.take(k));
            assert(some[k] == steps[k]);
        }
        a_subscriber_is_sent_the_log(log, subscription, some);
        nothing_follows_the_last(log, subscription, some);
        assert(sent.drop_first() =~= delivered_all(subscription, some).1);
    }
}

/// A subscriber takes all that it is sent: it has the events of the log from
/// its cursor on.
pub proof fn a_subscriber_takes_the_log(
    log: ExecutionRowView,
    subscription_id: Seq<char>,
    cursor: u64,
    count: nat,
)
    requires
        log.events.len() <= i64::MAX,
        cursor + count <= log.events.len(),
    ensures
        client::taken_all(
            log_messages(log, subscription_id, cursor as int, count),
            subscription_id,
            cursor,
        ) == Some(laws::events_after(log, cursor).take(count as int)),
    decreases count,
{
    let messages = log_messages(log, subscription_id, cursor as int, count);
    let events = laws::events_after(log, cursor);
    if count == 0 {
        assert(events.take(0) =~= Seq::empty());
    } else {
        let next = (cursor + 1) as u64;
        a_subscriber_takes_the_log(log, subscription_id, next, (count - 1) as nat);
        assert(messages.drop_first() =~= log_messages(
            log,
            subscription_id,
            next as int,
            (count - 1) as nat,
        ));
        let rest = laws::events_after(log, next).take(count - 1);
        assert(events.take(count as int) =~= seq![events[0]] + rest);
    }
}

} // verus!
