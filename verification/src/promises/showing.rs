//! How output is shown: on the stream that it was written to.

use vstd::prelude::*;

use crate::cli;
use crate::cli::RenderingView;
use crate::codec;
use crate::error::ErrorView;
use crate::model::{ExecutionEventPayloadView, ExecutionEventView, OutputStream};
use crate::store::executions;
use crate::store::rows::{StoredEventView, StoredPayloadView};

verus! {

/// What is shown of an event.
pub open spec fn showing(event: ExecutionEventView) -> Result<RenderingView, ErrorView> {
    cli::rendered(event.payload, codec::base64_decoding(cli::output_of(event.payload)))
}

/// Output is shown on the stream that the command wrote it to, with exactly the
/// bytes that it decodes to. Nothing else is shown on either stream, and output
/// that cannot be decoded is not shown at all.
pub proof fn output_is_shown_on_its_stream(event: ExecutionEventView, data: Seq<u8>)
    ensures
        match event.payload {
            ExecutionEventPayloadView::Output { stream, data_base64 } => {
                &&& codec::base64_decoding(data_base64) == codec::good(data) ==> (match stream {
                    OutputStream::Stdout => showing(event) == Ok::<RenderingView, ErrorView>(
                        RenderingView::Stdout(data),
                    ),
                    OutputStream::Stderr => showing(event) == Ok::<RenderingView, ErrorView>(
                        RenderingView::Stderr(data),
                    ),
                })
                &&& codec::base64_decoding(data_base64) is Err ==> showing(event) is Err
            },
            _ => showing(event) matches Ok(shown) && !(shown is Stdout) && !(shown is Stderr),
        },
{
}

/// The bytes that are shown on one stream when events are shown one after the
/// other.
pub open spec fn shown_on_stream(events: Seq<ExecutionEventView>, stderr: bool) -> Seq<u8>
    decreases events.len(),
{
    if events.len() == 0 {
        Seq::empty()
    } else {
        shown_on_stream(events.drop_last(), stderr) + match showing(events.last()) {
            Ok(RenderingView::Stdout(data)) => if stderr {
                Seq::empty()
            } else {
                data
            },
            Ok(RenderingView::Stderr(data)) => if stderr {
                data
            } else {
                Seq::empty()
            },
            _ => Seq::empty(),
        }
    }
}

/// The bytes of one stream that some stored events hold, one after the other.
pub open spec fn stored_on_stream(events: Seq<StoredEventView>, stderr: bool) -> Seq<u8>
    decreases events.len(),
{
    if events.len() == 0 {
        Seq::empty()
    } else {
        stored_on_stream(events.drop_last(), stderr) + match events.last().payload {
            StoredPayloadView::Output { stream, data } => if (stream == OutputStream::Stderr)
                == stderr {
                data
            } else {
                Seq::empty()
            },
            _ => Seq::empty(),
        }
    }
}

/// Whether what was encoded decodes to what it was.
pub open spec fn encoding_reads_back(data: Seq<u8>) -> bool {
    codec::base64_decoding(codec::base64_text(data)) == codec::good(data)
}

/// What is shown on a stream of the events of an execution, as clients see
/// them, is the stored output of that stream and of no other, byte for byte and
/// in order.
pub proof fn each_stream_is_shown_exactly(
    id: Seq<char>,
    stored: Seq<StoredEventView>,
    events: Seq<ExecutionEventView>,
    stderr: bool,
)
    requires
        events.len() == stored.len(),
        stored.len() <= u64::MAX,
        forall|k: int|
            0 <= k < stored.len() ==> #[trigger] events[k] == executions::event_of(
                id,
                (k + 1) as u64,
                stored[k],
            ),
        forall|k: int|
            0 <= k < stored.len() ==> ((#[trigger] stored[k]).payload matches
                StoredPayloadView::Output { stream, data } ==> encoding_reads_back(data)),
    ensures
        shown_on_stream(events, stderr) == stored_on_stream(stored, stderr),
    decreases stored.len(),
{
    if stored.len() > 0 {
        let some = stored.drop_last();
        let end = stored.len() - 1;
        assert forall|k: int| 0 <= k < some.len() implies #[trigger] events.drop_last()[k]
            == executions::event_of(id, (k + 1) as u64, some[k]) by {
            assert(events[k] == executions::event_of(id, (k + 1) as u64, stored[k]));
        }
        assert forall|k: int| 0 <= k < some.len() implies ((#[trigger] some[k]).payload matches
            StoredPayloadView::Output { stream, data } ==> encoding_reads_back(data)) by {
            assert(some[k] == stored[k]);
        }
        each_stream_is_shown_exactly(id, some, events.drop_last(), stderr);
        assert(events[end] == executions::event_of(id, (end + 1) as u64, stored[end]));
        assert(stored[end] == stored.last());
    }
}

} // verus!
