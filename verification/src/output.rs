//! The output of an execution as a terminal shows it: the last part of it, and
//! where the view of it stands.

use vstd::prelude::*;

use crate::codec;
use crate::codec::decode_base64;
use crate::error;
use crate::error::{Error, ErrorView};
use crate::model::{
    ExecutionEvent, ExecutionEventPayload, ExecutionEventPayloadView, ExecutionEventView,
    OutputStream, ReadOutputResponse,
};
use crate::screen;
use crate::screen::{
    colored, make_line, no_lines, put_line, put_text, sanitize_output, Color, Line, LineView,
};
use crate::text;
use crate::text::{decimal_text, joined, joined3};

verus! {

/// How many bytes of output are kept in view.
pub const OUTPUT_CAP_BYTES: usize = 1_048_576;

/// How many bytes of output are asked for at once.
pub const OUTPUT_PAGE_BYTES: usize = 262_144;

/// A piece of output: its text as it is shown, and how many bytes it had.
#[derive(Debug, PartialEq, Eq)]
pub struct OutputChunk {
    pub stream: OutputStream,
    pub text: String,
    pub bytes: usize,
}

/// What an `OutputChunk` holds.
#[verifier::ext_equal]
pub struct OutputChunkView {
    pub stream: OutputStream,
    pub text: Seq<char>,
    pub bytes: usize,
}

impl View for OutputChunk {
    type V = OutputChunkView;

    open spec fn view(&self) -> OutputChunkView {
        OutputChunkView {
            stream: self.stream,
            text: self.text@,
            bytes: self.bytes,
        }
    }
}

impl Clone for OutputChunk {
    fn clone(&self) -> (copy: Self)
        ensures
            copy@ == self@,
    {
        OutputChunk {
            stream: self.stream,
            text: self.text.clone(),
            bytes: self.bytes,
        }
    }
}

/// The output in view: its pieces with their bytes, the number of the last event
/// that was taken in, and how far the view has moved down. Where it follows, it
/// stays at the end.
#[derive(Debug)]
pub struct OutputPane {
    pub chunks: Vec<OutputChunk>,
    pub bytes: usize,
    pub cursor: u64,
    pub scroll: usize,
    pub follow: bool,
}

/// What an `OutputPane` holds.
#[verifier::ext_equal]
pub struct OutputPaneView {
    pub chunks: Seq<OutputChunkView>,
    pub bytes: usize,
    pub cursor: u64,
    pub scroll: usize,
    pub follow: bool,
}

impl View for OutputPane {
    type V = OutputPaneView;

    open spec fn view(&self) -> OutputPaneView {
        OutputPaneView {
            chunks: self.chunks@.map_values(|item: OutputChunk| item@),
            bytes: self.bytes,
            cursor: self.cursor,
            scroll: self.scroll,
            follow: self.follow,
        }
    }
}

/// The text that bytes are read as: UTF-8, with a mark in place of what is
/// not.
pub uninterp spec fn lossy_text(data: Seq<u8>) -> Seq<char>;

/// `String::from_utf8_lossy`: a function of the bytes alone.
#[verifier::external_body]
fn read_lossy(data: &[u8]) -> (text: String)
    ensures
        text@ == lossy_text(data@),
{
    String::from_utf8_lossy(data).into_owned()
}

/// The bytes of some pieces of output.
pub open spec fn total(chunks: Seq<OutputChunkView>) -> int
    decreases chunks.len(),
{
    if chunks.len() == 0 {
        0
    } else {
        chunks[0].bytes + total(chunks.drop_first())
    }
}

/// Pieces of output with those at the front dropped that go over what is kept.
pub open spec fn capped(chunks: Seq<OutputChunkView>, bytes: int) -> (Seq<OutputChunkView>, int)
    decreases chunks.len(),
{
    if bytes > OUTPUT_CAP_BYTES && chunks.len() > 0 {
        capped(chunks.drop_first(), screen::over(bytes, chunks[0].bytes as int))
    } else {
        (chunks, bytes)
    }
}

/// A sum of bytes, held at the largest number that is counted to.
pub open spec fn bytes_with(bytes: usize, more: usize) -> int {
    if bytes + more > usize::MAX {
        usize::MAX as int
    } else {
        bytes + more
    }
}

/// The view with a piece of output behind what is there.
pub open spec fn with_chunk(pane: OutputPaneView, chunk: OutputChunkView) -> OutputPaneView {
    let (chunks, bytes) = capped(
        pane.chunks.push(chunk),
        bytes_with(pane.bytes, chunk.bytes),
    );
    OutputPaneView { chunks, bytes: bytes as usize, ..pane }
}

/// The empty view.
pub open spec fn empty_pane() -> OutputPaneView {
    OutputPaneView { chunks: Seq::empty(), bytes: 0, cursor: 0, scroll: 0, follow: true }
}

/// Taking in events: output is put behind what is there, a limit that was
/// reached is noted, and the first piece that cannot be decoded stops it.
pub open spec fn events_taken(
    pane: OutputPaneView,
    notice: Option<Seq<char>>,
    events: Seq<ExecutionEventView>,
) -> (OutputPaneView, Option<Seq<char>>, Option<ErrorView>)
    decreases events.len(),
{
    if events.len() == 0 {
        (pane, notice, None)
    } else {
        let (before, noted, fault) = events_taken(pane, notice, events.drop_last());
        if fault is Some {
            (before, noted, fault)
        } else {
            match events.last().payload {
                ExecutionEventPayloadView::Output { stream, data_base64 } => match codec::base64_decoding(
                    data_base64,
                ) {
                    Ok(data) => (
                        with_chunk(
                            before,
                            OutputChunkView {
                                stream,
                                text: screen::sanitized(lossy_text(data)),
                                bytes: data.len() as usize,
                            },
                        ),
                        noted,
                        None,
                    ),
                    Err(message) => (
                        before,
                        noted,
                        Some(ErrorView::Protocol("invalid output encoding: "@ + message)),
                    ),
                },
                ExecutionEventPayloadView::CaptureTruncated { limit_bytes } => (
                    before,
                    Some("capture truncated at "@ + text::decimal(limit_bytes as nat) + " bytes"@),
                    None,
                ),
                _ => (before, noted, None),
            }
        }
    }
}

/// Taking in a page of events: where all of them were taken in, reading goes
/// on from `next_seq`.
pub open spec fn ingested(
    pane: OutputPaneView,
    notice: Option<Seq<char>>,
    events: Seq<ExecutionEventView>,
    next_seq: u64,
) -> (OutputPaneView, Option<Seq<char>>, Result<(), ErrorView>) {
    let (after, noted, fault) = events_taken(pane, notice, events);
    match fault {
        Some(error) => (after, noted, Err(error)),
        None => (OutputPaneView { cursor: next_seq, ..after }, noted, Ok(())),
    }
}

/// The lines of some pieces of output.
pub open spec fn chunk_lines(chunks: Seq<OutputChunkView>) -> Seq<LineView>
    decreases chunks.len(),
{
    if chunks.len() == 0 {
        Seq::empty()
    } else {
        chunk_lines(chunks.drop_last()) + screen::styled_lines(
            screen::lines_in(chunks.last().text),
            screen::in_color(stream_color(chunks.last().stream)),
        )
    }
}

/// The colour of a stream.
pub open spec fn stream_color(stream: OutputStream) -> Color {
    match stream {
        OutputStream::Stdout => Color::Gray,
        OutputStream::Stderr => Color::LightRed,
    }
}

/// The lines of the output in view.
pub open spec fn pane_lines(pane: OutputPaneView) -> Seq<LineView> {
    if pane.chunks.len() == 0 {
        seq![screen::styled_line("No captured output"@, screen::in_color(Color::DarkGray))]
    } else {
        chunk_lines(pane.chunks)
    }
}

/// How far the view is moved down where `height` lines fit on the screen: to
/// the end where it follows, and not past it in any case.
pub open spec fn scroll_in(pane: OutputPaneView, height: int) -> int {
    let last = screen::over(pane_lines(pane).len() as int, height);
    if pane.follow || pane.scroll > last {
        last
    } else {
        pane.scroll as int
    }
}

proof fn total_of_push(chunks: Seq<OutputChunkView>, chunk: OutputChunkView)
    ensures
        total(chunks.push(chunk)) == total(chunks) + chunk.bytes,
    decreases chunks.len(),
{
    if chunks.len() > 0 {
        assert(chunks.push(chunk).drop_first() =~= chunks.drop_first().push(chunk));
        total_of_push(chunks.drop_first(), chunk);
    } else {
        assert(chunks.push(chunk).drop_first() =~= Seq::empty());
        assert(total(chunks.push(chunk).drop_first()) == 0);
    }
}

proof fn capping_keeps_count(chunks: Seq<OutputChunkView>, bytes: int)
    requires
        0 <= bytes <= total(chunks),
    ensures
        ({
            let (kept, left) = capped(chunks, bytes);
            0 <= left <= total(kept) && left <= OUTPUT_CAP_BYTES
        }),
    decreases chunks.len(),
{
    if bytes > OUTPUT_CAP_BYTES && chunks.len() > 0 {
        capping_total(chunks.drop_first());
        capping_keeps_count(chunks.drop_first(), screen::over(bytes, chunks[0].bytes as int));
    }
}

proof fn capping_total(chunks: Seq<OutputChunkView>)
    ensures
        total(chunks) >= 0,
    decreases chunks.len(),
{
    if chunks.len() > 0 {
        capping_total(chunks.drop_first());
    }
}

/// Whether the bytes of a view are those of its pieces at most, and no more
/// than are kept.
pub open spec fn pane_fits(pane: OutputPaneView) -> bool {
    pane.bytes <= total(pane.chunks) && pane.bytes <= OUTPUT_CAP_BYTES
}

/// However much output comes, no more of it is kept in view than the cap.
pub proof fn output_is_capped(
    pane: OutputPaneView,
    notice: Option<Seq<char>>,
    events: Seq<ExecutionEventView>,
    next_seq: u64,
)
    requires
        pane_fits(pane),
    ensures
        pane_fits(ingested(pane, notice, events, next_seq).0),
        pane_fits(empty_pane()),
{
    taking_fits(pane, notice, events);
}

proof fn taking_fits(
    pane: OutputPaneView,
    notice: Option<Seq<char>>,
    events: Seq<ExecutionEventView>,
)
    requires
        pane_fits(pane),
    ensures
        pane_fits(events_taken(pane, notice, events).0),
    decreases events.len(),
{
    if events.len() > 0 {
        taking_fits(pane, notice, events.drop_last());
        let (before, noted, fault) = events_taken(pane, notice, events.drop_last());
        match events.last().payload {
            ExecutionEventPayloadView::Output { stream, data_base64 } => {
                match codec::base64_decoding(data_base64) {
                    Ok(data) => {
                        let chunk = OutputChunkView {
                            stream,
                            text: screen::sanitized(lossy_text(data)),
                            bytes: data.len() as usize,
                        };
                        total_of_push(before.chunks, chunk);
                        capping_keeps_count(
                            before.chunks.push(chunk),
                            bytes_with(before.bytes, chunk.bytes),
                        );
                    },
                    Err(message) => {},
                }
            },
            _ => {},
        }
    }
}

/// Whether `kept` are the pieces at the end of `all` that fit, as many of them
/// as there can be.
pub open spec fn longest_fit(all: Seq<OutputChunkView>, kept: Seq<OutputChunkView>) -> bool {
    &&& kept.len() <= all.len()
    &&& kept == all.skip(all.len() - kept.len())
    &&& total(kept) <= OUTPUT_CAP_BYTES
    &&& forall|from: int|
        0 <= from < all.len() - kept.len() ==> total(#[trigger] all.skip(from)) > OUTPUT_CAP_BYTES
}

/// Whether the output of some events can be read: each piece of it decodes, to
/// no more bytes than a list can hold.
pub open spec fn readable(events: Seq<ExecutionEventView>) -> bool {
    forall|k: int|
        0 <= k < events.len() ==> match (#[trigger] events[k]).payload {
            ExecutionEventPayloadView::Output { stream, data_base64 } =>
                codec::base64_decoding(data_base64) matches Ok(data) && data.len() <= isize::MAX,
            _ => true,
        }
}

/// The pieces of output that some events bring.
pub open spec fn chunks_of(events: Seq<ExecutionEventView>) -> Seq<OutputChunkView>
    decreases events.len(),
{
    if events.len() == 0 {
        Seq::empty()
    } else {
        let before = chunks_of(events.drop_last());
        match events.last().payload {
            ExecutionEventPayloadView::Output { stream, data_base64 } => match codec::base64_decoding(
                data_base64,
            ) {
                Ok(data) => before.push(
                    OutputChunkView {
                        stream,
                        text: screen::sanitized(lossy_text(data)),
                        bytes: data.len() as usize,
                    },
                ),
                Err(message) => before,
            },
            _ => before,
        }
    }
}

/// What capping leaves of pieces that are counted right.
proof fn capping_keeps_the_end(chunks: Seq<OutputChunkView>)
    ensures
        longest_fit(chunks, capped(chunks, total(chunks)).0),
        capped(chunks, total(chunks)).1 == total(capped(chunks, total(chunks)).0),
    decreases chunks.len(),
{
    capping_total(chunks);
    let (kept, left) = capped(chunks, total(chunks));
    if total(chunks) > OUTPUT_CAP_BYTES && chunks.len() > 0 {
        let rest = chunks.drop_first();
        capping_total(rest);
        capping_keeps_the_end(rest);
        assert(kept == capped(rest, total(rest)).0);
        assert(chunks.skip(chunks.len() - kept.len()) =~= rest.skip(rest.len() - kept.len()));
        assert forall|from: int| 0 <= from < chunks.len() - kept.len() implies total(
            #[trigger] chunks.skip(from),
        ) > OUTPUT_CAP_BYTES by {
            if from == 0 {
                assert(chunks.skip(0) =~= chunks);
            } else {
                assert(chunks.skip(from) =~= rest.skip(from - 1));
            }
        }
    } else {
        assert(chunks.skip(0) =~= chunks);
    }
}

/// What fits of the end of some pieces, with one more behind them, is what
/// fits of the end of them all.
proof fn fitting_goes_on(
    all: Seq<OutputChunkView>,
    held: Seq<OutputChunkView>,
    chunk: OutputChunkView,
    kept: Seq<OutputChunkView>,
)
    requires
        longest_fit(all, held),
        longest_fit(held.push(chunk), kept),
    ensures
        longest_fit(all.push(chunk), kept),
{
    let longer = all.push(chunk);
    let middle = held.push(chunk);
    let gap = all.len() - held.len();
    assert(longer.skip(longer.len() - kept.len()) =~= middle.skip(middle.len() - kept.len()));
    assert forall|from: int| 0 <= from < longer.len() - kept.len() implies total(
        #[trigger] longer.skip(from),
    ) > OUTPUT_CAP_BYTES by {
        if from < gap {
            assert(longer.skip(from) =~= all.skip(from).push(chunk));
            total_of_push(all.skip(from), chunk);
        } else {
            assert(longer.skip(from) =~= middle.skip(from - gap));
        }
    }
}

proof fn taking_keeps_the_end(
    pane: OutputPaneView,
    notice: Option<Seq<char>>,
    events: Seq<ExecutionEventView>,
)
    requires
        pane.bytes == total(pane.chunks),
        pane.bytes <= OUTPUT_CAP_BYTES,
        readable(events),
    ensures
        ({
            let (after, noted, fault) = events_taken(pane, notice, events);
            &&& fault is None
            &&& after.bytes == total(after.chunks)
            &&& longest_fit(pane.chunks + chunks_of(events), after.chunks)
        }),
    decreases events.len(),
{
    if events.len() == 0 {
        assert(pane.chunks + chunks_of(events) =~= pane.chunks);
        assert(pane.chunks.skip(0) =~= pane.chunks);
    } else {
        let front = events.drop_last();
        assert forall|k: int| 0 <= k < front.len() implies match (#[trigger] front[k]).payload {
            ExecutionEventPayloadView::Output { stream, data_base64 } =>
                codec::base64_decoding(data_base64) matches Ok(data) && data.len() <= isize::MAX,
            _ => true,
        } by {
            assert(front[k] == events[k]);
        }
        taking_keeps_the_end(pane, notice, front);
        let (before, noted, fault) = events_taken(pane, notice, front);
        let all = pane.chunks + chunks_of(front);
        assert(events[events.len() - 1] == events.last());
        match events.last().payload {
            ExecutionEventPayloadView::Output { stream, data_base64 } => {
                let data = codec::base64_decoding(data_base64)->Ok_0;
                let chunk = OutputChunkView {
                    stream,
                    text: screen::sanitized(lossy_text(data)),
                    bytes: data.len() as usize,
                };
                let longer = before.chunks.push(chunk);
                total_of_push(before.chunks, chunk);
                assert(bytes_with(before.bytes, chunk.bytes) == total(longer));
                capping_keeps_the_end(longer);
                let kept = capped(longer, total(longer)).0;
                capping_total(kept);
                fitting_goes_on(all, before.chunks, chunk, kept);
                assert(pane.chunks + chunks_of(events) =~= all.push(chunk));
            },
            _ => {},
        }
    }
}

/// What stays in view of what was there and what came is its end, as much of it
/// as fits; the bytes are counted right, and reading goes on behind it.
pub proof fn the_latest_output_is_kept(
    pane: OutputPaneView,
    notice: Option<Seq<char>>,
    events: Seq<ExecutionEventView>,
    next_seq: u64,
)
    requires
        pane.bytes == total(pane.chunks),
        pane.bytes <= OUTPUT_CAP_BYTES,
        readable(events),
    ensures
        ({
            let (after, noted, taken) = ingested(pane, notice, events, next_seq);
            &&& taken == Ok::<(), ErrorView>(())
            &&& after.bytes == total(after.chunks)
            &&& after.cursor == next_seq
            &&& longest_fit(pane.chunks + chunks_of(events), after.chunks)
        }),
{
    taking_keeps_the_end(pane, notice, events);
}

/// The views of some pieces of output.
pub open spec fn chunk_views(chunks: Seq<OutputChunk>) -> Seq<OutputChunkView> {
    chunks.map_values(|item: OutputChunk| item@)
}

impl OutputPane {
    /// The empty view.
    pub fn new() -> (pane: OutputPane)
        ensures
            pane@ == empty_pane(),
    {
        let chunks: Vec<OutputChunk> = Vec::new();
        assert(chunk_views(chunks@) =~= Seq::empty());
        OutputPane { chunks, bytes: 0, cursor: 0, scroll: 0, follow: true }
    }

    /// Empties the view.
    pub fn reset(&mut self)
        ensures
            final(self)@ == empty_pane(),
    {
        self.chunks.clear();
        self.bytes = 0;
        self.cursor = 0;
        self.scroll = 0;
        self.follow = true;
        assert(chunk_views(self.chunks@) =~= Seq::empty());
    }

    /// Puts a piece of output behind what is there.
    pub fn put(&mut self, chunk: OutputChunk)
        ensures
            final(self)@ == with_chunk(old(self)@, chunk@),
    {
        let ghost start = self@;
        let ghost view = chunk@;
        let size = chunk.bytes;
        self.chunks.push(chunk);
        self.bytes = self.bytes.saturating_add(size);
        let ghost goal = capped(start.chunks.push(view), bytes_with(start.bytes, view.bytes));
        assert(chunk_views(self.chunks@) =~= start.chunks.push(view));
        while self.bytes > OUTPUT_CAP_BYTES && self.chunks.len() > 0
            invariant
                capped(chunk_views(self.chunks@), self.bytes as int) == goal,
                self.cursor == start.cursor,
                self.scroll == start.scroll,
                self.follow == start.follow,
            decreases self.chunks.len(),
        {
            let ghost all = chunk_views(self.chunks@);
            let removed = self.chunks.remove(0);
            proof {
                assert(all[0] == removed@);
                assert(chunk_views(self.chunks@) =~= all.drop_first());
            }
            self.bytes = self.bytes.saturating_sub(removed.bytes);
        }
    }

    /// Takes in events. `notice` is where a limit that was reached is noted.
    pub fn ingest(
        &mut self,
        notice: &mut Option<String>,
        events: &Vec<ExecutionEvent>,
        next_seq: u64,
    ) -> (taken: Result<(), Error>)
        ensures
            (final(self)@, text::maybe_text(*final(notice)), error::outcome_view(taken, |u: ()| u)) == ingested(
                old(self)@,
                text::maybe_text(*old(notice)),
                events@.map_values(|item: ExecutionEvent| item@),
                next_seq,
            ),
    {
        let ghost start = self@;
        let ghost noted = text::maybe_text(*notice);
        let ghost all = events@.map_values(|item: ExecutionEvent| item@);
        let mut i: usize = 0;
        assert(all.take(0) =~= Seq::empty());
        while i < events.len()
            invariant
                i <= events.len(),
                all == events@.map_values(|item: ExecutionEvent| item@),
                (self@, text::maybe_text(*notice), None::<ErrorView>) == events_taken(
                    start,
                    noted,
                    all.take(i as int),
                ),
            decreases events.len() - i,
        {
            proof {
                assert(all.take(i + 1).drop_last() =~= all.take(i as int));
                assert(all.take(i + 1).last() == events@[i as int]@);
            }
            match &events[i].payload {
                ExecutionEventPayload::Output { stream, data_base64 } => {
                    match decode_base64(data_base64.as_str()) {
                        Ok(data) => {
                            let text = sanitize_output(read_lossy(data.as_slice()).as_str());
                            self.put(OutputChunk { stream: *stream, text, bytes: data.len() });
                        },
                        Err(message) => {
                            proof {
                                fault_stays(start, noted, all, i + 1);
                            }
                            return Err(
                                Error::Protocol(
                                    joined("invalid output encoding: ", message.as_str()),
                                ),
                            );
                        },
                    }
                },
                ExecutionEventPayload::CaptureTruncated { limit_bytes } => {
                    *notice = Some(
                        joined3(
                            "capture truncated at ",
                            decimal_text(*limit_bytes).as_str(),
                            " bytes",
                        ),
                    );
                },
                ExecutionEventPayload::Started { pid, pgid } => {},
                ExecutionEventPayload::Finished { outcome } => {},
            }
            i += 1;
        }
        assert(all.take(i as int) =~= all);
        self.cursor = next_seq;
        Ok(())
    }

    /// The lines of the output in view.
    pub fn lines(&self) -> (lines: Vec<Line>)
        ensures
            screen::line_views(lines@) == pane_lines(self@),
    {
        let ghost all = self@.chunks;
        let mut lines = no_lines();
        if self.chunks.len() == 0 {
            put_line(
                &mut lines,
                make_line("No captured output".to_owned(), colored(Color::DarkGray)),
            );
            assert(screen::line_views(lines@) =~= pane_lines(self@));
            return lines;
        }
        let mut i: usize = 0;
        assert(all.take(0) =~= Seq::empty());
        while i < self.chunks.len()
            invariant
                i <= self.chunks.len(),
                all == chunk_views(self.chunks@),
                screen::line_views(lines@) == chunk_lines(all.take(i as int)),
            decreases self.chunks.len() - i,
        {
            let chunk = &self.chunks[i];
            proof {
                assert(all.take(i + 1).drop_last() =~= all.take(i as int));
                assert(all.take(i + 1).last() == chunk@);
            }
            let style = match chunk.stream {
                OutputStream::Stdout => colored(Color::Gray),
                OutputStream::Stderr => colored(Color::LightRed),
            };
            put_text(&mut lines, chunk.text.as_str(), style);
            i += 1;
        }
        assert(all.take(i as int) =~= all);
        lines
    }

    /// Moves the view to where it belongs when `height` of its `count` lines
    /// fit on the screen, and says by how many lines.
    pub fn settle(&mut self, count: usize, height: usize) -> (scroll: u16)
        requires
            count == pane_lines(old(self)@).len(),
        ensures
            final(self)@ == (OutputPaneView {
                scroll: scroll_in(old(self)@, height as int) as usize,
                ..old(self)@
            }),
            scroll == crate::screen::at_most_u16(scroll_in(old(self)@, height as int)),
    {
        let last: usize = count.saturating_sub(height);
        if self.follow || self.scroll > last {
            self.scroll = last;
        }
        if self.scroll > 65535 {
            65535
        } else {
            self.scroll as u16
        }
    }

    /// Moves the view up, or down where `down` is set; it stops following.
    pub fn move_by_one(&mut self, down: bool)
        ensures
            final(self)@ == (OutputPaneView {
                follow: false,
                scroll: if down {
                    bytes_with(old(self)@.scroll, 1) as usize
                } else {
                    screen::over(old(self)@.scroll as int, 1) as usize
                },
                ..old(self)@
            }),
    {
        self.follow = false;
        if down {
            self.scroll = self.scroll.saturating_add(1);
        } else {
            self.scroll = self.scroll.saturating_sub(1);
        }
    }
}

proof fn fault_stays(
    pane: OutputPaneView,
    notice: Option<Seq<char>>,
    events: Seq<ExecutionEventView>,
    count: int,
)
    requires
        0 <= count <= events.len(),
        events_taken(pane, notice, events.take(count)).2 is Some,
    ensures
        events_taken(pane, notice, events) == events_taken(pane, notice, events.take(count)),
    decreases events.len() - count,
{
    if count < events.len() {
        assert(events.take(count + 1).drop_last() =~= events.take(count));
        fault_stays(pane, notice, events, count + 1);
    } else {
        assert(events.take(count) =~= events);
    }
}

/// Taking in what was read of the output: an answer is taken in, and what went
/// wrong is noted. Says whether there is more to read now.
pub open spec fn page_taken(
    pane: OutputPaneView,
    notice: Option<Seq<char>>,
    error: Option<Seq<char>>,
    page: Result<crate::model::ReadOutputResponseView, ErrorView>,
) -> (OutputPaneView, Option<Seq<char>>, Option<Seq<char>>, bool) {
    match page {
        Err(failure) => (
            pane,
            notice,
            Some("output read failed; retrying: "@ + crate::error::error_message(failure)),
            false,
        ),
        Ok(response) => {
            let (after, noted, taken) = ingested(pane, notice, response.events, response.next_seq);
            match taken {
                Err(failure) => (
                    after,
                    noted,
                    Some(crate::error::error_message(failure)),
                    false,
                ),
                Ok(_) => (after, noted, error, response.has_more && after.cursor > pane.cursor),
            }
        },
    }
}

/// Takes in what was read of the output.
pub fn take_page(
    pane: &mut OutputPane,
    notice: &mut Option<String>,
    error: &mut Option<String>,
    page: Result<ReadOutputResponse, Error>,
) -> (more: bool)
    ensures
        (final(pane)@, text::maybe_text(*final(notice)), text::maybe_text(*final(error)), more) == page_taken(
            old(pane)@,
            text::maybe_text(*old(notice)),
            text::maybe_text(*old(error)),
            crate::error::viewed(page),
        ),
{
    let before: u64 = pane.cursor;
    match page {
        Err(failure) => {
            *error = Some(
                joined("output read failed; retrying: ", failure.message().as_str()),
            );
            false
        },
        Ok(response) => match pane.ingest(notice, &response.events, response.next_seq) {
            Err(failure) => {
                *error = Some(failure.message());
                false
            },
            Ok(()) => response.has_more && pane.cursor > before,
        },
    }
}

} // verus!
