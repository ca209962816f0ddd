//! What is seen on a screen: texts, times, outcomes and the output in view.

use vstd::prelude::*;

use crate::codec;
use crate::error::ErrorView;
use crate::model::{
    AgentSessionState, ExecutionEventPayloadView, ExecutionEventView, ExecutionOutcomeView,
    ExecutionState, ExecutionView, OutputStream, ReadOutputResponseView,
};
use crate::order;
use crate::output;
use crate::output::OutputPaneView;
use crate::report;
use crate::screen;
use crate::screen::{Rect, Status};
use crate::text;

verus! {

/// A point lies in an area exactly where it lies within its width and height,
/// and what is put in the middle of an area has the size that was asked for, or
/// as much of it as there is, with as much room on one side as on the other.
pub proof fn the_middle_is_the_middle(width: u16, height: u16, area: Rect)
    requires
        screen::on_screen(area),
    ensures
        ({
            let inner = screen::centered(width, height, area);
            let left = inner.x - area.x;
            let right = area.x + area.width - (inner.x + inner.width);
            let above = inner.y - area.y;
            let below = area.y + area.height - (inner.y + inner.height);
            &&& inner.width <= width && inner.width <= area.width
            &&& inner.width == width || inner.width == area.width
            &&& inner.height <= height && inner.height <= area.height
            &&& inner.height == height || inner.height == area.height
            &&& 0 <= left <= right <= left + 1
            &&& 0 <= above <= below <= above + 1
        }),
{
}

/// A list that fits is shown from its first row, and no list is moved further
/// than to its last row.
pub proof fn no_row_is_wasted(current: usize, selected: usize, capacity: usize, count: usize)
    requires
        selected < count,
        capacity > 0,
    ensures
        ({
            let offset = screen::offset_for(
                current as int,
                selected as int,
                capacity as int,
                count as int,
            );
            &&& count <= capacity ==> offset == 0
            &&& count > capacity ==> offset + capacity <= count
            &&& current <= selected < current + capacity && current + capacity <= count
                ==> offset == current
        }),
{
}

/// A text that is cut begins as it did, and says that it was cut; one that is
/// short enough stays.
pub proof fn a_cut_text_says_so(own: Seq<char>, max: int)
    requires
        max >= 0,
    ensures
        own.len() <= max ==> screen::cut(own, max) == own,
        own.len() > max ==> screen::cut(own, max).take(max) == own.take(max) && screen::cut(
            own,
            max,
        ).skip(max) == "..."@,
{
    if own.len() > max {
        assert(screen::cut(own, max).take(max) =~= own.take(max));
        assert(screen::cut(own, max).skip(max) =~= "..."@);
    }
}

/// What controls nothing is shown as it is, a tab as a space, and the lines
/// stay.
pub proof fn harmless_text_is_shown(own: Seq<char>, at: int)
    requires
        0 <= at < own.len(),
    ensures
        !screen::is_control(own[at]) ==> screen::sanitized(own)[at] == own[at],
        own[at] == '\t' ==> screen::sanitized(own)[at] == ' ',
        (screen::sanitized(own)[at] == '\n') == (own[at] == '\n'),
{
}

/// The lines of a text one after the other, with line breaks between them.
pub open spec fn with_breaks(lines: Seq<Seq<char>>) -> Seq<char>
    decreases lines.len(),
{
    if lines.len() == 0 {
        Seq::empty()
    } else if lines.len() == 1 {
        lines[0]
    } else {
        with_breaks(lines.drop_last()).push('\n') + lines.last()
    }
}

/// A text is its lines with breaks between them, and no line holds a break.
pub proof fn lines_make_the_text(own: Seq<char>)
    ensures
        screen::lines_in(own).len() > 0,
        with_breaks(screen::lines_in(own)) == own,
        forall|i: int|
            0 <= i < screen::lines_in(own).len() ==> !(#[trigger] screen::lines_in(
                own,
            )[i]).contains('\n'),
    decreases own.len(),
{
    let lines = screen::lines_in(own);
    if own.len() == 0 {
        assert(own =~= Seq::empty());
    } else {
        let front = own.drop_last();
        let before = screen::lines_in(front);
        lines_make_the_text(front);
        assert(front.push(own.last()) =~= own);
        if own.last() == '\n' {
            assert(lines.drop_last() =~= before);
            assert(with_breaks(lines) =~= with_breaks(before).push('\n'));
            assert forall|i: int| 0 <= i < lines.len() implies !(#[trigger] lines[i]).contains(
                '\n',
            ) by {
                if i < before.len() {
                    assert(lines[i] == before[i]);
                }
            }
        } else {
            let grown = before.last().push(own.last());
            assert(lines.drop_last() =~= before.drop_last());
            assert(lines.last() == grown);
            if before.len() > 1 {
                assert(with_breaks(lines) =~= with_breaks(before).push(own.last()));
            } else {
                assert(with_breaks(lines) =~= with_breaks(before).push(own.last()));
            }
            assert forall|i: int| 0 <= i < lines.len() implies !(#[trigger] lines[i]).contains(
                '\n',
            ) by {
                if i < before.len() - 1 {
                    assert(lines[i] == before[i]);
                } else {
                    let last = before[before.len() - 1];
                    assert(!last.contains('\n'));
                    if grown.contains('\n') {
                        let k = choose|k: int| 0 <= k < grown.len() && grown[k] == '\n';
                        if k < last.len() {
                            assert(last[k] == '\n');
                        }
                    }
                }
            }
        }
    }
}

/// The time since a moment is what has passed, and nothing where it is yet to
/// come.
pub proof fn time_since_is_what_has_passed(now: i64, at: i64)
    ensures
        at > now ==> screen::time_since(now, at) == 0,
        at <= now && now - at <= i64::MAX ==> screen::time_since(now, at) == now - at,
{
}

/// A span of time is shown in whole minutes and seconds, which together are the
/// whole seconds of it; below a minute in seconds alone.
pub proof fn spans_are_shown_in_minutes_and_seconds(duration_ms: u64, minutes: nat, seconds: nat)
    requires
        seconds < 60,
        (minutes * 60 + seconds) * 1000 <= duration_ms < (minutes * 60 + seconds + 1) * 1000,
    ensures
        minutes == 0 ==> screen::shown_span(duration_ms) == text::decimal(seconds) + "s"@,
        minutes > 0 ==> screen::shown_span(duration_ms) == text::decimal(minutes) + "m "@ + (
        if seconds < 10 {
            "0"@ + text::decimal(seconds)
        } else {
            text::decimal(seconds)
        }) + "s"@,
{
    let whole = minutes * 60 + seconds;
    assert(duration_ms / 1000 == whole) by (nonlinear_arith)
        requires
            whole * 1000 <= duration_ms < (whole + 1) * 1000,
    ;
    assert(whole / 60 == minutes && whole % 60 == seconds) by (nonlinear_arith)
        requires
            whole == minutes * 60 + seconds,
            seconds < 60,
    ;
}

/// An age is shown in the largest unit of which one has passed, and counts the
/// whole ones.
pub proof fn ages_are_shown_in_one_unit(now: i64, at: i64)
    requires
        at <= now,
        now - at <= i64::MAX,
    ensures
        ({
            let passed = now - at;
            let shown = screen::shown_age(now, at);
            if passed < 60 * 1000 {
                shown == text::decimal((passed / 1000) as nat) + "s"@
            } else if passed < 60 * 60 * 1000 {
                shown == text::decimal((passed / 60_000) as nat) + "m"@
            } else if passed < 24 * 60 * 60 * 1000 {
                shown == text::decimal((passed / 3_600_000) as nat) + "h"@
            } else {
                shown == text::decimal((passed / 86_400_000) as nat) + "d"@
            }
        }),
{
    let passed = now - at;
    assert(passed / 1000 / 60 == passed / 60_000);
    assert(passed / 1000 / 3600 == passed / 3_600_000);
    assert(passed / 1000 / 86400 == passed / 86_400_000);
}

/// The status of an execution: passed exactly where its command exited with
/// zero, cancelled where it was cancelled, queued and running while it is, and
/// failed in every other case.
pub proof fn the_status_tells_the_end(execution: ExecutionView)
    ensures
        ({
            let status = screen::status_of(execution);
            &&& (status == Status::Queued) == (execution.state == ExecutionState::Queued)
            &&& (status == Status::Running) == (execution.state == ExecutionState::Running)
            &&& (status == Status::Passed) == (execution.state == ExecutionState::Finished
                && execution.outcome == Some(ExecutionOutcomeView::Exited { code: 0 }))
            &&& (status == Status::Cancelled) == (execution.state == ExecutionState::Cancelled || ((
            execution.state == ExecutionState::Interrupted || execution.state
                == ExecutionState::Finished) && (execution.outcome matches Some(
                ExecutionOutcomeView::Cancelled { signal },
            ))))
        }),
{
}

/// Each status has its own name.
pub proof fn statuses_have_names(status: Status)
    ensures
        (screen::status_name(status) == "queued"@) == (status == Status::Queued),
        (screen::status_name(status) == "running"@) == (status == Status::Running),
        (screen::status_name(status) == "cancelled"@) == (status == Status::Cancelled),
        (screen::status_name(status) == "failed"@) == (status == Status::Failed),
        (screen::status_name(status) == "passed"@) == (status == Status::Passed),
{
    reveal_strlit("queued");
    reveal_strlit("running");
    reveal_strlit("cancelled");
    reveal_strlit("failed");
    reveal_strlit("passed");
    assert("queued"@[0] == 'q' && "running"@[0] == 'r' && "cancelled"@[0] == 'c' && "failed"@[0]
        == 'f' && "passed"@[0] == 'p');
}

/// Two statuses are never shown in one colour, nor two states of a session.
pub proof fn colours_tell_apart(
    a: Status,
    b: Status,
    first: AgentSessionState,
    second: AgentSessionState,
)
    ensures
        screen::status_color(a) == screen::status_color(b) ==> a == b,
        screen::session_color(first) == screen::session_color(second) ==> first == second,
        output::stream_color(OutputStream::Stdout) != output::stream_color(OutputStream::Stderr),
{
}

/// An outcome that is shown names the code, the signal, or the reason.
pub proof fn an_outcome_is_shown_with_its_number(
    outcome: Option<ExecutionOutcomeView>,
    before: Seq<char>,
    after: Seq<char>,
)
    ensures
        ({
            let shown = screen::shown_outcome(outcome, before, after);
            match outcome {
                Some(ExecutionOutcomeView::Exited { code }) => shown == "exit "@
                    + text::signed_decimal(code as int),
                Some(ExecutionOutcomeView::Signaled { signal }) => shown == "signal "@
                    + text::signed_decimal(signal as int),
                Some(ExecutionOutcomeView::Cancelled { signal: Some(signal) }) => text::occurs(
                    shown,
                    text::signed_decimal(signal as int),
                ),
                Some(ExecutionOutcomeView::SpawnError { message }) => text::occurs(shown, message),
                Some(ExecutionOutcomeView::Interrupted { reason }) => text::occurs(shown, reason),
                _ => true,
            }
        }),
{
    let shown = screen::shown_outcome(outcome, before, after);
    match outcome {
        Some(ExecutionOutcomeView::Cancelled { signal: Some(signal) }) => {
            let numeral = text::signed_decimal(signal as int);
            let at = before.len() as int;
            assert(shown.subrange(at, at + numeral.len()) =~= numeral);
            assert(text::stands_at(shown, numeral, at));
        },
        Some(ExecutionOutcomeView::SpawnError { message }) => {
            let at = shown.len() - message.len();
            assert(shown.subrange(at, at + message.len()) =~= message);
            assert(text::stands_at(shown, message, at));
        },
        Some(ExecutionOutcomeView::Interrupted { reason }) => {
            let at = shown.len() - reason.len();
            assert(shown.subrange(at, at + reason.len()) =~= reason);
            assert(text::stands_at(shown, reason, at));
        },
        _ => {},
    }
}

/// How long an execution took is its duration; while it runs it is the time
/// since it started, or since it was asked for.
pub proof fn the_time_taken_counts_from_the_start(execution: ExecutionView, now: i64)
    ensures
        execution.duration_ms matches Some(took) ==> screen::taken(execution, now) == took,
        execution.duration_ms is None ==> (match execution.started_at_ms {
            Some(from) => from <= now && now - from <= i64::MAX ==> screen::taken(execution, now)
                == now - from,
            None => execution.created_at_ms <= now && now - execution.created_at_ms <= i64::MAX
                ==> screen::taken(execution, now) == now - execution.created_at_ms,
        }),
{
}

/// A view that follows shows the last line; no view is moved past the end, and
/// one that does not follow stays where it is while it can.
pub proof fn the_end_is_in_sight(pane: OutputPaneView, height: int)
    requires
        height >= 0,
    ensures
        ({
            let scroll = output::scroll_in(pane, height);
            let count = output::pane_lines(pane).len();
            &&& 0 <= scroll
            &&& count <= height ==> scroll == 0
            &&& count > height ==> scroll + height <= count
            &&& pane.follow && count > height ==> scroll + height == count
            &&& !pane.follow && pane.scroll + height <= count ==> scroll == pane.scroll
        }),
{
}

/// Output that comes is put behind what is there, under the stream it came
/// from, and as long as there is room everything stays; a note that the capture
/// was cut says at how many bytes.
pub proof fn what_comes_is_put_behind(
    pane: OutputPaneView,
    notice: Option<Seq<char>>,
    event: ExecutionEventView,
    next_seq: u64,
    data: Seq<u8>,
)
    ensures
        ({
            let (after, noted, taken) = output::ingested(pane, notice, seq![event], next_seq);
            match event.payload {
                ExecutionEventPayloadView::Output { stream, data_base64 } => {
                    &&& codec::base64_decoding(data_base64) == codec::good(data) && data.len()
                        <= usize::MAX && pane.bytes + data.len() <= 1024 * 1024 ==> {
                        &&& taken is Ok && noted == notice
                        &&& after.chunks.len() == pane.chunks.len() + 1
                        &&& after.chunks.drop_last() == pane.chunks
                        &&& after.chunks.last().stream == stream
                        &&& after.chunks.last().bytes == data.len()
                        &&& after.chunks.last().text == screen::sanitized(
                            output::lossy_text(data),
                        )
                        &&& after.bytes == pane.bytes + data.len()
                        &&& after.cursor == next_seq
                    }
                    &&& codec::base64_decoding(data_base64) is Err ==> taken is Err && after
                        == pane
                },
                ExecutionEventPayloadView::CaptureTruncated { limit_bytes } => {
                    &&& after == (OutputPaneView { cursor: next_seq, ..pane })
                    &&& noted matches Some(said) && text::occurs(
                        said,
                        text::decimal(limit_bytes as nat),
                    )
                },
                _ => after == (OutputPaneView { cursor: next_seq, ..pane }) && noted == notice,
            }
        }),
{
    let events = seq![event];
    assert(events.drop_last() =~= Seq::empty());
    reveal_with_fuel(output::events_taken, 2);
    let (after, noted, taken) = output::ingested(pane, notice, events, next_seq);
    match event.payload {
        ExecutionEventPayloadView::Output { stream, data_base64 } => {
            if codec::base64_decoding(data_base64) == codec::good(data) && data.len() <= usize::MAX
                && pane.bytes + data.len() <= 1024 * 1024 {
                assert(after.chunks.drop_last() =~= pane.chunks);
            }
        },
        ExecutionEventPayloadView::CaptureTruncated { limit_bytes } => {
            let said = noted->0;
            let numeral = text::decimal(limit_bytes as nat);
            let at = "capture truncated at "@.len() as int;
            assert(said.subrange(at, at + numeral.len()) =~= numeral);
            assert(text::stands_at(said, numeral, at));
        },
        _ => {},
    }
}

/// An identifier in a list is the beginning of it.
pub proof fn a_listed_identifier_begins_it(id: Seq<char>, k: int)
    requires
        report::chars_in(id, 12) == Some(k),
        0 <= k <= id.len(),
    ensures
        screen::listed_id(id) == id.take(k),
        screen::listed_id(id).is_prefix_of(id),
{
    assert(id.take(k) =~= id.subrange(0, k));
}

/// The rows of a list that are in sight are the ones from the offset on, in
/// their order, as many as there is room for.
pub proof fn what_is_in_sight_is_part_of_the_list(
    list: Seq<Seq<char>>,
    offset: int,
    rows: int,
    k: int,
)
    requires
        0 <= offset,
        0 <= rows,
    ensures
        screen::window(list, offset, rows).len() <= rows,
        offset + rows <= list.len() ==> screen::window(list, offset, rows).len() == rows,
        0 <= k < rows && offset + k < list.len() ==> k < screen::window(list, offset, rows).len()
            && screen::window(list, offset, rows)[k] == list[offset + k],
{
}

/// Nothing that a terminal takes for a command is shown: no control character
/// but the line break comes through, neither those below the space nor those
/// from the delete character to the end of the second set. Everything else
/// comes through as it is.
pub proof fn no_control_character_is_shown(own: Seq<char>, at: int)
    requires
        0 <= at < own.len(),
    ensures
        ({
            let code = screen::sanitized(own)[at] as u32;
            code == 10 || (0x20 <= code && code < 0x7f) || 0xa0 <= code
        }),
        ({
            let code = own[at] as u32;
            0x20 <= code && code < 0x7f || 0xa0 <= code || own[at] == '\n' ==> screen::sanitized(
                own,
            )[at] == own[at]
        }),
{
}

/// Only the letters without marks change their case, and each into its own
/// other form.
pub proof fn letters_change_their_case(c: char)
    ensures
        'a' <= c && c <= 'z' ==> 'A' <= screen::ascii_upper(c) && screen::ascii_upper(c) <= 'Z'
            && order::ascii_lower(screen::ascii_upper(c)) == c,
        !('a' <= c && c <= 'z') ==> screen::ascii_upper(c) == c,
        'A' <= c && c <= 'Z' ==> 'a' <= order::ascii_lower(c) && order::ascii_lower(c) <= 'z'
            && screen::ascii_upper(order::ascii_lower(c)) == c,
        !('A' <= c && c <= 'Z') ==> order::ascii_lower(c) == c,
{
}

/// What could not be read of the output is said, and leaves what is in view; a
/// page that was read is taken in, and read on from only while there is more
/// and something came.
pub proof fn pages_are_taken_in(
    pane: OutputPaneView,
    notice: Option<Seq<char>>,
    error: Option<Seq<char>>,
    response: ReadOutputResponseView,
    failure: ErrorView,
)
    ensures
        ({
            let (after, noted, said, more) = output::page_taken(
                pane,
                notice,
                error,
                Err::<ReadOutputResponseView, ErrorView>(failure),
            );
            after == pane && noted == notice && said is Some && !more
        }),
        ({
            let (after, noted, said, more) = output::page_taken(
                pane,
                notice,
                error,
                Ok::<ReadOutputResponseView, ErrorView>(response),
            );
            let taken = output::ingested(pane, notice, response.events, response.next_seq);
            &&& after == taken.0 && noted == taken.1
            &&& taken.2 is Ok ==> said == error && after.cursor == response.next_seq && more == (
            response.has_more && response.next_seq > pane.cursor)
            &&& taken.2 is Err ==> said is Some && !more
        }),
{
}

} // verus!
