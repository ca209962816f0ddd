//! What the operator's view shows.

use vstd::prelude::*;

use crate::layout;
use crate::layout::{rows_and_rest, shared_columns, split_columns, split_rows, Portion};
use crate::model::{
    AgentSession, AgentSessionState, AgentSessionView, Execution, ExecutionState, ExecutionView,
};
use crate::output;
use crate::output::OutputPaneView;
use crate::report;
use crate::report::pad;
use crate::screen;
use crate::screen::{
    bold, capacity, centered_rect, colored, confirmation_panel, execution_failed, execution_status,
    focus_style, format_age, format_duration, format_outcome, make_framed, make_line, make_message,
    make_raw, no_lines, one_line, plain_style, provider_label, put_line, put_panel, row_rect,
    selection_offset, session_style, short_id, time_taken, too_small_panel, truncate, Color, Line,
    LineView, Panel, PanelView, Rect, SpanView, Status, Style,
};
use crate::text;
use crate::text::{decimal_text, joined, joined3, same_text};
use crate::ui;
use crate::ui::{
    find_session, AgentModalField, AgentModalPurpose, AgentModalPurposeView, AgentProvider,
    Focus, HitRegion, HitRegionView, HitTarget, HitTargetView, Modal, ModalView, OperatorState,
    OperatorStateView, PaletteAction, PALETTE_SIZE,
};
use crate::watch;
use crate::watch::{find_execution, is_started_under, session_title};

verus! {

/// The narrowest screen that the view can use.
pub const MIN_WIDTH: u16 = 60;

/// The lowest screen that the view can use.
pub const MIN_HEIGHT: u16 = 20;

/// The width from which two panes stand beside each other.
pub const MEDIUM_WIDTH: u16 = 100;

/// The width from which three panes stand beside each other.
pub const WIDE_WIDTH: u16 = 140;

/// Where the pane of the output lies, with its two parts.
#[derive(Debug, Clone, Copy, PartialEq, Eq, Structural)]
pub struct OutputLayout {
    pub pane: Rect,
    pub inspector: Rect,
    pub output: Rect,
}

/// Where the panes of the view lie, those of them that are shown.
#[derive(Debug, Clone, Copy)]
pub struct UiLayout {
    pub header: Rect,
    pub sessions: Option<Rect>,
    pub executions: Option<Rect>,
    pub output: Option<OutputLayout>,
    pub footer: Rect,
}

/// Whether the list of sessions is shown.
pub open spec fn shows_sessions(width: u16, focus: Focus) -> bool {
    width >= MEDIUM_WIDTH || focus == Focus::Sessions
}

/// Whether the list of executions is shown.
pub open spec fn shows_executions(width: u16, focus: Focus) -> bool {
    width >= WIDE_WIDTH || (width >= MEDIUM_WIDTH && focus != Focus::Output) || focus
        == Focus::Executions
}

/// Whether the output is shown.
pub open spec fn shows_output(width: u16, focus: Focus) -> bool {
    width >= WIDE_WIDTH || focus == Focus::Output
}

/// What keys go to is shown, however narrow the screen is.
pub proof fn the_focus_is_shown(width: u16, focus: Focus)
    ensures
        match focus {
            Focus::Sessions => shows_sessions(width, focus),
            Focus::Executions => shows_executions(width, focus),
            Focus::Output => shows_output(width, focus),
        },
{
}

/// The pane of the output with its two parts.
pub open spec fn output_parts(pane: Rect) -> OutputLayout {
    OutputLayout {
        pane,
        inspector: layout::band(pane, 0, 8),
        output: layout::band(pane, 8, pane.height as int),
    }
}

/// Where the panes of the view lie on a screen that is large enough: three of
/// them beside each other, or two, or only the one that keys go to.
pub open spec fn arranged(area: Rect, focus: Focus) -> UiLayout {
    let middle = layout::band(area, 3, area.height - 1);
    let width = area.width as int;
    let (sessions, executions, output) = if area.width >= WIDE_WIDTH {
        let first = layout::share(width, 25);
        let second = layout::share(width, 59);
        (
            layout::strip(middle, 0, first),
            layout::strip(middle, first, second),
            layout::strip(middle, second, width),
        )
    } else if area.width >= MEDIUM_WIDTH {
        let at = layout::share(width, 34);
        (
            layout::strip(middle, 0, at),
            layout::strip(middle, at, width),
            layout::strip(middle, at, width),
        )
    } else {
        (middle, middle, middle)
    };
    UiLayout {
        header: layout::band(area, 0, 3),
        sessions: if shows_sessions(area.width, focus) {
            Some(sessions)
        } else {
            None
        },
        executions: if shows_executions(area.width, focus) {
            Some(executions)
        } else {
            None
        },
        output: if shows_output(area.width, focus) {
            Some(output_parts(output))
        } else {
            None
        },
        footer: layout::band(area, area.height - 1, area.height as int),
    }
}

/// How many panes of the view hold a place.
pub open spec fn panes_at(layout: UiLayout, x: u16, y: u16) -> int {
    layout::held(layout.header, x, y) + layout::held(layout.footer, x, y) + (match layout.sessions {
        Some(area) => layout::held(area, x, y),
        None => 0,
    }) + (match layout.executions {
        Some(area) => layout::held(area, x, y),
        None => 0,
    }) + (match layout.output {
        Some(parts) => layout::held(parts.inspector, x, y) + layout::held(parts.output, x, y),
        None => 0,
    })
}

/// Each place of the screen is in just one pane of the view, and the panes hold
/// no other places.
pub proof fn the_panes_share_the_screen(area: Rect, focus: Focus, x: u16, y: u16)
    requires
        screen::on_screen(area),
        area.width >= MIN_WIDTH,
        area.height >= MIN_HEIGHT,
    ensures
        panes_at(arranged(area, focus), x, y) == layout::held(area, x, y),
{
}

fn output_layout(pane: Rect) -> (layout: OutputLayout)
    ensures
        layout.pane == pane,
        pane.y + pane.height <= u16::MAX && pane.height >= 9 ==> layout == output_parts(pane),
{
    let (inspector, output) = rows_and_rest(pane, 8, 1);
    OutputLayout { pane, inspector, output }
}

/// Divides the screen for the view; nothing where it is too small. How many
/// panes are shown depends on the width, and which ones on what keys go to.
pub fn arrange(area: Rect, focus: Focus) -> (layout: Option<UiLayout>)
    ensures
        (layout is None) == (area.width < MIN_WIDTH || area.height < MIN_HEIGHT),
        screen::on_screen(area) && layout is Some ==> layout == Some(arranged(area, focus)),
{
    if area.width < MIN_WIDTH || area.height < MIN_HEIGHT {
        return None;
    }
    let mut portions: Vec<Portion> = Vec::new();
    portions.push(Portion::Length(3));
    portions.push(Portion::Min(10));
    portions.push(Portion::Length(1));
    let sections = split_rows(area, &portions);
    proof {
        let list = portions@;
        let size = area.height as int;
        assert(list.take(3) =~= list);
        layout::sums_grow(list, 0);
        layout::sums_grow(list, 1);
        layout::sums_grow(list, 2);
        assert(!(list[0] is Percentage));
        assert(layout::fits(list, size));
        assert(layout::begins(list, size, 0) == 0);
        assert(layout::begins(list, size, 1) == 3);
        assert(layout::begins(list, size, 2) == size - 1);
        assert(layout::begins(list, size, 3) == size);
        if screen::on_screen(area) {
            assert(sections@[0] == layout::rows_of(area, list)[0]);
            assert(sections@[1] == layout::rows_of(area, list)[1]);
            assert(sections@[2] == layout::rows_of(area, list)[2]);
        }
    }
    let mut layout = UiLayout {
        header: sections[0],
        sessions: None,
        executions: None,
        output: None,
        footer: sections[2],
    };
    if area.width >= WIDE_WIDTH {
        let mut shares: Vec<Portion> = Vec::new();
        shares.push(Portion::Percentage(25));
        shares.push(Portion::Percentage(34));
        shares.push(Portion::Percentage(41));
        let columns = split_columns(sections[1], &shares);
        proof {
            let list = shares@;
            let size = sections@[1].width as int;
            assert(list.take(3) =~= list);
            layout::sums_grow(list, 0);
            layout::sums_grow(list, 1);
            layout::sums_grow(list, 2);
            assert(layout::shares(list));
            assert(layout::begins(list, size, 0) == 0);
            assert(layout::begins(list, size, 1) == layout::share(size, 25));
            assert(layout::begins(list, size, 2) == layout::share(size, 59));
            assert(layout::begins(list, size, 3) == size);
            if screen::on_screen(area) {
                assert(columns@[0] == layout::columns_of(sections@[1], list)[0]);
                assert(columns@[1] == layout::columns_of(sections@[1], list)[1]);
                assert(columns@[2] == layout::columns_of(sections@[1], list)[2]);
            }
        }
        layout.sessions = Some(columns[0]);
        layout.executions = Some(columns[1]);
        layout.output = Some(output_layout(columns[2]));
    } else if area.width >= MEDIUM_WIDTH {
        let (left, right) = shared_columns(sections[1], 34);
        layout.sessions = Some(left);
        if focus == Focus::Output {
            layout.output = Some(output_layout(right));
        } else {
            layout.executions = Some(right);
        }
    } else {
        match focus {
            Focus::Sessions => {
                layout.sessions = Some(sections[1]);
            },
            Focus::Executions => {
                layout.executions = Some(sections[1]);
            },
            Focus::Output => {
                layout.output = Some(output_layout(sections[1]));
            },
        }
    }
    Some(layout)
}

/// How many executions have a status.
pub open spec fn with_status(executions: Seq<ExecutionView>, status: Status) -> nat
    decreases executions.len(),
{
    if executions.len() == 0 {
        0
    } else {
        with_status(executions.drop_last(), status) + if screen::status_of(executions.last()) == status {
            1nat
        } else {
            0nat
        }
    }
}

/// How many executions are in a state.
pub open spec fn in_state(executions: Seq<ExecutionView>, state: ExecutionState) -> nat
    decreases executions.len(),
{
    if executions.len() == 0 {
        0
    } else {
        in_state(executions.drop_last(), state) + if executions.last().state == state {
            1nat
        } else {
            0nat
        }
    }
}

/// How many sessions are being recorded.
pub open spec fn recording_count(sessions: Seq<AgentSessionView>) -> nat
    decreases sessions.len(),
{
    if sessions.len() == 0 {
        0
    } else {
        recording_count(sessions.drop_last()) + if sessions.last().state
            == AgentSessionState::Recording {
            1nat
        } else {
            0nat
        }
    }
}

fn count_executions(executions: &Vec<Execution>) -> (counts: (usize, usize))
    ensures
        counts.0 == in_state(
            executions@.map_values(|item: Execution| item@),
            ExecutionState::Running,
        ),
        counts.1 == with_status(
            executions@.map_values(|item: Execution| item@),
            Status::Failed,
        ),
{
    let ghost all = executions@.map_values(|item: Execution| item@);
    let mut running: usize = 0;
    let mut failed: usize = 0;
    let mut i: usize = 0;
    assert(all.take(0) =~= Seq::empty());
    while i < executions.len()
        invariant
            i <= executions.len(),
            running <= i,
            failed <= i,
            all == executions@.map_values(|item: Execution| item@),
            running == in_state(all.take(i as int), ExecutionState::Running),
            failed == with_status(all.take(i as int), Status::Failed),
        decreases executions.len() - i,
    {
        proof {
            assert(all.take(i + 1).drop_last() =~= all.take(i as int));
            assert(all.take(i + 1).last() == executions@[i as int]@);
        }
        if executions[i].state == ExecutionState::Running {
            running += 1;
        }
        if execution_failed(&executions[i]) {
            failed += 1;
        }
        i += 1;
    }
    assert(all.take(i as int) =~= all);
    (running, failed)
}

fn count_recording(sessions: &Vec<AgentSession>) -> (count: usize)
    ensures
        count == recording_count(sessions@.map_values(|item: AgentSession| item@)),
{
    let ghost all = sessions@.map_values(|item: AgentSession| item@);
    let mut count: usize = 0;
    let mut i: usize = 0;
    assert(all.take(0) =~= Seq::empty());
    while i < sessions.len()
        invariant
            i <= sessions.len(),
            count <= i,
            all == sessions@.map_values(|item: AgentSession| item@),
            count == recording_count(all.take(i as int)),
        decreases sessions.len() - i,
    {
        proof {
            assert(all.take(i + 1).drop_last() =~= all.take(i as int));
            assert(all.take(i + 1).last() == sessions@[i as int]@);
        }
        if sessions[i].state == AgentSessionState::Recording {
            count += 1;
        }
        i += 1;
    }
    assert(all.take(i as int) =~= all);
    count
}

/// The head of the view.
pub open spec fn header(state: OperatorStateView, area: Rect) -> PanelView {
    let failed = with_status(state.workspace_executions, Status::Failed);
    screen::framed(
        area,
        if state.error is Some {
            "Operator UI | daemon retrying"@
        } else {
            "Operator UI | daemon connected"@
        },
        seq![
            screen::line_of(
                seq![
                    screen::piece("LOOMTERM"@, screen::in_bold(Color::White)),
                    screen::piece("  "@ + state.workspace.name + "  "@, screen::unstyled()),
                    screen::piece(
                        text::decimal(recording_count(state.sessions)) + " recording"@,
                        screen::in_color(Color::Cyan),
                    ),
                    screen::piece("  "@, screen::unstyled()),
                    screen::piece(
                        text::decimal(in_state(state.workspace_executions, ExecutionState::Running))
                            + " running"@,
                        screen::in_color(Color::Yellow),
                    ),
                    screen::piece("  "@, screen::unstyled()),
                    screen::piece(
                        text::decimal(failed) + " failed"@,
                        if failed == 0 {
                            screen::in_color(Color::DarkGray)
                        } else {
                            screen::in_color(Color::LightRed)
                        },
                    ),
                ],
            ),
        ],
    )
}

fn render_header(state: &OperatorState, area: Rect) -> (panel: Panel)
    ensures
        panel@ == header(state@, area),
{
    let (running, failed) = count_executions(&state.workspace_executions);
    let recording = count_recording(&state.sessions);
    let mut line = Line::new();
    line.put("LOOMTERM".to_owned(), bold(Color::White));
    line.put_raw(joined3("  ", state.workspace.name.as_str(), "  ").as_str());
    line.put(
        joined(decimal_text(recording as u64).as_str(), " recording"),
        colored(Color::Cyan),
    );
    line.put_raw("  ");
    line.put(joined(decimal_text(running as u64).as_str(), " running"), colored(Color::Yellow));
    line.put_raw("  ");
    let color = if failed == 0 {
        Color::DarkGray
    } else {
        Color::LightRed
    };
    line.put(joined(decimal_text(failed as u64).as_str(), " failed"), colored(color));
    let mut lines = no_lines();
    assert(line@.spans =~= header(state@, area).lines[0].spans);
    put_line(&mut lines, line);
    assert(screen::line_views(lines@) =~= header(state@, area).lines);
    let title = match &state.error {
        Some(_) => "Operator UI | daemon retrying",
        None => "Operator UI | daemon connected",
    };
    make_framed(area, title, lines)
}

/// What is said of the state of a session.
pub open spec fn session_label_of(state: AgentSessionState) -> Seq<char> {
    match state {
        AgentSessionState::Recording => "REC"@,
        AgentSessionState::Finished => "DONE"@,
        AgentSessionState::Interrupted => "STOP"@,
    }
}

/// What is said of the state of a session.
pub fn session_label(state: AgentSessionState) -> (label: &'static str)
    ensures
        label@ == session_label_of(state),
{
    match state {
        AgentSessionState::Recording => "REC",
        AgentSessionState::Finished => "DONE",
        AgentSessionState::Interrupted => "STOP",
    }
}

/// What stands before an entry: a mark where it is selected.
pub open spec fn marker(selected: bool) -> Seq<char> {
    if selected {
        ">"@
    } else {
        " "@
    }
}

fn marker_text(selected: bool) -> (mark: &'static str)
    ensures
        mark@ == marker(selected),
{
    if selected {
        ">"
    } else {
        " "
    }
}

/// The line of a session.
pub open spec fn session_line_of(session: AgentSessionView, selected: bool, now: i64) -> LineView {
    screen::line_of(
        seq![
            screen::piece(
                marker(selected) + " "@ + report::padded(screen::provider_shown(session.agent_kind), 6) + " "@
                    + report::padded(session_label_of(session.state), 4),
                screen::in_color(screen::session_color(session.state)),
            ),
            screen::piece(" "@ + screen::cut(watch::title_of(session), 24), screen::unstyled()),
            screen::piece("  "@ + screen::shown_age(now, session.created_at_ms), screen::in_color(Color::DarkGray)),
        ],
    )
}

/// An entry in the list of sessions.
pub open spec fn session_entry(state: OperatorStateView, id: Option<Seq<char>>, now: i64) -> LineView {
    let selected = id == state.selected_session_id;
    match id {
        None => screen::line_of(
            seq![
                screen::piece(marker(selected) + " ALL WORK"@, screen::in_bold(Color::Plain)),
                screen::piece(
                    "  "@ + text::decimal(state.workspace_executions.len()),
                    screen::in_color(Color::DarkGray),
                ),
            ],
        ),
        Some(id) => match ui::session_place(state.sessions, id) {
            Some(at) => session_line_of(state.sessions[at], selected, now),
            None => screen::line_of(Seq::empty()),
        },
    }
}

fn session_line(session: &AgentSession, selected: bool, now: i64) -> (line: Line)
    ensures
        line@ == session_line_of(session@, selected, now),
{
    let mut line = Line::new();
    let mut head = joined3(
        marker_text(selected),
        " ",
        pad(provider_label(session.agent_kind.as_str()).as_str(), 6).as_str(),
    );
    head.append(" ");
    head.append(pad(session_label(session.state), 4).as_str());
    line.put(head, session_style(session.state));
    line.put_raw(
        joined(" ", truncate(session_title(session).as_str(), 24).as_str()).as_str(),
    );
    line.put(
        joined("  ", format_age(now, session.created_at_ms).as_str()),
        colored(Color::DarkGray),
    );
    assert(line@.spans =~= session_line_of(session@, selected, now).spans);
    line
}

fn session_entry_line(state: &OperatorState, id: &Option<String>, now: i64) -> (line: Line)
    ensures
        line@ == session_entry(state@, text::maybe_text(*id), now),
{
    let selected = match (id, &state.selected_session_id) {
        (Some(a), Some(b)) => same_text(a.as_str(), b.as_str()),
        (None, None) => true,
        _ => false,
    };
    match id {
        None => {
            let mut line = Line::new();
            line.put(joined(marker_text(selected), " ALL WORK"), bold(Color::Plain));
            line.put(
                joined("  ", decimal_text(state.workspace_executions.len() as u64).as_str()),
                colored(Color::DarkGray),
            );
            proof {
                assert(state@.workspace_executions.len() == state.workspace_executions.len());
                assert(line@.spans =~= session_entry(state@, None, now).spans);
            }
            line
        },
        Some(id) => match find_session(&state.sessions, id.as_str()) {
            Some(at) => {
                assert(state@.sessions[at as int] == state.sessions@[at as int]@);
                session_line(&state.sessions[at], selected, now)
            },
            None => Line::new(),
        },
    }
}

/// What lies under an entry in the list of sessions.
pub open spec fn session_target(id: Option<Seq<char>>) -> HitTargetView {
    match id {
        None => HitTargetView::AllWork,
        Some(id) => HitTargetView::Session(id),
    }
}

/// The first session that is in sight.
pub open spec fn session_offset_in(state: OperatorStateView, area: Rect) -> int {
    screen::offset_for(
        state.session_offset as int,
        match crate::ui::session_row(state) {
            Some(at) => at,
            None => 0,
        },
        screen::rows_in(area),
        ui::visible_sessions(state).len() as int,
    )
}

/// The sessions that are in sight.
pub open spec fn sessions_in_sight(state: OperatorStateView, area: Rect) -> Seq<Option<Seq<char>>> {
    screen::window(ui::visible_sessions(state), session_offset_in(state, area), screen::rows_in(area))
}

/// The region of a pane.
pub open spec fn pane_region(area: Rect, focus: Focus) -> HitRegionView {
    HitRegionView { area, target: HitTargetView::Pane(focus) }
}

/// The list of sessions.
pub open spec fn sessions_panel(state: OperatorStateView, area: Rect, now: i64) -> PanelView {
    PanelView {
        listed: true,
        border: screen::frame_style(state.focus == Focus::Sessions),
        ..screen::framed(
            area,
            "Sessions"@,
            sessions_in_sight(state, area).map_values(
                |id: Option<Seq<char>>| session_entry(state, id, now),
            ),
        )
    }
}

/// The view after its sessions were drawn: where the list begins, and what the
/// mouse can be used on.
pub open spec fn sessions_drawn(state: OperatorStateView, area: Rect) -> OperatorStateView {
    let shown = sessions_in_sight(state, area);
    OperatorStateView {
        session_offset: session_offset_in(state, area) as usize,
        hit_regions: state.hit_regions.push(pane_region(area, Focus::Sessions)) + Seq::new(
            shown.len(),
            |row: int|
                HitRegionView {
                    area: screen::row_area(area, row),
                    target: session_target(shown[row]),
                },
        ),
        ..state
    }
}

/// The views of some regions.
pub open spec fn region_views(regions: Seq<HitRegion>) -> Seq<HitRegionView> {
    regions.map_values(|item: HitRegion| item@)
}

fn put_region(regions: &mut Vec<HitRegion>, region: HitRegion)
    ensures
        region_views(final(regions)@) == region_views(old(regions)@).push(region@),
{
    let ghost before = region_views(regions@);
    let ghost view = region@;
    regions.push(region);
    assert(region_views(regions@) =~= before.push(view));
}

fn window_end(offset: usize, rows: u16, count: usize) -> (end: usize)
    ensures
        offset < count ==> end == (if offset + rows >= count {
            count as int
        } else {
            offset + rows
        }),
        offset >= count ==> end == offset,
{
    if offset >= count {
        offset
    } else if count - offset <= rows as usize {
        count
    } else {
        offset + rows as usize
    }
}

/// The line of an execution.
pub open spec fn execution_entry(state: OperatorStateView, id: Seq<char>) -> LineView {
    match watch::place_of(ui::scoped(state), id) {
        None => screen::line_of(Seq::empty()),
        Some(at) => {
            let execution = ui::scoped(state)[at];
            screen::line_of(
                seq![
                    screen::piece(
                        marker(state.selected_execution_id == Some(id)) + " "@ + report::padded(
                            screen::status_name(screen::status_of(execution)),
                            9,
                        ),
                        screen::in_color(screen::status_color(screen::status_of(execution))),
                    ),
                    screen::piece(
                        " "@ + report::padded(screen::cut(source_of(state, execution), 7), 7),
                        screen::in_color(Color::DarkGray),
                    ),
                    screen::piece(" "@ + execution.command_display, screen::unstyled()),
                ],
            )
        },
    }
}

/// Whether an execution that is shown under the selected session was started
/// under another one.
pub open spec fn handed_off(state: OperatorStateView, execution: ExecutionView) -> bool {
    match state.selected_session_id {
        Some(id) => execution.initiator.session_id != Some(id),
        None => false,
    }
}

/// What an execution comes from.
pub open spec fn source_of(state: OperatorStateView, execution: ExecutionView) -> Seq<char> {
    if handed_off(state, execution) {
        "handoff"@
    } else {
        match execution.initiator.name {
            Some(name) => name,
            None => execution.initiator.kind,
        }
    }
}

fn is_handed_off(state: &OperatorState, execution: &Execution) -> (yes: bool)
    ensures
        yes == handed_off(state@, execution@),
{
    match &state.selected_session_id {
        Some(id) => !is_started_under(execution, id.as_str()),
        None => false,
    }
}

fn execution_entry_line(state: &OperatorState, id: &str) -> (line: Line)
    ensures
        line@ == execution_entry(state@, id@),
{
    let list = state.scoped_executions();
    let at = match find_execution(list, id) {
        None => {
            return Line::new();
        },
        Some(at) => at,
    };
    let execution = &list[at];
    assert(ui::scoped(state@)[at as int] == execution@);
    let selected = match &state.selected_execution_id {
        Some(own) => same_text(own.as_str(), id),
        None => false,
    };
    let (label, style) = execution_status(execution);
    let mut line = Line::new();
    line.put(joined3(marker_text(selected), " ", pad(label, 9).as_str()), style);
    let source = if is_handed_off(state, execution) {
        "handoff"
    } else {
        match &execution.initiator.name {
            Some(name) => name.as_str(),
            None => execution.initiator.kind.as_str(),
        }
    };
    line.put(
        joined(" ", pad(truncate(source, 7).as_str(), 7).as_str()),
        colored(Color::DarkGray),
    );
    line.put_raw(joined(" ", execution.command_display.as_str()).as_str());
    assert(line@.spans =~= execution_entry(state@, id@).spans);
    line
}

/// The first execution that is in sight.
pub open spec fn execution_offset_in(state: OperatorStateView, area: Rect) -> int {
    screen::offset_for(
        state.execution_offset as int,
        match crate::ui::execution_row(state) {
            Some(at) => at,
            None => 0,
        },
        screen::rows_in(area),
        ui::visible_executions(state).len() as int,
    )
}

/// The executions that are in sight.
pub open spec fn executions_in_sight(state: OperatorStateView, area: Rect) -> Seq<Seq<char>> {
    screen::window(ui::visible_executions(state), execution_offset_in(state, area), screen::rows_in(area))
}

/// What stands over the list of executions.
pub open spec fn executions_title(state: OperatorStateView) -> Seq<char> {
    match state.selected_session_id {
        Some(id) => match ui::session_place(state.sessions, id) {
            Some(at) => "Executions | "@ + screen::provider_shown(state.sessions[at].agent_kind),
            None => "Executions | all work"@,
        },
        None => "Executions | all work"@,
    }
}

/// The list of executions.
pub open spec fn executions_panel(state: OperatorStateView, area: Rect) -> PanelView {
    let shown = executions_in_sight(state, area);
    PanelView {
        listed: true,
        border: screen::frame_style(state.focus == Focus::Executions),
        ..screen::framed(
            area,
            executions_title(state),
            if shown.len() == 0 {
                seq![screen::styled_line("No executions match this view"@, screen::in_color(Color::DarkGray))]
            } else {
                shown.map_values(|id: Seq<char>| execution_entry(state, id))
            },
        )
    }
}

/// The view after its executions were drawn.
pub open spec fn executions_drawn(state: OperatorStateView, area: Rect) -> OperatorStateView {
    let shown = executions_in_sight(state, area);
    OperatorStateView {
        execution_offset: execution_offset_in(state, area) as usize,
        hit_regions: state.hit_regions.push(pane_region(area, Focus::Executions)) + Seq::new(
            shown.len(),
            |row: int|
                HitRegionView {
                    area: screen::row_area(area, row),
                    target: HitTargetView::Execution(shown[row]),
                },
        ),
        ..state
    }
}

/// A click on a row of the list selects what is shown there, for as long as
/// the rows can be told apart.
pub proof fn rows_can_be_clicked(state: OperatorStateView, area: Rect, row: int, x: u16)
    requires
        screen::on_screen(area),
        area.height >= 3,
        0 <= row < executions_in_sight(state, area).len(),
        area.x < x < area.x + area.width - 1,
    ensures
        crate::ui::target_at(
            executions_drawn(state, area).hit_regions,
            x,
            (area.y + 1 + row) as u16,
        ) == Some(HitTargetView::Execution(executions_in_sight(state, area)[row])),
{
    let regions = executions_drawn(state, area).hit_regions;
    let shown = executions_in_sight(state, area);
    let base = state.hit_regions.len() + 1;
    let y = (area.y + 1 + row) as u16;
    row_is_found(regions, area, shown, base as int, regions.len() as int, row, x);
    assert(regions.take(regions.len() as int) =~= regions);
}

proof fn row_is_found(
    regions: Seq<HitRegionView>,
    area: Rect,
    shown: Seq<Seq<char>>,
    base: int,
    count: int,
    row: int,
    x: u16,
)
    requires
        screen::on_screen(area),
        area.height >= 3,
        shown.len() <= screen::rows_in(area),
        0 <= row < shown.len(),
        area.x < x < area.x + area.width - 1,
        0 <= base,
        base + row < count <= regions.len(),
        regions.len() == base + shown.len(),
        forall|k: int|
            0 <= k < shown.len() ==> #[trigger] regions[base + k] == (HitRegionView {
                area: screen::row_area(area, k),
                target: HitTargetView::Execution(shown[k]),
            }),
    ensures
        crate::ui::target_at(regions.take(count), x, (area.y + 1 + row) as u16) == Some(
            HitTargetView::Execution(shown[row]),
        ),
    decreases count,
{
    let y = (area.y + 1 + row) as u16;
    let last = count - 1 - base;
    assert(regions.take(count).last() == regions[base + last]);
    assert(regions.take(count).drop_last() =~= regions.take(count - 1));
    if last > row {
        row_is_found(regions, area, shown, base, count - 1, row, x);
    }
}

/// The session's last request, on one line.
pub open spec fn request_line(state: OperatorStateView) -> Seq<char> {
    match state.detail {
        Some(detail) => if detail.turns.len() > 0 {
            "request  "@ + screen::cut(screen::on_one_line(detail.turns.last().prompt), 72)
        } else {
            "request  unavailable"@
        },
        None => "request  unavailable"@,
    }
}

/// What is known of the selected execution.
pub open spec fn inspector(state: OperatorStateView, area: Rect, now: i64) -> PanelView {
    PanelView {
        wrapped: true,
        ..screen::framed(
            area,
            "Inspector"@,
            match ui::chosen_execution(state) {
                None => seq![screen::raw_line("No execution selected"@)],
                Some(execution) => seq![
                    screen::styled_line(execution.command_display, screen::in_bold(Color::Plain)),
                    screen::line_of(
                        seq![
                            screen::piece(
                                screen::status_name(screen::status_of(execution)),
                                screen::in_color(screen::status_color(screen::status_of(execution))),
                            ),
                            screen::piece(
                                "  "@ + ui::written_outcome(execution) + "  "@ + screen::shown_span(
                                    screen::taken(execution, now),
                                ),
                                screen::unstyled(),
                            ),
                        ],
                    ),
                    screen::raw_line("cwd  "@ + execution.cwd),
                    screen::raw_line(
                        "source  "@ + (if handed_off(state, execution) {
                            "handoff"@
                        } else {
                            execution.initiator.kind
                        }) + (match execution.initiator.session_id {
                            Some(id) => " | "@ + screen::listed_id(id),
                            None => ""@,
                        }),
                    ),
                    screen::styled_line("id  "@ + execution.id, screen::in_color(Color::DarkGray)),
                    screen::styled_line(request_line(state), screen::in_color(Color::DarkGray)),
                ],
            },
        )
    }
}

/// The output of the selected execution.
pub open spec fn output_panel(state: OperatorStateView, area: Rect) -> PanelView {
    PanelView {
        border: screen::frame_style(state.focus == Focus::Output),
        scroll: screen::at_most_u16(output::scroll_in(state.output, screen::over(area.height as int, 2))) as u16,
        ..screen::framed(
            area,
            if state.output.follow {
                "Output | follow"@
            } else {
                "Output"@
            },
            output::pane_lines(state.output),
        )
    }
}

/// The view after its output was drawn.
pub open spec fn output_drawn(state: OperatorStateView, layout: OutputLayout) -> OperatorStateView {
    OperatorStateView {
        hit_regions: state.hit_regions.push(pane_region(layout.pane, Focus::Output)),
        output: OutputPaneView {
            scroll: output::scroll_in(state.output, screen::over(layout.output.height as int, 2)) as usize,
            ..state.output
        },
        ..state
    }
}

/// What is said at the foot of the screen.
pub open spec fn footer(state: OperatorStateView, area: Rect) -> PanelView {
    if state.editing_search {
        screen::message_panel(
            area,
            "/"@ + state.query + "_  Enter apply  Esc close"@,
            screen::in_color(Color::Cyan),
        )
    } else {
        match (state.error, state.notice) {
            (Some(error), _) => screen::message_panel(area, error, screen::in_color(Color::LightRed)),
            (None, Some(notice)) => screen::message_panel(area, notice, screen::in_color(Color::Yellow)),
            (None, None) => if state.query.len() > 0 {
                screen::message_panel(
                    area,
                    "filter: "@ + state.query + "  Esc clear  / edit"@,
                    screen::in_color(Color::Cyan),
                )
            } else {
                screen::message_panel(
                    area,
                    "Tab focus  / search  Ctrl-P actions  n new  h handoff  ? help  q quit"@,
                    screen::in_color(Color::DarkGray),
                )
            },
        }
    }
}

fn render_footer(state: &OperatorState, area: Rect) -> (panel: Panel)
    ensures
        panel@ == footer(state@, area),
{
    if state.editing_search {
        return make_message(
            area,
            joined3("/", state.query.as_str(), "_  Enter apply  Esc close").as_str(),
            colored(Color::Cyan),
        );
    }
    match (&state.error, &state.notice) {
        (Some(error), _) => make_message(area, error.as_str(), colored(Color::LightRed)),
        (None, Some(notice)) => make_message(area, notice.as_str(), colored(Color::Yellow)),
        (None, None) => {
            if state.query.as_str().is_empty() {
                make_message(
                    area,
                    "Tab focus  / search  Ctrl-P actions  n new  h handoff  ? help  q quit",
                    colored(Color::DarkGray),
                )
            } else {
                make_message(
                    area,
                    joined3("filter: ", state.query.as_str(), "  Esc clear  / edit").as_str(),
                    colored(Color::Cyan),
                )
            }
        },
    }
}

/// What the keys do, in words.
pub open spec fn help_lines() -> Seq<LineView> {
    seq![
        screen::raw_line("Tab / Shift-Tab   move focus"@),
        screen::raw_line("Up/Down or j/k     navigate / scroll"@),
        screen::raw_line("Enter              inspect selection"@),
        screen::raw_line("/                  search everything"@),
        screen::raw_line("Ctrl-P or :        command palette"@),
        screen::raw_line("n / h              new agent / handoff"@),
        screen::raw_line("c                  cancel active execution"@),
        screen::raw_line("o / e              open / export replay"@),
        screen::raw_line("f / r              follow output / refresh"@),
        screen::raw_line("mouse              select and scroll"@),
        screen::raw_line("q                  quit"@),
        screen::raw_line(""@),
        screen::styled_line("Esc or ? closes help"@, screen::in_color(Color::DarkGray)),
    ]
}

/// A panel that stands before the view.
pub open spec fn before_view(area: Rect, title: Seq<char>, lines: Seq<LineView>) -> PanelView {
    PanelView {
        clears: true,
        border: screen::in_color(Color::Cyan),
        ..screen::framed(area, title, lines)
    }
}

fn make_before_view(area: Rect, title: &str, lines: Vec<Line>) -> (panel: Panel)
    ensures
        panel@ == before_view(area, title@, screen::line_views(lines@)),
{
    let mut panel = make_framed(area, title, lines);
    panel.clears = true;
    panel.border = colored(Color::Cyan);
    panel
}

fn render_help(area: Rect) -> (panel: Panel)
    ensures
        panel@ == before_view(area, "Keyboard help"@, help_lines()),
{
    let mut lines = no_lines();
    put_line(&mut lines, make_raw("Tab / Shift-Tab   move focus"));
    put_line(&mut lines, make_raw("Up/Down or j/k     navigate / scroll"));
    put_line(&mut lines, make_raw("Enter              inspect selection"));
    put_line(&mut lines, make_raw("/                  search everything"));
    put_line(&mut lines, make_raw("Ctrl-P or :        command palette"));
    put_line(&mut lines, make_raw("n / h              new agent / handoff"));
    put_line(&mut lines, make_raw("c                  cancel active execution"));
    put_line(&mut lines, make_raw("o / e              open / export replay"));
    put_line(&mut lines, make_raw("f / r              follow output / refresh"));
    put_line(&mut lines, make_raw("mouse              select and scroll"));
    put_line(&mut lines, make_raw("q                  quit"));
    put_line(&mut lines, make_raw(""));
    put_line(
        &mut lines,
        make_line("Esc or ? closes help".to_owned(), colored(Color::DarkGray)),
    );
    assert(screen::line_views(lines@) =~= help_lines());
    make_before_view(area, "Keyboard help", lines)
}

/// The line of an action in the palette.
pub open spec fn palette_line(action: PaletteAction, selected: bool) -> LineView {
    screen::line_of(
        seq![
            screen::piece(
                marker(selected) + " "@ + report::padded(ui::action_name(action), 28),
                if selected {
                    screen::in_bold(Color::Cyan)
                } else {
                    screen::unstyled()
                },
            ),
            screen::piece(ui::action_key(action), screen::in_color(Color::DarkGray)),
        ],
    )
}

/// The palette.
pub open spec fn palette_panel(area: Rect, selected: usize) -> PanelView {
    PanelView {
        listed: true,
        ..before_view(
            area,
            "Command palette"@,
            Seq::new(
                ui::palette().len(),
                |index: int| palette_line(ui::palette()[index], index == selected),
            ),
        )
    }
}

fn render_palette(area: Rect, selected: usize) -> (panel: Panel)
    ensures
        panel@ == palette_panel(area, selected),
{
    let mut lines = no_lines();
    let mut index: usize = 0;
    while index < PALETTE_SIZE
        invariant
            index <= PALETTE_SIZE,
            lines.len() == index,
            forall|k: int|
                0 <= k < index ==> #[trigger] screen::line_views(lines@)[k] == palette_line(
                    ui::palette()[k],
                    k == selected,
                ),
        decreases PALETTE_SIZE - index,
    {
        let action = PaletteAction::at(index);
        let chosen = index == selected;
        let mut line = Line::new();
        let style = if chosen {
            bold(Color::Cyan)
        } else {
            plain_style()
        };
        line.put(joined3(marker_text(chosen), " ", pad(action.label(), 28).as_str()), style);
        line.put(action.shortcut().to_owned(), colored(Color::DarkGray));
        assert(line@.spans =~= palette_line(action, chosen).spans);
        put_line(&mut lines, line);
        index += 1;
    }
    assert(screen::line_views(lines@).len() == lines.len());
    assert(screen::line_views(lines@) =~= palette_panel(area, selected).lines);
    let mut panel = make_before_view(area, "Command palette", lines);
    panel.listed = true;
    panel
}

/// An agent that can be chosen.
pub open spec fn provider_segment_of(label: Seq<char>, selected: bool) -> SpanView {
    screen::piece(
        "[ "@ + label + " ]"@,
        if selected {
            (Style { fg: Color::Black, bg: Color::Cyan, bold: true })
        } else {
            screen::in_color(Color::DarkGray)
        },
    )
}

fn put_provider(line: &mut Line, label: &str, selected: bool)
    ensures
        final(line)@ == screen::line_of(old(line)@.spans.push(provider_segment_of(label@, selected))),
{
    let style = if selected {
        Style { fg: Color::Black, bg: Color::Cyan, bold: true }
    } else {
        colored(Color::DarkGray)
    };
    line.put(joined3("[ ", label, " ]"), style);
}

/// The lines of the choice of an agent.
pub open spec fn agent_lines(
    purpose: AgentModalPurposeView,
    provider: AgentProvider,
    field: AgentModalField,
    prompt: Seq<char>,
    claude_label: Seq<char>,
) -> Seq<LineView> {
    let head = seq![
        screen::raw_line(
            match purpose {
                AgentModalPurposeView::Launch => "Start a recorded agent in this workspace"@,
                _ => "Continue active durable work with another agent"@,
            },
        ),
        screen::raw_line(""@),
        screen::line_of(
            seq![
                screen::piece("Provider  "@, screen::unstyled()),
                provider_segment_of("Codex"@, provider == AgentProvider::Codex),
                screen::piece("  "@, screen::unstyled()),
                provider_segment_of(claude_label, provider == AgentProvider::Claude),
            ],
        ),
        screen::raw_line(""@),
    ];
    let tail = seq![
        screen::raw_line(""@),
        screen::styled_line(
            match purpose {
                AgentModalPurposeView::Launch =>
                    "Left/Right provider  Tab prompt  Enter start  Esc cancel"@,
                _ => "Left/Right provider  Enter handoff  Esc cancel"@,
            },
            screen::in_color(Color::DarkGray),
        ),
    ];
    match purpose {
        AgentModalPurposeView::Launch => head + seq![
            screen::line_of(
                seq![
                    screen::piece("Prompt    "@, screen::unstyled()),
                    screen::piece(
                        if prompt.len() == 0 {
                            "optional initial request"@
                        } else {
                            prompt
                        },
                        if field == AgentModalField::Prompt {
                            screen::in_color(Color::Cyan)
                        } else {
                            screen::in_color(Color::DarkGray)
                        },
                    ),
                ],
            ),
        ] + tail,
        AgentModalPurposeView::Handoff {
            source_session_id,
            source_provider,
            active_count,
            command_preview,
        } => head + seq![
            screen::raw_line(
                "Source    "@ + screen::provider_shown(source_provider) + "  "@ + screen::listed_id(
                    source_session_id,
                ),
            ),
            screen::raw_line("Active    "@ + text::decimal(active_count as nat) + " execution(s)"@),
            screen::styled_line("Command   "@ + command_preview, screen::in_color(Color::DarkGray)),
        ] + tail,
    }
}

/// The choice of an agent.
pub open spec fn agent_panel(
    full: Rect,
    purpose: AgentModalPurposeView,
    provider: AgentProvider,
    field: AgentModalField,
    prompt: Seq<char>,
    claude_label: Seq<char>,
) -> PanelView {
    PanelView {
        wrapped: true,
        ..before_view(
            screen::centered(
                66,
                match purpose {
                    AgentModalPurposeView::Launch => 11,
                    _ => 12,
                },
                full,
            ),
            match purpose {
                AgentModalPurposeView::Launch => "New agent"@,
                _ => "Handoff"@,
            },
            agent_lines(purpose, provider, field, prompt, claude_label),
        )
    }
}

fn render_agent(
    full: Rect,
    purpose: &AgentModalPurpose,
    provider: AgentProvider,
    field: AgentModalField,
    prompt: &str,
    claude_label: &str,
) -> (panel: Panel)
    requires
        screen::on_screen(full),
    ensures
        panel@ == agent_panel(full, purpose@, provider, field, prompt@, claude_label@),
{
    let mut lines = no_lines();
    let (opening, closing, title, height) = match purpose {
        AgentModalPurpose::Launch => (
            "Start a recorded agent in this workspace",
            "Left/Right provider  Tab prompt  Enter start  Esc cancel",
            "New agent",
            11u16,
        ),
        _ => (
            "Continue active durable work with another agent",
            "Left/Right provider  Enter handoff  Esc cancel",
            "Handoff",
            12u16,
        ),
    };
    put_line(&mut lines, make_raw(opening));
    put_line(&mut lines, make_raw(""));
    let mut choice = Line::new();
    choice.put_raw("Provider  ");
    put_provider(&mut choice, "Codex", provider == AgentProvider::Codex);
    choice.put_raw("  ");
    put_provider(&mut choice, claude_label, provider == AgentProvider::Claude);
    let ghost chosen = choice@;
    put_line(&mut lines, choice);
    put_line(&mut lines, make_raw(""));
    let ghost want = agent_lines(purpose@, provider, field, prompt@, claude_label@);
    assert(chosen.spans =~= want[2].spans);
    match purpose {
        AgentModalPurpose::Launch => {
            let mut line = Line::new();
            line.put_raw("Prompt    ");
            let style = if field == AgentModalField::Prompt {
                colored(Color::Cyan)
            } else {
                colored(Color::DarkGray)
            };
            if prompt.is_empty() {
                line.put("optional initial request".to_owned(), style);
            } else {
                line.put(prompt.to_owned(), style);
            }
            assert(line@.spans =~= want[4].spans);
            put_line(&mut lines, line);
        },
        AgentModalPurpose::Handoff {
            source_session_id,
            source_provider,
            active_count,
            command_preview,
        } => {
            let mut source = joined3(
                "Source    ",
                provider_label(source_provider.as_str()).as_str(),
                "  ",
            );
            source.append(short_id(source_session_id.as_str()).as_str());
            put_line(&mut lines, make_raw(source.as_str()));
            put_line(
                &mut lines,
                make_raw(
                    joined3(
                        "Active    ",
                        decimal_text(*active_count as u64).as_str(),
                        " execution(s)",
                    ).as_str(),
                ),
            );
            put_line(
                &mut lines,
                make_line(
                    joined("Command   ", command_preview.as_str()),
                    colored(Color::DarkGray),
                ),
            );
        },
    }
    put_line(&mut lines, make_raw(""));
    put_line(&mut lines, make_line(closing.to_owned(), colored(Color::DarkGray)));
    assert(screen::line_views(lines@) =~= want);
    let mut panel = make_before_view(centered_rect(66, height, full), title, lines);
    panel.wrapped = true;
    panel
}

/// What stands before the view.
pub open spec fn modal_panel(modal: ModalView, full: Rect, claude_label: Seq<char>) -> PanelView {
    match modal {
        ModalView::Help => before_view(
            screen::centered(68, 18, full),
            "Keyboard help"@,
            help_lines(),
        ),
        ModalView::ConfirmCancel(id) => screen::confirmation(screen::centered(58, 7, full), id),
        ModalView::Palette { selected } => palette_panel(screen::centered(58, 14, full), selected),
        ModalView::Agent { purpose, provider, field, prompt } => agent_panel(
            full,
            purpose,
            provider,
            field,
            prompt,
            claude_label,
        ),
    }
}

/// Draws what stands before the view.
pub fn render_modal(modal: &Modal, full: Rect, claude_label: &str) -> (panel: Panel)
    requires
        screen::on_screen(full),
    ensures
        panel@ == modal_panel(modal@, full, claude_label@),
{
    match modal {
        Modal::Help => render_help(centered_rect(68, 18, full)),
        Modal::ConfirmCancel(id) => confirmation_panel(centered_rect(58, 7, full), id.as_str()),
        Modal::Palette { selected } => render_palette(centered_rect(58, 14, full), *selected),
        Modal::Agent { purpose, provider, field, prompt } => render_agent(
            full,
            purpose,
            *provider,
            *field,
            prompt.as_str(),
            claude_label,
        ),
    }
}

/// The panes of the view, drawn one after the other where they are shown.
pub open spec fn panes_drawn(state: OperatorStateView, layout: UiLayout, now: i64) -> (
    OperatorStateView,
    Seq<PanelView>,
) {
    let (first, one) = match layout.sessions {
        Some(area) => (sessions_drawn(state, area), seq![sessions_panel(state, area, now)]),
        None => (state, Seq::empty()),
    };
    let (second, two) = match layout.executions {
        Some(area) => (executions_drawn(first, area), one.push(executions_panel(first, area))),
        None => (first, one),
    };
    match layout.output {
        Some(area) => (
            output_drawn(second, area),
            two.push(inspector(second, area.inspector, now)).push(
                output_panel(second, area.output),
            ),
        ),
        None => (second, two),
    }
}

/// What the view shows, and what has changed in it by being drawn.
pub open spec fn drawn(state: OperatorStateView, area: Rect, layout: Option<UiLayout>, now: i64) -> (
    OperatorStateView,
    Seq<PanelView>,
) {
    let cleared = OperatorStateView { hit_regions: Seq::empty(), ..state };
    match layout {
        None => (cleared, seq![screen::too_small(area, "Loomterm"@, MIN_WIDTH, MIN_HEIGHT)]),
        Some(layout) => {
            let (after, panes) = panes_drawn(cleared, layout, now);
            let panels = seq![header(cleared, layout.header)] + panes + seq![
                footer(after, layout.footer),
            ];
            (
                after,
                match state.modal {
                    Some(modal) => panels.push(modal_panel(modal, area, state.claude_label)),
                    None => panels,
                },
            )
        },
    }
}

impl OperatorState {
    fn render_sessions(&mut self, area: Rect, now: i64) -> (panel: Panel)
        ensures
            panel@ == sessions_panel(old(self)@, area, now),
            final(self)@ == sessions_drawn(old(self)@, area),
    {
        let ghost start = self@;
        let ids = self.visible_session_ids();
        let ghost all = ui::visible_sessions(start);
        assert(all == ui::choice_views(ids@));
        assert(all.len() == ids.len());
        let selected: usize = match self.session_row(&ids) {
            Some(at) => at,
            None => 0,
        };
        let rows = capacity(area);
        let offset = selection_offset(self.session_offset, selected, rows as usize, ids.len());
        let end = window_end(offset, rows, ids.len());
        let ghost shown = sessions_in_sight(start, area);
        assert(offset == session_offset_in(start, area));
        assert(shown.len() == end - offset);
        put_region(
            &mut self.hit_regions,
            HitRegion { area, target: HitTarget::Pane(Focus::Sessions) },
        );
        let ghost base = start.hit_regions.push(pane_region(area, Focus::Sessions));
        let mut lines = no_lines();
        let mut row: u16 = 0;
        while offset + (row as usize) < end
            invariant
                offset + row <= end,
                end <= ids.len() || end == offset,
                row <= rows,
                end - offset <= rows,
                lines.len() == row,
                all == ui::choice_views(ids@),
                shown == sessions_in_sight(start, area),
                shown.len() == end - offset,
                forall|k: int| 0 <= k < shown.len() ==> #[trigger] shown[k] == all[offset + k],
                self@ == (OperatorStateView { hit_regions: self@.hit_regions, ..start }),
                forall|k: int|
                    0 <= k < row ==> #[trigger] screen::line_views(lines@)[k] == session_entry(
                        start,
                        shown[k],
                        now,
                    ),
                region_views(self.hit_regions@) == base + Seq::new(
                    row as nat,
                    |k: int|
                        HitRegionView {
                            area: screen::row_area(area, k),
                            target: session_target(shown[k]),
                        },
                ),
            decreases end - offset - row,
        {
            let at: usize = offset + row as usize;
            let id = &ids[at];
            assert(all[offset + row] == text::maybe_text(ids@[at as int]));
            assert(shown[row as int] == text::maybe_text(*id));
            let line = session_entry_line(self, id, now);
            assert(line@ == session_entry(start, shown[row as int], now));
            put_line(&mut lines, line);
            let target = match id {
                None => HitTarget::AllWork,
                Some(id) => HitTarget::Session(id.clone()),
            };
            let ghost before = region_views(self.hit_regions@);
            put_region(&mut self.hit_regions, HitRegion { area: row_rect(area, row), target });
            assert(region_views(self.hit_regions@) =~= base + Seq::new(
                (row + 1) as nat,
                |k: int|
                    HitRegionView {
                        area: screen::row_area(area, k),
                        target: session_target(shown[k]),
                    },
            ));
            row += 1;
        }
        proof {
            assert(screen::line_views(lines@).len() == lines.len());
            assert(screen::line_views(lines@) =~= sessions_panel(start, area, now).lines);
        }
        self.session_offset = offset;
        let mut panel = make_framed(area, "Sessions", lines);
        panel.listed = true;
        panel.border = focus_style(self.focus == Focus::Sessions);
        assert(self@.hit_regions =~= sessions_drawn(start, area).hit_regions);
        panel
    }

    fn render_executions(&mut self, area: Rect) -> (panel: Panel)
        ensures
            panel@ == executions_panel(old(self)@, area),
            final(self)@ == executions_drawn(old(self)@, area),
    {
        let ghost start = self@;
        let ids = self.visible_execution_ids();
        let ghost all = ui::visible_executions(start);
        assert(all == text::texts(ids@));
        assert(all.len() == ids.len());
        let selected: usize = match self.execution_row(&ids) {
            Some(at) => at,
            None => 0,
        };
        let rows = capacity(area);
        let offset = selection_offset(self.execution_offset, selected, rows as usize, ids.len());
        let end = window_end(offset, rows, ids.len());
        let ghost shown = executions_in_sight(start, area);
        assert(offset == execution_offset_in(start, area));
        assert(shown.len() == end - offset);
        put_region(
            &mut self.hit_regions,
            HitRegion { area, target: HitTarget::Pane(Focus::Executions) },
        );
        let ghost base = start.hit_regions.push(pane_region(area, Focus::Executions));
        let mut lines = no_lines();
        let mut row: u16 = 0;
        while offset + (row as usize) < end
            invariant
                offset + row <= end,
                end <= ids.len() || end == offset,
                row <= rows,
                end - offset <= rows,
                lines.len() == row,
                all == text::texts(ids@),
                shown == executions_in_sight(start, area),
                shown.len() == end - offset,
                forall|k: int| 0 <= k < shown.len() ==> #[trigger] shown[k] == all[offset + k],
                self@ == (OperatorStateView { hit_regions: self@.hit_regions, ..start }),
                forall|k: int|
                    0 <= k < row ==> #[trigger] screen::line_views(lines@)[k] == execution_entry(
                        start,
                        shown[k],
                    ),
                region_views(self.hit_regions@) == base + Seq::new(
                    row as nat,
                    |k: int|
                        HitRegionView {
                            area: screen::row_area(area, k),
                            target: HitTargetView::Execution(shown[k]),
                        },
                ),
            decreases end - offset - row,
        {
            let at: usize = offset + row as usize;
            assert(all[offset + row] == ids@[at as int]@);
            assert(shown[row as int] == ids@[at as int]@);
            let line = execution_entry_line(self, ids[at].as_str());
            assert(line@ == execution_entry(start, shown[row as int]));
            put_line(&mut lines, line);
            put_region(
                &mut self.hit_regions,
                HitRegion {
                    area: row_rect(area, row),
                    target: HitTarget::Execution(ids[at].clone()),
                },
            );
            assert(region_views(self.hit_regions@) =~= base + Seq::new(
                (row + 1) as nat,
                |k: int|
                    HitRegionView {
                        area: screen::row_area(area, k),
                        target: HitTargetView::Execution(shown[k]),
                    },
            ));
            row += 1;
        }
        if row == 0 {
            put_line(
                &mut lines,
                make_line(
                    "No executions match this view".to_owned(),
                    colored(Color::DarkGray),
                ),
            );
        }
        proof {
            assert(screen::line_views(lines@).len() == lines.len());
            assert(screen::line_views(lines@) =~= executions_panel(start, area).lines);
        }
        self.execution_offset = offset;
        let title = match &self.selected_session_id {
            Some(id) => match find_session(&self.sessions, id.as_str()) {
                Some(at) => {
                    assert(start.sessions[at as int] == self.sessions@[at as int]@);
                    joined(
                        "Executions | ",
                        provider_label(self.sessions[at].agent_kind.as_str()).as_str(),
                    )
                },
                None => "Executions | all work".to_owned(),
            },
            None => "Executions | all work".to_owned(),
        };
        let mut panel = make_framed(area, title.as_str(), lines);
        panel.listed = true;
        panel.border = focus_style(self.focus == Focus::Executions);
        assert(self@.hit_regions =~= executions_drawn(start, area).hit_regions);
        panel
    }

    fn render_inspector(&self, area: Rect, now: i64) -> (panel: Panel)
        ensures
            panel@ == inspector(self@, area, now),
    {
        let mut lines = no_lines();
        match self.selected_execution_place() {
            None => {
                put_line(&mut lines, make_raw("No execution selected"));
            },
            Some(at) => {
                let list = self.scoped_executions();
                let execution = &list[at];
                assert(ui::scoped(self@)[at as int] == execution@);
                let (status, style) = execution_status(execution);
                put_line(
                    &mut lines,
                    make_line(execution.command_display.clone(), bold(Color::Plain)),
                );
                let mut facts = Line::new();
                facts.put(status.to_owned(), style);
                let mut outcome = joined3(
                    "  ",
                    format_outcome(&execution.outcome, "cancelled | signal ", "").as_str(),
                    "  ",
                );
                outcome.append(format_duration(time_taken(execution, now)).as_str());
                facts.put_raw(outcome.as_str());
                assert(facts@.spans =~= inspector(self@, area, now).lines[1].spans);
                put_line(&mut lines, facts);
                put_line(&mut lines, make_raw(joined("cwd  ", execution.cwd.as_str()).as_str()));
                let relation = if is_handed_off(self, execution) {
                    "handoff"
                } else {
                    execution.initiator.kind.as_str()
                };
                let mut source = joined("source  ", relation);
                match &execution.initiator.session_id {
                    Some(id) => {
                        source.append(joined(" | ", short_id(id.as_str()).as_str()).as_str());
                    },
                    None => {
                        source.append("");
                    },
                }
                put_line(&mut lines, make_raw(source.as_str()));
                put_line(
                    &mut lines,
                    make_line(joined("id  ", execution.id.as_str()), colored(Color::DarkGray)),
                );
                put_line(&mut lines, make_line(self.request_text(), colored(Color::DarkGray)));
            },
        }
        assert(screen::line_views(lines@) =~= inspector(self@, area, now).lines);
        let mut panel = make_framed(area, "Inspector", lines);
        panel.wrapped = true;
        panel
    }

    fn request_text(&self) -> (text: String)
        ensures
            text@ == request_line(self@),
    {
        match &self.detail {
            Some(detail) => {
                let ghost turns = detail@.turns;
                assert(turns.len() == detail.turns.len());
                if detail.turns.len() > 0 {
                    let turn = &detail.turns[detail.turns.len() - 1];
                    assert(turns.last() == turn@);
                    joined(
                        "request  ",
                        truncate(one_line(turn.prompt.as_str()).as_str(), 72).as_str(),
                    )
                } else {
                    "request  unavailable".to_owned()
                }
            },
            None => "request  unavailable".to_owned(),
        }
    }

    fn render_output(&mut self, layout: OutputLayout) -> (panel: Panel)
        ensures
            panel@ == output_panel(old(self)@, layout.output),
            final(self)@ == output_drawn(old(self)@, layout),
    {
        let ghost start = self@;
        put_region(
            &mut self.hit_regions,
            HitRegion { area: layout.pane, target: HitTarget::Pane(Focus::Output) },
        );
        let lines = self.output.lines();
        assert(screen::line_views(lines@).len() == lines.len());
        let height: usize = layout.output.height.saturating_sub(2) as usize;
        let title = if self.output.follow {
            "Output | follow"
        } else {
            "Output"
        };
        let scroll = self.output.settle(lines.len(), height);
        let mut panel = make_framed(layout.output, title, lines);
        panel.border = focus_style(self.focus == Focus::Output);
        panel.scroll = scroll;
        panel
    }

    fn render_panes(&mut self, panels: &mut Vec<Panel>, layout: UiLayout, now: i64)
        ensures
            final(self)@ == panes_drawn(old(self)@, layout, now).0,
            screen::panel_views(final(panels)@) == screen::panel_views(old(panels)@) + panes_drawn(
                old(self)@,
                layout,
                now,
            ).1,
    {
        let ghost start = self@;
        let ghost before = screen::panel_views(panels@);
        match layout.sessions {
            Some(area) => {
                put_panel(panels, self.render_sessions(area, now));
            },
            None => {},
        }
        match layout.executions {
            Some(area) => {
                put_panel(panels, self.render_executions(area));
            },
            None => {},
        }
        match layout.output {
            Some(area) => {
                put_panel(panels, self.render_inspector(area.inspector, now));
                put_panel(panels, self.render_output(area));
            },
            None => {},
        }
        assert(screen::panel_views(panels@) =~= before + panes_drawn(start, layout, now).1);
    }

    /// Draws the view: what stands where, by how the screen is divided.
    #[verifier::rlimit(60)]
    pub fn render(&mut self, area: Rect, layout: Option<UiLayout>, now: i64) -> (panels: Vec<
        Panel,
    >)
        requires
            screen::on_screen(area),
        ensures
            (final(self)@, screen::panel_views(panels@)) == drawn(old(self)@, area, layout, now),
    {
        let ghost start = self@;
        let mut panels: Vec<Panel> = Vec::new();
        self.hit_regions = Vec::new();
        proof {
            assert(self@.hit_regions =~= Seq::<HitRegionView>::empty());
            assert(screen::panel_views(panels@) =~= Seq::<PanelView>::empty());
        }
        match layout {
            None => {
                put_panel(&mut panels, too_small_panel(area, "Loomterm", MIN_WIDTH, MIN_HEIGHT));
                assert(screen::panel_views(panels@) =~= drawn(start, area, layout, now).1);
            },
            Some(layout) => {
                put_panel(&mut panels, render_header(self, layout.header));
                self.render_panes(&mut panels, layout, now);
                put_panel(&mut panels, render_footer(self, layout.footer));
                match &self.modal {
                    Some(modal) => {
                        put_panel(&mut panels, render_modal(modal, area, self.claude_label.as_str()));
                    },
                    None => {},
                }
                assert(screen::panel_views(panels@) =~= drawn(start, area, Some(layout), now).1);
            },
        }
        panels
    }
}

} // verus!
