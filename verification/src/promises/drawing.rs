//! What the view of a workspace shows.

use vstd::prelude::*;

use crate::model::{AgentSessionState, AgentSessionView, ExecutionState, ExecutionView};
use crate::order;
use crate::output;
use crate::report;
use crate::screen;
use crate::screen::{Rect, Status};
use crate::text;
use crate::ui;
use crate::ui::{
    AgentModalField, AgentModalPurposeView, AgentProvider, Focus, HitTargetView, ModalView,
    OperatorStateView,
};
use crate::ui_view;
use crate::watch;

verus! {

/// How many of the first `count` places meet `test`.
pub open spec fn how_many(count: nat, test: spec_fn(int) -> bool) -> nat {
    order::matching(count, test).len()
}

proof fn counting_on(count: nat, a: spec_fn(int) -> bool, b: spec_fn(int) -> bool)
    requires
        forall|i: int| 0 <= i < count ==> #[trigger] a(i) == b(i),
    ensures
        how_many(count, a) == how_many(count, b),
    decreases count,
{
    if count > 0 {
        assert(a(count - 1) == b(count - 1));
        counting_on((count - 1) as nat, a, b);
    }
}

proof fn running_are_counted(list: Seq<ExecutionView>, state: ExecutionState)
    ensures
        ui_view::in_state(list, state) == how_many(
            list.len(),
            |i: int| list[i].state == state,
        ),
    decreases list.len(),
{
    if list.len() > 0 {
        let front = list.drop_last();
        running_are_counted(front, state);
        counting_on(
            front.len(),
            |i: int| front[i].state == state,
            |i: int| list[i].state == state,
        );
    }
}

proof fn failed_are_counted(list: Seq<ExecutionView>, status: Status)
    ensures
        ui_view::with_status(list, status) == how_many(
            list.len(),
            |i: int| screen::status_of(list[i]) == status,
        ),
    decreases list.len(),
{
    if list.len() > 0 {
        let front = list.drop_last();
        failed_are_counted(front, status);
        counting_on(
            front.len(),
            |i: int| screen::status_of(front[i]) == status,
            |i: int| screen::status_of(list[i]) == status,
        );
    }
}

proof fn recorded_are_counted(list: Seq<AgentSessionView>)
    ensures
        ui_view::recording_count(list) == how_many(
            list.len(),
            |i: int| list[i].state == AgentSessionState::Recording,
        ),
    decreases list.len(),
{
    if list.len() > 0 {
        let front = list.drop_last();
        recorded_are_counted(front);
        counting_on(
            front.len(),
            |i: int| front[i].state == AgentSessionState::Recording,
            |i: int| list[i].state == AgentSessionState::Recording,
        );
    }
}

/// The header names the workspace, and says how many sessions are being
/// recorded, how many executions run and how many failed; its title says
/// whether the daemon answers.
pub proof fn the_header_counts(state: OperatorStateView, area: Rect)
    ensures
        ({
            let panel = ui_view::header(state, area);
            let spans = panel.lines[0].spans;
            let works = state.workspace_executions;
            let records = state.sessions;
            &&& panel.area == area
            &&& text::occurs(spans[1].text, state.workspace.name)
            &&& spans[2].text == text::decimal(
                how_many(
                    records.len(),
                    |i: int| records[i].state == AgentSessionState::Recording,
                ),
            ) + " recording"@
            &&& spans[4].text == text::decimal(
                how_many(works.len(), |i: int| works[i].state == ExecutionState::Running),
            ) + " running"@
            &&& spans[6].text == text::decimal(
                how_many(
                    works.len(),
                    |i: int| screen::status_of(works[i]) == Status::Failed,
                ),
            ) + " failed"@
        }),
{
    running_are_counted(state.workspace_executions, ExecutionState::Running);
    failed_are_counted(state.workspace_executions, Status::Failed);
    recorded_are_counted(state.sessions);
    let said = ui_view::header(state, area).lines[0].spans[1].text;
    let name = state.workspace.name;
    let at = "  "@.len() as int;
    assert(said.subrange(at, at + name.len()) =~= name);
    assert(text::stands_at(said, name, at));
}

/// Each row of the executions in sight is marked where it is the selected one,
/// and shows the status and the command of the execution it stands for.
pub proof fn rows_show_their_executions(state: OperatorStateView, area: Rect, row: int, e: int)
    requires
        0 <= row < ui_view::executions_in_sight(state, area).len(),
        order::first_at(
            ui::scoped(state),
            |execution: ExecutionView|
                execution.id == ui_view::executions_in_sight(state, area)[row],
            e,
        ),
    ensures
        ({
            let panel = ui_view::executions_panel(state, area);
            let execution = ui::scoped(state)[e];
            let line = panel.lines[row];
            &&& panel.lines.len() == ui_view::executions_in_sight(state, area).len()
            &&& (line.spans[0].text[0] == '>') == (state.selected_execution_id == Some(
                execution.id,
            ))
            &&& text::occurs(
                line.spans[0].text,
                screen::status_name(screen::status_of(execution)),
            )
            &&& text::occurs(line.spans[2].text, execution.command_display)
        }),
{
    let shown = ui_view::executions_in_sight(state, area);
    let id = shown[row];
    let test = |execution: ExecutionView| execution.id == shown[row];
    let same = |execution: ExecutionView| execution.id == id;
    assert(order::first_at(ui::scoped(state), same, e)) by {
        assert(test(ui::scoped(state)[e]));
        assert forall|k: int| 0 <= k < e implies !same(#[trigger] ui::scoped(state)[k]) by {
            assert(!test(ui::scoped(state)[k]));
        }
    }
    order::position_found(ui::scoped(state), same, e);
    let execution = ui::scoped(state)[e];
    let line = ui_view::execution_entry(state, id);
    reveal_strlit(">");
    reveal_strlit(" ");
    let name = screen::status_name(screen::status_of(execution));
    let first = line.spans[0].text;
    assert(first.subrange(2, 2int + name.len()) =~= name);
    assert(text::stands_at(first, name, 2));
    let last = line.spans[2].text;
    let command = execution.command_display;
    assert(last.subrange(1, 1int + command.len()) =~= command);
    assert(text::stands_at(last, command, 1));
}

/// Each row of the sessions in sight is marked where it is the selected one; it
/// shows the agent, the state and the title of its session. The first row of
/// all stands for the work of all sessions, and says how much there is.
pub proof fn rows_show_their_sessions(
    state: OperatorStateView,
    now: i64,
    id: Seq<char>,
    s: int,
)
    requires
        order::first_at(state.sessions, |session: AgentSessionView| session.id == id, s),
    ensures
        ({
            let session = state.sessions[s];
            let line = ui_view::session_entry(state, Some(id), now);
            &&& (line.spans[0].text[0] == '>') == (state.selected_session_id == Some(id))
            &&& text::occurs(line.spans[0].text, screen::provider_shown(session.agent_kind))
            &&& text::occurs(line.spans[0].text, ui_view::session_label_of(session.state))
            &&& text::occurs(line.spans[1].text, screen::cut(watch::title_of(session), 24))
            &&& text::occurs(line.spans[2].text, screen::shown_age(now, session.created_at_ms))
        }),
        ({
            let line = ui_view::session_entry(state, None, now);
            &&& (line.spans[0].text[0] == '>') == (state.selected_session_id is None)
            &&& text::occurs(
                line.spans[1].text,
                text::decimal(state.workspace_executions.len()),
            )
        }),
{
    order::position_found(state.sessions, |session: AgentSessionView| session.id == id, s);
    let session = state.sessions[s];
    let line = ui_view::session_entry(state, Some(id), now);
    reveal_strlit(">");
    reveal_strlit(" ");
    reveal_strlit("  ");
    let first = line.spans[0].text;
    let kind = screen::provider_shown(session.agent_kind);
    assert(first.subrange(2, 2int + kind.len()) =~= kind);
    assert(text::stands_at(first, kind, 2));
    let label = ui_view::session_label_of(session.state);
    let from = 3int + report::padded(kind, 6).len();
    assert(first.subrange(from, from + label.len()) =~= label);
    assert(text::stands_at(first, label, from));
    let title = screen::cut(watch::title_of(session), 24);
    let second = line.spans[1].text;
    assert(second.subrange(1, 1int + title.len()) =~= title);
    assert(text::stands_at(second, title, 1));
    let age = screen::shown_age(now, session.created_at_ms);
    let third = line.spans[2].text;
    assert(third.subrange(2, 2int + age.len()) =~= age);
    assert(text::stands_at(third, age, 2));
    let all = ui_view::session_entry(state, None, now);
    let count = text::decimal(state.workspace_executions.len());
    let said = all.spans[1].text;
    assert(said.subrange(2, 2int + count.len()) =~= count);
    assert(text::stands_at(said, count, 2));
}

/// Each row of the sessions can be clicked, and stands for its session.
pub proof fn session_rows_can_be_clicked(state: OperatorStateView, area: Rect, row: int)
    requires
        0 <= row < ui_view::sessions_in_sight(state, area).len(),
    ensures
        ({
            let regions = ui_view::sessions_drawn(state, area).hit_regions;
            let at = state.hit_regions.len() + 1 + row;
            &&& regions[at].area == screen::row_area(area, row)
            &&& match ui_view::sessions_in_sight(state, area)[row] {
                Some(id) => regions[at].target == HitTargetView::Session(id),
                None => regions[at].target == HitTargetView::AllWork,
            }
        }),
{
}

/// What is inspected is the selected execution: its command, its directory and
/// its identifier.
pub proof fn the_selected_one_is_inspected(
    state: OperatorStateView,
    area: Rect,
    now: i64,
    execution: ExecutionView,
)
    requires
        ui::chosen_execution(state) == Some(execution),
    ensures
        ({
            let lines = ui_view::inspector(state, area, now).lines;
            &&& lines[0].spans[0].text == execution.command_display
            &&& lines[1].spans[0].text == screen::status_name(screen::status_of(execution))
            &&& text::occurs(lines[1].spans[1].text, ui::written_outcome(execution))
            &&& text::occurs(lines[2].spans[0].text, execution.cwd)
            &&& text::occurs(lines[4].spans[0].text, execution.id)
        }),
{
    let lines = ui_view::inspector(state, area, now).lines;
    let outcome = ui::written_outcome(execution);
    let first = lines[1].spans[1].text;
    let a = "  "@.len() as int;
    assert(first.subrange(a, a + outcome.len()) =~= outcome);
    assert(text::stands_at(first, outcome, a));
    let second = lines[2].spans[0].text;
    let b = "cwd  "@.len() as int;
    assert(second.subrange(b, b + execution.cwd.len()) =~= execution.cwd);
    assert(text::stands_at(second, execution.cwd, b));
    let third = lines[4].spans[0].text;
    let c = "id  "@.len() as int;
    assert(third.subrange(c, c + execution.id.len()) =~= execution.id);
    assert(text::stands_at(third, execution.id, c));
}

/// The line at the bottom shows the search while it is written; else what went
/// wrong, else what is said, else the search that is in force.
pub proof fn the_bottom_line_shows_what_matters(state: OperatorStateView, area: Rect)
    ensures
        ({
            let said = ui_view::footer(state, area).lines[0].spans[0].text;
            &&& state.editing_search ==> text::occurs(said, state.query)
            &&& !state.editing_search ==> {
                &&& state.error matches Some(error) ==> said == error
                &&& state.error is None ==> (state.notice matches Some(notice) ==> said == notice)
                &&& state.error is None && state.notice is None && state.query.len() > 0
                    ==> text::occurs(said, state.query)
            }
        }),
{
    let said = ui_view::footer(state, area).lines[0].spans[0].text;
    let query = state.query;
    if state.editing_search {
        let at = "/"@.len() as int;
        assert(said.subrange(at, at + query.len()) =~= query);
        assert(text::stands_at(said, query, at));
    } else if state.error is None && state.notice is None && query.len() > 0 {
        let at = "filter: "@.len() as int;
        assert(said.subrange(at, at + query.len()) =~= query);
        assert(text::stands_at(said, query, at));
    }
}

/// The palette shows every action under its name and with its key, and marks
/// the one that is selected.
pub proof fn the_palette_shows_its_actions(area: Rect, selected: usize, i: int)
    requires
        0 <= i < ui::palette().len(),
    ensures
        ({
            let lines = ui_view::palette_panel(area, selected).lines;
            let action = ui::palette()[i];
            &&& lines.len() == ui::palette().len()
            &&& (lines[i].spans[0].text[0] == '>') == (i == selected)
            &&& text::occurs(lines[i].spans[0].text, ui::action_name(action))
            &&& lines[i].spans[1].text == ui::action_key(action)
        }),
{
    reveal_strlit(">");
    reveal_strlit(" ");
    let action = ui::palette()[i];
    let name = ui::action_name(action);
    let said = ui_view::palette_panel(area, selected).lines[i].spans[0].text;
    assert(said.subrange(2, 2int + name.len()) =~= name);
    assert(text::stands_at(said, name, 2));
}

/// When an agent is chosen, the provider that is marked is the one that is
/// chosen, and what was written is shown.
pub proof fn the_chosen_agent_is_marked(
    full: Rect,
    purpose: AgentModalPurposeView,
    provider: AgentProvider,
    field: AgentModalField,
    prompt: Seq<char>,
    label: Seq<char>,
)
    ensures
        ({
            let lines = ui_view::modal_panel(
                ModalView::Agent { purpose, provider, field, prompt },
                full,
                label,
            ).lines;
            &&& lines[2].spans[1].style.bold == (provider == AgentProvider::Codex)
            &&& lines[2].spans[3].style.bold == (provider == AgentProvider::Claude)
            &&& text::occurs(lines[2].spans[1].text, "Codex"@)
            &&& text::occurs(lines[2].spans[3].text, label)
            &&& purpose is Launch && prompt.len() > 0 ==> lines[4].spans[1].text == prompt
            &&& purpose matches AgentModalPurposeView::Handoff {
                source_session_id,
                source_provider,
                active_count,
                command_preview,
            } ==> text::occurs(lines[5].spans[0].text, text::decimal(active_count as nat))
                && text::occurs(lines[6].spans[0].text, command_preview)
        }),
{
    let lines = ui_view::modal_panel(
        ModalView::Agent { purpose, provider, field, prompt },
        full,
        label,
    ).lines;
    let at = "[ "@.len() as int;
    let first = lines[2].spans[1].text;
    assert(first.subrange(at, at + "Codex"@.len()) =~= "Codex"@);
    assert(text::stands_at(first, "Codex"@, at));
    let second = lines[2].spans[3].text;
    assert(second.subrange(at, at + label.len()) =~= label);
    assert(text::stands_at(second, label, at));
    match purpose {
        AgentModalPurposeView::Launch => {},
        AgentModalPurposeView::Handoff {
            source_session_id,
            source_provider,
            active_count,
            command_preview,
        } => {
            let count = text::decimal(active_count as nat);
            let said = lines[5].spans[0].text;
            let from = "Active    "@.len() as int;
            assert(said.subrange(from, from + count.len()) =~= count);
            assert(text::stands_at(said, count, from));
            let last = lines[6].spans[0].text;
            let start = "Command   "@.len() as int;
            assert(last.subrange(start, start + command_preview.len()) =~= command_preview);
            assert(text::stands_at(last, command_preview, start));
        },
    }
}

/// The panes stand side by side, from the sessions on the left to the output on
/// the right, between the header and the line at the bottom; where there is not
/// room for all three, the ones that are shown fill the width.
pub proof fn the_panes_stand_in_order(area: Rect, focus: Focus)
    requires
        screen::on_screen(area),
        area.width >= 60,
        area.height >= 20,
    ensures
        ({
            let places = ui_view::arranged(area, focus);
            &&& places.header.y == area.y && places.header.height == 3
            &&& places.footer.height == 1 && places.footer.y + 1 == area.y + area.height
            &&& places.sessions matches Some(pane) ==> pane.x == area.x && pane.y == area.y + 3
            &&& places.executions matches Some(pane) ==> pane.y == area.y + 3
            &&& places.output matches Some(parts) ==> parts.inspector.y == area.y + 3
                && parts.inspector.height == 8 && parts.output.y == area.y + 11
            &&& match (places.sessions, places.executions) {
                (Some(left), Some(right)) => left.x + left.width == right.x,
                _ => true,
            }
            &&& match (places.executions, places.output) {
                (Some(left), Some(right)) => left.x + left.width == right.pane.x,
                _ => true,
            }
            &&& area.width >= 140 ==> places.sessions is Some && places.executions is Some
                && places.output is Some
            &&& area.width < 140 && area.width >= 100 ==> places.sessions is Some && (
            places.output is Some) == (focus == Focus::Output)
            &&& area.width < 100 ==> (places.sessions is Some) == (focus == Focus::Sessions)
        }),
{
}

/// Each state of a session has its own short name.
pub proof fn session_labels_tell_apart(a: AgentSessionState, b: AgentSessionState)
    ensures
        ui_view::session_label_of(a) == ui_view::session_label_of(b) ==> a == b,
        ui_view::session_label_of(AgentSessionState::Recording) == "REC"@,
{
    reveal_strlit("REC");
    reveal_strlit("DONE");
    reveal_strlit("STOP");
    assert("REC"@[0] == 'R' && "DONE"@[0] == 'D' && "STOP"@[0] == 'S');
}

/// The header comes first, then the panes that are shown, then the line at the
/// bottom, and last what stands before the view. What was clickable before is
/// forgotten.
pub proof fn everything_is_drawn(state: OperatorStateView, area: Rect, focus: Focus, now: i64)
    ensures
        ({
            let places = ui_view::arranged(area, focus);
            let (after, panels) = ui_view::drawn(state, area, Some(places), now);
            let count = panels.len();
            &&& panels[0].area == places.header
            &&& state.modal is None ==> panels[count - 1].area == places.footer
            &&& state.modal matches Some(modal) ==> panels[count - 2].area == places.footer
                && panels[count - 1] == ui_view::modal_panel(modal, area, state.claude_label)
            &&& places.sessions matches Some(pane) ==> panels[1].area == pane
            &&& after.query == state.query && after.selected_session_id
                == state.selected_session_id && after.selected_execution_id
                == state.selected_execution_id && after.focus == state.focus && after.modal
                == state.modal
        }),
        ui_view::drawn(state, area, None, now).0.hit_regions.len() == 0,
{
}

/// Of three panes the sessions take a quarter of the width and the executions
/// thirty-four hundredths; of two the sessions take thirty-four hundredths, to
/// the nearest whole.
pub proof fn the_panes_have_their_shares(area: Rect, focus: Focus)
    requires
        screen::on_screen(area),
        area.width >= 60,
        area.height >= 20,
    ensures
        ({
            let places = ui_view::arranged(area, focus);
            &&& area.width >= 140 ==> (places.sessions matches Some(pane) && -50 <= 100 * pane.width
                - 25 * area.width <= 50)
            &&& area.width >= 140 ==> (places.executions matches Some(pane) && -50 <= 100 * (pane.x
                + pane.width - area.x) - 59 * area.width <= 50)
            &&& 100 <= area.width < 140 ==> (places.sessions matches Some(pane) && -50 <= 100
                * pane.width - 34 * area.width <= 50)
            &&& area.width < 100 ==> (places.sessions matches Some(pane) ==> pane.width
                == area.width)
        }),
{
}

/// The title says whether the daemon answers, and that of the output whether
/// its end is followed; the pane that keys go to has a frame of its own colour.
pub proof fn titles_say_how_it_is(state: OperatorStateView, area: Rect, now: i64)
    ensures
        (ui_view::header(state, area).title == Some("Operator UI | daemon connected"@)) == (
        state.error is None),
        (ui_view::output_panel(state, area).title == Some("Output | follow"@))
            == state.output.follow,
        ui_view::output_panel(state, area).lines == output::pane_lines(state.output),
        (ui_view::output_panel(state, area).border == screen::frame_style(true)) == (state.focus
            == Focus::Output),
        (ui_view::executions_panel(state, area).border == screen::frame_style(true)) == (state.focus
            == Focus::Executions),
        (ui_view::sessions_panel(state, area, now).border == screen::frame_style(true)) == (
        state.focus == Focus::Sessions),
{
    reveal_strlit("Operator UI | daemon connected");
    reveal_strlit("Operator UI | daemon retrying");
    reveal_strlit("Output | follow");
    reveal_strlit("Output");
    assert("Operator UI | daemon connected"@.len() == 30);
    assert("Operator UI | daemon retrying"@.len() == 29);
    assert("Output | follow"@.len() == 15);
    assert("Output"@.len() == 6);
}

/// Work is shown as handed off where a session is selected that it was not
/// started under; else it is shown with the name of who started it, or with the
/// kind where there is no name.
pub proof fn handed_off_work_is_marked(state: OperatorStateView, execution: ExecutionView)
    ensures
        state.selected_session_id is None ==> !ui_view::handed_off(state, execution),
        state.selected_session_id matches Some(id) ==> (ui_view::handed_off(state, execution) == (
        execution.initiator.session_id != Some(id))),
        ui_view::handed_off(state, execution) ==> ui_view::source_of(state, execution)
            == "handoff"@,
        !ui_view::handed_off(state, execution) ==> (match execution.initiator.name {
            Some(name) => ui_view::source_of(state, execution) == name,
            None => ui_view::source_of(state, execution) == execution.initiator.kind,
        }),
{
}

/// The question whether to cancel names the execution, and what is too small is
/// told with the size that it has.
pub proof fn questions_name_their_subject(area: Rect, id: Seq<char>, label: Seq<char>)
    ensures
        ui_view::modal_panel(ModalView::ConfirmCancel(id), area, label).lines[1].spans[0].text
            == screen::listed_id(id),
        text::occurs(
            screen::too_small(area, label, 60, 20).lines[2].spans[0].text,
            text::decimal(area.width as nat) + "x"@ + text::decimal(area.height as nat),
        ),
{
    let said = screen::too_small(area, label, 60, 20).lines[2].spans[0].text;
    let size = text::decimal(area.width as nat) + "x"@ + text::decimal(area.height as nat);
    let at = "current: "@.len() as int;
    assert(said =~= "current: "@ + size);
    assert(said.subrange(at, at + size.len()) =~= size);
    assert(text::stands_at(said, size, at));
}

/// The request that is shown is the last one of the selected session, on one
/// line and cut where it is too long.
pub proof fn the_last_request_is_shown(state: OperatorStateView)
    ensures
        (state.detail matches Some(detail) && detail.turns.len() > 0) ==> text::occurs(
            ui_view::request_line(state),
            screen::cut(screen::on_one_line(state.detail->0.turns.last().prompt), 72),
        ),
{
    if state.detail is Some && state.detail->0.turns.len() > 0 {
        let said = ui_view::request_line(state);
        let shown = screen::cut(
            screen::on_one_line(state.detail->0.turns.last().prompt),
            72,
        );
        let at = "request  "@.len() as int;
        assert(said.subrange(at, at + shown.len()) =~= shown);
        assert(text::stands_at(said, shown, at));
    }
}

} // verus!
