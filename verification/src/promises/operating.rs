//! What the view of a workspace does.

use vstd::prelude::*;

use crate::error;
use crate::error::ErrorView;
use crate::model;
use crate::model::{
    AgentSessionDetailView, AgentSessionState, AgentSessionView, ExecutionEventPayloadView,
    ExecutionEventView, ExecutionState, ExecutionView,
};
use crate::order;
use crate::output;
use crate::screen;
use crate::screen::{KeyCode, KeyEvent, MouseEvent, MouseKind};
use crate::text;
use crate::ui;
use crate::ui::{
    AgentModalField, AgentModalPurposeView, AgentProvider, CommandView, Focus, HitRegionView,
    HitTargetView, ModalView, OperatorStateView, PaletteAction, UiActionView,
};

verus! {

/// Whether a key goes to the view itself: it is pressed without the control
/// key, nothing stands before the view, and no search is being written.
pub open spec fn reaches(state: OperatorStateView, key: KeyEvent, code: KeyCode) -> bool {
    key.press && !key.control && key.code == code && state.modal is None && !state.editing_search
}

/// Control and the letter `c` leave at any time, and a key that is let go does
/// nothing.
pub proof fn one_can_always_leave(state: OperatorStateView, key: KeyEvent)
    ensures
        key.press && key.control && key.code == KeyCode::Char('c') ==> ui::key_handled(state, key)
            == (state, CommandView::Quit),
        !key.press ==> ui::key_handled(state, key) == (state, CommandView::Nothing),
        reaches(state, key, KeyCode::Char('q')) ==> ui::key_handled(state, key) == (
            state,
            CommandView::Quit,
        ),
{
}

/// The key that the palette shows beside an action does that action, and every
/// action is in the palette.
pub proof fn the_keys_shown_do_the_actions(
    state: OperatorStateView,
    key: KeyEvent,
    action: PaletteAction,
    c: char,
)
    requires
        ui::action_key(action) == seq![c],
        reaches(state, key, KeyCode::Char(c)),
    ensures
        ui::key_handled(state, key) == ui::invoked(state, action),
        ui::palette().contains(action),
{
    reveal_strlit("n");
    reveal_strlit("h");
    reveal_strlit("c");
    reveal_strlit("o");
    reveal_strlit("e");
    reveal_strlit("f");
    reveal_strlit("r");
    reveal_strlit("?");
    reveal_strlit("q");
    let shown = ui::action_key(action);
    assert(shown[0] == c);
    let all = ui::palette();
    assert(all[0] == PaletteAction::NewAgent && all[1] == PaletteAction::Handoff && all[2]
        == PaletteAction::Cancel && all[3] == PaletteAction::OpenReplay && all[4]
        == PaletteAction::ExportReplay && all[5] == PaletteAction::ToggleFollow && all[6]
        == PaletteAction::Refresh && all[7] == PaletteAction::Help && all[8]
        == PaletteAction::Quit);
}

/// The action that is marked in the palette is the one that is done, and the
/// marks go up and down by one.
pub proof fn the_palette_does_what_is_marked(
    state: OperatorStateView,
    key: KeyEvent,
    selected: usize,
)
    requires
        state.modal == Some(ModalView::Palette { selected }),
        selected < 9,
        !state.editing_search,
        key.press && !key.control,
    ensures
        ({
            let (after, command) = ui::key_handled(state, key);
            let closed = OperatorStateView { modal: None, ..state };
            &&& key.code == KeyCode::Enter ==> (after, command) == ui::invoked(
                closed,
                ui::palette()[selected as int],
            )
            &&& key.code == KeyCode::Esc ==> after == closed && command == CommandView::Nothing
            &&& key.code == KeyCode::Down || key.code == KeyCode::Char('j') ==> command
                == CommandView::Nothing && after.modal == Some(
                ModalView::Palette {
                    selected: if selected < 8 {
                        (selected + 1) as usize
                    } else {
                        selected
                    },
                },
            )
            &&& key.code == KeyCode::Up || key.code == KeyCode::Char('k') ==> command
                == CommandView::Nothing && after.modal == Some(
                ModalView::Palette {
                    selected: if selected > 0 {
                        (selected - 1) as usize
                    } else {
                        selected
                    },
                },
            )
        }),
{
}

/// Each action of the palette does what it is called: it asks about a new
/// agent, hands work off, asks whether to cancel, opens or exports a replay,
/// turns following on and off, reads everything anew, shows the help, or
/// leaves.
pub proof fn actions_do_what_they_are_called(state: OperatorStateView)
    ensures
        ui::invoked(state, PaletteAction::NewAgent).0.modal matches Some(
            ModalView::Agent { purpose, provider, field, prompt },
        ) && purpose is Launch && prompt.len() == 0,
        ui::invoked(state, PaletteAction::Help) == (
            OperatorStateView { modal: Some(ModalView::Help), ..state },
            CommandView::Nothing,
        ),
        ui::invoked(state, PaletteAction::Refresh) == (state, CommandView::Refresh),
        ui::invoked(state, PaletteAction::Quit) == (state, CommandView::Quit),
        ui::invoked(state, PaletteAction::ToggleFollow).0.output.follow == !state.output.follow,
        match ui::source_session(state) {
            Some(id) => {
                &&& ui::invoked(state, PaletteAction::Handoff) == (
                    state,
                    CommandView::PrepareHandoff(id),
                )
                &&& ui::invoked(state, PaletteAction::OpenReplay) == (
                    state,
                    CommandView::OpenReplay(id),
                )
                &&& ui::invoked(state, PaletteAction::ExportReplay) == (
                    state,
                    CommandView::ExportReplay(id),
                )
            },
            None => {
                &&& ui::invoked(state, PaletteAction::Handoff).1 == CommandView::Nothing
                &&& ui::invoked(state, PaletteAction::OpenReplay).1 == CommandView::Nothing
                &&& ui::invoked(state, PaletteAction::ExportReplay).1 == CommandView::Nothing
            },
        },
{
}

/// What a replay or a handoff is about is the selected session, or else the one
/// that the selected execution was run under.
pub proof fn the_source_is_what_is_selected(state: OperatorStateView, e: int)
    ensures
        state.selected_session_id matches Some(id) ==> ui::source_session(state) == Some(id),
        state.selected_session_id is None && (state.selected_execution_id matches Some(id)
            && order::first_at(
            ui::scoped(state),
            |execution: ExecutionView| execution.id == id,
            e,
        )) ==> ui::source_session(state) == ui::scoped(state)[e].initiator.session_id,
        state.selected_session_id is None && state.selected_execution_id is None
            ==> ui::source_session(state) is None,
{
    if state.selected_execution_id is Some {
        let id = state.selected_execution_id->0;
        let test = |execution: ExecutionView| execution.id == id;
        if order::first_at(ui::scoped(state), test, e) {
            order::position_found(ui::scoped(state), test, e);
        }
    }
}

/// Only an execution that is selected and open is asked about; yes cancels that
/// one, no does not, and any other key leaves the question.
pub proof fn cancelling_takes_a_yes(state: OperatorStateView, key: KeyEvent, id: Seq<char>, e: int)
    ensures
        state.selected_execution_id == Some(id) && order::first_at(
            ui::scoped(state),
            |execution: ExecutionView| execution.id == id,
            e,
        ) ==> ({
            let (after, command) = ui::invoked(state, PaletteAction::Cancel);
            let open = ui::scoped(state)[e].state == ExecutionState::Queued || ui::scoped(
                state,
            )[e].state == ExecutionState::Running;
            &&& command == CommandView::Nothing
            &&& open ==> after.modal == Some(ModalView::ConfirmCancel(id))
            &&& !open ==> after.modal == state.modal && after.notice is Some
        }),
        state.modal == Some(ModalView::ConfirmCancel(id)) && !state.editing_search && key.press
            && !key.control ==> ({
            let (after, command) = ui::key_handled(state, key);
            let yes = key.code == KeyCode::Enter || key.code == KeyCode::Char('y') || key.code
                == KeyCode::Char('Y');
            let no = key.code == KeyCode::Esc || key.code == KeyCode::Char('n') || key.code
                == KeyCode::Char('N');
            &&& yes ==> command == CommandView::Cancel(id) && after.modal is None
            &&& no ==> command == CommandView::Nothing && after.modal is None
            &&& !yes && !no ==> command == CommandView::Nothing && after == state
        }),
{
    let test = |execution: ExecutionView| execution.id == id;
    if order::first_at(ui::scoped(state), test, e) {
        order::position_found(ui::scoped(state), test, e);
    }
}

/// While a search is written, a letter is added to it and the backspace takes
/// the last one away again; it is done with the return key. In the view the
/// escape key forgets it.
pub proof fn a_search_is_written(state: OperatorStateView, key: KeyEvent, c: char)
    ensures
        ({
            let (after, command) = ui::key_handled(state, key);
            let typed = key.press && !key.control && !key.alt && state.editing_search;
            &&& typed && key.code == KeyCode::Char(c) ==> after.query == state.query.push(c)
                && after.editing_search
            &&& typed && key.code == KeyCode::Backspace ==> after.editing_search && (
            state.query.len() > 0 ==> after.query == state.query.drop_last()) && (state.query.len()
                == 0 ==> after.query == state.query)
            &&& typed && (key.code == KeyCode::Enter || key.code == KeyCode::Esc)
                ==> !after.editing_search && after.query == state.query
            &&& reaches(state, key, KeyCode::Esc) ==> after.query.len() == 0
            &&& reaches(state, key, KeyCode::Char('/')) ==> after.editing_search && after.query
                == state.query && after.selected_session_id is None
        }),
{
}

/// Whether two texts agree but for the case of letters without marks.
pub open spec fn said_in(field: Seq<char>, query: Seq<char>) -> bool {
    text::occurs(order::ascii_folded(field), order::ascii_folded(query))
}

proof fn written_is_said(field: Seq<char>, query: Seq<char>)
    requires
        text::occurs(field, query),
    ensures
        said_in(field, query),
{
    let at = choose|at: int| #[trigger] text::stands_at(field, query, at);
    let a = order::ascii_folded(field);
    let b = order::ascii_folded(query);
    assert(a.subrange(at, at + b.len()) =~= b) by {
        assert forall|i: int| 0 <= i < b.len() implies a.subrange(at, at + b.len())[i] == b[i] by {
            assert(field.subrange(at, at + query.len())[i] == query[i]);
        }
    }
    assert(text::stands_at(a, b, at));
}

/// A search finds an execution whose identifier, command, directory or starter
/// holds what was written, whatever the case of the letters; a session by its
/// identifier, its agent, its name or its command. An empty search finds
/// everything.
pub proof fn a_search_finds_what_holds_it(
    execution: ExecutionView,
    session: AgentSessionView,
    query: Seq<char>,
)
    ensures
        query.len() == 0 ==> ui::execution_matches(execution, query) && ui::session_matches(
            session,
            query,
        ),
        text::occurs(execution.id, query) || text::occurs(execution.command_display, query)
            || text::occurs(execution.cwd, query) || text::occurs(execution.initiator.kind, query)
            || text::occurs(model::state_name(execution.state), query) ==> ui::execution_matches(
            execution,
            query,
        ),
        text::occurs(session.id, query) || text::occurs(session.agent_kind, query) || text::occurs(
            session.command_display,
            query,
        ) || (session.name matches Some(name) && text::occurs(name, query)) || text::occurs(
            model::session_state_name(session.state),
            query,
        ) ==> ui::session_matches(session, query),
        ui::execution_matches(execution, query) && query.len() > 0 ==> said_in(execution.id, query)
            || said_in(execution.command_display, query) || said_in(execution.cwd, query)
            || said_in(model::state_name(execution.state), query) || said_in(
            execution.initiator.kind,
            query,
        ) || (execution.initiator.name matches Some(name) && said_in(name, query)) || said_in(
            ui::written_outcome(execution),
            query,
        ),
        ui::session_matches(session, query) && query.len() > 0 ==> said_in(session.id, query)
            || said_in(session.agent_kind, query) || said_in(
            model::session_state_name(session.state),
            query,
        ) || (session.name matches Some(name) && said_in(name, query)) || said_in(
            session.command_display,
            query,
        ),
{
    if text::occurs(execution.id, query) {
        written_is_said(execution.id, query);
    }
    if text::occurs(execution.command_display, query) {
        written_is_said(execution.command_display, query);
    }
    if text::occurs(execution.cwd, query) {
        written_is_said(execution.cwd, query);
    }
    if text::occurs(execution.initiator.kind, query) {
        written_is_said(execution.initiator.kind, query);
    }
    if text::occurs(model::state_name(execution.state), query) {
        written_is_said(model::state_name(execution.state), query);
    }
    if text::occurs(session.id, query) {
        written_is_said(session.id, query);
    }
    if text::occurs(session.agent_kind, query) {
        written_is_said(session.agent_kind, query);
    }
    if text::occurs(session.command_display, query) {
        written_is_said(session.command_display, query);
    }
    if session.name is Some && text::occurs(session.name->0, query) {
        written_is_said(session.name->0, query);
    }
    if text::occurs(model::session_state_name(session.state), query) {
        written_is_said(model::session_state_name(session.state), query);
    }
    if query.len() > 0 {
        nothing_in_nothing(query);
    }
}

proof fn nothing_in_nothing(query: Seq<char>)
    requires
        query.len() > 0,
    ensures
        !said_in(Seq::empty(), query),
{
    let folded = order::ascii_folded(query);
    assert(folded.len() == query.len());
    assert(order::ascii_folded(Seq::<char>::empty()).len() == 0);
    if said_in(Seq::empty(), query) {
        let at = choose|at: int|
            #[trigger] text::stands_at(order::ascii_folded(Seq::<char>::empty()), folded, at);
        assert(at + folded.len() <= 0);
    }
}

proof fn found_are_those(list: Seq<ExecutionView>, query: Seq<char>, execution: ExecutionView)
    ensures
        ui::executions_found(list, query).contains(execution) == (list.contains(execution)
            && ui::execution_matches(execution, query)),
    decreases list.len(),
{
    let all = ui::executions_found(list, query);
    if list.len() > 0 {
        let front = list.drop_last();
        let rest = ui::executions_found(front, query);
        found_are_those(front, query, execution);
        if all.contains(execution) {
            let k = choose|k: int| 0 <= k < all.len() && all[k] == execution;
            if k < rest.len() {
                assert(rest[k] == execution);
                assert(rest.contains(execution));
                let i = choose|i: int| 0 <= i < front.len() && front[i] == execution;
                assert(list[i] == execution);
            } else {
                assert(list[list.len() - 1] == execution);
            }
        }
        if list.contains(execution) && ui::execution_matches(execution, query) {
            let i = choose|i: int| 0 <= i < list.len() && list[i] == execution;
            if i < front.len() {
                assert(front[i] == execution);
                assert(front.contains(execution));
                let k = choose|k: int| 0 <= k < rest.len() && rest[k] == execution;
                assert(all[k] == execution);
            } else {
                assert(all[all.len() - 1] == execution);
            }
        }
    }
}

proof fn sorted_by_age<A>(list: Seq<A>, time: spec_fn(A) -> i64, item: A)
    ensures
        ({
            let sorted = order::picked(list, order::newest_first(list.map_values(time)));
            &&& sorted.len() == list.len()
            &&& sorted.contains(item) == list.contains(item)
            &&& forall|i: int, j: int|
                0 <= i < j < sorted.len() ==> time(#[trigger] sorted[i]) >= time(
                    #[trigger] sorted[j],
                )
        }),
{
    let times = list.map_values(time);
    let places = order::newest_first(times);
    let sorted = order::picked(list, places);
    order::order_is_complete(times.len(), order::key_above(order::newest_keys(times)));
    order::newest_first_is_sorted(times);
    assert forall|i: int, j: int| 0 <= i < j < sorted.len() implies time(#[trigger] sorted[i])
        >= time(#[trigger] sorted[j]) by {
        assert(times[places[i]] >= times[places[j]]);
    }
    if list.contains(item) {
        let i = choose|i: int| 0 <= i < list.len() && list[i] == item;
        assert(places.contains(i));
        let k = choose|k: int| 0 <= k < places.len() && places[k] == i;
        assert(sorted[k] == item);
    }
    if sorted.contains(item) {
        let k = choose|k: int| 0 <= k < sorted.len() && sorted[k] == item;
        assert(list[places[k]] == item);
    }
}

/// The executions that are listed are those that the search finds, of the
/// selected session or else of the workspace, the newest first.
pub proof fn what_is_found_is_listed(state: OperatorStateView, execution: ExecutionView)
    ensures
        ({
            let listed = ui::executions_by_age(
                ui::executions_found(ui::scoped(state), state.query),
            );
            &&& listed.contains(execution) == (ui::scoped(state).contains(execution)
                && ui::execution_matches(execution, state.query))
            &&& ui::visible_executions(state).len() == listed.len()
            &&& forall|i: int|
                0 <= i < listed.len() ==> ui::visible_executions(state)[i] == (
                #[trigger] listed[i]).id
            &&& forall|i: int, j: int|
                0 <= i < j < listed.len() ==> (#[trigger] listed[i]).created_at_ms >= (
                #[trigger] listed[j]).created_at_ms
        }),
        state.detail matches Some(detail) ==> ui::scoped(state) == detail.executions,
        state.detail is None ==> ui::scoped(state) == state.workspace_executions,
{
    let found = ui::executions_found(ui::scoped(state), state.query);
    found_are_those(ui::scoped(state), state.query, execution);
    sorted_by_age(found, |item: ExecutionView| item.created_at_ms, execution);
    let listed = ui::executions_by_age(found);
    assert forall|i: int, j: int| 0 <= i < j < listed.len() implies (
    #[trigger] listed[i]).created_at_ms >= (#[trigger] listed[j]).created_at_ms by {
        let time = |item: ExecutionView| item.created_at_ms;
        assert(time(listed[i]) >= time(listed[j]));
    }
}

/// What a snapshot tells is what is shown from then on: all sessions and all
/// executions, the newest first. The selected session stays selected while it
/// is there, and its details are shown and no other's.
pub proof fn a_snapshot_is_taken_over(
    state: OperatorStateView,
    sessions: Seq<AgentSessionView>,
    executions: Seq<ExecutionView>,
    detail: Option<AgentSessionDetailView>,
    session: AgentSessionView,
    execution: ExecutionView,
)
    ensures
        ({
            let after = ui::snapshot_applied(state, sessions, executions, detail);
            &&& after.sessions.len() == sessions.len()
            &&& after.sessions.contains(session) == sessions.contains(session)
            &&& forall|i: int, j: int|
                0 <= i < j < after.sessions.len() ==> (#[trigger] after.sessions[i]).created_at_ms
                    >= (#[trigger] after.sessions[j]).created_at_ms
            &&& after.workspace_executions.len() == executions.len()
            &&& after.workspace_executions.contains(execution) == executions.contains(execution)
            &&& sessions.contains(session) && state.selected_session_id == Some(session.id)
                ==> after.selected_session_id == Some(session.id)
            &&& after.selected_session_id matches Some(id) ==> state.selected_session_id == Some(id)
            &&& after.detail matches Some(shown) ==> detail == Some(shown)
                && after.selected_session_id == Some(shown.session.id)
            &&& detail matches Some(told) ==> (after.selected_session_id == Some(told.session.id)
                ==> after.detail == Some(told))
            &&& after.query == state.query && after.focus == state.focus && after.modal
                == state.modal && after.workspace == state.workspace
        }),
{
    let after = ui::snapshot_applied(state, sessions, executions, detail);
    let ordered = ui::sessions_by_age(sessions);
    sorted_by_age(sessions, |item: AgentSessionView| item.created_at_ms, session);
    sorted_by_age(executions, |item: ExecutionView| item.created_at_ms, execution);
    assert(after.sessions == ordered);
    assert forall|i: int, j: int| 0 <= i < j < after.sessions.len() implies (
    #[trigger] after.sessions[i]).created_at_ms >= (
    #[trigger] after.sessions[j]).created_at_ms by {
        let time = |item: AgentSessionView| item.created_at_ms;
        assert(time(ordered[i]) >= time(ordered[j]));
    }
    if sessions.contains(session) && state.selected_session_id == Some(session.id) {
        let test = |item: AgentSessionView| item.id == session.id;
        let k = choose|k: int| 0 <= k < ordered.len() && ordered[k] == session;
        assert(test(ordered[k]));
        order::position_is_first(ordered, test);
    }
}

/// The tabulator goes on to the next pane and back from it, and the return key
/// goes deeper; nothing else changes.
pub proof fn the_tabulator_goes_round(state: OperatorStateView, key: KeyEvent, back: KeyEvent)
    requires
        reaches(state, key, KeyCode::Tab),
        back.press && !back.control && back.code == KeyCode::BackTab,
    ensures
        ({
            let (after, command) = ui::key_handled(state, key);
            &&& command == CommandView::Nothing
            &&& after.focus != state.focus
            &&& state.focus == Focus::Sessions ==> after.focus == Focus::Executions
            &&& state.focus == Focus::Executions ==> after.focus == Focus::Output
            &&& ui::key_handled(after, back) == (state, CommandView::Nothing)
        }),
{
}

/// The arrows move the selection among what is listed by one, and stop at the
/// ends; another execution has its output read, another session everything.
pub proof fn arrows_move_among_what_is_listed(
    state: OperatorStateView,
    key: KeyEvent,
    e: int,
    s: int,
)
    ensures
        ({
            let (after, command) = ui::key_handled(state, key);
            let down = reaches(state, key, KeyCode::Down) || reaches(
                state,
                key,
                KeyCode::Char('j'),
            );
            let up = reaches(state, key, KeyCode::Up) || reaches(state, key, KeyCode::Char('k'));
            let works = ui::visible_executions(state);
            let records = ui::visible_sessions(state);
            &&& state.focus == Focus::Executions && (down || up) && (
            state.selected_execution_id matches Some(id) && order::first_at(
                works,
                ui::is_text(id),
                e,
            )) ==> {
                let to = stepped(e, down, works.len() as int);
                &&& after.selected_execution_id == Some(works[to])
                &&& works[to] != works[e] ==> command == CommandView::ReloadOutput
                    && after.output.chunks.len() == 0 && after.output.cursor == 0
                &&& works[to] == works[e] ==> command == CommandView::Nothing && after == state
            }
            &&& state.focus == Focus::Sessions && (down || up) && order::first_at(
                records,
                |id: Option<Seq<char>>| id == state.selected_session_id,
                s,
            ) ==> {
                let to = stepped(s, down, records.len() as int);
                &&& after.selected_session_id == records[to]
                &&& records[to] != records[s] ==> command == CommandView::Refresh
                &&& records[to] == records[s] ==> command == CommandView::Nothing && after == state
            }
        }),
{
    let works = ui::visible_executions(state);
    let records = ui::visible_sessions(state);
    if state.selected_execution_id is Some {
        let id = state.selected_execution_id->0;
        if order::first_at(works, ui::is_text(id), e) {
            order::position_found(works, ui::is_text(id), e);
        }
    }
    let chosen = |id: Option<Seq<char>>| id == state.selected_session_id;
    if order::first_at(records, chosen, s) {
        order::position_found(records, chosen, s);
    }
}

/// One row further, within so many rows.
pub open spec fn stepped(at: int, down: bool, count: int) -> int {
    if down {
        if at + 1 < count {
            at + 1
        } else {
            at
        }
    } else if at > 0 {
        at - 1
    } else {
        at
    }
}

/// A click on an execution selects that execution, one on a session that
/// session, one on the line of all work none, and one on a pane goes there. A
/// click beside everything does nothing.
pub proof fn a_click_selects_what_is_under_it(state: OperatorStateView, event: MouseEvent, r: int)
    requires
        event.kind == MouseKind::LeftDown,
        0 <= r < state.hit_regions.len(),
        screen::covers(state.hit_regions[r].area, event.column, event.row),
        forall|k: int|
            r < k < state.hit_regions.len() ==> !screen::covers(
                (#[trigger] state.hit_regions[k]).area,
                event.column,
                event.row,
            ),
    ensures
        ({
            let (after, command) = ui::mouse_handled(state, event);
            match state.hit_regions[r].target {
                HitTargetView::Execution(id) => after.selected_execution_id == Some(id)
                    && after.focus == Focus::Executions && (command == CommandView::ReloadOutput)
                    == (state.selected_execution_id != Some(id)),
                HitTargetView::Session(id) => after.selected_session_id == Some(id) && after.focus
                    == Focus::Sessions && (command == CommandView::Refresh) == (
                state.selected_session_id != Some(id)),
                HitTargetView::AllWork => after.selected_session_id is None && after.focus
                    == Focus::Sessions,
                HitTargetView::Pane(focus) => after == (OperatorStateView { focus, ..state })
                    && command == CommandView::Nothing,
            }
        }),
{
    found_from_behind(state.hit_regions, event.column, event.row, r);
}

proof fn found_from_behind(regions: Seq<HitRegionView>, x: u16, y: u16, r: int)
    requires
        0 <= r < regions.len(),
        screen::covers(regions[r].area, x, y),
        forall|k: int|
            r < k < regions.len() ==> !screen::covers((#[trigger] regions[k]).area, x, y),
    ensures
        ui::target_at(regions, x, y) == Some(regions[r].target),
    decreases regions.len(),
{
    if r < regions.len() - 1 {
        assert(!screen::covers(regions[regions.len() - 1].area, x, y));
        let front = regions.drop_last();
        assert forall|k: int| r < k < front.len() implies !screen::covers(
            (#[trigger] front[k]).area,
            x,
            y,
        ) by {
            assert(front[k] == regions[k]);
        }
        assert(front[r] == regions[r]);
        found_from_behind(front, x, y, r);
    }
}

/// An agent is started with the provider that is marked and with what was
/// written, without the white space round it; work is handed off from the
/// session that it was asked for. Left and right change the provider, and the
/// escape key leaves everything as it was.
pub proof fn an_agent_is_started_as_asked(
    state: OperatorStateView,
    key: KeyEvent,
    purpose: AgentModalPurposeView,
    provider: AgentProvider,
    field: AgentModalField,
    prompt: Seq<char>,
    c: char,
)
    requires
        state.modal == Some(ModalView::Agent { purpose, provider, field, prompt }),
        !state.editing_search,
        key.press && !key.control && !key.alt,
    ensures
        ({
            let (after, command) = ui::key_handled(state, key);
            &&& key.code == KeyCode::Enter ==> after.modal is None && (match purpose {
                AgentModalPurposeView::Launch => command matches CommandView::Launch {
                    provider: chosen,
                    prompt: said,
                } && chosen == provider && (match said {
                    Some(said) => said == text::trimmed(prompt) && said.len() > 0,
                    None => text::trimmed(prompt).len() == 0,
                }),
                AgentModalPurposeView::Handoff {
                    source_session_id,
                    source_provider,
                    active_count,
                    command_preview,
                } => command == (CommandView::Handoff { provider, source_session_id }),
            })
            &&& key.code == KeyCode::Esc ==> command == CommandView::Nothing && after == (
            OperatorStateView { modal: None, ..state })
            &&& (key.code == KeyCode::Left || key.code == KeyCode::Right) && field
                == AgentModalField::Provider ==> (after.modal matches Some(
                ModalView::Agent { purpose: same, provider: other, field: at, prompt: said },
            ) && other != provider && same == purpose && said == prompt)
            &&& key.code == KeyCode::Char(c) && field == AgentModalField::Prompt ==> after.modal
                == Some(ModalView::Agent { purpose, provider, field, prompt: prompt.push(c) })
            &&& key.code == KeyCode::Backspace && field == AgentModalField::Prompt && prompt.len()
                > 0 ==> after.modal == Some(
                ModalView::Agent { purpose, provider, field, prompt: prompt.drop_last() },
            )
        }),
{
}

/// Work is handed off from a session that has ended and has executions that are
/// still open, and to the other agent than the one it came from; it is said how
/// many there are.
pub proof fn only_open_work_is_handed_off(
    state: OperatorStateView,
    session_id: Seq<char>,
    detail: AgentSessionDetailView,
    e: int,
)
    ensures
        ({
            let after = ui::handoff_prepared(state, session_id, detail);
            &&& detail.session.state == AgentSessionState::Recording ==> after.modal == state.modal
                && after.notice is Some
            &&& (forall|k: int|
                0 <= k < detail.executions.len() ==> (#[trigger] detail.executions[k]).state
                    != ExecutionState::Queued && detail.executions[k].state
                    != ExecutionState::Running) ==> after.modal == state.modal
            &&& detail.session.state != AgentSessionState::Recording && 0 <= e
                < detail.executions.len() && (detail.executions[e].state == ExecutionState::Queued
                || detail.executions[e].state == ExecutionState::Running) ==> (
            after.modal matches Some(
                ModalView::Agent {
                    purpose: AgentModalPurposeView::Handoff {
                        source_session_id,
                        source_provider,
                        active_count,
                        command_preview,
                    },
                    provider,
                    field,
                    prompt,
                },
            ) && source_session_id == session_id && source_provider == detail.session.agent_kind
                && (provider == AgentProvider::Codex) == (detail.session.agent_kind != "codex"@))
        }),
{
    open_ones(detail.executions, e);
}

proof fn open_ones(list: Seq<ExecutionView>, e: int)
    ensures
        0 <= e < list.len() && (list[e].state == ExecutionState::Queued || list[e].state
            == ExecutionState::Running) ==> ui::active_of(list).len() > 0,
        (forall|k: int|
            0 <= k < list.len() ==> (#[trigger] list[k]).state != ExecutionState::Queued
                && list[k].state != ExecutionState::Running) ==> ui::active_of(list).len() == 0,
    decreases list.len(),
{
    if list.len() > 0 {
        let front = list.drop_last();
        open_ones(front, e);
        if forall|k: int|
            0 <= k < list.len() ==> (#[trigger] list[k]).state != ExecutionState::Queued
                && list[k].state != ExecutionState::Running {
            assert forall|k: int| 0 <= k < front.len() implies (#[trigger] front[k]).state
                != ExecutionState::Queued && front[k].state != ExecutionState::Running by {
                assert(list[k] == front[k]);
            }
            assert(list[list.len() - 1].state != ExecutionState::Queued);
        }
        if 0 <= e < front.len() {
            assert(front[e] == list[e]);
        }
    }
}

/// The view is left to quit, to start an agent or to hand work off, with what
/// was asked for; every other command stays in it.
pub proof fn what_leaves_the_view(command: CommandView)
    ensures
        match (command, ui::leaving(command)) {
            (CommandView::Quit, Some(UiActionView::Quit)) => true,
            (
                CommandView::Launch { provider, prompt },
                Some(UiActionView::Launch { provider: chosen, prompt: said }),
            ) => chosen == provider && said == prompt,
            (
                CommandView::Handoff { provider, source_session_id },
                Some(UiActionView::Handoff { provider: chosen, source_session_id: from }),
            ) => chosen == provider && from == source_session_id,
            (CommandView::Quit, _) => false,
            (CommandView::Launch { .. }, _) => false,
            (CommandView::Handoff { .. }, _) => false,
            (_, None) => true,
            _ => false,
        },
{
}

/// An event of the selected execution that comes in moves the cursor past it
/// where it can be read, and is noted as a failure where it cannot; how
/// cancelling went is told in one way or the other.
pub proof fn live_events_are_taken_in(
    state: OperatorStateView,
    event: ExecutionEventView,
    failure: ErrorView,
)
    ensures
        ({
            let after = ui::event_taken(state, event);
            &&& after == (OperatorStateView {
                output: after.output,
                notice: after.notice,
                error: after.error,
                ..state
            })
            &&& match event.payload {
                ExecutionEventPayloadView::Output { stream, data_base64 } => {
                    &&& crate::codec::base64_decoding(data_base64) is Ok ==> after.output.cursor
                        == event.seq && after.error == state.error
                    &&& crate::codec::base64_decoding(data_base64) is Err ==> after.error is Some
                        && after.output == state.output
                },
                _ => after.output.cursor == event.seq && after.error == state.error,
            }
        }),
        ui::cancel_noted(state, Ok::<(), ErrorView>(())).notice is Some,
        ui::cancel_noted(state, Ok::<(), ErrorView>(())).error == state.error,
        ui::cancel_noted(state, Err::<(), ErrorView>(failure)).notice == state.notice,
        ui::cancel_noted(state, Err::<(), ErrorView>(failure)).error matches Some(said)
            && text::occurs(said, error::error_message(failure)),
{
    let message = error::error_message(failure);
    let said = "cancel failed: "@ + message;
    let at = "cancel failed: "@.len() as int;
    assert(said.subrange(at, at + message.len()) =~= message);
    assert(text::stands_at(said, message, at));
    assert(seq![event].drop_last() =~= Seq::empty());
    reveal_with_fuel(output::events_taken, 2);
}

/// The two agents are the two that can be chosen, and each has its own name.
pub proof fn agents_have_names(provider: AgentProvider, second: Seq<char>)
    ensures
        ui::other_provider(provider) != provider,
        ui::other_provider(ui::other_provider(provider)) == provider,
        ui::provider_name(AgentProvider::Codex, second) == "codex"@,
        ui::provider_name(AgentProvider::Claude, second) == second,
{
}

/// The wheel moves in the pane that it is turned over, up and down as the
/// arrows do; a button other than the left one does nothing.
pub proof fn the_wheel_moves_as_the_arrows_do(
    state: OperatorStateView,
    event: MouseEvent,
    key: KeyEvent,
)
    requires
        state.modal is None && !state.editing_search,
        key.press && !key.control,
        ui::pane_at(state.hit_regions, event.column, event.row) matches Some(pane) ==> pane
            == state.focus,
    ensures
        event.kind == MouseKind::ScrollUp && key.code == KeyCode::Up ==> ui::mouse_handled(
            state,
            event,
        ) == ui::key_handled(state, key),
        event.kind == MouseKind::ScrollDown && key.code == KeyCode::Down ==> ui::mouse_handled(
            state,
            event,
        ) == ui::key_handled(state, key),
        event.kind == MouseKind::Other ==> ui::mouse_handled(state, event) == (
            state,
            CommandView::Nothing,
        ),
{
}

/// The help goes away with the escape key or the question mark, and with no
/// other key; nothing else happens meanwhile.
pub proof fn the_help_is_closed(state: OperatorStateView, key: KeyEvent)
    requires
        state.modal == Some(ModalView::Help),
        !state.editing_search,
        key.press && !key.control,
    ensures
        ({
            let (after, command) = ui::key_handled(state, key);
            &&& command == CommandView::Nothing
            &&& if key.code == KeyCode::Esc || key.code == KeyCode::Char('?') {
                after == (OperatorStateView { modal: None, ..state })
            } else {
                after == state
            }
        }),
{
}

/// Both ways to the palette open it at its first action.
pub proof fn the_palette_is_opened(state: OperatorStateView, key: KeyEvent)
    requires
        state.modal is None && !state.editing_search && key.press,
        key.control && key.code == KeyCode::Char('p') || !key.control && key.code == KeyCode::Char(
            ':',
        ),
    ensures
        ui::key_handled(state, key) == (
            OperatorStateView { modal: Some(ModalView::Palette { selected: 0 }), ..state },
            CommandView::Nothing,
        ),
{
}

/// Each action of the palette has a name that says what it does, and no other
/// action has it.
pub proof fn actions_have_names(action: PaletteAction)
    ensures
        (ui::action_name(action) == "New agent"@) == (action == PaletteAction::NewAgent),
        (ui::action_name(action) == "Handoff active work"@) == (action == PaletteAction::Handoff),
        (ui::action_name(action) == "Cancel execution"@) == (action == PaletteAction::Cancel),
        (ui::action_name(action) == "Open session replay"@) == (action
            == PaletteAction::OpenReplay),
        (ui::action_name(action) == "Export session replay"@) == (action
            == PaletteAction::ExportReplay),
        (ui::action_name(action) == "Toggle output follow"@) == (action
            == PaletteAction::ToggleFollow),
        (ui::action_name(action) == "Refresh now"@) == (action == PaletteAction::Refresh),
        (ui::action_name(action) == "Keyboard help"@) == (action == PaletteAction::Help),
        (ui::action_name(action) == "Quit Loomterm"@) == (action == PaletteAction::Quit),
{
    reveal_strlit("New agent");
    reveal_strlit("Handoff active work");
    reveal_strlit("Cancel execution");
    reveal_strlit("Open session replay");
    reveal_strlit("Export session replay");
    reveal_strlit("Toggle output follow");
    reveal_strlit("Refresh now");
    reveal_strlit("Keyboard help");
    reveal_strlit("Quit Loomterm");
    assert("New agent"@[0] == 'N' && "Handoff active work"@[0] == 'H' && "Cancel execution"@[0]
        == 'C' && "Open session replay"@[0] == 'O' && "Export session replay"@[0] == 'E'
        && "Toggle output follow"@[0] == 'T' && "Refresh now"@[0] == 'R' && "Keyboard help"@[0]
        == 'K' && "Quit Loomterm"@[0] == 'Q');
}

} // verus!
