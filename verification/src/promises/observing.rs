//! What the observer of one session does and shows.

use vstd::prelude::*;

use crate::error;
use crate::error::{Error, ErrorView};
use crate::model;
use crate::model::{
    AgentActionState, AgentActionView, AgentSession, AgentSessionDetailView, AgentSessionState,
    AgentSessionView, ExecutionState, ExecutionView,
};
use crate::order;
use crate::output;
use crate::output::OutputPaneView;
use crate::promises::answers;
use crate::report;
use crate::screen;
use crate::screen::{KeyCode, KeyEvent, Rect};
use crate::text;
use crate::watch;
use crate::watch::{Command, ConfirmationView, Focus, WatchStateView};

verus! {

/// Whether a key goes to the view: it is pressed, and nothing waits to be
/// confirmed.
pub open spec fn reaches(state: WatchStateView, key: KeyEvent, code: KeyCode) -> bool {
    key.press && key.code == code && state.confirmation is None
}

/// A key that is let go does nothing.
pub proof fn letting_go_does_nothing(state: WatchStateView, key: KeyEvent)
    requires
        !key.press,
    ensures
        watch::key_handled(state, key) == (state, Command::Nothing),
{
}

/// The arrows move the selection among the executions by one, up or down, and
/// stop at the ends; then the output is read anew, and nothing else changes.
pub proof fn arrows_move_the_selection(state: WatchStateView, key: KeyEvent, at: int)
    requires
        state.focus == Focus::Executions,
        state.selected_id matches Some(id) && order::first_at(
            state.detail.executions,
            |execution: ExecutionView| execution.id == id,
            at,
        ),
    ensures
        ({
            let list = state.detail.executions;
            let (after, command) = watch::key_handled(state, key);
            let to = if key.code == KeyCode::Down {
                if at + 1 < list.len() {
                    at + 1
                } else {
                    at
                }
            } else if at > 0 {
                at - 1
            } else {
                at
            };
            reaches(state, key, KeyCode::Down) || reaches(state, key, KeyCode::Up) ==> {
                &&& after.selected_id == Some(list[to].id)
                &&& list[to].id == list[at].id ==> after == state && command == Command::Nothing
                &&& list[to].id != list[at].id ==> command == Command::ReloadOutput && after == (
                WatchStateView {
                    selected_id: Some(list[to].id),
                    output: output::empty_pane(),
                    ..state
                })
            }
        }),
{
    let id = state.selected_id->0;
    order::position_found(
        state.detail.executions,
        |execution: ExecutionView| execution.id == id,
        at,
    );
}

/// In the output the arrows move by one line, and the view stops following; its
/// beginning and its end are reached at once, and the end is followed.
pub proof fn arrows_move_the_output(state: WatchStateView, key: KeyEvent)
    requires
        state.focus == Focus::Output,
        state.output.scroll < usize::MAX,
    ensures
        ({
            let (after, command) = watch::key_handled(state, key);
            &&& reaches(state, key, KeyCode::Down) ==> command == Command::Nothing
                && after.output.scroll == state.output.scroll + 1 && !after.output.follow
            &&& reaches(state, key, KeyCode::Up) ==> command == Command::Nothing
                && !after.output.follow && (state.output.scroll > 0 ==> after.output.scroll == state.output.scroll - 1) && (
            state.output.scroll == 0 ==> after.output.scroll == 0)
            &&& reaches(state, key, KeyCode::Home) ==> after.output.scroll == 0
                && !after.output.follow
            &&& reaches(state, key, KeyCode::End) ==> after.output.follow
            &&& reaches(state, key, KeyCode::Down) || reaches(state, key, KeyCode::Up) || reaches(
                state,
                key,
                KeyCode::Home,
            ) || reaches(state, key, KeyCode::End) ==> after == (WatchStateView {
                output: after.output,
                ..state
            }) && after.output.chunks == state.output.chunks && after.output.cursor
                == state.output.cursor
        }),
{
}

/// Each letter does what the line at the bottom says of it: it quits, opens or
/// exports the replay, or turns following on and off; and the tabulator goes
/// from the one list to the other and back.
pub proof fn letters_do_what_is_said_of_them(state: WatchStateView, key: KeyEvent)
    ensures
        ({
            let (after, command) = watch::key_handled(state, key);
            &&& reaches(state, key, KeyCode::Char('q')) ==> command == Command::Quit && after
                == state
            &&& reaches(state, key, KeyCode::Char('o')) ==> command == Command::OpenReplay && after
                == state
            &&& reaches(state, key, KeyCode::Char('e')) ==> command == Command::ExportReplay
                && after == state
            &&& reaches(state, key, KeyCode::Char('f')) ==> command == Command::Nothing && after
                == (WatchStateView {
                output: OutputPaneView { follow: !state.output.follow, ..state.output },
                ..state
            })
            &&& reaches(state, key, KeyCode::Tab) ==> command == Command::Nothing && after.focus
                != state.focus && after == (WatchStateView { focus: after.focus, ..state })
        }),
{
}

/// What is asked to be cancelled is the selected execution, and it is only
/// asked for while it is open; nothing is cancelled before that is confirmed.
/// The answer decides: yes cancels, no does not, and any other key leaves the
/// question open.
pub proof fn cancelling_is_asked_for(state: WatchStateView, key: KeyEvent, at: int)
    ensures
        ({
            let (after, command) = watch::key_handled(state, key);
            &&& reaches(state, key, KeyCode::Char('c')) && (state.selected_id matches Some(id)
                && order::first_at(
                state.detail.executions,
                |execution: ExecutionView| execution.id == id,
                at,
            )) ==> {
                &&& command == Command::Nothing
                &&& (after.confirmation is Some) == (state.detail.executions[at].state
                    == ExecutionState::Queued || state.detail.executions[at].state
                    == ExecutionState::Running)
                &&& after.confirmation matches Some(ConfirmationView::Cancel(id)) ==> Some(id)
                    == state.selected_id
            }
            &&& key.press && state.confirmation is Some ==> {
                &&& (command == Command::Cancel) == (key.code == KeyCode::Enter || key.code
                    == KeyCode::Char('y') || key.code == KeyCode::Char('Y'))
                &&& command == Command::Cancel || command == Command::Nothing
                &&& key.code == KeyCode::Esc || key.code == KeyCode::Char('n') || key.code
                    == KeyCode::Char('N') || command == Command::Cancel ==> after.confirmation
                    is None
                &&& after.confirmation is Some ==> after == state
            }
        }),
{
    if state.selected_id is Some {
        let id = state.selected_id->0;
        let test = |execution: ExecutionView| execution.id == id;
        if order::first_at(state.detail.executions, test, at) {
            order::position_found(state.detail.executions, test, at);
        }
    }
}

/// When the session was looked at, what is known of it is what was told, and
/// what went wrong before is forgotten; the selection stays where it can, and
/// else the last execution is selected and its output read from the start. A
/// failure is noted, and nothing else changes.
pub proof fn looking_takes_over_what_is_told(
    state: WatchStateView,
    detail: AgentSessionDetailView,
    failure: ErrorView,
)
    ensures
        ({
            let (after, read) = watch::looked_at(
                state,
                Ok::<AgentSessionDetailView, ErrorView>(detail),
            );
            &&& read && after.detail == detail && after.error is None
            &&& after.focus == state.focus && after.notice == state.notice && after.confirmation
                == state.confirmation
            &&& match after.selected_id {
                Some(id) => exists|e: int|
                    0 <= e < detail.executions.len() && (#[trigger] detail.executions[e]).id == id,
                None => detail.executions.len() == 0,
            }
            &&& forall|e: int|
                0 <= e < detail.executions.len() && state.selected_id == Some(
                    (#[trigger] detail.executions[e]).id,
                ) ==> after.selected_id == state.selected_id
            &&& after.selected_id == state.selected_id ==> after.output == state.output
            &&& after.selected_id != state.selected_id ==> after.output.chunks.len() == 0
                && after.output.cursor == 0
        }),
        ({
            let (after, read) = watch::looked_at(
                state,
                Err::<AgentSessionDetailView, ErrorView>(failure),
            );
            &&& !read && after.error is Some
            &&& after == (WatchStateView { error: after.error, ..state })
        }),
{
    let list = detail.executions;
    if list.len() > 0 {
        assert(list[list.len() - 1].id == list.last().id);
    }
    match state.selected_id {
        Some(id) => {
            let test = |execution: ExecutionView| execution.id == id;
            order::position_is_first(list, test);
            match watch::place_of(list, id) {
                Some(at) => {
                    assert(test(list[at]));
                    assert(list[at].id == id);
                },
                None => {
                    assert forall|e: int| 0 <= e < list.len() implies (#[trigger] list[e]).id
                        != id by {
                        assert(!test(list[e]));
                    }
                },
            }
        },
        None => {},
    }
}

/// Whether cancelling went through is told in one way, and that it did not in
/// another.
pub proof fn how_cancelling_went_is_told(state: WatchStateView, failure: ErrorView)
    ensures
        watch::cancel_noted(state, Ok::<(), ErrorView>(())).notice is Some,
        watch::cancel_noted(state, Ok::<(), ErrorView>(())).error == state.error,
        watch::cancel_noted(state, Err::<(), ErrorView>(failure)).notice == state.notice,
        watch::cancel_noted(state, Err::<(), ErrorView>(failure)).error matches Some(said)
            && text::occurs(said, error::error_message(failure)),
{
    let message = error::error_message(failure);
    let said = "cancel failed: "@ + message;
    let at = "cancel failed: "@.len() as int;
    assert(said.subrange(at, at + message.len()) =~= message);
    assert(text::stands_at(said, message, at));
}

/// A replay is there once the recording has ended, and not before.
pub proof fn a_replay_is_there_once_it_has_ended(
    session: &AgentSession,
    opening: Option<String>,
    exporting: Option<String>,
)
    requires
        call_ensures(watch::may_open_replay, (session,), opening),
        call_ensures(watch::may_export_replay, (session,), exporting),
    ensures
        (opening is None) == (session@.state != AgentSessionState::Recording),
        (exporting is None) == (session@.state != AgentSessionState::Recording),
{
}

/// How opening or exporting a replay went is told with its path, or else with
/// the failure; and exports of different sessions go to different files.
pub proof fn replays_are_told_of(
    path: &str,
    answer: Result<(), Error>,
    opened: Result<String, String>,
    exported: Result<String, String>,
    first: &str,
    second: &str,
    one: String,
    other: String,
)
    requires
        call_ensures(watch::replay_opened, (path, answer), opened),
        call_ensures(watch::replay_exported, (path, answer), exported),
        call_ensures(watch::export_name, (first,), one),
        call_ensures(watch::export_name, (second,), other),
    ensures
        opened is Ok == answer is Ok,
        exported is Ok == answer is Ok,
        opened matches Ok(said) ==> text::occurs(said@, path@),
        exported matches Ok(said) ==> text::occurs(said@, path@),
        first@ != second@ ==> one@ != other@,
{
    match opened {
        Ok(said) => {
            let at = "opened "@.len() as int;
            assert(said@.subrange(at, at + path@.len()) =~= path@);
            assert(text::stands_at(said@, path@, at));
        },
        Err(_) => {},
    }
    match exported {
        Ok(said) => {
            let at = "exported "@.len() as int;
            assert(said@.subrange(at, at + path@.len()) =~= path@);
            assert(text::stands_at(said@, path@, at));
        },
        Err(_) => {},
    }
    if one@ == other@ {
        let at = "loomterm-session-"@.len() as int;
        let end = ".html"@;
        assert(one@ == "loomterm-session-"@ + first@ + end);
        assert(other@ == "loomterm-session-"@ + second@ + end);
        assert(one@.len() == at + first@.len() + end.len());
        assert(other@.len() == at + second@.len() + end.len());
        assert(one@.subrange(at, at + first@.len()) =~= first@);
        assert(other@.subrange(at, at + second@.len()) =~= second@);
        assert(first@ =~= second@);
    }
}

/// Where no session is named, one that is being recorded is observed, and there
/// is one to observe as soon as one is being recorded.
pub proof fn what_is_recorded_is_observed(sessions: Seq<AgentSessionView>)
    ensures
        match watch::active_of(sessions) {
            Some(id) => exists|s: int|
                0 <= s < sessions.len() && (#[trigger] sessions[s]).id == id && sessions[s].state
                    == AgentSessionState::Recording,
            None => forall|s: int|
                0 <= s < sessions.len() ==> (#[trigger] sessions[s]).state
                    != AgentSessionState::Recording,
        },
{
    let test = |session: AgentSessionView| session.state == AgentSessionState::Recording;
    order::position_is_first(sessions, test);
    match order::position(sessions, test) {
        Some(at) => {
            assert(test(sessions[at]));
            assert(sessions[at].id == sessions[at].id);
        },
        None => {
            assert forall|s: int| 0 <= s < sessions.len() implies (#[trigger] sessions[s]).state
                != AgentSessionState::Recording by {
                assert(!test(sessions[s]));
            }
        },
    }
}

/// Each execution has a line in the list, in the order in which they stand in
/// the session, and the line of the selected one and no other is marked. A line
/// names the status, the identifier and the command.
pub proof fn each_execution_has_its_line(state: WatchStateView, area: Rect, e: int)
    requires
        0 <= e < state.detail.executions.len(),
    ensures
        ({
            let execution = state.detail.executions[e];
            let lines = watch::executions_panel(state, area).lines;
            let line = lines[e];
            &&& lines.len() == state.detail.executions.len()
            &&& (line.spans[0].text[0] == '>') == (state.selected_id == Some(execution.id))
            &&& text::occurs(
                line.spans[0].text,
                screen::status_name(screen::status_of(execution)),
            )
            &&& line.spans[2].text == screen::listed_id(execution.id)
            &&& (line.spans[4].text.len() == 0) == (execution.initiator.session_id == Some(
                state.detail.session.id,
            ))
            &&& line.spans[5].text == execution.command_display
        }),
{
    let execution = state.detail.executions[e];
    let line = watch::execution_entry(state, execution);
    reveal_strlit(">");
    reveal_strlit(" ");
    reveal_strlit("handoff ");
    reveal_strlit("");
    let name = screen::status_name(screen::status_of(execution));
    let said = line.spans[0].text;
    assert(said.subrange(2, 2int + name.len()) =~= name);
    assert(text::stands_at(said, name, 2));
}

/// What is shown as selected is the selected execution.
pub proof fn the_selected_one_is_shown(state: WatchStateView, area: Rect, now: i64, at: int)
    requires
        state.selected_id matches Some(id) && order::first_at(
            state.detail.executions,
            |execution: ExecutionView| execution.id == id,
            at,
        ),
    ensures
        ({
            let execution = state.detail.executions[at];
            let lines = watch::selected_panel(state, area, now).lines;
            &&& lines.len() == 4
            &&& lines[0].spans[0].text == execution.command_display
            &&& text::occurs(lines[1].spans[0].text, execution.cwd)
            &&& text::occurs(
                lines[3].spans[0].text,
                screen::shown_span(screen::taken(execution, now)),
            )
        }),
{
    let id = state.selected_id->0;
    order::position_found(
        state.detail.executions,
        |execution: ExecutionView| execution.id == id,
        at,
    );
    let execution = state.detail.executions[at];
    let lines = watch::selected_panel(state, area, now).lines;
    let first = lines[1].spans[0].text;
    let from = "cwd  "@.len() as int;
    assert(first.subrange(from, from + execution.cwd.len()) =~= execution.cwd);
    assert(text::stands_at(first, execution.cwd, from));
    let last = lines[3].spans[0].text;
    let span = screen::shown_span(screen::taken(execution, now));
    let start = last.len() - span.len();
    assert(last.subrange(start, start + span.len()) =~= span);
    assert(text::stands_at(last, span, start));
}

/// What went wrong is shown before what is said, and what is said before the
/// keys.
pub proof fn failures_are_shown_first(state: WatchStateView, area: Rect)
    ensures
        ({
            let lines = watch::notice_panel(state, area).lines;
            &&& state.error matches Some(error) ==> lines[0].spans[0].text == error
            &&& state.error is None ==> (state.notice matches Some(notice)
                ==> lines[0].spans[0].text == notice)
        }),
{
}

/// The actions that are shown of a turn are those of the turn, all of them, in
/// their order.
pub proof fn a_turn_is_shown_with_its_actions(
    actions: Seq<AgentActionView>,
    turn_id: Seq<char>,
    action: AgentActionView,
)
    ensures
        watch::of_turn(actions, turn_id).contains(action) == (actions.contains(action)
            && action.turn_id == turn_id),
    decreases actions.len(),
{
    let all = watch::of_turn(actions, turn_id);
    if actions.len() > 0 {
        let front = actions.drop_last();
        let rest = watch::of_turn(front, turn_id);
        a_turn_is_shown_with_its_actions(front, turn_id, action);
        if all.contains(action) {
            let k = choose|k: int| 0 <= k < all.len() && all[k] == action;
            if k < rest.len() {
                assert(rest[k] == action);
                assert(rest.contains(action));
                let i = choose|i: int| 0 <= i < front.len() && front[i] == action;
                assert(actions[i] == action);
            } else {
                assert(actions[actions.len() - 1] == action);
            }
        }
        if actions.contains(action) && action.turn_id == turn_id {
            let i = choose|i: int| 0 <= i < actions.len() && actions[i] == action;
            if i < front.len() {
                assert(front[i] == action);
                assert(front.contains(action));
                let k = choose|k: int| 0 <= k < rest.len() && rest[k] == action;
                assert(all[k] == action);
            } else {
                assert(all[all.len() - 1] == action);
            }
        }
    }
}

/// What an action came to is shown before its tool, and no two states look the
/// same.
pub proof fn actions_are_told_apart(action: AgentActionView)
    ensures
        ({
            let label = watch::action_label(action);
            match action.state {
                AgentActionState::Running => "[run] "@.is_prefix_of(label),
                AgentActionState::Completed => "[ok] "@.is_prefix_of(label),
                AgentActionState::Failed => "[fail] "@.is_prefix_of(label),
            }
        }),
        ({
            let label = watch::action_label(action);
            let name = watch::compact(action.tool_name);
            &&& label.skip(label.len() - name.len()) == name
            &&& name == action.tool_name || "mcp__loomterm__"@ + name == action.tool_name
        }),
{
    let label = watch::action_label(action);
    let name = watch::compact(action.tool_name);
    reveal_strlit("[");
    reveal_strlit("] ");
    reveal_strlit("run");
    reveal_strlit("ok");
    reveal_strlit("fail");
    reveal_strlit("[run] ");
    reveal_strlit("[ok] ");
    reveal_strlit("[fail] ");
    assert(label.skip(label.len() - name.len()) =~= name);
    match action.state {
        AgentActionState::Running => {
            assert("[run] "@ =~= label.subrange(0, 6));
        },
        AgentActionState::Completed => {
            assert("[ok] "@ =~= label.subrange(0, 5));
        },
        AgentActionState::Failed => {
            assert("[fail] "@ =~= label.subrange(0, 7));
        },
    }
    let prefix = "mcp__loomterm__"@;
    if prefix.is_prefix_of(action.tool_name) {
        assert(prefix == action.tool_name.subrange(0, prefix.len() as int));
        assert(prefix + name =~= action.tool_name);
    }
}

/// The panels stand below each other: the header, the request, the executions
/// with the output, and the line at the bottom. From a hundred columns on the
/// output stands beside the executions, and else below them.
pub proof fn the_panels_stand_in_order(area: Rect)
    requires
        screen::on_screen(area),
        area.width >= 60,
        area.height >= 22,
    ensures
        ({
            let places = watch::arranged(area);
            &&& places.header.y == area.y && places.header.height == 3
            &&& places.request.y == area.y + 3 && places.request.height == 7
            &&& places.executions.y == area.y + 10
            &&& places.selected.height == 5 && places.output.y == places.selected.y + 5
            &&& places.footer.height == 1 && places.footer.y + 1 == area.y + area.height
            &&& if area.width >= 100 {
                places.executions.x == area.x && places.selected.x == area.x
                    + places.executions.width && places.selected.y == area.y + 10
            } else {
                places.selected.x == area.x && places.selected.y == area.y + 10
                    + places.executions.height
            }
        }),
{
}

/// The header tells of the session that is observed.
pub proof fn the_header_tells_of_the_session(state: WatchStateView, area: Rect, now: i64)
    ensures
        ({
            let spans = watch::header(state, area, now).lines[0].spans;
            let session = state.detail.session;
            &&& session.name matches Some(name) ==> spans[0].text == name
            &&& session.name is None ==> spans[0].text == session.command_display
            &&& text::occurs(spans[2].text, model::session_state_name(session.state))
        }),
{
    let said = watch::header(state, area, now).lines[0].spans[2].text;
    let name = model::session_state_name(state.detail.session.state);
    let at = said.len() - name.len();
    assert(said.subrange(at, at + name.len()) =~= name);
    assert(text::stands_at(said, name, at));
}

/// On a screen that is too small this is said, with the size that is needed;
/// else every panel is shown, with the question before them where one waits.
pub proof fn everything_is_shown(state: WatchStateView, area: Rect, now: i64)
    ensures
        watch::drawn(state, area, None, now).1.len() == 1,
        ({
            let places = watch::arranged(area);
            let panels = watch::drawn(state, area, Some(places), now).1;
            &&& panels.len() == if state.confirmation is Some {
                7nat
            } else {
                6nat
            }
            &&& panels[0].area == places.header && panels[1].area == places.request
            &&& panels[2].area == places.executions && panels[3].area == places.selected
            &&& panels[4].area == places.output && panels[5].area == places.footer
        }),
{
}

/// Beside each other the executions take thirty-eight hundredths of the width,
/// and below each other forty-five hundredths of the height, to the nearest
/// whole.
pub proof fn the_panels_have_their_shares(area: Rect)
    requires
        screen::on_screen(area),
        area.width >= 60,
        area.height >= 22,
    ensures
        ({
            let places = watch::arranged(area);
            if area.width >= 100 {
                -50 <= 100 * places.executions.width - 38 * area.width <= 50
            } else {
                -50 <= 100 * places.executions.height - 45 * (area.height - 11) <= 50
            }
        }),
{
}

/// Of the actions of a turn the last four are shown, each of them, and it is
/// said how many came before.
pub proof fn the_latest_actions_are_shown(actions: Seq<AgentActionView>, i: int)
    requires
        0 <= i < actions.len(),
        actions.len() <= i + 4,
    ensures
        text::occurs(watch::action_summary(actions), watch::action_label(actions[i])),
        actions.len() > 4 ==> text::occurs(
            watch::action_summary(actions),
            "+"@ + text::decimal((actions.len() - 4) as nat) + " earlier"@,
        ),
{
    let first = screen::over(actions.len() as int, 4);
    let recent = actions.skip(first);
    let labels = recent.map_values(|action: AgentActionView| watch::action_label(action));
    let shown = report::separated(labels, "  "@);
    let label = watch::action_label(actions[i]);
    assert(labels[i - first] == label);
    answers::joined_texts_are_all_there(labels, "  "@, i - first);
    if actions.len() > 4 {
        let summary = watch::action_summary(actions);
        let count = text::decimal((actions.len() - 4) as nat);
        let head = "+"@ + count + " earlier  "@;
        let at = choose|at: int| #[trigger] text::stands_at(shown, label, at);
        let from = head.len() + at;
        assert(summary =~= head + shown);
        assert(summary.subrange(from, from + label.len()) =~= shown.subrange(
            at,
            at + label.len(),
        ));
        assert(text::stands_at(summary, label, from));
        reveal_strlit(" earlier  ");
        reveal_strlit(" earlier");
        let said = "+"@ + count + " earlier"@;
        assert(summary.subrange(0, said.len() as int) =~= said);
        assert(text::stands_at(summary, said, 0));
    }
}

/// The request that is shown is the last one of the session, on one line, with
/// the number of its actions.
pub proof fn the_last_request_is_shown(state: WatchStateView, area: Rect)
    requires
        state.detail.turns.len() > 0,
    ensures
        ({
            let turn = state.detail.turns.last();
            let lines = watch::request_panel(state, area).lines;
            &&& text::occurs(lines[0].spans[0].text, turn.provider)
            &&& text::occurs(lines[0].spans[0].text, model::turn_state_name(turn.state))
            &&& turn.prompt.len() > 0 ==> lines[1].spans[0].text == screen::on_one_line(turn.prompt)
            &&& lines[2].spans[0].text == watch::action_summary(
                watch::of_turn(state.detail.actions, turn.id),
            )
        }),
{
    let turn = state.detail.turns.last();
    let said = watch::request_panel(state, area).lines[0].spans[0].text;
    assert(said.subrange(0, turn.provider.len() as int) =~= turn.provider);
    assert(text::stands_at(said, turn.provider, 0));
    let name = model::turn_state_name(turn.state);
    let at = said.len() - name.len();
    assert(said.subrange(at, at + name.len()) =~= name);
    assert(text::stands_at(said, name, at));
}

} // verus!
