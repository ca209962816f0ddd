//! The live observer: what it shows of one session, and what its keys do.

use vstd::prelude::*;

use crate::error;
use crate::error::{Error, ErrorView};
use crate::layout;
use crate::layout::{rows_and_rest, shared_columns, shared_rows, split_rows, Portion};
use crate::model;
use crate::model::{
    AgentAction, AgentActionState, AgentActionView, AgentSession, AgentSessionDetail,
    AgentSessionDetailView, AgentSessionState, AgentSessionView, AgentTurnState, Execution,
    ExecutionState, ExecutionView, ReadOutputResponse,
};
use crate::order;
use crate::output;
use crate::output::{take_page, OutputPane, OutputPaneView};
use crate::report;
use crate::report::{join_texts, pad};
use crate::screen;
use crate::screen::{
    bold, centered_rect, colored, confirmation_panel, elapsed_since, execution_status, focus_style,
    format_duration, format_outcome, make_framed, make_line, make_message, make_raw, no_lines,
    one_line, pad_left, put_line, put_panel, session_style, short_id, time_taken, too_small_panel,
    Color, KeyCode, KeyEvent, Line, LineView, Panel, PanelView, Rect,
};
use crate::text;
use crate::text::{decimal_text, joined, joined3, same_text, starts_with};

verus! {

/// The narrowest screen that the observer can use.
pub const MIN_WIDTH: u16 = 60;

/// The lowest screen that the observer can use.
pub const MIN_HEIGHT: u16 = 22;

/// The width from which executions and output stand beside each other.
pub const WIDE_WIDTH: u16 = 100;

/// How often the observer looks at the session, in milliseconds.
pub const POLL_INTERVAL_MS: u64 = 250;

/// How long the observer waits after a failure, in milliseconds.
pub const RETRY_INTERVAL_MS: u64 = 1000;

/// What keys go to.
#[derive(Debug, Clone, Copy, PartialEq, Eq, Structural)]
pub enum Focus {
    Executions,
    Output,
}

/// What a key asks for.
#[derive(Debug, Clone, Copy, PartialEq, Eq, Structural)]
pub enum Command {
    Nothing,
    Quit,
    ReloadOutput,
    Cancel,
    OpenReplay,
    ExportReplay,
}

/// What is to be confirmed.
#[derive(Debug, PartialEq, Eq)]
pub enum Confirmation {
    Cancel(String),
}

/// What a `Confirmation` holds.
#[verifier::ext_equal]
pub enum ConfirmationView {
    Cancel(Seq<char>),
}

impl View for Confirmation {
    type V = ConfirmationView;

    open spec fn view(&self) -> ConfirmationView {
        match *self {
            Confirmation::Cancel(value) => ConfirmationView::Cancel(value@),
        }
    }
}

impl Clone for Confirmation {
    fn clone(&self) -> (copy: Self)
        ensures
            copy@ == self@,
    {
        match self {
            Confirmation::Cancel(value) => Confirmation::Cancel(value.clone()),
        }
    }
}

/// The observer. The label of the second agent is handed in.
#[derive(Debug)]
pub struct WatchState {
    pub claude_label: String,
    pub detail: AgentSessionDetail,
    pub selected_id: Option<String>,
    pub focus: Focus,
    pub output: OutputPane,
    pub confirmation: Option<Confirmation>,
    pub notice: Option<String>,
    pub error: Option<String>,
}

/// What a `WatchState` holds.
#[verifier::ext_equal]
pub struct WatchStateView {
    pub claude_label: Seq<char>,
    pub detail: AgentSessionDetailView,
    pub selected_id: Option<Seq<char>>,
    pub focus: Focus,
    pub output: OutputPaneView,
    pub confirmation: Option<ConfirmationView>,
    pub notice: Option<Seq<char>>,
    pub error: Option<Seq<char>>,
}

impl View for WatchState {
    type V = WatchStateView;

    open spec fn view(&self) -> WatchStateView {
        WatchStateView {
            claude_label: self.claude_label@,
            detail: self.detail@,
            selected_id: text::maybe_text(self.selected_id),
            focus: self.focus,
            output: self.output@,
            confirmation: (match self.confirmation { Some(inner) => Some(inner@), None => None }),
            notice: text::maybe_text(self.notice),
            error: text::maybe_text(self.error),
        }
    }
}

/// Where the panels of the observer lie.
#[derive(Debug, Clone, Copy, PartialEq, Eq, Structural)]
pub struct WatchLayout {
    pub header: Rect,
    pub request: Rect,
    pub executions: Rect,
    pub selected: Rect,
    pub output: Rect,
    pub footer: Rect,
}

/// Where an execution stands in a list.
pub open spec fn place_of(executions: Seq<ExecutionView>, id: Seq<char>) -> Option<int> {
    order::position(executions, |execution: ExecutionView| execution.id == id)
}

/// Finds where an execution stands in a list.
pub fn find_execution(executions: &Vec<Execution>, id: &str) -> (place: Option<usize>)
    ensures
        (match place {
            Some(at) => Some(at as int),
            None => None,
        }) == place_of(executions@.map_values(|item: Execution| item@), id@),
        place matches Some(at) ==> at < executions.len() && executions@[at as int]@.id == id@,
{
    let ghost all = executions@.map_values(|item: Execution| item@);
    let ghost test = |execution: ExecutionView| execution.id == id@;
    let mut i: usize = 0;
    while i < executions.len()
        invariant
            i <= executions.len(),
            all == executions@.map_values(|item: Execution| item@),
            test == (|execution: ExecutionView| execution.id == id@),
            forall|k: int| 0 <= k < i ==> !test(#[trigger] all[k]),
        decreases executions.len() - i,
    {
        assert(all[i as int] == executions@[i as int]@);
        if same_text(executions[i].id.as_str(), id) {
            proof {
                order::position_found(all, test, i as int);
            }
            return Some(i);
        }
        i += 1;
    }
    proof {
        order::position_missing(all, test);
    }
    None
}

/// The last execution of a list.
pub open spec fn last_id(executions: Seq<ExecutionView>) -> Option<Seq<char>> {
    if executions.len() == 0 {
        None
    } else {
        Some(executions.last().id)
    }
}

fn last_of(executions: &Vec<Execution>) -> (id: Option<String>)
    ensures
        text::maybe_text(id) == last_id(executions@.map_values(|item: Execution| item@)),
{
    let ghost all = executions@.map_values(|item: Execution| item@);
    if executions.len() == 0 {
        None
    } else {
        assert(all.last() == executions@[executions.len() - 1]@);
        Some(executions[executions.len() - 1].id.clone())
    }
}

/// The observer of a session, before anything was done: the last execution is
/// selected.
pub open spec fn observing(detail: AgentSessionDetailView, claude_label: Seq<char>) -> WatchStateView {
    WatchStateView {
        claude_label,
        detail,
        selected_id: last_id(detail.executions),
        focus: Focus::Executions,
        output: output::empty_pane(),
        confirmation: None,
        notice: None,
        error: None,
    }
}

/// Where the selected execution stands.
pub open spec fn selected_place(state: WatchStateView) -> Option<int> {
    match state.selected_id {
        Some(id) => place_of(state.detail.executions, id),
        None => None,
    }
}

/// The observer with what is known of the session now: the selection stays
/// where it can.
pub open spec fn refreshed(state: WatchStateView, detail: AgentSessionDetailView) -> WatchStateView {
    WatchStateView {
        detail,
        selected_id: match state.selected_id {
            Some(id) => if place_of(detail.executions, id) is Some {
                Some(id)
            } else {
                last_id(detail.executions)
            },
            None => last_id(detail.executions),
        },
        ..state
    }
}

/// What is selected stays selected while the session has it, however many
/// executions come behind it.
pub proof fn refreshing_keeps_the_selection(state: WatchStateView, detail: AgentSessionDetailView)
    requires
        state.selected_id matches Some(id) && place_of(detail.executions, id) is Some,
    ensures
        refreshed(state, detail).selected_id == state.selected_id,
{
}

/// The place that lies `amount` further on in a list of `count`, and no
/// further than its ends.
pub open spec fn moved(current: Option<int>, amount: int, count: int) -> int {
    let from = match current {
        Some(at) => at,
        None => 0,
    };
    if from + amount < 0 {
        0
    } else if from + amount > count - 1 {
        count - 1
    } else {
        from + amount
    }
}

/// Moving the selection. Says whether it moved.
pub open spec fn selection_moved(state: WatchStateView, amount: int) -> (WatchStateView, bool) {
    let executions = state.detail.executions;
    if executions.len() == 0 {
        (state, false)
    } else {
        let next = executions[moved(selected_place(state), amount, executions.len() as int)].id;
        if state.selected_id == Some(next) {
            (state, false)
        } else {
            (WatchStateView { selected_id: Some(next), output: output::empty_pane(), ..state }, true)
        }
    }
}

/// The state once the session was looked at, and whether the output is to be
/// read: what is known of the session is taken over, or what went wrong is
/// noted.
pub open spec fn looked_at(
    state: WatchStateView,
    answer: Result<AgentSessionDetailView, ErrorView>,
) -> (WatchStateView, bool) {
    match answer {
        Ok(detail) => {
            let after = refreshed(state, detail);
            (
                WatchStateView {
                    error: None,
                    output: if after.selected_id != state.selected_id {
                        output::empty_pane()
                    } else {
                        after.output
                    },
                    ..after
                },
                true,
            )
        },
        Err(failure) => (
            WatchStateView {
                error: Some("daemon read failed; retrying: "@ + error::error_message(failure)),
                ..state
            },
            false,
        ),
    }
}

/// The state once it is known how cancelling went.
pub open spec fn cancel_noted(state: WatchStateView, answer: Result<(), ErrorView>) -> WatchStateView {
    match answer {
        Ok(_) => WatchStateView { notice: Some("cancel requested"@), ..state },
        Err(failure) => WatchStateView {
            error: Some("cancel failed: "@ + error::error_message(failure)),
            ..state
        },
    }
}

/// Whether an execution can still be cancelled.
pub open spec fn cancellable(state: ExecutionState) -> bool {
    state == ExecutionState::Queued || state == ExecutionState::Running
}

/// Moving through what keys go to.
pub open spec fn navigated(state: WatchStateView, down: bool) -> (WatchStateView, Command) {
    match state.focus {
        Focus::Executions => {
            let (after, did) = selection_moved(
                state,
                if down {
                    1
                } else {
                    -1
                },
            );
            (
                after,
                if did {
                    Command::ReloadOutput
                } else {
                    Command::Nothing
                },
            )
        },
        Focus::Output => (
            WatchStateView {
                output: OutputPaneView {
                    follow: false,
                    scroll: if down {
                        crate::output::bytes_with(state.output.scroll, 1) as usize
                    } else {
                        screen::over(state.output.scroll as int, 1) as usize
                    },
                    ..state.output
                },
                ..state
            },
            Command::Nothing,
        ),
    }
}

/// Asking to cancel the selected execution.
pub open spec fn asking_to_cancel(state: WatchStateView) -> WatchStateView {
    match selected_place(state) {
        None => state,
        Some(at) => if cancellable(state.detail.executions[at].state) {
            WatchStateView {
                confirmation: Some(ConfirmationView::Cancel(state.detail.executions[at].id)),
                ..state
            }
        } else {
            WatchStateView {
                notice: Some("only queued or running executions can be cancelled"@),
                ..state
            }
        },
    }
}

/// What a key does.
pub open spec fn key_handled(state: WatchStateView, key: KeyEvent) -> (WatchStateView, Command) {
    let closed = WatchStateView { confirmation: None, ..state };
    if !key.press {
        (state, Command::Nothing)
    } else if state.confirmation is Some {
        match key.code {
            KeyCode::Char(c) => if c == 'y' || c == 'Y' {
                (closed, Command::Cancel)
            } else if c == 'n' || c == 'N' {
                (closed, Command::Nothing)
            } else {
                (state, Command::Nothing)
            },
            KeyCode::Enter => (closed, Command::Cancel),
            KeyCode::Esc => (closed, Command::Nothing),
            _ => (state, Command::Nothing),
        }
    } else {
        match key.code {
            KeyCode::Tab => (
                WatchStateView {
                    focus: match state.focus {
                        Focus::Executions => Focus::Output,
                        Focus::Output => Focus::Executions,
                    },
                    ..state
                },
                Command::Nothing,
            ),
            KeyCode::Up => navigated(state, false),
            KeyCode::Down => navigated(state, true),
            KeyCode::Home => (
                if state.focus == Focus::Output {
                    WatchStateView {
                        output: OutputPaneView { follow: false, scroll: 0, ..state.output },
                        ..state
                    }
                } else {
                    state
                },
                Command::Nothing,
            ),
            KeyCode::End => (
                if state.focus == Focus::Output {
                    WatchStateView {
                        output: OutputPaneView { follow: true, ..state.output },
                        ..state
                    }
                } else {
                    state
                },
                Command::Nothing,
            ),
            KeyCode::Char(c) => if c == 'q' {
                (state, Command::Quit)
            } else if c == 'f' {
                (
                    WatchStateView {
                        output: OutputPaneView {
                            follow: !state.output.follow,
                            ..state.output
                        },
                        ..state
                    },
                    Command::Nothing,
                )
            } else if c == 'c' {
                (asking_to_cancel(state), Command::Nothing)
            } else if c == 'o' {
                (state, Command::OpenReplay)
            } else if c == 'e' {
                (state, Command::ExportReplay)
            } else {
                (state, Command::Nothing)
            },
            _ => (state, Command::Nothing),
        }
    }
}

/// Nothing is cancelled that was not confirmed: a key asks to cancel only
/// while there is something to confirm.
pub proof fn cancelling_is_confirmed(state: WatchStateView, key: KeyEvent)
    ensures
        key_handled(state, key).1 == Command::Cancel ==> state.confirmation is Some,
        key_handled(state, key).0.confirmation is Some && state.confirmation is None ==> (
        selected_place(state) matches Some(at) && cancellable(
            state.detail.executions[at].state,
        )),
{
}

impl WatchState {
    /// An observer of a session.
    pub fn new(detail: AgentSessionDetail, claude_label: String) -> (state: WatchState)
        ensures
            state@ == observing(detail@, claude_label@),
    {
        let selected_id = last_of(&detail.executions);
        WatchState {
            claude_label,
            detail,
            selected_id,
            focus: Focus::Executions,
            output: OutputPane::new(),
            confirmation: None,
            notice: None,
            error: None,
        }
    }

    /// Where the selected execution stands.
    pub fn selected_index(&self) -> (place: Option<usize>)
        ensures
            (match place {
                Some(at) => Some(at as int),
                None => None,
            }) == selected_place(self@),
            place matches Some(at) ==> at < self.detail.executions.len(),
    {
        match &self.selected_id {
            Some(id) => find_execution(&self.detail.executions, id.as_str()),
            None => None,
        }
    }

    /// Takes what is known of the session now, and says whether the selection
    /// changed.
    pub fn refresh(&mut self, detail: AgentSessionDetail) -> (changed: bool)
        ensures
            final(self)@ == refreshed(old(self)@, detail@),
            changed == (final(self)@.selected_id != old(self)@.selected_id),
    {
        self.detail = detail;
        match &self.selected_id {
            Some(id) => {
                match find_execution(&self.detail.executions, id.as_str()) {
                    Some(_) => {
                        return false;
                    },
                    None => {},
                }
                let next = last_of(&self.detail.executions);
                let changed = match &next {
                    Some(other) => !same_text(other.as_str(), id.as_str()),
                    None => true,
                };
                self.selected_id = next;
                changed
            },
            None => {
                self.selected_id = last_of(&self.detail.executions);
                self.selected_id.is_some()
            },
        }
    }

    /// Moves the selection, and says whether it moved.
    pub fn select_relative(&mut self, amount: isize) -> (did: bool)
        ensures
            (final(self)@, did) == selection_moved(old(self)@, amount as int),
    {
        let count = self.detail.executions.len();
        if count == 0 {
            return false;
        }
        let ghost all = self@.detail.executions;
        assert(all.len() == count);
        let current: usize = match self.selected_index() {
            Some(at) => at,
            None => 0,
        };
        let wanted: i128 = current as i128 + amount as i128;
        let next: usize = if wanted < 0 {
            0
        } else if wanted > (count - 1) as i128 {
            count - 1
        } else {
            wanted as usize
        };
        assert(all[next as int] == self.detail.executions@[next as int]@);
        let id = self.detail.executions[next].id.clone();
        match &self.selected_id {
            Some(selected) => {
                if same_text(selected.as_str(), id.as_str()) {
                    return false;
                }
            },
            None => {},
        }
        self.selected_id = Some(id);
        self.output.reset();
        true
    }

    fn navigate(&mut self, down: bool) -> (command: Command)
        ensures
            (final(self)@, command) == navigated(old(self)@, down),
    {
        match self.focus {
            Focus::Executions => {
                let amount: isize = if down {
                    1
                } else {
                    -1
                };
                if self.select_relative(amount) {
                    Command::ReloadOutput
                } else {
                    Command::Nothing
                }
            },
            Focus::Output => {
                self.output.move_by_one(down);
                Command::Nothing
            },
        }
    }

    fn ask_to_cancel(&mut self)
        ensures
            final(self)@ == asking_to_cancel(old(self)@),
    {
        match self.selected_index() {
            None => {},
            Some(at) => {
                let ghost all = self@.detail.executions;
                assert(all[at as int] == self.detail.executions@[at as int]@);
                let state = self.detail.executions[at].state;
                if state == ExecutionState::Queued || state == ExecutionState::Running {
                    let id = self.detail.executions[at].id.clone();
                    self.confirmation = Some(Confirmation::Cancel(id));
                } else {
                    self.notice = Some(
                        "only queued or running executions can be cancelled".to_owned(),
                    );
                }
            },
        }
    }

    /// Does what a key does.
    pub fn handle_key(&mut self, key: KeyEvent) -> (command: Command)
        ensures
            (final(self)@, command) == key_handled(old(self)@, key),
    {
        if !key.press {
            return Command::Nothing;
        }
        if self.confirmation.is_some() {
            return match key.code {
                KeyCode::Char(c) => {
                    if c == 'y' || c == 'Y' {
                        self.confirmation = None;
                        Command::Cancel
                    } else if c == 'n' || c == 'N' {
                        self.confirmation = None;
                        Command::Nothing
                    } else {
                        Command::Nothing
                    }
                },
                KeyCode::Enter => {
                    self.confirmation = None;
                    Command::Cancel
                },
                KeyCode::Esc => {
                    self.confirmation = None;
                    Command::Nothing
                },
                _ => Command::Nothing,
            };
        }
        match key.code {
            KeyCode::Tab => {
                self.focus = match self.focus {
                    Focus::Executions => Focus::Output,
                    Focus::Output => Focus::Executions,
                };
                Command::Nothing
            },
            KeyCode::Up => self.navigate(false),
            KeyCode::Down => self.navigate(true),
            KeyCode::Home => {
                if self.focus == Focus::Output {
                    self.output.follow = false;
                    self.output.scroll = 0;
                }
                Command::Nothing
            },
            KeyCode::End => {
                if self.focus == Focus::Output {
                    self.output.follow = true;
                }
                Command::Nothing
            },
            KeyCode::Char(c) => {
                if c == 'q' {
                    Command::Quit
                } else if c == 'f' {
                    self.output.follow = !self.output.follow;
                    Command::Nothing
                } else if c == 'c' {
                    self.ask_to_cancel();
                    Command::Nothing
                } else if c == 'o' {
                    Command::OpenReplay
                } else if c == 'e' {
                    Command::ExportReplay
                } else {
                    Command::Nothing
                }
            },
            _ => Command::Nothing,
        }
    }

    /// Takes in what was read of the output, and says whether there is more to
    /// read now.
    pub fn load_output(&mut self, page: Result<ReadOutputResponse, Error>) -> (more: bool)
        ensures
            ({
                let (pane, notice, error, left) = output::page_taken(
                    old(self)@.output,
                    old(self)@.notice,
                    old(self)@.error,
                    error::viewed(page),
                );
                final(self)@ == (WatchStateView { output: pane, notice, error, ..old(self)@ })
                    && more == left
            }),
    {
        take_page(&mut self.output, &mut self.notice, &mut self.error, page)
    }

    /// Takes what came back when the session was looked at: what is known of it,
    /// or what went wrong. Says whether the output is to be read.
    pub fn polled(&mut self, answer: Result<AgentSessionDetail, Error>) -> (read: bool)
        ensures
            (final(self)@, read) == looked_at(old(self)@, error::viewed(answer)),
    {
        match answer {
            Ok(detail) => {
                if self.refresh(detail) {
                    self.output.reset();
                }
                self.error = None;
                true
            },
            Err(failure) => {
                self.error = Some(
                    joined("daemon read failed; retrying: ", failure.message().as_str()),
                );
                false
            },
        }
    }

    /// Notes how cancelling went.
    pub fn cancelled(&mut self, answer: Result<(), Error>)
        ensures
            final(self)@ == cancel_noted(old(self)@, error::outcome_view(answer, |u: ()| u)),
    {
        match answer {
            Ok(()) => {
                self.notice = Some("cancel requested".to_owned());
            },
            Err(failure) => {
                self.error = Some(joined("cancel failed: ", failure.message().as_str()));
            },
        }
    }
}

/// What is said to someone who asks for what is there only once a recording
/// has ended.
pub open spec fn not_yet(state: AgentSessionState, notice: Seq<char>) -> Option<Seq<char>> {
    if state == AgentSessionState::Recording {
        Some(notice)
    } else {
        None
    }
}

/// Whether the replay of a session can be opened; what is said where not.
pub fn may_open_replay(session: &AgentSession) -> (refusal: Option<String>)
    ensures
        text::maybe_text(refusal) == not_yet(
            session@.state,
            "replay is available after recording finishes"@,
        ),
{
    if session.state == AgentSessionState::Recording {
        Some("replay is available after recording finishes".to_owned())
    } else {
        None
    }
}

/// Whether the replay of a session can be exported; what is said where not.
pub fn may_export_replay(session: &AgentSession) -> (refusal: Option<String>)
    ensures
        text::maybe_text(refusal) == not_yet(
            session@.state,
            "export is available after recording finishes"@,
        ),
{
    if session.state == AgentSessionState::Recording {
        Some("export is available after recording finishes".to_owned())
    } else {
        None
    }
}

/// The file that the replay of a session is exported to.
pub fn export_name(session_id: &str) -> (name: String)
    ensures
        name@ == "loomterm-session-"@ + session_id@ + ".html"@,
{
    joined3("loomterm-session-", session_id, ".html")
}

/// What is said of how opening a replay went: a notice, or else an error.
pub fn replay_opened(path: &str, answer: Result<(), Error>) -> (said: Result<String, String>)
    ensures
        match (said, error::outcome_view(answer, |u: ()| u)) {
            (Ok(notice), Ok(_)) => notice@ == "opened "@ + path@,
            (Err(error), Err(failure)) => error@ == "open failed: "@ + error::error_message(failure),
            _ => false,
        },
{
    match answer {
        Ok(()) => Ok(joined("opened ", path)),
        Err(failure) => Err(joined("open failed: ", failure.message().as_str())),
    }
}

/// What is said where the file that a replay is exported to is there already.
pub fn export_refused(path: &str) -> (error: String)
    ensures
        error@ == "refusing to overwrite "@ + path@,
{
    joined("refusing to overwrite ", path)
}

/// What is said of how exporting a replay went: a notice, or else an error.
pub fn replay_exported(path: &str, answer: Result<(), Error>) -> (said: Result<String, String>)
    ensures
        match (said, error::outcome_view(answer, |u: ()| u)) {
            (Ok(notice), Ok(_)) => notice@ == "exported "@ + path@
                + " (review for sensitive data)"@,
            (Err(error), Err(failure)) => error@ == "export failed: "@ + error::error_message(failure),
            _ => false,
        },
{
    match answer {
        Ok(()) => Ok(joined3("exported ", path, " (review for sensitive data)")),
        Err(failure) => Err(joined("export failed: ", failure.message().as_str())),
    }
}

/// The session that is observed where none is named: the first one in the list
/// that is being recorded.
pub open spec fn active_of(sessions: Seq<AgentSessionView>) -> Option<Seq<char>> {
    match order::position(
        sessions,
        |session: AgentSessionView| session.state == AgentSessionState::Recording,
    ) {
        Some(at) => Some(sessions[at].id),
        None => None,
    }
}

/// Finds the session that is observed where none is named.
pub fn active_session_id(sessions: &Vec<AgentSession>) -> (id: Option<String>)
    ensures
        text::maybe_text(id) == active_of(sessions@.map_values(|item: AgentSession| item@)),
{
    let ghost all = sessions@.map_values(|item: AgentSession| item@);
    let ghost test = |session: AgentSessionView| session.state == AgentSessionState::Recording;
    let mut i: usize = 0;
    while i < sessions.len()
        invariant
            i <= sessions.len(),
            all == sessions@.map_values(|item: AgentSession| item@),
            test == (|session: AgentSessionView| session.state == AgentSessionState::Recording),
            forall|k: int| 0 <= k < i ==> !test(#[trigger] all[k]),
        decreases sessions.len() - i,
    {
        assert(all[i as int] == sessions@[i as int]@);
        if sessions[i].state == AgentSessionState::Recording {
            proof {
                order::position_found(all, test, i as int);
            }
            return Some(sessions[i].id.clone());
        }
        i += 1;
    }
    proof {
        order::position_missing(all, test);
    }
    None
}

/// Refuses to observe without a terminal.
pub fn ensure_interactive(input_is_terminal: bool, output_is_terminal: bool) -> (checked: Result<
    (),
    Error,
>)
    ensures
        error::outcome_view(checked, |u: ()| u) == (if input_is_terminal && output_is_terminal {
            Ok(())
        } else {
            Err(
                ErrorView::InvalidRequest(
                    "`"@ + "loom watch"@ + "` requires an interactive terminal"@,
                ),
            )
        }),
{
    crate::cli::ensure_interactive("loom watch", input_is_terminal, output_is_terminal)
}

/// Refuses to answer with JSON: the observer has a terminal.
pub fn refuse_json(json: bool) -> (checked: Result<(), Error>)
    ensures
        error::outcome_view(checked, |u: ()| u) == (if json {
            Err(ErrorView::InvalidRequest("--json is not supported by the live observer"@))
        } else {
            Ok(())
        }),
{
    if json {
        Err(Error::InvalidRequest("--json is not supported by the live observer".to_owned()))
    } else {
        Ok(())
    }
}

/// Where the panels of the observer lie on a screen that is large enough.
pub open spec fn arranged(area: Rect) -> WatchLayout {
    let middle = layout::band(area, 10, area.height - 1);
    let (executions, output) = if area.width >= WIDE_WIDTH {
        let at = layout::share(area.width as int, 38);
        (layout::strip(middle, 0, at), layout::strip(middle, at, area.width as int))
    } else {
        let at = layout::share(middle.height as int, 45);
        (layout::band(middle, 0, at), layout::band(middle, at, middle.height as int))
    };
    WatchLayout {
        header: layout::band(area, 0, 3),
        request: layout::band(area, 3, 10),
        executions,
        selected: layout::band(output, 0, 5),
        output: layout::band(output, 5, output.height as int),
        footer: layout::band(area, area.height - 1, area.height as int),
    }
}

/// Divides the screen for the observer; nothing where it is too small.
pub fn arrange(area: Rect) -> (layout: Option<WatchLayout>)
    ensures
        (layout is None) == (area.width < MIN_WIDTH || area.height < MIN_HEIGHT),
        screen::on_screen(area) && layout is Some ==> layout == Some(arranged(area)),
{
    if area.width < MIN_WIDTH || area.height < MIN_HEIGHT {
        return None;
    }
    let mut portions: Vec<Portion> = Vec::new();
    portions.push(Portion::Length(3));
    portions.push(Portion::Length(7));
    portions.push(Portion::Min(10));
    portions.push(Portion::Length(1));
    let sections = split_rows(area, &portions);
    proof {
        let list = portions@;
        let size = area.height as int;
        assert(list.take(4) =~= list);
        layout::sums_grow(list, 0);
        layout::sums_grow(list, 1);
        layout::sums_grow(list, 2);
        layout::sums_grow(list, 3);
        assert(!(list[0] is Percentage));
        assert(layout::fits(list, size));
        assert(layout::begins(list, size, 0) == 0);
        assert(layout::begins(list, size, 1) == 3);
        assert(layout::begins(list, size, 2) == 10);
        assert(layout::begins(list, size, 3) == size - 1);
        assert(layout::begins(list, size, 4) == size);
        if screen::on_screen(area) {
            assert(sections@[0] == layout::rows_of(area, list)[0]);
            assert(sections@[1] == layout::rows_of(area, list)[1]);
            assert(sections@[2] == layout::rows_of(area, list)[2]);
            assert(sections@[3] == layout::rows_of(area, list)[3]);
        }
    }
    let (executions, output) = if area.width >= WIDE_WIDTH {
        shared_columns(sections[2], 38)
    } else {
        shared_rows(sections[2], 45)
    };
    let (selected, rest) = rows_and_rest(output, 5, 1);
    Some(
        WatchLayout {
            header: sections[0],
            request: sections[1],
            executions,
            selected,
            output: rest,
            footer: sections[3],
        },
    )
}

/// How many panels of the observer hold a place.
pub open spec fn panels_at(layout: WatchLayout, x: u16, y: u16) -> int {
    layout::held(layout.header, x, y) + layout::held(layout.request, x, y) + layout::held(
        layout.executions,
        x,
        y,
    ) + layout::held(layout.selected, x, y) + layout::held(layout.output, x, y) + layout::held(
        layout.footer,
        x,
        y,
    )
}

/// Each place of the screen is in just one panel of the observer, and the
/// panels hold no other places.
pub proof fn the_panels_share_the_screen(area: Rect, x: u16, y: u16)
    requires
        screen::on_screen(area),
        area.width >= MIN_WIDTH,
        area.height >= MIN_HEIGHT,
    ensures
        panels_at(arranged(area), x, y) == layout::held(area, x, y),
{
}

/// How a session is called: by its name, or by its command where it has none.
pub open spec fn title_of(session: AgentSessionView) -> Seq<char> {
    match session.name {
        Some(name) => name,
        None => session.command_display,
    }
}

/// How a session is called.
pub fn session_title(session: &AgentSession) -> (title: String)
    ensures
        title@ == title_of(session@),
{
    match &session.name {
        Some(name) => name.clone(),
        None => session.command_display.clone(),
    }
}

/// The head of the observer.
pub open spec fn header(state: WatchStateView, area: Rect, now: i64) -> PanelView {
    let session = state.detail.session;
    let duration = match session.duration_ms {
        Some(duration) => duration,
        None => screen::time_since(now, session.created_at_ms),
    };
    screen::framed(
        area,
        "Loomterm Live Observer"@,
        seq![
            screen::line_of(
                seq![
                    screen::piece(title_of(session), screen::in_bold(Color::Plain)),
                    screen::piece("  "@, screen::unstyled()),
                    screen::piece(
                        screen::padded_left(model::session_state_name(session.state), 11),
                        screen::in_color(screen::session_color(session.state)),
                    ),
                    screen::piece(
                        "  "@ + session.agent_kind + "  "@ + screen::shown_span(duration) + "  "@
                            + text::decimal(state.detail.executions.len()) + " executions"@,
                        screen::unstyled(),
                    ),
                    screen::piece(
                        "  "@ + text::decimal(state.detail.turns.len()) + " requests"@,
                        screen::unstyled(),
                    ),
                ],
            ),
        ],
    )
}

/// The tool calls of a turn.
pub open spec fn of_turn(actions: Seq<AgentActionView>, turn_id: Seq<char>) -> Seq<
    AgentActionView,
>
    decreases actions.len(),
{
    if actions.len() == 0 {
        Seq::empty()
    } else {
        let front = of_turn(actions.drop_last(), turn_id);
        if actions.last().turn_id == turn_id {
            front.push(actions.last())
        } else {
            front
        }
    }
}

/// The name of a tool without what it has for being one of this runtime.
pub open spec fn compact(name: Seq<char>) -> Seq<char> {
    if "mcp__loomterm__"@.is_prefix_of(name) {
        name.skip("mcp__loomterm__"@.len() as int)
    } else {
        name
    }
}

/// The name of a tool without what it has for being one of this runtime.
pub fn compact_tool_name(name: &str) -> (short: String)
    ensures
        short@ == compact(name@),
{
    if starts_with(name, "mcp__loomterm__") {
        let chars = crate::text::chars_of(name);
        let prefix = crate::text::chars_of("mcp__loomterm__");
        let short = crate::text::text_between(&chars, prefix.len(), chars.len());
        assert(short@ =~= name@.skip(prefix@.len() as int));
        short
    } else {
        name.to_owned()
    }
}

/// What is said of a tool call.
pub open spec fn action_label(action: AgentActionView) -> Seq<char> {
    "["@ + (match action.state {
        AgentActionState::Running => "run"@,
        AgentActionState::Completed => "ok"@,
        AgentActionState::Failed => "fail"@,
    }) + "] "@ + compact(action.tool_name)
}

fn action_text(action: &AgentAction) -> (label: String)
    ensures
        label@ == action_label(action@),
{
    let status = match action.state {
        AgentActionState::Running => "run",
        AgentActionState::Completed => "ok",
        AgentActionState::Failed => "fail",
    };
    let mut label = joined3("[", status, "] ");
    label.append(compact_tool_name(action.tool_name.as_str()).as_str());
    label
}

/// What is said of the tool calls of a turn: the last four of them, and how
/// many came before.
pub open spec fn action_summary(actions: Seq<AgentActionView>) -> Seq<char> {
    if actions.len() == 0 {
        "No tool actions yet"@
    } else {
        let recent = report::separated(
            actions.skip(screen::over(actions.len() as int, 4)).map_values(
                |action: AgentActionView| action_label(action),
            ),
            "  "@,
        );
        if actions.len() > 4 {
            "+"@ + text::decimal((actions.len() - 4) as nat) + " earlier  "@ + recent
        } else {
            recent
        }
    }
}

fn labels_of(actions: &Vec<AgentAction>, turn_id: &str) -> (labels: Vec<String>)
    ensures
        text::texts(labels@) == of_turn(
            actions@.map_values(|item: AgentAction| item@),
            turn_id@,
        ).map_values(|action: AgentActionView| action_label(action)),
{
    let ghost all = actions@.map_values(|item: AgentAction| item@);
    let ghost label = |action: AgentActionView| action_label(action);
    let mut labels: Vec<String> = Vec::new();
    let mut i: usize = 0;
    assert(all.take(0) =~= Seq::empty());
    assert(text::texts(labels@) =~= of_turn(all.take(0), turn_id@).map_values(label));
    while i < actions.len()
        invariant
            i <= actions.len(),
            all == actions@.map_values(|item: AgentAction| item@),
            label == (|action: AgentActionView| action_label(action)),
            text::texts(labels@) == of_turn(all.take(i as int), turn_id@).map_values(label),
        decreases actions.len() - i,
    {
        let ghost front = of_turn(all.take(i as int), turn_id@);
        let ghost before = text::texts(labels@);
        proof {
            assert(all.take(i + 1).drop_last() =~= all.take(i as int));
            assert(all.take(i + 1).last() == actions@[i as int]@);
        }
        if same_text(actions[i].turn_id.as_str(), turn_id) {
            let text = action_text(&actions[i]);
            let ghost shown = text@;
            labels.push(text);
            assert(text::texts(labels@) =~= before.push(shown));
            assert(front.push(actions@[i as int]@).map_values(label) =~= front.map_values(
                label,
            ).push(shown));
        }
        i += 1;
    }
    assert(all.take(i as int) =~= all);
    labels
}

fn summary_of(labels: Vec<String>, Ghost(actions): Ghost<Seq<AgentActionView>>) -> (summary: String)
    requires
        text::texts(labels@) == actions.map_values(|action: AgentActionView| action_label(action)),
    ensures
        summary@ == action_summary(actions),
{
    let ghost label = |action: AgentActionView| action_label(action);
    let ghost all = text::texts(labels@);
    let count = labels.len();
    assert(actions.len() == count) by {
        assert(all.len() == actions.len());
    }
    if count == 0 {
        return "No tool actions yet".to_owned();
    }
    let skipped: usize = count.saturating_sub(4);
    let mut recent: Vec<String> = Vec::new();
    let mut i: usize = skipped;
    while i < count
        invariant
            skipped <= i <= count,
            count == labels.len(),
            recent.len() == i - skipped,
            forall|k: int| 0 <= k < recent.len() ==> #[trigger] recent@[k]@ == labels@[skipped
                + k]@,
        decreases count - i,
    {
        recent.push(labels[i].clone());
        i += 1;
    }
    proof {
        let want = actions.skip(skipped as int).map_values(label);
        assert(text::texts(recent@).len() == want.len());
        assert forall|k: int| 0 <= k < want.len() implies text::texts(recent@)[k] == want[k] by {
            assert(text::texts(recent@)[k] == recent@[k]@);
            assert(all[skipped + k] == labels@[skipped + k]@);
            assert(all[skipped + k] == action_label(actions[skipped + k]));
        }
        assert(text::texts(recent@) =~= want);
    }
    let text = join_texts(&recent, "  ");
    if count > 4 {
        let mut summary = joined3("+", decimal_text((count - 4) as u64).as_str(), " earlier  ");
        summary.append(text.as_str());
        summary
    } else {
        text
    }
}

/// The colour of a turn.
pub open spec fn turn_color(state: AgentTurnState) -> Color {
    match state {
        AgentTurnState::Active => Color::Cyan,
        AgentTurnState::Completed => Color::Green,
        AgentTurnState::Failed => Color::LightRed,
        AgentTurnState::Interrupted => Color::LightRed,
    }
}

/// What the agent was last asked, and what it did about it.
pub open spec fn request_panel(state: WatchStateView, area: Rect) -> PanelView {
    let turns = state.detail.turns;
    if turns.len() == 0 {
        PanelView {
            style: screen::in_color(Color::DarkGray),
            ..screen::framed(
                area,
                "Agent request"@,
                seq![
                    screen::raw_line(
                        "Waiting for a Codex or "@ + state.claude_label + " Code prompt..."@,
                    ),
                ],
            )
        }
    } else {
        let turn = turns.last();
        let actions = of_turn(state.detail.actions, turn.id);
        PanelView {
            wrapped: true,
            ..screen::framed(
                area,
                "Agent request"@,
                seq![
                    screen::line_of(
                        seq![
                            screen::piece(
                                turn.provider + "  "@ + model::turn_state_name(turn.state),
                                screen::in_bold(turn_color(turn.state)),
                            ),
                            screen::piece("  "@ + text::decimal(actions.len()) + " actions"@, screen::unstyled()),
                        ],
                    ),
                    screen::styled_line(
                        if turn.prompt.len() == 0 {
                            "Prompt unavailable (the session started before hooks were active)"@
                        } else {
                            screen::on_one_line(turn.prompt)
                        },
                        screen::in_color(Color::White),
                    ),
                    screen::styled_line(action_summary(actions), screen::in_color(Color::DarkGray)),
                ],
            )
        }
    }
}

/// The line of an execution.
pub open spec fn execution_entry(state: WatchStateView, execution: ExecutionView) -> LineView {
    screen::line_of(
        seq![
            screen::piece(
                (if state.selected_id == Some(execution.id) {
                    ">"@
                } else {
                    " "@
                }) + " "@ + report::padded(screen::status_name(screen::status_of(execution)), 9),
                screen::in_color(screen::status_color(screen::status_of(execution))),
            ),
            screen::piece(" "@, screen::unstyled()),
            screen::piece(screen::listed_id(execution.id), screen::in_color(Color::DarkGray)),
            screen::piece(" "@, screen::unstyled()),
            screen::piece(
                if execution.initiator.session_id != Some(state.detail.session.id) {
                    "handoff "@
                } else {
                    ""@
                },
                screen::in_color(Color::Yellow),
            ),
            screen::piece(execution.command_display, screen::unstyled()),
        ],
    )
}

/// The executions of the session.
pub open spec fn executions_panel(state: WatchStateView, area: Rect) -> PanelView {
    PanelView {
        listed: true,
        border: screen::frame_style(state.focus == Focus::Executions),
        ..screen::framed(
            area,
            "Executions"@,
            state.detail.executions.map_values(
                |execution: ExecutionView| execution_entry(state, execution),
            ),
        )
    }
}

/// What is known of the selected execution.
pub open spec fn selected_panel(state: WatchStateView, area: Rect, now: i64) -> PanelView {
    screen::framed(
        area,
        "Selected"@,
        match selected_place(state) {
            None => seq![screen::raw_line("No execution selected"@)],
            Some(at) => {
                let execution = state.detail.executions[at];
                seq![
                    screen::styled_line(execution.command_display, screen::in_bold(Color::Plain)),
                    screen::raw_line("cwd  "@ + execution.cwd),
                    screen::raw_line(
                        "source  "@ + (if execution.initiator.session_id == Some(
                            state.detail.session.id,
                        ) {
                            "current session"@
                        } else {
                            "handoff"@
                        }),
                    ),
                    screen::raw_line(
                        screen::shown_outcome(execution.outcome, "cancelled (signal "@, ")"@) + "  "@
                            + screen::shown_span(screen::taken(execution, now)),
                    ),
                ]
            },
        },
    )
}

/// The output of the selected execution.
pub open spec fn output_panel(state: WatchStateView, area: Rect) -> PanelView {
    PanelView {
        border: screen::frame_style(state.focus == Focus::Output),
        scroll: screen::at_most_u16(output::scroll_in(state.output, screen::over(area.height as int, 2))) as u16,
        ..screen::framed(
            area,
            if state.output.follow {
                "Output [follow]"@
            } else {
                "Output"@
            },
            output::pane_lines(state.output),
        )
    }
}

/// What is said at the foot of the screen.
pub open spec fn notice_panel(state: WatchStateView, area: Rect) -> PanelView {
    match (state.error, state.notice) {
        (Some(error), _) => screen::message_panel(area, error, screen::in_color(Color::LightRed)),
        (None, Some(notice)) => screen::message_panel(area, notice, screen::in_color(Color::Yellow)),
        (None, None) => screen::message_panel(
            area,
            "Tab focus  arrows navigate  f follow  c cancel  o open  e export  q quit"@,
            screen::in_color(Color::DarkGray),
        ),
    }
}

/// What the observer shows, and how its view of the output has moved then.
pub open spec fn drawn(state: WatchStateView, area: Rect, layout: Option<WatchLayout>, now: i64) -> (
    WatchStateView,
    Seq<PanelView>,
) {
    match layout {
        None => (
            state,
            seq![screen::too_small(area, "Loomterm Live Observer"@, MIN_WIDTH, MIN_HEIGHT)],
        ),
        Some(layout) => {
            let panels = seq![
                header(state, layout.header, now),
                request_panel(state, layout.request),
                executions_panel(state, layout.executions),
                selected_panel(state, layout.selected, now),
                output_panel(state, layout.output),
                notice_panel(state, layout.footer),
            ];
            (
                WatchStateView {
                    output: OutputPaneView {
                        scroll: output::scroll_in(
                            state.output,
                            screen::over(layout.output.height as int, 2),
                        ) as usize,
                        ..state.output
                    },
                    ..state
                },
                match state.confirmation {
                    Some(ConfirmationView::Cancel(id)) => panels.push(
                        screen::confirmation(screen::centered(54, 7, area), id),
                    ),
                    None => panels,
                },
            )
        },
    }
}

fn header_panel(state: &WatchState, area: Rect, now: i64) -> (panel: Panel)
    ensures
        panel@ == header(state@, area, now),
{
    let session = &state.detail.session;
    let duration = match session.duration_ms {
        Some(duration) => duration,
        None => elapsed_since(now, session.created_at_ms),
    };
    let mut line = Line::new();
    line.put(session_title(session), bold(Color::Plain));
    line.put_raw("  ");
    line.put(pad_left(session.state.as_str(), 11), session_style(session.state));
    let mut facts = joined3("  ", session.agent_kind.as_str(), "  ");
    facts.append(format_duration(duration).as_str());
    facts.append("  ");
    facts.append(decimal_text(state.detail.executions.len() as u64).as_str());
    facts.append(" executions");
    line.put_raw(facts.as_str());
    line.put_raw(
        joined3("  ", decimal_text(state.detail.turns.len() as u64).as_str(), " requests").as_str(),
    );
    let mut lines = no_lines();
    let ghost view = line@;
    put_line(&mut lines, line);
    proof {
        assert(state@.detail.executions.len() == state.detail.executions.len());
        assert(state@.detail.turns.len() == state.detail.turns.len());
        assert(view.spans =~= header(state@, area, now).lines[0].spans);
        assert(screen::line_views(lines@) =~= header(state@, area, now).lines);
    }
    make_framed(area, "Loomterm Live Observer", lines)
}

fn request_of(state: &WatchState, area: Rect) -> (panel: Panel)
    ensures
        panel@ == request_panel(state@, area),
{
    let turns = &state.detail.turns;
    let ghost all = state@.detail.turns;
    assert(all.len() == turns.len());
    let mut lines = no_lines();
    if turns.len() == 0 {
        let waiting = joined3(
            "Waiting for a Codex or ",
            state.claude_label.as_str(),
            " Code prompt...",
        );
        put_line(&mut lines, make_raw(waiting.as_str()));
        assert(screen::line_views(lines@) =~= request_panel(state@, area).lines);
        let mut panel = make_framed(area, "Agent request", lines);
        panel.style = colored(Color::DarkGray);
        return panel;
    }
    let turn = &turns[turns.len() - 1];
    assert(all.last() == turn@);
    let labels = labels_of(&state.detail.actions, turn.id.as_str());
    let ghost actions = of_turn(state@.detail.actions, turn@.id);
    assert(text::texts(labels@).len() == actions.len());
    let color = match turn.state {
        AgentTurnState::Active => Color::Cyan,
        AgentTurnState::Completed => Color::Green,
        AgentTurnState::Failed => Color::LightRed,
        AgentTurnState::Interrupted => Color::LightRed,
    };
    let mut line = Line::new();
    line.put(joined3(turn.provider.as_str(), "  ", turn.state.as_str()), bold(color));
    line.put_raw(joined3("  ", decimal_text(labels.len() as u64).as_str(), " actions").as_str());
    let prompt = if turn.prompt.as_str().is_empty() {
        "Prompt unavailable (the session started before hooks were active)".to_owned()
    } else {
        one_line(turn.prompt.as_str())
    };
    let ghost view = line@;
    put_line(&mut lines, line);
    put_line(&mut lines, make_line(prompt, colored(Color::White)));
    put_line(
        &mut lines,
        make_line(summary_of(labels, Ghost(actions)), colored(Color::DarkGray)),
    );
    proof {
        assert(view.spans =~= request_panel(state@, area).lines[0].spans);
        assert(screen::line_views(lines@) =~= request_panel(state@, area).lines);
    }
    let mut panel = make_framed(area, "Agent request", lines);
    panel.wrapped = true;
    panel
}

/// Whether an execution was started under a session.
pub open spec fn started_under(execution: ExecutionView, id: Seq<char>) -> bool {
    execution.initiator.session_id == Some(id)
}

/// Whether an execution was started under a session.
pub fn is_started_under(execution: &Execution, id: &str) -> (yes: bool)
    ensures
        yes == started_under(execution@, id@),
{
    match &execution.initiator.session_id {
        Some(own) => same_text(own.as_str(), id),
        None => false,
    }
}

fn entry_of(state: &WatchState, execution: &Execution) -> (line: Line)
    ensures
        line@ == execution_entry(state@, execution@),
{
    let (label, style) = execution_status(execution);
    let marker = match &state.selected_id {
        Some(id) => if same_text(id.as_str(), execution.id.as_str()) {
            ">"
        } else {
            " "
        },
        None => " ",
    };
    let mut line = Line::new();
    line.put(joined3(marker, " ", pad(label, 9).as_str()), style);
    line.put_raw(" ");
    line.put(short_id(execution.id.as_str()), colored(Color::DarkGray));
    line.put_raw(" ");
    let own = is_started_under(execution, state.detail.session.id.as_str());
    let relation = if own {
        ""
    } else {
        "handoff "
    };
    line.put(relation.to_owned(), colored(Color::Yellow));
    line.put_raw(execution.command_display.as_str());
    assert(line@.spans =~= execution_entry(state@, execution@).spans);
    line
}

fn executions_of(state: &WatchState, area: Rect) -> (panel: Panel)
    ensures
        panel@ == executions_panel(state@, area),
{
    let executions = &state.detail.executions;
    let ghost all = state@.detail.executions;
    let mut lines = no_lines();
    let mut i: usize = 0;
    while i < executions.len()
        invariant
            i <= executions.len(),
            all == executions@.map_values(|item: Execution| item@),
            lines.len() == i,
            forall|k: int|
                0 <= k < i ==> #[trigger] screen::line_views(lines@)[k] == execution_entry(
                    state@,
                    all[k],
                ),
        decreases executions.len() - i,
    {
        assert(all[i as int] == executions@[i as int]@);
        put_line(&mut lines, entry_of(state, &executions[i]));
        i += 1;
    }
    assert(screen::line_views(lines@).len() == lines.len());
    assert(screen::line_views(lines@) =~= executions_panel(state@, area).lines);
    let mut panel = make_framed(area, "Executions", lines);
    panel.listed = true;
    panel.border = focus_style(state.focus == Focus::Executions);
    panel
}

fn selected_of(state: &WatchState, area: Rect, now: i64) -> (panel: Panel)
    ensures
        panel@ == selected_panel(state@, area, now),
{
    let mut lines = no_lines();
    match state.selected_index() {
        None => {
            put_line(&mut lines, make_raw("No execution selected"));
        },
        Some(at) => {
            let execution = &state.detail.executions[at];
            assert(state@.detail.executions[at as int] == execution@);
            put_line(
                &mut lines,
                make_line(execution.command_display.clone(), bold(Color::Plain)),
            );
            put_line(&mut lines, make_raw(joined("cwd  ", execution.cwd.as_str()).as_str()));
            let relation = if is_started_under(execution, state.detail.session.id.as_str()) {
                "current session"
            } else {
                "handoff"
            };
            put_line(&mut lines, make_raw(joined("source  ", relation).as_str()));
            let mut facts = format_outcome(&execution.outcome, "cancelled (signal ", ")");
            facts.append("  ");
            facts.append(format_duration(time_taken(execution, now)).as_str());
            put_line(&mut lines, make_raw(facts.as_str()));
        },
    }
    assert(screen::line_views(lines@) =~= selected_panel(state@, area, now).lines);
    make_framed(area, "Selected", lines)
}

fn notice_of(state: &WatchState, area: Rect) -> (panel: Panel)
    ensures
        panel@ == notice_panel(state@, area),
{
    match (&state.error, &state.notice) {
        (Some(error), _) => make_message(area, error.as_str(), colored(Color::LightRed)),
        (None, Some(notice)) => make_message(area, notice.as_str(), colored(Color::Yellow)),
        (None, None) => make_message(
            area,
            "Tab focus  arrows navigate  f follow  c cancel  o open  e export  q quit",
            colored(Color::DarkGray),
        ),
    }
}

impl WatchState {
    fn output_of(&mut self, area: Rect) -> (panel: Panel)
        ensures
            panel@ == output_panel(old(self)@, area),
            final(self)@ == (WatchStateView {
                output: OutputPaneView {
                    scroll: output::scroll_in(old(self)@.output, screen::over(area.height as int, 2)) as usize,
                    ..old(self)@.output
                },
                ..old(self)@
            }),
    {
        let lines = self.output.lines();
        assert(screen::line_views(lines@).len() == lines.len());
        let height: usize = area.height.saturating_sub(2) as usize;
        let title = if self.output.follow {
            "Output [follow]"
        } else {
            "Output"
        };
        let scroll = self.output.settle(lines.len(), height);
        let mut panel = make_framed(area, title, lines);
        panel.border = focus_style(self.focus == Focus::Output);
        panel.scroll = scroll;
        panel
    }

    /// Draws the observer: what stands where, by how the screen is divided.
    #[verifier::rlimit(60)]
    pub fn render(&mut self, area: Rect, layout: Option<WatchLayout>, now: i64) -> (panels: Vec<
        Panel,
    >)
        requires
            screen::on_screen(area),
        ensures
            (final(self)@, screen::panel_views(panels@)) == drawn(old(self)@, area, layout, now),
    {
        let mut panels: Vec<Panel> = Vec::new();
        assert(screen::panel_views(panels@) =~= Seq::<PanelView>::empty());
        match layout {
            None => {
                put_panel(
                    &mut panels,
                    too_small_panel(area, "Loomterm Live Observer", MIN_WIDTH, MIN_HEIGHT),
                );
                assert(screen::panel_views(panels@) =~= drawn(old(self)@, area, layout, now).1);
            },
            Some(layout) => {
                put_panel(&mut panels, header_panel(self, layout.header, now));
                put_panel(&mut panels, request_of(self, layout.request));
                put_panel(&mut panels, executions_of(self, layout.executions));
                put_panel(&mut panels, selected_of(self, layout.selected, now));
                put_panel(&mut panels, self.output_of(layout.output));
                put_panel(&mut panels, notice_of(self, layout.footer));
                match &self.confirmation {
                    Some(Confirmation::Cancel(id)) => {
                        put_panel(
                            &mut panels,
                            confirmation_panel(centered_rect(54, 7, area), id.as_str()),
                        );
                    },
                    None => {},
                }
                assert(screen::panel_views(panels@) =~= drawn(
                    old(self)@,
                    area,
                    Some(layout),
                    now,
                ).1);
            },
        }
        panels
    }
}

} // verus!
