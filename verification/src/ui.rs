//! The operator's view of a workspace: what is selected in it, and what its
//! keys and its mouse do.

use vstd::prelude::*;

use crate::error;
use crate::error::{Error, ErrorView};
use crate::model;
use crate::model::{
    AgentSession, AgentSessionDetail, AgentSessionDetailView, AgentSessionState,
    AgentSessionView, Execution, ExecutionEvent, ExecutionEventView, ExecutionState, ExecutionView,
    ReadOutputResponse, Workspace, WorkspaceView,
};
use crate::order;
use crate::order::{ascii_fold, order_newest};
use crate::output;
use crate::output::{take_page, OutputPane, OutputPaneView};
use crate::screen;
use crate::screen::{
    contains, format_outcome, truncate, without_last, KeyCode, KeyEvent, MouseEvent, MouseKind,
    Rect,
};
use crate::text;
use crate::text::{clone_maybe, contains_text, joined, same_text, trim};
use crate::watch;
use crate::watch::find_execution;

verus! {

/// How many rows of each list are asked for.
pub const LIST_LIMIT: u32 = 1000;

/// How often the view is brought up to date, in milliseconds.
pub const POLL_INTERVAL_MS: u64 = 500;

/// How long the view waits after a failure, in milliseconds.
pub const RETRY_INTERVAL_MS: u64 = 1000;

/// How many actions the palette offers.
pub const PALETTE_SIZE: usize = 9;

/// An agent that can be started.
#[derive(Debug, Clone, Copy, PartialEq, Eq, Structural)]
pub enum AgentProvider {
    Codex,
    Claude,
}

/// How the view begins. The label of the second agent is handed in.
#[derive(Debug)]
pub struct UiOptions {
    pub workspace: Workspace,
    pub selected_session_id: Option<String>,
    pub notice: Option<String>,
    pub claude_label: String,
}

/// What an `UiOptions` holds.
#[verifier::ext_equal]
pub struct UiOptionsView {
    pub workspace: WorkspaceView,
    pub selected_session_id: Option<Seq<char>>,
    pub notice: Option<Seq<char>>,
    pub claude_label: Seq<char>,
}

impl View for UiOptions {
    type V = UiOptionsView;

    open spec fn view(&self) -> UiOptionsView {
        UiOptionsView {
            workspace: self.workspace@,
            selected_session_id: text::maybe_text(self.selected_session_id),
            notice: text::maybe_text(self.notice),
            claude_label: self.claude_label@,
        }
    }
}

impl Clone for UiOptions {
    fn clone(&self) -> (copy: Self)
        ensures
            copy@ == self@,
    {
        UiOptions {
            workspace: self.workspace.clone(),
            selected_session_id: clone_maybe(&self.selected_session_id),
            notice: clone_maybe(&self.notice),
            claude_label: self.claude_label.clone(),
        }
    }
}

/// What the view was left for.
#[derive(Debug, PartialEq, Eq)]
pub enum UiAction {
    Quit,
    Launch { provider: AgentProvider, prompt: Option<String> },
    Handoff { provider: AgentProvider, source_session_id: String },
}

/// What an `UiAction` holds.
#[verifier::ext_equal]
pub enum UiActionView {
    Quit,
    Launch { provider: AgentProvider, prompt: Option<Seq<char>> },
    Handoff { provider: AgentProvider, source_session_id: Seq<char> },
}

impl View for UiAction {
    type V = UiActionView;

    open spec fn view(&self) -> UiActionView {
        match *self {
            UiAction::Quit => UiActionView::Quit,
            UiAction::Launch { provider, prompt } => UiActionView::Launch {
                provider,
                prompt: text::maybe_text(prompt),
            },
            UiAction::Handoff { provider, source_session_id } => UiActionView::Handoff {
                provider,
                source_session_id: source_session_id@,
            },
        }
    }
}

impl Clone for UiAction {
    fn clone(&self) -> (copy: Self)
        ensures
            copy@ == self@,
    {
        match self {
            UiAction::Quit => UiAction::Quit,
            UiAction::Launch { provider, prompt } => UiAction::Launch {
                provider: *provider,
                prompt: clone_maybe(prompt),
            },
            UiAction::Handoff { provider, source_session_id } => UiAction::Handoff {
                provider: *provider,
                source_session_id: source_session_id.clone(),
            },
        }
    }
}

/// What keys go to.
#[derive(Debug, Clone, Copy, PartialEq, Eq, Structural)]
pub enum Focus {
    Sessions,
    Executions,
    Output,
}

/// What keys go to while an agent is chosen.
#[derive(Debug, Clone, Copy, PartialEq, Eq, Structural)]
pub enum AgentModalField {
    Provider,
    Prompt,
}

/// What an agent is chosen for.
#[derive(Debug, PartialEq, Eq)]
pub enum AgentModalPurpose {
    Launch,
    Handoff {
        source_session_id: String,
        source_provider: String,
        active_count: usize,
        command_preview: String,
    },
}

/// What an `AgentModalPurpose` holds.
#[verifier::ext_equal]
pub enum AgentModalPurposeView {
    Launch,
    Handoff {
        source_session_id: Seq<char>,
        source_provider: Seq<char>,
        active_count: usize,
        command_preview: Seq<char>,
    },
}

impl View for AgentModalPurpose {
    type V = AgentModalPurposeView;

    open spec fn view(&self) -> AgentModalPurposeView {
        match *self {
            AgentModalPurpose::Launch => AgentModalPurposeView::Launch,
            AgentModalPurpose::Handoff {
                source_session_id,
                source_provider,
                active_count,
                command_preview,
            } => AgentModalPurposeView::Handoff {
                source_session_id: source_session_id@,
                source_provider: source_provider@,
                active_count,
                command_preview: command_preview@,
            },
        }
    }
}

impl Clone for AgentModalPurpose {
    fn clone(&self) -> (copy: Self)
        ensures
            copy@ == self@,
    {
        match self {
            AgentModalPurpose::Launch => AgentModalPurpose::Launch,
            AgentModalPurpose::Handoff {
                source_session_id,
                source_provider,
                active_count,
                command_preview,
            } => AgentModalPurpose::Handoff {
                source_session_id: source_session_id.clone(),
                source_provider: source_provider.clone(),
                active_count: *active_count,
                command_preview: command_preview.clone(),
            },
        }
    }
}

/// What the palette offers.
#[derive(Debug, Clone, Copy, PartialEq, Eq, Structural)]
pub enum PaletteAction {
    NewAgent,
    Handoff,
    Cancel,
    OpenReplay,
    ExportReplay,
    ToggleFollow,
    Refresh,
    Help,
    Quit,
}

/// What stands before the view.
#[derive(Debug, PartialEq, Eq)]
pub enum Modal {
    Help,
    ConfirmCancel(String),
    Palette { selected: usize },
    Agent {
        purpose: AgentModalPurpose,
        provider: AgentProvider,
        field: AgentModalField,
        prompt: String,
    },
}

/// What a `Modal` holds.
#[verifier::ext_equal]
pub enum ModalView {
    Help,
    ConfirmCancel(Seq<char>),
    Palette { selected: usize },
    Agent {
        purpose: AgentModalPurposeView,
        provider: AgentProvider,
        field: AgentModalField,
        prompt: Seq<char>,
    },
}

impl View for Modal {
    type V = ModalView;

    open spec fn view(&self) -> ModalView {
        match *self {
            Modal::Help => ModalView::Help,
            Modal::ConfirmCancel(value) => ModalView::ConfirmCancel(value@),
            Modal::Palette { selected } => ModalView::Palette { selected },
            Modal::Agent { purpose, provider, field, prompt } => ModalView::Agent {
                purpose: purpose@,
                provider,
                field,
                prompt: prompt@,
            },
        }
    }
}

impl Clone for Modal {
    fn clone(&self) -> (copy: Self)
        ensures
            copy@ == self@,
    {
        match self {
            Modal::Help => Modal::Help,
            Modal::ConfirmCancel(value) => Modal::ConfirmCancel(value.clone()),
            Modal::Palette { selected } => Modal::Palette { selected: *selected },
            Modal::Agent { purpose, provider, field, prompt } => Modal::Agent {
                purpose: purpose.clone(),
                provider: *provider,
                field: *field,
                prompt: prompt.clone(),
            },
        }
    }
}

/// What lies under the mouse.
#[derive(Debug, PartialEq, Eq)]
pub enum HitTarget {
    AllWork,
    Session(String),
    Execution(String),
    Pane(Focus),
}

/// What a `HitTarget` holds.
#[verifier::ext_equal]
pub enum HitTargetView {
    AllWork,
    Session(Seq<char>),
    Execution(Seq<char>),
    Pane(Focus),
}

impl View for HitTarget {
    type V = HitTargetView;

    open spec fn view(&self) -> HitTargetView {
        match *self {
            HitTarget::AllWork => HitTargetView::AllWork,
            HitTarget::Session(value) => HitTargetView::Session(value@),
            HitTarget::Execution(value) => HitTargetView::Execution(value@),
            HitTarget::Pane(value) => HitTargetView::Pane(value),
        }
    }
}

impl Clone for HitTarget {
    fn clone(&self) -> (copy: Self)
        ensures
            copy@ == self@,
    {
        match self {
            HitTarget::AllWork => HitTarget::AllWork,
            HitTarget::Session(value) => HitTarget::Session(value.clone()),
            HitTarget::Execution(value) => HitTarget::Execution(value.clone()),
            HitTarget::Pane(value) => HitTarget::Pane(*value),
        }
    }
}

/// A part of the screen that the mouse can be used on.
#[derive(Debug, PartialEq, Eq)]
pub struct HitRegion {
    pub area: Rect,
    pub target: HitTarget,
}

/// What a `HitRegion` holds.
#[verifier::ext_equal]
pub struct HitRegionView {
    pub area: Rect,
    pub target: HitTargetView,
}

impl View for HitRegion {
    type V = HitRegionView;

    open spec fn view(&self) -> HitRegionView {
        HitRegionView {
            area: self.area,
            target: self.target@,
        }
    }
}

impl Clone for HitRegion {
    fn clone(&self) -> (copy: Self)
        ensures
            copy@ == self@,
    {
        HitRegion {
            area: self.area,
            target: self.target.clone(),
        }
    }
}

/// What a key or the mouse asks for.
#[derive(Debug, PartialEq, Eq)]
pub enum Command {
    Nothing,
    Quit,
    Refresh,
    ReloadOutput,
    Cancel(String),
    OpenReplay(String),
    ExportReplay(String),
    PrepareHandoff(String),
    Launch { provider: AgentProvider, prompt: Option<String> },
    Handoff { provider: AgentProvider, source_session_id: String },
}

/// What a `Command` holds.
#[verifier::ext_equal]
pub enum CommandView {
    Nothing,
    Quit,
    Refresh,
    ReloadOutput,
    Cancel(Seq<char>),
    OpenReplay(Seq<char>),
    ExportReplay(Seq<char>),
    PrepareHandoff(Seq<char>),
    Launch { provider: AgentProvider, prompt: Option<Seq<char>> },
    Handoff { provider: AgentProvider, source_session_id: Seq<char> },
}

impl View for Command {
    type V = CommandView;

    open spec fn view(&self) -> CommandView {
        match *self {
            Command::Nothing => CommandView::Nothing,
            Command::Quit => CommandView::Quit,
            Command::Refresh => CommandView::Refresh,
            Command::ReloadOutput => CommandView::ReloadOutput,
            Command::Cancel(value) => CommandView::Cancel(value@),
            Command::OpenReplay(value) => CommandView::OpenReplay(value@),
            Command::ExportReplay(value) => CommandView::ExportReplay(value@),
            Command::PrepareHandoff(value) => CommandView::PrepareHandoff(value@),
            Command::Launch { provider, prompt } => CommandView::Launch {
                provider,
                prompt: text::maybe_text(prompt),
            },
            Command::Handoff { provider, source_session_id } => CommandView::Handoff {
                provider,
                source_session_id: source_session_id@,
            },
        }
    }
}

impl Clone for Command {
    fn clone(&self) -> (copy: Self)
        ensures
            copy@ == self@,
    {
        match self {
            Command::Nothing => Command::Nothing,
            Command::Quit => Command::Quit,
            Command::Refresh => Command::Refresh,
            Command::ReloadOutput => Command::ReloadOutput,
            Command::Cancel(value) => Command::Cancel(value.clone()),
            Command::OpenReplay(value) => Command::OpenReplay(value.clone()),
            Command::ExportReplay(value) => Command::ExportReplay(value.clone()),
            Command::PrepareHandoff(value) => Command::PrepareHandoff(value.clone()),
            Command::Launch { provider, prompt } => Command::Launch {
                provider: *provider,
                prompt: clone_maybe(prompt),
            },
            Command::Handoff { provider, source_session_id } => Command::Handoff {
                provider: *provider,
                source_session_id: source_session_id.clone(),
            },
        }
    }
}

/// The view.
#[derive(Debug)]
pub struct OperatorState {
    pub workspace: Workspace,
    pub sessions: Vec<AgentSession>,
    pub workspace_executions: Vec<Execution>,
    pub detail: Option<AgentSessionDetail>,
    pub selected_session_id: Option<String>,
    pub selected_execution_id: Option<String>,
    pub session_offset: usize,
    pub execution_offset: usize,
    pub focus: Focus,
    pub query: String,
    pub editing_search: bool,
    pub output: OutputPane,
    pub modal: Option<Modal>,
    pub notice: Option<String>,
    pub error: Option<String>,
    pub hit_regions: Vec<HitRegion>,
    pub claude_label: String,
}

/// What an `OperatorState` holds.
#[verifier::ext_equal]
pub struct OperatorStateView {
    pub workspace: WorkspaceView,
    pub sessions: Seq<AgentSessionView>,
    pub workspace_executions: Seq<ExecutionView>,
    pub detail: Option<AgentSessionDetailView>,
    pub selected_session_id: Option<Seq<char>>,
    pub selected_execution_id: Option<Seq<char>>,
    pub session_offset: usize,
    pub execution_offset: usize,
    pub focus: Focus,
    pub query: Seq<char>,
    pub editing_search: bool,
    pub output: OutputPaneView,
    pub modal: Option<ModalView>,
    pub notice: Option<Seq<char>>,
    pub error: Option<Seq<char>>,
    pub hit_regions: Seq<HitRegionView>,
    pub claude_label: Seq<char>,
}

impl View for OperatorState {
    type V = OperatorStateView;

    open spec fn view(&self) -> OperatorStateView {
        OperatorStateView {
            workspace: self.workspace@,
            sessions: self.sessions@.map_values(|item: AgentSession| item@),
            workspace_executions: self.workspace_executions@.map_values(|item: Execution| item@),
            detail: (match self.detail { Some(inner) => Some(inner@), None => None }),
            selected_session_id: text::maybe_text(self.selected_session_id),
            selected_execution_id: text::maybe_text(self.selected_execution_id),
            session_offset: self.session_offset,
            execution_offset: self.execution_offset,
            focus: self.focus,
            query: self.query@,
            editing_search: self.editing_search,
            output: self.output@,
            modal: (match self.modal { Some(inner) => Some(inner@), None => None }),
            notice: text::maybe_text(self.notice),
            error: text::maybe_text(self.error),
            hit_regions: self.hit_regions@.map_values(|item: HitRegion| item@),
            claude_label: self.claude_label@,
        }
    }
}

/// The name of an agent; that of the second one is handed in.
pub open spec fn provider_name(provider: AgentProvider, claude_name: Seq<char>) -> Seq<char> {
    match provider {
        AgentProvider::Codex => "codex"@,
        AgentProvider::Claude => claude_name,
    }
}

impl AgentProvider {
    /// The name of the agent; that of the second one is handed in.
    pub fn as_str<'a>(self, claude_name: &'a str) -> (name: &'a str)
        ensures
            name@ == provider_name(self, claude_name@),
    {
        match self {
            AgentProvider::Codex => "codex",
            AgentProvider::Claude => claude_name,
        }
    }

    /// The other agent.
    pub fn toggled(self) -> (other: AgentProvider)
        ensures
            other == other_provider(self),
    {
        match self {
            AgentProvider::Codex => AgentProvider::Claude,
            AgentProvider::Claude => AgentProvider::Codex,
        }
    }
}

/// The other agent.
pub open spec fn other_provider(provider: AgentProvider) -> AgentProvider {
    match provider {
        AgentProvider::Codex => AgentProvider::Claude,
        AgentProvider::Claude => AgentProvider::Codex,
    }
}

/// What keys go to next.
pub open spec fn focus_after(focus: Focus) -> Focus {
    match focus {
        Focus::Sessions => Focus::Executions,
        Focus::Executions => Focus::Output,
        Focus::Output => Focus::Sessions,
    }
}

/// What keys went to before.
pub open spec fn focus_before(focus: Focus) -> Focus {
    match focus {
        Focus::Sessions => Focus::Output,
        Focus::Executions => Focus::Sessions,
        Focus::Output => Focus::Executions,
    }
}

/// Going back undoes going on, and three steps lead round.
pub proof fn focus_goes_round(focus: Focus)
    ensures
        focus_before(focus_after(focus)) == focus,
        focus_after(focus_before(focus)) == focus,
        focus_after(focus_after(focus_after(focus))) == focus,
{
}

impl Focus {
    /// What keys go to next.
    pub fn next(self) -> (focus: Focus)
        ensures
            focus == focus_after(self),
    {
        match self {
            Focus::Sessions => Focus::Executions,
            Focus::Executions => Focus::Output,
            Focus::Output => Focus::Sessions,
        }
    }

    /// What keys went to before.
    pub fn previous(self) -> (focus: Focus)
        ensures
            focus == focus_before(self),
    {
        match self {
            Focus::Sessions => Focus::Output,
            Focus::Executions => Focus::Sessions,
            Focus::Output => Focus::Executions,
        }
    }
}

/// What the palette offers, from top to bottom.
pub open spec fn palette() -> Seq<PaletteAction> {
    seq![
        PaletteAction::NewAgent,
        PaletteAction::Handoff,
        PaletteAction::Cancel,
        PaletteAction::OpenReplay,
        PaletteAction::ExportReplay,
        PaletteAction::ToggleFollow,
        PaletteAction::Refresh,
        PaletteAction::Help,
        PaletteAction::Quit,
    ]
}

/// What an action is called.
pub open spec fn action_name(action: PaletteAction) -> Seq<char> {
    match action {
        PaletteAction::NewAgent => "New agent"@,
        PaletteAction::Handoff => "Handoff active work"@,
        PaletteAction::Cancel => "Cancel execution"@,
        PaletteAction::OpenReplay => "Open session replay"@,
        PaletteAction::ExportReplay => "Export session replay"@,
        PaletteAction::ToggleFollow => "Toggle output follow"@,
        PaletteAction::Refresh => "Refresh now"@,
        PaletteAction::Help => "Keyboard help"@,
        PaletteAction::Quit => "Quit Loomterm"@,
    }
}

/// The key of an action.
pub open spec fn action_key(action: PaletteAction) -> Seq<char> {
    match action {
        PaletteAction::NewAgent => "n"@,
        PaletteAction::Handoff => "h"@,
        PaletteAction::Cancel => "c"@,
        PaletteAction::OpenReplay => "o"@,
        PaletteAction::ExportReplay => "e"@,
        PaletteAction::ToggleFollow => "f"@,
        PaletteAction::Refresh => "r"@,
        PaletteAction::Help => "?"@,
        PaletteAction::Quit => "q"@,
    }
}

impl PaletteAction {
    /// The action at a place of the palette.
    pub fn at(place: usize) -> (action: PaletteAction)
        requires
            place < PALETTE_SIZE,
        ensures
            action == palette()[place as int],
    {
        if place == 0 {
            PaletteAction::NewAgent
        } else if place == 1 {
            PaletteAction::Handoff
        } else if place == 2 {
            PaletteAction::Cancel
        } else if place == 3 {
            PaletteAction::OpenReplay
        } else if place == 4 {
            PaletteAction::ExportReplay
        } else if place == 5 {
            PaletteAction::ToggleFollow
        } else if place == 6 {
            PaletteAction::Refresh
        } else if place == 7 {
            PaletteAction::Help
        } else {
            PaletteAction::Quit
        }
    }

    /// What the action is called.
    pub fn label(self) -> (label: &'static str)
        ensures
            label@ == action_name(self),
    {
        match self {
            PaletteAction::NewAgent => "New agent",
            PaletteAction::Handoff => "Handoff active work",
            PaletteAction::Cancel => "Cancel execution",
            PaletteAction::OpenReplay => "Open session replay",
            PaletteAction::ExportReplay => "Export session replay",
            PaletteAction::ToggleFollow => "Toggle output follow",
            PaletteAction::Refresh => "Refresh now",
            PaletteAction::Help => "Keyboard help",
            PaletteAction::Quit => "Quit Loomterm",
        }
    }

    /// The key of the action.
    pub fn shortcut(self) -> (key: &'static str)
        ensures
            key@ == action_key(self),
    {
        match self {
            PaletteAction::NewAgent => "n",
            PaletteAction::Handoff => "h",
            PaletteAction::Cancel => "c",
            PaletteAction::OpenReplay => "o",
            PaletteAction::ExportReplay => "e",
            PaletteAction::ToggleFollow => "f",
            PaletteAction::Refresh => "r",
            PaletteAction::Help => "?",
            PaletteAction::Quit => "q",
        }
    }
}

/// The view as it begins.
pub open spec fn beginning(options: UiOptionsView) -> OperatorStateView {
    OperatorStateView {
        workspace: options.workspace,
        sessions: Seq::empty(),
        workspace_executions: Seq::empty(),
        detail: None,
        selected_session_id: options.selected_session_id,
        selected_execution_id: None,
        session_offset: 0,
        execution_offset: 0,
        focus: Focus::Sessions,
        query: Seq::empty(),
        editing_search: false,
        output: output::empty_pane(),
        modal: None,
        notice: options.notice,
        error: None,
        hit_regions: Seq::empty(),
        claude_label: options.claude_label,
    }
}

/// Whether the palette points at one of its actions.
pub open spec fn steady(state: OperatorStateView) -> bool {
    state.modal matches Some(ModalView::Palette { selected }) ==> selected < PALETTE_SIZE
}

/// A text that may be there, or nothing.
pub open spec fn or_empty(text: Option<Seq<char>>) -> Seq<char> {
    match text {
        Some(text) => text,
        None => Seq::empty(),
    }
}

/// Whether a field holds what is searched for, whatever the case of its
/// letters.
pub open spec fn holds(field: Seq<char>, query: Seq<char>) -> bool {
    text::occurs(order::ascii_folded(field), order::ascii_folded(query))
}

/// Whether a session is in view while `query` is searched for.
pub open spec fn session_matches(session: AgentSessionView, query: Seq<char>) -> bool {
    ||| query.len() == 0
    ||| holds(session.id, query)
    ||| holds(session.agent_kind, query)
    ||| holds(model::session_state_name(session.state), query)
    ||| holds(or_empty(session.name), query)
    ||| holds(session.command_display, query)
}

/// How the outcome of an execution is written here.
pub open spec fn written_outcome(execution: ExecutionView) -> Seq<char> {
    screen::shown_outcome(execution.outcome, "cancelled | signal "@, ""@)
}

/// Whether an execution is in view while `query` is searched for.
pub open spec fn execution_matches(execution: ExecutionView, query: Seq<char>) -> bool {
    ||| query.len() == 0
    ||| holds(execution.id, query)
    ||| holds(execution.command_display, query)
    ||| holds(execution.cwd, query)
    ||| holds(model::state_name(execution.state), query)
    ||| holds(execution.initiator.kind, query)
    ||| holds(or_empty(execution.initiator.name), query)
    ||| holds(written_outcome(execution), query)
}

/// The sessions that are in view while `query` is searched for.
pub open spec fn sessions_found(sessions: Seq<AgentSessionView>, query: Seq<char>) -> Seq<
    Option<Seq<char>>,
>
    decreases sessions.len(),
{
    if sessions.len() == 0 {
        Seq::empty()
    } else {
        let front = sessions_found(sessions.drop_last(), query);
        if session_matches(sessions.last(), query) {
            front.push(Some(sessions.last().id))
        } else {
            front
        }
    }
}

/// What the list of sessions shows: all work, and below it the sessions.
pub open spec fn visible_sessions(state: OperatorStateView) -> Seq<Option<Seq<char>>> {
    seq![None::<Seq<char>>] + sessions_found(state.sessions, state.query)
}

/// The executions that are shown: those of the selected session, or all.
pub open spec fn scoped(state: OperatorStateView) -> Seq<ExecutionView> {
    match state.detail {
        Some(detail) => detail.executions,
        None => state.workspace_executions,
    }
}

/// The executions that are in view while `query` is searched for.
pub open spec fn executions_found(executions: Seq<ExecutionView>, query: Seq<char>) -> Seq<
    ExecutionView,
>
    decreases executions.len(),
{
    if executions.len() == 0 {
        Seq::empty()
    } else {
        let front = executions_found(executions.drop_last(), query);
        if execution_matches(executions.last(), query) {
            front.push(executions.last())
        } else {
            front
        }
    }
}

/// Executions with the newest first.
pub open spec fn executions_by_age(list: Seq<ExecutionView>) -> Seq<ExecutionView> {
    order::picked(list, order::newest_first(list.map_values(|item: ExecutionView| item.created_at_ms)))
}

/// Sessions with the newest first.
pub open spec fn sessions_by_age(list: Seq<AgentSessionView>) -> Seq<AgentSessionView> {
    order::picked(list, order::newest_first(list.map_values(|item: AgentSessionView| item.created_at_ms)))
}

/// What the list of executions shows, the newest first.
pub open spec fn visible_executions(state: OperatorStateView) -> Seq<Seq<char>> {
    executions_by_age(executions_found(scoped(state), state.query)).map_values(
        |item: ExecutionView| item.id,
    )
}

/// With nothing searched for, all work shows every execution of the workspace,
/// those without a session among them.
pub proof fn all_work_hides_nothing(state: OperatorStateView)
    requires
        state.query.len() == 0,
        state.detail is None,
    ensures
        executions_found(scoped(state), state.query) == state.workspace_executions,
        visible_sessions(state)[0] is None,
{
    nothing_searched_finds_all(state.workspace_executions, state.query);
}

proof fn nothing_searched_finds_all(executions: Seq<ExecutionView>, query: Seq<char>)
    requires
        query.len() == 0,
    ensures
        executions_found(executions, query) == executions,
    decreases executions.len(),
{
    if executions.len() > 0 {
        nothing_searched_finds_all(executions.drop_last(), query);
        assert(executions.drop_last().push(executions.last()) =~= executions);
    }
}

/// The first of a list.
pub open spec fn first_of(list: Seq<Seq<char>>) -> Option<Seq<char>> {
    if list.len() == 0 {
        None
    } else {
        Some(list[0])
    }
}

/// The selection of an execution that is in view: it stays where it is, or
/// goes to the first one.
pub open spec fn selection_kept(state: OperatorStateView) -> Option<Seq<char>> {
    match state.selected_execution_id {
        Some(id) => if visible_executions(state).contains(id) {
            Some(id)
        } else {
            first_of(visible_executions(state))
        },
        None => first_of(visible_executions(state)),
    }
}

/// The view with an execution selected that is in view.
pub open spec fn ensured(state: OperatorStateView) -> OperatorStateView {
    let selected = selection_kept(state);
    if selected == state.selected_execution_id {
        state
    } else {
        OperatorStateView { selected_execution_id: selected, output: output::empty_pane(), ..state }
    }
}

/// What is selected is in view, and something is selected as soon as anything
/// is in view.
pub proof fn the_selection_is_visible(state: OperatorStateView)
    ensures
        match ensured(state).selected_execution_id {
            Some(id) => visible_executions(ensured(state)).contains(id),
            None => visible_executions(ensured(state)).len() == 0,
        },
{
    let seen = visible_executions(state);
    assert(visible_executions(ensured(state)) == seen);
    if seen.len() > 0 {
        assert(seen.contains(seen[0]));
    }
}

/// Where a session stands in a list.
pub open spec fn session_place(sessions: Seq<AgentSessionView>, id: Seq<char>) -> Option<int> {
    order::position(sessions, |session: AgentSessionView| session.id == id)
}

/// The view with what is known now: the selection stays where it can.
pub open spec fn snapshot_applied(
    state: OperatorStateView,
    sessions: Seq<AgentSessionView>,
    executions: Seq<ExecutionView>,
    detail: Option<AgentSessionDetailView>,
) -> OperatorStateView {
    let ordered = sessions_by_age(sessions);
    let selected = match state.selected_session_id {
        Some(id) => if session_place(ordered, id) is Some {
            Some(id)
        } else {
            None
        },
        None => None,
    };
    ensured(
        OperatorStateView {
            sessions: ordered,
            workspace_executions: executions_by_age(executions),
            selected_session_id: selected,
            detail: match detail {
                Some(detail) => if selected == Some(detail.session.id) {
                    Some(detail)
                } else {
                    None
                },
                None => None,
            },
            ..state
        },
    )
}

/// The selected execution.
pub open spec fn chosen_execution(state: OperatorStateView) -> Option<ExecutionView> {
    match state.selected_execution_id {
        Some(id) => match watch::place_of(scoped(state), id) {
            Some(at) => Some(scoped(state)[at]),
            None => None,
        },
        None => None,
    }
}

/// The session that an action is about: the selected one, or the one that the
/// selected execution was started under.
pub open spec fn source_session(state: OperatorStateView) -> Option<Seq<char>> {
    match state.selected_session_id {
        Some(id) => Some(id),
        None => match chosen_execution(state) {
            Some(execution) => execution.initiator.session_id,
            None => None,
        },
    }
}

/// The view with another session selected.
pub open spec fn session_chosen(state: OperatorStateView, id: Option<Seq<char>>) -> (
    OperatorStateView,
    bool,
) {
    if state.selected_session_id == id {
        (state, false)
    } else {
        (
            OperatorStateView {
                selected_session_id: id,
                selected_execution_id: None,
                execution_offset: 0,
                detail: None,
                output: output::empty_pane(),
                ..state
            },
            true,
        )
    }
}

/// The view with another execution selected.
pub open spec fn execution_chosen(state: OperatorStateView, id: Seq<char>) -> (
    OperatorStateView,
    bool,
) {
    if state.selected_execution_id == Some(id) {
        (state, false)
    } else {
        (
            OperatorStateView {
                selected_execution_id: Some(id),
                output: output::empty_pane(),
                ..state
            },
            true,
        )
    }
}

/// Where the selected session stands in what is shown.
pub open spec fn session_row(state: OperatorStateView) -> Option<int> {
    order::position(visible_sessions(state), |id: Option<Seq<char>>| id == state.selected_session_id)
}

/// Whether a text is this one.
pub open spec fn is_text(text: Seq<char>) -> spec_fn(Seq<char>) -> bool {
    |item: Seq<char>| item == text
}

/// Where the selected execution stands in what is shown.
pub open spec fn execution_row(state: OperatorStateView) -> Option<int> {
    match state.selected_execution_id {
        Some(selected) => order::position(visible_executions(state), is_text(selected)),
        None => None,
    }
}

/// Selecting another session in what is shown.
pub open spec fn session_stepped(state: OperatorStateView, amount: int) -> (OperatorStateView, bool) {
    let seen = visible_sessions(state);
    session_chosen(state, seen[watch::moved(session_row(state), amount, seen.len() as int)])
}

/// Selecting another execution in what is shown.
pub open spec fn execution_stepped(state: OperatorStateView, amount: int) -> (
    OperatorStateView,
    bool,
) {
    let seen = visible_executions(state);
    if seen.len() == 0 {
        (state, false)
    } else {
        execution_chosen(state, seen[watch::moved(execution_row(state), amount, seen.len() as int)])
    }
}

/// Moving through what keys go to.
pub open spec fn navigated(state: OperatorStateView, down: bool) -> (
    OperatorStateView,
    CommandView,
) {
    let amount: int = if down {
        1
    } else {
        -1
    };
    match state.focus {
        Focus::Sessions => {
            let (after, did) = session_stepped(state, amount);
            (
                after,
                if did {
                    CommandView::Refresh
                } else {
                    CommandView::Nothing
                },
            )
        },
        Focus::Executions => {
            let (after, did) = execution_stepped(state, amount);
            (
                after,
                if did {
                    CommandView::ReloadOutput
                } else {
                    CommandView::Nothing
                },
            )
        },
        Focus::Output => (
            OperatorStateView {
                output: OutputPaneView {
                    follow: false,
                    scroll: if down {
                        crate::output::bytes_with(state.output.scroll, 1) as usize
                    } else {
                        screen::over(state.output.scroll as int, 1) as usize
                    },
                    ..state.output
                },
                ..state
            },
            CommandView::Nothing,
        ),
    }
}

/// Choosing an agent to start.
pub open spec fn new_agent() -> ModalView {
    ModalView::Agent {
        purpose: AgentModalPurposeView::Launch,
        provider: AgentProvider::Codex,
        field: AgentModalField::Provider,
        prompt: Seq::empty(),
    }
}

/// The view with an event of the selected execution taken in.
pub open spec fn event_taken(
    state: OperatorStateView,
    event: ExecutionEventView,
) -> OperatorStateView {
    let (pane, notice, taken) = output::ingested(
        state.output,
        state.notice,
        seq![event],
        event.seq,
    );
    OperatorStateView {
        output: pane,
        notice,
        error: match taken {
            Ok(_) => state.error,
            Err(failure) => Some(error::error_message(failure)),
        },
        ..state
    }
}

/// The view with what went wrong.
pub open spec fn failure_noted(
    state: OperatorStateView,
    what: Seq<char>,
    failure: ErrorView,
) -> OperatorStateView {
    OperatorStateView { error: Some(what + error::error_message(failure)), ..state }
}

/// The view once it is known how cancelling went.
pub open spec fn cancel_noted(
    state: OperatorStateView,
    answer: Result<(), ErrorView>,
) -> OperatorStateView {
    match answer {
        Ok(_) => noticed(state, "cancel requested"@),
        Err(failure) => failure_noted(state, "cancel failed: "@, failure),
    }
}

/// The view with something said.
pub open spec fn noticed(state: OperatorStateView, notice: Seq<char>) -> OperatorStateView {
    OperatorStateView { notice: Some(notice), ..state }
}

/// The view with something before it.
pub open spec fn with_modal(state: OperatorStateView, modal: Option<ModalView>) -> OperatorStateView {
    OperatorStateView { modal, ..state }
}

/// What an action does. Only what is queued or running can be cancelled, and
/// only once that is confirmed.
pub open spec fn invoked(state: OperatorStateView, action: PaletteAction) -> (
    OperatorStateView,
    CommandView,
) {
    match action {
        PaletteAction::NewAgent => (with_modal(state, Some(new_agent())), CommandView::Nothing),
        PaletteAction::Handoff => match source_session(state) {
            Some(id) => (state, CommandView::PrepareHandoff(id)),
            None => (
                noticed(state, "select a recorded session before handoff"@),
                CommandView::Nothing,
            ),
        },
        PaletteAction::Cancel => (
            match chosen_execution(state) {
                Some(execution) => if watch::cancellable(execution.state) {
                    with_modal(state, Some(ModalView::ConfirmCancel(execution.id)))
                } else {
                    noticed(state, "only queued or running executions can be cancelled"@)
                },
                None => noticed(state, "select an execution first"@),
            },
            CommandView::Nothing,
        ),
        PaletteAction::OpenReplay => match source_session(state) {
            Some(id) => (state, CommandView::OpenReplay(id)),
            None => (
                noticed(state, "select a recorded session first"@),
                CommandView::Nothing,
            ),
        },
        PaletteAction::ExportReplay => match source_session(state) {
            Some(id) => (state, CommandView::ExportReplay(id)),
            None => (
                noticed(state, "select a recorded session first"@),
                CommandView::Nothing,
            ),
        },
        PaletteAction::ToggleFollow => (
            OperatorStateView {
                output: OutputPaneView { follow: !state.output.follow, ..state.output },
                ..state
            },
            CommandView::Nothing,
        ),
        PaletteAction::Refresh => (state, CommandView::Refresh),
        PaletteAction::Help => (with_modal(state, Some(ModalView::Help)), CommandView::Nothing),
        PaletteAction::Quit => (state, CommandView::Quit),
    }
}

/// What a key does while something is searched for.
pub open spec fn search_key(state: OperatorStateView, key: KeyEvent) -> (
    OperatorStateView,
    CommandView,
) {
    match key.code {
        KeyCode::Esc => (
            ensured(OperatorStateView { editing_search: false, ..state }),
            CommandView::ReloadOutput,
        ),
        KeyCode::Enter => (
            ensured(OperatorStateView { editing_search: false, ..state }),
            CommandView::ReloadOutput,
        ),
        KeyCode::Backspace => (
            ensured(OperatorStateView { query: screen::shortened_by_one(state.query), ..state }),
            CommandView::ReloadOutput,
        ),
        KeyCode::Char(c) => if !key.control && !key.alt {
            (
                ensured(OperatorStateView { query: state.query.push(c), ..state }),
                CommandView::ReloadOutput,
            )
        } else {
            (state, CommandView::Nothing)
        },
        _ => (state, CommandView::Nothing),
    }
}

/// What is asked of an agent that is started: nothing where it is blank.
pub open spec fn prompt_of(prompt: Seq<char>) -> Option<Seq<char>> {
    if text::trimmed(prompt).len() == 0 {
        None
    } else {
        Some(text::trimmed(prompt))
    }
}

/// What a key does while an agent is chosen.
pub open spec fn agent_key(
    state: OperatorStateView,
    key: KeyEvent,
    purpose: AgentModalPurposeView,
    provider: AgentProvider,
    field: AgentModalField,
    prompt: Seq<char>,
) -> (OperatorStateView, CommandView) {
    let closed = with_modal(state, None);
    let same = ModalView::Agent { purpose, provider, field, prompt };
    let kept = (with_modal(state, Some(same)), CommandView::Nothing);
    let turned = (
        with_modal(
            state,
            Some(
                ModalView::Agent { purpose, provider: other_provider(provider), field, prompt },
            ),
        ),
        CommandView::Nothing,
    );
    match key.code {
        KeyCode::Esc => (closed, CommandView::Nothing),
        KeyCode::Left => if field == AgentModalField::Provider {
            turned
        } else {
            kept
        },
        KeyCode::Right => if field == AgentModalField::Provider {
            turned
        } else {
            kept
        },
        KeyCode::Tab => if purpose is Launch {
            (
                with_modal(
                    state,
                    Some(
                        ModalView::Agent {
                            purpose,
                            provider,
                            field: match field {
                                AgentModalField::Provider => AgentModalField::Prompt,
                                AgentModalField::Prompt => AgentModalField::Provider,
                            },
                            prompt,
                        },
                    ),
                ),
                CommandView::Nothing,
            )
        } else {
            kept
        },
        KeyCode::Backspace => if field == AgentModalField::Prompt {
            (
                with_modal(
                    state,
                    Some(
                        ModalView::Agent {
                            purpose,
                            provider,
                            field,
                            prompt: screen::shortened_by_one(prompt),
                        },
                    ),
                ),
                CommandView::Nothing,
            )
        } else {
            kept
        },
        KeyCode::Char(c) => if field == AgentModalField::Prompt && !key.control && !key.alt {
            (
                with_modal(
                    state,
                    Some(ModalView::Agent { purpose, provider, field, prompt: prompt.push(c) }),
                ),
                CommandView::Nothing,
            )
        } else {
            kept
        },
        KeyCode::Enter => (
            closed,
            match purpose {
                AgentModalPurposeView::Launch => CommandView::Launch {
                    provider,
                    prompt: prompt_of(prompt),
                },
                AgentModalPurposeView::Handoff {
                    source_session_id,
                    source_provider,
                    active_count,
                    command_preview,
                } => CommandView::Handoff { provider, source_session_id },
            },
        ),
        _ => kept,
    }
}

/// What a key does while the palette is open.
pub open spec fn palette_key(state: OperatorStateView, key: KeyEvent, selected: usize) -> (
    OperatorStateView,
    CommandView,
) {
    let closed = with_modal(state, None);
    let up = with_modal(
        state,
        Some(ModalView::Palette { selected: screen::over(selected as int, 1) as usize }),
    );
    let down = with_modal(
        state,
        Some(
            ModalView::Palette {
                selected: if selected + 1 < PALETTE_SIZE {
                    (selected + 1) as usize
                } else {
                    (PALETTE_SIZE - 1) as usize
                },
            },
        ),
    );
    let kept = with_modal(state, Some(ModalView::Palette { selected }));
    match key.code {
        KeyCode::Esc => (closed, CommandView::Nothing),
        KeyCode::Up => (up, CommandView::Nothing),
        KeyCode::Down => (down, CommandView::Nothing),
        KeyCode::Char(c) => if c == 'k' {
            (up, CommandView::Nothing)
        } else if c == 'j' {
            (down, CommandView::Nothing)
        } else {
            (kept, CommandView::Nothing)
        },
        KeyCode::Enter => invoked(closed, palette()[selected as int]),
        _ => (kept, CommandView::Nothing),
    }
}

/// What a key does while something stands before the view.
pub open spec fn modal_key(state: OperatorStateView, key: KeyEvent) -> (
    OperatorStateView,
    CommandView,
) {
    let closed = with_modal(state, None);
    match state.modal {
        None => (state, CommandView::Nothing),
        Some(ModalView::Help) => (
            if key.code == KeyCode::Esc || key.code == KeyCode::Char('?') {
                closed
            } else {
                state
            },
            CommandView::Nothing,
        ),
        Some(ModalView::ConfirmCancel(id)) => match key.code {
            KeyCode::Char(c) => if c == 'y' || c == 'Y' {
                (closed, CommandView::Cancel(id))
            } else if c == 'n' || c == 'N' {
                (closed, CommandView::Nothing)
            } else {
                (state, CommandView::Nothing)
            },
            KeyCode::Enter => (closed, CommandView::Cancel(id)),
            KeyCode::Esc => (closed, CommandView::Nothing),
            _ => (state, CommandView::Nothing),
        },
        Some(ModalView::Palette { selected }) => palette_key(state, key, selected),
        Some(ModalView::Agent { purpose, provider, field, prompt }) => agent_key(
            state,
            key,
            purpose,
            provider,
            field,
            prompt,
        ),
    }
}

/// What the keys of the view itself do.
pub open spec fn view_key(state: OperatorStateView, key: KeyEvent) -> (
    OperatorStateView,
    CommandView,
) {
    match key.code {
        KeyCode::Tab => (
            OperatorStateView { focus: focus_after(state.focus), ..state },
            CommandView::Nothing,
        ),
        KeyCode::BackTab => (
            OperatorStateView { focus: focus_before(state.focus), ..state },
            CommandView::Nothing,
        ),
        KeyCode::Up => navigated(state, false),
        KeyCode::Down => navigated(state, true),
        KeyCode::Home => (
            if state.focus == Focus::Output {
                OperatorStateView {
                    output: OutputPaneView { follow: false, scroll: 0, ..state.output },
                    ..state
                }
            } else {
                state
            },
            CommandView::Nothing,
        ),
        KeyCode::End => (
            if state.focus == Focus::Output {
                OperatorStateView {
                    output: OutputPaneView { follow: true, ..state.output },
                    ..state
                }
            } else {
                state
            },
            CommandView::Nothing,
        ),
        KeyCode::Enter => (
            OperatorStateView {
                focus: match state.focus {
                    Focus::Sessions => Focus::Executions,
                    Focus::Executions => Focus::Output,
                    Focus::Output => Focus::Output,
                },
                ..state
            },
            CommandView::Nothing,
        ),
        KeyCode::Esc => if state.query.len() > 0 {
            (
                ensured(OperatorStateView { query: Seq::empty(), ..state }),
                CommandView::ReloadOutput,
            )
        } else {
            (state, CommandView::Nothing)
        },
        KeyCode::Char(c) => letter_key(state, c),
        _ => (state, CommandView::Nothing),
    }
}

/// The view with a search begun: it goes over all work.
pub open spec fn search_begun(state: OperatorStateView) -> OperatorStateView {
    ensured(
        OperatorStateView {
            editing_search: true,
            selected_session_id: None,
            detail: None,
            selected_execution_id: None,
            session_offset: 0,
            execution_offset: 0,
            ..state
        },
    )
}

/// What the letters of the view itself do.
pub open spec fn letter_key(state: OperatorStateView, c: char) -> (OperatorStateView, CommandView) {
    if c == 'q' {
        (state, CommandView::Quit)
    } else if c == '/' {
        (search_begun(state), CommandView::ReloadOutput)
    } else if c == ':' {
        (with_modal(state, Some(ModalView::Palette { selected: 0 })), CommandView::Nothing)
    } else if c == '?' {
        (with_modal(state, Some(ModalView::Help)), CommandView::Nothing)
    } else if c == 'k' {
        navigated(state, false)
    } else if c == 'j' {
        navigated(state, true)
    } else if c == 'n' {
        invoked(state, PaletteAction::NewAgent)
    } else if c == 'h' {
        invoked(state, PaletteAction::Handoff)
    } else if c == 'c' {
        invoked(state, PaletteAction::Cancel)
    } else if c == 'o' {
        invoked(state, PaletteAction::OpenReplay)
    } else if c == 'e' {
        invoked(state, PaletteAction::ExportReplay)
    } else if c == 'f' {
        invoked(state, PaletteAction::ToggleFollow)
    } else if c == 'r' {
        (state, CommandView::Refresh)
    } else {
        (state, CommandView::Nothing)
    }
}

/// What a key does: a search takes it first, then what stands before the view,
/// then the view itself. Control and C leave in any case.
pub open spec fn key_handled(state: OperatorStateView, key: KeyEvent) -> (
    OperatorStateView,
    CommandView,
) {
    if !key.press {
        (state, CommandView::Nothing)
    } else if key.control && (key.code == KeyCode::Char('c') || key.code == KeyCode::Char('C')) {
        (state, CommandView::Quit)
    } else if state.editing_search {
        search_key(state, key)
    } else if state.modal is Some {
        modal_key(state, key)
    } else if key.control && (key.code == KeyCode::Char('p') || key.code == KeyCode::Char('P')) {
        (with_modal(state, Some(ModalView::Palette { selected: 0 })), CommandView::Nothing)
    } else {
        view_key(state, key)
    }
}

/// Nothing is cancelled that was not confirmed: a key asks to cancel only the
/// execution that is to be confirmed, and only one that is queued or running
/// comes to be confirmed.
#[verifier::rlimit(80)]
pub proof fn cancelling_is_confirmed(state: OperatorStateView, key: KeyEvent)
    ensures
        key_handled(state, key).1 matches CommandView::Cancel(id) ==> state.modal == Some(
            ModalView::ConfirmCancel(id),
        ),
        key_handled(state, key).0.modal matches Some(ModalView::ConfirmCancel(id)) ==> state.modal
            == Some(ModalView::ConfirmCancel(id)) || (chosen_execution(
            with_modal(state, None),
        ) matches Some(execution) && watch::cancellable(execution.state) && execution.id == id),
{
}

/// The first region of a pane that covers a place.
pub open spec fn pane_at(regions: Seq<HitRegionView>, x: u16, y: u16) -> Option<Focus>
    decreases regions.len(),
{
    if regions.len() == 0 {
        None
    } else if regions[0].target is Pane && screen::covers(regions[0].area, x, y) {
        Some(regions[0].target->Pane_0)
    } else {
        pane_at(regions.drop_first(), x, y)
    }
}

/// What lies under a place: the last region that covers it.
pub open spec fn target_at(regions: Seq<HitRegionView>, x: u16, y: u16) -> Option<HitTargetView>
    decreases regions.len(),
{
    if regions.len() == 0 {
        None
    } else if screen::covers(regions.last().area, x, y) {
        Some(regions.last().target)
    } else {
        target_at(regions.drop_last(), x, y)
    }
}

/// What a click does.
pub open spec fn clicked(state: OperatorStateView, target: Option<HitTargetView>) -> (
    OperatorStateView,
    CommandView,
) {
    match target {
        None => (state, CommandView::Nothing),
        Some(HitTargetView::Pane(focus)) => (
            OperatorStateView { focus, ..state },
            CommandView::Nothing,
        ),
        Some(HitTargetView::AllWork) => {
            let (after, did) = session_chosen(
                OperatorStateView { focus: Focus::Sessions, ..state },
                None,
            );
            (
                after,
                if did {
                    CommandView::Refresh
                } else {
                    CommandView::Nothing
                },
            )
        },
        Some(HitTargetView::Session(id)) => {
            let (after, did) = session_chosen(
                OperatorStateView { focus: Focus::Sessions, ..state },
                Some(id),
            );
            (
                after,
                if did {
                    CommandView::Refresh
                } else {
                    CommandView::Nothing
                },
            )
        },
        Some(HitTargetView::Execution(id)) => {
            let (after, did) = execution_chosen(
                OperatorStateView { focus: Focus::Executions, ..state },
                id,
            );
            (
                after,
                if did {
                    CommandView::ReloadOutput
                } else {
                    CommandView::Nothing
                },
            )
        },
    }
}

/// What the mouse does: a click selects what lies under it, and the wheel moves
/// through the pane under it.
pub open spec fn mouse_handled(state: OperatorStateView, event: MouseEvent) -> (
    OperatorStateView,
    CommandView,
) {
    let over_pane = match pane_at(state.hit_regions, event.column, event.row) {
        Some(focus) => OperatorStateView { focus, ..state },
        None => state,
    };
    match event.kind {
        MouseKind::LeftDown => clicked(
            state,
            target_at(state.hit_regions, event.column, event.row),
        ),
        MouseKind::ScrollUp => navigated(over_pane, false),
        MouseKind::ScrollDown => navigated(over_pane, true),
        MouseKind::Other => (state, CommandView::Nothing),
    }
}

fn holds_text(field: &str, folded_query: &str, Ghost(query): Ghost<Seq<char>>) -> (found: bool)
    requires
        folded_query@ == order::ascii_folded(query),
    ensures
        found == holds(field@, query),
{
    contains_text(ascii_fold(field).as_str(), folded_query)
}

fn same_choice(left: &Option<String>, right: &Option<String>) -> (same: bool)
    ensures
        same == (text::maybe_text(*left) == text::maybe_text(*right)),
{
    match (left, right) {
        (Some(a), Some(b)) => same_text(a.as_str(), b.as_str()),
        (None, None) => true,
        _ => false,
    }
}

/// The views of a list of choices.
pub open spec fn choice_views(list: Seq<Option<String>>) -> Seq<Option<Seq<char>>> {
    list.map_values(|item: Option<String>| text::maybe_text(item))
}

/// Finds where a session stands in a list.
pub fn find_session(sessions: &Vec<AgentSession>, id: &str) -> (place: Option<usize>)
    ensures
        order::place_view(place) == session_place(
            sessions@.map_values(|item: AgentSession| item@),
            id@,
        ),
        place matches Some(at) ==> at < sessions.len(),
{
    let ghost all = sessions@.map_values(|item: AgentSession| item@);
    let ghost test = |session: AgentSessionView| session.id == id@;
    let mut i: usize = 0;
    while i < sessions.len()
        invariant
            i <= sessions.len(),
            all == sessions@.map_values(|item: AgentSession| item@),
            test == (|session: AgentSessionView| session.id == id@),
            forall|k: int| 0 <= k < i ==> !test(#[trigger] all[k]),
        decreases sessions.len() - i,
    {
        assert(all[i as int] == sessions@[i as int]@);
        if same_text(sessions[i].id.as_str(), id) {
            proof {
                order::position_found(all, test, i as int);
            }
            return Some(i);
        }
        i += 1;
    }
    proof {
        order::position_missing(all, test);
    }
    None
}

fn sessions_in_order(sessions: &Vec<AgentSession>) -> (ordered: Vec<AgentSession>)
    ensures
        ordered@.map_values(|item: AgentSession| item@) == sessions_by_age(
            sessions@.map_values(|item: AgentSession| item@),
        ),
{
    let ghost all = sessions@.map_values(|item: AgentSession| item@);
    let ghost ages = all.map_values(|item: AgentSessionView| item.created_at_ms);
    let mut times: Vec<i64> = Vec::new();
    let mut i: usize = 0;
    while i < sessions.len()
        invariant
            i <= sessions.len(),
            times.len() == i,
            all == sessions@.map_values(|item: AgentSession| item@),
            forall|k: int| 0 <= k < i ==> #[trigger] times@[k] == sessions@[k]@.created_at_ms,
        decreases sessions.len() - i,
    {
        times.push(sessions[i].created_at_ms);
        i += 1;
    }
    assert(times@ =~= ages);
    let order = order_newest(&times);
    proof {
        crate::order::order_is_complete(
            ages.len(),
            crate::order::key_above(crate::order::newest_keys(ages)),
        );
        assert(order.len() == order::places(order@).len());
        assert forall|j: int| 0 <= j < order.len() implies #[trigger] order@[j] < sessions.len() by {
            assert(order::places(order@)[j] == order@[j] as int);
        }
    }
    let mut ordered: Vec<AgentSession> = Vec::new();
    let mut k: usize = 0;
    while k < order.len()
        invariant
            k <= order.len(),
            ordered.len() == k,
            all == sessions@.map_values(|item: AgentSession| item@),
            order::places(order@) == order::newest_first(ages),
            forall|j: int| 0 <= j < order.len() ==> #[trigger] order@[j] < sessions.len(),
            forall|j: int|
                0 <= j < k ==> (#[trigger] ordered@[j])@ == sessions@[order@[j] as int]@,
        decreases order.len() - k,
    {
        ordered.push(sessions[order[k]].clone());
        k += 1;
    }
    proof {
        let want = sessions_by_age(all);
        assert(ordered@.map_values(|item: AgentSession| item@).len() == want.len());
        assert forall|j: int| 0 <= j < want.len() implies ordered@.map_values(
            |item: AgentSession| item@,
        )[j] == want[j] by {
            assert(order::places(order@)[j] == order@[j] as int);
            assert(ordered@[j]@ == sessions@[order@[j] as int]@);
        }
        assert(ordered@.map_values(|item: AgentSession| item@) =~= want);
    }
    ordered
}

fn executions_in_order(executions: &Vec<Execution>) -> (ordered: Vec<Execution>)
    ensures
        ordered@.map_values(|item: Execution| item@) == executions_by_age(
            executions@.map_values(|item: Execution| item@),
        ),
{
    let ghost all = executions@.map_values(|item: Execution| item@);
    let ghost ages = all.map_values(|item: ExecutionView| item.created_at_ms);
    let mut times: Vec<i64> = Vec::new();
    let mut i: usize = 0;
    while i < executions.len()
        invariant
            i <= executions.len(),
            times.len() == i,
            all == executions@.map_values(|item: Execution| item@),
            forall|k: int| 0 <= k < i ==> #[trigger] times@[k] == executions@[k]@.created_at_ms,
        decreases executions.len() - i,
    {
        times.push(executions[i].created_at_ms);
        i += 1;
    }
    assert(times@ =~= ages);
    let order = order_newest(&times);
    proof {
        crate::order::order_is_complete(
            ages.len(),
            crate::order::key_above(crate::order::newest_keys(ages)),
        );
        assert(order.len() == order::places(order@).len());
        assert forall|j: int| 0 <= j < order.len() implies #[trigger] order@[j] < executions.len() by {
            assert(order::places(order@)[j] == order@[j] as int);
        }
    }
    let mut ordered: Vec<Execution> = Vec::new();
    let mut k: usize = 0;
    while k < order.len()
        invariant
            k <= order.len(),
            ordered.len() == k,
            all == executions@.map_values(|item: Execution| item@),
            order::places(order@) == order::newest_first(ages),
            forall|j: int| 0 <= j < order.len() ==> #[trigger] order@[j] < executions.len(),
            forall|j: int|
                0 <= j < k ==> (#[trigger] ordered@[j])@ == executions@[order@[j] as int]@,
        decreases order.len() - k,
    {
        ordered.push(executions[order[k]].clone());
        k += 1;
    }
    proof {
        let want = executions_by_age(all);
        assert(ordered@.map_values(|item: Execution| item@).len() == want.len());
        assert forall|j: int| 0 <= j < want.len() implies ordered@.map_values(
            |item: Execution| item@,
        )[j] == want[j] by {
            assert(order::places(order@)[j] == order@[j] as int);
            assert(ordered@[j]@ == executions@[order@[j] as int]@);
        }
        assert(ordered@.map_values(|item: Execution| item@) =~= want);
    }
    ordered
}

fn text_place(list: &Vec<String>, text: &str) -> (place: Option<usize>)
    ensures
        order::place_view(place) == order::position(crate::text::texts(list@), is_text(text@)),
        place matches Some(at) ==> at < list.len(),
        (place is Some) == crate::text::texts(list@).contains(text@),
{
    let ghost all = crate::text::texts(list@);
    let ghost test = is_text(text@);
    let mut i: usize = 0;
    while i < list.len()
        invariant
            i <= list.len(),
            all == crate::text::texts(list@),
            test == is_text(text@),
            forall|k: int| 0 <= k < i ==> !test(#[trigger] all[k]),
        decreases list.len() - i,
    {
        assert(all[i as int] == list@[i as int]@);
        if same_text(list[i].as_str(), text) {
            proof {
                order::position_found(all, test, i as int);
                assert(all.contains(text@));
            }
            return Some(i);
        }
        i += 1;
    }
    proof {
        order::position_missing(all, test);
        if all.contains(text@) {
            let k = choose|k: int| 0 <= k < all.len() && all[k] == text@;
            assert(test(all[k]));
        }
    }
    None
}

fn stepped(current: Option<usize>, down: bool, count: usize) -> (next: usize)
    requires
        count > 0,
        current matches Some(at) ==> at < count,
    ensures
        next == watch::moved(
            order::place_view(current),
            if down {
                1
            } else {
                -1
            },
            count as int,
        ),
        next < count,
{
    let from: usize = match current {
        Some(at) => at,
        None => 0,
    };
    if down {
        if from + 1 < count {
            from + 1
        } else {
            count - 1
        }
    } else if from > 0 {
        from - 1
    } else {
        0
    }
}

impl OperatorState {
    /// The view as it begins.
    pub fn new(options: UiOptions) -> (state: OperatorState)
        ensures
            state@ == beginning(options@),
            steady(state@),
    {
        let sessions: Vec<AgentSession> = Vec::new();
        let workspace_executions: Vec<Execution> = Vec::new();
        let hit_regions: Vec<HitRegion> = Vec::new();
        let query = String::new();
        proof {
            assert(sessions@.map_values(|item: AgentSession| item@) =~= Seq::empty());
            assert(workspace_executions@.map_values(|item: Execution| item@) =~= Seq::empty());
            assert(hit_regions@.map_values(|item: HitRegion| item@) =~= Seq::empty());
            assert(query@ =~= Seq::empty());
        }
        OperatorState {
            workspace: options.workspace,
            sessions,
            workspace_executions,
            detail: None,
            selected_session_id: options.selected_session_id,
            selected_execution_id: None,
            session_offset: 0,
            execution_offset: 0,
            focus: Focus::Sessions,
            query,
            editing_search: false,
            output: OutputPane::new(),
            modal: None,
            notice: options.notice,
            error: None,
            hit_regions,
            claude_label: options.claude_label,
        }
    }

    /// The executions that are shown.
    pub fn scoped_executions(&self) -> (list: &Vec<Execution>)
        ensures
            list@.map_values(|item: Execution| item@) == scoped(self@),
    {
        match &self.detail {
            Some(detail) => &detail.executions,
            None => &self.workspace_executions,
        }
    }

    /// Whether a session is in view.
    pub fn matches_session(&self, session: &AgentSession) -> (yes: bool)
        ensures
            yes == session_matches(session@, self@.query),
    {
        if self.query.as_str().is_empty() {
            return true;
        }
        let folded = ascii_fold(self.query.as_str());
        let query = folded.as_str();
        let ghost q = self@.query;
        let name = match &session.name {
            Some(name) => name.clone(),
            None => String::new(),
        };
        assert(name@ =~= or_empty(session@.name));
        holds_text(session.id.as_str(), query, Ghost(q)) || holds_text(
            session.agent_kind.as_str(),
            query,
            Ghost(q),
        ) || holds_text(session.state.as_str(), query, Ghost(q)) || holds_text(
            name.as_str(),
            query,
            Ghost(q),
        ) || holds_text(session.command_display.as_str(), query, Ghost(q))
    }

    /// Whether an execution is in view.
    pub fn matches_execution(&self, execution: &Execution) -> (yes: bool)
        ensures
            yes == execution_matches(execution@, self@.query),
    {
        if self.query.as_str().is_empty() {
            return true;
        }
        let folded = ascii_fold(self.query.as_str());
        let query = folded.as_str();
        let ghost q = self@.query;
        let name = match &execution.initiator.name {
            Some(name) => name.clone(),
            None => String::new(),
        };
        assert(name@ =~= or_empty(execution@.initiator.name));
        let outcome = format_outcome(&execution.outcome, "cancelled | signal ", "");
        assert(outcome@ == written_outcome(execution@));
        holds_text(execution.id.as_str(), query, Ghost(q)) || holds_text(
            execution.command_display.as_str(),
            query,
            Ghost(q),
        ) || holds_text(execution.cwd.as_str(), query, Ghost(q)) || holds_text(
            execution.state.as_str(),
            query,
            Ghost(q),
        ) || holds_text(execution.initiator.kind.as_str(), query, Ghost(q)) || holds_text(
            name.as_str(),
            query,
            Ghost(q),
        ) || holds_text(outcome.as_str(), query, Ghost(q))
    }

    /// What the list of sessions shows; nothing stands for all work.
    pub fn visible_session_ids(&self) -> (items: Vec<Option<String>>)
        ensures
            choice_views(items@) == visible_sessions(self@),
            items.len() > 0,
    {
        let ghost all = self@.sessions;
        let mut items: Vec<Option<String>> = Vec::new();
        items.push(None);
        let ghost top = seq![None::<Seq<char>>];
        let mut i: usize = 0;
        assert(all.take(0) =~= Seq::empty());
        assert(choice_views(items@) =~= top + sessions_found(all.take(0), self@.query));
        while i < self.sessions.len()
            invariant
                i <= self.sessions.len(),
                all == self@.sessions,
                all == self.sessions@.map_values(|item: AgentSession| item@),
                top == seq![None::<Seq<char>>],
                items.len() > 0,
                choice_views(items@) == top + sessions_found(all.take(i as int), self@.query),
            decreases self.sessions.len() - i,
        {
            let ghost front = sessions_found(all.take(i as int), self@.query);
            let ghost before = choice_views(items@);
            proof {
                assert(all.take(i + 1).drop_last() =~= all.take(i as int));
                assert(all.take(i + 1).last() == self.sessions@[i as int]@);
            }
            if self.matches_session(&self.sessions[i]) {
                let id = self.sessions[i].id.clone();
                let ghost view = Some(id@);
                items.push(Some(id));
                assert(choice_views(items@) =~= before.push(view));
                assert(top + front.push(view) =~= before.push(view));
            }
            i += 1;
        }
        assert(all.take(i as int) =~= all);
        items
    }

    /// What the list of executions shows.
    pub fn visible_execution_ids(&self) -> (ids: Vec<String>)
        ensures
            crate::text::texts(ids@) == visible_executions(self@),
    {
        let list = self.scoped_executions();
        let ghost all = scoped(self@);
        let mut found: Vec<Execution> = Vec::new();
        let mut i: usize = 0;
        assert(all.take(0) =~= Seq::empty());
        assert(found@.map_values(|item: Execution| item@) =~= Seq::empty());
        while i < list.len()
            invariant
                i <= list.len(),
                all == list@.map_values(|item: Execution| item@),
                found@.map_values(|item: Execution| item@) == executions_found(
                    all.take(i as int),
                    self@.query,
                ),
            decreases list.len() - i,
        {
            let ghost before = found@.map_values(|item: Execution| item@);
            proof {
                assert(all.take(i + 1).drop_last() =~= all.take(i as int));
                assert(all.take(i + 1).last() == list@[i as int]@);
            }
            if self.matches_execution(&list[i]) {
                found.push(list[i].clone());
                assert(found@.map_values(|item: Execution| item@) =~= before.push(
                    list@[i as int]@,
                ));
            }
            i += 1;
        }
        assert(all.take(i as int) =~= all);
        let ordered = executions_in_order(&found);
        let ghost views = ordered@.map_values(|item: Execution| item@);
        let mut ids: Vec<String> = Vec::new();
        let mut k: usize = 0;
        while k < ordered.len()
            invariant
                k <= ordered.len(),
                ids.len() == k,
                views == ordered@.map_values(|item: Execution| item@),
                forall|j: int| 0 <= j < k ==> (#[trigger] ids@[j])@ == ordered@[j]@.id,
            decreases ordered.len() - k,
        {
            ids.push(ordered[k].id.clone());
            k += 1;
        }
        assert(crate::text::texts(ids@) =~= views.map_values(|item: ExecutionView| item.id));
        ids
    }

    /// Selects an execution that is in view, and says whether the selection
    /// changed.
    pub fn ensure_execution_selection(&mut self) -> (changed: bool)
        ensures
            final(self)@ == ensured(old(self)@),
            changed == (final(self)@.selected_execution_id != old(self)@.selected_execution_id),
    {
        let visible = self.visible_execution_ids();
        let ghost seen = visible_executions(self@);
        match &self.selected_execution_id {
            Some(id) => {
                match text_place(&visible, id.as_str()) {
                    Some(_) => {
                        return false;
                    },
                    None => {},
                }
            },
            None => {},
        }
        let next = if visible.len() == 0 {
            None
        } else {
            assert(seen[0] == visible@[0]@);
            Some(visible[0].clone())
        };
        if same_choice(&next, &self.selected_execution_id) {
            return false;
        }
        self.selected_execution_id = next;
        self.output.reset();
        true
    }

    /// Takes what is known now, and says whether the selection of an execution
    /// changed.
    pub fn apply_snapshot(
        &mut self,
        sessions: Vec<AgentSession>,
        executions: Vec<Execution>,
        detail: Option<AgentSessionDetail>,
    ) -> (changed: bool)
        ensures
            final(self)@ == snapshot_applied(
                old(self)@,
                sessions@.map_values(|item: AgentSession| item@),
                executions@.map_values(|item: Execution| item@),
                match detail {
                    Some(detail) => Some(detail@),
                    None => None,
                },
            ),
            changed == (final(self)@.selected_execution_id != old(self)@.selected_execution_id),
    {
        self.sessions = sessions_in_order(&sessions);
        self.workspace_executions = executions_in_order(&executions);
        let gone = match &self.selected_session_id {
            Some(id) => find_session(&self.sessions, id.as_str()).is_none(),
            None => false,
        };
        if gone {
            self.selected_session_id = None;
        }
        self.detail = match detail {
            Some(detail) => {
                let wanted = match &self.selected_session_id {
                    Some(id) => same_text(id.as_str(), detail.session.id.as_str()),
                    None => false,
                };
                if wanted {
                    Some(detail)
                } else {
                    None
                }
            },
            None => None,
        };
        self.ensure_execution_selection()
    }

    /// The session to load along with the lists: the selected one, where it is
    /// still there.
    pub fn session_to_load(&mut self, sessions: &Vec<AgentSession>) -> (id: Option<String>)
        ensures
            text::maybe_text(id) == final(self)@.selected_session_id,
            final(self)@ == (OperatorStateView {
                selected_session_id: match old(self)@.selected_session_id {
                    Some(id) => if session_place(
                        sessions@.map_values(|item: AgentSession| item@),
                        id,
                    ) is Some {
                        Some(id)
                    } else {
                        None
                    },
                    None => None,
                },
                ..old(self)@
            }),
    {
        let gone = match &self.selected_session_id {
            Some(id) => find_session(sessions, id.as_str()).is_none(),
            None => false,
        };
        if gone {
            self.selected_session_id = None;
        }
        clone_maybe(&self.selected_session_id)
    }

    /// Where the selected execution stands.
    pub fn selected_execution_place(&self) -> (place: Option<usize>)
        ensures
            place matches Some(at) ==> at < scoped(self@).len() && chosen_execution(self@)
                == Some(scoped(self@)[at as int]),
            place is None ==> chosen_execution(self@) is None,
    {
        match &self.selected_execution_id {
            Some(id) => {
                let list = self.scoped_executions();
                assert(list@.map_values(|item: Execution| item@).len() == list.len());
                find_execution(list, id.as_str())
            },
            None => None,
        }
    }

    /// The session that an action is about.
    pub fn selected_source_session_id(&self) -> (id: Option<String>)
        ensures
            text::maybe_text(id) == source_session(self@),
    {
        match &self.selected_session_id {
            Some(id) => Some(id.clone()),
            None => match self.selected_execution_place() {
                Some(at) => {
                    let list = self.scoped_executions();
                    assert(list@.map_values(|item: Execution| item@)[at as int]
                        == list@[at as int]@);
                    clone_maybe(&list[at].initiator.session_id)
                },
                None => None,
            },
        }
    }

    /// Selects a session, and says whether it was another one.
    pub fn select_session(&mut self, id: Option<String>) -> (did: bool)
        ensures
            (final(self)@, did) == session_chosen(old(self)@, text::maybe_text(id)),
    {
        if same_choice(&self.selected_session_id, &id) {
            return false;
        }
        self.selected_session_id = id;
        self.selected_execution_id = None;
        self.execution_offset = 0;
        self.detail = None;
        self.output.reset();
        true
    }

    /// Selects an execution, and says whether it was another one.
    pub fn select_execution(&mut self, id: String) -> (did: bool)
        ensures
            (final(self)@, did) == execution_chosen(old(self)@, id@),
    {
        match &self.selected_execution_id {
            Some(selected) => {
                if same_text(selected.as_str(), id.as_str()) {
                    return false;
                }
            },
            None => {},
        }
        self.selected_execution_id = Some(id);
        self.output.reset();
        true
    }

    /// Where the selected session stands in what is shown.
    pub fn session_row(&self, visible: &Vec<Option<String>>) -> (row: Option<usize>)
        requires
            choice_views(visible@) == visible_sessions(self@),
        ensures
            order::place_view(row) == session_row(self@),
            row matches Some(at) ==> at < visible.len(),
    {
        let ghost all = visible_sessions(self@);
        let ghost test = |id: Option<Seq<char>>| id == self@.selected_session_id;
        let mut i: usize = 0;
        while i < visible.len()
            invariant
                i <= visible.len(),
                all == choice_views(visible@),
                test == (|id: Option<Seq<char>>| id == self@.selected_session_id),
                forall|k: int| 0 <= k < i ==> !test(#[trigger] all[k]),
            decreases visible.len() - i,
        {
            assert(all[i as int] == text::maybe_text(visible@[i as int]));
            if same_choice(&visible[i], &self.selected_session_id) {
                proof {
                    order::position_found(all, test, i as int);
                }
                return Some(i);
            }
            i += 1;
        }
        proof {
            order::position_missing(all, test);
        }
        None
    }

    /// Where the selected execution stands in what is shown.
    pub fn execution_row(&self, visible: &Vec<String>) -> (row: Option<usize>)
        requires
            crate::text::texts(visible@) == visible_executions(self@),
        ensures
            order::place_view(row) == execution_row(self@),
            row matches Some(at) ==> at < visible.len(),
    {
        match &self.selected_execution_id {
            Some(selected) => text_place(visible, selected.as_str()),
            None => None,
        }
    }

    fn step_session(&mut self, down: bool) -> (did: bool)
        ensures
            (final(self)@, did) == session_stepped(
                old(self)@,
                if down {
                    1
                } else {
                    -1
                },
            ),
    {
        let visible = self.visible_session_ids();
        let ghost seen = visible_sessions(self@);
        assert(seen.len() == visible.len());
        let next = stepped(self.session_row(&visible), down, visible.len());
        assert(seen[next as int] == text::maybe_text(visible@[next as int]));
        self.select_session(clone_maybe(&visible[next]))
    }

    fn step_execution(&mut self, down: bool) -> (did: bool)
        ensures
            (final(self)@, did) == execution_stepped(
                old(self)@,
                if down {
                    1
                } else {
                    -1
                },
            ),
    {
        let visible = self.visible_execution_ids();
        let ghost seen = visible_executions(self@);
        assert(seen.len() == visible.len());
        if visible.len() == 0 {
            return false;
        }
        let next = stepped(self.execution_row(&visible), down, visible.len());
        assert(seen[next as int] == visible@[next as int]@);
        self.select_execution(visible[next].clone())
    }

    /// Moves through what keys go to.
    pub fn navigate(&mut self, down: bool) -> (command: Command)
        ensures
            (final(self)@, command@) == navigated(old(self)@, down),
    {
        match self.focus {
            Focus::Sessions => {
                if self.step_session(down) {
                    Command::Refresh
                } else {
                    Command::Nothing
                }
            },
            Focus::Executions => {
                if self.step_execution(down) {
                    Command::ReloadOutput
                } else {
                    Command::Nothing
                }
            },
            Focus::Output => {
                self.output.move_by_one(down);
                Command::Nothing
            },
        }
    }

    fn cancel_action(&mut self)
        ensures
            final(self)@ == invoked(old(self)@, PaletteAction::Cancel).0,
    {
        match self.selected_execution_place() {
            Some(at) => {
                let list = self.scoped_executions();
                assert(list@.map_values(|item: Execution| item@)[at as int] == list@[at as int]@);
                let state = list[at].state;
                let id = list[at].id.clone();
                if state == ExecutionState::Queued || state == ExecutionState::Running {
                    self.modal = Some(Modal::ConfirmCancel(id));
                } else {
                    self.notice = Some(
                        "only queued or running executions can be cancelled".to_owned(),
                    );
                }
            },
            None => {
                self.notice = Some("select an execution first".to_owned());
            },
        }
    }

    /// Does what an action does.
    pub fn invoke(&mut self, action: PaletteAction) -> (command: Command)
        ensures
            (final(self)@, command@) == invoked(old(self)@, action),
    {
        match action {
            PaletteAction::NewAgent => {
                let prompt = String::new();
                assert(prompt@ =~= Seq::empty());
                self.modal = Some(
                    Modal::Agent {
                        purpose: AgentModalPurpose::Launch,
                        provider: AgentProvider::Codex,
                        field: AgentModalField::Provider,
                        prompt,
                    },
                );
                Command::Nothing
            },
            PaletteAction::Handoff => match self.selected_source_session_id() {
                Some(id) => Command::PrepareHandoff(id),
                None => {
                    self.notice = Some("select a recorded session before handoff".to_owned());
                    Command::Nothing
                },
            },
            PaletteAction::Cancel => {
                self.cancel_action();
                Command::Nothing
            },
            PaletteAction::OpenReplay => match self.selected_source_session_id() {
                Some(id) => Command::OpenReplay(id),
                None => {
                    self.notice = Some("select a recorded session first".to_owned());
                    Command::Nothing
                },
            },
            PaletteAction::ExportReplay => match self.selected_source_session_id() {
                Some(id) => Command::ExportReplay(id),
                None => {
                    self.notice = Some("select a recorded session first".to_owned());
                    Command::Nothing
                },
            },
            PaletteAction::ToggleFollow => {
                self.output.follow = !self.output.follow;
                Command::Nothing
            },
            PaletteAction::Refresh => Command::Refresh,
            PaletteAction::Help => {
                self.modal = Some(Modal::Help);
                Command::Nothing
            },
            PaletteAction::Quit => Command::Quit,
        }
    }

    /// Does what a key does while something is searched for.
    pub fn handle_search_key(&mut self, key: KeyEvent) -> (command: Command)
        ensures
            (final(self)@, command@) == search_key(old(self)@, key),
    {
        match key.code {
            KeyCode::Esc => {
                self.editing_search = false;
            },
            KeyCode::Enter => {
                self.editing_search = false;
            },
            KeyCode::Backspace => {
                self.query = without_last(self.query.as_str());
            },
            KeyCode::Char(c) => {
                if key.control || key.alt {
                    return Command::Nothing;
                }
                self.query.push(c);
            },
            _ => {
                return Command::Nothing;
            },
        }
        let _ = self.ensure_execution_selection();
        Command::ReloadOutput
    }

    fn handle_palette_key(&mut self, key: KeyEvent, selected: usize) -> (command: Command)
        requires
            old(self)@.modal is None,
            selected < PALETTE_SIZE,
        ensures
            (final(self)@, command@) == palette_key(old(self)@, key, selected),
    {
        let mut next: usize = selected;
        match key.code {
            KeyCode::Esc => {
                return Command::Nothing;
            },
            KeyCode::Enter => {
                return self.invoke(PaletteAction::at(selected));
            },
            KeyCode::Up => {
                next = selected.saturating_sub(1);
            },
            KeyCode::Down => {
                next = if selected + 1 < PALETTE_SIZE {
                    selected + 1
                } else {
                    PALETTE_SIZE - 1
                };
            },
            KeyCode::Char(c) => {
                if c == 'k' {
                    next = selected.saturating_sub(1);
                } else if c == 'j' {
                    next = if selected + 1 < PALETTE_SIZE {
                        selected + 1
                    } else {
                        PALETTE_SIZE - 1
                    };
                }
            },
            _ => {},
        }
        self.modal = Some(Modal::Palette { selected: next });
        Command::Nothing
    }

    fn handle_agent_key(
        &mut self,
        key: KeyEvent,
        purpose: AgentModalPurpose,
        provider: AgentProvider,
        field: AgentModalField,
        prompt: String,
    ) -> (command: Command)
        requires
            old(self)@.modal is None,
        ensures
            (final(self)@, command@) == agent_key(
                old(self)@,
                key,
                purpose@,
                provider,
                field,
                prompt@,
            ),
    {
        let mut provider = provider;
        let mut field = field;
        let mut prompt = prompt;
        match key.code {
            KeyCode::Esc => {
                return Command::Nothing;
            },
            KeyCode::Left => {
                if field == AgentModalField::Provider {
                    provider = provider.toggled();
                }
            },
            KeyCode::Right => {
                if field == AgentModalField::Provider {
                    provider = provider.toggled();
                }
            },
            KeyCode::Tab => match &purpose {
                AgentModalPurpose::Launch => {
                    field = match field {
                        AgentModalField::Provider => AgentModalField::Prompt,
                        AgentModalField::Prompt => AgentModalField::Provider,
                    };
                },
                _ => {},
            },
            KeyCode::Backspace => {
                if field == AgentModalField::Prompt {
                    prompt = without_last(prompt.as_str());
                }
            },
            KeyCode::Char(c) => {
                if field == AgentModalField::Prompt && !key.control && !key.alt {
                    prompt.push(c);
                }
            },
            KeyCode::Enter => {
                return match purpose {
                    AgentModalPurpose::Launch => {
                        let asked = trim(prompt.as_str());
                        if asked.as_str().is_empty() {
                            Command::Launch { provider, prompt: None }
                        } else {
                            Command::Launch { provider, prompt: Some(asked) }
                        }
                    },
                    AgentModalPurpose::Handoff {
                        source_session_id,
                        source_provider,
                        active_count,
                        command_preview,
                    } => Command::Handoff { provider, source_session_id },
                };
            },
            _ => {},
        }
        self.modal = Some(Modal::Agent { purpose, provider, field, prompt });
        Command::Nothing
    }

    /// Does what a key does while something stands before the view.
    pub fn handle_modal_key(&mut self, key: KeyEvent) -> (command: Command)
        requires
            steady(old(self)@),
        ensures
            (final(self)@, command@) == modal_key(old(self)@, key),
            steady(final(self)@),
    {
        let ghost start = self@;
        let modal = match self.modal.take() {
            Some(modal) => modal,
            None => {
                return Command::Nothing;
            },
        };
        assert(self@ == with_modal(start, None));
        match modal {
            Modal::Help => {
                let closes = match key.code {
                    KeyCode::Esc => true,
                    KeyCode::Char(c) => c == '?',
                    _ => false,
                };
                if !closes {
                    self.modal = Some(Modal::Help);
                }
                Command::Nothing
            },
            Modal::ConfirmCancel(id) => {
                match key.code {
                    KeyCode::Char(c) => {
                        if c == 'y' || c == 'Y' {
                            return Command::Cancel(id);
                        }
                        if c == 'n' || c == 'N' {
                            return Command::Nothing;
                        }
                    },
                    KeyCode::Enter => {
                        return Command::Cancel(id);
                    },
                    KeyCode::Esc => {
                        return Command::Nothing;
                    },
                    _ => {},
                }
                self.modal = Some(Modal::ConfirmCancel(id));
                Command::Nothing
            },
            Modal::Palette { selected } => self.handle_palette_key(key, selected),
            Modal::Agent { purpose, provider, field, prompt } => self.handle_agent_key(
                key,
                purpose,
                provider,
                field,
                prompt,
            ),
        }
    }

    fn begin_search(&mut self)
        ensures
            final(self)@ == search_begun(old(self)@),
    {
        self.editing_search = true;
        self.selected_session_id = None;
        self.detail = None;
        self.selected_execution_id = None;
        self.session_offset = 0;
        self.execution_offset = 0;
        let _ = self.ensure_execution_selection();
    }

    fn handle_letter(&mut self, c: char) -> (command: Command)
        ensures
            (final(self)@, command@) == letter_key(old(self)@, c),
    {
        if c == 'q' {
            Command::Quit
        } else if c == '/' {
            self.begin_search();
            Command::ReloadOutput
        } else if c == ':' {
            self.modal = Some(Modal::Palette { selected: 0 });
            Command::Nothing
        } else if c == '?' {
            self.modal = Some(Modal::Help);
            Command::Nothing
        } else if c == 'k' {
            self.navigate(false)
        } else if c == 'j' {
            self.navigate(true)
        } else if c == 'n' {
            self.invoke(PaletteAction::NewAgent)
        } else if c == 'h' {
            self.invoke(PaletteAction::Handoff)
        } else if c == 'c' {
            self.invoke(PaletteAction::Cancel)
        } else if c == 'o' {
            self.invoke(PaletteAction::OpenReplay)
        } else if c == 'e' {
            self.invoke(PaletteAction::ExportReplay)
        } else if c == 'f' {
            self.invoke(PaletteAction::ToggleFollow)
        } else if c == 'r' {
            Command::Refresh
        } else {
            Command::Nothing
        }
    }

    fn handle_view_key(&mut self, key: KeyEvent) -> (command: Command)
        ensures
            (final(self)@, command@) == view_key(old(self)@, key),
    {
        match key.code {
            KeyCode::Tab => {
                self.focus = self.focus.next();
                Command::Nothing
            },
            KeyCode::BackTab => {
                self.focus = self.focus.previous();
                Command::Nothing
            },
            KeyCode::Up => self.navigate(false),
            KeyCode::Down => self.navigate(true),
            KeyCode::Home => {
                if self.focus == Focus::Output {
                    self.output.follow = false;
                    self.output.scroll = 0;
                }
                Command::Nothing
            },
            KeyCode::End => {
                if self.focus == Focus::Output {
                    self.output.follow = true;
                }
                Command::Nothing
            },
            KeyCode::Enter => {
                self.focus = match self.focus {
                    Focus::Sessions => Focus::Executions,
                    Focus::Executions => Focus::Output,
                    Focus::Output => Focus::Output,
                };
                Command::Nothing
            },
            KeyCode::Esc => {
                if self.query.as_str().is_empty() {
                    Command::Nothing
                } else {
                    self.query = String::new();
                    assert(self.query@ =~= Seq::empty());
                    let _ = self.ensure_execution_selection();
                    Command::ReloadOutput
                }
            },
            KeyCode::Char(c) => self.handle_letter(c),
            _ => Command::Nothing,
        }
    }

    /// Does what a key does.
    #[verifier::rlimit(40)]
    pub fn handle_key(&mut self, key: KeyEvent) -> (command: Command)
        requires
            steady(old(self)@),
        ensures
            (final(self)@, command@) == key_handled(old(self)@, key),
            steady(final(self)@),
    {
        if !key.press {
            return Command::Nothing;
        }
        if key.control {
            match key.code {
                KeyCode::Char(c) => {
                    if c == 'c' || c == 'C' {
                        return Command::Quit;
                    }
                },
                _ => {},
            }
        }
        if self.editing_search {
            return self.handle_search_key(key);
        }
        if self.modal.is_some() {
            return self.handle_modal_key(key);
        }
        if key.control {
            match key.code {
                KeyCode::Char(c) => {
                    if c == 'p' || c == 'P' {
                        self.modal = Some(Modal::Palette { selected: 0 });
                        return Command::Nothing;
                    }
                },
                _ => {},
            }
        }
        self.handle_view_key(key)
    }

    fn pane_under(&self, x: u16, y: u16) -> (pane: Option<Focus>)
        ensures
            pane == pane_at(self@.hit_regions, x, y),
    {
        let ghost all = self@.hit_regions;
        let mut i: usize = 0;
        assert(all.skip(0) =~= all);
        while i < self.hit_regions.len()
            invariant
                i <= self.hit_regions.len(),
                all == self.hit_regions@.map_values(|item: HitRegion| item@),
                pane_at(all, x, y) == pane_at(all.skip(i as int), x, y),
            decreases self.hit_regions.len() - i,
        {
            proof {
                assert(all.skip(i as int)[0] == self.hit_regions@[i as int]@);
                assert(all.skip(i as int).drop_first() =~= all.skip(i + 1));
            }
            let region = &self.hit_regions[i];
            match &region.target {
                HitTarget::Pane(focus) => {
                    if contains(region.area, x, y) {
                        return Some(*focus);
                    }
                },
                _ => {},
            }
            i += 1;
        }
        assert(all.skip(i as int) =~= Seq::empty());
        None
    }

    fn target_under(&self, x: u16, y: u16) -> (target: Option<HitTarget>)
        ensures
            (match target {
                Some(target) => Some(target@),
                None => None,
            }) == target_at(self@.hit_regions, x, y),
    {
        let ghost all = self@.hit_regions;
        let mut i: usize = self.hit_regions.len();
        assert(all.take(i as int) =~= all);
        while i > 0
            invariant
                i <= self.hit_regions.len(),
                all == self.hit_regions@.map_values(|item: HitRegion| item@),
                target_at(all, x, y) == target_at(all.take(i as int), x, y),
            decreases i,
        {
            proof {
                assert(all.take(i as int).last() == self.hit_regions@[i - 1]@);
                assert(all.take(i as int).drop_last() =~= all.take(i - 1));
            }
            let region = &self.hit_regions[i - 1];
            if contains(region.area, x, y) {
                return Some(region.target.clone());
            }
            i -= 1;
        }
        assert(all.take(0) =~= Seq::empty());
        None
    }

    fn click(&mut self, target: Option<HitTarget>) -> (command: Command)
        ensures
            (final(self)@, command@) == clicked(
                old(self)@,
                match target {
                    Some(target) => Some(target@),
                    None => None,
                },
            ),
    {
        match target {
            None => Command::Nothing,
            Some(HitTarget::Pane(focus)) => {
                self.focus = focus;
                Command::Nothing
            },
            Some(HitTarget::AllWork) => {
                self.focus = Focus::Sessions;
                if self.select_session(None) {
                    Command::Refresh
                } else {
                    Command::Nothing
                }
            },
            Some(HitTarget::Session(id)) => {
                self.focus = Focus::Sessions;
                if self.select_session(Some(id)) {
                    Command::Refresh
                } else {
                    Command::Nothing
                }
            },
            Some(HitTarget::Execution(id)) => {
                self.focus = Focus::Executions;
                if self.select_execution(id) {
                    Command::ReloadOutput
                } else {
                    Command::Nothing
                }
            },
        }
    }

    /// Does what the mouse does.
    pub fn handle_mouse(&mut self, event: MouseEvent) -> (command: Command)
        ensures
            (final(self)@, command@) == mouse_handled(old(self)@, event),
            steady(old(self)@) ==> steady(final(self)@),
    {
        match event.kind {
            MouseKind::LeftDown => {
                let target = self.target_under(event.column, event.row);
                self.click(target)
            },
            MouseKind::ScrollUp => {
                match self.pane_under(event.column, event.row) {
                    Some(focus) => {
                        self.focus = focus;
                    },
                    None => {},
                }
                self.navigate(false)
            },
            MouseKind::ScrollDown => {
                match self.pane_under(event.column, event.row) {
                    Some(focus) => {
                        self.focus = focus;
                    },
                    None => {},
                }
                self.navigate(true)
            },
            MouseKind::Other => Command::Nothing,
        }
    }

    /// Takes in what was read of the output, and says whether there is more to
    /// read now.
    pub fn load_output(&mut self, page: Result<ReadOutputResponse, Error>) -> (more: bool)
        ensures
            ({
                let (pane, notice, error, left) = output::page_taken(
                    old(self)@.output,
                    old(self)@.notice,
                    old(self)@.error,
                    error::viewed(page),
                );
                final(self)@ == (OperatorStateView { output: pane, notice, error, ..old(self)@ })
                    && more == left
            }),
    {
        take_page(&mut self.output, &mut self.notice, &mut self.error, page)
    }

    /// Takes in an event of the selected execution as it happens.
    pub fn take_event(&mut self, event: ExecutionEvent)
        ensures
            final(self)@ == event_taken(old(self)@, event@),
    {
        let seq_number = event.seq;
        let ghost view = event@;
        let mut events: Vec<ExecutionEvent> = Vec::new();
        events.push(event);
        assert(events@.map_values(|item: ExecutionEvent| item@) =~= seq![view]);
        match self.output.ingest(&mut self.notice, &events, seq_number) {
            Ok(()) => {},
            Err(failure) => {
                self.error = Some(failure.message());
            },
        }
    }

    /// Notes what went wrong.
    pub fn note_failure(&mut self, what: &str, failure: &Error)
        ensures
            final(self)@ == failure_noted(old(self)@, what@, failure@),
    {
        self.error = Some(joined(what, failure.message().as_str()));
    }

    /// Notes how cancelling went.
    pub fn cancelled(&mut self, answer: Result<(), Error>)
        ensures
            final(self)@ == cancel_noted(old(self)@, error::outcome_view(answer, |u: ()| u)),
    {
        match answer {
            Ok(()) => {
                self.notice = Some("cancel requested".to_owned());
            },
            Err(failure) => {
                self.note_failure("cancel failed: ", &failure);
            },
        }
    }

    /// Whether the output that is followed is that of another execution than
    /// the selected one.
    pub fn follows_another(&self, followed: &Option<String>) -> (yes: bool)
        ensures
            yes == (self@.selected_execution_id != text::maybe_text(*followed)),
    {
        !same_choice(&self.selected_execution_id, followed)
    }
}

/// What the view is left for by a command, where it is left.
pub open spec fn leaving(command: CommandView) -> Option<UiActionView> {
    match command {
        CommandView::Quit => Some(UiActionView::Quit),
        CommandView::Launch { provider, prompt } => Some(
            UiActionView::Launch { provider, prompt },
        ),
        CommandView::Handoff { provider, source_session_id } => Some(
            UiActionView::Handoff { provider, source_session_id },
        ),
        _ => None,
    }
}

/// Finds what the view is left for by a command. One that does not leave it
/// comes back.
pub fn leave(command: Command) -> (action: Result<UiAction, Command>)
    ensures
        match action {
            Ok(action) => leaving(command@) == Some(action@),
            Err(other) => other == command && leaving(command@) is None,
        },
{
    match command {
        Command::Quit => Ok(UiAction::Quit),
        Command::Launch { provider, prompt } => Ok(UiAction::Launch { provider, prompt }),
        Command::Handoff { provider, source_session_id } => Ok(
            UiAction::Handoff { provider, source_session_id },
        ),
        other => Err(other),
    }
}

/// The executions that have not ended.
pub open spec fn active_of(executions: Seq<ExecutionView>) -> Seq<ExecutionView>
    decreases executions.len(),
{
    if executions.len() == 0 {
        Seq::empty()
    } else {
        let front = active_of(executions.drop_last());
        if model::terminal(executions.last().state) {
            front
        } else {
            front.push(executions.last())
        }
    }
}

/// The view with a handoff prepared: it takes a session that is no longer
/// recorded and that has left something running, and offers the other agent.
pub open spec fn handoff_prepared(
    state: OperatorStateView,
    session_id: Seq<char>,
    detail: AgentSessionDetailView,
) -> OperatorStateView {
    let active = active_of(detail.executions);
    if detail.session.state == AgentSessionState::Recording {
        noticed(state, "exit the source agent before handoff"@)
    } else if active.len() == 0 {
        noticed(state, "this session has no active durable work to hand off"@)
    } else {
        with_modal(
            state,
            Some(
                ModalView::Agent {
                    purpose: AgentModalPurposeView::Handoff {
                        source_session_id: session_id,
                        source_provider: detail.session.agent_kind,
                        active_count: active.len() as usize,
                        command_preview: screen::cut(active[0].command_display, 56),
                    },
                    provider: if detail.session.agent_kind == "codex"@ {
                        AgentProvider::Claude
                    } else {
                        AgentProvider::Codex
                    },
                    field: AgentModalField::Provider,
                    prompt: Seq::empty(),
                },
            ),
        )
    }
}

impl OperatorState {
    /// Prepares a handoff.
    pub fn prepare_handoff(&mut self, session_id: String, detail: &AgentSessionDetail)
        ensures
            final(self)@ == handoff_prepared(old(self)@, session_id@, detail@),
            steady(old(self)@) ==> steady(final(self)@),
    {
        if detail.session.state == AgentSessionState::Recording {
            self.notice = Some("exit the source agent before handoff".to_owned());
            return;
        }
        let executions = &detail.executions;
        let ghost all = detail@.executions;
        let mut count: usize = 0;
        let mut first: usize = 0;
        let mut i: usize = 0;
        assert(all.take(0) =~= Seq::empty());
        while i < executions.len()
            invariant
                i <= executions.len(),
                count <= i,
                all == executions@.map_values(|item: Execution| item@),
                count == active_of(all.take(i as int)).len(),
                count > 0 ==> first < i && active_of(all.take(i as int))[0] == all[first as int],
            decreases executions.len() - i,
        {
            proof {
                assert(all.take(i + 1).drop_last() =~= all.take(i as int));
                assert(all.take(i + 1).last() == executions@[i as int]@);
            }
            if !executions[i].state.is_terminal() {
                if count == 0 {
                    first = i;
                }
                count += 1;
            }
            i += 1;
        }
        assert(all.take(i as int) =~= all);
        if count == 0 {
            self.notice = Some("this session has no active durable work to hand off".to_owned());
            return;
        }
        assert(all[first as int] == executions@[first as int]@);
        let provider = if same_text(detail.session.agent_kind.as_str(), "codex") {
            AgentProvider::Claude
        } else {
            AgentProvider::Codex
        };
        let prompt = String::new();
        assert(prompt@ =~= Seq::empty());
        self.modal = Some(
            Modal::Agent {
                purpose: AgentModalPurpose::Handoff {
                    source_session_id: session_id,
                    source_provider: detail.session.agent_kind.clone(),
                    active_count: count,
                    command_preview: truncate(executions[first].command_display.as_str(), 56),
                },
                provider,
                field: AgentModalField::Provider,
                prompt,
            },
        );
    }
}

} // verus!
