//! The supervisor: the process that runs one command, hands its output on and
//! sees to it that the whole process group ends.

use vstd::prelude::*;

use crate::codec;
use crate::codec::{decode_base64, encode_base64};
use crate::error;
use crate::error::{Error, ErrorView};
use crate::model;
use crate::model::{
    clone_env_var_list, decoded_stdin, CommandSpec, CommandSpecView, EnvVar, EnvVarView,
    ExecutionOutcome, ExecutionOutcomeView, OutputStream,
};
use crate::text;
use crate::text::{clone_bytes, clone_maybe, clone_texts, joined};

verus! {

/// The size of the pieces in which output is read.
pub const OUTPUT_CHUNK_BYTES: usize = 16_384;

/// How many events wait to be written before reading stops.
pub const EVENT_QUEUE_DEPTH: usize = 256;

/// What the daemon tells the supervisor.
#[derive(Debug)]
pub enum SupervisorCommand {
    Spawn {
        command: CommandSpec,
        cwd: String,
        env: Vec<EnvVar>,
        stdin_base64: Option<String>,
        shell: String,
        cancel_grace_ms: u64,
    },
    Cancel,
}

/// What a `SupervisorCommand` holds.
#[verifier::ext_equal]
pub enum SupervisorCommandView {
    Spawn {
        command: CommandSpecView,
        cwd: Seq<char>,
        env: Seq<EnvVarView>,
        stdin_base64: Option<Seq<char>>,
        shell: Seq<char>,
        cancel_grace_ms: u64,
    },
    Cancel,
}

impl View for SupervisorCommand {
    type V = SupervisorCommandView;

    open spec fn view(&self) -> SupervisorCommandView {
        match *self {
            SupervisorCommand::Spawn {
                command,
                cwd,
                env,
                stdin_base64,
                shell,
                cancel_grace_ms,
            } => SupervisorCommandView::Spawn {
                command: command@,
                cwd: cwd@,
                env: env@.map_values(|item: EnvVar| item@),
                stdin_base64: text::maybe_text(stdin_base64),
                shell: shell@,
                cancel_grace_ms,
            },
            SupervisorCommand::Cancel => SupervisorCommandView::Cancel,
        }
    }
}

impl Clone for SupervisorCommand {
    fn clone(&self) -> (copy: Self)
        ensures
            copy@ == self@,
    {
        match self {
            SupervisorCommand::Spawn {
                command,
                cwd,
                env,
                stdin_base64,
                shell,
                cancel_grace_ms,
            } => SupervisorCommand::Spawn {
                command: command.clone(),
                cwd: cwd.clone(),
                env: clone_env_var_list(env),
                stdin_base64: clone_maybe(stdin_base64),
                shell: shell.clone(),
                cancel_grace_ms: *cancel_grace_ms,
            },
            SupervisorCommand::Cancel => SupervisorCommand::Cancel,
        }
    }
}

/// What the supervisor tells the daemon.
#[derive(Debug)]
pub enum SupervisorEvent {
    Started { pid: u32, pgid: i32 },
    Output { stream: OutputStream, data_base64: String },
    Finished { outcome: ExecutionOutcome },
}

/// What a `SupervisorEvent` holds.
#[verifier::ext_equal]
pub enum SupervisorEventView {
    Started { pid: u32, pgid: i32 },
    Output { stream: OutputStream, data_base64: Seq<char> },
    Finished { outcome: ExecutionOutcomeView },
}

impl View for SupervisorEvent {
    type V = SupervisorEventView;

    open spec fn view(&self) -> SupervisorEventView {
        match *self {
            SupervisorEvent::Started { pid, pgid } => SupervisorEventView::Started {
                pid,
                pgid,
            },
            SupervisorEvent::Output { stream, data_base64 } => SupervisorEventView::Output {
                stream,
                data_base64: data_base64@,
            },
            SupervisorEvent::Finished { outcome } => SupervisorEventView::Finished {
                outcome: outcome@,
            },
        }
    }
}

impl Clone for SupervisorEvent {
    fn clone(&self) -> (copy: Self)
        ensures
            copy@ == self@,
    {
        match self {
            SupervisorEvent::Started { pid, pgid } => SupervisorEvent::Started {
                pid: *pid,
                pgid: *pgid,
            },
            SupervisorEvent::Output { stream, data_base64 } => SupervisorEvent::Output {
                stream: *stream,
                data_base64: data_base64.clone(),
            },
            SupervisorEvent::Finished { outcome } => SupervisorEvent::Finished {
                outcome: outcome.clone(),
            },
        }
    }
}

/// What is to be started: a program with its arguments, where and in what
/// environment, and the bytes it gets as its input.
#[derive(Debug)]
pub struct SpawnPlan {
    pub program: String,
    pub args: Vec<String>,
    pub cwd: String,
    pub env: Vec<EnvVar>,
    pub stdin: Option<Vec<u8>>,
    pub cancel_grace_ms: u64,
}

/// What a `SpawnPlan` holds.
#[verifier::ext_equal]
pub struct SpawnPlanView {
    pub program: Seq<char>,
    pub args: Seq<Seq<char>>,
    pub cwd: Seq<char>,
    pub env: Seq<EnvVarView>,
    pub stdin: Option<Seq<u8>>,
    pub cancel_grace_ms: u64,
}

impl View for SpawnPlan {
    type V = SpawnPlanView;

    open spec fn view(&self) -> SpawnPlanView {
        SpawnPlanView {
            program: self.program@,
            args: text::texts(self.args@),
            cwd: self.cwd@,
            env: self.env@.map_values(|item: EnvVar| item@),
            stdin: (match self.stdin { Some(inner) => Some(inner@), None => None }),
            cancel_grace_ms: self.cancel_grace_ms,
        }
    }
}

impl Clone for SpawnPlan {
    fn clone(&self) -> (copy: Self)
        ensures
            copy@ == self@,
    {
        SpawnPlan {
            program: self.program.clone(),
            args: clone_texts(&self.args),
            cwd: self.cwd.clone(),
            env: clone_env_var_list(&self.env),
            stdin: (match &self.stdin { Some(inner) => Some(clone_bytes(inner)), None => None }),
            cancel_grace_ms: self.cancel_grace_ms,
        }
    }
}

/// How a process ended: with a code or by a signal.
#[derive(Debug, Clone, Copy, PartialEq, Eq, Structural)]
pub struct ExitReport {
    pub code: Option<i32>,
    pub signal: Option<i32>,
}

/// How the supervision of a started command stands.
#[derive(Debug)]
pub struct Supervision {
    pub cancelled: bool,
    pub daemon_gone: bool,
    pub interrupted_reason: Option<String>,
    pub deadline_armed: bool,
    pub exited: Option<ExitReport>,
    pub ended: Option<ExitReport>,
}

/// What a `Supervision` holds.
#[verifier::ext_equal]
pub struct SupervisionView {
    pub cancelled: bool,
    pub daemon_gone: bool,
    pub interrupted_reason: Option<Seq<char>>,
    pub deadline_armed: bool,
    pub exited: Option<ExitReport>,
    pub ended: Option<ExitReport>,
}

impl View for Supervision {
    type V = SupervisionView;

    open spec fn view(&self) -> SupervisionView {
        SupervisionView {
            cancelled: self.cancelled,
            daemon_gone: self.daemon_gone,
            interrupted_reason: text::maybe_text(self.interrupted_reason),
            deadline_armed: self.deadline_armed,
            exited: self.exited,
            ended: self.ended,
        }
    }
}

impl Clone for Supervision {
    fn clone(&self) -> (copy: Self)
        ensures
            copy@ == self@,
    {
        Supervision {
            cancelled: self.cancelled,
            daemon_gone: self.daemon_gone,
            interrupted_reason: clone_maybe(&self.interrupted_reason),
            deadline_armed: self.deadline_armed,
            exited: self.exited,
            ended: self.ended,
        }
    }
}

/// What the supervisor has to respond to.
#[derive(Debug)]
pub enum SupervisionInput {
    Exited { report: ExitReport, group_alive: bool },
    Cancel,
    DaemonGone,
    CaptureFailed { reason: String },
    DeadlinePassed,
    ControlsClosed,
}

/// What a `SupervisionInput` holds.
#[verifier::ext_equal]
pub enum SupervisionInputView {
    Exited { report: ExitReport, group_alive: bool },
    Cancel,
    DaemonGone,
    CaptureFailed { reason: Seq<char> },
    DeadlinePassed,
    ControlsClosed,
}

impl View for SupervisionInput {
    type V = SupervisionInputView;

    open spec fn view(&self) -> SupervisionInputView {
        match *self {
            SupervisionInput::Exited { report, group_alive } => SupervisionInputView::Exited {
                report,
                group_alive,
            },
            SupervisionInput::Cancel => SupervisionInputView::Cancel,
            SupervisionInput::DaemonGone => SupervisionInputView::DaemonGone,
            SupervisionInput::CaptureFailed { reason } => SupervisionInputView::CaptureFailed {
                reason: reason@,
            },
            SupervisionInput::DeadlinePassed => SupervisionInputView::DeadlinePassed,
            SupervisionInput::ControlsClosed => SupervisionInputView::ControlsClosed,
        }
    }
}

impl Clone for SupervisionInput {
    fn clone(&self) -> (copy: Self)
        ensures
            copy@ == self@,
    {
        match self {
            SupervisionInput::Exited { report, group_alive } => SupervisionInput::Exited {
                report: *report,
                group_alive: *group_alive,
            },
            SupervisionInput::Cancel => SupervisionInput::Cancel,
            SupervisionInput::DaemonGone => SupervisionInput::DaemonGone,
            SupervisionInput::CaptureFailed { reason } => SupervisionInput::CaptureFailed {
                reason: reason.clone(),
            },
            SupervisionInput::DeadlinePassed => SupervisionInput::DeadlinePassed,
            SupervisionInput::ControlsClosed => SupervisionInput::ControlsClosed,
        }
    }
}

/// What the supervisor does in response.
#[derive(Debug, Clone, Copy, PartialEq, Eq, Structural)]
pub enum SupervisionAction {
    /// Nothing.
    Wait,
    /// Ask the process group to end, and start the grace period. A failure to
    /// ask is a failure of the supervisor where it `matters`.
    Terminate { matters: bool },
    /// End the process group by force.
    Kill,
}

/// The program and arguments that a command stands for.
pub open spec fn command_line(command: CommandSpecView, default_shell: Seq<char>) -> (
    Seq<char>,
    Seq<Seq<char>>,
) {
    match command {
        CommandSpecView::Argv { program, args } => (program, args),
        CommandSpecView::Shell { command, shell } => (
            match shell {
                Some(path) => path,
                None => default_shell,
            },
            seq!["-c"@, command],
        ),
    }
}

/// The program and arguments that a command stands for.
pub fn build_command(spec: &CommandSpec, default_shell: &str) -> (line: (String, Vec<String>))
    ensures
        (line.0@, text::texts(line.1@)) == command_line(spec@, default_shell@),
{
    match spec {
        CommandSpec::Argv { program, args } => (program.clone(), clone_texts(args)),
        CommandSpec::Shell { command, shell } => {
            let program = match shell {
                Some(path) => path.clone(),
                None => default_shell.to_owned(),
            };
            let mut args: Vec<String> = Vec::new();
            args.push("-c".to_owned());
            args.push(command.clone());
            assert(text::texts(args@) =~= seq!["-c"@, command@]);
            (program, args)
        },
    }
}

/// What the first command tells the supervisor to start.
pub open spec fn plan_of(first: Option<SupervisorCommandView>) -> Result<SpawnPlanView, ErrorView> {
    match first {
        None => Err(ErrorView::Protocol("supervisor received no spawn request"@)),
        Some(SupervisorCommandView::Cancel) => Err(
            ErrorView::Protocol("the first supervisor command must be spawn"@),
        ),
        Some(
            SupervisorCommandView::Spawn { command, cwd, env, stdin_base64, shell, cancel_grace_ms },
        ) => match model::stdin_of(stdin_base64) {
            Err(error) => Err(error),
            Ok(stdin) => Ok(
                SpawnPlanView {
                    program: command_line(command, shell).0,
                    args: command_line(command, shell).1,
                    cwd,
                    env,
                    stdin,
                    cancel_grace_ms,
                },
            ),
        },
    }
}

/// Reads what is to be started from the first command.
pub fn plan_spawn(first: Option<SupervisorCommand>) -> (plan: Result<SpawnPlan, Error>)
    ensures
        error::viewed(plan) == plan_of(
            match first {
                Some(command) => Some(command@),
                None => None,
            },
        ),
{
    match first {
        None => Err(Error::Protocol("supervisor received no spawn request".to_owned())),
        Some(SupervisorCommand::Cancel) => Err(
            Error::Protocol("the first supervisor command must be spawn".to_owned()),
        ),
        Some(
            SupervisorCommand::Spawn { command, cwd, env, stdin_base64, shell, cancel_grace_ms },
        ) => {
            let stdin = match stdin_base64 {
                Some(value) => match decoded_stdin(decode_base64(value.as_str())) {
                    Ok(data) => Some(data),
                    Err(error) => {
                        return Err(error);
                    },
                },
                None => None,
            };
            let (program, args) = build_command(&command, shell.as_str());
            Ok(SpawnPlan { program, args, cwd, env, stdin, cancel_grace_ms })
        },
    }
}

/// The event that hands a piece of output on.
pub fn output_chunk(stream: OutputStream, data: &[u8]) -> (event: SupervisorEvent)
    ensures
        event@ == (SupervisorEventView::Output { stream, data_base64: codec::base64_text(data@) }),
        event matches SupervisorEvent::Output { stream: shown, data_base64 }
            && codec::base64_decoding(data_base64@) == codec::good(data@),
{
    SupervisorEvent::Output { stream, data_base64: encode_base64(data) }
}

/// What a further command, or what could not be read as one, means for the
/// supervision; and whether more commands are read.
pub open spec fn control_meaning(command: Option<SupervisorCommandView>) -> (
    SupervisionInputView,
    bool,
) {
    match command {
        Some(SupervisorCommandView::Cancel) => (SupervisionInputView::Cancel, true),
        _ => (
            SupervisionInputView::CaptureFailed {
                reason: "invalid supervisor control message"@,
            },
            false,
        ),
    }
}

/// What a further command means; `None` stands for what could not be read.
pub fn read_control(command: Option<SupervisorCommand>) -> (meaning: (SupervisionInput, bool))
    ensures
        (meaning.0@, meaning.1) == control_meaning(
            match command {
                Some(command) => Some(command@),
                None => None,
            },
        ),
{
    match command {
        Some(SupervisorCommand::Cancel) => (SupervisionInput::Cancel, true),
        _ => (
            SupervisionInput::CaptureFailed {
                reason: "invalid supervisor control message".to_owned(),
            },
            false,
        ),
    }
}

/// The supervision of a command that has just started.
pub open spec fn watching() -> SupervisionView {
    SupervisionView {
        cancelled: false,
        daemon_gone: false,
        interrupted_reason: None,
        deadline_armed: false,
        exited: None,
        ended: None,
    }
}

/// Asking the group to end, once.
pub open spec fn asked_to_end(state: SupervisionView, matters: bool) -> (
    SupervisionView,
    SupervisionAction,
) {
    if state.cancelled {
        (state, SupervisionAction::Wait)
    } else {
        (
            SupervisionView { cancelled: true, deadline_armed: true, ..state },
            SupervisionAction::Terminate { matters },
        )
    }
}

/// How the supervisor responds. The leader of the group may be gone while the
/// rest lives on and holds the output open; so once the group has been asked
/// to end, the supervisor stays until the group is gone or the grace period is
/// over and the group has been ended by force.
pub open spec fn supervised(state: SupervisionView, input: SupervisionInputView) -> (
    SupervisionView,
    SupervisionAction,
) {
    if state.ended is Some {
        (state, SupervisionAction::Wait)
    } else {
        match input {
            SupervisionInputView::Exited { report, group_alive } => if state.exited is Some {
                (state, SupervisionAction::Wait)
            } else if !state.deadline_armed || !group_alive {
                (SupervisionView { ended: Some(report), ..state }, SupervisionAction::Wait)
            } else {
                (SupervisionView { exited: Some(report), ..state }, SupervisionAction::Wait)
            },
            SupervisionInputView::Cancel => asked_to_end(state, true),
            SupervisionInputView::DaemonGone => asked_to_end(
                SupervisionView { daemon_gone: true, ..state },
                false,
            ),
            SupervisionInputView::CaptureFailed { reason } => asked_to_end(
                SupervisionView { interrupted_reason: Some(reason), ..state },
                false,
            ),
            SupervisionInputView::DeadlinePassed => if state.deadline_armed {
                (
                    SupervisionView {
                        deadline_armed: false,
                        exited: None,
                        ended: state.exited,
                        ..state
                    },
                    SupervisionAction::Kill,
                )
            } else {
                (state, SupervisionAction::Wait)
            },
            SupervisionInputView::ControlsClosed => (state, SupervisionAction::Wait),
        }
    }
}

/// The outcome that the supervisor reports, when the command has ended: none
/// where the daemon is gone.
pub open spec fn reported(state: SupervisionView) -> Option<ExecutionOutcomeView> {
    match state.ended {
        None => None,
        Some(report) => if state.daemon_gone {
            None
        } else if state.interrupted_reason is Some {
            Some(ExecutionOutcomeView::Interrupted { reason: state.interrupted_reason->0 })
        } else if state.cancelled {
            Some(ExecutionOutcomeView::Cancelled { signal: report.signal })
        } else {
            match report.code {
                Some(code) => Some(ExecutionOutcomeView::Exited { code }),
                None => Some(
                    ExecutionOutcomeView::Signaled {
                        signal: match report.signal {
                            Some(signal) => signal,
                            None => 0,
                        },
                    },
                ),
            }
        },
    }
}

impl Supervision {
    /// The supervision of a command that has just started.
    pub fn new() -> (state: Supervision)
        ensures
            state@ == watching(),
    {
        Supervision {
            cancelled: false,
            daemon_gone: false,
            interrupted_reason: None,
            deadline_armed: false,
            exited: None,
            ended: None,
        }
    }

    fn ask_to_end(&mut self, matters: bool) -> (action: SupervisionAction)
        ensures
            (final(self)@, action) == asked_to_end(old(self)@, matters),
    {
        if self.cancelled {
            SupervisionAction::Wait
        } else {
            self.cancelled = true;
            self.deadline_armed = true;
            SupervisionAction::Terminate { matters }
        }
    }

    /// Responds to what happened.
    pub fn step(&mut self, input: SupervisionInput) -> (action: SupervisionAction)
        ensures
            (final(self)@, action) == supervised(old(self)@, input@),
    {
        if self.ended.is_some() {
            return SupervisionAction::Wait;
        }
        match input {
            SupervisionInput::Exited { report, group_alive } => {
                if self.exited.is_none() {
                    if !self.deadline_armed || !group_alive {
                        self.ended = Some(report);
                    } else {
                        self.exited = Some(report);
                    }
                }
                SupervisionAction::Wait
            },
            SupervisionInput::Cancel => self.ask_to_end(true),
            SupervisionInput::DaemonGone => {
                self.daemon_gone = true;
                self.ask_to_end(false)
            },
            SupervisionInput::CaptureFailed { reason } => {
                self.interrupted_reason = Some(reason);
                self.ask_to_end(false)
            },
            SupervisionInput::DeadlinePassed => {
                if self.deadline_armed {
                    self.deadline_armed = false;
                    self.ended = self.exited;
                    self.exited = None;
                    SupervisionAction::Kill
                } else {
                    SupervisionAction::Wait
                }
            },
            SupervisionInput::ControlsClosed => SupervisionAction::Wait,
        }
    }

    /// Whether the command and its group are through.
    pub fn is_over(&self) -> (over: bool)
        ensures
            over == (self@.ended is Some),
    {
        self.ended.is_some()
    }

    /// The outcome to report: none before the end, and none where the daemon
    /// is gone.
    pub fn outcome(&self) -> (outcome: Option<ExecutionOutcome>)
        ensures
            (match outcome {
                Some(outcome) => Some(outcome@),
                None => None,
            }) == reported(self@),
    {
        match self.ended {
            None => None,
            Some(report) => {
                if self.daemon_gone {
                    return None;
                }
                match &self.interrupted_reason {
                    Some(reason) => Some(
                        ExecutionOutcome::Interrupted { reason: reason.clone() },
                    ),
                    None => if self.cancelled {
                        Some(ExecutionOutcome::Cancelled { signal: report.signal })
                    } else {
                        match report.code {
                            Some(code) => Some(ExecutionOutcome::Exited { code }),
                            None => Some(
                                ExecutionOutcome::Signaled {
                                    signal: match report.signal {
                                        Some(signal) => signal,
                                        None => 0,
                                    },
                                },
                            ),
                        }
                    },
                }
            },
        }
    }
}

/// How the writing of a command's input ended.
#[derive(Debug)]
pub enum InputResult {
    Written,
    BrokenPipe,
    Failed(String),
    Aborted(String),
}

/// Whether the writing of the input was in order. A command need not read its
/// input, so a pipe that it closed is no failure.
pub fn input_written(result: InputResult) -> (checked: Result<(), Error>)
    ensures
        error::outcome_view(checked, |u: ()| u) == (match result {
            InputResult::Written => Ok(()),
            InputResult::BrokenPipe => Ok(()),
            InputResult::Failed(message) => Err(ErrorView::Io(message@)),
            InputResult::Aborted(message) => Err(
                ErrorView::Protocol("stdin writer task failed: "@ + message@),
            ),
        }),
{
    match result {
        InputResult::Written => Ok(()),
        InputResult::BrokenPipe => Ok(()),
        InputResult::Failed(message) => Err(Error::Io(message)),
        InputResult::Aborted(message) => Err(
            Error::Protocol(joined("stdin writer task failed: ", message.as_str())),
        ),
    }
}

/// The supervision after some inputs.
pub open spec fn after_inputs(inputs: Seq<SupervisionInputView>) -> SupervisionView
    decreases inputs.len(),
{
    if inputs.len() == 0 {
        watching()
    } else {
        supervised(after_inputs(inputs.drop_last()), inputs.last()).0
    }
}

/// The response to the last of some inputs.
pub open spec fn last_response(inputs: Seq<SupervisionInputView>) -> SupervisionAction {
    supervised(after_inputs(inputs.drop_last()), inputs.last()).1
}

/// Whether the group was asked to end in response to one of the inputs.
pub open spec fn asked_before(inputs: Seq<SupervisionInputView>) -> bool {
    exists|k: int|
        0 < k <= inputs.len() && #[trigger] last_response(inputs.take(k)) is Terminate
}

/// The supervision is marked as cancelled exactly when the group has been
/// asked to end, and the grace period runs only then.
pub proof fn cancelled_means_asked(inputs: Seq<SupervisionInputView>)
    ensures
        after_inputs(inputs).cancelled == asked_before(inputs),
        after_inputs(inputs).deadline_armed ==> after_inputs(inputs).cancelled,
    decreases inputs.len(),
{
    if inputs.len() > 0 {
        let before = inputs.drop_last();
        cancelled_means_asked(before);
        assert(inputs.take(inputs.len() as int) =~= inputs);
        if asked_before(before) {
            let k = choose|k: int|
                0 < k <= before.len() && #[trigger] last_response(before.take(k)) is Terminate;
            assert(before.take(k) =~= inputs.take(k));
            assert(last_response(inputs.take(k)) is Terminate);
        }
        if asked_before(inputs) && !asked_before(before) {
            let k = choose|k: int|
                0 < k <= inputs.len() && #[trigger] last_response(inputs.take(k)) is Terminate;
            if k < inputs.len() {
                assert(before.take(k) =~= inputs.take(k));
                assert(last_response(before.take(k)) is Terminate);
            }
        }
        if last_response(inputs) is Terminate {
            assert(last_response(inputs.take(inputs.len() as int)) is Terminate);
        }
    }
}

/// The group is asked to end at most once.
pub proof fn asked_once(inputs: Seq<SupervisionInputView>)
    requires
        inputs.len() > 0,
        last_response(inputs) is Terminate,
    ensures
        !asked_before(inputs.drop_last()),
{
    cancelled_means_asked(inputs.drop_last());
}

/// Force comes only after the group has been asked to end.
pub proof fn force_comes_after_asking(inputs: Seq<SupervisionInputView>)
    requires
        inputs.len() > 0,
        last_response(inputs) is Kill,
    ensures
        asked_before(inputs.drop_last()),
{
    cancelled_means_asked(inputs.drop_last());
}

/// A command that was asked to end is never reported as having ended by
/// itself, and one that was not is never reported as cancelled.
pub proof fn outcome_tells_cancellation(inputs: Seq<SupervisionInputView>)
    ensures
        match reported(after_inputs(inputs)) {
            Some(ExecutionOutcomeView::Exited { code }) => !asked_before(inputs),
            Some(ExecutionOutcomeView::Signaled { signal }) => !asked_before(inputs),
            Some(ExecutionOutcomeView::Cancelled { signal }) => asked_before(inputs),
            _ => true,
        },
{
    cancelled_means_asked(inputs);
}

/// Whether the group has been ended by force.
pub open spec fn forced_before(inputs: Seq<SupervisionInputView>) -> bool {
    exists|k: int| 0 < k <= inputs.len() && #[trigger] last_response(inputs.take(k)) is Kill
}

/// Whether the command was seen to end with the whole of its group.
pub open spec fn gone_before(inputs: Seq<SupervisionInputView>) -> bool {
    exists|k: int|
        0 <= k < inputs.len() && (#[trigger] inputs[k] matches SupervisionInputView::Exited {
            report,
            group_alive,
        } && !group_alive)
}

/// A group whose command still runs is asked to end when the daemon says so,
/// when the daemon is gone, and when output can no longer be handed on.
pub proof fn the_group_is_not_abandoned(inputs: Seq<SupervisionInputView>)
    requires
        inputs.len() > 0,
        after_inputs(inputs.drop_last()).ended is None,
        inputs.last() is Cancel || inputs.last() is DaemonGone || inputs.last() is CaptureFailed,
    ensures
        asked_before(inputs),
{
    cancelled_means_asked(inputs);
}

/// Once a group has been asked to end, the supervision is not over before the
/// whole group is gone or has been ended by force. The grace period runs until
/// force is used.
pub proof fn nothing_is_left_running(inputs: Seq<SupervisionInputView>)
    ensures
        asked_before(inputs) && after_inputs(inputs).ended is Some ==> gone_before(inputs)
            || forced_before(inputs),
        asked_before(inputs) && !after_inputs(inputs).deadline_armed ==> forced_before(inputs),
    decreases inputs.len(),
{
    cancelled_means_asked(inputs);
    if inputs.len() > 0 {
        let before = inputs.drop_last();
        nothing_is_left_running(before);
        cancelled_means_asked(before);
        assert(inputs.take(inputs.len() as int) =~= inputs);
        if forced_before(before) {
            let k = choose|k: int|
                0 < k <= before.len() && #[trigger] last_response(before.take(k)) is Kill;
            assert(before.take(k) =~= inputs.take(k));
            assert(last_response(inputs.take(k)) is Kill);
        }
        if gone_before(before) {
            let k = choose|k: int|
                0 <= k < before.len() && (#[trigger] before[k] matches SupervisionInputView::Exited {
                    report,
                    group_alive,
                } && !group_alive);
            assert(inputs[k] == before[k]);
        }
        if last_response(inputs) is Kill {
            assert(last_response(inputs.take(inputs.len() as int)) is Kill);
        }
        assert(inputs[inputs.len() - 1] == inputs.last());
    }
}

} // verus!
