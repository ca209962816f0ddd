//! What is started: the command of the request, where it was admitted, with its
//! variables and its input.

use vstd::prelude::*;

use crate::codec;
use crate::config::SettingsView;
use crate::executor;
use crate::executor::{RunActionView, RunInputView, RunView};
use crate::model::{CommandSpecView, ExecutionRequestView, ExecutionState};
use crate::supervisor;
use crate::supervisor::SpawnPlanView;

verus! {

/// Whether a plan is to start what a request asks for, in the directory `cwd`.
pub open spec fn starts_what_was_asked(
    plan: SpawnPlanView,
    request: ExecutionRequestView,
    cwd: Seq<char>,
    settings: SettingsView,
) -> bool {
    &&& match request.command {
        CommandSpecView::Argv { program, args } => plan.program == program && plan.args == args,
        CommandSpecView::Shell { command, shell } => {
            &&& plan.args == seq!["-c"@, command]
            &&& match shell {
                Some(named) => plan.program == named,
                None => plan.program == settings.shell,
            }
        },
    }
    &&& plan.cwd == cwd
    &&& plan.env == request.env
    &&& match (request.stdin_base64, plan.stdin) {
        (Some(text), Some(input)) => codec::base64_decoding(text) == codec::good(input),
        (None, None) => true,
        _ => false,
    }
    &&& plan.cancel_grace_ms == settings.cancel_grace_ms
}

/// What the supervisor is told to start, as the supervisor reads it, is what
/// the request asks for: the program and arguments of the request, the admitted
/// directory, the request's variables, and as input exactly the bytes that the
/// request's text decodes to, or none where it has none.
pub proof fn what_is_started_is_what_was_asked(
    id: Seq<char>,
    request: ExecutionRequestView,
    cwd: Seq<char>,
    settings: SettingsView,
    first: i64,
    second: i64,
    third: i64,
)
    ensures
        ({
            let run = executor::new_run(id, request, cwd, settings);
            let queued = RunInputView::State { state: ExecutionState::Queued };
            let answers = seq![
                (RunInputView::SlotGranted, first),
                (queued, second),
                (RunInputView::Spawned, third),
            ];
            executor::asked_last(run, answers) matches RunActionView::Send { command } && (
            match supervisor::plan_of(Some(command)) {
                Ok(plan) => starts_what_was_asked(plan, request, cwd, settings),
                Err(error) => request.stdin_base64 matches Some(text) && codec::base64_decoding(
                    text,
                ) is Err,
            })
        }),
{
    let run = executor::new_run(id, request, cwd, settings);
    let queued = RunInputView::State { state: ExecutionState::Queued };
    let answers = seq![
        (RunInputView::SlotGranted, first),
        (queued, second),
        (RunInputView::Spawned, third),
    ];
    reveal_with_fuel(executor::run_after, 4);
    assert(answers.drop_last() =~= seq![(RunInputView::SlotGranted, first), (queued, second)]);
    assert(answers.drop_last().drop_last() =~= seq![(RunInputView::SlotGranted, first)]);
    assert(answers.drop_last().drop_last().drop_last() =~= Seq::<(RunInputView, i64)>::empty());
}

proof fn the_order_stays(run: RunView, answers: Seq<(RunInputView, i64)>)
    ensures
        executor::run_after(run, answers).spawn == run.spawn,
        executor::run_after(run, answers).id == run.id,
        executor::run_after(run, answers).meter.limit == run.meter.limit,
    decreases answers.len(),
{
    if answers.len() > 0 {
        the_order_stays(run, answers.drop_last());
    }
}

/// However a run goes, a supervisor is told nothing but to start what the
/// request asks for, or to cancel.
pub proof fn nothing_else_is_started(
    id: Seq<char>,
    request: ExecutionRequestView,
    cwd: Seq<char>,
    settings: SettingsView,
    answers: Seq<(RunInputView, i64)>,
)
    requires
        answers.len() > 0,
    ensures
        executor::asked_last(
            executor::new_run(id, request, cwd, settings),
            answers,
        ) matches RunActionView::Send { command } ==> command is Cancel || (
        match supervisor::plan_of(Some(command)) {
            Ok(plan) => starts_what_was_asked(plan, request, cwd, settings),
            Err(error) => request.stdin_base64 matches Some(text) && codec::base64_decoding(
                text,
            ) is Err,
        }),
{
    let run = executor::new_run(id, request, cwd, settings);
    the_order_stays(run, answers.drop_last());
}

/// As much output is kept as the request allows, or else as the settings do.
pub proof fn the_limit_is_the_one_asked_for(
    id: Seq<char>,
    request: ExecutionRequestView,
    cwd: Seq<char>,
    settings: SettingsView,
    answers: Seq<(RunInputView, i64)>,
)
    ensures
        match request.capture_limit_bytes {
            Some(limit) => executor::run_after(
                executor::new_run(id, request, cwd, settings),
                answers,
            ).meter.limit == limit,
            None => executor::run_after(
                executor::new_run(id, request, cwd, settings),
                answers,
            ).meter.limit == settings.capture_limit_bytes,
        },
{
    the_order_stays(executor::new_run(id, request, cwd, settings), answers);
}

} // verus!
