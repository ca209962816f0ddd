//! How a daemon comes up, and who may speak to it.

use vstd::prelude::*;

use crate::client;
use crate::client::{DaemonClient, StartStep};
use crate::error::{Error, ErrorView};
use crate::startup;
use crate::startup::{LockStep, ProcessAnswer, SocketStep};

verus! {

/// The user that runs the daemon may speak to it, and nobody else.
pub proof fn only_the_owner_is_heard(peer: u32, owner: u32, checked: Result<(), Error>)
    requires
        call_ensures(startup::verify_peer, (peer, owner), checked),
    ensures
        checked is Ok == (peer == owner),
        checked matches Err(error) ==> error is PermissionDenied,
{
}

/// A lock whose owner lives is left in place, and the daemon does not come up;
/// one whose owner is gone is taken away. A process of another user lives too.
pub proof fn a_living_owner_keeps_the_lock(
    answer: ProcessAnswer,
    alive: Result<bool, Error>,
    attempts_left: u32,
    step: LockStep,
)
    requires
        call_ensures(startup::process_alive, (answer,), alive),
        alive matches Ok(lives) && call_ensures(startup::lock_step, (lives, attempts_left), step),
    ensures
        answer is Present || answer is NotPermitted ==> step is Refuse,
        answer is Missing ==> (if attempts_left > 0 {
            step is RemoveAndRetry
        } else {
            step is RemoveAndRefuse
        }),
        !(answer is Failed),
{
}

/// A socket at which someone listens is left in place, and one at which nobody
/// does is taken away.
pub proof fn a_socket_in_use_is_left(socket: &str, present: bool, answers: bool, step: SocketStep)
    requires
        call_ensures(startup::prepare_socket, (socket, present, answers), step),
    ensures
        (step is Remove) == (present && !answers),
        (step is Refuse) == (present && answers),
        (step is Keep) == !present,
{
}

/// A client goes on once the daemon is healthy, starts or waits for one that
/// does not listen for as long as it may, and hands on any other failure.
pub proof fn a_daemon_is_started_that_is_not_there(
    own: &DaemonClient,
    failure: Option<Error>,
    attempts_left: u32,
    step: StartStep,
)
    requires
        call_ensures(client::start_step, (own, failure, attempts_left), step),
    ensures
        (step is Ready) == (failure is None),
        (step is Wait) == (attempts_left > 0 && failure is Some && failure->0
            is DaemonUnavailable),
        step matches StartStep::Fail(error) ==> failure is Some && (failure->0@ == error@ || (
        failure->0 is DaemonUnavailable && error@ == ErrorView::DaemonUnavailable(own.socket@))),
{
}

} // verus!
