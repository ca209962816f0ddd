//! How the daemon makes sure that it is the only one, and that only its owner
//! speaks to it.

use vstd::prelude::*;

use crate::error;
use crate::error::{Error, ErrorView};
use crate::text;
use crate::text::{chars_of, decimal_text, joined, joined3, trim};

verus! {

/// How often the daemon tries to take its lock.
pub const LOCK_ATTEMPTS: u32 = 2;

/// Whether a character is a decimal digit.
pub open spec fn is_digit(c: char) -> bool {
    '0' <= c && c <= '9'
}

/// The number that some digits write; nothing where there are none, or where
/// something else stands among them.
pub open spec fn written_number(digits: Seq<char>) -> Option<int>
    decreases digits.len(),
{
    if digits.len() == 0 || !is_digit(digits.last()) {
        None
    } else if digits.len() == 1 {
        Some(digits.last() as int - '0' as int)
    } else {
        match written_number(digits.drop_last()) {
            None => None,
            Some(front) => Some(10 * front + (digits.last() as int - '0' as int)),
        }
    }
}

/// The integer that a text writes: digits, with a sign before them or none.
pub open spec fn written_integer(text: Seq<char>) -> Option<int> {
    if text.len() > 0 && text[0] == '-' {
        match written_number(text.drop_first()) {
            Some(value) => Some(-value),
            None => None,
        }
    } else if text.len() > 0 && text[0] == '+' {
        written_number(text.drop_first())
    } else {
        written_number(text)
    }
}

/// The process that a lock file names, where it names one.
pub open spec fn named_process(source: Seq<char>) -> Option<i32> {
    match written_integer(text::trimmed(source)) {
        Some(value) => if i32::MIN <= value <= i32::MAX {
            Some(value as i32)
        } else {
            None
        },
        None => None,
    }
}

proof fn fronts_are_numbers(digits: Seq<char>, count: int)
    requires
        0 < count <= digits.len(),
        written_number(digits) is Some,
    ensures
        written_number(digits.take(count)) is Some,
        0 <= written_number(digits.take(count))->0 <= written_number(digits)->0,
    decreases digits.len(),
{
    if count == digits.len() {
        assert(digits.take(count) =~= digits);
        if digits.len() > 1 {
            fronts_are_numbers(digits.drop_last(), digits.len() - 1);
            assert(digits.drop_last().take(digits.len() - 1) =~= digits.drop_last());
        }
    } else {
        fronts_are_numbers(digits.drop_last(), count);
        assert(digits.drop_last().take(count) =~= digits.take(count));
    }
}

/// Reads a process from a lock file.
pub fn lock_owner(source: &str) -> (owner: Option<i32>)
    ensures
        owner == named_process(source@),
{
    let text = trim(source);
    let chars = chars_of(text.as_str());
    let ghost all = text::trimmed(source@);
    let mut start: usize = 0;
    let mut negative = false;
    if chars.len() > 0 && chars[0] == '-' {
        negative = true;
        start = 1;
    } else if chars.len() > 0 && chars[0] == '+' {
        start = 1;
    }
    let ghost digits = if start == 1 {
        all.drop_first()
    } else {
        all
    };
    if chars.len() == start {
        return None;
    }
    let mut value: i64 = 0;
    let mut i: usize = start;
    while i < chars.len()
        invariant
            start <= i <= chars.len(),
            start < chars.len(),
            start <= 1,
            chars@ == all,
            digits == (if start == 1 {
                all.drop_first()
            } else {
                all
            }),
            0 <= value <= 2_147_483_648,
            i > start ==> written_number(digits.take(i - start)) == Some(value as int),
            i == start ==> value == 0,
        decreases chars.len() - i,
    {
        let c = chars[i];
        proof {
            assert(digits[i - start] == c);
            assert(digits.take(i - start + 1).last() == c);
            assert(digits.take(i - start + 1).drop_last() =~= digits.take(i - start));
        }
        if c < '0' || c > '9' {
            proof {
                if written_number(digits) is Some {
                    fronts_are_numbers(digits, i - start + 1);
                }
            }
            return None;
        }
        let digit: i64 = (c as u32 - '0' as u32) as i64;
        value = 10 * value + digit;
        assert(written_number(digits.take(i - start + 1)) == Some(value as int));
        if value > 2_147_483_648 {
            proof {
                if written_number(digits) is Some {
                    fronts_are_numbers(digits, i - start + 1);
                }
            }
            return None;
        }
        i += 1;
    }
    assert(digits.take(i - start) =~= digits);
    if negative {
        Some((0 - value) as i32)
    } else if value > 2_147_483_647 {
        None
    } else {
        Some(value as i32)
    }
}

/// What comes back when a process is looked for.
#[derive(Debug)]
pub enum ProcessAnswer {
    /// It is there.
    Present,
    /// It is there and belongs to someone else.
    NotPermitted,
    /// There is none.
    Missing,
    /// It could not be looked for.
    Failed(String),
}

/// Whether the process that was looked for is there.
pub fn process_alive(answer: ProcessAnswer) -> (alive: Result<bool, Error>)
    ensures
        error::outcome_view(alive, |alive: bool| alive) == (match answer {
            ProcessAnswer::Present => Ok(true),
            ProcessAnswer::NotPermitted => Ok(true),
            ProcessAnswer::Missing => Ok(false),
            ProcessAnswer::Failed(reason) => Err(ErrorView::Io(reason@)),
        }),
{
    match answer {
        ProcessAnswer::Present => Ok(true),
        ProcessAnswer::NotPermitted => Ok(true),
        ProcessAnswer::Missing => Ok(false),
        ProcessAnswer::Failed(reason) => Err(Error::Io(reason)),
    }
}

/// What is done about a lock file that exists.
#[derive(Debug)]
pub enum LockStep {
    /// It goes, and the lock is tried again.
    RemoveAndRetry,
    /// It goes, and the daemon gives up.
    RemoveAndRefuse(Error),
    /// Its owner is alive: the daemon gives up.
    Refuse(Error),
}

/// What is done about a lock file that exists: it goes where the daemon that
/// wrote it is gone. `attempts_left` is how often the lock may be tried again.
pub fn lock_step(owner_alive: bool, attempts_left: u32) -> (step: LockStep)
    ensures
        if owner_alive {
            step matches LockStep::Refuse(error) && error@ == ErrorView::Config(
                "another loomd process is running"@,
            )
        } else if attempts_left > 0 {
            step is RemoveAndRetry
        } else {
            step matches LockStep::RemoveAndRefuse(error) && error@ == ErrorView::Config(
                "could not acquire daemon lock"@,
            )
        },
{
    if owner_alive {
        LockStep::Refuse(Error::Config("another loomd process is running".to_owned()))
    } else if attempts_left > 0 {
        LockStep::RemoveAndRetry
    } else {
        LockStep::RemoveAndRefuse(Error::Config("could not acquire daemon lock".to_owned()))
    }
}

/// What is done about the socket before the daemon listens there.
#[derive(Debug)]
pub enum SocketStep {
    /// Nothing.
    Keep,
    /// A file that nobody listens at goes.
    Remove,
    /// Another daemon listens there.
    Refuse(Error),
}

/// What is done about the socket: `answers` says whether someone listens
/// there, where it exists.
pub fn prepare_socket(socket: &str, present: bool, answers: bool) -> (step: SocketStep)
    ensures
        if !present {
            step is Keep
        } else if answers {
            step matches SocketStep::Refuse(error) && error@ == ErrorView::Config(
                "another loomd is already listening at "@ + socket@,
            )
        } else {
            step is Remove
        },
{
    if !present {
        SocketStep::Keep
    } else if answers {
        SocketStep::Refuse(
            Error::Config(joined("another loomd is already listening at ", socket)),
        )
    } else {
        SocketStep::Remove
    }
}

/// Only the user that runs the daemon may speak to it.
pub fn verify_peer(peer_uid: u32, daemon_uid: u32) -> (checked: Result<(), Error>)
    ensures
        error::outcome_view(checked, |u: ()| u) == (if peer_uid == daemon_uid {
            Ok(())
        } else {
            Err(
                ErrorView::PermissionDenied(
                    "peer uid "@ + text::decimal(peer_uid as nat) + " does not match daemon uid "@
                        + text::decimal(daemon_uid as nat),
                ),
            )
        }),
{
    if peer_uid == daemon_uid {
        return Ok(());
    }
    let mut reason = joined3(
        "peer uid ",
        decimal_text(peer_uid as u64).as_str(),
        " does not match daemon uid ",
    );
    reason.append(decimal_text(daemon_uid as u64).as_str());
    Err(Error::PermissionDenied(reason))
}

} // verus!
