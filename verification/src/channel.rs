//! The command side of the control channel: building the switch command
//! for a layout, and the decision logic of the write-retry protocol that
//! sends it over a possibly not-yet-writable connection.
//!
//! The daemon's caller performs the socket work (connect, wait until
//! writable, try a non-blocking write) and reports each attempt's outcome;
//! the decision what to do with an outcome, and the guarantee that the
//! command goes out exactly once, live here.

use vstd::prelude::*;
use vstd::string::*;

use crate::layout::{layout_code, Layout};

verus! {

/// The command line that asks the compositor to switch the active
/// keyboard to the layout with the given code.
pub open spec fn switch_command_spec(code: Seq<char>) -> Seq<char> {
    "switchxkblayout current "@ + code + "\n"@
}

/// The full command payload for `layout`, or nothing when the layout's
/// name has no code — then there is nothing to tell the compositor.
pub fn switch_layout_command(layout: &Layout) -> (cmd: Option<String>)
    ensures
        (match layout_code(layout@) {
            Some(code) => cmd matches Some(c) && c@ == switch_command_spec(code),
            None => cmd is None,
        }),
{
    match layout.code() {
        Some(code) => {
            let mut s = String::from_str("switchxkblayout current ");
            s.append(code);
            s.append("\n");
            Some(s)
        },
        None => None,
    }
}

/// What one non-blocking write attempt reported.
#[derive(Clone, Copy, PartialEq, Eq, Structural, Debug)]
pub enum WriteAttempt {
    /// The socket accepted data; the short command line counts as fully
    /// written.
    Accepted,
    /// The socket accepted nothing yet; waiting and retrying is expected.
    WouldBlock,
    /// Any other I/O failure; the operation must be abandoned.
    Fatal,
}

/// What the retry protocol does after an attempt.
#[derive(Clone, Copy, PartialEq, Eq, Structural, Debug)]
pub enum WriteDecision {
    Done,
    Retry,
    Abort,
}

/// The retry protocol's reaction to one attempt: an accepted write
/// completes the operation, a would-block means wait and try again, and
/// any other failure abandons it.
pub fn write_step(attempt: &WriteAttempt) -> (d: WriteDecision)
    ensures
        d == (match attempt {
            WriteAttempt::Accepted => WriteDecision::Done,
            WriteAttempt::WouldBlock => WriteDecision::Retry,
            WriteAttempt::Fatal => WriteDecision::Abort,
        }),
{
    match attempt {
        WriteAttempt::Accepted => WriteDecision::Done,
        WriteAttempt::WouldBlock => WriteDecision::Retry,
        WriteAttempt::Fatal => WriteDecision::Abort,
    }
}

/// How a run of the retry protocol ended.
#[derive(Clone, Copy, PartialEq, Eq, Structural, Debug)]
pub enum WriteOutcome {
    /// The command was accepted on the last attempt made; every earlier
    /// attempt would have blocked, so it went out exactly once.
    Sent { attempts_used: usize },
    /// The last attempt made failed fatally; nothing was accepted.
    Failed { attempts_used: usize },
    /// Every available attempt would have blocked; nothing was sent yet.
    Exhausted,
}

/// Runs the retry protocol against a connection whose successive write
/// attempts report the given outcomes: attempts are consumed in order
/// until one is decisive, and a decisive attempt is always the last one
/// taken — so an accepted command is sent exactly once.
pub fn run_write_attempts(attempts: &Vec<WriteAttempt>) -> (r: WriteOutcome)
    ensures
        (r matches WriteOutcome::Sent { attempts_used } ==> 1 <= attempts_used
            <= attempts@.len() && attempts@[attempts_used - 1] is Accepted && (forall|k: int|
            0 <= k < attempts_used - 1 ==> attempts@[k] is WouldBlock)),
        (r matches WriteOutcome::Failed { attempts_used } ==> 1 <= attempts_used
            <= attempts@.len() && attempts@[attempts_used - 1] is Fatal && (forall|k: int|
            0 <= k < attempts_used - 1 ==> attempts@[k] is WouldBlock)),
        (r is Exhausted ==> forall|k: int|
            0 <= k < attempts@.len() ==> attempts@[k] is WouldBlock),
{
    let mut i: usize = 0;
    while i < attempts.len()
        invariant
            i <= attempts@.len(),
            forall|k: int| 0 <= k < i ==> attempts@[k] is WouldBlock,
        decreases attempts@.len() - i,
    {
        match write_step(&attempts[i]) {
            WriteDecision::Done => {
                return WriteOutcome::Sent { attempts_used: i + 1 };
            },
            WriteDecision::Abort => {
                return WriteOutcome::Failed { attempts_used: i + 1 };
            },
            WriteDecision::Retry => {
                i = i + 1;
            },
        }
    }
    WriteOutcome::Exhausted
}

} // verus!
