//! The decisions of a session with the analyzer process: what a read does
//! once the decoder has answered, how long to wait for the process to exit,
//! and how to terminate it. The caller performs each action and reports back.

use crate::decoder::DecodeError;
use crate::model::Packet;
use vstd::prelude::*;

verus! {

/// What is known of the analyzer process.
#[derive(Clone, Copy, Debug, PartialEq, Eq, Structural)]
pub enum ProcessState {
    /// It may still be running.
    Running,
    /// It has exited, or has been terminated and reaped.
    Ended,
}

/// Why a read failed.
#[derive(Clone, Debug, PartialEq)]
pub enum ReadError {
    /// The report could not be decoded.
    Decode(DecodeError),
    /// The process ended and left this line on its error channel.
    Diagnostic(String),
}

/// What a read does next.
#[derive(Debug)]
pub enum ReadStep {
    /// The read is over, with this result.
    Finish(Result<Option<Packet>, ReadError>),
    /// Find out whether the process has exited.
    PollExit,
    /// Read one line of the process's error channel.
    ReadDiagnostic,
}

/// What a read does once the decoder has answered.
pub open spec fn decoded_step(state: ProcessState, decoded: Result<Option<Packet>, DecodeError>) -> ReadStep {
    match decoded {
        Ok(Some(p)) => ReadStep::Finish(Ok(Some(p))),
        Err(e) => ReadStep::Finish(Err(ReadError::Decode(e))),
        Ok(None) => match state {
            ProcessState::Running => ReadStep::PollExit,
            ProcessState::Ended => ReadStep::ReadDiagnostic,
        },
    }
}

/// A packet is handed on as it is; an error is reported; the end of the
/// stream asks whether the process has ended.
pub fn after_decode(state: ProcessState, decoded: Result<Option<Packet>, DecodeError>) -> (r: ReadStep)
    ensures
        r == decoded_step(state, decoded),
{
    match decoded {
        Ok(Some(p)) => ReadStep::Finish(Ok(Some(p))),
        Err(e) => ReadStep::Finish(Err(ReadError::Decode(e))),
        Ok(None) => match state {
            ProcessState::Running => ReadStep::PollExit,
            ProcessState::Ended => ReadStep::ReadDiagnostic,
        },
    }
}

/// What a read does once it knows whether the process has exited.
pub open spec fn polled_step(exited: bool) -> (ProcessState, ReadStep) {
    if exited {
        (ProcessState::Ended, ReadStep::ReadDiagnostic)
    } else {
        (ProcessState::Running, ReadStep::Finish(Ok(None)))
    }
}

/// An exited process means the true end of the stream: its error channel
/// is read. A running one means no packet for now.
pub fn after_exit_poll(exited: bool) -> (r: (ProcessState, ReadStep))
    ensures
        r == polled_step(exited),
{
    if exited {
        (ProcessState::Ended, ReadStep::ReadDiagnostic)
    } else {
        (ProcessState::Running, ReadStep::Finish(Ok(None)))
    }
}

/// The result of a read that ended with the process: an error carrying the
/// diagnostic line where there is one, else the clean end.
pub open spec fn diagnostic_outcome(line: String) -> Result<Option<Packet>, ReadError> {
    if line@.len() > 0 {
        Err(ReadError::Diagnostic(line))
    } else {
        Ok(None)
    }
}

/// Turns the line read from the error channel into the read's result.
pub fn after_diagnostic(line: String) -> (r: Result<Option<Packet>, ReadError>)
    ensures
        r == diagnostic_outcome(line),
{
    if line.as_str().is_empty() {
        Ok(None)
    } else {
        Err(ReadError::Diagnostic(line))
    }
}

/// How many times the exit status is polled before a read gives up waiting.
pub const EXIT_POLL_ATTEMPTS: u32 = 3;

/// What one poll of the exit status leads to.
#[derive(Clone, Copy, Debug, PartialEq, Eq, Structural)]
pub enum PollStep {
    /// The status is known: whether the process ended with a code or a signal.
    Exited(bool),
    /// Sleep a little, then poll again if attempts remain.
    SleepThen(u32),
}

/// After one poll with `remaining` attempts left: a known status decides;
/// otherwise one attempt is spent waiting.
pub fn poll_exit(remaining: u32, status: Option<bool>) -> (r: PollStep)
    requires
        remaining > 0,
    ensures
        match status {
            Some(b) => r == PollStep::Exited(b),
            None => r == PollStep::SleepThen((remaining - 1) as u32),
        },
{
    match status {
        Some(b) => PollStep::Exited(b),
        None => PollStep::SleepThen(remaining - 1),
    }
}

/// What terminating the process takes.
#[derive(Clone, Copy, Debug, PartialEq, Eq, Structural)]
pub enum TerminateAction {
    /// It has already ended: nothing to do.
    Nothing,
    /// It has exited on its own: forget it.
    Forget,
    /// Send it the termination signal, wait until it is reaped, then forget it.
    KillAndReap,
}

/// Termination is idempotent: an ended process is left alone, an exited one
/// forgotten, a running one killed and reaped; the process is ended afterwards.
pub fn terminate_action(state: ProcessState, exited: bool) -> (r: (TerminateAction, ProcessState))
    ensures
        r.1 == ProcessState::Ended,
        state == ProcessState::Ended ==> r.0 == TerminateAction::Nothing,
        state == ProcessState::Running && exited ==> r.0 == TerminateAction::Forget,
        state == ProcessState::Running && !exited ==> r.0 == TerminateAction::KillAndReap,
{
    match state {
        ProcessState::Ended => (TerminateAction::Nothing, ProcessState::Ended),
        ProcessState::Running => if exited {
            (TerminateAction::Forget, ProcessState::Ended)
        } else {
            (TerminateAction::KillAndReap, ProcessState::Ended)
        },
    }
}

/// Once the process has exited leaving diagnostic text, the read that meets
/// the end of the stream reports that text as an error, not the clean end:
/// it polls, learns of the exit, reads the line and fails with it.
pub proof fn law_exit_diagnostic_surfaces(line: String)
    requires
        line@.len() > 0,
    ensures
        decoded_step(ProcessState::Running, Ok(None)) == ReadStep::PollExit,
        polled_step(true) == (ProcessState::Ended, ReadStep::ReadDiagnostic),
        decoded_step(ProcessState::Ended, Ok(None)) == ReadStep::ReadDiagnostic,
        diagnostic_outcome(line) == Err::<Option<Packet>, ReadError>(ReadError::Diagnostic(line)),
{
}

} // verus!
