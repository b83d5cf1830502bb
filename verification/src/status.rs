//! Why a traced process is no longer running.

use vstd::prelude::*;
use crate::breakpoint::Restorepoint;
use crate::error::DebugError;
use crate::unwind::Registers;

verus! {

/// Number of the signal that a trap instruction raises.
pub const SIGTRAP: i32 = 5;

/// Width in bytes of the trap instruction.
pub const TRAP_WIDTH: usize = 1;

/// What waiting for a traced process reported, before it is interpreted.
#[derive(Clone, Copy, Debug, PartialEq, Eq, Structural)]
pub enum WaitReport {
    /// The process has exited with this status code.
    Exited(i32),
    /// The process was killed by this signal.
    Signaled(i32),
    /// The process is halted by this signal and can be inspected.
    Stopped(i32),
    /// Anything else the operating system may report of a process.
    Other,
}

/// The state of a traced process after it has run.
#[derive(Clone, Copy, Debug, PartialEq, Eq, Structural)]
pub enum Status {
    /// Indicates inferior stopped. Contains the signal that stopped the
    /// process, as well as the current instruction pointer that it is stopped
    /// at.
    Stopped(i32, usize),
    /// Indicates inferior exited normally. Contains the exit status code.
    Exited(i32),
    /// Indicates the inferior exited due to a signal. Contains the signal
    /// that killed the process.
    Signaled(i32),
}

/// The status that a wait report stands for. A halted process is only
/// classified once its registers are known; a report of any other kind, or
/// a halt without registers, is a failure of tracing.
pub open spec fn classify(report: WaitReport, regs: Option<Registers>) -> Result<
    Status,
    DebugError,
> {
    match report {
        WaitReport::Exited(code) => Ok(Status::Exited(code)),
        WaitReport::Signaled(signal) => Ok(Status::Signaled(signal)),
        WaitReport::Stopped(signal) => match regs {
            Some(regs) => Ok(Status::Stopped(signal, regs.instruction_pointer)),
            None => Err(DebugError::Trace),
        },
        WaitReport::Other => Err(DebugError::Trace),
    }
}

/// The address of the planted trap that halted the process, if that is
/// why it is halted: the process stopped on the trap signal, right behind
/// an address that the table holds.
pub open spec fn trap_hit(status: Status, table: Map<usize, Restorepoint>) -> Option<usize> {
    match status {
        Status::Stopped(signal, ip) => if signal == SIGTRAP && ip >= TRAP_WIDTH
            && table.contains_key((ip - TRAP_WIDTH) as usize) {
            Some((ip - TRAP_WIDTH) as usize)
        } else {
            None
        },
        _ => None,
    }
}

impl Status {
    /// Whether the process is still there to be resumed or inspected.
    pub fn is_live(&self) -> (live: bool)
        ensures
            live == (*self is Stopped),
    {
        match self {
            Status::Stopped(_, _) => true,
            _ => false,
        }
    }
}

} // verus!
