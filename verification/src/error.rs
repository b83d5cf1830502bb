//! The ways in which a debugger operation can fail.

use vstd::prelude::*;

verus! {

/// Why an operation of the debugger did not complete.
#[derive(Clone, Copy, Debug, PartialEq, Eq, Structural)]
pub enum DebugError {
    /// The target could not be started under trace control.
    Launch,
    /// Resuming the traced process or waiting for it failed.
    Trace,
    /// The traced memory at the given address could not be read or written.
    MemoryAccess(usize),
    /// A breakpoint request names no known location or no planted trap.
    InvalidBreakpoint,
    /// The command needs a traced process and none is live.
    NoActiveProcess,
    /// The call stack could not be followed up to the entry function.
    Unwind,
}

} // verus!
