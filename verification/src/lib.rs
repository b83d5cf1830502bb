//! The tracing core of a small command-line debugger: breakpoint patching on
//! machine words, stop classification, frame-pointer unwinding and the
//! session controller that sequences them, together with two small text
//! utilities (line diffing and word counting).
//!
//! Nothing in this crate touches a process, a file or a terminal. The traced
//! process is modelled by the values the debugger reads from it; the program
//! built on top performs each requested action and hands back what happened.

pub mod error;

// Memory of the traced process and the traps planted in it.
pub mod word;
pub mod memory;
pub mod breakpoint;
pub mod inferior;

// Why a process halted, and where.
pub mod status;
pub mod symbols;
pub mod unwind;

// Commands and the session built on them.
pub mod number;
pub mod command;
pub mod protocol;
pub mod session;
pub mod session_laws;
pub mod debugger;

// Text utilities.
pub mod grid;
pub mod diff;
pub mod node;
