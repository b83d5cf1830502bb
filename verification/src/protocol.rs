//! What passes between the session controller and the program that drives
//! it.
//!
//! The controller never acts on the outside world. It answers each event
//! with the messages to show and the one action to perform next; the
//! outcome of that action is the next event.

use vstd::prelude::*;
use crate::command::{BreakTarget, DebuggerCommand};
use crate::error::DebugError;
use crate::status::WaitReport;
use crate::symbols::Line;
use crate::unwind::{Frame, Registers};

verus! {

/// Something for the driving program to do.
#[derive(Clone, Debug, PartialEq, Eq)]
pub enum Action {
    /// Ask the user for the next command.
    Prompt,
    /// Kill the traced process with this id and collect it.
    Kill(i32),
    /// Start the target with these arguments under trace control and wait
    /// for its first halt.
    Launch(Vec<String>),
    /// Read from the process the word at this aligned address.
    ReadWord(i32, usize),
    /// Write to the process, at this aligned address, this word.
    WriteWord(i32, usize, u64),
    /// Let the process run and wait until it halts or is gone.
    Resume(i32),
    /// Read the registers of the halted process.
    ReadRegisters(i32),
    /// Look up the function and the source line of this code address.
    Describe(usize),
    /// Look up the code address of this line or function.
    Locate(BreakTarget),
    /// Find out whether the process has gone away by itself.
    CheckExited(i32),
    /// Leave the debugger.
    Exit,
}

/// An [`Action`] as a mathematical value.
pub enum ActionView {
    Prompt,
    Kill(i32),
    Launch(Seq<String>),
    ReadWord(i32, usize),
    WriteWord(i32, usize, u64),
    Resume(i32),
    ReadRegisters(i32),
    Describe(usize),
    Locate(BreakTarget),
    CheckExited(i32),
    Exit,
}

impl View for Action {
    type V = ActionView;

    open spec fn view(&self) -> ActionView {
        match *self {
            Action::Prompt => ActionView::Prompt,
            Action::Kill(pid) => ActionView::Kill(pid),
            Action::Launch(args) => ActionView::Launch(args@),
            Action::ReadWord(pid, addr) => ActionView::ReadWord(pid, addr),
            Action::WriteWord(pid, addr, word) => ActionView::WriteWord(pid, addr, word),
            Action::Resume(pid) => ActionView::Resume(pid),
            Action::ReadRegisters(pid) => ActionView::ReadRegisters(pid),
            Action::Describe(addr) => ActionView::Describe(addr),
            Action::Locate(target) => ActionView::Locate(target),
            Action::CheckExited(pid) => ActionView::CheckExited(pid),
            Action::Exit => ActionView::Exit,
        }
    }
}

/// What came of the action last asked for.
#[derive(Clone, Debug, PartialEq, Eq)]
pub enum Event {
    /// The user gave this command.
    Command(DebuggerCommand),
    /// The user's input has ended.
    EndOfInput,
    /// The process was killed and collected.
    Killed,
    /// The target was started and has this process id, or could not be
    /// started.
    Launched(Option<i32>),
    /// The word read, or `None` when reading failed.
    Word(Option<u64>),
    /// Whether the word was written.
    Written(bool),
    /// What waiting for the resumed process reported, or `None` when
    /// resuming or waiting failed.
    Waited(Option<WaitReport>),
    /// The registers read, or `None` when reading them failed.
    Registers(Option<Registers>),
    /// The function and the source line found for the address asked about.
    Described(Option<String>, Option<Line>),
    /// The code address found for the line or function asked about.
    Located(Option<usize>),
    /// Whether the process had gone away by itself.
    Exited(bool),
}

/// Something to tell the user.
#[derive(Clone, Debug, PartialEq, Eq)]
pub enum Message {
    /// The traced process with this id is being killed.
    Killing(i32),
    /// The traced process exited with this status code.
    Exited(i32),
    /// The traced process was killed by this signal.
    Signaled(i32),
    /// The traced process halted on this signal at this instruction address.
    Stopped(i32, usize),
    /// The source line at which the traced process has halted.
    StoppedAt(Line),
    /// The traced process halted on the breakpoint at this address.
    BreakpointHit(usize),
    /// A breakpoint at this address is known from now on.
    BreakpointSet(usize),
    /// One frame of the call stack.
    Frame(Frame),
    /// The command failed in this way.
    Failure(DebugError),
}

/// The controller's answer to an event.
#[derive(Clone, Debug, PartialEq, Eq)]
pub struct Reaction {
    /// What to tell the user, in this order.
    pub messages: Vec<Message>,
    /// What to do next.
    pub action: Action,
}

/// A [`Reaction`] as a mathematical value.
pub struct ReactionView {
    pub messages: Seq<Message>,
    pub action: ActionView,
}

impl View for Reaction {
    type V = ReactionView;

    open spec fn view(&self) -> ReactionView {
        ReactionView { messages: self.messages@, action: self.action@ }
    }
}

/// What the controller goes on to once the traced process has been killed.
#[derive(Clone, Debug, PartialEq, Eq)]
pub enum AfterKill {
    /// Start the target anew with these arguments.
    Launch(Vec<String>),
    /// Ask for the next command.
    Prompt,
    /// Leave the debugger.
    Exit,
}

/// What the controller goes on to once the pending breakpoints are planted.
#[derive(Clone, Copy, Debug, PartialEq, Eq, Structural)]
pub enum AfterPlant {
    /// Let the process run.
    Resume,
    /// Ask for the next command.
    Prompt,
}

/// Where the controller stands: which event it is waiting for, and what
/// it keeps in mind meanwhile.
#[derive(Clone, Debug, PartialEq, Eq)]
pub enum Phase {
    /// Waiting for a command.
    Prompt,
    /// Waiting for the old process to be killed.
    Killing(AfterKill),
    /// Waiting for the target to be started.
    Launching,
    /// Waiting for the word that holds the first of the pending breakpoints.
    Planting(AfterPlant),
    /// Waiting for the word with the new trap at this address to be written.
    Planted(AfterPlant, usize),
    /// Waiting for the resumed process to halt or go away.
    Resuming,
    /// Waiting for the registers of the process, halted by this signal.
    Halted(i32),
    /// Waiting for the word that holds the trap the process has hit. The
    /// process was halted by this signal with these registers.
    Restoring(i32, Registers),
    /// Waiting for the word with the restored byte to be written. The
    /// process was halted by this signal at this instruction address, on the
    /// trap at the address named last.
    Restored(i32, usize, usize),
    /// Waiting for the source line of this instruction address, at which the
    /// process has halted.
    Locating(usize),
    /// Waiting for the registers of the process to start a backtrace from.
    Tracing,
    /// Waiting, during a backtrace from these registers, for what the debug
    /// information says about this address.
    TracingSymbol(Registers, usize),
    /// Waiting, during a backtrace from these registers, for the word at
    /// this address.
    TracingWord(Registers, usize),
    /// Waiting for the address of the line or function named in a `break`
    /// command.
    Resolving,
    /// Waiting to learn whether the process is already gone, before leaving.
    Leaving,
    /// The debugger has been left.
    Finished,
}

} // verus!
