//! The session controller as a mathematical state machine.
//!
//! A session owns at most one traced process, the breakpoints waiting to be
//! planted, the table of planted traps and what has been learnt from the
//! debug information. [`step`] says, for every state and every event, what
//! the state becomes and how the controller reacts.
//!
//! Breakpoints are planted once per run of the target. A trap that has been
//! hit is taken out of memory, so that the instruction it stood on is whole
//! again, and stays out for the rest of that run; the instruction pointer
//! is left where the process halted, one byte behind the trap. When the
//! process goes away, every known breakpoint waits again for the next run.
//!
//! A breakpoint asked for at the prompt waits in the pending list. The
//! pending list is planted when a process has been started, before it runs
//! for the first time, and after every later halt, once the halt has been
//! reported. The breakpoints are planted one by one: the word that holds
//! one is read, the trap is put in, the word is written back, and only a
//! trap whose word has reached the process stays in the table.
//!
//! A failure to read or write memory ends the operation it belongs to and
//! nothing else. A failure of tracing itself has the process killed.

use vstd::prelude::*;
use crate::breakpoint::Restorepoint;
use crate::command::{break_target, BreakTarget, DebuggerCommand};
use crate::error::DebugError;
use crate::inferior::InferiorView;
use crate::memory::{mem_byte, mem_with_byte};
use crate::protocol::{ActionView, AfterKill, AfterPlant, Event, Message, Phase, ReactionView};
use crate::status::{trap_hit, Status, WaitReport};
use crate::symbols::{Line, Symbol};
use crate::unwind::{backtrace, Frame, Registers, UnwoundView};
use crate::word::{word_base, TRAP_OPCODE};

verus! {

/// The state of a session.
pub struct DebuggerView {
    /// The traced process, while there is one.
    pub inferior: Option<InferiorView>,
    /// The breakpoints asked for and not yet planted, oldest first.
    pub break_list: Seq<usize>,
    /// The breakpoints planted in the traced process, in planting order.
    pub installed: Seq<usize>,
    /// What each planted trap has overwritten.
    pub restore_map: Map<usize, Restorepoint>,
    /// What is known about code addresses.
    pub debug_data: Map<usize, Symbol>,
    /// Which event the controller is waiting for.
    pub phase: Phase,
}

/// The state in which a session starts.
pub open spec fn initial() -> DebuggerView {
    DebuggerView {
        inferior: None,
        break_list: Seq::empty(),
        installed: Seq::empty(),
        restore_map: Map::empty(),
        debug_data: Map::empty(),
        phase: Phase::Prompt,
    }
}

/// What holds of every state a session can reach: no breakpoint is known
/// twice, the table holds exactly the planted breakpoints, nothing is
/// planted without a process, no process is held while another is being
/// started, and a trap whose writing is awaited is the one planted last.
pub open spec fn wf(s: DebuggerView) -> bool {
    &&& (s.installed + s.break_list).no_duplicates()
    &&& forall|a: usize| s.restore_map.contains_key(a) <==> s.installed.contains(a)
    &&& forall|a: usize| s.restore_map.contains_key(a) ==> (#[trigger] s.restore_map[a]).addr == a
    &&& s.inferior is None ==> s.installed.len() == 0
    &&& s.phase is Launching ==> s.inferior is None
    &&& s.phase matches Phase::Planted(_, addr) ==> s.installed.len() > 0 && s.installed.last()
        == addr
}

/// The state `s`, waiting for a command.
pub open spec fn at_prompt(s: DebuggerView) -> DebuggerView {
    DebuggerView { phase: Phase::Prompt, ..s }
}

/// The state `s` once its process is gone: nothing is planted any more,
/// and every known breakpoint waits for the next process.
pub open spec fn retire(s: DebuggerView) -> DebuggerView {
    DebuggerView {
        inferior: None,
        break_list: s.installed + s.break_list,
        installed: Seq::empty(),
        restore_map: Map::empty(),
        ..s
    }
}

/// Whether a breakpoint at `addr` is already known to the session.
pub open spec fn known(s: DebuggerView, addr: usize) -> bool {
    s.break_list.contains(addr) || s.installed.contains(addr)
}

/// An event that the controller was not waiting for: it drops what it was
/// doing and asks for a command.
pub open spec fn stray(s: DebuggerView) -> (DebuggerView, ReactionView) {
    (at_prompt(s), ReactionView { messages: Seq::empty(), action: ActionView::Prompt })
}

/// Tracing has failed: the process can no longer be relied on and is
/// killed.
pub open spec fn give_up(s: DebuggerView, messages: Seq<Message>) -> (DebuggerView, ReactionView) {
    match s.inferior {
        Some(inferior) => (
            DebuggerView { phase: Phase::Killing(AfterKill::Prompt), ..s },
            ReactionView {
                messages: messages.push(Message::Failure(DebugError::Trace)),
                action: ActionView::Kill(inferior.pid),
            },
        ),
        None => (
            at_prompt(s),
            ReactionView {
                messages: messages.push(Message::Failure(DebugError::Trace)),
                action: ActionView::Prompt,
            },
        ),
    }
}

/// The pending breakpoints are dealt with: resume the process if that is
/// what comes `next`, else ask for a command.
pub open spec fn go_on(s: DebuggerView, messages: Seq<Message>, next: AfterPlant) -> (
    DebuggerView,
    ReactionView,
) {
    match s.inferior {
        Some(inferior) if next == AfterPlant::Resume => (
            DebuggerView { phase: Phase::Resuming, ..s },
            ReactionView { messages, action: ActionView::Resume(inferior.pid) },
        ),
        _ => (at_prompt(s), ReactionView { messages, action: ActionView::Prompt }),
    }
}

/// Starts planting the first of the pending breakpoints in the halted
/// process, by asking for the word that holds it. With nothing pending,
/// goes straight on to what comes `next`.
pub open spec fn plant_pending(s: DebuggerView, messages: Seq<Message>, next: AfterPlant) -> (
    DebuggerView,
    ReactionView,
) {
    match s.inferior {
        Some(inferior) if s.break_list.len() > 0 => (
            DebuggerView { phase: Phase::Planting(next), ..s },
            ReactionView {
                messages,
                action: ActionView::ReadWord(inferior.pid, word_base(s.break_list[0])),
            },
        ),
        _ => go_on(s, messages, next),
    }
}

/// The process with the word that holds `addr` known to read `word`, or
/// known to be unreadable.
pub open spec fn with_word(inferior: InferiorView, addr: usize, word: Option<u64>) -> InferiorView {
    match word {
        Some(word) => InferiorView {
            memory: inferior.memory.insert(word_base(addr), word),
            ..inferior
        },
        None => InferiorView { faults: inferior.faults.insert(word_base(addr)), ..inferior },
    }
}

/// The process with nothing known of its memory.
pub open spec fn forgetful(inferior: InferiorView) -> InferiorView {
    InferiorView { memory: Map::empty(), faults: Set::empty(), ..inferior }
}

/// The state `s` with the trap at `addr`, planted last, taken back: its
/// word did not reach the process, so the breakpoint is given up and what is
/// known of the memory is no longer relied on.
pub open spec fn unplant(s: DebuggerView, addr: usize) -> DebuggerView {
    DebuggerView {
        inferior: match s.inferior {
            Some(inferior) => Some(forgetful(inferior)),
            None => None,
        },
        installed: if s.installed.len() > 0 && s.installed.last() == addr {
            s.installed.drop_last()
        } else {
            s.installed
        },
        restore_map: s.restore_map.remove(addr),
        ..s
    }
}

/// The frames of a backtrace as messages.
pub open spec fn frame_messages(frames: Seq<Frame>) -> Seq<Message> {
    frames.map_values(|frame: Frame| Message::Frame(frame))
}

/// Tells that the process has halted and asks for the source line it has
/// halted at.
pub open spec fn report_stop(s: DebuggerView, messages: Seq<Message>, signal: i32, ip: usize) -> (
    DebuggerView,
    ReactionView,
) {
    (
        DebuggerView { phase: Phase::Locating(ip), ..s },
        ReactionView {
            messages: messages.push(Message::Stopped(signal, ip)),
            action: ActionView::Describe(ip),
        },
    )
}

/// Queues a breakpoint at `addr`, unless it is known already.
pub open spec fn queue(s: DebuggerView, addr: usize) -> (DebuggerView, ReactionView) {
    (
        DebuggerView {
            break_list: if known(s, addr) {
                s.break_list
            } else {
                s.break_list.push(addr)
            },
            phase: Phase::Prompt,
            ..s
        },
        ReactionView {
            messages: seq![Message::BreakpointSet(addr)],
            action: ActionView::Prompt,
        },
    )
}

/// Leaves the debugger, after making sure that no process is left behind.
pub open spec fn quit(s: DebuggerView) -> (DebuggerView, ReactionView) {
    match s.inferior {
        Some(inferior) => (
            DebuggerView { phase: Phase::Leaving, ..s },
            ReactionView {
                messages: Seq::empty(),
                action: ActionView::CheckExited(inferior.pid),
            },
        ),
        None => (
            DebuggerView { phase: Phase::Finished, ..s },
            ReactionView { messages: Seq::empty(), action: ActionView::Exit },
        ),
    }
}

/// A command that needs a process was given without one.
pub open spec fn no_process(s: DebuggerView) -> (DebuggerView, ReactionView) {
    (
        at_prompt(s),
        ReactionView {
            messages: seq![Message::Failure(DebugError::NoActiveProcess)],
            action: ActionView::Prompt,
        },
    )
}

/// The reaction to a command given at the prompt.
pub open spec fn on_command(s: DebuggerView, command: DebuggerCommand) -> (
    DebuggerView,
    ReactionView,
) {
    match command {
        DebuggerCommand::Run(args) => match s.inferior {
            Some(inferior) => (
                DebuggerView { phase: Phase::Killing(AfterKill::Launch(args)), ..s },
                ReactionView {
                    messages: seq![Message::Killing(inferior.pid)],
                    action: ActionView::Kill(inferior.pid),
                },
            ),
            None => (
                DebuggerView { phase: Phase::Launching, ..s },
                ReactionView { messages: Seq::empty(), action: ActionView::Launch(args@) },
            ),
        },
        DebuggerCommand::Continue => match s.inferior {
            Some(inferior) => (
                DebuggerView { phase: Phase::Resuming, ..s },
                ReactionView {
                    messages: Seq::empty(),
                    action: ActionView::Resume(inferior.pid),
                },
            ),
            None => no_process(s),
        },
        DebuggerCommand::Backtrace => match s.inferior {
            Some(inferior) => (
                DebuggerView { phase: Phase::Tracing, ..s },
                ReactionView {
                    messages: Seq::empty(),
                    action: ActionView::ReadRegisters(inferior.pid),
                },
            ),
            None => no_process(s),
        },
        DebuggerCommand::Break(arg) => match break_target(arg) {
            Some(BreakTarget::Address(addr)) => queue(s, addr),
            Some(target) => (
                DebuggerView { phase: Phase::Resolving, ..s },
                ReactionView { messages: Seq::empty(), action: ActionView::Locate(target) },
            ),
            None => (
                at_prompt(s),
                ReactionView {
                    messages: seq![Message::Failure(DebugError::InvalidBreakpoint)],
                    action: ActionView::Prompt,
                },
            ),
        },
        DebuggerCommand::Quit => quit(s),
    }
}

/// The process has been killed: what was put off until then happens now.
pub open spec fn on_killed(s: DebuggerView, after: AfterKill) -> (DebuggerView, ReactionView) {
    match after {
        AfterKill::Launch(args) => (
            DebuggerView { phase: Phase::Launching, ..retire(s) },
            ReactionView { messages: Seq::empty(), action: ActionView::Launch(args@) },
        ),
        AfterKill::Prompt => (
            at_prompt(retire(s)),
            ReactionView { messages: Seq::empty(), action: ActionView::Prompt },
        ),
        AfterKill::Exit => (
            DebuggerView { phase: Phase::Finished, ..retire(s) },
            ReactionView { messages: Seq::empty(), action: ActionView::Exit },
        ),
    }
}

/// The target has been started, or not.
pub open spec fn on_launched(s: DebuggerView, pid: Option<i32>) -> (DebuggerView, ReactionView) {
    match pid {
        Some(pid) => plant_pending(
            DebuggerView {
                inferior: Some(
                    InferiorView { pid, memory: Map::empty(), faults: Set::empty() },
                ),
                ..retire(s)
            },
            Seq::empty(),
            AfterPlant::Resume,
        ),
        None => (
            at_prompt(retire(s)),
            ReactionView {
                messages: seq![Message::Failure(DebugError::Launch)],
                action: ActionView::Prompt,
            },
        ),
    }
}

/// The word that holds the first pending breakpoint has come in: the trap
/// is planted in it and recorded, and the word goes back to the process. A
/// breakpoint whose word could not be read is reported and given up, one
/// that is planted already is passed over, and the next one is taken up.
pub open spec fn on_planting_word(s: DebuggerView, next: AfterPlant, word: Option<u64>) -> (
    DebuggerView,
    ReactionView,
) {
    match s.inferior {
        Some(inferior) if s.break_list.len() > 0 => {
            let addr = s.break_list[0];
            let rest = DebuggerView { break_list: s.break_list.skip(1), ..s };
            if s.restore_map.contains_key(addr) {
                plant_pending(rest, Seq::empty(), next)
            } else if word is Some {
                let read = with_word(inferior, addr, word);
                let memory = mem_with_byte(read.memory, addr, TRAP_OPCODE);
                (
                    DebuggerView {
                        inferior: Some(InferiorView { memory, ..read }),
                        installed: s.installed.push(addr),
                        restore_map: s.restore_map.insert(
                            addr,
                            Restorepoint { addr, orig_byte: mem_byte(read.memory, addr) },
                        ),
                        phase: Phase::Planted(next, addr),
                        ..rest
                    },
                    ReactionView {
                        messages: Seq::empty(),
                        action: ActionView::WriteWord(
                            inferior.pid,
                            word_base(addr),
                            memory[word_base(addr)],
                        ),
                    },
                )
            } else {
                plant_pending(
                    DebuggerView { inferior: Some(with_word(inferior, addr, word)), ..rest },
                    seq![Message::Failure(DebugError::MemoryAccess(addr))],
                    next,
                )
            }
        },
        _ => stray(s),
    }
}

/// Writing the word with the new trap at `addr` has come to an end. Where
/// it failed, the trap is taken back and the breakpoint reported and given
/// up. Either way the next pending breakpoint is taken up.
pub open spec fn on_planted(s: DebuggerView, next: AfterPlant, addr: usize, done: bool) -> (
    DebuggerView,
    ReactionView,
) {
    if done {
        plant_pending(s, Seq::empty(), next)
    } else {
        plant_pending(
            unplant(s, addr),
            seq![Message::Failure(DebugError::MemoryAccess(addr))],
            next,
        )
    }
}

/// Waiting for the resumed process has come to an end.
pub open spec fn on_waited(s: DebuggerView, report: Option<WaitReport>) -> (
    DebuggerView,
    ReactionView,
) {
    match report {
        Some(WaitReport::Exited(code)) => (
            at_prompt(retire(s)),
            ReactionView { messages: seq![Message::Exited(code)], action: ActionView::Prompt },
        ),
        Some(WaitReport::Signaled(signal)) => (
            at_prompt(retire(s)),
            ReactionView {
                messages: seq![Message::Signaled(signal)],
                action: ActionView::Prompt,
            },
        ),
        Some(WaitReport::Stopped(signal)) => match s.inferior {
            Some(inferior) => (
                DebuggerView { phase: Phase::Halted(signal), ..s },
                ReactionView {
                    messages: Seq::empty(),
                    action: ActionView::ReadRegisters(inferior.pid),
                },
            ),
            None => stray(s),
        },
        _ => give_up(s, Seq::empty()),
    }
}

/// The registers of the halted process have come in. What was known of
/// its memory is forgotten, since it has run. Where it has halted on a
/// planted trap, the word holding the trap is asked for.
pub open spec fn on_halted(s: DebuggerView, signal: i32, regs: Option<Registers>) -> (
    DebuggerView,
    ReactionView,
) {
    match (regs, s.inferior) {
        (Some(regs), Some(inferior)) => {
            let halted = DebuggerView { inferior: Some(forgetful(inferior)), ..s };
            match trap_hit(Status::Stopped(signal, regs.instruction_pointer), s.restore_map) {
                Some(addr) => (
                    DebuggerView { phase: Phase::Restoring(signal, regs), ..halted },
                    ReactionView {
                        messages: Seq::empty(),
                        action: ActionView::ReadWord(inferior.pid, word_base(addr)),
                    },
                ),
                None => report_stop(halted, Seq::empty(), signal, regs.instruction_pointer),
            }
        },
        _ => give_up(s, Seq::empty()),
    }
}

/// The word holding the trap that was hit has come in: the byte that the
/// trap had overwritten is put back and the word returns to the process.
/// Where the word could not be read, the trap stays and the halt is
/// reported with that failure.
pub open spec fn on_restoring_word(
    s: DebuggerView,
    signal: i32,
    regs: Registers,
    word: Option<u64>,
) -> (DebuggerView, ReactionView) {
    match (s.inferior, trap_hit(Status::Stopped(signal, regs.instruction_pointer), s.restore_map)) {
        (Some(inferior), Some(addr)) => {
            let read = with_word(inferior, addr, word);
            if word is Some {
                let memory = mem_with_byte(read.memory, addr, s.restore_map[addr].orig_byte);
                (
                    DebuggerView {
                        inferior: Some(InferiorView { memory, ..read }),
                        phase: Phase::Restored(signal, regs.instruction_pointer, addr),
                        ..s
                    },
                    ReactionView {
                        messages: seq![Message::BreakpointHit(addr)],
                        action: ActionView::WriteWord(
                            inferior.pid,
                            word_base(addr),
                            memory[word_base(addr)],
                        ),
                    },
                )
            } else {
                report_stop(
                    DebuggerView { inferior: Some(read), ..s },
                    seq![Message::Failure(DebugError::MemoryAccess(addr))],
                    signal,
                    regs.instruction_pointer,
                )
            }
        },
        _ => stray(s),
    }
}

/// Writing the word with the restored byte has come to an end. Where it
/// failed, the trap is still in the process: what is known of the memory is
/// no longer relied on, and the halt is reported with that failure.
pub open spec fn on_restored(s: DebuggerView, signal: i32, ip: usize, addr: usize, done: bool) -> (
    DebuggerView,
    ReactionView,
) {
    if done {
        report_stop(s, Seq::empty(), signal, ip)
    } else {
        report_stop(
            DebuggerView {
                inferior: match s.inferior {
                    Some(inferior) => Some(forgetful(inferior)),
                    None => None,
                },
                ..s
            },
            seq![Message::Failure(DebugError::MemoryAccess(addr))],
            signal,
            ip,
        )
    }
}

/// The source line of the halt has come in: it is shown, and the
/// breakpoints asked for since the last halt are planted.
pub open spec fn on_located(
    s: DebuggerView,
    ip: usize,
    function: Option<String>,
    line: Option<Line>,
) -> (DebuggerView, ReactionView) {
    plant_pending(
        DebuggerView { debug_data: s.debug_data.insert(ip, Symbol { function, line }), ..s },
        match line {
            Some(line) => seq![Message::StoppedAt(line)],
            None => Seq::empty(),
        },
        AfterPlant::Prompt,
    )
}

/// Walks the stack of the halted process from `regs` with what is known so
/// far, and shows the backtrace or asks for what is missing.
pub open spec fn trace(s: DebuggerView, regs: Registers) -> (DebuggerView, ReactionView) {
    match s.inferior {
        Some(inferior) => match backtrace(inferior.memory, inferior.faults, s.debug_data, regs) {
            UnwoundView::Complete(frames) => (
                at_prompt(s),
                ReactionView { messages: frame_messages(frames), action: ActionView::Prompt },
            ),
            UnwoundView::Broken(frames) => (
                at_prompt(s),
                ReactionView {
                    messages: frame_messages(frames).push(Message::Failure(DebugError::Unwind)),
                    action: ActionView::Prompt,
                },
            ),
            UnwoundView::NeedSymbol(addr) => (
                DebuggerView { phase: Phase::TracingSymbol(regs, addr), ..s },
                ReactionView { messages: Seq::empty(), action: ActionView::Describe(addr) },
            ),
            UnwoundView::NeedWord(addr) => (
                DebuggerView { phase: Phase::TracingWord(regs, addr), ..s },
                ReactionView {
                    messages: Seq::empty(),
                    action: ActionView::ReadWord(inferior.pid, addr),
                },
            ),
        },
        None => no_process(s),
    }
}

/// What the session in state `s` becomes when `event` comes in, and how the
/// controller reacts to it.
pub open spec fn step(s: DebuggerView, event: Event) -> (DebuggerView, ReactionView) {
    match (s.phase, event) {
        (Phase::Finished, _) => (
            s,
            ReactionView { messages: Seq::empty(), action: ActionView::Exit },
        ),
        (Phase::Prompt, Event::Command(command)) => on_command(s, command),
        (Phase::Prompt, Event::EndOfInput) => quit(s),
        (Phase::Killing(after), Event::Killed) => on_killed(s, after),
        (Phase::Launching, Event::Launched(pid)) => on_launched(s, pid),
        (Phase::Planting(next), Event::Word(word)) => on_planting_word(s, next, word),
        (Phase::Planted(next, addr), Event::Written(done)) => on_planted(s, next, addr, done),
        (Phase::Resuming, Event::Waited(report)) => on_waited(s, report),
        (Phase::Halted(signal), Event::Registers(regs)) => on_halted(s, signal, regs),
        (Phase::Restoring(signal, regs), Event::Word(word)) => on_restoring_word(
            s,
            signal,
            regs,
            word,
        ),
        (Phase::Restored(signal, ip, addr), Event::Written(done)) => on_restored(
            s,
            signal,
            ip,
            addr,
            done,
        ),
        (Phase::Locating(ip), Event::Described(function, line)) => on_located(
            s,
            ip,
            function,
            line,
        ),
        (Phase::Tracing, Event::Registers(regs)) => match regs {
            Some(regs) => trace(s, regs),
            None => (
                at_prompt(s),
                ReactionView {
                    messages: seq![Message::Failure(DebugError::Trace)],
                    action: ActionView::Prompt,
                },
            ),
        },
        (Phase::TracingSymbol(regs, addr), Event::Described(function, line)) => trace(
            DebuggerView { debug_data: s.debug_data.insert(addr, Symbol { function, line }), ..s },
            regs,
        ),
        (Phase::TracingWord(regs, addr), Event::Word(word)) => trace(
            DebuggerView {
                inferior: match s.inferior {
                    Some(inferior) => Some(with_word(inferior, addr, word)),
                    None => None,
                },
                ..s
            },
            regs,
        ),
        (Phase::Resolving, Event::Located(addr)) => match addr {
            Some(addr) => queue(s, addr),
            None => (
                at_prompt(s),
                ReactionView {
                    messages: seq![Message::Failure(DebugError::InvalidBreakpoint)],
                    action: ActionView::Prompt,
                },
            ),
        },
        (Phase::Leaving, Event::Exited(gone)) => match s.inferior {
            Some(inferior) if !gone => (
                DebuggerView { phase: Phase::Killing(AfterKill::Exit), ..s },
                ReactionView {
                    messages: seq![Message::Killing(inferior.pid)],
                    action: ActionView::Kill(inferior.pid),
                },
            ),
            _ => (
                DebuggerView { phase: Phase::Finished, ..retire(s) },
                ReactionView { messages: Seq::empty(), action: ActionView::Exit },
            ),
        },
        _ => stray(s),
    }
}

} // verus!
