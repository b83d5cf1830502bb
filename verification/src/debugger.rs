//! The session controller: the state of a debugging session and its
//! reaction to each event.

use std::collections::HashMap;
use vstd::prelude::*;
use crate::breakpoint::{lemma_plant_single, Restorepoint};
use crate::command::{BreakTarget, DebuggerCommand};
use crate::error::DebugError;
use crate::inferior::Inferior;
use crate::protocol::{
    Action, ActionView, AfterKill, AfterPlant, Event, Message, Phase, Reaction,
};
use crate::session::{
    at_prompt, forgetful, frame_messages, give_up, go_on, initial, no_process, on_command,
    on_halted, on_killed, on_launched, on_located, on_planted, on_planting_word, on_restored,
    on_restoring_word, on_waited, plant_pending, queue, quit, report_stop, retire, step, stray,
    trace, unplant, wf, with_word, DebuggerView,
};
use crate::session_laws::{law_initial_is_wf, law_step_keeps_wf};
use crate::status::{Status, WaitReport};
use crate::symbols::{Line, SymbolCache};
use crate::unwind::{Frame, Registers, Unwound};
use crate::word::align_addr_to_word;

verus! {

broadcast use vstd::std_specs::hash::group_hash_axioms;

/// A debugging session.
pub struct Debugger {
    inferior: Option<Inferior>,
    break_list: Vec<usize>,
    restore_map: HashMap<usize, Restorepoint>,
    installed: Vec<usize>,
    debug_data: SymbolCache,
    phase: Phase,
}

impl View for Debugger {
    type V = DebuggerView;

    closed spec fn view(&self) -> DebuggerView {
        DebuggerView {
            inferior: match self.inferior {
                Some(inferior) => Some(inferior@),
                None => None,
            },
            break_list: self.break_list@,
            installed: self.installed@,
            restore_map: self.restore_map@,
            debug_data: self.debug_data.answers(),
            phase: self.phase,
        }
    }
}

/// Whether `addr` occurs in `addrs`.
fn holds(addrs: &Vec<usize>, addr: usize) -> (found: bool)
    ensures
        found == addrs@.contains(addr),
{
    let mut i: usize = 0;
    while i < addrs.len()
        invariant
            i <= addrs.len(),
            forall|j: int| 0 <= j < i ==> addrs@[j] != addr,
        decreases addrs.len() - i,
    {
        if addrs[i] == addr {
            return true;
        }
        i += 1;
    }
    false
}

/// The frames of a backtrace as messages.
fn messages_of(frames: &Vec<Frame>) -> (messages: Vec<Message>)
    ensures
        messages@ == frame_messages(frames@),
{
    let mut messages: Vec<Message> = Vec::new();
    let mut i: usize = 0;
    while i < frames.len()
        invariant
            i <= frames.len(),
            messages@ == frame_messages(frames@.take(i as int)),
        decreases frames.len() - i,
    {
        messages.push(Message::Frame(frames[i].duplicate()));
        proof {
            assert(messages@ =~= frame_messages(frames@.take(i as int + 1)));
        }
        i += 1;
    }
    proof {
        assert(frames@.take(i as int) =~= frames@);
    }
    messages
}

impl Debugger {
    /// Initializes the debugger: no process, no breakpoints, waiting for a
    /// command.
    pub fn new() -> (debugger: Debugger)
        ensures
            debugger@ == initial(),
            wf(debugger@),
    {
        proof {
            law_initial_is_wf();
        }
        Debugger {
            inferior: None,
            break_list: Vec::new(),
            restore_map: HashMap::new(),
            installed: Vec::new(),
            debug_data: SymbolCache::new(),
            phase: Phase::Prompt,
        }
    }

    /// The breakpoints asked for and not yet planted, oldest first.
    pub fn pending(&self) -> (pending: &Vec<usize>)
        ensures
            pending@ == self@.break_list,
    {
        &self.break_list
    }

    /// The breakpoints planted in the traced process, in planting order.
    pub fn planted(&self) -> (planted: &Vec<usize>)
        ensures
            planted@ == self@.installed,
    {
        &self.installed
    }

    /// What the trap planted at `addr` has overwritten, if a trap is planted
    /// there.
    pub fn restore_point(&self, addr: usize) -> (point: Option<Restorepoint>)
        ensures
            point == (if self@.restore_map.contains_key(addr) {
                Some(self@.restore_map[addr])
            } else {
                None
            }),
    {
        match self.restore_map.get(&addr) {
            Some(point) => Some(*point),
            None => None,
        }
    }

    /// The process id of the traced process, while there is one.
    pub fn traced_pid(&self) -> (pid: Option<i32>)
        ensures
            pid is Some <==> self@.inferior is Some,
            pid matches Some(pid) ==> pid == self@.inferior->0.pid,
    {
        match &self.inferior {
            Some(inferior) => Some(inferior.pid()),
            None => None,
        }
    }

    /// Forgets the traced process and makes every known breakpoint wait for
    /// the next one.
    fn retire(&mut self)
        ensures
            final(self)@ == retire(old(self)@),
    {
        self.inferior = None;
        let mut known: Vec<usize> = Vec::new();
        core::mem::swap(&mut known, &mut self.installed);
        known.append(&mut self.break_list);
        self.break_list = known;
        self.restore_map.clear();
        proof {
            assert(self.installed@ =~= Seq::<usize>::empty());
            assert(self.restore_map@ =~= Map::<usize, Restorepoint>::empty());
        }
    }

    /// Queues a breakpoint at `addr`, unless it is known already.
    fn queue(&mut self, addr: usize) -> (reaction: Reaction)
        ensures
            (final(self)@, reaction@) == queue(old(self)@, addr),
    {
        if !holds(&self.break_list, addr) && !holds(&self.installed, addr) {
            self.break_list.push(addr);
        }
        self.phase = Phase::Prompt;
        let mut messages: Vec<Message> = Vec::new();
        messages.push(Message::BreakpointSet(addr));
        proof {
            assert(messages@ =~= seq![Message::BreakpointSet(addr)]);
        }
        Reaction { messages, action: Action::Prompt }
    }

    /// Drops what was being done and asks for a command.
    fn stray(&mut self) -> (reaction: Reaction)
        ensures
            (final(self)@, reaction@) == stray(old(self)@),
    {
        self.phase = Phase::Prompt;
        Reaction { messages: Vec::new(), action: Action::Prompt }
    }

    /// Asks for a command after telling `message`.
    fn tell(&mut self, message: Message) -> (reaction: Reaction)
        ensures
            final(self)@ == at_prompt(old(self)@),
            reaction@.messages == seq![message],
            reaction@.action == ActionView::Prompt,
    {
        self.phase = Phase::Prompt;
        let mut messages: Vec<Message> = Vec::new();
        messages.push(message);
        proof {
            assert(messages@ =~= seq![message]);
        }
        Reaction { messages, action: Action::Prompt }
    }

    /// Gives the traced process up after a failure of tracing.
    fn give_up(&mut self, messages: Vec<Message>) -> (reaction: Reaction)
        ensures
            (final(self)@, reaction@) == give_up(old(self)@, messages@),
    {
        let mut messages = messages;
        messages.push(Message::Failure(DebugError::Trace));
        match self.traced_pid() {
            Some(pid) => {
                self.phase = Phase::Killing(AfterKill::Prompt);
                Reaction { messages, action: Action::Kill(pid) }
            },
            None => {
                self.phase = Phase::Prompt;
                Reaction { messages, action: Action::Prompt }
            },
        }
    }

    /// Resumes the process if that is what comes `next`, else asks for a
    /// command.
    fn go_on(&mut self, messages: Vec<Message>, next: AfterPlant) -> (reaction: Reaction)
        ensures
            (final(self)@, reaction@) == go_on(old(self)@, messages@, next),
    {
        match self.traced_pid() {
            Some(pid) => {
                if next == AfterPlant::Resume {
                    self.phase = Phase::Resuming;
                    return Reaction { messages, action: Action::Resume(pid) };
                }
            },
            None => {},
        }
        self.phase = Phase::Prompt;
        Reaction { messages, action: Action::Prompt }
    }

    /// Leaves the debugger, after making sure that no process is left
    /// behind.
    fn quit(&mut self) -> (reaction: Reaction)
        ensures
            (final(self)@, reaction@) == quit(old(self)@),
    {
        match self.traced_pid() {
            Some(pid) => {
                self.phase = Phase::Leaving;
                Reaction { messages: Vec::new(), action: Action::CheckExited(pid) }
            },
            None => {
                self.phase = Phase::Finished;
                Reaction { messages: Vec::new(), action: Action::Exit }
            },
        }
    }

    /// Tells that a command needs a process and there is none.
    fn no_process(&mut self) -> (reaction: Reaction)
        ensures
            (final(self)@, reaction@) == no_process(old(self)@),
    {
        self.tell(Message::Failure(DebugError::NoActiveProcess))
    }

    /// Starts planting the first pending breakpoint, or goes straight on to
    /// what comes `next` when nothing is pending.
    fn plant_pending(&mut self, messages: Vec<Message>, next: AfterPlant) -> (reaction: Reaction)
        ensures
            (final(self)@, reaction@) == plant_pending(old(self)@, messages@, next),
    {
        match self.traced_pid() {
            Some(pid) => {
                if self.break_list.len() > 0 {
                    let addr = align_addr_to_word(self.break_list[0]);
                    self.phase = Phase::Planting(next);
                    return Reaction { messages, action: Action::ReadWord(pid, addr) };
                }
            },
            None => {},
        }
        self.go_on(messages, next)
    }

    /// Takes the traced process out of the session, to work on it.
    fn take_inferior(&mut self) -> (inferior: Option<Inferior>)
        ensures
            final(self)@ == (DebuggerView { inferior: None, ..old(self)@ }),
            match inferior {
                Some(inferior) => old(self)@.inferior == Some(inferior@),
                None => old(self)@.inferior is None,
            },
    {
        let mut slot: Option<Inferior> = None;
        core::mem::swap(&mut slot, &mut self.inferior);
        slot
    }

    /// Drops what is known of the memory of the traced process.
    fn forget_memory(&mut self)
        ensures
            final(self)@ == (DebuggerView {
                inferior: match old(self)@.inferior {
                    Some(inferior) => Some(forgetful(inferior)),
                    None => None,
                },
                ..old(self)@
            }),
    {
        match self.take_inferior() {
            Some(inferior) => {
                let mut inferior = inferior;
                inferior.forget_memory();
                self.inferior = Some(inferior);
            },
            None => {},
        }
    }

    /// Takes in the word asked for at `addr`, or that it could not be read.
    fn with_word(&mut self, addr: usize, word: Option<u64>)
        ensures
            final(self)@ == (DebuggerView {
                inferior: match old(self)@.inferior {
                    Some(inferior) => Some(with_word(inferior, addr, word)),
                    None => None,
                },
                ..old(self)@
            }),
    {
        match self.take_inferior() {
            Some(inferior) => {
                let mut inferior = inferior;
                match word {
                    Some(word) => inferior.load_word(addr, word),
                    None => inferior.mark_unreadable(addr),
                }
                self.inferior = Some(inferior);
            },
            None => {},
        }
    }

    /// The first pending breakpoint, taken off the list.
    fn next_pending(&mut self) -> (addr: usize)
        requires
            old(self)@.break_list.len() > 0,
        ensures
            addr == old(self)@.break_list[0],
            final(self)@ == (DebuggerView {
                break_list: old(self)@.break_list.skip(1),
                ..old(self)@
            }),
    {
        let addr = self.break_list.remove(0);
        proof {
            assert(self.break_list@ =~= old(self)@.break_list.skip(1));
        }
        addr
    }

    /// Tells that the process has halted and asks for the source line it
    /// has halted at.
    fn report_stop(&mut self, messages: Vec<Message>, signal: i32, ip: usize) -> (reaction:
        Reaction)
        ensures
            (final(self)@, reaction@) == report_stop(old(self)@, messages@, signal, ip),
    {
        let mut messages = messages;
        messages.push(Message::Stopped(signal, ip));
        self.phase = Phase::Locating(ip);
        Reaction { messages, action: Action::Describe(ip) }
    }

    /// Reacts to a command given at the prompt.
    fn on_command(&mut self, command: DebuggerCommand) -> (reaction: Reaction)
        ensures
            (final(self)@, reaction@) == on_command(old(self)@, command),
    {
        match command {
            DebuggerCommand::Run(args) => match self.traced_pid() {
                Some(pid) => {
                    let mut messages: Vec<Message> = Vec::new();
                    messages.push(Message::Killing(pid));
                    proof {
                        assert(messages@ =~= seq![Message::Killing(pid)]);
                    }
                    self.phase = Phase::Killing(AfterKill::Launch(args));
                    Reaction { messages, action: Action::Kill(pid) }
                },
                None => {
                    self.phase = Phase::Launching;
                    Reaction { messages: Vec::new(), action: Action::Launch(args) }
                },
            },
            DebuggerCommand::Continue => match self.traced_pid() {
                Some(pid) => {
                    self.phase = Phase::Resuming;
                    Reaction { messages: Vec::new(), action: Action::Resume(pid) }
                },
                None => self.no_process(),
            },
            DebuggerCommand::Backtrace => match self.traced_pid() {
                Some(pid) => {
                    self.phase = Phase::Tracing;
                    Reaction { messages: Vec::new(), action: Action::ReadRegisters(pid) }
                },
                None => self.no_process(),
            },
            DebuggerCommand::Break(arg) => match BreakTarget::parse(arg) {
                Some(BreakTarget::Address(addr)) => self.queue(addr),
                Some(target) => {
                    self.phase = Phase::Resolving;
                    Reaction { messages: Vec::new(), action: Action::Locate(target) }
                },
                None => self.tell(Message::Failure(DebugError::InvalidBreakpoint)),
            },
            DebuggerCommand::Quit => self.quit(),
        }
    }

    /// Does what was put off until the process was killed.
    fn on_killed(&mut self, after: AfterKill) -> (reaction: Reaction)
        ensures
            (final(self)@, reaction@) == on_killed(old(self)@, after),
    {
        self.retire();
        match after {
            AfterKill::Launch(args) => {
                self.phase = Phase::Launching;
                Reaction { messages: Vec::new(), action: Action::Launch(args) }
            },
            AfterKill::Prompt => {
                self.phase = Phase::Prompt;
                Reaction { messages: Vec::new(), action: Action::Prompt }
            },
            AfterKill::Exit => {
                self.phase = Phase::Finished;
                Reaction { messages: Vec::new(), action: Action::Exit }
            },
        }
    }

    /// Takes in whether the target was started.
    fn on_launched(&mut self, pid: Option<i32>) -> (reaction: Reaction)
        ensures
            (final(self)@, reaction@) == on_launched(old(self)@, pid),
    {
        self.retire();
        match pid {
            Some(pid) => {
                self.inferior = Some(Inferior::new(pid));
                self.plant_pending(Vec::new(), AfterPlant::Resume)
            },
            None => self.tell(Message::Failure(DebugError::Launch)),
        }
    }

    /// Takes in the word that holds the first pending breakpoint, plants
    /// the trap in it and sends it back to the process.
    fn on_planting_word(&mut self, next: AfterPlant, word: Option<u64>) -> (reaction: Reaction)
        ensures
            (final(self)@, reaction@) == on_planting_word(old(self)@, next, word),
    {
        if self.inferior.is_none() || self.break_list.len() == 0 {
            return self.stray();
        }
        let addr = self.next_pending();
        if self.restore_map.contains_key(&addr) {
            return self.plant_pending(Vec::new(), next);
        }
        self.with_word(addr, word);
        if word.is_none() {
            let mut messages: Vec<Message> = Vec::new();
            messages.push(Message::Failure(DebugError::MemoryAccess(addr)));
            proof {
                assert(messages@ =~= seq![Message::Failure(DebugError::MemoryAccess(addr))]);
            }
            return self.plant_pending(messages, next);
        }
        let mut inferior = match self.take_inferior() {
            Some(inferior) => inferior,
            None => {
                return self.stray();
            },
        };
        let single: Vec<usize> = vec![addr];
        proof {
            assert(single@ =~= seq![addr]);
            lemma_plant_single(inferior@.memory, self.restore_map@, addr);
        }
        let pid = inferior.pid();
        let _ = inferior.set_breakpoint(&single, &mut self.restore_map);
        let patched = inferior.word(addr);
        self.inferior = Some(inferior);
        match patched {
            Some(patched) => {
                self.installed.push(addr);
                self.phase = Phase::Planted(next, addr);
                Reaction {
                    messages: Vec::new(),
                    action: Action::WriteWord(pid, align_addr_to_word(addr), patched),
                }
            },
            None => self.stray(),
        }
    }

    /// Takes in whether the word with the new trap at `addr` was written,
    /// takes the trap back if it was not, and takes up the next pending
    /// breakpoint.
    fn on_planted(&mut self, next: AfterPlant, addr: usize, done: bool) -> (reaction: Reaction)
        ensures
            (final(self)@, reaction@) == on_planted(old(self)@, next, addr, done),
    {
        if done {
            return self.plant_pending(Vec::new(), next);
        }
        self.forget_memory();
        let count = self.installed.len();
        if count > 0 && self.installed[count - 1] == addr {
            self.installed.pop();
        }
        self.restore_map.remove(&addr);
        proof {
            assert(self@ == unplant(old(self)@, addr));
        }
        let mut messages: Vec<Message> = Vec::new();
        messages.push(Message::Failure(DebugError::MemoryAccess(addr)));
        proof {
            assert(messages@ =~= seq![Message::Failure(DebugError::MemoryAccess(addr))]);
        }
        self.plant_pending(messages, next)
    }

    /// Takes in what waiting for the resumed process reported.
    fn on_waited(&mut self, report: Option<WaitReport>) -> (reaction: Reaction)
        ensures
            (final(self)@, reaction@) == on_waited(old(self)@, report),
    {
        match report {
            Some(WaitReport::Exited(code)) => {
                self.retire();
                self.tell(Message::Exited(code))
            },
            Some(WaitReport::Signaled(signal)) => {
                self.retire();
                self.tell(Message::Signaled(signal))
            },
            Some(WaitReport::Stopped(signal)) => match self.traced_pid() {
                Some(pid) => {
                    self.phase = Phase::Halted(signal);
                    Reaction { messages: Vec::new(), action: Action::ReadRegisters(pid) }
                },
                None => self.stray(),
            },
            _ => self.give_up(Vec::new()),
        }
    }

    /// Takes in the registers of the process that has halted.
    fn on_halted(&mut self, signal: i32, regs: Option<Registers>) -> (reaction: Reaction)
        ensures
            (final(self)@, reaction@) == on_halted(old(self)@, signal, regs),
    {
        let (regs, pid) = match (regs, self.traced_pid()) {
            (Some(regs), Some(pid)) => (regs, pid),
            _ => {
                return self.give_up(Vec::new());
            },
        };
        self.forget_memory();
        let status = Status::Stopped(signal, regs.instruction_pointer);
        match Inferior::breakpoint_hit(&status, &self.restore_map) {
            Some(addr) => {
                self.phase = Phase::Restoring(signal, regs);
                Reaction {
                    messages: Vec::new(),
                    action: Action::ReadWord(pid, align_addr_to_word(addr)),
                }
            },
            None => self.report_stop(Vec::new(), signal, regs.instruction_pointer),
        }
    }

    /// Takes in the word that holds the trap the process has hit, puts the
    /// overwritten byte back and sends the word to the process.
    fn on_restoring_word(&mut self, signal: i32, regs: Registers, word: Option<u64>) -> (reaction:
        Reaction)
        ensures
            (final(self)@, reaction@) == on_restoring_word(old(self)@, signal, regs, word),
    {
        let status = Status::Stopped(signal, regs.instruction_pointer);
        let addr = match Inferior::breakpoint_hit(&status, &self.restore_map) {
            Some(addr) => addr,
            None => {
                return self.stray();
            },
        };
        if self.inferior.is_none() {
            return self.stray();
        }
        self.with_word(addr, word);
        let mut messages: Vec<Message> = Vec::new();
        if word.is_none() {
            messages.push(Message::Failure(DebugError::MemoryAccess(addr)));
            proof {
                assert(messages@ =~= seq![Message::Failure(DebugError::MemoryAccess(addr))]);
            }
            return self.report_stop(messages, signal, regs.instruction_pointer);
        }
        let mut inferior = match self.take_inferior() {
            Some(inferior) => inferior,
            None => {
                return self.stray();
            },
        };
        let pid = inferior.pid();
        let report = WaitReport::Stopped(signal);
        let _ = inferior.wake_up(report, Some(regs), &self.restore_map);
        let restored = inferior.word(addr);
        self.inferior = Some(inferior);
        match restored {
            Some(restored) => {
                messages.push(Message::BreakpointHit(addr));
                proof {
                    assert(messages@ =~= seq![Message::BreakpointHit(addr)]);
                }
                self.phase = Phase::Restored(signal, regs.instruction_pointer, addr);
                Reaction {
                    messages,
                    action: Action::WriteWord(pid, align_addr_to_word(addr), restored),
                }
            },
            None => self.stray(),
        }
    }

    /// Takes in whether the word with the restored byte was written, and
    /// tells that the process has halted.
    fn on_restored(&mut self, signal: i32, ip: usize, addr: usize, done: bool) -> (reaction:
        Reaction)
        ensures
            (final(self)@, reaction@) == on_restored(old(self)@, signal, ip, addr, done),
    {
        if done {
            return self.report_stop(Vec::new(), signal, ip);
        }
        self.forget_memory();
        let mut messages: Vec<Message> = Vec::new();
        messages.push(Message::Failure(DebugError::MemoryAccess(addr)));
        proof {
            assert(messages@ =~= seq![Message::Failure(DebugError::MemoryAccess(addr))]);
        }
        self.report_stop(messages, signal, ip)
    }

    /// Takes in the source line at which the process has halted, shows it
    /// and plants the breakpoints asked for since the last halt.
    fn on_located(&mut self, ip: usize, function: Option<String>, line: Option<Line>) -> (reaction:
        Reaction)
        ensures
            (final(self)@, reaction@) == on_located(old(self)@, ip, function, line),
    {
        let mut messages: Vec<Message> = Vec::new();
        match &line {
            Some(line) => {
                messages.push(Message::StoppedAt(line.duplicate()));
                proof {
                    assert(messages@ =~= seq![Message::StoppedAt(*line)]);
                }
            },
            None => {},
        }
        self.debug_data.record(ip, function, line);
        self.plant_pending(messages, AfterPlant::Prompt)
    }

    /// Walks the stack of the halted process with what is known so far, and
    /// shows the backtrace or asks for what is missing.
    fn trace(&mut self, regs: Registers) -> (reaction: Reaction)
        ensures
            (final(self)@, reaction@) == trace(old(self)@, regs),
    {
        let (pid, unwound) = match &self.inferior {
            Some(inferior) => (inferior.pid(), inferior.print_backtrace(&regs, &self.debug_data)),
            None => {
                return self.no_process();
            },
        };
        match unwound {
            Unwound::Complete(frames) => {
                self.phase = Phase::Prompt;
                Reaction { messages: messages_of(&frames), action: Action::Prompt }
            },
            Unwound::Broken(frames) => {
                let mut messages = messages_of(&frames);
                messages.push(Message::Failure(DebugError::Unwind));
                self.phase = Phase::Prompt;
                Reaction { messages, action: Action::Prompt }
            },
            Unwound::NeedSymbol(addr) => {
                self.phase = Phase::TracingSymbol(regs, addr);
                Reaction { messages: Vec::new(), action: Action::Describe(addr) }
            },
            Unwound::NeedWord(addr) => {
                self.phase = Phase::TracingWord(regs, addr);
                Reaction { messages: Vec::new(), action: Action::ReadWord(pid, addr) }
            },
        }
    }

    /// Runs the session for one event: takes in what came of the action
    /// last asked for and answers with what to tell the user and what to do
    /// next.
    ///
    /// The program that drives the session starts by performing
    /// `Action::Prompt`, and from then on hands each outcome to `run` and
    /// performs the action that comes back, until that is `Action::Exit`.
    pub fn run(&mut self, event: Event) -> (reaction: Reaction)
        ensures
            (final(self)@, reaction@) == step(old(self)@, event),
            wf(old(self)@) ==> wf(final(self)@),
    {
        proof {
            if wf(self@) {
                law_step_keeps_wf(self@, event);
            }
        }
        let mut phase = Phase::Prompt;
        core::mem::swap(&mut phase, &mut self.phase);
        match (phase, event) {
            (Phase::Finished, _) => {
                self.phase = Phase::Finished;
                Reaction { messages: Vec::new(), action: Action::Exit }
            },
            (Phase::Prompt, Event::Command(command)) => self.on_command(command),
            (Phase::Prompt, Event::EndOfInput) => self.quit(),
            (Phase::Killing(after), Event::Killed) => self.on_killed(after),
            (Phase::Launching, Event::Launched(pid)) => self.on_launched(pid),
            (Phase::Planting(next), Event::Word(word)) => self.on_planting_word(next, word),
            (Phase::Planted(next, addr), Event::Written(done)) => self.on_planted(
                next,
                addr,
                done,
            ),
            (Phase::Resuming, Event::Waited(report)) => self.on_waited(report),
            (Phase::Halted(signal), Event::Registers(regs)) => self.on_halted(signal, regs),
            (Phase::Restoring(signal, regs), Event::Word(word)) => self.on_restoring_word(
                signal,
                regs,
                word,
            ),
            (Phase::Restored(signal, ip, addr), Event::Written(done)) => self.on_restored(
                signal,
                ip,
                addr,
                done,
            ),
            (Phase::Locating(ip), Event::Described(function, line)) => self.on_located(
                ip,
                function,
                line,
            ),
            (Phase::Tracing, Event::Registers(regs)) => match regs {
                Some(regs) => self.trace(regs),
                None => self.tell(Message::Failure(DebugError::Trace)),
            },
            (Phase::TracingSymbol(regs, addr), Event::Described(function, line)) => {
                self.debug_data.record(addr, function, line);
                self.trace(regs)
            },
            (Phase::TracingWord(regs, addr), Event::Word(word)) => {
                self.with_word(addr, word);
                self.trace(regs)
            },
            (Phase::Resolving, Event::Located(addr)) => match addr {
                Some(addr) => self.queue(addr),
                None => self.tell(Message::Failure(DebugError::InvalidBreakpoint)),
            },
            (Phase::Leaving, Event::Exited(gone)) => {
                match self.traced_pid() {
                    Some(pid) => {
                        if !gone {
                            let mut messages: Vec<Message> = Vec::new();
                            messages.push(Message::Killing(pid));
                            proof {
                                assert(messages@ =~= seq![Message::Killing(pid)]);
                            }
                            self.phase = Phase::Killing(AfterKill::Exit);
                            return Reaction { messages, action: Action::Kill(pid) };
                        }
                    },
                    None => {},
                }
                self.retire();
                self.phase = Phase::Finished;
                Reaction { messages: Vec::new(), action: Action::Exit }
            },
            _ => self.stray(),
        }
    }
}

} // verus!
