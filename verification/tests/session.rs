use deet::breakpoint::Restorepoint;
use deet::command::{BreakTarget, DebuggerCommand};
use deet::debugger::Debugger;
use deet::error::DebugError;
use deet::protocol::{Action, Event, Message, Reaction};
use deet::status::{WaitReport, SIGTRAP};
use deet::symbols::Line;
use deet::unwind::{Frame, Registers};

const FOO: usize = 0x401136;
const WORD: u64 = 0x8877_6655_4433_2211;

fn quiet(action: Action) -> Reaction {
    Reaction { messages: vec![], action }
}

fn say(message: Message, action: Action) -> Reaction {
    Reaction { messages: vec![message], action }
}

fn command(debugger: &mut Debugger, command: DebuggerCommand) -> Reaction {
    debugger.run(Event::Command(command))
}

fn foo_line() -> Line {
    Line { file: String::from("prog.c"), number: 12, address: FOO }
}

/// Starts the target as process 100 with nothing pending.
fn started() -> Debugger {
    let mut debugger = Debugger::new();
    assert_eq!(
        command(&mut debugger, DebuggerCommand::Run(vec![])),
        quiet(Action::Launch(vec![]))
    );
    assert_eq!(debugger.run(Event::Launched(Some(100))), quiet(Action::Resume(100)));
    debugger
}

/// Brings the process 100 to a halt on `signal` at `ip`, away from any trap.
fn halted(signal: i32, ip: usize) -> Debugger {
    let mut debugger = started();
    assert_eq!(
        debugger.run(Event::Waited(Some(WaitReport::Stopped(signal)))),
        quiet(Action::ReadRegisters(100))
    );
    let regs = Registers { instruction_pointer: ip, frame_pointer: 0x7000 };
    assert_eq!(
        debugger.run(Event::Registers(Some(regs))),
        say(Message::Stopped(signal, ip), Action::Describe(ip))
    );
    assert_eq!(debugger.run(Event::Described(None, None)), quiet(Action::Prompt));
    debugger
}

#[test]
fn a_target_that_exits_cleanly_is_reported_with_its_code() {
    let mut debugger = started();
    assert_eq!(debugger.traced_pid(), Some(100));
    assert_eq!(
        debugger.run(Event::Waited(Some(WaitReport::Exited(0)))),
        say(Message::Exited(0), Action::Prompt)
    );
    assert_eq!(debugger.traced_pid(), None);
}

#[test]
fn a_target_killed_by_a_signal_is_reported_with_the_signal() {
    let mut debugger = started();
    assert_eq!(
        debugger.run(Event::Waited(Some(WaitReport::Signaled(9)))),
        say(Message::Signaled(9), Action::Prompt)
    );
    assert_eq!(debugger.traced_pid(), None);

    let mut debugger = halted(2, 0x401000);
    assert_eq!(command(&mut debugger, DebuggerCommand::Continue), quiet(Action::Resume(100)));
    assert_eq!(
        debugger.run(Event::Waited(Some(WaitReport::Signaled(11)))),
        say(Message::Signaled(11), Action::Prompt)
    );
}

#[test]
fn a_breakpoint_at_foo_halts_the_target_at_the_first_line_of_foo() {
    let mut debugger = Debugger::new();
    assert_eq!(
        command(&mut debugger, DebuggerCommand::Break("foo".to_string())),
        quiet(Action::Locate(BreakTarget::Function("foo".to_string())))
    );
    assert_eq!(
        debugger.run(Event::Located(Some(FOO))),
        say(Message::BreakpointSet(FOO), Action::Prompt)
    );
    assert_eq!(debugger.pending(), &vec![FOO]);
    assert_eq!(
        command(&mut debugger, DebuggerCommand::Run(vec!["x".to_string()])),
        quiet(Action::Launch(vec!["x".to_string()]))
    );
    assert_eq!(
        debugger.run(Event::Launched(Some(100))),
        quiet(Action::ReadWord(100, 0x401130))
    );
    assert_eq!(
        debugger.run(Event::Word(Some(WORD))),
        quiet(Action::WriteWord(100, 0x401130, 0x88cc_6655_4433_2211))
    );
    assert!(debugger.pending().is_empty());
    assert_eq!(debugger.planted(), &vec![FOO]);
    assert_eq!(debugger.restore_point(FOO), Some(Restorepoint { addr: FOO, orig_byte: 0x77 }));
    assert_eq!(debugger.restore_point(FOO + 1), None);
    assert_eq!(debugger.run(Event::Written(true)), quiet(Action::Resume(100)));
    assert_eq!(
        debugger.run(Event::Waited(Some(WaitReport::Stopped(SIGTRAP)))),
        quiet(Action::ReadRegisters(100))
    );
    let regs = Registers { instruction_pointer: FOO + 1, frame_pointer: 0x7000 };
    assert_eq!(
        debugger.run(Event::Registers(Some(regs))),
        quiet(Action::ReadWord(100, 0x401130))
    );
    assert_eq!(
        debugger.run(Event::Word(Some(0x88cc_6655_4433_2211))),
        say(Message::BreakpointHit(FOO), Action::WriteWord(100, 0x401130, WORD))
    );
    assert_eq!(
        debugger.run(Event::Written(true)),
        say(Message::Stopped(5, FOO + 1), Action::Describe(FOO + 1))
    );
    assert_eq!(
        debugger.run(Event::Described(Some("foo".to_string()), Some(foo_line()))),
        say(Message::StoppedAt(foo_line()), Action::Prompt)
    );
    assert_eq!(debugger.traced_pid(), Some(100));
}

#[test]
fn run_with_a_live_process_kills_it_before_starting_anew() {
    let mut debugger = halted(2, 0x401000);
    let args = vec!["again".to_string()];
    assert_eq!(
        command(&mut debugger, DebuggerCommand::Run(args.clone())),
        say(Message::Killing(100), Action::Kill(100))
    );
    assert_eq!(debugger.traced_pid(), Some(100));
    assert_eq!(debugger.run(Event::Killed), quiet(Action::Launch(args)));
    assert_eq!(debugger.traced_pid(), None);
    assert_eq!(debugger.run(Event::Launched(Some(101))), quiet(Action::Resume(101)));
    assert_eq!(debugger.traced_pid(), Some(101));
}

#[test]
fn continue_without_a_process_is_refused_and_keeps_the_pending_list() {
    let mut debugger = Debugger::new();
    command(&mut debugger, DebuggerCommand::Break("*0x10".to_string()));
    command(&mut debugger, DebuggerCommand::Break("*0x20".to_string()));
    assert_eq!(debugger.pending(), &vec![0x10, 0x20]);
    assert_eq!(
        command(&mut debugger, DebuggerCommand::Continue),
        say(Message::Failure(DebugError::NoActiveProcess), Action::Prompt)
    );
    assert_eq!(debugger.pending(), &vec![0x10, 0x20]);
    assert_eq!(debugger.traced_pid(), None);
}

#[test]
fn backtrace_without_a_process_is_refused() {
    let mut debugger = Debugger::new();
    assert_eq!(
        command(&mut debugger, DebuggerCommand::Backtrace),
        say(Message::Failure(DebugError::NoActiveProcess), Action::Prompt)
    );
}

#[test]
fn a_target_that_cannot_be_started_is_reported() {
    let mut debugger = Debugger::new();
    command(&mut debugger, DebuggerCommand::Run(vec![]));
    assert_eq!(
        debugger.run(Event::Launched(None)),
        say(Message::Failure(DebugError::Launch), Action::Prompt)
    );
    assert_eq!(debugger.traced_pid(), None);
}

#[test]
fn break_queues_raw_addresses_once_and_refuses_what_names_nothing() {
    let mut debugger = Debugger::new();
    assert_eq!(
        command(&mut debugger, DebuggerCommand::Break("*0x401136".to_string())),
        say(Message::BreakpointSet(FOO), Action::Prompt)
    );
    assert_eq!(
        command(&mut debugger, DebuggerCommand::Break("*0x401136".to_string())),
        say(Message::BreakpointSet(FOO), Action::Prompt)
    );
    assert_eq!(debugger.pending(), &vec![FOO]);
    assert_eq!(
        command(&mut debugger, DebuggerCommand::Break("*0xzz".to_string())),
        say(Message::Failure(DebugError::InvalidBreakpoint), Action::Prompt)
    );
    assert_eq!(
        command(&mut debugger, DebuggerCommand::Break("12".to_string())),
        quiet(Action::Locate(BreakTarget::Line(12)))
    );
    assert_eq!(
        debugger.run(Event::Located(None)),
        say(Message::Failure(DebugError::InvalidBreakpoint), Action::Prompt)
    );
    assert_eq!(debugger.pending(), &vec![FOO]);
}

#[test]
fn breakpoints_set_while_halted_are_planted_after_the_next_halt() {
    let mut debugger = halted(2, 0x401000);
    command(&mut debugger, DebuggerCommand::Break("*0x401136".to_string()));
    assert_eq!(command(&mut debugger, DebuggerCommand::Continue), quiet(Action::Resume(100)));
    debugger.run(Event::Waited(Some(WaitReport::Stopped(2))));
    let regs = Registers { instruction_pointer: 0x401050, frame_pointer: 0x7000 };
    assert_eq!(
        debugger.run(Event::Registers(Some(regs))),
        say(Message::Stopped(2, 0x401050), Action::Describe(0x401050))
    );
    assert_eq!(
        debugger.run(Event::Described(None, None)),
        quiet(Action::ReadWord(100, 0x401130))
    );
    assert_eq!(
        debugger.run(Event::Word(Some(WORD))),
        quiet(Action::WriteWord(100, 0x401130, 0x88cc_6655_4433_2211))
    );
    assert_eq!(debugger.run(Event::Written(true)), quiet(Action::Prompt));
    assert!(debugger.pending().is_empty());
}

#[test]
fn a_breakpoint_in_unreadable_memory_is_reported_and_given_up() {
    let mut debugger = Debugger::new();
    command(&mut debugger, DebuggerCommand::Break("*0x10".to_string()));
    command(&mut debugger, DebuggerCommand::Break("*0x401136".to_string()));
    command(&mut debugger, DebuggerCommand::Run(vec![]));
    assert_eq!(debugger.run(Event::Launched(Some(100))), quiet(Action::ReadWord(100, 0x10)));
    assert_eq!(
        debugger.run(Event::Word(None)),
        say(Message::Failure(DebugError::MemoryAccess(0x10)), Action::ReadWord(100, 0x401130))
    );
    assert_eq!(debugger.pending(), &vec![FOO]);
    assert_eq!(
        debugger.run(Event::Word(Some(WORD))),
        quiet(Action::WriteWord(100, 0x401130, 0x88cc_6655_4433_2211))
    );
    assert!(debugger.pending().is_empty());
    assert_eq!(debugger.run(Event::Written(true)), quiet(Action::Resume(100)));
}

#[test]
fn two_breakpoints_in_one_word_are_planted_one_after_the_other() {
    let mut debugger = Debugger::new();
    command(&mut debugger, DebuggerCommand::Break("*0x401130".to_string()));
    command(&mut debugger, DebuggerCommand::Break("*0x401131".to_string()));
    command(&mut debugger, DebuggerCommand::Run(vec![]));
    assert_eq!(debugger.run(Event::Launched(Some(100))), quiet(Action::ReadWord(100, 0x401130)));
    assert_eq!(
        debugger.run(Event::Word(Some(WORD))),
        quiet(Action::WriteWord(100, 0x401130, 0x8877_6655_4433_22cc))
    );
    assert_eq!(debugger.run(Event::Written(true)), quiet(Action::ReadWord(100, 0x401130)));
    assert_eq!(
        debugger.run(Event::Word(Some(0x8877_6655_4433_22cc))),
        quiet(Action::WriteWord(100, 0x401130, 0x8877_6655_4433_cccc))
    );
    assert_eq!(debugger.run(Event::Written(true)), quiet(Action::Resume(100)));
    // the second trap is hit: the byte under it comes back, the first stays
    debugger.run(Event::Waited(Some(WaitReport::Stopped(SIGTRAP))));
    let regs = Registers { instruction_pointer: 0x401132, frame_pointer: 0x7000 };
    assert_eq!(debugger.run(Event::Registers(Some(regs))), quiet(Action::ReadWord(100, 0x401130)));
    assert_eq!(
        debugger.run(Event::Word(Some(0x8877_6655_4433_cccc))),
        say(
            Message::BreakpointHit(0x401131),
            Action::WriteWord(100, 0x401130, 0x8877_6655_4433_22cc)
        )
    );
}

#[test]
fn known_breakpoints_wait_again_once_the_process_is_gone() {
    let mut debugger = Debugger::new();
    command(&mut debugger, DebuggerCommand::Break("*0x401136".to_string()));
    command(&mut debugger, DebuggerCommand::Run(vec![]));
    debugger.run(Event::Launched(Some(100)));
    debugger.run(Event::Word(Some(WORD)));
    debugger.run(Event::Written(true));
    debugger.run(Event::Waited(Some(WaitReport::Stopped(2))));
    let regs = Registers { instruction_pointer: 0x401000, frame_pointer: 0x7000 };
    debugger.run(Event::Registers(Some(regs)));
    assert_eq!(debugger.run(Event::Described(None, None)), quiet(Action::Prompt));
    assert!(debugger.pending().is_empty());
    // a planted breakpoint is not queued a second time
    assert_eq!(
        command(&mut debugger, DebuggerCommand::Break("*0x401136".to_string())),
        say(Message::BreakpointSet(FOO), Action::Prompt)
    );
    assert!(debugger.pending().is_empty());
    command(&mut debugger, DebuggerCommand::Break("*0x20".to_string()));
    command(&mut debugger, DebuggerCommand::Continue);
    debugger.run(Event::Waited(Some(WaitReport::Exited(1))));
    assert_eq!(debugger.pending(), &vec![FOO, 0x20]);
}

#[test]
fn a_failure_of_tracing_has_the_process_killed() {
    let mut debugger = started();
    assert_eq!(
        debugger.run(Event::Waited(None)),
        say(Message::Failure(DebugError::Trace), Action::Kill(100))
    );
    assert_eq!(debugger.run(Event::Killed), quiet(Action::Prompt));
    assert_eq!(debugger.traced_pid(), None);

    let mut debugger = started();
    assert_eq!(
        debugger.run(Event::Waited(Some(WaitReport::Other))),
        say(Message::Failure(DebugError::Trace), Action::Kill(100))
    );

    let mut debugger = started();
    debugger.run(Event::Waited(Some(WaitReport::Stopped(2))));
    assert_eq!(
        debugger.run(Event::Registers(None)),
        say(Message::Failure(DebugError::Trace), Action::Kill(100))
    );
}

#[test]
fn backtrace_asks_for_what_it_needs_and_shows_the_frames() {
    let mut debugger = halted(2, 0x401100);
    assert_eq!(
        command(&mut debugger, DebuggerCommand::Backtrace),
        quiet(Action::ReadRegisters(100))
    );
    let regs = Registers { instruction_pointer: 0x401100, frame_pointer: 0x7000 };
    // the debug information could not place the halt: the walk names no frame
    assert_eq!(
        debugger.run(Event::Registers(Some(regs))),
        say(Message::Failure(DebugError::Unwind), Action::Prompt)
    );
    let line = |n: usize, a: usize| Line { file: "prog.c".to_string(), number: n, address: a };

    let mut debugger = started();
    debugger.run(Event::Waited(Some(WaitReport::Stopped(2))));
    debugger.run(Event::Registers(Some(regs)));
    assert_eq!(
        debugger.run(Event::Described(Some("bar".to_string()), Some(line(10, 0x401100)))),
        say(Message::StoppedAt(line(10, 0x401100)), Action::Prompt)
    );
    command(&mut debugger, DebuggerCommand::Backtrace);
    assert_eq!(
        debugger.run(Event::Registers(Some(regs))),
        quiet(Action::ReadWord(100, 0x7008))
    );
    assert_eq!(
        debugger.run(Event::Word(Some(0x401300))),
        quiet(Action::ReadWord(100, 0x7000))
    );
    assert_eq!(debugger.run(Event::Word(Some(0x7040))), quiet(Action::Describe(0x401300)));
    assert_eq!(
        debugger.run(Event::Described(Some("main".to_string()), Some(line(30, 0x401300)))),
        Reaction {
            messages: vec![
                Message::Frame(Frame { function: "bar".to_string(), line: line(10, 0x401100) }),
                Message::Frame(Frame { function: "main".to_string(), line: line(30, 0x401300) }),
            ],
            action: Action::Prompt,
        }
    );
}

#[test]
fn backtrace_over_unreadable_memory_shows_the_frames_so_far() {
    let mut debugger = started();
    debugger.run(Event::Waited(Some(WaitReport::Stopped(2))));
    let regs = Registers { instruction_pointer: 0x401100, frame_pointer: 0x7000 };
    debugger.run(Event::Registers(Some(regs)));
    let line = Line { file: "prog.c".to_string(), number: 10, address: 0x401100 };
    debugger.run(Event::Described(Some("bar".to_string()), Some(line.clone())));
    command(&mut debugger, DebuggerCommand::Backtrace);
    debugger.run(Event::Registers(Some(regs)));
    assert_eq!(
        debugger.run(Event::Word(None)),
        Reaction {
            messages: vec![
                Message::Frame(Frame { function: "bar".to_string(), line }),
                Message::Failure(DebugError::Unwind),
            ],
            action: Action::Prompt,
        }
    );
}

#[test]
fn quit_kills_a_live_process_and_leaves() {
    let mut debugger = halted(2, 0x401000);
    assert_eq!(command(&mut debugger, DebuggerCommand::Quit), quiet(Action::CheckExited(100)));
    assert_eq!(
        debugger.run(Event::Exited(false)),
        say(Message::Killing(100), Action::Kill(100))
    );
    assert_eq!(debugger.run(Event::Killed), quiet(Action::Exit));
    assert_eq!(debugger.run(Event::Killed), quiet(Action::Exit));
    assert_eq!(command(&mut debugger, DebuggerCommand::Continue), quiet(Action::Exit));
}

#[test]
fn quit_leaves_at_once_when_nothing_runs_or_the_process_is_gone() {
    let mut debugger = Debugger::new();
    assert_eq!(debugger.run(Event::EndOfInput), quiet(Action::Exit));

    let mut debugger = halted(2, 0x401000);
    assert_eq!(debugger.run(Event::EndOfInput), quiet(Action::CheckExited(100)));
    assert_eq!(debugger.run(Event::Exited(true)), quiet(Action::Exit));
}

#[test]
fn an_event_nobody_waited_for_returns_to_the_prompt() {
    let mut debugger = Debugger::new();
    assert_eq!(debugger.run(Event::Killed), quiet(Action::Prompt));
    assert_eq!(debugger.run(Event::Written(true)), quiet(Action::Prompt));
    let mut debugger = started();
    assert_eq!(debugger.run(Event::Launched(Some(5))), quiet(Action::Prompt));
    assert_eq!(debugger.traced_pid(), Some(100));
}

#[test]
fn a_trap_that_could_not_be_written_is_taken_back() {
    let mut debugger = Debugger::new();
    command(&mut debugger, DebuggerCommand::Break("*0x401136".to_string()));
    command(&mut debugger, DebuggerCommand::Break("*0x401200".to_string()));
    command(&mut debugger, DebuggerCommand::Run(vec![]));
    debugger.run(Event::Launched(Some(100)));
    debugger.run(Event::Word(Some(WORD)));
    assert_eq!(debugger.planted(), &vec![FOO]);
    assert_eq!(
        debugger.run(Event::Written(false)),
        say(Message::Failure(DebugError::MemoryAccess(FOO)), Action::ReadWord(100, 0x401200))
    );
    assert!(debugger.planted().is_empty());
    assert_eq!(debugger.restore_point(FOO), None);
    assert_eq!(
        debugger.run(Event::Word(Some(0))),
        quiet(Action::WriteWord(100, 0x401200, 0xcc))
    );
    assert_eq!(debugger.run(Event::Written(true)), quiet(Action::Resume(100)));
    // a halt right behind the address that was given up is no breakpoint hit
    debugger.run(Event::Waited(Some(WaitReport::Stopped(SIGTRAP))));
    let regs = Registers { instruction_pointer: FOO + 1, frame_pointer: 0x7000 };
    assert_eq!(
        debugger.run(Event::Registers(Some(regs))),
        say(Message::Stopped(5, FOO + 1), Action::Describe(FOO + 1))
    );
    debugger.run(Event::Described(None, None));
    // once the process is gone, the planted breakpoint waits again; the other is forgotten
    command(&mut debugger, DebuggerCommand::Continue);
    debugger.run(Event::Waited(Some(WaitReport::Exited(0))));
    assert_eq!(debugger.pending(), &vec![0x401200]);
}

#[test]
fn a_restored_byte_that_could_not_be_written_is_reported_with_the_halt() {
    let mut debugger = Debugger::new();
    command(&mut debugger, DebuggerCommand::Break("*0x401136".to_string()));
    command(&mut debugger, DebuggerCommand::Run(vec![]));
    debugger.run(Event::Launched(Some(100)));
    debugger.run(Event::Word(Some(WORD)));
    debugger.run(Event::Written(true));
    debugger.run(Event::Waited(Some(WaitReport::Stopped(SIGTRAP))));
    let regs = Registers { instruction_pointer: FOO + 1, frame_pointer: 0x7000 };
    debugger.run(Event::Registers(Some(regs)));
    debugger.run(Event::Word(Some(0x88cc_6655_4433_2211)));
    assert_eq!(
        debugger.run(Event::Written(false)),
        Reaction {
            messages: vec![
                Message::Failure(DebugError::MemoryAccess(FOO)),
                Message::Stopped(5, FOO + 1),
            ],
            action: Action::Describe(FOO + 1),
        }
    );
    assert_eq!(debugger.traced_pid(), Some(100));

    // the word of the trap cannot even be read
    let mut debugger = Debugger::new();
    command(&mut debugger, DebuggerCommand::Break("*0x401136".to_string()));
    command(&mut debugger, DebuggerCommand::Run(vec![]));
    debugger.run(Event::Launched(Some(100)));
    debugger.run(Event::Word(Some(WORD)));
    debugger.run(Event::Written(true));
    debugger.run(Event::Waited(Some(WaitReport::Stopped(SIGTRAP))));
    debugger.run(Event::Registers(Some(regs)));
    assert_eq!(
        debugger.run(Event::Word(None)),
        Reaction {
            messages: vec![
                Message::Failure(DebugError::MemoryAccess(FOO)),
                Message::Stopped(5, FOO + 1),
            ],
            action: Action::Describe(FOO + 1),
        }
    );
}
