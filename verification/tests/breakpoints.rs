use deet::breakpoint::Restorepoint;
use deet::error::DebugError;
use deet::inferior::Inferior;
use deet::status::{Status, WaitReport, SIGTRAP};
use deet::unwind::Registers;
use std::collections::HashMap;

const WORD: u64 = 0x8877_6655_4433_2211;

fn process_with_words(words: &[(usize, u64)]) -> Inferior {
    let mut inferior = Inferior::new(4242);
    for (addr, word) in words {
        inferior.load_word(*addr, *word);
    }
    inferior
}

#[test]
fn new_inferior_keeps_its_pid_and_knows_no_memory() {
    let inferior = Inferior::new(4242);
    assert_eq!(inferior.pid(), 4242);
    assert_eq!(inferior.word(0x1000), None);
}

#[test]
fn load_word_files_the_word_under_its_aligned_address() {
    let mut inferior = Inferior::new(1);
    inferior.load_word(0x1003, WORD);
    assert_eq!(inferior.word(0x1000), Some(WORD));
    assert_eq!(inferior.word(0x1007), Some(WORD));
    assert_eq!(inferior.word(0x1008), None);
    inferior.forget_memory();
    assert_eq!(inferior.word(0x1000), None);
}

#[test]
fn install_plants_the_trap_and_records_the_overwritten_byte() {
    let mut inferior = process_with_words(&[(0x1000, WORD), (0x2000, 0)]);
    let mut table: HashMap<usize, Restorepoint> = HashMap::new();
    let result = inferior.set_breakpoint(&vec![0x1002, 0x2007], &mut table);
    assert_eq!(result, Ok(0));
    assert_eq!(inferior.word(0x1000), Some(0x8877_6655_44cc_2211));
    assert_eq!(inferior.word(0x2000), Some(0xcc00_0000_0000_0000));
    assert_eq!(table.len(), 2);
    assert_eq!(table[&0x1002], Restorepoint { addr: 0x1002, orig_byte: 0x33 });
    assert_eq!(table[&0x2007], Restorepoint { addr: 0x2007, orig_byte: 0x00 });
}

#[test]
fn install_of_two_traps_in_one_word_keeps_both() {
    let mut inferior = process_with_words(&[(0x1000, WORD)]);
    let mut table: HashMap<usize, Restorepoint> = HashMap::new();
    assert_eq!(inferior.set_breakpoint(&vec![0x1000, 0x1001], &mut table), Ok(0));
    assert_eq!(inferior.word(0x1000), Some(0x8877_6655_4433_cccc));
    assert_eq!(table[&0x1000].orig_byte, 0x11);
    assert_eq!(table[&0x1001].orig_byte, 0x22);
}

#[test]
fn install_stops_at_the_first_unreadable_address() {
    let mut inferior = process_with_words(&[(0x1000, WORD)]);
    let mut table: HashMap<usize, Restorepoint> = HashMap::new();
    let result = inferior.set_breakpoint(&vec![0x1001, 0x5000, 0x1002], &mut table);
    assert_eq!(result, Err(DebugError::MemoryAccess(0x5000)));
    assert_eq!(inferior.word(0x1000), Some(0x8877_6655_4433_cc11));
    assert_eq!(table.len(), 1);
    assert!(table.contains_key(&0x1001));
}

#[test]
fn install_of_nothing_changes_nothing() {
    let mut inferior = process_with_words(&[(0x1000, WORD)]);
    let mut table: HashMap<usize, Restorepoint> = HashMap::new();
    assert_eq!(inferior.set_breakpoint(&Vec::new(), &mut table), Ok(0));
    assert_eq!(inferior.word(0x1000), Some(WORD));
    assert!(table.is_empty());
}

#[test]
fn restore_is_a_left_inverse_of_install() {
    let mut inferior = process_with_words(&[(0x1000, WORD)]);
    let mut table: HashMap<usize, Restorepoint> = HashMap::new();
    inferior.set_breakpoint(&vec![0x1005], &mut table).unwrap();
    assert_eq!(inferior.word(0x1000), Some(0x8877_cc55_4433_2211));
    assert_eq!(inferior.restore_one(0x1005, &table), Ok(0xcc));
    assert_eq!(inferior.word(0x1000), Some(WORD));
}

#[test]
fn restore_of_an_unknown_breakpoint_is_refused() {
    let mut inferior = process_with_words(&[(0x1000, WORD)]);
    let table: HashMap<usize, Restorepoint> = HashMap::new();
    assert_eq!(inferior.restore_one(0x1005, &table), Err(DebugError::InvalidBreakpoint));
    assert_eq!(inferior.word(0x1000), Some(WORD));
}

#[test]
fn restore_without_the_word_fails_with_memory_access() {
    let mut inferior = process_with_words(&[(0x1000, WORD)]);
    let mut table: HashMap<usize, Restorepoint> = HashMap::new();
    inferior.set_breakpoint(&vec![0x1005], &mut table).unwrap();
    inferior.forget_memory();
    assert_eq!(inferior.restore_one(0x1005, &table), Err(DebugError::MemoryAccess(0x1005)));
}

#[test]
fn write_byte_returns_the_byte_it_replaced() {
    let mut inferior = process_with_words(&[(0x1000, WORD)]);
    assert_eq!(inferior.write_byte(0x1001, 0xab), Ok(0x22));
    assert_eq!(inferior.word(0x1000), Some(0x8877_6655_4433_ab11));
    assert_eq!(inferior.write_byte(0x3000, 0xab), Err(DebugError::MemoryAccess(0x3000)));
}

#[test]
fn wait_classifies_each_report() {
    let inferior = Inferior::new(7);
    let regs = Registers { instruction_pointer: 0x401137, frame_pointer: 0x7ffd_0000 };
    assert_eq!(inferior.wait(WaitReport::Exited(3), None), Ok(Status::Exited(3)));
    assert_eq!(inferior.wait(WaitReport::Signaled(9), None), Ok(Status::Signaled(9)));
    assert_eq!(
        inferior.wait(WaitReport::Stopped(SIGTRAP), Some(regs)),
        Ok(Status::Stopped(5, 0x401137))
    );
    assert_eq!(inferior.wait(WaitReport::Stopped(SIGTRAP), None), Err(DebugError::Trace));
    assert_eq!(inferior.wait(WaitReport::Other, Some(regs)), Err(DebugError::Trace));
}

#[test]
fn breakpoint_hit_needs_the_trap_signal_and_a_known_address() {
    let mut table: HashMap<usize, Restorepoint> = HashMap::new();
    table.insert(0x401136, Restorepoint { addr: 0x401136, orig_byte: 0x55 });
    assert_eq!(Inferior::breakpoint_hit(&Status::Stopped(5, 0x401137), &table), Some(0x401136));
    assert_eq!(Inferior::breakpoint_hit(&Status::Stopped(2, 0x401137), &table), None);
    assert_eq!(Inferior::breakpoint_hit(&Status::Stopped(5, 0x401136), &table), None);
    assert_eq!(Inferior::breakpoint_hit(&Status::Stopped(5, 0), &table), None);
    assert_eq!(Inferior::breakpoint_hit(&Status::Exited(0), &table), None);
    assert_eq!(Inferior::breakpoint_hit(&Status::Signaled(5), &table), None);
}

#[test]
fn wake_up_restores_the_byte_of_the_trap_that_was_hit() {
    let mut inferior = process_with_words(&[(0x401130, WORD)]);
    let mut table: HashMap<usize, Restorepoint> = HashMap::new();
    inferior.set_breakpoint(&vec![0x401136], &mut table).unwrap();
    assert_eq!(inferior.word(0x401130), Some(0x88cc_6655_4433_2211));
    let regs = Registers { instruction_pointer: 0x401137, frame_pointer: 0 };
    let status = inferior.wake_up(WaitReport::Stopped(SIGTRAP), Some(regs), &table);
    assert_eq!(status, Ok(Status::Stopped(5, 0x401137)));
    assert_eq!(inferior.word(0x401130), Some(WORD));
}

#[test]
fn wake_up_leaves_memory_alone_on_any_other_stop() {
    let mut inferior = process_with_words(&[(0x401130, WORD)]);
    let mut table: HashMap<usize, Restorepoint> = HashMap::new();
    inferior.set_breakpoint(&vec![0x401136], &mut table).unwrap();
    let regs = Registers { instruction_pointer: 0x401137, frame_pointer: 0 };
    assert_eq!(
        inferior.wake_up(WaitReport::Stopped(2), Some(regs), &table),
        Ok(Status::Stopped(2, 0x401137))
    );
    assert_eq!(inferior.word(0x401130), Some(0x88cc_6655_4433_2211));
    assert_eq!(inferior.wake_up(WaitReport::Exited(0), None, &table), Ok(Status::Exited(0)));
    assert_eq!(inferior.wake_up(WaitReport::Other, None, &table), Err(DebugError::Trace));
}

#[test]
fn wake_up_on_a_hit_without_the_word_fails() {
    let mut inferior = Inferior::new(7);
    let mut table: HashMap<usize, Restorepoint> = HashMap::new();
    table.insert(0x401136, Restorepoint { addr: 0x401136, orig_byte: 0x55 });
    let regs = Registers { instruction_pointer: 0x401137, frame_pointer: 0 };
    assert_eq!(
        inferior.wake_up(WaitReport::Stopped(SIGTRAP), Some(regs), &table),
        Err(DebugError::MemoryAccess(0x401136))
    );
}

#[test]
fn status_is_live_only_when_stopped() {
    assert!(Status::Stopped(5, 1).is_live());
    assert!(!Status::Exited(0).is_live());
    assert!(!Status::Signaled(9).is_live());
}
