//! The traced process as the debugger knows it: its process id and the
//! memory words that have been read from it.
//!
//! Operations that patch memory work on the loaded words. The caller loads
//! the words an operation touches beforehand and writes the changed words
//! back to the process afterwards.

use std::collections::{HashMap, HashSet};
use vstd::prelude::*;
use crate::breakpoint::{
    fresh, lemma_planted_keeps_table_wf, lemma_planted_none, lemma_planted_one_more,
    lemma_readable_prefix_full, lemma_readable_prefix_is, plant_all, planted, readable_prefix,
    record_all, table_wf, Restorepoint,
};
use crate::error::DebugError;
use crate::memory::{mem_byte, mem_with_byte, readable};
use crate::status::{classify, trap_hit, Status, WaitReport, SIGTRAP, TRAP_WIDTH};
use crate::symbols::SymbolCache;
use crate::unwind::{backtrace, entry_function, walk, Frame, Registers, Unwound, MAX_FRAMES};
use crate::word::{align_addr_to_word, byte_at, patch_byte, word_base, TRAP_OPCODE};

verus! {

broadcast use vstd::std_specs::hash::group_hash_axioms;

/// A process under trace control.
pub struct Inferior {
    pid: i32,
    words: HashMap<usize, u64>,
    unreadable: HashSet<usize>,
}

/// An [`Inferior`] as a mathematical value.
pub struct InferiorView {
    /// The process id.
    pub pid: i32,
    /// The words read from the process so far, by aligned address.
    pub memory: Map<usize, u64>,
    /// The aligned addresses at which reading the process failed.
    pub faults: Set<usize>,
}

impl View for Inferior {
    type V = InferiorView;

    open spec fn view(&self) -> InferiorView {
        InferiorView { pid: self.spec_pid(), memory: self.memory(), faults: self.faults() }
    }
}

impl Inferior {
    /// The words read from the process so far, by aligned address.
    pub closed spec fn memory(&self) -> Map<usize, u64> {
        self.words@
    }

    /// The aligned addresses at which reading the process failed.
    pub closed spec fn faults(&self) -> Set<usize> {
        self.unreadable@
    }

    /// The process id.
    pub closed spec fn spec_pid(&self) -> i32 {
        self.pid
    }

    /// A handle for the process `pid`, with no memory loaded yet.
    pub fn new(pid: i32) -> (inferior: Inferior)
        ensures
            inferior.spec_pid() == pid,
            inferior.memory() == Map::<usize, u64>::empty(),
            inferior.faults() == Set::<usize>::empty(),
    {
        Inferior { pid, words: HashMap::new(), unreadable: HashSet::new() }
    }

    /// Returns the pid of this inferior.
    #[verifier::when_used_as_spec(spec_pid)]
    pub fn pid(&self) -> (pid: i32)
        ensures
            pid == self.spec_pid(),
    {
        self.pid
    }

    /// Rounds `addr` down to the start of the machine word that holds it.
    pub fn align_addr_to_word(addr: usize) -> (aligned: usize)
        ensures
            aligned == word_base(addr),
    {
        align_addr_to_word(addr)
    }

    /// Records that the aligned word holding `addr` currently reads `word`.
    pub fn load_word(&mut self, addr: usize, word: u64)
        ensures
            final(self).spec_pid() == old(self).spec_pid(),
            final(self).memory() == old(self).memory().insert(word_base(addr), word),
            final(self).faults() == old(self).faults(),
    {
        self.words.insert(align_addr_to_word(addr), word);
    }

    /// Records that the aligned word holding `addr` could not be read.
    pub fn mark_unreadable(&mut self, addr: usize)
        ensures
            final(self).spec_pid() == old(self).spec_pid(),
            final(self).memory() == old(self).memory(),
            final(self).faults() == old(self).faults().insert(word_base(addr)),
    {
        self.unreadable.insert(align_addr_to_word(addr));
    }

    /// Drops every loaded word. To be called once the process has run,
    /// since it may have changed its memory.
    pub fn forget_memory(&mut self)
        ensures
            final(self).spec_pid() == old(self).spec_pid(),
            final(self).memory() == Map::<usize, u64>::empty(),
            final(self).faults() == Set::<usize>::empty(),
    {
        self.words.clear();
        self.unreadable.clear();
    }

    /// The loaded word that holds `addr`, if it was loaded.
    pub fn word(&self, addr: usize) -> (word: Option<u64>)
        ensures
            word is Some <==> readable(self.memory(), addr),
            word matches Some(w) ==> w == self.memory()[word_base(addr)],
    {
        let aligned = align_addr_to_word(addr);
        match self.words.get(&aligned) {
            Some(w) => Some(*w),
            None => None,
        }
    }

    /// Overwrites the byte at `addr` with `val` and returns the byte that
    /// was there. Fails, changing nothing, when the word holding `addr` is
    /// not loaded.
    pub fn write_byte(&mut self, addr: usize, val: u8) -> (result: Result<u8, DebugError>)
        ensures
            final(self).spec_pid() == old(self).spec_pid(),
            final(self).faults() == old(self).faults(),
            readable(old(self).memory(), addr) ==> result == Ok::<u8, DebugError>(
                mem_byte(old(self).memory(), addr),
            ) && final(self).memory() == mem_with_byte(old(self).memory(), addr, val),
            !readable(old(self).memory(), addr) ==> result == Err::<u8, DebugError>(
                DebugError::MemoryAccess(addr),
            ) && final(self).memory() == old(self).memory(),
    {
        let aligned = align_addr_to_word(addr);
        let word = match self.words.get(&aligned) {
            Some(w) => *w,
            None => {
                return Err(DebugError::MemoryAccess(addr));
            },
        };
        let orig_byte = byte_at(word, addr);
        let updated_word = patch_byte(word, addr, val);
        self.words.insert(aligned, updated_word);
        Ok(orig_byte)
    }

    /// Plants a trap at each address of `br_list`, in order, and records in
    /// `rs_map` the byte each trap has overwritten.
    ///
    /// Returns `Ok(0)` when all of them are planted. Stops at the first
    /// address whose word is not loaded and reports it; the traps before it
    /// stay planted and recorded. The caller must not submit an address
    /// twice, nor one that `rs_map` already holds: the byte recorded for it
    /// would be the trap itself.
    pub fn set_breakpoint(
        &mut self,
        br_list: &Vec<usize>,
        rs_map: &mut HashMap<usize, Restorepoint>,
    ) -> (result: Result<u8, DebugError>)
        requires
            fresh(br_list@, old(rs_map)@),
        ensures
            final(self).spec_pid() == old(self).spec_pid(),
            final(self).faults() == old(self).faults(),
            final(self).memory() == plant_all(
                old(self).memory(),
                br_list@.take(readable_prefix(old(self).memory(), br_list@) as int),
            ),
            final(rs_map)@ == record_all(
                old(rs_map)@,
                old(self).memory(),
                br_list@.take(readable_prefix(old(self).memory(), br_list@) as int),
            ),
            planted(
                old(self).memory(),
                old(rs_map)@,
                br_list@.take(readable_prefix(old(self).memory(), br_list@) as int),
                final(self).memory(),
                final(rs_map)@,
            ),
            result is Ok <==> forall|i: int|
                0 <= i < br_list@.len() ==> readable(old(self).memory(), #[trigger] br_list@[i]),
            result is Ok ==> planted(
                old(self).memory(),
                old(rs_map)@,
                br_list@,
                final(self).memory(),
                final(rs_map)@,
            ),
            readable_prefix(old(self).memory(), br_list@) == br_list@.len() ==> result == Ok::<
                u8,
                DebugError,
            >(0),
            readable_prefix(old(self).memory(), br_list@) < br_list@.len() ==> result == Err::<
                u8,
                DebugError,
            >(
                DebugError::MemoryAccess(
                    br_list@[readable_prefix(old(self).memory(), br_list@) as int],
                ),
            ),
            table_wf(old(rs_map)@) ==> table_wf(final(rs_map)@),
    {
        let ghost mem0 = self.memory();
        let ghost table0 = rs_map@;
        proof {
            lemma_readable_prefix_full(mem0, br_list@);
            lemma_planted_none(mem0, table0);
            assert(br_list@.take(0) =~= Seq::<usize>::empty());
        }
        let mut i: usize = 0;
        while i < br_list.len()
            invariant
                i <= br_list.len(),
                self.spec_pid() == old(self).spec_pid(),
                self.faults() == old(self).faults(),
                mem0 == old(self).memory(),
                table0 == old(rs_map)@,
                fresh(br_list@, table0),
                planted(mem0, table0, br_list@.take(i as int), self.memory(), rs_map@),
                self.memory() == plant_all(mem0, br_list@.take(i as int)),
                rs_map@ == record_all(table0, mem0, br_list@.take(i as int)),
                forall|j: int| 0 <= j < i ==> readable(mem0, #[trigger] br_list@[j]),
            decreases br_list.len() - i,
        {
            let addr: usize = br_list[i];
            let ghost done = br_list@.take(i as int);
            let ghost mem1 = self.memory();
            let ghost table1 = rs_map@;
            proof {
                assert(!done.contains(addr)) by {
                    if done.contains(addr) {
                        let j = choose|j: int| 0 <= j < done.len() && done[j] == addr;
                        assert(br_list@[j] == br_list@[i as int]);
                    }
                }
                assert(br_list@.take(i as int + 1) =~= done.push(addr));
                assert(done.push(addr).drop_last() =~= done);
            }
            match self.write_byte(addr, TRAP_OPCODE) {
                Ok(orig_byte) => {
                    let restore_st = Restorepoint { addr, orig_byte };
                    rs_map.insert(addr, restore_st);
                    proof {
                        lemma_planted_one_more(mem0, table0, done, mem1, table1, addr);
                    }
                },
                Err(e) => {
                    proof {
                        lemma_readable_prefix_is(mem0, br_list@, i as nat);
                        lemma_planted_keeps_table_wf(mem0, table0, done, mem1, table1);
                    }
                    return Err(e);
                },
            }
            i += 1;
        }
        proof {
            lemma_readable_prefix_is(mem0, br_list@, i as nat);
            lemma_planted_keeps_table_wf(
                mem0,
                table0,
                br_list@.take(i as int),
                self.memory(),
                rs_map@,
            );
            assert(br_list@.take(i as int) =~= br_list@);
        }
        Ok(0)
    }

    /// Undoes the trap at `addr`: writes back the byte that `rs_map` holds
    /// for it and returns the byte that was there, the trap.
    ///
    /// Fails, changing nothing, when `rs_map` has no entry for `addr` or the
    /// word holding `addr` is not loaded.
    pub fn restore_one(&mut self, addr: usize, rs_map: &HashMap<usize, Restorepoint>) -> (result:
        Result<u8, DebugError>)
        ensures
            final(self).spec_pid() == old(self).spec_pid(),
            final(self).faults() == old(self).faults(),
            !rs_map@.contains_key(addr) ==> result == Err::<u8, DebugError>(
                DebugError::InvalidBreakpoint,
            ) && final(self).memory() == old(self).memory(),
            rs_map@.contains_key(addr) && !readable(old(self).memory(), addr) ==> result == Err::<
                u8,
                DebugError,
            >(DebugError::MemoryAccess(addr)) && final(self).memory() == old(self).memory(),
            rs_map@.contains_key(addr) && readable(old(self).memory(), addr) ==> result == Ok::<
                u8,
                DebugError,
            >(mem_byte(old(self).memory(), addr)) && final(self).memory() == mem_with_byte(
                old(self).memory(),
                addr,
                rs_map@[addr].orig_byte,
            ),
    {
        match rs_map.get(&addr) {
            Some(point) => self.write_byte(addr, point.orig_byte),
            None => Err(DebugError::InvalidBreakpoint),
        }
    }

    /// Interprets what waiting for the process reported. `regs` are the
    /// registers of the process, which are only there to be read when it is
    /// halted.
    pub fn wait(&self, report: WaitReport, regs: Option<Registers>) -> (result: Result<
        Status,
        DebugError,
    >)
        ensures
            result == classify(report, regs),
    {
        match report {
            WaitReport::Exited(exit_code) => Ok(Status::Exited(exit_code)),
            WaitReport::Signaled(signal) => Ok(Status::Signaled(signal)),
            WaitReport::Stopped(signal) => match regs {
                Some(regs) => Ok(Status::Stopped(signal, regs.instruction_pointer)),
                None => Err(DebugError::Trace),
            },
            WaitReport::Other => Err(DebugError::Trace),
        }
    }

    /// Tells whether `status` is a halt on one of the traps recorded in
    /// `rs_map`, and if so at which address the trap was planted.
    pub fn breakpoint_hit(status: &Status, rs_map: &HashMap<usize, Restorepoint>) -> (hit: Option<
        usize,
    >)
        ensures
            hit == trap_hit(*status, rs_map@),
    {
        match status {
            Status::Stopped(signal, ip) => {
                if *signal == SIGTRAP && *ip >= TRAP_WIDTH {
                    let addr: usize = *ip - TRAP_WIDTH;
                    if rs_map.contains_key(&addr) {
                        return Some(addr);
                    }
                }
                None
            },
            _ => None,
        }
    }

    /// Takes in what the process reported after it was resumed and returns
    /// its status. Where the process has halted on a recorded trap, the byte
    /// that the trap had overwritten is put back, so that the instruction
    /// there is whole again; this needs the word holding the trap loaded and
    /// fails without it, changing nothing.
    pub fn wake_up(
        &mut self,
        report: WaitReport,
        regs: Option<Registers>,
        rs_map: &HashMap<usize, Restorepoint>,
    ) -> (result: Result<Status, DebugError>)
        ensures
            final(self).spec_pid() == old(self).spec_pid(),
            final(self).faults() == old(self).faults(),
            match classify(report, regs) {
                Err(e) => result == Err::<Status, DebugError>(e) && final(self).memory() == old(
                    self,
                ).memory(),
                Ok(status) => match trap_hit(status, rs_map@) {
                    None => result == Ok::<Status, DebugError>(status) && final(self).memory()
                        == old(self).memory(),
                    Some(addr) => if readable(old(self).memory(), addr) {
                        result == Ok::<Status, DebugError>(status) && final(self).memory()
                            == mem_with_byte(old(self).memory(), addr, rs_map@[addr].orig_byte)
                    } else {
                        result == Err::<Status, DebugError>(DebugError::MemoryAccess(addr))
                            && final(self).memory() == old(self).memory()
                    },
                },
            },
    {
        let status = match self.wait(report, regs) {
            Ok(status) => status,
            Err(e) => {
                return Err(e);
            },
        };
        if let Some(addr) = Inferior::breakpoint_hit(&status, rs_map) {
            match self.restore_one(addr, rs_map) {
                Ok(_) => {},
                Err(e) => {
                    return Err(e);
                },
            }
        }
        Ok(status)
    }

    /// Walks the call stack of the halted process, innermost frame first,
    /// from the registers `regs`, naming each frame with what `debug_data`
    /// holds about its code address.
    ///
    /// The walk ends when it has named the entry function. It breaks off,
    /// keeping the frames named so far, at an address the debug information
    /// cannot place, at a frame pointer that is misaligned or whose words
    /// could not be read, and after `MAX_FRAMES` frames. Where a word or an
    /// answer is simply not there yet, it asks for it.
    pub fn print_backtrace(&self, regs: &Registers, debug_data: &SymbolCache) -> (unwound: Unwound)
        ensures
            unwound@ == backtrace(self.memory(), self.faults(), debug_data.answers(), *regs),
    {
        let entry = "main".to_owned();
        let mut ip: usize = regs.instruction_pointer;
        let mut fp: usize = regs.frame_pointer;
        let mut frames: Vec<Frame> = Vec::new();
        let mut budget: usize = MAX_FRAMES;
        loop
            invariant
                budget <= MAX_FRAMES,
                entry@ == entry_function(),
                backtrace(self.memory(), self.faults(), debug_data.answers(), *regs) == walk(
                    self.memory(),
                    self.faults(),
                    debug_data.answers(),
                    ip,
                    fp,
                    frames@,
                    budget as nat,
                ),
            decreases budget,
        {
            if budget == 0 {
                return Unwound::Broken(frames);
            }
            let symbol = match debug_data.lookup(ip) {
                Some(symbol) => symbol,
                None => {
                    return Unwound::NeedSymbol(ip);
                },
            };
            let (function, line) = match (&symbol.function, &symbol.line) {
                (Some(function), Some(line)) => (function, line),
                _ => {
                    return Unwound::Broken(frames);
                },
            };
            frames.push(Frame { function: function.clone(), line: line.duplicate() });
            if *function == entry {
                return Unwound::Complete(frames);
            }
            if fp % 8 != 0 || fp > usize::MAX - 8 {
                return Unwound::Broken(frames);
            }
            let return_slot: usize = fp + 8;
            let return_address: u64 = match self.words.get(&return_slot) {
                Some(word) => *word,
                None => {
                    if self.unreadable.contains(&return_slot) {
                        return Unwound::Broken(frames);
                    }
                    return Unwound::NeedWord(return_slot);
                },
            };
            let caller_frame: u64 = match self.words.get(&fp) {
                Some(word) => *word,
                None => {
                    if self.unreadable.contains(&fp) {
                        return Unwound::Broken(frames);
                    }
                    return Unwound::NeedWord(fp);
                },
            };
            ip = return_address as usize;
            fp = caller_frame as usize;
            budget -= 1;
        }
    }
}

} // verus!
