//! The mathematical model of a traced process's memory.
//!
//! Memory is a map from aligned word addresses to the words read there. An
//! address is readable when its word is in the map. Bytes are addressed
//! individually and found inside their word.

use vstd::prelude::*;
use crate::word::{
    byte_of_word, byte_offset, lemma_replaced_byte_keeps_others, lemma_replaced_byte_reads_back,
    lemma_replaced_byte_undone, word_base, word_with_byte,
};

verus! {

/// Whether the word holding `addr` is part of `mem`.
pub open spec fn readable(mem: Map<usize, u64>, addr: usize) -> bool {
    mem.dom().contains(word_base(addr))
}

/// The byte of `mem` at address `addr`.
pub open spec fn mem_byte(mem: Map<usize, u64>, addr: usize) -> u8 {
    byte_of_word(mem[word_base(addr)], byte_offset(addr))
}

/// `mem` after the byte at `addr` has been overwritten with `val`.
pub open spec fn mem_with_byte(mem: Map<usize, u64>, addr: usize, val: u8) -> Map<usize, u64> {
    mem.insert(word_base(addr), word_with_byte(mem[word_base(addr)], byte_offset(addr), val))
}

/// A byte that was written is the byte that is read.
pub proof fn lemma_written_byte_reads_back(mem: Map<usize, u64>, addr: usize, val: u8)
    ensures
        mem_byte(mem_with_byte(mem, addr, val), addr) == val,
{
    lemma_replaced_byte_reads_back(mem[word_base(addr)], byte_offset(addr), val);
}

/// Writing one byte changes no other byte.
pub proof fn lemma_written_byte_keeps_others(
    mem: Map<usize, u64>,
    addr: usize,
    val: u8,
    other: usize,
)
    requires
        other != addr,
    ensures
        mem_byte(mem_with_byte(mem, addr, val), other) == mem_byte(mem, other),
{
    if word_base(other) == word_base(addr) {
        lemma_replaced_byte_keeps_others(
            mem[word_base(addr)],
            byte_offset(addr),
            val,
            byte_offset(other),
        );
    }
}

/// Writing a byte neither adds nor removes readable words.
pub proof fn lemma_written_byte_keeps_domain(mem: Map<usize, u64>, addr: usize, val: u8)
    requires
        readable(mem, addr),
    ensures
        mem_with_byte(mem, addr, val).dom() == mem.dom(),
{
    assert(mem_with_byte(mem, addr, val).dom() =~= mem.dom());
}

/// Writing back the byte that was at `addr` undoes any write to `addr`:
/// memory is then exactly what it was before.
pub proof fn law_write_back_restores_memory(mem: Map<usize, u64>, addr: usize, val: u8)
    requires
        readable(mem, addr),
    ensures
        mem_with_byte(mem_with_byte(mem, addr, val), addr, mem_byte(mem, addr)) == mem,
{
    lemma_replaced_byte_undone(mem[word_base(addr)], byte_offset(addr), val);
    assert(mem_with_byte(mem_with_byte(mem, addr, val), addr, mem_byte(mem, addr)) =~= mem);
}

} // verus!
