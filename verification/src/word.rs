//! Arithmetic on the machine words of a traced process.
//!
//! Memory of a traced process is only readable and writable one aligned
//! word at a time, so planting a one-byte trap means reading the word that
//! holds the byte, replacing that byte and writing the word back. Words are
//! little-endian: the byte at offset `k` of a word occupies bits
//! `8k .. 8k + 8`.

use vstd::prelude::*;

verus! {

/// Number of bytes in one machine word of the traced process.
pub const WORD_BYTES: usize = 8;

/// The one-byte instruction that halts the traced process when executed.
pub const TRAP_OPCODE: u8 = 0xcc;

/// Start of the aligned word that holds `addr`.
pub open spec fn word_base(addr: usize) -> usize {
    (addr - addr % 8) as usize
}

/// Position of `addr` inside its word, counted in bytes from the word's start.
pub open spec fn byte_offset(addr: usize) -> u64 {
    (addr % 8) as u64
}

/// The byte at position `offset` of `word`.
pub open spec fn byte_of_word(word: u64, offset: u64) -> u8 {
    ((word >> (8 * offset) as u64) & 0xff) as u8
}

/// `word` with the byte at position `offset` replaced by `val`.
pub open spec fn word_with_byte(word: u64, offset: u64, val: u8) -> u64 {
    (word & !(0xffu64 << (8 * offset) as u64)) | ((val as u64) << (8 * offset) as u64)
}

/// A replaced byte reads back as the value written.
pub proof fn lemma_replaced_byte_reads_back(word: u64, offset: u64, val: u8)
    requires
        offset < 8,
    ensures
        byte_of_word(word_with_byte(word, offset, val), offset) == val,
{
    let shift: u64 = (8 * offset) as u64;
    assert(shift == 0 || shift == 8 || shift == 16 || shift == 24 || shift == 32 || shift == 40
        || shift == 48 || shift == 56);
    assert((((word & !(0xffu64 << shift)) | ((val as u64) << shift)) >> shift) & 0xff == val as u64)
        by (bit_vector)
        requires
            shift == 0 || shift == 8 || shift == 16 || shift == 24 || shift == 32 || shift == 40
                || shift == 48 || shift == 56,
    ;
}

/// Replacing one byte leaves the other bytes of the word as they were.
pub proof fn lemma_replaced_byte_keeps_others(word: u64, offset: u64, val: u8, other: u64)
    requires
        offset < 8,
        other < 8,
        other != offset,
    ensures
        byte_of_word(word_with_byte(word, offset, val), other) == byte_of_word(word, other),
{
    let shift: u64 = (8 * offset) as u64;
    let peer: u64 = (8 * other) as u64;
    assert(shift == 0 || shift == 8 || shift == 16 || shift == 24 || shift == 32 || shift == 40
        || shift == 48 || shift == 56);
    assert(peer == 0 || peer == 8 || peer == 16 || peer == 24 || peer == 32 || peer == 40
        || peer == 48 || peer == 56);
    assert((((word & !(0xffu64 << shift)) | ((val as u64) << shift)) >> peer) & 0xff == (word
        >> peer) & 0xff) by (bit_vector)
        requires
            shift == 0 || shift == 8 || shift == 16 || shift == 24 || shift == 32 || shift == 40
                || shift == 48 || shift == 56,
            peer == 0 || peer == 8 || peer == 16 || peer == 24 || peer == 32 || peer == 40 || peer
                == 48 || peer == 56,
            peer != shift,
    ;
}

/// Writing back the byte that was there restores the word, whatever was
/// written in between.
pub proof fn lemma_replaced_byte_undone(word: u64, offset: u64, val: u8)
    requires
        offset < 8,
    ensures
        word_with_byte(word_with_byte(word, offset, val), offset, byte_of_word(word, offset))
            == word,
{
    let shift: u64 = (8 * offset) as u64;
    assert(shift == 0 || shift == 8 || shift == 16 || shift == 24 || shift == 32 || shift == 40
        || shift == 48 || shift == 56);
    let orig: u8 = byte_of_word(word, offset);
    assert(orig as u64 == (word >> shift) & 0xff) by {
        assert((word >> shift) & 0xff < 256) by (bit_vector);
    }
    let patched: u64 = (word & !(0xffu64 << shift)) | ((val as u64) << shift);
    let back: u64 = (word >> shift) & 0xff;
    assert((patched & !(0xffu64 << shift)) | (back << shift) == word) by (bit_vector)
        requires
            shift == 0 || shift == 8 || shift == 16 || shift == 24 || shift == 32 || shift == 40
                || shift == 48 || shift == 56,
            patched == (word & !(0xffu64 << shift)) | ((val as u64) << shift),
            back == (word >> shift) & 0xff,
    ;
}

/// Rounds `addr` down to the start of the machine word that holds it.
pub fn align_addr_to_word(addr: usize) -> (aligned: usize)
    ensures
        aligned == word_base(addr),
        aligned <= addr < aligned + 8,
        aligned % 8 == 0,
{
    addr - addr % WORD_BYTES
}

/// Reads from `word` the byte that lives at address `addr`, given that
/// `word` is the content of the aligned word holding `addr`.
pub fn byte_at(word: u64, addr: usize) -> (byte: u8)
    ensures
        byte == byte_of_word(word, byte_offset(addr)),
{
    let offset: u64 = (addr % WORD_BYTES) as u64;
    let shift: u64 = 8 * offset;
    let low: u64 = (word >> shift) & 0xff;
    assert(low < 256) by (bit_vector)
        requires
            low == (word >> shift) & 0xff,
    ;
    low as u8
}

/// Returns `word` with the byte that lives at address `addr` replaced by
/// `val`, given that `word` is the content of the aligned word holding
/// `addr`.
pub fn patch_byte(word: u64, addr: usize, val: u8) -> (patched: u64)
    ensures
        patched == word_with_byte(word, byte_offset(addr), val),
        byte_of_word(patched, byte_offset(addr)) == val,
        forall|other: u64|
            other < 8 && other != byte_offset(addr) ==> #[trigger] byte_of_word(patched, other)
                == byte_of_word(word, other),
{
    let offset: u64 = (addr % WORD_BYTES) as u64;
    let shift: u64 = 8 * offset;
    let masked: u64 = word & !(0xffu64 << shift);
    let patched: u64 = masked | ((val as u64) << shift);
    proof {
        lemma_replaced_byte_reads_back(word, offset, val);
        assert forall|other: u64| other < 8 && other != offset implies #[trigger] byte_of_word(
            patched,
            other,
        ) == byte_of_word(word, other) by {
            lemma_replaced_byte_keeps_others(word, offset, val, other);
        }
    }
    patched
}

} // verus!
