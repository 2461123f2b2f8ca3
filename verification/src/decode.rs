//! Splitting a 16-bit instruction word into its operand fields.

use vstd::prelude::*;

verus! {

/// An instruction word taken apart. Every field is derived from the word
/// alone; whether the combination names an instruction is for the
/// interpreter to say.
#[derive(Clone, Copy, Debug, PartialEq, Eq, Structural)]
pub struct Opcode {
    /// The top nibble, which selects the instruction family.
    pub family: u8,
    /// The low twelve bits: an address.
    pub nnn: u16,
    /// The second nibble: a register index.
    pub x: u8,
    /// The third nibble: a register index.
    pub y: u8,
    /// The low byte: an immediate.
    pub kk: u8,
    /// The low nibble: a small immediate.
    pub n: u8,
}

/// The word whose high byte is `hi` and whose low byte is `lo`.
pub open spec fn word_of(hi: u8, lo: u8) -> u16 {
    (hi as int * 256 + lo as int) as u16
}

/// The fields of `word`, by place value.
pub open spec fn decoded(word: u16) -> Opcode {
    Opcode {
        family: (word as int / 4096) as u8,
        nnn: (word as int % 4096) as u16,
        x: ((word as int / 256) % 16) as u8,
        y: ((word as int / 16) % 16) as u8,
        kk: (word as int % 256) as u8,
        n: (word as int % 16) as u8,
    }
}

/// Joins two consecutive memory bytes, high byte first, into a word.
pub fn join_bytes(hi: u8, lo: u8) -> (word: u16)
    ensures
        word == word_of(hi, lo),
        word as int == hi as int * 256 + lo as int,
{
    let word: u16 = ((hi as u16) << 8) | (lo as u16);
    assert(((hi as u16) << 8) | (lo as u16) == (hi as u16) * 256 + (lo as u16)) by (bit_vector);
    word
}

/// Takes `word` apart into its operand fields.
pub fn decode(word: u16) -> (op: Opcode)
    ensures
        op == decoded(word),
        op.family < 16,
        op.nnn < 4096,
        op.x < 16,
        op.y < 16,
        op.n < 16,
{
    let family: u8 = (word >> 12) as u8;
    let nnn: u16 = word & 0x0FFF;
    let x: u8 = ((word >> 8) & 0xF) as u8;
    let y: u8 = ((word >> 4) & 0xF) as u8;
    let kk: u8 = (word & 0xFF) as u8;
    let n: u8 = (word & 0xF) as u8;
    assert(word >> 12 == word / 4096) by (bit_vector);
    assert(word & 0x0FFF == word % 4096) by (bit_vector);
    assert((word >> 8) & 0xF == (word / 256) % 16) by (bit_vector);
    assert((word >> 4) & 0xF == (word / 16) % 16) by (bit_vector);
    assert(word & 0xFF == word % 256) by (bit_vector);
    assert(word & 0xF == word % 16) by (bit_vector);
    Opcode { family, nnn, x, y, kk, n }
}

} // verus!
