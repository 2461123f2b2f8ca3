//! The 4096-byte address space, the digit font and program loading.

use vstd::prelude::*;
use crate::error::Fault;

verus! {

/// Number of addressable bytes.
pub const MEMORY_SIZE: usize = 4096;

/// First address of the program area.
pub const PROGRAM_START: usize = 0x200;

/// Largest program that fits between the entry address and the top of
/// memory.
pub const MAX_PROGRAM_SIZE: usize = 3584;

/// Bytes per font glyph.
pub const GLYPH_SIZE: usize = 5;

/// Bytes of the whole font, sixteen glyphs.
pub const FONT_SIZE: usize = 80;

/// The sixteen hexadecimal digit glyphs, five rows each, stored from
/// address zero.
pub const FONT: [u8; 80] = [
    0xF0, 0x90, 0x90, 0x90, 0xF0,
    0x20, 0x60, 0x20, 0x20, 0x70,
    0xF0, 0x10, 0xF0, 0x80, 0xF0,
    0xF0, 0x10, 0xF0, 0x10, 0xF0,
    0x90, 0x90, 0xF0, 0x10, 0x10,
    0xF0, 0x80, 0xF0, 0x10, 0xF0,
    0xF0, 0x80, 0xF0, 0x90, 0xF0,
    0xF0, 0x10, 0x20, 0x40, 0x40,
    0xF0, 0x90, 0xF0, 0x90, 0xF0,
    0xF0, 0x90, 0xF0, 0x10, 0xF0,
    0xF0, 0x90, 0xF0, 0x90, 0x90,
    0xE0, 0x90, 0xE0, 0x90, 0xE0,
    0xF0, 0x80, 0x80, 0x80, 0xF0,
    0xE0, 0x90, 0x90, 0x90, 0xE0,
    0xF0, 0x80, 0xF0, 0x80, 0xF0,
    0xF0, 0x80, 0xF0, 0x80, 0x80,
];

/// The machine's memory: 4096 bytes, addresses `0x000` to `0xFFF`.
#[derive(Clone, Debug, PartialEq, Eq)]
pub struct AddressSpace {
    /// The bytes, indexed by address.
    pub bytes: [u8; 4096],
}

impl View for AddressSpace {
    type V = Seq<u8>;

    open spec fn view(&self) -> Seq<u8> {
        self.bytes@
    }
}

/// What memory `mem` holds once the font and the program `code` are in
/// place: the font from address zero, the program from the entry address,
/// every other byte as before.
pub open spec fn loaded(mem: Seq<u8>, code: Seq<u8>) -> Seq<u8> {
    Seq::new(
        4096,
        |a: int|
            if a < 80 {
                FONT@[a]
            } else if 0x200 <= a < 0x200 + code.len() {
                code[a - 0x200]
            } else {
                mem[a]
            },
    )
}

impl AddressSpace {
    /// A zero-filled memory.
    pub fn new() -> (m: AddressSpace)
        ensures
            m@ =~= Seq::new(4096, |a: int| 0u8),
    {
        AddressSpace { bytes: [0u8; 4096] }
    }

    /// The byte at `addr`, or a fault when `addr` lies outside the memory.
    pub fn read(&self, addr: u16) -> (r: Result<u8, Fault>)
        ensures
            addr < 4096 ==> r == Ok::<u8, Fault>(self@[addr as int]),
            addr >= 4096 ==> r == Err::<u8, Fault>(Fault::AddressOutOfRange),
    {
        if (addr as usize) < MEMORY_SIZE {
            Ok(self.bytes[addr as usize])
        } else {
            Err(Fault::AddressOutOfRange)
        }
    }

    /// Stores `value` at `addr`, or reports a fault and changes nothing
    /// when `addr` lies outside the memory.
    pub fn write(&mut self, addr: u16, value: u8) -> (r: Result<(), Fault>)
        ensures
            addr < 4096 ==> r is Ok && final(self)@ == old(self)@.update(addr as int, value),
            addr >= 4096 ==> r == Err::<(), Fault>(Fault::AddressOutOfRange)
                && final(self)@ == old(self)@,
    {
        if (addr as usize) < MEMORY_SIZE {
            self.bytes[addr as usize] = value;
            Ok(())
        } else {
            Err(Fault::AddressOutOfRange)
        }
    }
}

/// Places the font at address zero and `chp8_code` at the entry address.
/// A program that does not fit is rejected and the memory is left as it was.
pub fn init_memory(chp8_code: &Vec<u8>, memory: &mut AddressSpace) -> (r: Result<(), Fault>)
    ensures
        chp8_code@.len() <= MAX_PROGRAM_SIZE ==> r is Ok && final(memory)@ == loaded(
            old(memory)@,
            chp8_code@,
        ),
        chp8_code@.len() > MAX_PROGRAM_SIZE ==> r == Err::<(), Fault>(Fault::ProgramTooLarge)
            && final(memory)@ == old(memory)@,
{
    if chp8_code.len() > MAX_PROGRAM_SIZE {
        return Err(Fault::ProgramTooLarge);
    }
    let mut pos: usize = 0;
    while pos < FONT_SIZE
        invariant
            pos <= FONT_SIZE,
            forall|a: int| 0 <= a < pos ==> memory@[a] == FONT@[a],
            forall|a: int| pos <= a < 4096 ==> memory@[a] == old(memory)@[a],
        decreases FONT_SIZE - pos,
    {
        memory.bytes[pos] = FONT[pos];
        pos = pos + 1;
    }
    pos = 0;
    while pos < chp8_code.len()
        invariant
            pos <= chp8_code@.len() <= MAX_PROGRAM_SIZE,
            forall|a: int| 0 <= a < 80 ==> memory@[a] == FONT@[a],
            forall|a: int| 0x200 <= a < 0x200 + pos ==> memory@[a] == chp8_code@[a - 0x200],
            forall|a: int|
                80 <= a < 4096 && !(0x200 <= a < 0x200 + pos) ==> memory@[a] == old(memory)@[a],
        decreases chp8_code@.len() - pos,
    {
        memory.bytes[PROGRAM_START + pos] = chp8_code[pos];
        pos = pos + 1;
    }
    Ok(())
}

} // verus!
