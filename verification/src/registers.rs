//! The register file.

use vstd::prelude::*;

verus! {

/// The address at which programs are loaded and at which execution starts.
pub const ENTRY_POINT: u16 = 0x200;

/// Index of the register that doubles as the flag register.
pub const FLAG: usize = 0xF;

/// The memory address that the index register value `i` names: its low
/// twelve bits.
pub open spec fn index_address(i: u16) -> int {
    i as int % 4096
}

/// Sixteen general 8-bit registers, the index register, the program counter
/// and the two timers.
#[derive(Clone, Debug, PartialEq, Eq)]
pub struct Registers {
    /// The general registers `V0` to `VF`; `VF` is also the flag register.
    pub v: [u8; 16],
    /// The delay timer.
    pub dt: u8,
    /// The sound timer.
    pub st: u8,
    /// The index register.
    pub i: u16,
    /// The program counter.
    pub pc: u16,
}

impl Default for Registers {
    /// All registers and both timers cleared, the program counter at the
    /// entry point.
    fn default() -> (r: Registers)
        ensures
            r.v@ =~= Seq::new(16, |k: int| 0u8),
            r.dt == 0,
            r.st == 0,
            r.i == 0,
            r.pc == ENTRY_POINT,
    {
        Registers { v: [0u8; 16], dt: 0, st: 0, i: 0, pc: ENTRY_POINT }
    }
}

impl Registers {
    /// The memory address that the index register names: its low twelve
    /// bits.
    pub fn address(&self) -> (addr: usize)
        ensures
            addr == index_address(self.i),
            addr < 4096,
    {
        let i: u16 = self.i;
        assert(i & 0x0FFF == i % 4096) by (bit_vector);
        (self.i & 0x0FFF) as usize
    }
}

} // verus!
