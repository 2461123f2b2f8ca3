//! The interpreter: one fetch-decode-execute step, and the timer tick.

use vstd::prelude::*;
use crate::decode::{decode, decoded, join_bytes, Opcode};
use crate::display::{update_display_mem, Framebuffer};
use crate::error::Fault;
use crate::keypad::Keypad;
use crate::memory::{init_memory, AddressSpace, GLYPH_SIZE, MAX_PROGRAM_SIZE};
use crate::registers::{Registers, FLAG};
use crate::semantics::{
    agrees,
    fetchable,
    fetched,
    op_alu,
    op_bcd,
    op_call,
    op_clear,
    op_fill,
    op_key,
    op_load,
    op_misc,
    op_return,
    op_store,
    op_tick,
    op_wait_key,
    power_on,
    spec_execute,
    spec_step,
    State,
};
use crate::stack::CallStack;

verus! {

/// The whole machine. A step reads the key states that the caller hands
/// in and changes memory, registers, stack and screen; whoever presents
/// the screen or sounds the buzzer reads them between steps.
#[derive(Clone, Debug, PartialEq, Eq)]
pub struct Interpreter {
    /// The address space.
    pub memory: AddressSpace,
    /// The register file.
    pub regs: Registers,
    /// The call stack.
    pub stack: CallStack,
    /// The framebuffer.
    pub screen: Framebuffer,
}

impl View for Interpreter {
    type V = State;

    open spec fn view(&self) -> State {
        State {
            mem: self.memory@,
            v: self.regs.v@,
            i: self.regs.i,
            pc: self.regs.pc,
            dt: self.regs.dt,
            st: self.regs.st,
            stack: self.stack@,
            screen: self.screen@,
        }
    }
}

/// Asks `rand::random` for one byte of the thread-local generator.
/// Nothing is claimed of the byte: any value may come back, and two calls
/// may differ.
#[verifier::external_body]
fn random_byte() -> (byte: u8) {
    rand::random::<u8>()
}

impl Interpreter {
    /// Every part of the machine has its size and the call stack is within
    /// its capacity.
    pub open spec fn wf(&self) -> bool {
        self@.wf()
    }

    /// The machine at power-on.
    pub fn new() -> (m: Interpreter)
        ensures
            m@ == power_on(),
            m.wf(),
    {
        Interpreter {
            memory: AddressSpace::new(),
            regs: Registers::default(),
            stack: CallStack::new(),
            screen: Framebuffer::new(),
        }
    }

    /// Puts the font and `program` into memory. A program that does not
    /// fit is rejected, and nothing changes.
    pub fn load(&mut self, program: &Vec<u8>) -> (r: Result<(), Fault>)
        ensures
            program@.len() <= MAX_PROGRAM_SIZE ==> r is Ok
                && final(self)@ == op_load(old(self)@, program@),
            program@.len() > MAX_PROGRAM_SIZE ==> r == Err::<(), Fault>(Fault::ProgramTooLarge)
                && final(self)@ == old(self)@,
            old(self).wf() ==> final(self).wf(),
    {
        init_memory(program, &mut self.memory)
    }

    /// The delay timer's current value.
    pub fn delay_timer(&self) -> (dt: u8)
        ensures
            dt == self@.dt,
    {
        self.regs.dt
    }

    /// The sound timer's current value. The buzzer sounds while it is not
    /// zero.
    pub fn sound_timer(&self) -> (st: u8)
        ensures
            st == self@.st,
    {
        self.regs.st
    }

    /// One tick of the 60 Hz clock: each timer that is not zero goes down
    /// by one.
    pub fn tick(&mut self)
        ensures
            final(self)@ == op_tick(old(self)@),
            old(self).wf() ==> final(self).wf(),
    {
        if self.regs.dt > 0 {
            self.regs.dt = self.regs.dt - 1;
        }
        if self.regs.st > 0 {
            self.regs.st = self.regs.st - 1;
        }
    }

    /// Reads and decodes the instruction at the program counter. The
    /// program counter must lie in the program area with room for both
    /// bytes; otherwise the fetch is a fault.
    pub fn fetch(&self) -> (r: Result<Opcode, Fault>)
        ensures
            fetchable(self@.pc) ==> r == Ok::<Opcode, Fault>(decoded(fetched(self@))),
            !fetchable(self@.pc) ==> r == Err::<Opcode, Fault>(Fault::AddressOutOfRange),
    {
        let pc: usize = self.regs.pc as usize;
        if pc < 0x200 || pc + 1 >= 4096 {
            return Err(Fault::AddressOutOfRange);
        }
        let word: u16 = join_bytes(self.memory.bytes[pc], self.memory.bytes[pc + 1]);
        Ok(decode(word))
    }

    /// Executes one instruction, drawing the random byte where the
    /// instruction asks for one. The outcome is that of `step_with` for
    /// some byte.
    pub fn step(&mut self, keys: &Keypad) -> (r: Result<(), Fault>)
        ensures
            exists|rnd: u8|
                agrees(
                    #[trigger] spec_step(old(self)@, keys@, rnd),
                    old(self)@,
                    r,
                    final(self)@,
                ),
            old(self).wf() ==> final(self).wf(),
    {
        let rnd: u8 = match self.fetch() {
            Ok(op) => if op.family == 0xC {
                random_byte()
            } else {
                0
            },
            Err(_) => 0,
        };
        self.step_with(keys, rnd)
    }

    /// Executes one instruction: fetches the word at the program counter,
    /// decodes it and runs it against the key states `keys`, with `rnd` as
    /// the byte that the random instruction draws. A fault leaves the
    /// machine as it was.
    pub fn step_with(&mut self, keys: &Keypad, rnd: u8) -> (r: Result<(), Fault>)
        ensures
            agrees(spec_step(old(self)@, keys@, rnd), old(self)@, r, final(self)@),
            old(self).wf() ==> final(self).wf(),
    {
        match self.fetch() {
            Ok(op) => self.execute(op, keys, rnd),
            Err(fault) => Err(fault),
        }
    }

    /// Runs the decoded instruction `op`.
    fn execute(&mut self, op: Opcode, keys: &Keypad, rnd: u8) -> (r: Result<(), Fault>)
        requires
            old(self).regs.pc <= 0xFFE,
            op.family < 16,
            op.nnn < 4096,
            op.x < 16,
            op.y < 16,
            op.n < 16,
        ensures
            agrees(spec_execute(old(self)@, op, keys@, rnd), old(self)@, r, final(self)@),
            old(self).wf() ==> final(self).wf(),
    {
        let x: usize = op.x as usize;
        let y: usize = op.y as usize;
        let ghost before = self@;
        match op.family {
            0x0 => {
                if op.kk == 0xE0 {
                    self.screen.clear();
                    self.regs.pc = self.regs.pc + 2;
                    assert(self@ =~= op_clear(before));
                    Ok(())
                } else if op.kk == 0xEE {
                    self.ret()
                } else {
                    self.regs.pc = self.regs.pc + 2;
                    assert(self@ =~= before.advance());
                    Ok(())
                }
            },
            0x1 => {
                self.regs.pc = op.nnn;
                assert(self@ =~= before.at(op.nnn as int));
                Ok(())
            },
            0x2 => self.call(op.nnn),
            0x3 => {
                self.skip_when(self.regs.v[x] == op.kk);
                Ok(())
            },
            0x4 => {
                self.skip_when(self.regs.v[x] != op.kk);
                Ok(())
            },
            0x5 => {
                self.skip_when(self.regs.v[x] == self.regs.v[y]);
                Ok(())
            },
            0x6 => {
                self.regs.v[x] = op.kk;
                self.regs.pc = self.regs.pc + 2;
                assert(self@ =~= before.with_v(x as int, op.kk).advance());
                Ok(())
            },
            0x7 => {
                let sum: u8 = self.regs.v[x].wrapping_add(op.kk);
                self.regs.v[x] = sum;
                self.regs.pc = self.regs.pc + 2;
                assert(self@ =~= before.with_v(
                    x as int,
                    ((before.v[x as int] + op.kk) % 256) as u8,
                ).advance());
                Ok(())
            },
            0x8 => {
                self.alu(x, y, op.n);
                Ok(())
            },
            0x9 => {
                self.skip_when(self.regs.v[x] != self.regs.v[y]);
                Ok(())
            },
            0xA => {
                self.regs.i = op.nnn;
                self.regs.pc = self.regs.pc + 2;
                assert(self@ =~= before.with_i(op.nnn as int).advance());
                Ok(())
            },
            0xB => {
                self.regs.pc = op.nnn + self.regs.v[0] as u16;
                assert(self@ =~= before.at(op.nnn + before.v[0]));
                Ok(())
            },
            0xC => {
                self.regs.v[x] = rnd & op.kk;
                self.regs.pc = self.regs.pc + 2;
                assert(self@ =~= before.with_v(x as int, rnd & op.kk).advance());
                Ok(())
            },
            0xD => self.draw(x, y, op.n as usize),
            0xE => {
                self.key(x, op.kk, keys);
                Ok(())
            },
            0xF => self.misc(x, op.kk, keys),
            _ => {
                self.regs.pc = self.regs.pc + 2;
                assert(self@ =~= before.advance());
                Ok(())
            },
        }
    }

    /// Moves the program counter past the next instruction if `cond`
    /// holds, else onto it.
    fn skip_when(&mut self, cond: bool)
        requires
            old(self).regs.pc <= 0xFFE,
        ensures
            final(self)@ == old(self)@.skip_when(cond),
            final(self).stack == old(self).stack,
    {
        if cond {
            self.regs.pc = self.regs.pc + 4;
        } else {
            self.regs.pc = self.regs.pc + 2;
        }
    }

    /// `00EE`.
    fn ret(&mut self) -> (r: Result<(), Fault>)
        ensures
            agrees(op_return(old(self)@), old(self)@, r, final(self)@),
            old(self).wf() ==> final(self).wf(),
    {
        let ghost before = self@;
        match self.stack.pop() {
            Ok(addr) => {
                self.regs.pc = addr;
                assert(self@ =~= op_return(before)->Ok_0);
                Ok(())
            },
            Err(fault) => {
                assert(self@ =~= before);
                Err(fault)
            },
        }
    }

    /// `2nnn`.
    fn call(&mut self, nnn: u16) -> (r: Result<(), Fault>)
        requires
            old(self).regs.pc <= 0xFFE,
        ensures
            agrees(op_call(old(self)@, nnn), old(self)@, r, final(self)@),
            old(self).wf() ==> final(self).wf(),
    {
        let ghost before = self@;
        match self.stack.push(self.regs.pc + 2) {
            Ok(()) => {
                self.regs.pc = nnn;
                assert(self@ =~= op_call(before, nnn)->Ok_0);
                Ok(())
            },
            Err(fault) => {
                assert(self@ =~= before);
                Err(fault)
            },
        }
    }

    /// The `8xyn` family.
    fn alu(&mut self, x: usize, y: usize, n: u8)
        requires
            old(self).regs.pc <= 0xFFE,
            x < 16,
            y < 16,
        ensures
            final(self)@ == op_alu(old(self)@, x as int, y as int, n),
            final(self).stack == old(self).stack,
    {
        let a: u8 = self.regs.v[x];
        let b: u8 = self.regs.v[y];
        match n {
            0x0 => {
                self.regs.v[x] = b;
            },
            0x1 => {
                self.regs.v[x] = a | b;
            },
            0x2 => {
                self.regs.v[x] = a & b;
            },
            0x3 => {
                self.regs.v[x] = a ^ b;
            },
            0x4 => {
                let sum: u16 = a as u16 + b as u16;
                self.regs.v[FLAG] = if sum > 255 {
                    1
                } else {
                    0
                };
                self.regs.v[x] = (sum % 256) as u8;
            },
            0x5 => {
                self.regs.v[FLAG] = if a >= b {
                    1
                } else {
                    0
                };
                self.regs.v[x] = a.wrapping_sub(b);
            },
            0x6 => {
                self.regs.v[FLAG] = a % 2;
                self.regs.v[x] = a / 2;
            },
            0x7 => {
                self.regs.v[FLAG] = if b >= a {
                    1
                } else {
                    0
                };
                self.regs.v[x] = b.wrapping_sub(a);
            },
            0xE => {
                self.regs.v[FLAG] = a / 128;
                self.regs.v[x] = a.wrapping_mul(2);
            },
            _ => {},
        }
        self.regs.pc = self.regs.pc + 2;
    }

    /// `Dxyn`.
    fn draw(&mut self, x: usize, y: usize, n: usize) -> (r: Result<(), Fault>)
        requires
            old(self).regs.pc <= 0xFFE,
            x < 16,
            y < 16,
            n < 16,
        ensures
            agrees(
                crate::semantics::op_draw(old(self)@, x as int, y as int, n as int),
                old(self)@,
                r,
                final(self)@,
            ),
            final(self).stack == old(self).stack,
    {
        let ghost before = self@;
        match update_display_mem(&mut self.screen, &mut self.regs, x, y, &self.memory, n) {
            Ok(()) => {
                self.regs.pc = self.regs.pc + 2;
                assert(self@ =~= crate::semantics::op_draw(
                    before,
                    x as int,
                    y as int,
                    n as int,
                )->Ok_0);
                Ok(())
            },
            Err(fault) => {
                assert(self@ =~= before);
                Err(fault)
            },
        }
    }

    /// `Ex9E` and `ExA1`.
    fn key(&mut self, x: usize, kk: u8, keys: &Keypad)
        requires
            old(self).regs.pc <= 0xFFE,
            x < 16,
        ensures
            final(self)@ == op_key(old(self)@, x as int, kk, keys@),
            final(self).stack == old(self).stack,
    {
        if kk == 0x9E {
            self.skip_when(keys.is_pressed(self.regs.v[x]));
        } else if kk == 0xA1 {
            self.skip_when(!keys.is_pressed(self.regs.v[x]));
        } else {
            self.regs.pc = self.regs.pc + 2;
        }
    }

    /// The `Fxkk` family.
    fn misc(&mut self, x: usize, kk: u8, keys: &Keypad) -> (r: Result<(), Fault>)
        requires
            old(self).regs.pc <= 0xFFE,
            x < 16,
        ensures
            agrees(op_misc(old(self)@, x as int, kk, keys@), old(self)@, r, final(self)@),
            final(self).stack == old(self).stack,
    {
        let ghost before = self@;
        match kk {
            0x07 => {
                self.regs.v[x] = self.regs.dt;
                self.regs.pc = self.regs.pc + 2;
                assert(self@ =~= before.with_v(x as int, before.dt).advance());
                Ok(())
            },
            0x0A => {
                self.wait_key(x, keys);
                Ok(())
            },
            0x15 => {
                self.regs.dt = self.regs.v[x];
                self.regs.pc = self.regs.pc + 2;
                assert(self@ =~= State { dt: before.v[x as int], ..before }.advance());
                Ok(())
            },
            0x18 => {
                self.regs.st = self.regs.v[x];
                self.regs.pc = self.regs.pc + 2;
                assert(self@ =~= State { st: before.v[x as int], ..before }.advance());
                Ok(())
            },
            0x1E => {
                self.regs.i = self.regs.i.wrapping_add(self.regs.v[x] as u16);
                self.regs.pc = self.regs.pc + 2;
                assert(self@ =~= before.with_i((before.i + before.v[x as int]) % 65536).advance());
                Ok(())
            },
            0x29 => {
                self.regs.i = (self.regs.v[x] % 16) as u16 * (GLYPH_SIZE as u16);
                self.regs.pc = self.regs.pc + 2;
                assert(self@ =~= before.with_i((before.v[x as int] % 16) * 5).advance());
                Ok(())
            },
            0x33 => self.store_bcd(x),
            0x55 => self.store_registers(x),
            0x65 => self.fill_registers(x),
            _ => {
                self.regs.pc = self.regs.pc + 2;
                assert(self@ =~= before.advance());
                Ok(())
            },
        }
    }

    /// `Fx0A`.
    fn wait_key(&mut self, x: usize, keys: &Keypad)
        requires
            old(self).regs.pc <= 0xFFE,
            x < 16,
        ensures
            final(self)@ == op_wait_key(old(self)@, x as int, keys@),
            final(self).stack == old(self).stack,
    {
        match keys.first_pressed() {
            Some(code) => {
                self.regs.v[x] = code;
                self.regs.pc = self.regs.pc + 2;
            },
            None => {},
        }
    }

    /// `Fx33`.
    fn store_bcd(&mut self, x: usize) -> (r: Result<(), Fault>)
        requires
            old(self).regs.pc <= 0xFFE,
            x < 16,
        ensures
            agrees(op_bcd(old(self)@, x as int), old(self)@, r, final(self)@),
            final(self).stack == old(self).stack,
    {
        let ghost before = self@;
        let base: usize = self.regs.address();
        if base + 2 >= 4096 {
            return Err(Fault::AddressOutOfRange);
        }
        let value: u8 = self.regs.v[x];
        self.memory.bytes[base] = value / 100;
        self.memory.bytes[base + 1] = (value / 10) % 10;
        self.memory.bytes[base + 2] = value % 10;
        self.regs.pc = self.regs.pc + 2;
        assert(self@ =~= op_bcd(before, x as int)->Ok_0);
        Ok(())
    }

    /// `Fx55`.
    fn store_registers(&mut self, x: usize) -> (r: Result<(), Fault>)
        requires
            old(self).regs.pc <= 0xFFE,
            x < 16,
        ensures
            agrees(op_store(old(self)@, x as int), old(self)@, r, final(self)@),
            final(self).stack == old(self).stack,
    {
        let ghost before = self@;
        let base: usize = self.regs.address();
        if base + x >= 4096 {
            return Err(Fault::AddressOutOfRange);
        }
        let mut r: usize = 0;
        while r <= x
            invariant
                r <= x + 1,
                x < 16,
                base + x < 4096,
                self.memory@.len() == 4096,
                self.regs == old(self).regs,
                self.stack == old(self).stack,
                self.screen == old(self).screen,
                before == old(self)@,
                forall|a: int|
                    0 <= a < 4096 ==> self.memory@[a] == if base <= a < base + r {
                        before.v[a - base]
                    } else {
                        before.mem[a]
                    },
            decreases x + 1 - r,
        {
            self.memory.bytes[base + r] = self.regs.v[r];
            r = r + 1;
        }
        self.regs.pc = self.regs.pc + 2;
        assert(self@ =~= op_store(before, x as int)->Ok_0);
        Ok(())
    }

    /// `Fx65`.
    fn fill_registers(&mut self, x: usize) -> (r: Result<(), Fault>)
        requires
            old(self).regs.pc <= 0xFFE,
            x < 16,
        ensures
            agrees(op_fill(old(self)@, x as int), old(self)@, r, final(self)@),
            final(self).stack == old(self).stack,
    {
        let ghost before = self@;
        let base: usize = self.regs.address();
        if base + x >= 4096 {
            return Err(Fault::AddressOutOfRange);
        }
        let mut r: usize = 0;
        while r <= x
            invariant
                r <= x + 1,
                x < 16,
                base + x < 4096,
                self.regs.v@.len() == 16,
                self.memory == old(self).memory,
                self.stack == old(self).stack,
                self.screen == old(self).screen,
                self.regs.i == old(self).regs.i,
                self.regs.pc == old(self).regs.pc,
                self.regs.dt == old(self).regs.dt,
                self.regs.st == old(self).regs.st,
                before == old(self)@,
                forall|k: int|
                    0 <= k < 16 ==> self.regs.v@[k] == if k < r {
                        before.mem[base + k]
                    } else {
                        before.v[k]
                    },
            decreases x + 1 - r,
        {
            self.regs.v[r] = self.memory.bytes[base + r];
            r = r + 1;
        }
        self.regs.pc = self.regs.pc + 2;
        assert(self@ =~= op_fill(before, x as int)->Ok_0);
        Ok(())
    }
}

} // verus!
