//! What each instruction means, as functions on the machine's state.
//!
//! A `State` is the whole machine as plain mathematical values. Every
//! instruction is a function from the state before it to the state after
//! it, or to the fault that it raises.

use vstd::prelude::*;
use crate::decode::{decoded, word_of, Opcode};
use crate::display::{blit, collides, collision_flag, sprite_rows};
use crate::error::Fault;
use crate::keypad::{is_down, lowest_down};
use crate::memory::loaded;
use crate::registers::index_address;
use crate::stack::{popped, pushed};

verus! {

/// The machine: memory, registers, timers, call stack and screen.
#[verifier::ext_equal]
pub struct State {
    /// The 4096 bytes of memory.
    pub mem: Seq<u8>,
    /// The sixteen general registers.
    pub v: Seq<u8>,
    /// The index register.
    pub i: u16,
    /// The program counter.
    pub pc: u16,
    /// The delay timer.
    pub dt: u8,
    /// The sound timer.
    pub st: u8,
    /// The return addresses, oldest first.
    pub stack: Seq<u16>,
    /// The 2048 pixels, row by row.
    pub screen: Seq<bool>,
}

/// A dark screen.
pub open spec fn dark() -> Seq<bool> {
    Seq::new(2048, |k: int| false)
}

/// The machine at power-on: memory, registers and timers cleared, the
/// stack empty, the screen dark, the program counter at the entry address.
pub open spec fn power_on() -> State {
    State {
        mem: Seq::new(4096, |a: int| 0u8),
        v: Seq::new(16, |k: int| 0u8),
        i: 0,
        pc: 0x200,
        dt: 0,
        st: 0,
        stack: Seq::empty(),
        screen: dark(),
    }
}

impl State {
    /// Every part has its size, and the stack is within its capacity.
    pub open spec fn wf(self) -> bool {
        &&& self.mem.len() == 4096
        &&& self.v.len() == 16
        &&& self.stack.len() <= 16
        &&& self.screen.len() == 2048
    }

    /// This state with the program counter at `pc`.
    pub open spec fn at(self, pc: int) -> State {
        State { pc: pc as u16, ..self }
    }

    /// This state with the program counter on the next instruction.
    pub open spec fn advance(self) -> State {
        self.at(self.pc + 2)
    }

    /// This state with the program counter past the next instruction if
    /// `cond` holds, else on the next instruction.
    pub open spec fn skip_when(self, cond: bool) -> State {
        if cond {
            self.at(self.pc + 4)
        } else {
            self.at(self.pc + 2)
        }
    }

    /// This state with `value` in register `x`.
    pub open spec fn with_v(self, x: int, value: u8) -> State {
        State { v: self.v.update(x, value), ..self }
    }

    /// This state with `value` in the index register.
    pub open spec fn with_i(self, value: int) -> State {
        State { i: value as u16, ..self }
    }

    /// The memory address that the index register names.
    pub open spec fn address(self) -> int {
        index_address(self.i)
    }
}

/// The state once the font and `program` are in memory.
pub open spec fn op_load(s: State, program: Seq<u8>) -> State {
    State { mem: loaded(s.mem, program), ..s }
}

/// A timer one tick later: one less, but never below zero.
pub open spec fn ticked(timer: u8) -> u8 {
    if timer > 0 {
        (timer - 1) as u8
    } else {
        0
    }
}

/// The state one timer tick later.
pub open spec fn op_tick(s: State) -> State {
    State { dt: ticked(s.dt), st: ticked(s.st), ..s }
}

/// `00E0`: the screen goes dark.
pub open spec fn op_clear(s: State) -> State {
    State { screen: dark(), ..s }.advance()
}

/// `00EE`: execution resumes at the most recent return address.
pub open spec fn op_return(s: State) -> Result<State, Fault> {
    match popped(s.stack) {
        Ok((addr, rest)) => Ok(State { pc: addr, stack: rest, ..s }),
        Err(fault) => Err(fault),
    }
}

/// `1nnn`: execution continues at `nnn`.
pub open spec fn op_jump(s: State, nnn: u16) -> State {
    s.at(nnn as int)
}

/// `2nnn`: the address of the next instruction goes on the stack and
/// execution continues at `nnn`.
pub open spec fn op_call(s: State, nnn: u16) -> Result<State, Fault> {
    match pushed(s.stack, (s.pc + 2) as u16) {
        Ok(frames) => Ok(State { pc: nnn, stack: frames, ..s }),
        Err(fault) => Err(fault),
    }
}

/// Whether the low nibble `n` names an instruction of the `8xyn` family.
pub open spec fn alu_defined(n: u8) -> bool {
    n <= 7 || n == 0xE
}

/// What `8xyn` leaves in `Vx`, given `a` in `Vx` and `b` in `Vy` before.
pub open spec fn alu_result(n: u8, a: u8, b: u8) -> u8 {
    if n == 0 {
        b
    } else if n == 1 {
        a | b
    } else if n == 2 {
        a & b
    } else if n == 3 {
        a ^ b
    } else if n == 4 {
        ((a + b) % 256) as u8
    } else if n == 5 {
        ((a - b) % 256) as u8
    } else if n == 6 {
        a / 2
    } else if n == 7 {
        ((b - a) % 256) as u8
    } else {
        ((a * 2) % 256) as u8
    }
}

/// What `8xyn` writes to the flag register, given `a` in `Vx` and `b` in
/// `Vy` before; `None` where the instruction leaves the flag alone.
pub open spec fn alu_flag(n: u8, a: u8, b: u8) -> Option<u8> {
    if n == 4 {
        Some(
            if a + b > 255 {
                1u8
            } else {
                0u8
            },
        )
    } else if n == 5 {
        Some(
            if a >= b {
                1u8
            } else {
                0u8
            },
        )
    } else if n == 6 {
        Some(a % 2)
    } else if n == 7 {
        Some(
            if b >= a {
                1u8
            } else {
                0u8
            },
        )
    } else if n == 0xE {
        Some(a / 128)
    } else {
        None
    }
}

/// `8xyn`: both operands are read first; then the flag is written, where
/// the instruction has one, and last the result.
pub open spec fn op_alu(s: State, x: int, y: int, n: u8) -> State {
    if alu_defined(n) {
        let a = s.v[x];
        let b = s.v[y];
        let flagged = match alu_flag(n, a, b) {
            Some(flag) => s.with_v(15, flag),
            None => s,
        };
        flagged.with_v(x, alu_result(n, a, b)).advance()
    } else {
        s.advance()
    }
}

/// `Dxyn`: the `n`-row sprite at the index register is drawn at
/// `(Vx, Vy)` and the flag register says whether a lit pixel went dark.
pub open spec fn op_draw(s: State, x: int, y: int, n: int) -> Result<State, Fault> {
    if s.address() + n <= 4096 {
        let sprite = sprite_rows(s.mem, s.i, n);
        let cx = s.v[x] as int;
        let cy = s.v[y] as int;
        Ok(
            State {
                screen: blit(s.screen, sprite, cx, cy),
                v: s.v.update(15, collision_flag(collides(s.screen, sprite, cx, cy))),
                ..s
            }.advance(),
        )
    } else {
        Err(Fault::AddressOutOfRange)
    }
}

/// `Ex9E` and `ExA1`: skip on the state of the key that `Vx` names.
pub open spec fn op_key(s: State, x: int, kk: u8, keys: Seq<bool>) -> State {
    if kk == 0x9E {
        s.skip_when(is_down(keys, s.v[x] as int))
    } else if kk == 0xA1 {
        s.skip_when(!is_down(keys, s.v[x] as int))
    } else {
        s.advance()
    }
}

/// `Fx0A`: with no key down nothing changes, so that the instruction runs
/// again; with a key down its code goes to `Vx`.
pub open spec fn op_wait_key(s: State, x: int, keys: Seq<bool>) -> State {
    match lowest_down(keys) {
        Some(code) => s.with_v(x, code).advance(),
        None => s,
    }
}

/// `Fx33`: the hundreds, tens and ones of `Vx` go to memory at the index
/// register.
pub open spec fn op_bcd(s: State, x: int) -> Result<State, Fault> {
    let base = s.address();
    let value = s.v[x];
    if base + 2 < 4096 {
        Ok(
            State {
                mem: s.mem.update(base, value / 100).update(base + 1, (value / 10) % 10).update(
                    base + 2,
                    value % 10,
                ),
                ..s
            }.advance(),
        )
    } else {
        Err(Fault::AddressOutOfRange)
    }
}

/// `Fx55`: `V0` to `Vx` go to memory from the index register on.
pub open spec fn op_store(s: State, x: int) -> Result<State, Fault> {
    let base = s.address();
    if base + x < 4096 {
        Ok(
            State {
                mem: Seq::new(
                    4096,
                    |a: int|
                        if base <= a <= base + x {
                            s.v[a - base]
                        } else {
                            s.mem[a]
                        },
                ),
                ..s
            }.advance(),
        )
    } else {
        Err(Fault::AddressOutOfRange)
    }
}

/// `Fx65`: `V0` to `Vx` are filled from memory from the index register on.
pub open spec fn op_fill(s: State, x: int) -> Result<State, Fault> {
    let base = s.address();
    if base + x < 4096 {
        Ok(
            State {
                v: Seq::new(
                    16,
                    |r: int|
                        if r <= x {
                            s.mem[base + r]
                        } else {
                            s.v[r]
                        },
                ),
                ..s
            }.advance(),
        )
    } else {
        Err(Fault::AddressOutOfRange)
    }
}

/// The `Fxkk` family: timers, keys, the index register and memory.
pub open spec fn op_misc(s: State, x: int, kk: u8, keys: Seq<bool>) -> Result<State, Fault> {
    if kk == 0x07 {
        Ok(s.with_v(x, s.dt).advance())
    } else if kk == 0x0A {
        Ok(op_wait_key(s, x, keys))
    } else if kk == 0x15 {
        Ok(State { dt: s.v[x], ..s }.advance())
    } else if kk == 0x18 {
        Ok(State { st: s.v[x], ..s }.advance())
    } else if kk == 0x1E {
        Ok(s.with_i((s.i + s.v[x]) % 65536).advance())
    } else if kk == 0x29 {
        Ok(s.with_i((s.v[x] % 16) * 5).advance())
    } else if kk == 0x33 {
        op_bcd(s, x)
    } else if kk == 0x55 {
        op_store(s, x)
    } else if kk == 0x65 {
        op_fill(s, x)
    } else {
        Ok(s.advance())
    }
}

/// The instruction `op`, run on state `s` with the key states `keys`;
/// `rnd` is the byte that the random instruction draws.
pub open spec fn spec_execute(s: State, op: Opcode, keys: Seq<bool>, rnd: u8) -> Result<
    State,
    Fault,
> {
    let x = op.x as int;
    let y = op.y as int;
    if op.family == 0x0 {
        if op.kk == 0xE0 {
            Ok(op_clear(s))
        } else if op.kk == 0xEE {
            op_return(s)
        } else {
            Ok(s.advance())
        }
    } else if op.family == 0x1 {
        Ok(op_jump(s, op.nnn))
    } else if op.family == 0x2 {
        op_call(s, op.nnn)
    } else if op.family == 0x3 {
        Ok(s.skip_when(s.v[x] == op.kk))
    } else if op.family == 0x4 {
        Ok(s.skip_when(s.v[x] != op.kk))
    } else if op.family == 0x5 {
        Ok(s.skip_when(s.v[x] == s.v[y]))
    } else if op.family == 0x6 {
        Ok(s.with_v(x, op.kk).advance())
    } else if op.family == 0x7 {
        Ok(s.with_v(x, ((s.v[x] + op.kk) % 256) as u8).advance())
    } else if op.family == 0x8 {
        Ok(op_alu(s, x, y, op.n))
    } else if op.family == 0x9 {
        Ok(s.skip_when(s.v[x] != s.v[y]))
    } else if op.family == 0xA {
        Ok(s.with_i(op.nnn as int).advance())
    } else if op.family == 0xB {
        Ok(s.at(op.nnn + s.v[0]))
    } else if op.family == 0xC {
        Ok(s.with_v(x, rnd & op.kk).advance())
    } else if op.family == 0xD {
        op_draw(s, x, y, op.n as int)
    } else if op.family == 0xE {
        Ok(op_key(s, x, op.kk, keys))
    } else if op.family == 0xF {
        op_misc(s, x, op.kk, keys)
    } else {
        Ok(s.advance())
    }
}

/// Whether an instruction can be fetched at `pc`: both of its bytes lie in
/// the program area.
pub open spec fn fetchable(pc: u16) -> bool {
    0x200 <= pc && pc + 1 < 4096
}

/// The instruction word at the program counter, high byte first.
pub open spec fn fetched(s: State) -> u16 {
    word_of(s.mem[s.pc as int], s.mem[s.pc + 1])
}

/// One fetch, decode and execute.
pub open spec fn spec_step(s: State, keys: Seq<bool>, rnd: u8) -> Result<State, Fault> {
    if fetchable(s.pc) {
        spec_execute(s, decoded(fetched(s)), keys, rnd)
    } else {
        Err(Fault::AddressOutOfRange)
    }
}

/// Whether result `r` and state `after` are what a transition with the
/// outcome `expected` leaves behind when it starts in `before`: on success
/// the new state, on a fault that fault and the state as it was.
pub open spec fn agrees(
    expected: Result<State, Fault>,
    before: State,
    r: Result<(), Fault>,
    after: State,
) -> bool {
    match expected {
        Ok(next) => r is Ok && after == next,
        Err(fault) => r == Err::<(), Fault>(fault) && after == before,
    }
}

} // verus!
