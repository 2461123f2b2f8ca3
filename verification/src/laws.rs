//! What holds of the machine for every state and every operand.

use vstd::prelude::*;
use crate::decode::decoded;
use crate::display::{bit_of, blit, collides, covers, pixel_index, sprite_bit};
use crate::error::Fault;
use crate::semantics::{fetchable, fetched, op_call, op_return, spec_step, State};
use crate::stack::{popped, pushed};

verus! {

/// The set instruction `6xkk` always succeeds, leaves `kk` in `Vx`, leaves
/// every other register alone and moves on to the next instruction.
pub proof fn law_set_register(s: State, keys: Seq<bool>, rnd: u8)
    requires
        s.wf(),
        fetchable(s.pc),
        decoded(fetched(s)).family == 0x6,
    ensures
        spec_step(s, keys, rnd) is Ok,
        ({
            let op = decoded(fetched(s));
            let t = spec_step(s, keys, rnd)->Ok_0;
            &&& t.wf()
            &&& t.v[op.x as int] == op.kk
            &&& forall|r: int| 0 <= r < 16 && r != op.x ==> t.v[r] == s.v[r]
            &&& t.pc == s.pc + 2
        }),
{
}

/// The add-immediate instruction `7xkk` adds modulo 256 and writes no
/// register but `Vx`; in particular the flag register keeps its value
/// unless it is itself the register added to.
pub proof fn law_add_immediate_wraps(s: State, keys: Seq<bool>, rnd: u8)
    requires
        s.wf(),
        fetchable(s.pc),
        decoded(fetched(s)).family == 0x7,
    ensures
        spec_step(s, keys, rnd) is Ok,
        ({
            let op = decoded(fetched(s));
            let t = spec_step(s, keys, rnd)->Ok_0;
            &&& t.wf()
            &&& t.v[op.x as int] == (s.v[op.x as int] + op.kk) % 256
            &&& forall|r: int| 0 <= r < 16 && r != op.x ==> t.v[r] == s.v[r]
            &&& op.x != 0xF ==> t.v[15] == s.v[15]
        }),
{
}

/// The add instruction `8xy4` leaves the sum modulo 256 in `Vx`. Where
/// `Vx` is not the flag register, the flag is 1 if and only if the sum is
/// above 255. Both operands are read before anything is written.
pub proof fn law_add_with_carry(s: State, keys: Seq<bool>, rnd: u8)
    requires
        s.wf(),
        fetchable(s.pc),
        decoded(fetched(s)).family == 0x8,
        decoded(fetched(s)).n == 0x4,
    ensures
        spec_step(s, keys, rnd) is Ok,
        ({
            let op = decoded(fetched(s));
            let a = s.v[op.x as int];
            let b = s.v[op.y as int];
            let t = spec_step(s, keys, rnd)->Ok_0;
            &&& t.wf()
            &&& t.v[op.x as int] == (a + b) % 256
            &&& op.x != 0xF ==> (t.v[15] == 1 <==> a + b > 255)
            &&& op.x != 0xF ==> (t.v[15] == 0 <==> a + b <= 255)
            &&& forall|r: int| 0 <= r < 15 && r != op.x ==> t.v[r] == s.v[r]
        }),
{
}

/// The subtract instruction `8xy5` leaves the difference modulo 256 in
/// `Vx`. Where `Vx` is not the flag register, the flag is 1 if and only
/// if `Vx` was at least `Vy` before the instruction.
pub proof fn law_subtract_with_borrow(s: State, keys: Seq<bool>, rnd: u8)
    requires
        s.wf(),
        fetchable(s.pc),
        decoded(fetched(s)).family == 0x8,
        decoded(fetched(s)).n == 0x5,
    ensures
        spec_step(s, keys, rnd) is Ok,
        ({
            let op = decoded(fetched(s));
            let a = s.v[op.x as int];
            let b = s.v[op.y as int];
            let t = spec_step(s, keys, rnd)->Ok_0;
            &&& t.wf()
            &&& t.v[op.x as int] == (a - b) % 256
            &&& op.x != 0xF ==> (t.v[15] == 1 <==> a >= b)
            &&& op.x != 0xF ==> (t.v[15] == 0 <==> a < b)
            &&& forall|r: int| 0 <= r < 15 && r != op.x ==> t.v[r] == s.v[r]
        }),
{
}

/// Only the random instruction reads the random byte: any other
/// instruction has one outcome whatever the byte.
pub proof fn law_random_byte_unused(s: State, keys: Seq<bool>, rnd_a: u8, rnd_b: u8)
    requires
        fetchable(s.pc) ==> decoded(fetched(s)).family != 0xC,
    ensures
        spec_step(s, keys, rnd_a) == spec_step(s, keys, rnd_b),
{
}

/// Drawing one sprite twice at one place gives back the screen as it was.
/// The second draw reports a collision exactly where the first one lit a
/// pixel; so it reports none if and only if every lit sprite bit fell on a
/// pixel that was lit before the first draw.
pub proof fn law_draw_twice_restores(screen: Seq<bool>, sprite: Seq<u8>, x: int, y: int)
    requires
        screen.len() == 2048,
    ensures
        blit(blit(screen, sprite, x, y), sprite, x, y) == screen,
        collides(blit(screen, sprite, x, y), sprite, x, y) <==> exists|k: int|
            0 <= k < 2048 && !#[trigger] screen[k] && covers(sprite, x, y, k),
        (forall|k: int| 0 <= k < 2048 && covers(sprite, x, y, k) ==> #[trigger] screen[k])
            ==> !collides(blit(screen, sprite, x, y), sprite, x, y),
{
    let once = blit(screen, sprite, x, y);
    assert(blit(once, sprite, x, y) =~= screen);
    if collides(once, sprite, x, y) {
        let k = choose|k: int| 0 <= k < 2048 && #[trigger] once[k] && covers(sprite, x, y, k);
        assert(!screen[k] && covers(sprite, x, y, k));
    }
    if exists|k: int| 0 <= k < 2048 && !#[trigger] screen[k] && covers(sprite, x, y, k) {
        let k = choose|k: int| 0 <= k < 2048 && !#[trigger] screen[k] && covers(sprite, x, y, k);
        assert(once[k] && covers(sprite, x, y, k));
    }
}

/// A sprite drawn at a coordinate at or past the width or the height is
/// drawn at that coordinate modulo the width or the height: the screen and
/// the collision are those of the wrapped corner.
pub proof fn law_corner_wraps(screen: Seq<bool>, sprite: Seq<u8>, x: int, y: int)
    ensures
        blit(screen, sprite, x, y) == blit(screen, sprite, x % 64, y % 32),
        collides(screen, sprite, x, y) == collides(screen, sprite, x % 64, y % 32),
{
    assert forall|k: int| 0 <= k < 2048 implies covers(sprite, x, y, k) == covers(
        sprite,
        x % 64,
        y % 32,
        k,
    ) by {}
    assert(blit(screen, sprite, x, y) =~= blit(screen, sprite, x % 64, y % 32));
    if collides(screen, sprite, x, y) {
        let k = choose|k: int| 0 <= k < 2048 && #[trigger] screen[k] && covers(sprite, x, y, k);
        assert(screen[k] && covers(sprite, x % 64, y % 32, k));
    }
    if collides(screen, sprite, x % 64, y % 32) {
        let k = choose|k: int|
            0 <= k < 2048 && #[trigger] screen[k] && covers(sprite, x % 64, y % 32, k);
        assert(screen[k] && covers(sprite, x, y, k));
    }
}

/// No part of a sprite is clipped: the bit in row `row`, column `col`
/// lands on the pixel at the wrapped sum of corner and cell, and that
/// pixel is flipped if and only if the bit is lit.
pub proof fn law_sprite_cell_lands_wrapped(
    screen: Seq<bool>,
    sprite: Seq<u8>,
    x: int,
    y: int,
    row: int,
    col: int,
)
    requires
        screen.len() == 2048,
        sprite.len() <= 32,
        0 <= row < sprite.len(),
        0 <= col < 8,
    ensures
        0 <= pixel_index(x + col, y + row) < 2048,
        blit(screen, sprite, x, y)[pixel_index(x + col, y + row)] == (screen[pixel_index(
            x + col,
            y + row,
        )] != (bit_of(sprite[row], col + 1) == 1)),
        sprite_bit(sprite, row, col) && screen[pixel_index(x + col, y + row)] ==> collides(
            screen,
            sprite,
            x,
            y,
        ),
{
    let k = pixel_index(x + col, y + row);
    crate::display::lemma_cell_target(x, y, row, col, k);
    assert(covers(sprite, x, y, k) == sprite_bit(sprite, row, col));
    if sprite_bit(sprite, row, col) && screen[k] {
        assert(screen[k] && covers(sprite, x, y, k));
    }
}

/// The stack after the addresses `addrs` are pushed, one after the other,
/// on a stack that holds `frames`.
pub open spec fn pushed_all(frames: Seq<u16>, addrs: Seq<u16>) -> Result<Seq<u16>, Fault>
    decreases addrs.len(),
{
    if addrs.len() == 0 {
        Ok(frames)
    } else {
        match pushed_all(frames, addrs.drop_last()) {
            Ok(below) => pushed(below, addrs.last()),
            Err(fault) => Err(fault),
        }
    }
}

/// The addresses that `n` pops take from a stack that holds `frames`, in
/// the order in which they come off, and the stack that stays.
pub open spec fn popped_n(frames: Seq<u16>, n: nat) -> Result<(Seq<u16>, Seq<u16>), Fault>
    decreases n,
{
    if n == 0 {
        Ok((Seq::empty(), frames))
    } else {
        match popped(frames) {
            Ok((addr, rest)) => match popped_n(rest, (n - 1) as nat) {
                Ok((taken, left)) => Ok((seq![addr] + taken, left)),
                Err(fault) => Err(fault),
            },
            Err(fault) => Err(fault),
        }
    }
}

/// Pushes that stay within the capacity all succeed and lie on the stack
/// in the order in which they were made.
pub proof fn lemma_pushed_all(frames: Seq<u16>, addrs: Seq<u16>)
    requires
        frames.len() + addrs.len() <= 16,
    ensures
        pushed_all(frames, addrs) == Ok::<Seq<u16>, Fault>(frames + addrs),
    decreases addrs.len(),
{
    if addrs.len() == 0 {
        assert(frames + addrs =~= frames);
    } else {
        lemma_pushed_all(frames, addrs.drop_last());
        assert((frames + addrs.drop_last()).push(addrs.last()) =~= frames + addrs);
    }
}

/// As many pops as pushes give the pushed addresses back in reverse order
/// and leave the stack as it was before the pushes.
pub proof fn lemma_popped_n(frames: Seq<u16>, addrs: Seq<u16>)
    ensures
        popped_n(frames + addrs, addrs.len()) == Ok::<(Seq<u16>, Seq<u16>), Fault>(
            (addrs.reverse(), frames),
        ),
    decreases addrs.len(),
{
    if addrs.len() == 0 {
        assert(frames + addrs =~= frames);
        assert(addrs.reverse() =~= Seq::<u16>::empty());
    } else {
        let all = frames + addrs;
        assert(all.last() == addrs.last());
        assert(all.drop_last() =~= frames + addrs.drop_last());
        lemma_popped_n(frames, addrs.drop_last());
        assert(seq![addrs.last()] + addrs.drop_last().reverse() =~= addrs.reverse());
    }
}

/// Pushing up to sixteen return addresses and popping as many gives each
/// address back, the most recent first, and leaves the stack as it was. A
/// push on a stack of sixteen is an overflow, and a pop on an empty stack
/// an underflow.
pub proof fn law_stack_round_trip(frames: Seq<u16>, addrs: Seq<u16>, extra: u16)
    requires
        frames.len() + addrs.len() <= 16,
    ensures
        pushed_all(frames, addrs) == Ok::<Seq<u16>, Fault>(frames + addrs),
        popped_n(frames + addrs, addrs.len()) == Ok::<(Seq<u16>, Seq<u16>), Fault>(
            (addrs.reverse(), frames),
        ),
        forall|j: int| 0 <= j < addrs.len() ==> addrs.reverse()[j] == addrs[addrs.len() - 1 - j],
        frames.len() + addrs.len() == 16 ==> pushed(frames + addrs, extra) == Err::<
            Seq<u16>,
            Fault,
        >(Fault::StackOverflow),
        popped(Seq::<u16>::empty()) == Err::<(u16, Seq<u16>), Fault>(Fault::StackUnderflow),
{
    lemma_pushed_all(frames, addrs);
    lemma_popped_n(frames, addrs);
}

/// The state after calls to `targets`, one after the other with nothing
/// in between, starting in `s`.
pub open spec fn after_calls(s: State, targets: Seq<u16>) -> Result<State, Fault>
    decreases targets.len(),
{
    if targets.len() == 0 {
        Ok(s)
    } else {
        match after_calls(s, targets.drop_last()) {
            Ok(t) => op_call(t, targets.last()),
            Err(fault) => Err(fault),
        }
    }
}

/// The state after `n` returns, one after the other, starting in `s`.
pub open spec fn after_returns(s: State, n: nat) -> Result<State, Fault>
    decreases n,
{
    if n == 0 {
        Ok(s)
    } else {
        match op_return(s) {
            Ok(t) => after_returns(t, (n - 1) as nat),
            Err(fault) => Err(fault),
        }
    }
}

/// Nested calls that stay within the stack's capacity all succeed; they
/// change the program counter and the stack and nothing else.
pub proof fn lemma_after_calls(s: State, targets: Seq<u16>)
    requires
        s.stack.len() + targets.len() <= 16,
    ensures
        after_calls(s, targets) is Ok,
        ({
            let t = after_calls(s, targets)->Ok_0;
            &&& t.stack.len() == s.stack.len() + targets.len()
            &&& t == State { pc: t.pc, stack: t.stack, ..s }
            &&& targets.len() > 0 ==> t.pc == targets.last()
            &&& targets.len() == 0 ==> t == s
        }),
    decreases targets.len(),
{
    if targets.len() > 0 {
        lemma_after_calls(s, targets.drop_last());
    }
}

/// Call and return round trip. After nested calls to `targets` that stay
/// within the stack's capacity, returning from the innermost `n` of them
/// leaves the machine where it was after the calls before them, but for
/// the program counter, which is on the instruction after the call that
/// was returned from last.
pub proof fn law_calls_unwind(s: State, targets: Seq<u16>, n: nat)
    requires
        s.wf(),
        s.pc <= 0xFFE,
        forall|j: int| 0 <= j < targets.len() ==> #[trigger] targets[j] <= 0xFFE,
        s.stack.len() + targets.len() <= 16,
        1 <= n <= targets.len(),
    ensures
        after_calls(s, targets) is Ok,
        after_calls(s, targets.take(targets.len() - n)) is Ok,
        after_returns(after_calls(s, targets)->Ok_0, n) is Ok,
        ({
            let outer = after_calls(s, targets.take(targets.len() - n))->Ok_0;
            let back = after_returns(after_calls(s, targets)->Ok_0, n)->Ok_0;
            back == outer.at(outer.pc + 2)
        }),
    decreases n,
{
    let len = targets.len() as int;
    let inner = targets.drop_last();
    lemma_after_calls(s, targets);
    lemma_after_calls(s, inner);
    lemma_after_calls(s, targets.take(len - n));
    let top = after_calls(s, targets)->Ok_0;
    let below = after_calls(s, inner)->Ok_0;
    assert(below.pc <= 0xFFE) by {
        if inner.len() > 0 {
            assert(inner.last() == targets[len - 2]);
        }
    }
    assert(op_call(below, targets.last()) == Ok::<State, Fault>(top));
    let resumed = op_return(top)->Ok_0;
    assert(top.stack.drop_last() =~= below.stack);
    assert(resumed =~= below.at(below.pc + 2));
    if n == 1 {
        assert(targets.take(len - 1) =~= inner);
        assert(after_returns(resumed, 0) == Ok::<State, Fault>(resumed));
    } else {
        assert(inner.take(inner.len() - (n - 1)) =~= targets.take(len - n));
        assert forall|j: int| 0 <= j < inner.len() implies #[trigger] inner[j] <= 0xFFE by {
            assert(inner[j] == targets[j]);
        }
        law_calls_unwind(s, inner, (n - 1) as nat);
        lemma_returns_ignore_pc(below, resumed, (n - 1) as nat);
    }
}

/// Returns read the stack, not the program counter: from two states that
/// differ in the program counter alone, one return or more lead to one
/// and the same state.
pub proof fn lemma_returns_ignore_pc(a: State, b: State, n: nat)
    requires
        n >= 1,
        b == (State { pc: b.pc, ..a }),
    ensures
        after_returns(a, n) == after_returns(b, n),
    decreases n,
{
    match op_return(a) {
        Ok(next) => {
            assert(op_return(b) == Ok::<State, Fault>(next));
        },
        Err(fault) => {
            assert(op_return(b) == Err::<State, Fault>(fault));
        },
    }
}

/// One more call than the stack holds is fatal: with sixteen return
/// addresses on the stack the call instruction faults with an overflow,
/// and with none the return instruction faults with an underflow. Below
/// that depth a call pushes the address of the next instruction, and a
/// return resumes at the address on top.
pub proof fn law_call_depth_is_bounded(s: State, keys: Seq<bool>, rnd: u8)
    requires
        s.wf(),
        fetchable(s.pc),
    ensures
        ({
            let op = decoded(fetched(s));
            let r = spec_step(s, keys, rnd);
            let is_call = op.family == 0x2;
            let is_return = op.family == 0x0 && op.kk == 0xEE;
            &&& is_call && s.stack.len() == 16 ==> r == Err::<State, Fault>(Fault::StackOverflow)
            &&& is_call && s.stack.len() < 16 ==> r is Ok && r->Ok_0.pc == op.nnn
                && r->Ok_0.stack == s.stack.push((s.pc + 2) as u16)
            &&& is_return && s.stack.len() == 0 ==> r == Err::<State, Fault>(
                Fault::StackUnderflow,
            )
            &&& is_return && s.stack.len() > 0 ==> r is Ok && r->Ok_0.pc == s.stack.last()
                && r->Ok_0.stack == s.stack.drop_last()
        }),
{
}

/// Every step keeps the machine well formed, whatever the instruction.
pub proof fn law_step_preserves_wf(s: State, keys: Seq<bool>, rnd: u8)
    requires
        s.wf(),
    ensures
        spec_step(s, keys, rnd) is Ok ==> (spec_step(s, keys, rnd)->Ok_0).wf(),
{
    if fetchable(s.pc) {
        let op = decoded(fetched(s));
        let x = op.x as int;
        let y = op.y as int;
        assert(0 <= x < 16 && 0 <= y < 16);
    }
}

} // verus!
