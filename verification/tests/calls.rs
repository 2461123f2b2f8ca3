use chip8::error::Fault;
use chip8::interpreter::Interpreter;
use chip8::keypad::Keypad;
use chip8::stack::CallStack;

#[test]
fn stack_push_pop_order() {
    let mut s = CallStack::new();
    assert_eq!(s.depth(), 0);
    assert_eq!(s.top(), None);
    assert_eq!(s.push(0x202), Ok(()));
    assert_eq!(s.push(0x404), Ok(()));
    assert_eq!(s.depth(), 2);
    assert_eq!(s.top(), Some(0x404));
    assert_eq!(s.pop(), Ok(0x404));
    assert_eq!(s.pop(), Ok(0x202));
    assert_eq!(s.depth(), 0);
}

#[test]
fn stack_underflow() {
    let mut s = CallStack::new();
    assert_eq!(s.pop(), Err(Fault::StackUnderflow));
    assert_eq!(s.depth(), 0);
    assert_eq!(s.push(1), Ok(()));
    assert_eq!(s.pop(), Ok(1));
    assert_eq!(s.pop(), Err(Fault::StackUnderflow));
}

#[test]
fn stack_overflow_at_seventeenth_push() {
    let mut s = CallStack::new();
    for k in 0..16u16 {
        assert_eq!(s.push(0x200 + 2 * k), Ok(()));
    }
    assert_eq!(s.depth(), 16);
    let full = s.clone();
    assert_eq!(s.push(0xFFF), Err(Fault::StackOverflow));
    assert_eq!(s, full);
    assert_eq!(s.top(), Some(0x200 + 30));
}

#[test]
fn stack_round_trip_for_every_depth() {
    for n in 0..=16u16 {
        let mut s = CallStack::new();
        for k in 0..n {
            assert_eq!(s.push(0x300 + k), Ok(()));
        }
        for k in (0..n).rev() {
            assert_eq!(s.pop(), Ok(0x300 + k));
        }
        assert_eq!(s, CallStack::new());
    }
}

#[test]
fn call_then_return() {
    let mut m = Interpreter::new();
    // 0x200: call 0x206; 0x206: return
    assert_eq!(m.load(&vec![0x22, 0x06, 0x00, 0x00, 0x00, 0x00, 0x00, 0xEE]), Ok(()));
    let keys = Keypad::new();
    assert_eq!(m.step(&keys), Ok(()));
    assert_eq!(m.regs.pc, 0x206);
    assert_eq!(m.stack.depth(), 1);
    assert_eq!(m.stack.top(), Some(0x202));
    assert_eq!(m.step(&keys), Ok(()));
    assert_eq!(m.regs.pc, 0x202);
    assert_eq!(m.stack.depth(), 0);
}

#[test]
fn return_on_empty_stack_is_fatal_and_atomic() {
    let mut m = Interpreter::new();
    assert_eq!(m.load(&vec![0x00, 0xEE]), Ok(()));
    let before = m.clone();
    assert_eq!(m.step(&Keypad::new()), Err(Fault::StackUnderflow));
    assert_eq!(m, before);
}

#[test]
fn sixteen_nested_calls_unwind_in_reverse() {
    // Seventeen call instructions in a chain: the call at 0x200 + 4k goes
    // to 0x200 + 4(k + 1); a return sits right after each call.
    let mut program: Vec<u8> = Vec::new();
    for k in 0..17u16 {
        let target = 0x200 + 4 * (k + 1);
        program.push(0x20 | (target >> 8) as u8);
        program.push(target as u8);
        program.push(0x00);
        program.push(0xEE);
    }
    let mut m = Interpreter::new();
    assert_eq!(m.load(&program), Ok(()));
    let keys = Keypad::new();
    for k in 0..16u16 {
        assert_eq!(m.regs.pc, 0x200 + 4 * k);
        assert_eq!(m.step(&keys), Ok(()));
        assert_eq!(m.stack.depth(), k as usize + 1);
    }
    assert_eq!(m.regs.pc, 0x240);
    let full = m.clone();
    assert_eq!(m.step(&keys), Err(Fault::StackOverflow));
    assert_eq!(m, full);
    // Unwind: each return lands on the return instruction after its call.
    for k in (0..16u16).rev() {
        m.regs.pc = 0x200 + 4 * k + 2;
        if k == 15 {
            m.regs.pc = 0x242;
        }
        assert_eq!(m.step(&keys), Ok(()));
        assert_eq!(m.regs.pc, 0x200 + 4 * k + 2);
        assert_eq!(m.stack.depth(), k as usize);
    }
    assert_eq!(m.step(&keys), Err(Fault::StackUnderflow));
}

#[test]
fn nested_calls_restore_each_return_address() {
    // main: call a; a: call b; b: call c; c: ret; each caller returns too.
    let program: Vec<u8> = vec![
        0x22, 0x10, // 0x200 call 0x210
        0x12, 0x02, // 0x202 jump self
        0, 0, 0, 0, 0, 0, 0, 0, 0, 0, 0, 0, //
        0x22, 0x20, // 0x210 call 0x220
        0x00, 0xEE, // 0x212 ret
        0, 0, 0, 0, 0, 0, 0, 0, 0, 0, 0, 0, //
        0x22, 0x30, // 0x220 call 0x230
        0x00, 0xEE, // 0x222 ret
        0, 0, 0, 0, 0, 0, 0, 0, 0, 0, 0, 0, //
        0x00, 0xEE, // 0x230 ret
    ];
    let mut m = Interpreter::new();
    assert_eq!(m.load(&program), Ok(()));
    let keys = Keypad::new();
    let mut trace: Vec<u16> = Vec::new();
    for _ in 0..6 {
        assert_eq!(m.step(&keys), Ok(()));
        trace.push(m.regs.pc);
    }
    assert_eq!(trace, vec![0x210, 0x220, 0x230, 0x222, 0x212, 0x202]);
    assert_eq!(m.stack.depth(), 0);
}
