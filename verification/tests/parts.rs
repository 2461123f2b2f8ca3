use chip8::decode::{decode, join_bytes, Opcode};
use chip8::error::Fault;
use chip8::keypad::{key_code, HostKey, Keypad};
use chip8::memory::{init_memory, AddressSpace, FONT};
use chip8::registers::Registers;

#[test]
fn decode_fields() {
    let op = decode(0xD7A5);
    assert_eq!(
        op,
        Opcode { family: 0xD, nnn: 0x7A5, x: 0x7, y: 0xA, kk: 0xA5, n: 0x5 }
    );
    let op = decode(0x0000);
    assert_eq!(op, Opcode { family: 0, nnn: 0, x: 0, y: 0, kk: 0, n: 0 });
    let op = decode(0xFFFF);
    assert_eq!(
        op,
        Opcode { family: 0xF, nnn: 0xFFF, x: 0xF, y: 0xF, kk: 0xFF, n: 0xF }
    );
}

#[test]
fn decode_agrees_with_place_values_for_all_words() {
    for word in 0..=0xFFFFu16 {
        let op = decode(word);
        assert_eq!(op.family as u16, word / 4096);
        assert_eq!(op.nnn, word % 4096);
        assert_eq!(op.x as u16, (word / 256) % 16);
        assert_eq!(op.y as u16, (word / 16) % 16);
        assert_eq!(op.kk as u16, word % 256);
        assert_eq!(op.n as u16, word % 16);
    }
}

#[test]
fn join_bytes_is_big_endian() {
    assert_eq!(join_bytes(0x12, 0x34), 0x1234);
    assert_eq!(join_bytes(0x00, 0xFF), 0x00FF);
    assert_eq!(join_bytes(0xFF, 0x00), 0xFF00);
    assert_eq!(join_bytes(0xFF, 0xFF), 0xFFFF);
}

#[test]
fn registers_default() {
    let r = Registers::default();
    assert_eq!(r.v, [0u8; 16]);
    assert_eq!(r.dt, 0);
    assert_eq!(r.st, 0);
    assert_eq!(r.i, 0);
    assert_eq!(r.pc, 0x200);
}

#[test]
fn index_address_masks() {
    let mut r = Registers::default();
    r.i = 0x0FFF;
    assert_eq!(r.address(), 0xFFF);
    r.i = 0x1000;
    assert_eq!(r.address(), 0);
    r.i = 0xF123;
    assert_eq!(r.address(), 0x123);
}

#[test]
fn memory_read_write_bounds() {
    let mut mem = AddressSpace::new();
    assert_eq!(mem.read(0), Ok(0));
    assert_eq!(mem.write(0xFFF, 0x5A), Ok(()));
    assert_eq!(mem.read(0xFFF), Ok(0x5A));
    assert_eq!(mem.read(0x1000), Err(Fault::AddressOutOfRange));
    let before = mem.clone();
    assert_eq!(mem.write(0x1000, 1), Err(Fault::AddressOutOfRange));
    assert_eq!(mem.write(0xFFFF, 1), Err(Fault::AddressOutOfRange));
    assert_eq!(mem, before);
}

#[test]
fn init_memory_places_font_and_program() {
    let mut mem = AddressSpace::new();
    mem.bytes[0x100] = 0x11;
    mem.bytes[0x203] = 0x22;
    mem.bytes[0] = 0x33;
    assert_eq!(init_memory(&vec![0xDE, 0xAD, 0xBE], &mut mem), Ok(()));
    assert_eq!(&mem.bytes[0..80], &FONT[..]);
    assert_eq!(&mem.bytes[0x200..0x204], &[0xDE, 0xAD, 0xBE, 0x22]);
    assert_eq!(mem.bytes[0x100], 0x11);
    assert_eq!(mem.bytes[80], 0);
    assert_eq!(mem.bytes[0x1FF], 0);
}

#[test]
fn init_memory_with_empty_program_places_font_only() {
    let mut mem = AddressSpace::new();
    assert_eq!(init_memory(&Vec::new(), &mut mem), Ok(()));
    assert_eq!(&mem.bytes[0..5], &[0xF0, 0x90, 0x90, 0x90, 0xF0]);
    assert_eq!(&mem.bytes[75..80], &[0xF0, 0x80, 0xF0, 0x80, 0x80]);
    assert!(mem.bytes[80..].iter().all(|b| *b == 0));
}

#[test]
fn init_memory_rejects_program_that_does_not_fit() {
    let mut mem = AddressSpace::new();
    assert_eq!(init_memory(&vec![1; 3585], &mut mem), Err(Fault::ProgramTooLarge));
    assert_eq!(mem, AddressSpace::new());
    assert_eq!(init_memory(&vec![1; 4096], &mut mem), Err(Fault::ProgramTooLarge));
    assert_eq!(mem, AddressSpace::new());
    assert_eq!(init_memory(&vec![1; 3584], &mut mem), Ok(()));
    assert!(mem.bytes[0x200..].iter().all(|b| *b == 1));
}

#[test]
fn keypad_snapshot_from_states() {
    let pad = Keypad::from_states(&[false, true, false, true]);
    assert!(!pad.is_pressed(0));
    assert!(pad.is_pressed(1));
    assert!(!pad.is_pressed(2));
    assert!(pad.is_pressed(3));
    for code in 4..=255u8 {
        assert!(!pad.is_pressed(code));
    }
    assert_eq!(pad.first_pressed(), Some(1));
}

#[test]
fn keypad_ignores_states_past_sixteen() {
    let mut states = vec![false; 20];
    states[15] = true;
    states[17] = true;
    let pad = Keypad::from_states(&states);
    assert!(pad.is_pressed(15));
    assert!(!pad.is_pressed(17));
    assert_eq!(pad.first_pressed(), Some(15));
    assert_eq!(Keypad::from_states(&[]), Keypad::new());
}

#[test]
fn keypad_set_and_first_pressed() {
    let mut pad = Keypad::new();
    assert_eq!(pad.first_pressed(), None);
    pad.set_key(0xE, true);
    assert_eq!(pad.first_pressed(), Some(0xE));
    pad.set_key(0x2, true);
    assert_eq!(pad.first_pressed(), Some(0x2));
    pad.set_key(0x2, false);
    assert_eq!(pad.first_pressed(), Some(0xE));
    let before = pad;
    pad.set_key(16, true);
    pad.set_key(255, true);
    assert_eq!(pad, before);
}

#[test]
fn host_key_layout() {
    assert_eq!(key_code(HostKey::Num1), Some(0x1));
    assert_eq!(key_code(HostKey::Num2), Some(0x2));
    assert_eq!(key_code(HostKey::Num3), Some(0x3));
    assert_eq!(key_code(HostKey::Num4), Some(0xC));
    assert_eq!(key_code(HostKey::Q), Some(0x4));
    assert_eq!(key_code(HostKey::W), Some(0x5));
    assert_eq!(key_code(HostKey::E), Some(0x6));
    assert_eq!(key_code(HostKey::R), Some(0xD));
    assert_eq!(key_code(HostKey::A), Some(0x7));
    assert_eq!(key_code(HostKey::S), Some(0x8));
    assert_eq!(key_code(HostKey::D), Some(0x9));
    assert_eq!(key_code(HostKey::F), Some(0xE));
    assert_eq!(key_code(HostKey::Z), Some(0xA));
    assert_eq!(key_code(HostKey::X), Some(0x0));
    assert_eq!(key_code(HostKey::C), Some(0xB));
    assert_eq!(key_code(HostKey::V), Some(0xF));
    assert_eq!(key_code(HostKey::Other), None);
}
