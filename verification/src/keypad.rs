//! The sixteen-key hexadecimal keypad, as a snapshot of which keys are down.

use vstd::prelude::*;

verus! {

/// Number of keys on the keypad.
pub const KEY_COUNT: usize = 16;

/// A snapshot of the keypad: for each key code `0x0` to `0xF`, whether the
/// key is down.
#[derive(Clone, Copy, Debug, PartialEq, Eq)]
pub struct Keypad {
    /// The key states, indexed by key code.
    pub keys: [bool; 16],
}

impl View for Keypad {
    type V = Seq<bool>;

    open spec fn view(&self) -> Seq<bool> {
        self.keys@
    }
}

/// Whether the states `keys` show the key with code `code` as down. A code
/// that the states do not reach, or that names no key, is not down.
pub open spec fn is_down(keys: Seq<bool>, code: int) -> bool {
    0 <= code < 16 && code < keys.len() && keys[code]
}

/// The lowest key code from `from` upwards that is down in `keys`.
pub open spec fn lowest_down_from(keys: Seq<bool>, from: int) -> Option<u8>
    decreases 16 - from,
{
    if from < 0 || from >= 16 {
        None
    } else if is_down(keys, from) {
        Some(from as u8)
    } else {
        lowest_down_from(keys, from + 1)
    }
}

/// The lowest key code that is down in `keys`, if any key is down.
pub open spec fn lowest_down(keys: Seq<bool>) -> Option<u8> {
    lowest_down_from(keys, 0)
}

/// `lowest_down_from` finds a key that is down, passes over none that is
/// down, and finds nothing only where nothing is down.
pub proof fn lemma_lowest_down_from(keys: Seq<bool>, from: int)
    requires
        0 <= from <= 16,
    ensures
        match lowest_down_from(keys, from) {
            Some(code) => from <= code < 16 && is_down(keys, code as int) && forall|j: int|
                from <= j < code ==> !is_down(keys, j),
            None => forall|j: int| from <= j < 16 ==> !is_down(keys, j),
        },
    decreases 16 - from,
{
    if from < 16 && !is_down(keys, from) {
        lemma_lowest_down_from(keys, from + 1);
    }
}

/// A key of the host keyboard, as far as the keypad layout knows it.
#[derive(Clone, Copy, Debug, PartialEq, Eq, Structural)]
pub enum HostKey {
    Num1,
    Num2,
    Num3,
    Num4,
    Q,
    W,
    E,
    R,
    A,
    S,
    D,
    F,
    Z,
    X,
    C,
    V,
    /// Any key that the layout does not use.
    Other,
}

/// The keypad layout: the four-by-four block `1234 / QWER / ASDF / ZXCV`
/// stands for the keypad rows `123C / 456D / 789E / A0BF`.
pub open spec fn layout(key: HostKey) -> Option<u8> {
    match key {
        HostKey::Num1 => Some(0x1u8),
        HostKey::Num2 => Some(0x2u8),
        HostKey::Num3 => Some(0x3u8),
        HostKey::Num4 => Some(0xCu8),
        HostKey::Q => Some(0x4u8),
        HostKey::W => Some(0x5u8),
        HostKey::E => Some(0x6u8),
        HostKey::R => Some(0xDu8),
        HostKey::A => Some(0x7u8),
        HostKey::S => Some(0x8u8),
        HostKey::D => Some(0x9u8),
        HostKey::F => Some(0xEu8),
        HostKey::Z => Some(0xAu8),
        HostKey::X => Some(0x0u8),
        HostKey::C => Some(0xBu8),
        HostKey::V => Some(0xFu8),
        HostKey::Other => None,
    }
}

/// The key code that a host key stands for, if the layout uses the key.
pub fn key_code(key: HostKey) -> (code: Option<u8>)
    ensures
        code == layout(key),
        code matches Some(c) ==> c < 16,
{
    match key {
        HostKey::Num1 => Some(0x1),
        HostKey::Num2 => Some(0x2),
        HostKey::Num3 => Some(0x3),
        HostKey::Num4 => Some(0xC),
        HostKey::Q => Some(0x4),
        HostKey::W => Some(0x5),
        HostKey::E => Some(0x6),
        HostKey::R => Some(0xD),
        HostKey::A => Some(0x7),
        HostKey::S => Some(0x8),
        HostKey::D => Some(0x9),
        HostKey::F => Some(0xE),
        HostKey::Z => Some(0xA),
        HostKey::X => Some(0x0),
        HostKey::C => Some(0xB),
        HostKey::V => Some(0xF),
        HostKey::Other => None,
    }
}

impl Keypad {
    /// A keypad with no key down.
    pub fn new() -> (pad: Keypad)
        ensures
            pad@ =~= Seq::new(16, |k: int| false),
            lowest_down(pad@) is None,
    {
        let pad = Keypad { keys: [false; 16] };
        proof {
            lemma_lowest_down_from(pad@, 0);
        }
        pad
    }

    /// The snapshot that `states` describes: key `k` is down where
    /// `states[k]` says so; a key that `states` does not reach is up.
    pub fn from_states(states: &[bool]) -> (pad: Keypad)
        ensures
            pad@.len() == 16,
            forall|k: int| 0 <= k < 16 ==> pad@[k] == is_down(states@, k),
    {
        let mut pad = Keypad { keys: [false; 16] };
        let mut k: usize = 0;
        while k < KEY_COUNT && k < states.len()
            invariant
                k <= 16,
                pad@.len() == 16,
                forall|j: int| 0 <= j < k ==> pad@[j] == is_down(states@, j),
                forall|j: int| k <= j < 16 ==> !pad@[j],
            decreases 16 - k,
        {
            pad.keys[k] = states[k];
            k = k + 1;
        }
        pad
    }

    /// Records key `code` as down or up. A code that names no key changes
    /// nothing.
    pub fn set_key(&mut self, code: u8, down: bool)
        ensures
            code < 16 ==> final(self)@ == old(self)@.update(code as int, down),
            code >= 16 ==> final(self)@ == old(self)@,
    {
        if (code as usize) < KEY_COUNT {
            self.keys[code as usize] = down;
        }
    }

    /// Whether key `code` is down.
    pub fn is_pressed(&self, code: u8) -> (down: bool)
        ensures
            down == is_down(self@, code as int),
    {
        (code as usize) < KEY_COUNT && self.keys[code as usize]
    }

    /// The lowest key code that is down, if any key is down.
    pub fn first_pressed(&self) -> (found: Option<u8>)
        ensures
            found == lowest_down(self@),
            match found {
                Some(code) => code < 16 && is_down(self@, code as int) && forall|j: int|
                    0 <= j < code ==> !is_down(self@, j),
                None => forall|j: int| 0 <= j < 16 ==> !is_down(self@, j),
            },
    {
        let mut k: u8 = 0;
        while k < 16
            invariant
                k <= 16,
                lowest_down(self@) == lowest_down_from(self@, k as int),
            decreases 16 - k,
        {
            if self.keys[k as usize] {
                proof {
                    lemma_lowest_down_from(self@, 0);
                }
                return Some(k);
            }
            k = k + 1;
        }
        proof {
            lemma_lowest_down_from(self@, 0);
        }
        None
    }
}

} // verus!
