//! The keyboard's side of the key buffer: a ring of 16 key codes in the
//! processor's memory, which the keyboard fills and the program empties.
use crate::cpu::Dcpu;
use crate::cpu::DcpuState;
use vstd::prelude::*;

verus! {

/// Where the key buffer starts.
pub const MAPPING_LOCATION: u16 = 0x9000;

/// The word that holds the index of the oldest key in the ring.
pub const HEAD_LOCATION: u16 = 0x9000;

/// The word that holds the number of keys in the ring.
pub const SIZE_LOCATION: u16 = 0x9001;

/// The first word of the ring.
pub const DATA_LOCATION: u16 = 0x9002;

/// The number of keys the ring can hold.
pub const BUFFER_CAPACITY: u16 = 16;

/// The key code of the first printable character, the space.
pub const PRINTABLE_CHAR_OFFSET: u16 = 0x20;

/// A key of the keyboard.
#[derive(Clone, Copy, Debug, PartialEq, Eq, Structural)]
pub enum Key {
    /// A key, or a key together with shift, that types this character.
    Char(char),
    Back,
    Return,
    Insert,
    Delete,
    Up,
    Down,
    Left,
    Right,
    Shift,
    Control,
}

impl Key {
    /// The code that the key puts into the key buffer: for a printable
    /// ASCII character its code, from 0x20 for the space to 0x7e; for a
    /// control key its own code. A character that is not printable has
    /// code 0, which is no key.
    pub open spec fn code(self) -> u16 {
        match self {
            Key::Char(c) => if PRINTABLE_CHAR_OFFSET <= c as u32 && c as u32 <= 0x7e {
                c as u16
            } else {
                0
            },
            Key::Back => 0x10,
            Key::Return => 0x11,
            Key::Insert => 0x12,
            Key::Delete => 0x13,
            Key::Up => 0x80,
            Key::Down => 0x81,
            Key::Left => 0x82,
            Key::Right => 0x83,
            Key::Shift => 0x90,
            Key::Control => 0x91,
        }
    }

    /// The code that the key puts into the key buffer.
    pub fn key_code(&self) -> (code: u16)
        ensures
            code == self.code(),
    {
        match *self {
            Key::Char(c) => if PRINTABLE_CHAR_OFFSET as u32 <= c as u32 && c as u32 <= 0x7e {
                c as u16
            } else {
                0
            },
            Key::Back => 0x10,
            Key::Return => 0x11,
            Key::Insert => 0x12,
            Key::Delete => 0x13,
            Key::Up => 0x80,
            Key::Down => 0x81,
            Key::Left => 0x82,
            Key::Right => 0x83,
            Key::Shift => 0x90,
            Key::Control => 0x91,
        }
    }
}

/// Whether the keyboard has the attention of whoever types.
pub struct Keyboard {
    focused: bool,
}

impl View for Keyboard {
    type V = bool;

    closed spec fn view(&self) -> bool {
        self.focused
    }
}

impl Keyboard {
    /// A keyboard without focus.
    pub fn new() -> (keyboard: Keyboard)
        ensures
            !keyboard@,
    {
        Keyboard { focused: false }
    }

    /// Whether the keyboard has the focus.
    pub fn focused(&self) -> (focused: bool)
        ensures
            focused == self@,
    {
        self.focused
    }

    /// Gives the keyboard the focus, or takes it away.
    pub fn set_focused(&mut self, focused: bool)
        ensures
            final(self)@ == focused,
    {
        self.focused = focused;
    }
}

/// The slot of the ring that the next key goes to.
pub open spec fn insert_index(s: DcpuState) -> u16 {
    (((s.mem[HEAD_LOCATION as int] + s.mem[SIZE_LOCATION as int]) % 0x1_0000) % (
    BUFFER_CAPACITY as int)) as u16
}

/// Memory after a key was struck: the code stands in the slot behind the
/// newest key and the ring holds one key more. Key code 0 is no key, and
/// a key struck while the ring is full is lost: nothing changes then.
pub open spec fn key_pushed(s: DcpuState, key_code: u16) -> DcpuState {
    if key_code != 0 && s.mem[SIZE_LOCATION as int] < BUFFER_CAPACITY {
        s.set_mem((DATA_LOCATION + insert_index(s)) as u16, key_code).set_mem(
            SIZE_LOCATION,
            (s.mem[SIZE_LOCATION as int] + 1) as u16,
        )
    } else {
        s
    }
}

/// Puts the code of a key that was struck into the key buffer.
pub fn try_push_key(dcpu: &mut Dcpu, key_code: u16)
    ensures
        final(dcpu)@ == key_pushed(old(dcpu)@, key_code),
{
    if key_code != 0 {
        let head = dcpu.mem(HEAD_LOCATION);
        let size = dcpu.mem(SIZE_LOCATION);
        if size < BUFFER_CAPACITY {
            let insert_idx = head.wrapping_add(size) % BUFFER_CAPACITY;
            dcpu.set_mem(DATA_LOCATION + insert_idx, key_code);
            dcpu.set_mem(SIZE_LOCATION, size + 1);
        }
    }
}

} // verus!
