//! Input events: key codes, modifier bits and decoded event kinds.

use vstd::prelude::*;

verus! {

/// A bitset of key modifiers. Bit 0 is SHIFT, bit 1 ALT, bit 2 CTRL and
/// bit 3 META; the bits combine by union.
#[derive(Debug, Clone, Copy, PartialEq, Eq, Hash, Structural)]
pub struct Modifiers {
    pub bits: u8,
}

impl Modifiers {
    /// No modifiers.
    pub fn empty() -> (r: Self)
        ensures
            r.bits == 0,
    {
        Self { bits: 0 }
    }

    pub fn shift() -> (r: Self)
        ensures
            r.bits == 1,
    {
        Self { bits: 1 }
    }

    pub fn alt() -> (r: Self)
        ensures
            r.bits == 2,
    {
        Self { bits: 2 }
    }

    pub fn ctrl() -> (r: Self)
        ensures
            r.bits == 4,
    {
        Self { bits: 4 }
    }

    pub fn meta() -> (r: Self)
        ensures
            r.bits == 8,
    {
        Self { bits: 8 }
    }

    /// Keeps only the defined bits of a raw byte.
    pub fn from_bits_truncate(bits: u8) -> (r: Self)
        ensures
            r.bits == bits & 0x0f,
    {
        Self { bits: bits & 0x0f }
    }

    /// The union of two modifier sets.
    pub fn union(self, other: Self) -> (r: Self)
        ensures
            r.bits == self.bits | other.bits,
    {
        Self { bits: self.bits | other.bits }
    }

    /// Whether every modifier of `other` is also set in `self`.
    pub fn contains(self, other: Self) -> (r: bool)
        ensures
            r == (self.bits & other.bits == other.bits),
    {
        self.bits & other.bits == other.bits
    }

    pub fn is_empty(self) -> (r: bool)
        ensures
            r == (self.bits == 0),
    {
        self.bits == 0
    }
}

/// A decoded key.
#[derive(Debug, Clone, Copy, PartialEq, Eq, Hash, Structural)]
pub enum KeyCode {
    Char(char),
    /// A function key, 1 through 10.
    Fn(u8),
    Tab,
    Newline,
    Return,
    Escape,
    Up,
    Down,
    Right,
    Left,
    End,
    Home,
    Insert,
    Delete,
    Backspace,
    PageUp,
    PageDown,
}

/// A key together with the modifiers held down with it.
#[derive(Debug, Clone, Copy, PartialEq, Eq, Hash, Structural)]
pub struct KeyEvent {
    pub key_code: KeyCode,
    pub modifiers: Modifiers,
}

impl KeyEvent {
    /// A key event with no modifiers.
    pub fn key(key_code: KeyCode) -> (r: Self)
        ensures
            r == (KeyEvent { key_code, modifiers: Modifiers { bits: 0 } }),
    {
        Self { key_code, modifiers: Modifiers { bits: 0 } }
    }
}

/// What one chunk of input bytes decoded to.
#[derive(Debug, Clone)]
pub enum EventKind {
    /// A single decoded key.
    Key(KeyEvent),
    /// Pasted text: a chunk that decoded to more than one character.
    String(String),
    /// A chunk this decoder does not understand; decoding never hard-fails.
    Unknown,
}

impl EventKind {
    /// A key event with no modifiers.
    pub fn just_key(key_code: KeyCode) -> (r: Self)
        ensures
            r == EventKind::Key(KeyEvent { key_code, modifiers: Modifiers { bits: 0 } }),
    {
        EventKind::Key(KeyEvent { key_code, modifiers: Modifiers { bits: 0 } })
    }
}

/// One chunk of raw input bytes.
#[derive(Debug, Clone)]
pub struct Bytes {
    data: Vec<u8>,
}

impl Bytes {
    pub closed spec fn model(self) -> Seq<u8> {
        self.data@
    }

    pub fn from_vec(data: Vec<u8>) -> (r: Self)
        ensures
            r.model() == data@,
    {
        Self { data }
    }

    pub fn as_slice(&self) -> (r: &[u8])
        ensures
            r@ == self.model(),
    {
        self.data.as_slice()
    }

    pub fn len(&self) -> (r: usize)
        ensures
            r == self.model().len(),
    {
        self.data.len()
    }

    pub fn is_empty(&self) -> (r: bool)
        ensures
            r == (self.model().len() == 0),
    {
        self.data.len() == 0
    }
}

/// A decoded input event together with the raw bytes it came from.
#[derive(Debug, Clone)]
pub struct Event {
    pub bytes: Bytes,
    pub kind: EventKind,
}

} // verus!
