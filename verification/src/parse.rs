//! The escape-sequence input decoder.
//!
//! [`parse_event`] turns one chunk of raw bytes into a structured event.
//! A leading ESC introduces an escape sequence: bare ESC (or ESC ESC) is
//! the escape key, `ESC [` alone is a literal `[` with ALT, a CSI sequence
//! ending in `~` is a VT sequence whose numeric parameter maps through a
//! fixed table, a CSI sequence ending in a letter is an XTerm sequence,
//! and any other single byte after ESC decodes normally with ALT added.
//! Non-escape chunks decode as control keys, a single character, or pasted
//! text. The decoder never hard-fails: an unrecognized chunk is simply
//! reported as undecodable by returning `None`.

use vstd::prelude::*;
use vstd::utf8::{decode_utf8, valid_utf8};

use crate::event::{EventKind, KeyCode, KeyEvent, Modifiers};

verus! {

/// The decoding of one byte outside an escape sequence: named control
/// keys, CTRL plus a letter for the remaining control characters, and the
/// byte itself as a character otherwise.
pub open spec fn spec_decode_byte(b: u8) -> KeyEvent {
    if b == 9 {
        KeyEvent { key_code: KeyCode::Tab, modifiers: Modifiers { bits: 0 } }
    } else if b == 10 {
        KeyEvent { key_code: KeyCode::Newline, modifiers: Modifiers { bits: 0 } }
    } else if b == 13 {
        KeyEvent { key_code: KeyCode::Return, modifiers: Modifiers { bits: 0 } }
    } else if b == 0x7f {
        KeyEvent { key_code: KeyCode::Backspace, modifiers: Modifiers { bits: 0 } }
    } else if b == 0x17 {
        KeyEvent { key_code: KeyCode::Backspace, modifiers: Modifiers { bits: 4 } }
    } else if b < 27 {
        KeyEvent { key_code: KeyCode::Char(((64 + b) as u8) as char), modifiers: Modifiers { bits: 4 } }
    } else {
        KeyEvent { key_code: KeyCode::Char(b as char), modifiers: Modifiers { bits: 0 } }
    }
}

/// Decodes one byte outside an escape sequence.
pub fn decode_byte(b: u8) -> (r: KeyEvent)
    ensures
        r == spec_decode_byte(b),
{
    if b == 9 {
        KeyEvent::key(KeyCode::Tab)
    } else if b == 10 {
        KeyEvent::key(KeyCode::Newline)
    } else if b == 13 {
        KeyEvent::key(KeyCode::Return)
    } else if b == 0x7f {
        KeyEvent::key(KeyCode::Backspace)
    } else if b == 0x17 {
        KeyEvent { key_code: KeyCode::Backspace, modifiers: Modifiers::ctrl() }
    } else if b < 27 {
        KeyEvent { key_code: KeyCode::Char((64 + b) as char), modifiers: Modifiers::ctrl() }
    } else {
        KeyEvent::key(KeyCode::Char(b as char))
    }
}

/// Turns a valid UTF-8 chunk into its decoded string.
///
/// Relies on `core::str::from_utf8`, which succeeds exactly on valid
/// UTF-8 and decodes it to the characters `decode_utf8` describes, and on
/// `str::to_owned`, which copies the characters unchanged.
#[verifier::external_body]
fn utf8_to_string(bytes: &[u8]) -> (r: Option<String>)
    ensures
        r matches Some(s) ==> valid_utf8(bytes@) && s@ == decode_utf8(bytes@),
        r is None ==> !valid_utf8(bytes@),
{
    match core::str::from_utf8(bytes) {
        Ok(s) => Some(s.to_owned()),
        Err(_) => None,
    }
}

/// Decodes a chunk with no leading ESC: a single byte through
/// [`spec_decode_byte`], several bytes as UTF-8 — one character is a key,
/// more are pasted text — and invalid UTF-8 as undecodable.
pub fn decode_bytes(bytes: &[u8]) -> (r: Option<EventKind>)
    ensures
        bytes@.len() == 0 ==> r is None,
        bytes@.len() == 1 ==> r == Some(EventKind::Key(spec_decode_byte(bytes@[0]))),
        bytes@.len() >= 2 && !valid_utf8(bytes@) ==> r is None,
        bytes@.len() >= 2 && valid_utf8(bytes@) ==> {
            let cs = decode_utf8(bytes@);
            &&& cs.len() >= 2 ==> (r matches Some(k) && k matches EventKind::String(s) && s@ == cs)
            &&& cs.len() == 1 ==> r == Some(
                EventKind::Key(
                    KeyEvent { key_code: KeyCode::Char(cs[0]), modifiers: Modifiers { bits: 0 } },
                ),
            )
            &&& cs.len() == 0 ==> r is None
        },
{
    if bytes.len() == 0 {
        None
    } else if bytes.len() == 1 {
        Some(EventKind::Key(decode_byte(bytes[0])))
    } else {
        match utf8_to_string(bytes) {
            Some(s) => {
                let n = s.as_str().unicode_len();
                if n >= 2 {
                    Some(EventKind::String(s))
                } else if n == 1 {
                    let c = s.as_str().get_char(0);
                    Some(EventKind::Key(KeyEvent::key(KeyCode::Char(c))))
                } else {
                    None
                }
            },
            None => None,
        }
    }
}

/// Whether every byte of a sequence is a decimal digit.
pub open spec fn all_digits(s: Seq<u8>) -> bool {
    forall|j: int| 0 <= j < s.len() ==> 48 <= #[trigger] s[j] <= 57
}

/// The numeric value of a sequence of decimal digits.
pub open spec fn dec_value(s: Seq<u8>) -> int
    decreases s.len(),
{
    if s.len() == 0 {
        0
    } else {
        dec_value(s.drop_last()) * 10 + (s.last() - 48)
    }
}

/// The decoding of a modifier parameter: a non-empty string of decimal
/// digits whose value fits a byte; the stored value is 1-based, so one is
/// subtracted (stopping at zero) and the result masked to the defined
/// bits.
pub open spec fn spec_parse_modifiers(s: Seq<u8>) -> Option<Modifiers> {
    if s.len() > 0 && all_digits(s) && dec_value(s) <= 255 {
        let v = dec_value(s);
        let b = if v >= 1 {
            v - 1
        } else {
            0
        };
        Some(Modifiers { bits: (b as u8) & 0x0f })
    } else {
        None
    }
}

/// Parses a modifier parameter.
pub fn parse_modifiers(s: &[u8]) -> (r: Option<Modifiers>)
    ensures
        r == spec_parse_modifiers(s@),
{
    let n = s.len();
    if n == 0 {
        return None;
    }
    let mut acc: u32 = 0;
    let mut i: usize = 0;
    while i < n
        invariant
            n == s@.len(),
            i <= n,
            all_digits(s@.subrange(0, i as int)),
            (dec_value(s@.subrange(0, i as int)) <= 255 && acc == dec_value(
                s@.subrange(0, i as int),
            )) || (dec_value(s@.subrange(0, i as int)) > 255 && acc == 256),
        decreases n - i,
    {
        let b = s[i];
        if b < 48 || b > 57 {
            proof {
                assert(!all_digits(s@));
            }
            return None;
        }
        let d = (b - 48) as u32;
        acc = if acc * 10 + d > 255 {
            256
        } else {
            acc * 10 + d
        };
        proof {
            assert(s@.subrange(0, i + 1).drop_last() =~= s@.subrange(0, i as int));
        }
        i += 1;
    }
    proof {
        assert(s@.subrange(0, n as int) =~= s@);
    }
    if acc > 255 {
        return None;
    }
    let v = acc as u8;
    let b = if v >= 1 {
        v - 1
    } else {
        0
    };
    Some(Modifiers::from_bits_truncate(b))
}

/// The index of the first `;` in a sequence, if any.
pub open spec fn find_semi(s: Seq<u8>) -> Option<int>
    decreases s.len(),
{
    if s.len() == 0 {
        None
    } else if s[0] == 59 {
        Some(0)
    } else {
        match find_semi(s.skip(1)) {
            Some(i) => Some(i + 1),
            None => None,
        }
    }
}

/// [`find_semi`] returns the first `;`: the index it returns holds a `;`
/// with none before it, and `None` means there is none at all.
pub proof fn lemma_find_semi(s: Seq<u8>)
    ensures
        match find_semi(s) {
            Some(i) => 0 <= i < s.len() && s[i] == 59 && forall|j: int| 0 <= j < i ==> s[j] != 59,
            None => forall|j: int| 0 <= j < s.len() ==> s[j] != 59,
        },
    decreases s.len(),
{
    if s.len() > 0 && s[0] != 59 {
        let t = s.skip(1);
        lemma_find_semi(t);
        match find_semi(t) {
            Some(i) => {
                assert(s[i + 1] == t[i]);
                assert forall|j2: int| 0 <= j2 < i + 1 implies s[j2] != 59 by {
                    if j2 > 0 {
                        assert(t[j2 - 1] == s[j2]);
                    }
                }
            },
            None => {
                assert forall|j2: int| 0 <= j2 < s.len() implies s[j2] != 59 by {
                    if j2 > 0 {
                        assert(t[j2 - 1] == s[j2]);
                    }
                }
            },
        }
    }
}

/// Finds the first `;` in a slice.
fn find_semi_exec(s: &[u8]) -> (r: Option<usize>)
    ensures
        match r {
            Some(i) => find_semi(s@) == Some(i as int),
            None => find_semi(s@) is None,
        },
{
    proof {
        lemma_find_semi(s@);
    }
    let n = s.len();
    let mut i: usize = 0;
    while i < n
        invariant
            n == s@.len(),
            i <= n,
            forall|j: int| 0 <= j < i ==> s@[j] != 59,
        decreases n - i,
    {
        if s[i] == 59 {
            proof {
                lemma_find_semi(s@);
                match find_semi(s@) {
                    Some(i0) => {
                        if i0 < i {
                            assert(s@[i0] != 59);
                        } else if i0 > i {
                            assert(s@[i as int] != 59);
                        }
                    },
                    None => {
                        assert(s@[i as int] != 59);
                    },
                }
            }
            return Some(i);
        }
        i += 1;
    }
    proof {
        lemma_find_semi(s@);
    }
    None
}

/// The fixed VT table: which navigation or function key a numeric
/// parameter names. Code 16 is deliberately absent, as are codes past 21.
pub open spec fn spec_vt_key(code: Seq<u8>) -> Option<KeyCode> {
    if code.len() == 1 {
        let a = code[0];
        if a == 49 {
            Some(KeyCode::Home)
        } else if a == 50 {
            Some(KeyCode::Insert)
        } else if a == 51 {
            Some(KeyCode::Delete)
        } else if a == 52 {
            Some(KeyCode::End)
        } else if a == 53 {
            Some(KeyCode::PageUp)
        } else if a == 54 {
            Some(KeyCode::PageDown)
        } else if a == 55 {
            Some(KeyCode::Home)
        } else if a == 56 {
            Some(KeyCode::End)
        } else {
            None
        }
    } else if code.len() == 2 && code[0] == 49 {
        let b = code[1];
        if b == 49 {
            Some(KeyCode::Fn(1))
        } else if b == 50 {
            Some(KeyCode::Fn(2))
        } else if b == 51 {
            Some(KeyCode::Fn(3))
        } else if b == 52 {
            Some(KeyCode::Fn(4))
        } else if b == 53 {
            Some(KeyCode::Fn(5))
        } else if b == 55 {
            Some(KeyCode::Fn(6))
        } else if b == 56 {
            Some(KeyCode::Fn(7))
        } else if b == 57 {
            Some(KeyCode::Fn(8))
        } else {
            None
        }
    } else if code.len() == 2 && code[0] == 50 {
        let b = code[1];
        if b == 48 {
            Some(KeyCode::Fn(9))
        } else if b == 49 {
            Some(KeyCode::Fn(10))
        } else {
            None
        }
    } else {
        None
    }
}

/// Looks a VT numeric parameter up in the fixed table.
fn vt_key(code: &[u8]) -> (r: Option<KeyCode>)
    ensures
        r == spec_vt_key(code@),
{
    if code.len() == 1 {
        let a = code[0];
        if a == 49 {
            Some(KeyCode::Home)
        } else if a == 50 {
            Some(KeyCode::Insert)
        } else if a == 51 {
            Some(KeyCode::Delete)
        } else if a == 52 {
            Some(KeyCode::End)
        } else if a == 53 {
            Some(KeyCode::PageUp)
        } else if a == 54 {
            Some(KeyCode::PageDown)
        } else if a == 55 {
            Some(KeyCode::Home)
        } else if a == 56 {
            Some(KeyCode::End)
        } else {
            None
        }
    } else if code.len() == 2 && code[0] == 49 {
        let b = code[1];
        if b == 49 {
            Some(KeyCode::Fn(1))
        } else if b == 50 {
            Some(KeyCode::Fn(2))
        } else if b == 51 {
            Some(KeyCode::Fn(3))
        } else if b == 52 {
            Some(KeyCode::Fn(4))
        } else if b == 53 {
            Some(KeyCode::Fn(5))
        } else if b == 55 {
            Some(KeyCode::Fn(6))
        } else if b == 56 {
            Some(KeyCode::Fn(7))
        } else if b == 57 {
            Some(KeyCode::Fn(8))
        } else {
            None
        }
    } else if code.len() == 2 && code[0] == 50 {
        let b = code[1];
        if b == 48 {
            Some(KeyCode::Fn(9))
        } else if b == 49 {
            Some(KeyCode::Fn(10))
        } else {
            None
        }
    } else {
        None
    }
}

/// The XTerm table: which key a sequence's final letter names.
pub open spec fn spec_xterm_key(last: u8) -> Option<KeyCode> {
    if last == 65 {
        Some(KeyCode::Up)
    } else if last == 66 {
        Some(KeyCode::Down)
    } else if last == 67 {
        Some(KeyCode::Right)
    } else if last == 68 {
        Some(KeyCode::Left)
    } else if last == 70 {
        Some(KeyCode::End)
    } else if last == 72 {
        Some(KeyCode::Home)
    } else if last == 80 {
        Some(KeyCode::Fn(1))
    } else if last == 81 {
        Some(KeyCode::Fn(2))
    } else if last == 82 {
        Some(KeyCode::Fn(3))
    } else if last == 83 {
        Some(KeyCode::Fn(4))
    } else {
        None
    }
}

/// Looks an XTerm final letter up in the fixed table.
fn xterm_key(last: u8) -> (r: Option<KeyCode>)
    ensures
        r == spec_xterm_key(last),
{
    if last == 65 {
        Some(KeyCode::Up)
    } else if last == 66 {
        Some(KeyCode::Down)
    } else if last == 67 {
        Some(KeyCode::Right)
    } else if last == 68 {
        Some(KeyCode::Left)
    } else if last == 70 {
        Some(KeyCode::End)
    } else if last == 72 {
        Some(KeyCode::Home)
    } else if last == 80 {
        Some(KeyCode::Fn(1))
    } else if last == 81 {
        Some(KeyCode::Fn(2))
    } else if last == 82 {
        Some(KeyCode::Fn(3))
    } else if last == 83 {
        Some(KeyCode::Fn(4))
    } else {
        None
    }
}

/// The decoding of a VT sequence body (the bytes between `[` and `~`):
/// the numeric parameter, optionally followed by `;` and a modifier
/// parameter, looked up in the fixed table.
pub open spec fn spec_parse_vt(inner: Seq<u8>) -> Option<KeyEvent> {
    match find_semi(inner) {
        Some(i) => {
            match spec_parse_modifiers(inner.skip(i + 1)) {
                Some(m) => match spec_vt_key(inner.subrange(0, i)) {
                    Some(k) => Some(KeyEvent { key_code: k, modifiers: m }),
                    None => None,
                },
                None => None,
            }
        },
        None => match spec_vt_key(inner) {
            Some(k) => Some(KeyEvent { key_code: k, modifiers: Modifiers { bits: 0 } }),
            None => None,
        },
    }
}

/// Decodes a VT sequence body.
fn parse_vt(inner: &[u8]) -> (r: Option<KeyEvent>)
    ensures
        r == spec_parse_vt(inner@),
{
    match find_semi_exec(inner) {
        Some(i) => {
            let n = inner.len();
            proof {
                lemma_find_semi(inner@);
            }
            let mods = parse_modifiers(&inner[i + 1..n]);
            match mods {
                Some(m) => {
                    match vt_key(&inner[0..i]) {
                        Some(k) => {
                            proof {
                                assert(inner@.subrange(i + 1, inner@.len() as int) =~= inner@.skip(
                                    i + 1,
                                ));
                            }
                            Some(KeyEvent { key_code: k, modifiers: m })
                        },
                        None => None,
                    }
                },
                None => {
                    proof {
                        assert(inner@.subrange(i + 1, inner@.len() as int) =~= inner@.skip(i + 1));
                    }
                    None
                },
            }
        },
        None => {
            match vt_key(inner) {
                Some(k) => Some(KeyEvent::key(k)),
                None => None,
            }
        },
    }
}

/// The decoding of an XTerm sequence: the final letter through the fixed
/// table, with an optional modifier parameter standing after a `;` in the
/// middle bytes; middle bytes without a `;` are themselves the modifier
/// parameter when present.
pub open spec fn spec_parse_xterm(middle: Seq<u8>, last: u8) -> Option<KeyEvent> {
    match spec_xterm_key(last) {
        Some(k) => {
            let mods_part = match find_semi(middle) {
                Some(i) => middle.skip(i + 1),
                None => middle,
            };
            if mods_part.len() == 0 {
                Some(KeyEvent { key_code: k, modifiers: Modifiers { bits: 0 } })
            } else {
                match spec_parse_modifiers(mods_part) {
                    Some(m) => Some(KeyEvent { key_code: k, modifiers: m }),
                    None => None,
                }
            }
        },
        None => None,
    }
}

/// Decodes an XTerm sequence from its middle bytes and final letter.
fn parse_xterm(middle: &[u8], last: u8) -> (r: Option<KeyEvent>)
    ensures
        r == spec_parse_xterm(middle@, last),
{
    match xterm_key(last) {
        Some(k) => {
            let mods_slice = match find_semi_exec(middle) {
                Some(i) => {
                    let n = middle.len();
                    proof {
                        lemma_find_semi(middle@);
                        assert(middle@.subrange(i + 1, middle@.len() as int) =~= middle@.skip(
                            i + 1,
                        ));
                    }
                    &middle[i + 1..n]
                },
                None => middle,
            };
            if mods_slice.len() == 0 {
                Some(KeyEvent::key(k))
            } else {
                match parse_modifiers(mods_slice) {
                    Some(m) => Some(KeyEvent { key_code: k, modifiers: m }),
                    None => None,
                }
            }
        },
        None => None,
    }
}

/// The decoding of the bytes after a leading ESC.
pub open spec fn spec_parse_escape(rest: Seq<u8>) -> Option<KeyEvent> {
    if rest.len() == 0 || (rest.len() == 1 && rest[0] == 0x1b) {
        Some(KeyEvent { key_code: KeyCode::Escape, modifiers: Modifiers { bits: 0 } })
    } else if rest.len() == 1 && rest[0] == 91 {
        Some(KeyEvent { key_code: KeyCode::Char('['), modifiers: Modifiers { bits: 2 } })
    } else if rest.len() >= 2 && rest[0] == 91 && rest.last() == 126 {
        spec_parse_vt(rest.subrange(1, rest.len() - 1))
    } else if rest.len() >= 2 && rest[0] == 91 {
        spec_parse_xterm(rest.subrange(1, rest.len() - 1), rest.last())
    } else if rest.len() == 1 {
        let k = spec_decode_byte(rest[0]);
        Some(KeyEvent { key_code: k.key_code, modifiers: Modifiers { bits: k.modifiers.bits | 2 } })
    } else {
        None
    }
}

/// Decodes the bytes after a leading ESC.
fn parse_escape(rest: &[u8]) -> (r: Option<KeyEvent>)
    ensures
        r == spec_parse_escape(rest@),
{
    let n = rest.len();
    if n == 0 || (n == 1 && rest[0] == 0x1b) {
        Some(KeyEvent::key(KeyCode::Escape))
    } else if n == 1 && rest[0] == 91 {
        Some(KeyEvent { key_code: KeyCode::Char('['), modifiers: Modifiers::alt() })
    } else if n >= 2 && rest[0] == 91 && rest[n - 1] == 126 {
        parse_vt(&rest[1..n - 1])
    } else if n >= 2 && rest[0] == 91 {
        parse_xterm(&rest[1..n - 1], rest[n - 1])
    } else if n == 1 {
        let k = decode_byte(rest[0]);
        Some(KeyEvent { key_code: k.key_code, modifiers: k.modifiers.union(Modifiers::alt()) })
    } else {
        None
    }
}

/// Decodes one chunk of input bytes into an event, or `None` when the
/// chunk is not recognized.
pub fn parse_event(bytes: &[u8]) -> (r: Option<EventKind>)
    ensures
        bytes@.len() == 0 ==> r is None,
        bytes@.len() > 0 && bytes@[0] == 0x1b ==> r == (match spec_parse_escape(bytes@.skip(1)) {
            Some(k) => Some(EventKind::Key(k)),
            None => None::<EventKind>,
        }),
        bytes@.len() == 1 && bytes@[0] != 0x1b ==> r == Some(
            EventKind::Key(spec_decode_byte(bytes@[0])),
        ),
        bytes@.len() >= 2 && bytes@[0] != 0x1b && !valid_utf8(bytes@) ==> r is None,
        bytes@.len() >= 2 && bytes@[0] != 0x1b && valid_utf8(bytes@) ==> {
            let cs = decode_utf8(bytes@);
            &&& cs.len() >= 2 ==> (r matches Some(k) && k matches EventKind::String(s) && s@ == cs)
            &&& cs.len() == 1 ==> r == Some(
                EventKind::Key(
                    KeyEvent { key_code: KeyCode::Char(cs[0]), modifiers: Modifiers { bits: 0 } },
                ),
            )
            &&& cs.len() == 0 ==> r is None
        },
{
    if bytes.len() == 0 {
        return None;
    }
    if bytes[0] == 0x1b {
        proof {
            assert(bytes@.subrange(1, bytes@.len() as int) =~= bytes@.skip(1));
        }
        match parse_escape(&bytes[1..bytes.len()]) {
            Some(k) => Some(EventKind::Key(k)),
            None => None,
        }
    } else {
        decode_bytes(bytes)
    }
}

} // verus!
