//! A character-based text buffer for small texts, with a cursor.

use vstd::prelude::*;

use crate::context::Handled;
use crate::event::{EventKind, KeyCode, KeyEvent};

verus! {

/// A small editable text: its characters and a cursor standing between
/// them. The cursor never leaves the text.
pub struct StringEditor {
    chars: Vec<char>,
    cursor: usize,
}

impl StringEditor {
    /// The cursor lies between 0 and the text's length. Every constructor
    /// establishes this and every operation preserves it; operations that
    /// insert clamp the cursor first, so they keep a well-formed editor
    /// even when handed one that is not.
    pub open spec fn wf(self) -> bool {
        0 <= self.spec_cursor() <= self.spec_chars().len()
    }

    /// The cursor, clamped to the text's end.
    pub open spec fn clamped_cursor(self) -> int {
        if self.spec_cursor() <= self.spec_chars().len() {
            self.spec_cursor()
        } else {
            self.spec_chars().len() as int
        }
    }

    pub closed spec fn spec_chars(self) -> Seq<char> {
        self.chars@
    }

    pub closed spec fn spec_cursor(self) -> int {
        self.cursor as int
    }

    pub fn new() -> (r: Self)
        ensures
            r.wf(),
            r.spec_chars() == Seq::<char>::empty(),
            r.spec_cursor() == 0,
    {
        Self { chars: Vec::new(), cursor: 0 }
    }

    /// The characters of the text, in order.
    pub fn chars(&self) -> (r: &Vec<char>)
        ensures
            r@ == self.spec_chars(),
    {
        &self.chars
    }

    /// The number of characters.
    pub fn len_chars(&self) -> (r: usize)
        ensures
            r == self.spec_chars().len(),
    {
        self.chars.len()
    }

    pub fn is_empty(&self) -> (r: bool)
        ensures
            r == (self.spec_chars().len() == 0),
    {
        self.chars.len() == 0
    }

    /// The cursor's position, in characters.
    pub fn cursor_pos_chars(&self) -> (r: usize)
        ensures
            r == self.spec_cursor(),
    {
        self.cursor
    }

    /// Replaces the whole text; the cursor moves to its end.
    pub fn set_string(&mut self, s: &str)
        ensures
            final(self).wf(),
            final(self).spec_chars() == s@,
            final(self).spec_cursor() == s@.len(),
    {
        let n = s.unicode_len();
        let mut chars: Vec<char> = Vec::new();
        let mut i: usize = 0;
        while i < n
            invariant
                n == s@.len(),
                i <= n,
                chars@.len() == i,
                forall|j: int| 0 <= j < i ==> chars@[j] == s@[j],
            decreases n - i,
        {
            chars.push(s.get_char(i));
            i += 1;
        }
        proof {
            assert(chars@ =~= s@);
        }
        self.chars = chars;
        self.cursor = n;
    }

    /// Moves the cursor, clamping to the text's end.
    pub fn set_cursor(&mut self, pos: usize)
        ensures
            final(self).wf(),
            final(self).spec_chars() == old(self).spec_chars(),
            final(self).spec_cursor() == (if pos <= old(self).spec_chars().len() {
                pos as int
            } else {
                old(self).spec_chars().len() as int
            }),
    {
        let n = self.chars.len();
        self.cursor = if pos <= n {
            pos
        } else {
            n
        };
    }

    /// Empties the text and rests the cursor at its start.
    pub fn clear(&mut self)
        ensures
            final(self).wf(),
            final(self).spec_chars() == Seq::<char>::empty(),
            final(self).spec_cursor() == 0,
    {
        self.chars.clear();
        self.cursor = 0;
    }

    /// Inserts a character at the cursor (clamped to the text's end); the
    /// cursor ends after it.
    pub fn insert_char(&mut self, c: char)
        ensures
            final(self).wf(),
            final(self).spec_chars() == old(self).spec_chars().insert(
                old(self).clamped_cursor(),
                c,
            ),
            final(self).spec_cursor() == old(self).clamped_cursor() + 1,
    {
        let len = self.chars.len();
        let at = if self.cursor <= len {
            self.cursor
        } else {
            len
        };
        self.chars.insert(at, c);
        let n = self.chars.len();
        proof {
            assert(at < n);
        }
        self.cursor = at + 1;
    }

    /// Inserts a string at the cursor (clamped to the text's end); the
    /// cursor ends after it.
    pub fn insert_str(&mut self, s: &str)
        ensures
            final(self).wf(),
            final(self).spec_chars() == old(self).spec_chars().subrange(
                0,
                old(self).clamped_cursor(),
            ) + s@ + old(self).spec_chars().skip(old(self).clamped_cursor()),
            final(self).spec_cursor() == old(self).clamped_cursor() + s@.len(),
    {
        let n = s.unicode_len();
        let len = self.chars.len();
        if self.cursor > len {
            self.cursor = len;
        }
        proof {
            assert(self.spec_chars() =~= old(self).spec_chars().subrange(
                0,
                old(self).clamped_cursor(),
            ) + s@.subrange(0, 0) + old(self).spec_chars().skip(old(self).clamped_cursor()));
        }
        let mut i: usize = 0;
        while i < n
            invariant
                n == s@.len(),
                i <= n,
                self.wf(),
                self.spec_chars() == old(self).spec_chars().subrange(0, old(self).clamped_cursor())
                    + s@.subrange(0, i as int) + old(self).spec_chars().skip(
                    old(self).clamped_cursor(),
                ),
                self.spec_cursor() == old(self).clamped_cursor() + i,
            decreases n - i,
        {
            self.insert_char(s.get_char(i));
            proof {
                assert(self.spec_chars() =~= old(self).spec_chars().subrange(
                    0,
                    old(self).clamped_cursor(),
                ) + s@.subrange(0, i + 1) + old(self).spec_chars().skip(
                    old(self).clamped_cursor(),
                ));
            }
            i += 1;
        }
        proof {
            assert(s@.subrange(0, n as int) =~= s@);
        }
    }

    /// Removes the character after the cursor, if any; the cursor stays.
    pub fn delete_char(&mut self)
        ensures
            old(self).wf() ==> final(self).wf(),
            final(self).spec_cursor() == old(self).spec_cursor(),
            old(self).spec_cursor() >= old(self).spec_chars().len() ==> final(self).spec_chars()
                == old(self).spec_chars(),
            old(self).spec_cursor() < old(self).spec_chars().len() ==> final(self).spec_chars()
                == old(self).spec_chars().remove(old(self).spec_cursor()),
    {
        if self.cursor < self.chars.len() {
            self.chars.remove(self.cursor);
        }
    }

    /// Removes the character before the cursor, if any; the cursor moves
    /// onto the gap it left.
    pub fn backspace(&mut self)
        ensures
            old(self).wf() ==> final(self).wf(),
            old(self).spec_cursor() == 0 || !old(self).wf() ==> *final(self) == *old(self),
            old(self).wf() && old(self).spec_cursor() > 0 ==> {
                &&& final(self).spec_chars() == old(self).spec_chars().remove(
                    old(self).spec_cursor() - 1,
                )
                &&& final(self).spec_cursor() == old(self).spec_cursor() - 1
            },
    {
        if self.cursor > 0 && self.cursor <= self.chars.len() {
            self.cursor = self.cursor - 1;
            self.chars.remove(self.cursor);
        }
    }

    /// Moves the cursor one character left, stopping at the start.
    pub fn move_left(&mut self)
        ensures
            old(self).wf() ==> final(self).wf(),
            final(self).spec_chars() == old(self).spec_chars(),
            final(self).spec_cursor() == (if old(self).spec_cursor() > 0 {
                old(self).spec_cursor() - 1
            } else {
                0
            }),
    {
        if self.cursor > 0 {
            self.cursor = self.cursor - 1;
        }
    }

    /// Moves the cursor one character right, stopping at the end.
    pub fn move_right(&mut self)
        ensures
            old(self).wf() ==> final(self).wf(),
            final(self).spec_chars() == old(self).spec_chars(),
            final(self).spec_cursor() == (if old(self).spec_cursor() < old(
                self,
            ).spec_chars().len() {
                old(self).spec_cursor() + 1
            } else {
                old(self).spec_cursor()
            }),
    {
        if self.cursor < self.chars.len() {
            self.cursor = self.cursor + 1;
        }
    }

    /// Moves the cursor to the start of the text.
    pub fn move_home(&mut self)
        ensures
            final(self).wf(),
            final(self).spec_chars() == old(self).spec_chars(),
            final(self).spec_cursor() == 0,
    {
        self.cursor = 0;
    }

    /// Moves the cursor to the end of the text.
    pub fn move_end(&mut self)
        ensures
            final(self).wf(),
            final(self).spec_chars() == old(self).spec_chars(),
            final(self).spec_cursor() == old(self).spec_chars().len(),
    {
        self.cursor = self.chars.len();
    }

    /// Applies one key event to the text: characters insert at the
    /// (clamped) cursor, editing and navigation keys act as named — with
    /// Up and Down as Home and End, since the text is one line — and
    /// anything else, including any modified key, is not handled and
    /// changes nothing. The result is Yes exactly for the consumed keys,
    /// and the new text and cursor are exactly what [`edited_chars`] and
    /// [`edited_cursor`] describe.
    pub fn handle_event(&mut self, event: &EventKind) -> (r: Handled)
        ensures
            r is Yes <==> editor_consumes(*event),
            final(self).spec_chars() == edited_chars(
                old(self).spec_chars(),
                old(self).spec_cursor(),
                *event,
            ),
            final(self).spec_cursor() == edited_cursor(
                old(self).spec_chars(),
                old(self).spec_cursor(),
                *event,
            ),
            r is No ==> *final(self) == *old(self),
            old(self).wf() ==> final(self).wf(),
    {
        match event {
            EventKind::Key(KeyEvent { key_code, modifiers }) => {
                if !modifiers.is_empty() {
                    return Handled::No;
                }
                match key_code {
                    KeyCode::Char(c) => {
                        self.insert_char(*c);
                        Handled::Yes
                    },
                    KeyCode::Delete => {
                        self.delete_char();
                        Handled::Yes
                    },
                    KeyCode::Backspace => {
                        self.backspace();
                        Handled::Yes
                    },
                    KeyCode::Left => {
                        self.move_left();
                        Handled::Yes
                    },
                    KeyCode::Right => {
                        self.move_right();
                        Handled::Yes
                    },
                    KeyCode::Up => {
                        self.move_home();
                        Handled::Yes
                    },
                    KeyCode::Down => {
                        self.move_end();
                        Handled::Yes
                    },
                    KeyCode::Home => {
                        self.move_home();
                        Handled::Yes
                    },
                    KeyCode::End => {
                        self.move_end();
                        Handled::Yes
                    },
                    _ => Handled::No,
                }
            },
            _ => Handled::No,
        }
    }
}

/// Whether an event is an unmodified key the editor consumes.
pub open spec fn editor_consumes(event: EventKind) -> bool {
    match event {
        EventKind::Key(k) => k.modifiers.bits == 0 && (match k.key_code {
            KeyCode::Char(_) => true,
            KeyCode::Delete => true,
            KeyCode::Backspace => true,
            KeyCode::Left => true,
            KeyCode::Right => true,
            KeyCode::Up => true,
            KeyCode::Down => true,
            KeyCode::Home => true,
            KeyCode::End => true,
            _ => false,
        }),
        _ => false,
    }
}

/// The text after one key event: a character inserts at the cursor
/// clamped to the end, Delete removes the character after an in-range
/// cursor, Backspace the one before it, and every other event leaves the
/// text alone.
pub open spec fn edited_chars(chars: Seq<char>, cursor: int, event: EventKind) -> Seq<char> {
    let clamp = if cursor <= chars.len() {
        cursor
    } else {
        chars.len() as int
    };
    match event {
        EventKind::Key(k) => if k.modifiers.bits != 0 {
            chars
        } else {
            match k.key_code {
                KeyCode::Char(c) => chars.insert(clamp, c),
                KeyCode::Delete => if 0 <= cursor < chars.len() {
                    chars.remove(cursor)
                } else {
                    chars
                },
                KeyCode::Backspace => if 0 < cursor <= chars.len() {
                    chars.remove(cursor - 1)
                } else {
                    chars
                },
                _ => chars,
            }
        },
        _ => chars,
    }
}

/// The cursor after one key event: insertion lands after the new
/// character, Backspace and Left step back (stopping at the start), Right
/// steps forward (stopping at the end), Up and Home jump to the start,
/// Down and End to the end, and every other event leaves it alone.
pub open spec fn edited_cursor(chars: Seq<char>, cursor: int, event: EventKind) -> int {
    let clamp = if cursor <= chars.len() {
        cursor
    } else {
        chars.len() as int
    };
    match event {
        EventKind::Key(k) => if k.modifiers.bits != 0 {
            cursor
        } else {
            match k.key_code {
                KeyCode::Char(_) => clamp + 1,
                KeyCode::Backspace => if 0 < cursor <= chars.len() {
                    cursor - 1
                } else {
                    cursor
                },
                KeyCode::Left => if cursor > 0 {
                    cursor - 1
                } else {
                    0
                },
                KeyCode::Right => if cursor < chars.len() {
                    cursor + 1
                } else {
                    cursor
                },
                KeyCode::Up => 0,
                KeyCode::Down => chars.len() as int,
                KeyCode::Home => 0,
                KeyCode::End => chars.len() as int,
                _ => cursor,
            }
        },
        _ => cursor,
    }
}

} // verus!
