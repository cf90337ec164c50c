//! The ANSI escape-code writer.
//!
//! [`AnsiBuilder`] batches CSI escape sequences in memory, one frame's
//! worth at a time, so the caller performs a single write per frame:
//! cursor moves (`CSI row;col H`, one-based), full clears (`CSI 2J` +
//! `CSI 3J`), cursor visibility (`CSI ?25h` / `CSI ?25l`), SGR colors
//! (`CSI 3<n>m` / `CSI 4<n>m`), weight (`CSI 1m`, `CSI 2m`, `CSI 22m`)
//! and underline (`CSI 4m` / `CSI 24m`). [`encode_cmds`] spells out a
//! diff-renderer command stream the same way.

use vstd::prelude::*;

use crate::buffer::Buffer;
use crate::render::{draw_no_diff, renders_to, resolved_grid, TermCmd, TermState};
use crate::style::{color_digit, style_default, Style, Weight};
use crate::vec2::Vec2;

verus! {

/// The control sequence introducer, ESC `[`.
pub open spec fn csi() -> Seq<char> {
    seq!['\u{1b}', '[']
}

/// The character of one decimal digit.
pub open spec fn digit_char(d: int) -> char {
    ((48 + d) as u8) as char
}

/// The decimal spelling of a non-negative number.
pub open spec fn dec_chars(n: int) -> Seq<char>
    decreases n,
{
    if n < 10 {
        seq![digit_char(n)]
    } else {
        dec_chars(n / 10).push(digit_char(n % 10))
    }
}

/// Appends the decimal spelling of a number.
fn push_u16(out: &mut Vec<char>, n: u16)
    ensures
        final(out)@ == old(out)@ + dec_chars(n as int),
    decreases n,
{
    if n < 10 {
        out.push((48 + n as u8) as char);
        proof {
            assert(out@ =~= old(out)@ + dec_chars(n as int));
        }
    } else {
        push_u16(out, n / 10);
        out.push((48 + (n % 10) as u8) as char);
        proof {
            assert(out@ =~= old(out)@ + dec_chars(n as int));
        }
    }
}

/// Whether a character is a control character (the C0 range, delete, and
/// the C1 range); control characters never enter the output stream as
/// cell contents.
pub open spec fn is_control_char(c: char) -> bool {
    c < ' ' || ('\u{7f}' <= c <= '\u{9f}')
}

/// The escape code that moves the cursor to a cell position; rows and
/// columns are one-based on the wire.
pub open spec fn cursor_to_chars(pos: Vec2) -> Seq<char> {
    let row = if pos.y + 1 <= u16::MAX {
        pos.y + 1
    } else {
        u16::MAX as int
    };
    let col = if pos.x + 1 <= u16::MAX {
        pos.x + 1
    } else {
        u16::MAX as int
    };
    csi() + dec_chars(row) + seq![';'] + dec_chars(col) + seq!['H']
}

/// The escape code of one terminal command.
pub open spec fn cmd_chars(cmd: TermCmd) -> Seq<char> {
    match cmd {
        TermCmd::ClearAll => csi() + seq!['2', 'J'] + csi() + seq!['3', 'J'],
        TermCmd::CursorTo(pos) => cursor_to_chars(pos),
        TermCmd::CursorVis(v) => csi() + seq!['?', '2', '5'] + (if v {
            seq!['h']
        } else {
            seq!['l']
        }),
        TermCmd::Fg(c) => csi() + seq!['3', digit_char(color_digit(c) as int), 'm'],
        TermCmd::Bg(c) => csi() + seq!['4', digit_char(color_digit(c) as int), 'm'],
        TermCmd::SetWeight(w) => csi() + (match w {
            Weight::Normal => seq!['2', '2', 'm'],
            Weight::Bold => seq!['1', 'm'],
            Weight::Dim => seq!['2', 'm'],
        }),
        TermCmd::SetUnderline(u) => csi() + (if u {
            seq!['4', 'm']
        } else {
            seq!['2', '4', 'm']
        }),
        TermCmd::Put(c) => if is_control_char(c) {
            Seq::<char>::empty()
        } else {
            seq![c]
        },
    }
}

/// The escape codes of a whole command stream, in order.
pub open spec fn cmds_chars(cmds: Seq<TermCmd>) -> Seq<char>
    decreases cmds.len(),
{
    if cmds.len() == 0 {
        Seq::<char>::empty()
    } else {
        cmds_chars(cmds.drop_last()) + cmd_chars(cmds.last())
    }
}

/// Appends the escape code of one command.
fn push_cmd(out: &mut Vec<char>, cmd: &TermCmd)
    ensures
        final(out)@ == old(out)@ + cmd_chars(*cmd),
{
    match cmd {
        TermCmd::ClearAll => {
            out.push('\u{1b}');
            out.push('[');
            out.push('2');
            out.push('J');
            out.push('\u{1b}');
            out.push('[');
            out.push('3');
            out.push('J');
            proof {
                assert(out@ =~= old(out)@ + cmd_chars(*cmd));
            }
        },
        TermCmd::CursorTo(pos) => {
            out.push('\u{1b}');
            out.push('[');
            let row = if pos.y <= u16::MAX - 1 {
                pos.y + 1
            } else {
                u16::MAX
            };
            let col = if pos.x <= u16::MAX - 1 {
                pos.x + 1
            } else {
                u16::MAX
            };
            push_u16(out, row);
            out.push(';');
            push_u16(out, col);
            out.push('H');
            proof {
                assert(out@ =~= old(out)@ + cmd_chars(*cmd));
            }
        },
        TermCmd::CursorVis(v) => {
            out.push('\u{1b}');
            out.push('[');
            out.push('?');
            out.push('2');
            out.push('5');
            if *v {
                out.push('h');
            } else {
                out.push('l');
            }
            proof {
                assert(out@ =~= old(out)@ + cmd_chars(*cmd));
            }
        },
        TermCmd::Fg(c) => {
            out.push('\u{1b}');
            out.push('[');
            out.push('3');
            out.push((48 + c.sgr_digit()) as char);
            out.push('m');
            proof {
                assert(out@ =~= old(out)@ + cmd_chars(*cmd));
            }
        },
        TermCmd::Bg(c) => {
            out.push('\u{1b}');
            out.push('[');
            out.push('4');
            out.push((48 + c.sgr_digit()) as char);
            out.push('m');
            proof {
                assert(out@ =~= old(out)@ + cmd_chars(*cmd));
            }
        },
        TermCmd::SetWeight(w) => {
            out.push('\u{1b}');
            out.push('[');
            match w {
                Weight::Normal => {
                    out.push('2');
                    out.push('2');
                },
                Weight::Bold => {
                    out.push('1');
                },
                Weight::Dim => {
                    out.push('2');
                },
            }
            out.push('m');
            proof {
                assert(out@ =~= old(out)@ + cmd_chars(*cmd));
            }
        },
        TermCmd::SetUnderline(u) => {
            out.push('\u{1b}');
            out.push('[');
            if *u {
                out.push('4');
            } else {
                out.push('2');
                out.push('4');
            }
            out.push('m');
            proof {
                assert(out@ =~= old(out)@ + cmd_chars(*cmd));
            }
        },
        TermCmd::Put(c) => {
            if !(*c < ' ' || ('\u{7f}' <= *c && *c <= '\u{9f}')) {
                out.push(*c);
            }
            proof {
                assert(out@ =~= old(out)@ + cmd_chars(*cmd));
            }
        },
    }
}

/// Turns a sequence of characters into the `String` holding exactly them.
///
/// Relies on `String: FromIterator<char>`, which concatenates the
/// characters in order.
#[verifier::external_body]
fn chars_to_string(v: &Vec<char>) -> (r: String)
    ensures
        r@ == v@,
{
    v.iter().collect()
}

/// Spells a diff-renderer command stream out as one batch of escape
/// codes, ready for a single write.
pub fn encode_cmds(cmds: &Vec<TermCmd>) -> (r: String)
    ensures
        r@ == cmds_chars(cmds@),
{
    let mut out: Vec<char> = Vec::new();
    let n = cmds.len();
    let mut i: usize = 0;
    while i < n
        invariant
            n == cmds@.len(),
            i <= n,
            out@ == cmds_chars(cmds@.subrange(0, i as int)),
        decreases n - i,
    {
        push_cmd(&mut out, &cmds[i]);
        proof {
            assert(cmds@.subrange(0, i + 1).drop_last() =~= cmds@.subrange(0, i as int));
        }
        i += 1;
    }
    proof {
        assert(cmds@.subrange(0, n as int) =~= cmds@);
    }
    chars_to_string(&out)
}

/// The escape codes that change the pen from one style to another: the
/// codes of exactly the commands [`crate::render::style_cmds`] lists —
/// one per differing
/// attribute, in foreground, background, weight, underline order.
pub open spec fn style_delta_chars(from: Style, to: Style) -> Seq<char> {
    (if to.fg != from.fg {
        cmd_chars(TermCmd::Fg(to.fg))
    } else {
        Seq::<char>::empty()
    }) + (if to.bg != from.bg {
        cmd_chars(TermCmd::Bg(to.bg))
    } else {
        Seq::<char>::empty()
    }) + (if to.weight != from.weight {
        cmd_chars(TermCmd::SetWeight(to.weight))
    } else {
        Seq::<char>::empty()
    }) + (if to.underline != from.underline {
        cmd_chars(TermCmd::SetUnderline(to.underline))
    } else {
        Seq::<char>::empty()
    })
}

/// A character sequence with its control characters dropped.
pub open spec fn drop_controls(s: Seq<char>) -> Seq<char>
    decreases s.len(),
{
    if s.len() == 0 {
        Seq::<char>::empty()
    } else {
        drop_controls(s.drop_last()) + (if is_control_char(s.last()) {
            Seq::<char>::empty()
        } else {
            seq![s.last()]
        })
    }
}

/// An in-memory builder of one frame's escape codes. It tracks the pen
/// style and the cursor's visibility so only changes are spelled out.
pub struct AnsiBuilder {
    out: Vec<char>,
    style: Style,
    cursor_visible: bool,
}

impl AnsiBuilder {
    pub closed spec fn spec_out(self) -> Seq<char> {
        self.out@
    }

    pub closed spec fn spec_style(self) -> Style {
        self.style
    }

    pub closed spec fn spec_cursor_visible(self) -> bool {
        self.cursor_visible
    }

    /// An empty builder assuming the default pen and a visible cursor.
    pub fn new() -> (r: Self)
        ensures
            r.spec_out() == Seq::<char>::empty(),
            r.spec_style() == style_default(),
            r.spec_cursor_visible(),
    {
        Self { out: Vec::new(), style: Style::new(), cursor_visible: true }
    }

    /// Appends the full-clear codes.
    pub fn clear_screen(&mut self)
        ensures
            final(self).spec_out() == old(self).spec_out() + cmd_chars(TermCmd::ClearAll),
            final(self).spec_style() == old(self).spec_style(),
            final(self).spec_cursor_visible() == old(self).spec_cursor_visible(),
    {
        push_cmd(&mut self.out, &TermCmd::ClearAll);
    }

    /// Appends a cursor move to an absolute position.
    pub fn set_cursor_position(&mut self, pos: Vec2)
        ensures
            final(self).spec_out() == old(self).spec_out() + cursor_to_chars(pos),
            final(self).spec_style() == old(self).spec_style(),
            final(self).spec_cursor_visible() == old(self).spec_cursor_visible(),
    {
        push_cmd(&mut self.out, &TermCmd::CursorTo(pos));
    }

    /// Appends a cursor visibility change when the visibility actually
    /// changes, and remembers it.
    pub fn show_cursor(&mut self, show: bool)
        ensures
            final(self).spec_cursor_visible() == show,
            final(self).spec_style() == old(self).spec_style(),
            show == old(self).spec_cursor_visible() ==> final(self).spec_out() == old(
                self,
            ).spec_out(),
            show != old(self).spec_cursor_visible() ==> final(self).spec_out() == old(
                self,
            ).spec_out() + cmd_chars(TermCmd::CursorVis(show)),
    {
        if show != self.cursor_visible {
            push_cmd(&mut self.out, &TermCmd::CursorVis(show));
            self.cursor_visible = show;
        }
    }

    /// Appends one character, unless it is a control character.
    pub fn write_char(&mut self, c: char)
        ensures
            final(self).spec_out() == old(self).spec_out() + cmd_chars(TermCmd::Put(c)),
            final(self).spec_style() == old(self).spec_style(),
            final(self).spec_cursor_visible() == old(self).spec_cursor_visible(),
    {
        push_cmd(&mut self.out, &TermCmd::Put(c));
    }

    /// Appends exactly the string's characters with its control
    /// characters dropped.
    pub fn write_str(&mut self, s: &str)
        ensures
            final(self).spec_out() == old(self).spec_out() + drop_controls(s@),
            final(self).spec_style() == old(self).spec_style(),
            final(self).spec_cursor_visible() == old(self).spec_cursor_visible(),
    {
        let n = s.unicode_len();
        proof {
            assert(self.spec_out() =~= old(self).spec_out() + drop_controls(s@.subrange(0, 0)));
        }
        let mut i: usize = 0;
        while i < n
            invariant
                n == s@.len(),
                i <= n,
                self.spec_out() == old(self).spec_out() + drop_controls(s@.subrange(0, i as int)),
                self.spec_style() == old(self).spec_style(),
                self.spec_cursor_visible() == old(self).spec_cursor_visible(),
            decreases n - i,
        {
            self.write_char(s.get_char(i));
            proof {
                assert(s@.subrange(0, i + 1).drop_last() =~= s@.subrange(0, i as int));
                assert(self.spec_out() =~= old(self).spec_out() + drop_controls(
                    s@.subrange(0, i + 1),
                ));
            }
            i += 1;
        }
        proof {
            assert(s@.subrange(0, n as int) =~= s@);
        }
    }

    /// Appends a carriage-return/line-feed pair.
    pub fn write_newline(&mut self)
        ensures
            final(self).spec_out() == old(self).spec_out() + seq!['\r', '\n'],
            final(self).spec_style() == old(self).spec_style(),
            final(self).spec_cursor_visible() == old(self).spec_cursor_visible(),
    {
        self.out.push('\r');
        self.out.push('\n');
        proof {
            assert(self.out@ =~= old(self).spec_out() + seq!['\r', '\n']);
        }
    }

    /// Appends exactly the SGR codes for the attributes that differ from
    /// the current pen — foreground, background, weight and underline
    /// compared independently, in that order — and remembers the new pen.
    /// Writing the pen's own style appends nothing.
    pub fn write_style(&mut self, style: Style)
        ensures
            final(self).spec_out() == old(self).spec_out() + style_delta_chars(
                old(self).spec_style(),
                style,
            ),
            final(self).spec_style() == style,
            final(self).spec_cursor_visible() == old(self).spec_cursor_visible(),
            style == old(self).spec_style() ==> final(self).spec_out() == old(self).spec_out(),
    {
        if style.fg != self.style.fg {
            push_cmd(&mut self.out, &TermCmd::Fg(style.fg));
        }
        if style.bg != self.style.bg {
            push_cmd(&mut self.out, &TermCmd::Bg(style.bg));
        }
        if style.weight != self.style.weight {
            push_cmd(&mut self.out, &TermCmd::SetWeight(style.weight));
        }
        if style.underline != self.style.underline {
            push_cmd(&mut self.out, &TermCmd::SetUnderline(style.underline));
        }
        self.style = style;
        proof {
            assert(self.out@ =~= old(self).spec_out() + style_delta_chars(
                old(self).spec_style(),
                style,
            ));
            if style == old(self).spec_style() {
                assert(self.out@ =~= old(self).spec_out());
            }
        }
    }

    /// Resets the pen to the default style and hands the batch out as one
    /// string: exactly the batch so far followed by the reset codes.
    pub fn finish(self) -> (r: String)
        ensures
            r@ == self.spec_out() + style_delta_chars(self.spec_style(), style_default()),
    {
        let mut b = self;
        b.write_style(Style::new());
        chars_to_string(&b.out)
    }

    /// The full-repaint spelling of one buffer, as one batch of escape
    /// codes: the codes of a command stream that takes a terminal of the
    /// buffer's shape from any state to the frame the buffer describes.
    pub fn frame_of_buffer(buf: &Buffer) -> (r: String)
        requires
            buf.wf(),
        ensures
            exists|cs: Seq<TermCmd>|
                r@ == #[trigger] cmds_chars(cs) && (forall|m: TermState|
                    (m.size == buf.spec_size() && m.screen.len() == resolved_grid(*buf).len())
                        ==> renders_to(m, cs, *buf)),
    {
        let cmds = draw_no_diff(buf);
        let r = encode_cmds(&cmds);
        proof {
            assert(r@ == cmds_chars(cmds@));
        }
        r
    }
}

} // verus!
