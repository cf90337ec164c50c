//! The minimal-diff renderer.
//!
//! [`draw_diff`] compares two equal-shaped buffers and emits the shortest
//! stream of terminal commands it knows how to produce: for each cell whose
//! resolved value changed it emits only the style attributes that differ,
//! a cursor move only when the write is not immediately after the previous
//! one, and the character itself; afterwards it reconciles cursor
//! visibility and position. When the shapes differ it falls back to a full
//! repaint. The commands' meaning is pinned down by [`apply_cmd`] /
//! [`replay`], a model terminal, and the central contract states that
//! replaying the emitted stream moves the model from the previous frame's
//! state to the new frame's state.

use vstd::prelude::*;
use vstd::seq_lib::*;

use crate::buffer::{default_cell, lemma_row_major_in_range, Buffer, Cell};
use crate::style::{style_default, Color, Style, Weight};
use crate::vec2::Vec2;

verus! {

/// One terminal control command, the abstract counterpart of a CSI escape
/// sequence.
#[derive(Debug, Clone, Copy, PartialEq, Eq, Structural)]
pub enum TermCmd {
    /// Clear the whole screen to blank cells (`CSI 2J` + `CSI 3J`).
    ClearAll,
    /// Move the cursor to an absolute cell position (`CSI row;col H`).
    CursorTo(Vec2),
    /// Show or hide the cursor (`CSI ?25h` / `CSI ?25l`).
    CursorVis(bool),
    /// Set the pen's foreground color (`CSI 3<n>m`).
    Fg(Color),
    /// Set the pen's background color (`CSI 4<n>m`).
    Bg(Color),
    /// Set the pen's weight (`CSI 1m` / `CSI 2m` / `CSI 22m`).
    SetWeight(Weight),
    /// Set or clear the pen's underline (`CSI 4m` / `CSI 24m`).
    SetUnderline(bool),
    /// Write one character at the cursor in the pen's style; the cursor
    /// advances one column.
    Put(char),
}

/// The state of the model terminal: a fully-resolved screen, the cursor
/// position, the current pen style and the cursor's visibility.
pub struct TermState {
    pub screen: Seq<Cell>,
    pub size: Vec2,
    pub pos: Vec2,
    pub pen: Style,
    pub vis: bool,
}

/// How the model terminal interprets one command.
pub open spec fn apply_cmd(s: TermState, cmd: TermCmd) -> TermState {
    match cmd {
        TermCmd::ClearAll => TermState {
            screen: Seq::new(s.screen.len(), |i: int| default_cell()),
            ..s
        },
        TermCmd::CursorTo(p) => TermState { pos: p, ..s },
        TermCmd::CursorVis(b) => TermState { vis: b, ..s },
        TermCmd::Fg(c) => TermState { pen: Style { fg: c, ..s.pen }, ..s },
        TermCmd::Bg(c) => TermState { pen: Style { bg: c, ..s.pen }, ..s },
        TermCmd::SetWeight(w) => TermState { pen: Style { weight: w, ..s.pen }, ..s },
        TermCmd::SetUnderline(u) => TermState { pen: Style { underline: u, ..s.pen }, ..s },
        TermCmd::Put(c) => {
            if s.pos.x < s.size.x && s.pos.y < s.size.y {
                TermState {
                    screen: s.screen.update(
                        s.pos.y * s.size.x + s.pos.x,
                        Cell { c, style: s.pen },
                    ),
                    pos: Vec2 { x: (s.pos.x + 1) as u16, y: s.pos.y },
                    ..s
                }
            } else {
                s
            }
        },
    }
}

/// The state after replaying a whole command stream.
pub open spec fn replay(s: TermState, cmds: Seq<TermCmd>) -> TermState
    decreases cmds.len(),
{
    if cmds.len() == 0 {
        s
    } else {
        apply_cmd(replay(s, cmds.drop_last()), cmds.last())
    }
}

/// Replaying a stream extended by one command applies that command last.
pub proof fn lemma_replay_push(s: TermState, cmds: Seq<TermCmd>, cmd: TermCmd)
    ensures
        replay(s, cmds.push(cmd)) == apply_cmd(replay(s, cmds), cmd),
{
    assert(cmds.push(cmd).drop_last() =~= cmds);
    assert(cmds.push(cmd).last() == cmd);
}

/// Replaying a concatenation replays the two halves in order.
pub proof fn lemma_replay_concat(s: TermState, a: Seq<TermCmd>, b: Seq<TermCmd>)
    ensures
        replay(s, a + b) == replay(replay(s, a), b),
    decreases b.len(),
{
    if b.len() == 0 {
        assert(a + b =~= a);
    } else {
        assert((a + b).drop_last() =~= a + b.drop_last());
        lemma_replay_concat(s, a, b.drop_last());
        assert((a + b).last() == b.last());
    }
}

/// An untouched slot resolves to a blank of the default style.
pub open spec fn resolve_slot(s: Option<Cell>) -> Cell {
    match s {
        Some(c) => c,
        None => default_cell(),
    }
}

/// The fully-resolved screen a buffer denotes.
pub open spec fn resolved_grid(buf: Buffer) -> Seq<Cell> {
    Seq::new(
        (buf.spec_size().x * buf.spec_size().y) as nat,
        |i: int| resolve_slot(buf.model().grid[i]),
    )
}

/// The model-terminal state left behind by the frame a buffer was drawn
/// from: the buffer's resolved screen, the cursor visible exactly when the
/// buffer recorded one and then standing at the recorded position, the pen
/// back at the default style. When no cursor was recorded the terminal's
/// cursor may be anywhere, which the free `pos0` stands for.
pub open spec fn initial_for(buf: Buffer, pos0: Vec2) -> TermState {
    TermState {
        screen: resolved_grid(buf),
        size: buf.spec_size(),
        pos: match buf.spec_cursor() {
            Some(p) => p,
            None => pos0,
        },
        pen: style_default(),
        vis: buf.spec_cursor() is Some,
    }
}

/// Replaying a command stream from a state takes the model terminal to the
/// frame a buffer describes: the resolved screen, and the cursor's
/// visibility and (when visible) position.
pub open spec fn renders_to(m: TermState, cmds: Seq<TermCmd>, buf: Buffer) -> bool {
    let end = replay(m, cmds);
    &&& end.screen == resolved_grid(buf)
    &&& end.size == buf.spec_size()
    &&& end.vis == (buf.spec_cursor() is Some)
    &&& (buf.spec_cursor() matches Some(p) ==> end.pos == p)
    &&& end.pen == style_default()
}

/// Frames chain: the model-terminal state a replayed frame leaves behind
/// is exactly the starting state the next frame's diff assumes, so
/// replaying each frame's stream in turn keeps the terminal showing each
/// buffer in sequence.
pub proof fn lemma_frames_chain(m: TermState, cmds: Seq<TermCmd>, buf: Buffer)
    requires
        renders_to(m, cmds, buf),
    ensures
        replay(m, cmds) == initial_for(buf, replay(m, cmds).pos),
{
}

/// The screen midway through a sweep: the first `k` cells (row-major)
/// already show the next frame, the rest still show the previous one.
pub open spec fn mix_screen(prev: Buffer, next: Buffer, k: int) -> Seq<Cell> {
    Seq::new(
        resolved_grid(next).len(),
        |i: int|
            if i < k {
                resolved_grid(next)[i]
            } else {
                resolved_grid(prev)[i]
            },
    )
}

/// `(y + 1) * w == y * w + w`.
proof fn lemma_mul_succ(y: int, w: int)
    ensures
        (y + 1) * w == y * w + w,
{
    assert((y + 1) * w == y * w + w) by (nonlinear_arith);
}

/// Whether two grid slots hold the same contents.
fn slots_equal(a: &Option<Cell>, b: &Option<Cell>) -> (r: bool)
    ensures
        r == (*a == *b),
{
    match (a, b) {
        (None, None) => true,
        (Some(x), Some(y)) => x.c == y.c && x.style == y.style,
        _ => false,
    }
}

/// The commands that change the pen from one style to another: one
/// command per attribute that differs, none for equal attributes, in
/// foreground, background, weight, underline order.
pub open spec fn style_cmds(from: Style, to: Style) -> Seq<TermCmd> {
    (if to.fg != from.fg {
        seq![TermCmd::Fg(to.fg)]
    } else {
        Seq::<TermCmd>::empty()
    }) + (if to.bg != from.bg {
        seq![TermCmd::Bg(to.bg)]
    } else {
        Seq::<TermCmd>::empty()
    }) + (if to.weight != from.weight {
        seq![TermCmd::SetWeight(to.weight)]
    } else {
        Seq::<TermCmd>::empty()
    }) + (if to.underline != from.underline {
        seq![TermCmd::SetUnderline(to.underline)]
    } else {
        Seq::<TermCmd>::empty()
    })
}

/// Appends the commands that change the pen from one style to another,
/// comparing each attribute independently and emitting only the ones that
/// differ.
#[verifier::rlimit(50)]
pub fn draw_style_diff(from: Style, to: Style, out: &mut Vec<TermCmd>)
    ensures
        final(out)@ == old(out)@ + style_cmds(from, to),
        final(out)@.len() >= old(out)@.len(),
        final(out)@.subrange(0, old(out)@.len() as int) == old(out)@,
        forall|s: TermState|
            s.pen == from ==> replay(s, final(out)@.skip(old(out)@.len() as int)) == (TermState {
                pen: to,
                ..s
            }),
        from == to ==> final(out)@ == old(out)@,
{
    let ghost n = out@.len() as int;
    let ghost mut cur = from;
    proof {
        assert(out@.skip(n) =~= Seq::<TermCmd>::empty());
    }
    if to.fg != from.fg {
        let ghost before = out@;
        out.push(TermCmd::Fg(to.fg));
        proof {
            assert(out@.skip(n) =~= before.skip(n).push(TermCmd::Fg(to.fg)));
            assert forall|s: TermState| s.pen == from implies replay(s, out@.skip(n)) == (
            TermState { pen: (Style { fg: to.fg, ..cur }), ..s }) by {
                lemma_replay_push(s, before.skip(n), TermCmd::Fg(to.fg));
            }
            cur = Style { fg: to.fg, ..cur };
        }
    }
    if to.bg != from.bg {
        let ghost before = out@;
        out.push(TermCmd::Bg(to.bg));
        proof {
            assert(out@.skip(n) =~= before.skip(n).push(TermCmd::Bg(to.bg)));
            assert forall|s: TermState| s.pen == from implies replay(s, out@.skip(n)) == (
            TermState { pen: (Style { bg: to.bg, ..cur }), ..s }) by {
                lemma_replay_push(s, before.skip(n), TermCmd::Bg(to.bg));
            }
            cur = Style { bg: to.bg, ..cur };
        }
    }
    if to.weight != from.weight {
        let ghost before = out@;
        out.push(TermCmd::SetWeight(to.weight));
        proof {
            assert(out@.skip(n) =~= before.skip(n).push(TermCmd::SetWeight(to.weight)));
            assert forall|s: TermState| s.pen == from implies replay(s, out@.skip(n)) == (
            TermState { pen: (Style { weight: to.weight, ..cur }), ..s }) by {
                lemma_replay_push(s, before.skip(n), TermCmd::SetWeight(to.weight));
            }
            cur = Style { weight: to.weight, ..cur };
        }
    }
    if to.underline != from.underline {
        let ghost before = out@;
        out.push(TermCmd::SetUnderline(to.underline));
        proof {
            assert(out@.skip(n) =~= before.skip(n).push(TermCmd::SetUnderline(to.underline)));
            assert forall|s: TermState| s.pen == from implies replay(s, out@.skip(n)) == (
            TermState { pen: (Style { underline: to.underline, ..cur }), ..s }) by {
                lemma_replay_push(s, before.skip(n), TermCmd::SetUnderline(to.underline));
            }
            cur = Style { underline: to.underline, ..cur };
        }
    }
    proof {
        assert(cur == to);
        assert(out@ =~= old(out)@ + style_cmds(from, to));
        assert(out@.subrange(0, n) =~= old(out)@);
        if from == to {
            assert(out@ =~= old(out)@);
        }
    }
}

/// Appends the commands that write one cell at `(x, y)`: the pen delta, a
/// cursor move unless the cursor already stands there, and the character.
/// On any model state whose pen matches `from`, whose cursor matches
/// `virt` when one is tracked, and whose screen contains `(x, y)`, the
/// appended commands store the cell there and leave the cursor one column
/// to the right.
fn emit_cell(out: &mut Vec<TermCmd>, from: Style, virt: Option<Vec2>, x: u16, y: u16, cell: Cell)
    ensures
        final(out)@.len() > old(out)@.len(),
        final(out)@.subrange(0, old(out)@.len() as int) == old(out)@,
        forall|s: TermState|
            (s.pen == from && x < s.size.x && y < s.size.y && (match virt {
                Some(v) => s.pos == v,
                None => false,
            } || virt is None)) ==> replay(s, final(out)@.skip(old(out)@.len() as int)) == (
            TermState {
                screen: s.screen.update(y * s.size.x + x, cell),
                pos: (Vec2 { x: (x + 1) as u16, y }),
                pen: cell.style,
                ..s
            }),
{
    let ghost n = out@.len() as int;
    draw_style_diff(from, cell.style, out);
    let ghost styled = out@;
    let target = Vec2::new(x, y);
    let move_needed = match virt {
        Some(v) => !(v.x == x && v.y == y),
        None => true,
    };
    if move_needed {
        out.push(TermCmd::CursorTo(target));
    }
    let ghost moved = out@;
    out.push(TermCmd::Put(cell.c));
    proof {
        assert(out@.subrange(0, n) =~= old(out)@);
        assert forall|s: TermState|
            (s.pen == from && x < s.size.x && y < s.size.y && (match virt {
                Some(v) => s.pos == v,
                None => false,
            } || virt is None)) implies replay(s, out@.skip(n)) == (TermState {
            screen: s.screen.update(y * s.size.x + x, cell),
            pos: (Vec2 { x: (x + 1) as u16, y }),
            pen: cell.style,
            ..s
        }) by {
            let s1 = TermState { pen: cell.style, ..s };
            assert(replay(s, styled.skip(n)) == s1);
            if move_needed {
                assert(moved.skip(n) =~= styled.skip(n).push(TermCmd::CursorTo(target)));
                lemma_replay_push(s, styled.skip(n), TermCmd::CursorTo(target));
            } else {
                assert(moved.skip(n) =~= styled.skip(n));
            }
            let s2 = replay(s, moved.skip(n));
            assert(s2 == (TermState { pos: target, ..s1 }));
            assert(out@.skip(n) =~= moved.skip(n).push(TermCmd::Put(cell.c)));
            lemma_replay_push(s, moved.skip(n), TermCmd::Put(cell.c));
        }
    }
}

/// The screen midway through a full repaint: the first `k` cells already
/// show the next frame, the rest are still blank from the initial clear.
pub open spec fn clear_mix(next: Buffer, k: int) -> Seq<Cell> {
    Seq::new(
        resolved_grid(next).len(),
        |i: int|
            if i < k {
                resolved_grid(next)[i]
            } else {
                default_cell()
            },
    )
}

/// The state any model terminal of the right shape reaches after the full
/// repaint's preamble: a blank screen, a hidden cursor and the default pen.
proof fn lemma_replay_repaint_preamble(m: TermState, cmds: Seq<TermCmd>)
    requires
        cmds =~= seq![
            TermCmd::ClearAll,
            TermCmd::CursorVis(false),
            TermCmd::Fg(Color::Default),
            TermCmd::Bg(Color::Default),
            TermCmd::SetWeight(Weight::Normal),
            TermCmd::SetUnderline(false),
        ],
    ensures
        replay(m, cmds) == (TermState {
            screen: Seq::new(m.screen.len(), |i: int| default_cell()),
            size: m.size,
            pos: m.pos,
            pen: style_default(),
            vis: false,
        }),
{
    let s6 = cmds;
    let s5 = s6.drop_last();
    let s4 = s5.drop_last();
    let s3 = s4.drop_last();
    let s2 = s3.drop_last();
    let s1 = s2.drop_last();
    let s0 = s1.drop_last();
    assert(s5 =~= seq![
        TermCmd::ClearAll,
        TermCmd::CursorVis(false),
        TermCmd::Fg(Color::Default),
        TermCmd::Bg(Color::Default),
        TermCmd::SetWeight(Weight::Normal),
    ]);
    assert(s4 =~= seq![
        TermCmd::ClearAll,
        TermCmd::CursorVis(false),
        TermCmd::Fg(Color::Default),
        TermCmd::Bg(Color::Default),
    ]);
    assert(s3 =~= seq![TermCmd::ClearAll, TermCmd::CursorVis(false), TermCmd::Fg(Color::Default)]);
    assert(s2 =~= seq![TermCmd::ClearAll, TermCmd::CursorVis(false)]);
    assert(s1 =~= seq![TermCmd::ClearAll]);
    assert(s0.len() == 0);
    assert(replay(m, s0) == m);
    assert(replay(m, s1) == apply_cmd(replay(m, s0), TermCmd::ClearAll));
    assert(replay(m, s2) == apply_cmd(replay(m, s1), TermCmd::CursorVis(false)));
    assert(replay(m, s3) == apply_cmd(replay(m, s2), TermCmd::Fg(Color::Default)));
    assert(replay(m, s4) == apply_cmd(replay(m, s3), TermCmd::Bg(Color::Default)));
    assert(replay(m, s5) == apply_cmd(replay(m, s4), TermCmd::SetWeight(Weight::Normal)));
    assert(replay(m, s6) == apply_cmd(replay(m, s5), TermCmd::SetUnderline(false)));
}

/// Emits a full repaint of a buffer: clear the screen, hide the cursor,
/// reset the pen, write every populated cell (moving the cursor only after
/// a gap), reset the pen again and reconcile the cursor against the
/// buffer's. Replaying the stream takes a model terminal of the same shape
/// from any state to the state the buffer describes.
pub fn draw_no_diff(next: &Buffer) -> (out: Vec<TermCmd>)
    requires
        next.wf(),
    ensures
        forall|m: TermState|
            (m.size == next.spec_size() && m.screen.len() == resolved_grid(*next).len())
                ==> renders_to(m, out@, *next),
{
    let size = next.size();
    let w = size.x;
    let h = size.y;
    let mut out: Vec<TermCmd> = Vec::new();
    out.push(TermCmd::ClearAll);
    out.push(TermCmd::CursorVis(false));
    out.push(TermCmd::Fg(Color::Default));
    out.push(TermCmd::Bg(Color::Default));
    out.push(TermCmd::SetWeight(Weight::Normal));
    out.push(TermCmd::SetUnderline(false));
    let mut style = Style::new();
    let mut virt: Option<Vec2> = None;
    proof {
        assert forall|m: TermState|
            (m.size == next.spec_size() && m.screen.len() == resolved_grid(*next).len()) implies
            replay(m, out@) == (TermState {
            screen: clear_mix(*next, 0),
            size: m.size,
            pos: m.pos,
            pen: style_default(),
            vis: false,
        }) by {
            lemma_replay_repaint_preamble(m, out@);
            assert(Seq::new(m.screen.len(), |i: int| default_cell()) =~= clear_mix(*next, 0));
        }
    }
    let mut y: u16 = 0;
    while y < h
        invariant
            next.wf(),
            w == next.spec_size().x,
            h == next.spec_size().y,
            y <= h,
            forall|m: TermState|
                (m.size == next.spec_size() && m.screen.len() == resolved_grid(*next).len())
                    ==> replay(m, out@) == (TermState {
                    screen: clear_mix(*next, y * w),
                    size: m.size,
                    pos: (match virt {
                        Some(v) => v,
                        None => m.pos,
                    }),
                    pen: style,
                    vis: false,
                }),
        decreases h - y,
    {
        let mut x: u16 = 0;
        while x < w
            invariant
                next.wf(),
                w == next.spec_size().x,
                h == next.spec_size().y,
                y < h,
                x <= w,
                forall|m: TermState|
                    (m.size == next.spec_size() && m.screen.len() == resolved_grid(*next).len())
                        ==> replay(m, out@) == (TermState {
                        screen: clear_mix(*next, y * w + x),
                        size: m.size,
                        pos: (match virt {
                            Some(v) => v,
                            None => m.pos,
                        }),
                        pen: style,
                        vis: false,
                    }),
            decreases w - x,
        {
            let slot = next.get(Vec2::new(x, y));
            match slot {
                Some(Some(cell)) => {
                    let ghost before = out@;
                    let ghost k = y * w + x;
                    emit_cell(&mut out, style, virt, x, y, cell);
                    proof {
                        assert(out@ =~= before + out@.skip(before.len() as int));
                        assert forall|m: TermState|
                            (m.size == next.spec_size() && m.screen.len() == resolved_grid(
                                *next,
                            ).len()) implies replay(m, out@) == (TermState {
                            screen: clear_mix(*next, k + 1),
                            size: m.size,
                            pos: (Vec2 { x: (x + 1) as u16, y }),
                            pen: cell.style,
                            vis: false,
                        }) by {
                            let suffix = out@.skip(before.len() as int);
                            let mid = replay(m, before);
                            lemma_replay_concat(m, before, suffix);
                            lemma_row_major_in_range(x as int, y as int, w as int, h as int);
                            assert(mid.screen.update(y * mid.size.x + x, cell) =~= clear_mix(
                                *next,
                                k + 1,
                            ));
                        }
                    }
                    style = cell.style;
                    virt = Some(Vec2::new(x + 1, y));
                },
                Some(None) => {
                    proof {
                        lemma_row_major_in_range(x as int, y as int, w as int, h as int);
                        assert(clear_mix(*next, y * w + x) =~= clear_mix(*next, y * w + x + 1));
                    }
                },
                None => {
                    proof {
                        assert(false);
                    }
                },
            }
            x += 1;
        }
        proof {
            lemma_mul_succ(y as int, w as int);
        }
        y += 1;
    }
    proof {
        assert((h as int) * (w as int) == (w as int) * (h as int)) by (nonlinear_arith);
        assert(clear_mix(*next, (h as int) * (w as int)) =~= resolved_grid(*next));
    }
    let ghost swept = out@;
    draw_style_diff(style, Style::new(), &mut out);
    proof {
        assert(out@ =~= swept + out@.skip(swept.len() as int));
        assert forall|m: TermState|
            (m.size == next.spec_size() && m.screen.len() == resolved_grid(*next).len()) implies
            replay(m, out@) == (TermState {
            screen: resolved_grid(*next),
            size: m.size,
            pos: (match virt {
                Some(v) => v,
                None => m.pos,
            }),
            pen: style_default(),
            vis: false,
        }) by {
            lemma_replay_concat(m, swept, out@.skip(swept.len() as int));
        }
    }
    match next.cursor() {
        Some(p) => {
            let ghost reset = out@;
            out.push(TermCmd::CursorTo(p));
            out.push(TermCmd::CursorVis(true));
            proof {
                assert(out@ =~= reset.push(TermCmd::CursorTo(p)).push(TermCmd::CursorVis(true)));
                assert forall|m: TermState|
                    (m.size == next.spec_size() && m.screen.len() == resolved_grid(*next).len())
                        implies renders_to(m, out@, *next) by {
                    lemma_replay_push(m, reset, TermCmd::CursorTo(p));
                    lemma_replay_push(m, reset.push(TermCmd::CursorTo(p)), TermCmd::CursorVis(true));
                }
            }
        },
        None => {
            let ghost reset = out@;
            out.push(TermCmd::CursorVis(false));
            proof {
                assert forall|m: TermState|
                    (m.size == next.spec_size() && m.screen.len() == resolved_grid(*next).len())
                        implies renders_to(m, out@, *next) by {
                    lemma_replay_push(m, reset, TermCmd::CursorVis(false));
                }
            }
        },
    }
    out
}

/// Emits the minimal command stream that takes the terminal from the frame
/// the previous buffer describes to the frame the next buffer describes.
/// Equal shapes are diffed cell by cell; a shape change forces a full
/// repaint. Diffing a buffer against an identical copy emits nothing.
pub fn draw_diff(prev: &Buffer, next: &Buffer) -> (out: Vec<TermCmd>)
    requires
        prev.wf(),
        next.wf(),
    ensures
        prev.spec_size() == next.spec_size() ==> forall|pos0: Vec2|
            renders_to(initial_for(*prev, pos0), out@, *next),
        prev.spec_size() != next.spec_size() ==> forall|m: TermState|
            (m.size == next.spec_size() && m.screen.len() == resolved_grid(*next).len())
                ==> renders_to(m, out@, *next),
        (prev.spec_size() == next.spec_size() && prev.model().grid == next.model().grid
            && prev.spec_cursor() == next.spec_cursor()) ==> out@.len() == 0,
{
    let psize = prev.size();
    let size = next.size();
    if psize.x != size.x || psize.y != size.y {
        return draw_no_diff(next);
    }
    let w = size.x;
    let h = size.y;
    let mut out: Vec<TermCmd> = Vec::new();
    let mut style = Style::new();
    let mut virt: Option<Vec2> = None;
    proof {
        assert forall|pos0: Vec2| replay(initial_for(*prev, pos0), out@) == (TermState {
            screen: mix_screen(*prev, *next, 0),
            size: next.spec_size(),
            pos: (match virt {
                Some(v) => v,
                None => (match prev.spec_cursor() {
                    Some(p) => p,
                    None => pos0,
                }),
            }),
            pen: style,
            vis: (prev.spec_cursor() is Some),
        }) by {
            assert(resolved_grid(*prev) =~= mix_screen(*prev, *next, 0));
        }
    }
    let mut y: u16 = 0;
    while y < h
        invariant
            prev.wf(),
            next.wf(),
            prev.spec_size() == next.spec_size(),
            w == next.spec_size().x,
            h == next.spec_size().y,
            y <= h,
            forall|pos0: Vec2| replay(initial_for(*prev, pos0), out@) == (TermState {
                screen: mix_screen(*prev, *next, y * w),
                size: next.spec_size(),
                pos: (match virt {
                    Some(v) => v,
                    None => (match prev.spec_cursor() {
                        Some(p) => p,
                        None => pos0,
                    }),
                }),
                pen: style,
                vis: (prev.spec_cursor() is Some),
            }),
            prev.model().grid == next.model().grid ==> (out@.len() == 0 && virt is None && style
                == style_default()),
        decreases h - y,
    {
        let mut x: u16 = 0;
        while x < w
            invariant
                prev.wf(),
                next.wf(),
                prev.spec_size() == next.spec_size(),
                w == next.spec_size().x,
                h == next.spec_size().y,
                y < h,
                x <= w,
                forall|pos0: Vec2| replay(initial_for(*prev, pos0), out@) == (TermState {
                    screen: mix_screen(*prev, *next, y * w + x),
                    size: next.spec_size(),
                    pos: (match virt {
                        Some(v) => v,
                        None => (match prev.spec_cursor() {
                            Some(p) => p,
                            None => pos0,
                        }),
                    }),
                    pen: style,
                    vis: (prev.spec_cursor() is Some),
                }),
                prev.model().grid == next.model().grid ==> (out@.len() == 0 && virt is None
                    && style == style_default()),
            decreases w - x,
        {
            let pos = Vec2::new(x, y);
            let pslot = prev.get(pos);
            let nslot = next.get(pos);
            match (pslot, nslot) {
                (Some(pcell), Some(ncell)) => {
                    if !slots_equal(&pcell, &ncell) {
                        let cell = match ncell {
                            Some(c) => c,
                            None => Cell::new(' ', Style::new()),
                        };
                        let ghost before = out@;
                        let ghost k = y * w + x;
                        emit_cell(&mut out, style, virt, x, y, cell);
                        proof {
                            assert(out@ =~= before + out@.skip(before.len() as int));
                            assert forall|pos0: Vec2| replay(initial_for(*prev, pos0), out@) == (
                            TermState {
                                screen: mix_screen(*prev, *next, k + 1),
                                size: next.spec_size(),
                                pos: (Vec2 { x: (x + 1) as u16, y }),
                                pen: cell.style,
                                vis: (prev.spec_cursor() is Some),
                            }) by {
                                let m = initial_for(*prev, pos0);
                                let suffix = out@.skip(before.len() as int);
                                let mid = replay(m, before);
                                lemma_replay_concat(m, before, suffix);
                                lemma_row_major_in_range(x as int, y as int, w as int, h as int);
                                assert(mid.screen.update(y * mid.size.x + x, cell) =~= mix_screen(
                                    *prev,
                                    *next,
                                    k + 1,
                                ));
                            }
                        }
                        style = cell.style;
                        virt = Some(Vec2::new(x + 1, y));
                    } else {
                        proof {
                            lemma_row_major_in_range(x as int, y as int, w as int, h as int);
                            assert(mix_screen(*prev, *next, y * w + x) =~= mix_screen(
                                *prev,
                                *next,
                                y * w + x + 1,
                            ));
                        }
                    }
                },
                _ => {
                    proof {
                        assert(false);
                    }
                },
            }
            x += 1;
        }
        proof {
            lemma_mul_succ(y as int, w as int);
        }
        y += 1;
    }
    proof {
        assert((h as int) * (w as int) == (w as int) * (h as int)) by (nonlinear_arith);
        assert(mix_screen(*prev, *next, (h as int) * (w as int)) =~= resolved_grid(*next));
    }
    let ghost swept = out@;
    draw_style_diff(style, Style::new(), &mut out);
    proof {
        assert(out@ =~= swept + out@.skip(swept.len() as int));
        assert forall|pos0: Vec2| replay(initial_for(*prev, pos0), out@) == (TermState {
            screen: resolved_grid(*next),
            size: next.spec_size(),
            pos: (match virt {
                Some(v) => v,
                None => (match prev.spec_cursor() {
                    Some(p) => p,
                    None => pos0,
                }),
            }),
            pen: style_default(),
            vis: (prev.spec_cursor() is Some),
        }) by {
            lemma_replay_concat(initial_for(*prev, pos0), swept, out@.skip(swept.len() as int));
        }
    }
    match (prev.cursor(), next.cursor()) {
        (None, None) => {},
        (None, Some(p)) => {
            let ghost reset = out@;
            out.push(TermCmd::CursorTo(p));
            out.push(TermCmd::CursorVis(true));
            proof {
                assert(out@ =~= reset.push(TermCmd::CursorTo(p)).push(TermCmd::CursorVis(true)));
                assert forall|pos0: Vec2| renders_to(initial_for(*prev, pos0), out@, *next) by {
                    let m = initial_for(*prev, pos0);
                    lemma_replay_push(m, reset, TermCmd::CursorTo(p));
                    lemma_replay_push(m, reset.push(TermCmd::CursorTo(p)), TermCmd::CursorVis(true));
                }
            }
        },
        (Some(_), None) => {
            let ghost reset = out@;
            out.push(TermCmd::CursorVis(false));
            proof {
                assert forall|pos0: Vec2| renders_to(initial_for(*prev, pos0), out@, *next) by {
                    lemma_replay_push(initial_for(*prev, pos0), reset, TermCmd::CursorVis(false));
                }
            }
        },
        (Some(a), Some(b)) => {
            if virt.is_some() || a.x != b.x || a.y != b.y {
                let ghost reset = out@;
                out.push(TermCmd::CursorTo(b));
                proof {
                    assert forall|pos0: Vec2| renders_to(initial_for(*prev, pos0), out@, *next) by {
                        lemma_replay_push(initial_for(*prev, pos0), reset, TermCmd::CursorTo(b));
                    }
                }
            }
        },
    }
    out
}

/// An executable model terminal, the runnable counterpart of
/// [`TermState`]: replaying a command stream on it follows [`apply_cmd`]
/// exactly.
pub struct TermModel {
    pub cells: Vec<Cell>,
    pub size: Vec2,
    pub pos: Vec2,
    pub pen: Style,
    pub vis: bool,
}

impl TermModel {
    /// The storage holds one cell per screen coordinate.
    pub open spec fn wf(self) -> bool {
        self.cells@.len() == self.size.x * self.size.y
    }

    /// The abstract state this model is in.
    pub open spec fn state(self) -> TermState {
        TermState { screen: self.cells@, size: self.size, pos: self.pos, pen: self.pen, vis: self.vis }
    }

    /// The model terminal showing the frame a buffer describes, with the
    /// cursor parked at `pos0` when the buffer recorded none.
    pub fn from_buffer(buf: &Buffer, pos0: Vec2) -> (r: TermModel)
        requires
            buf.wf(),
        ensures
            r.state() == initial_for(*buf, pos0),
    {
        let slots = buf.as_slice();
        let n = slots.len();
        let mut cells: Vec<Cell> = Vec::new();
        let mut i: usize = 0;
        while i < n
            invariant
                n == slots@.len(),
                i <= n,
                cells@.len() == i,
                forall|j: int| 0 <= j < i ==> cells@[j] == resolve_slot(slots@[j]),
            decreases n - i,
        {
            let cell = match slots[i] {
                Some(c) => c,
                None => Cell::new(' ', Style::new()),
            };
            cells.push(cell);
            i += 1;
        }
        let pos = match buf.cursor() {
            Some(p) => p,
            None => pos0,
        };
        let vis = match buf.cursor() {
            Some(_) => true,
            None => false,
        };
        let r = TermModel { cells, size: buf.size(), pos, pen: Style::new(), vis };
        proof {
            assert(r.state().screen =~= resolved_grid(*buf));
        }
        r
    }

    /// Applies one command, exactly as [`apply_cmd`] describes.
    pub fn apply(&mut self, cmd: &TermCmd)
        requires
            old(self).wf(),
        ensures
            final(self).wf(),
            final(self).state() == apply_cmd(old(self).state(), *cmd),
    {
        match cmd {
            TermCmd::ClearAll => {
                let n = self.cells.len();
                let mut i: usize = 0;
                while i < n
                    invariant
                        n == self.cells@.len(),
                        i <= n,
                        forall|j: int| 0 <= j < i ==> self.cells@[j] == default_cell(),
                        self.size == old(self).size,
                        self.pos == old(self).pos,
                        self.pen == old(self).pen,
                        self.vis == old(self).vis,
                    decreases n - i,
                {
                    self.cells.set(i, Cell::new(' ', Style::new()));
                    i += 1;
                }
                proof {
                    assert(self.cells@ =~= Seq::new(
                        old(self).cells@.len(),
                        |j: int| default_cell(),
                    ));
                }
            },
            TermCmd::CursorTo(p) => {
                self.pos = *p;
            },
            TermCmd::CursorVis(b) => {
                self.vis = *b;
            },
            TermCmd::Fg(c) => {
                self.pen = self.pen.with_fg(*c);
            },
            TermCmd::Bg(c) => {
                self.pen = self.pen.with_bg(*c);
            },
            TermCmd::SetWeight(w) => {
                self.pen = self.pen.with_weight(*w);
            },
            TermCmd::SetUnderline(u) => {
                self.pen = self.pen.with_underline(*u);
            },
            TermCmd::Put(c) => {
                if self.pos.x < self.size.x && self.pos.y < self.size.y {
                    proof {
                        lemma_row_major_in_range(
                            self.pos.x as int,
                            self.pos.y as int,
                            self.size.x as int,
                            self.size.y as int,
                        );
                    }
                    let idx = self.pos.y as usize * self.size.x as usize + self.pos.x as usize;
                    self.cells.set(idx, Cell::new(*c, self.pen));
                    self.pos = Vec2::new(self.pos.x + 1, self.pos.y);
                }
            },
        }
    }

    /// Replays a whole command stream in order.
    pub fn apply_all(&mut self, cmds: &Vec<TermCmd>)
        requires
            old(self).wf(),
        ensures
            final(self).wf(),
            final(self).state() == replay(old(self).state(), cmds@),
    {
        let n = cmds.len();
        let mut i: usize = 0;
        while i < n
            invariant
                n == cmds@.len(),
                i <= n,
                self.wf(),
                self.state() == replay(old(self).state(), cmds@.subrange(0, i as int)),
            decreases n - i,
        {
            proof {
                assert(cmds@.subrange(0, i + 1).drop_last() =~= cmds@.subrange(0, i as int));
            }
            self.apply(&cmds[i]);
            i += 1;
        }
        proof {
            assert(cmds@.subrange(0, n as int) =~= cmds@);
        }
    }
}

} // verus!
