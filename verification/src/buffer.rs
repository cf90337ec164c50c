//! The double-buffered character grid and its windowed sub-views.
//!
//! A [`Buffer`] is a row-major grid of optional cells — an absent cell means
//! "untouched this frame" and resolves to a blank of the default style when
//! drawn. A [`BufferView`] is a rectangular window onto a buffer; views can
//! be nested, each clamped to its parent, and all access through a view is
//! relative to the view's own origin.

use vstd::prelude::*;

use crate::style::{style_default, Style};
use crate::vec2::Vec2;

verus! {

/// One character together with the style it is rendered in.
#[derive(Debug, Clone, Copy, PartialEq, Eq, Structural)]
pub struct Cell {
    pub c: char,
    pub style: Style,
}

/// The first slot when it holds a cell, else the fallback.
pub open spec fn slot_or(a: Option<Cell>, b: Option<Cell>) -> Option<Cell> {
    match a {
        Some(_) => a,
        None => b,
    }
}

/// The cell an untouched grid position resolves to: a space in the default
/// style.
pub open spec fn default_cell() -> Cell {
    Cell { c: ' ', style: style_default() }
}

impl Cell {
    pub fn new(c: char, style: Style) -> (r: Self)
        ensures
            r == (Cell { c, style }),
    {
        Self { c, style }
    }
}

impl Default for Cell {
    /// A space in the default style.
    fn default() -> (r: Self)
        ensures
            r == default_cell(),
    {
        Self { c: ' ', style: Style::new() }
    }
}

/// A row-major grid of optional cells plus an optional cursor position.
#[derive(Debug)]
pub struct Buffer {
    data: Vec<Option<Cell>>,
    size: Vec2,
    cursor: Option<Vec2>,
}

/// The mathematical model of a [`Buffer`]: the row-major sequence of slots,
/// the grid size and the recorded cursor.
pub struct BufferModel {
    pub grid: Seq<Option<Cell>>,
    pub size: Vec2,
    pub cursor: Option<Vec2>,
}

impl Buffer {
    /// The mathematical model of this buffer.
    pub closed spec fn model(self) -> BufferModel {
        BufferModel { grid: self.data@, size: self.size, cursor: self.cursor }
    }

    /// The grid storage holds exactly one slot per coordinate.
    pub open spec fn wf(self) -> bool {
        self.model().grid.len() == self.model().size.x * self.model().size.y
    }

    pub open spec fn spec_size(self) -> Vec2 {
        self.model().size
    }

    pub open spec fn spec_cursor(self) -> Option<Vec2> {
        self.model().cursor
    }

    /// A coordinate is valid iff it lies strictly inside the grid on both
    /// axes.
    pub open spec fn in_bounds(self, x: int, y: int) -> bool {
        0 <= x < self.model().size.x && 0 <= y < self.model().size.y
    }

    /// The linear index of a coordinate in the row-major storage.
    pub open spec fn idx_of(self, x: int, y: int) -> int {
        y * self.model().size.x + x
    }

    /// The stored (optional) cell at a coordinate.
    pub open spec fn cell_at(self, x: int, y: int) -> Option<Cell> {
        self.model().grid[self.idx_of(x, y)]
    }

    /// Every slot of the grid is untouched.
    pub open spec fn all_clear(self) -> bool {
        forall|i: int| 0 <= i < self.model().grid.len() ==> self.model().grid[i] is None
    }

    pub fn new(size: Vec2) -> (r: Self)
        ensures
            r.wf(),
            r.spec_size() == size,
            r.all_clear(),
            r.spec_cursor() is None,
    {
        let area = size.area();
        let mut data: Vec<Option<Cell>> = Vec::new();
        while data.len() < area
            invariant
                data@.len() <= area,
                forall|i: int| 0 <= i < data@.len() ==> data@[i] is None,
            decreases area - data@.len(),
        {
            data.push(None);
        }
        Self { data, size, cursor: None }
    }

    /// Clears the grid and the cursor; reshapes the grid when the size
    /// changes, and clears in place when it does not.
    pub fn resize_and_clear(&mut self, size: Vec2)
        requires
            old(self).wf(),
        ensures
            final(self).wf(),
            final(self).spec_size() == size,
            final(self).all_clear(),
            final(self).spec_cursor() is None,
    {
        if size.x != self.size.x || size.y != self.size.y {
            let area = size.area();
            self.data.clear();
            while self.data.len() < area
                invariant
                    self.data@.len() <= area,
                    forall|i: int| 0 <= i < self.data@.len() ==> self.data@[i] is None,
                    self.model().size == old(self).model().size,
                decreases area - self.data@.len(),
            {
                self.data.push(None);
            }
            self.size = size;
        } else {
            let len = self.data.len();
            let mut i: usize = 0;
            while i < len
                invariant
                    len == self.data@.len(),
                    i <= len,
                    forall|j: int| 0 <= j < i ==> self.data@[j] is None,
                    self.model().size == old(self).model().size,
                decreases len - i,
            {
                self.data.set(i, None);
                i += 1;
            }
        }
        self.cursor = None;
    }

    pub fn size(&self) -> (r: Vec2)
        ensures
            r == self.spec_size(),
    {
        self.size
    }

    /// The raw row-major storage.
    pub fn as_slice(&self) -> (r: &Vec<Option<Cell>>)
        ensures
            r@ == self.model().grid,
    {
        &self.data
    }

    /// The stored cell at a coordinate; `None` when the coordinate is out
    /// of bounds, `Some(slot)` otherwise.
    pub fn get(&self, pos: Vec2) -> (r: Option<Option<Cell>>)
        requires
            self.wf(),
        ensures
            self.in_bounds(pos.x as int, pos.y as int) ==> r == Some(
                self.cell_at(pos.x as int, pos.y as int),
            ),
            !self.in_bounds(pos.x as int, pos.y as int) ==> r is None,
    {
        if pos.x >= self.size.x || pos.y >= self.size.y {
            return None;
        }
        proof {
            lemma_row_major_in_range(
                pos.x as int,
                pos.y as int,
                self.size.x as int,
                self.size.y as int,
            );
        }
        let idx = pos.y as usize * self.size.x as usize + pos.x as usize;
        Some(self.data[idx])
    }

    /// Stores a slot at a coordinate; fails without touching the grid when
    /// the coordinate is out of bounds.
    pub fn set(&mut self, pos: Vec2, cell: Option<Cell>) -> (r: Result<(), OutOfBounds>)
        requires
            old(self).wf(),
        ensures
            final(self).wf(),
            final(self).spec_size() == old(self).spec_size(),
            final(self).spec_cursor() == old(self).spec_cursor(),
            old(self).in_bounds(pos.x as int, pos.y as int) ==> {
                &&& r is Ok
                &&& final(self).cell_at(pos.x as int, pos.y as int) == cell
                &&& forall|x: int, y: int|
                    old(self).in_bounds(x, y) && (x != pos.x || y != pos.y)
                        ==> final(self).cell_at(x, y) == old(self).cell_at(x, y)
            },
            !old(self).in_bounds(pos.x as int, pos.y as int) ==> r is Err && *final(self) == *old(self),
    {
        if pos.x >= self.size.x || pos.y >= self.size.y {
            return Err(OutOfBounds);
        }
        proof {
            lemma_row_major_in_range(
                pos.x as int,
                pos.y as int,
                self.size.x as int,
                self.size.y as int,
            );
        }
        let idx = pos.y as usize * self.size.x as usize + pos.x as usize;
        self.data.set(idx, cell);
        proof {
            assert forall|x: int, y: int|
                self.in_bounds(x, y) && (x != pos.x || y != pos.y) implies self.cell_at(x, y)
                == old(self).cell_at(x, y) by {
                lemma_row_major_in_range(x, y, self.size.x as int, self.size.y as int);
                lemma_row_major_injective(
                    x,
                    y,
                    pos.x as int,
                    pos.y as int,
                    self.size.x as int,
                    self.size.y as int,
                );
            }
        }
        Ok(())
    }

    /// Records an absolute cursor position, or clears it.
    pub fn set_cursor(&mut self, cursor: Option<Vec2>)
        ensures
            final(self).model() == (BufferModel { cursor, ..old(self).model() }),
    {
        self.cursor = cursor;
    }

    pub fn cursor(&self) -> (r: Option<Vec2>)
        ensures
            r == self.spec_cursor(),
    {
        self.cursor
    }


    /// Copies another buffer's grid into this one at an offset: each of
    /// the other buffer's slots that lands inside this grid is written
    /// there, an untouched source slot falling back to `clear`. Cells
    /// outside the landing area keep their contents. With
    /// `override_cursor` this buffer's cursor becomes the other's shifted
    /// by the offset (or none); otherwise it stays.
    #[verifier::loop_isolation(false)]
    pub fn blit(&mut self, offset: Vec2, other: &Buffer, override_cursor: bool, clear: Option<Cell>)
        requires
            old(self).wf(),
            other.wf(),
        ensures
            final(self).wf(),
            final(self).spec_size() == old(self).spec_size(),
            forall|bx: int, by: int|
                other.in_bounds(bx, by) && old(self).in_bounds(offset.x + bx, offset.y + by)
                    ==> final(self).cell_at(offset.x + bx, offset.y + by) == slot_or(
                    other.cell_at(bx, by),
                    clear,
                ),
            forall|x: int, y: int|
                old(self).in_bounds(x, y) && !(offset.x <= x < offset.x + other.spec_size().x
                    && offset.y <= y < offset.y + other.spec_size().y) ==> final(self).cell_at(
                    x,
                    y,
                ) == old(self).cell_at(x, y),
            override_cursor ==> final(self).spec_cursor() == (match other.spec_cursor() {
                Some(p) => Some(spec_vec2_sat_add(p, offset)),
                None => None::<Vec2>,
            }),
            !override_cursor ==> final(self).spec_cursor() == old(self).spec_cursor(),
    {
        let my_size = self.size();
        let their_size = other.size();
        let wcount: u16 = if offset.x < my_size.x {
            let room = my_size.x - offset.x;
            if their_size.x <= room {
                their_size.x
            } else {
                room
            }
        } else {
            0
        };
        let hcount: u16 = if offset.y < my_size.y {
            let room = my_size.y - offset.y;
            if their_size.y <= room {
                their_size.y
            } else {
                room
            }
        } else {
            0
        };
        let mut bx: u16 = 0;
        while bx < wcount
            invariant
                bx <= wcount,
                self.wf(),
                self.spec_size() == old(self).spec_size(),
                self.spec_cursor() == old(self).spec_cursor(),
                forall|px: int, py: int|
                    other.in_bounds(px, py) && old(self).in_bounds(offset.x + px, offset.y + py)
                        && px < bx ==> self.cell_at(offset.x + px, offset.y + py) == slot_or(
                        other.cell_at(px, py),
                        clear,
                    ),
                forall|x: int, y: int|
                    old(self).in_bounds(x, y) && !(offset.x <= x < offset.x + bx && offset.y <= y
                        < offset.y + other.spec_size().y) ==> self.cell_at(x, y) == old(
                        self,
                    ).cell_at(x, y),
            decreases wcount - bx,
        {
            let mut by: u16 = 0;
            while by < hcount
                invariant
                    bx < wcount,
                    by <= hcount,
                    self.wf(),
                    self.spec_size() == old(self).spec_size(),
                    self.spec_cursor() == old(self).spec_cursor(),
                    forall|px: int, py: int|
                        other.in_bounds(px, py) && old(self).in_bounds(offset.x + px, offset.y + py)
                            && (px < bx || (px == bx && py < by)) ==> self.cell_at(
                            offset.x + px,
                            offset.y + py,
                        ) == slot_or(other.cell_at(px, py), clear),
                    forall|x: int, y: int|
                        old(self).in_bounds(x, y) && !(offset.x <= x < offset.x + bx + 1
                            && offset.y <= y < offset.y + other.spec_size().y) ==> self.cell_at(
                            x,
                            y,
                        ) == old(self).cell_at(x, y),
                decreases hcount - by,
            {
                let src = match other.get(Vec2::new(bx, by)) {
                    Some(slot) => slot,
                    None => None,
                };
                let val = match src {
                    Some(cell) => Some(cell),
                    None => clear,
                };
                let ghost bprev = *self;
                let res = self.set(Vec2::new(offset.x + bx, offset.y + by), val);
                proof {
                    assert(res is Ok);
                    assert forall|px: int, py: int|
                        other.in_bounds(px, py) && old(self).in_bounds(offset.x + px, offset.y + py)
                            && (px < bx || (px == bx && py < by + 1)) implies self.cell_at(
                        offset.x + px,
                        offset.y + py,
                    ) == slot_or(other.cell_at(px, py), clear) by {
                        if !(px == bx && py == by) {
                            assert(bprev.cell_at(offset.x + px, offset.y + py) == self.cell_at(
                                offset.x + px,
                                offset.y + py,
                            ));
                        }
                    }
                    assert forall|x: int, y: int|
                        old(self).in_bounds(x, y) && !(offset.x <= x < offset.x + bx + 1
                            && offset.y <= y < offset.y + other.spec_size().y) implies self.cell_at(
                        x,
                        y,
                    ) == old(self).cell_at(x, y) by {
                        assert(bprev.cell_at(x, y) == self.cell_at(x, y));
                    }
                }
                by += 1;
            }
            bx += 1;
        }
        if override_cursor {
            match other.cursor() {
                Some(p) => {
                    self.set_cursor(Some(p.saturating_add(offset)));
                },
                None => {
                    self.set_cursor(None);
                },
            }
        }
    }

    /// The full-buffer view. Only a view whose every ancestor was created
    /// with `cursor_enabled` may place the cursor.
    pub fn view(&self, cursor_enabled: bool) -> (r: BufferView)
        ensures
            r == (BufferView { start: Vec2 { x: 0, y: 0 }, end: self.spec_size(), cursor_enabled }),
            r.wf_for(*self),
    {
        BufferView { start: Vec2::new(0, 0), end: self.size, cursor_enabled }
    }
}

/// The failure of a write through a view or buffer at a coordinate outside
/// its bounds.
#[derive(Debug, Clone, Copy, PartialEq, Eq, Structural)]
pub struct OutOfBounds;

/// A rectangular window onto a buffer. `start` is inclusive, `end`
/// exclusive, both absolute buffer coordinates; all access through the view
/// is relative to `start`. The view does not borrow the buffer: each access
/// names the buffer it reads or writes.
#[derive(Debug, Clone, Copy, PartialEq, Eq, Structural)]
pub struct BufferView {
    pub start: Vec2,
    pub end: Vec2,
    pub cursor_enabled: bool,
}

impl BufferView {
    /// The window is ordered and lies within the buffer.
    pub open spec fn wf_for(self, buf: Buffer) -> bool {
        &&& self.start.x <= self.end.x <= buf.spec_size().x
        &&& self.start.y <= self.end.y <= buf.spec_size().y
    }

    /// A relative coordinate lies inside the window.
    pub open spec fn in_view(self, x: int, y: int) -> bool {
        &&& 0 <= x && self.start.x + x < self.end.x
        &&& 0 <= y && self.start.y + y < self.end.y
    }

    /// The buffer slot a relative coordinate denotes.
    pub open spec fn cell(self, buf: Buffer, x: int, y: int) -> Option<Cell> {
        buf.cell_at(self.start.x + x, self.start.y + y)
    }

    /// The window produced by [`BufferView::view`]: offsets are added to
    /// this view's origin and clamped to its end, and the cursor flag is
    /// the conjunction of the requested flag and this view's.
    pub open spec fn spec_subview(self, start: Vec2, end: Vec2, cursor_enabled: bool) -> BufferView {
        let end_abs = spec_vec2_min(spec_vec2_sat_add(self.start, end), self.end);
        let start_abs = spec_vec2_min(
            spec_vec2_min(spec_vec2_sat_add(self.start, start), self.end),
            end_abs,
        );
        BufferView {
            start: start_abs,
            end: end_abs,
            cursor_enabled: cursor_enabled && self.cursor_enabled,
        }
    }

    /// A sub-window of this view, clamped to this view's bounds.
    pub fn view(&self, start: Vec2, end: Vec2, cursor_enabled: bool) -> (r: BufferView)
        ensures
            r == self.spec_subview(start, end, cursor_enabled),
    {
        let end_abs = self.start.saturating_add(end).min(self.end);
        let start_abs = self.start.saturating_add(start).min(self.end).min(end_abs);
        BufferView {
            start: start_abs,
            end: end_abs,
            cursor_enabled: cursor_enabled && self.cursor_enabled,
        }
    }

    /// The extent of the window.
    pub fn size(&self) -> (r: Vec2)
        requires
            self.start.x <= self.end.x,
            self.start.y <= self.end.y,
        ensures
            r.x == self.end.x - self.start.x,
            r.y == self.end.y - self.start.y,
    {
        self.end.saturating_sub(self.start)
    }

    /// The slot at a relative coordinate; `None` when the coordinate falls
    /// outside the window.
    pub fn get(&self, buf: &Buffer, pos: Vec2) -> (r: Option<Option<Cell>>)
        requires
            buf.wf(),
            self.wf_for(*buf),
        ensures
            self.in_view(pos.x as int, pos.y as int) ==> r == Some(
                self.cell(*buf, pos.x as int, pos.y as int),
            ),
            !self.in_view(pos.x as int, pos.y as int) ==> r is None,
    {
        let abs = self.start.saturating_add(pos);
        if abs.x >= self.end.x || abs.y >= self.end.y {
            return None;
        }
        match buf.get(abs) {
            Some(slot) => Some(slot),
            None => None,
        }
    }

    /// Writes a slot at a relative coordinate; fails without touching the
    /// buffer when the coordinate falls outside the window.
    pub fn set(&self, buf: &mut Buffer, pos: Vec2, cell: Option<Cell>) -> (r: Result<
        (),
        OutOfBounds,
    >)
        requires
            old(buf).wf(),
            self.wf_for(*old(buf)),
        ensures
            final(buf).wf(),
            final(buf).spec_size() == old(buf).spec_size(),
            final(buf).spec_cursor() == old(buf).spec_cursor(),
            self.in_view(pos.x as int, pos.y as int) ==> {
                &&& r is Ok
                &&& final(buf).cell_at(self.start.x + pos.x, self.start.y + pos.y) == cell
                &&& forall|x: int, y: int|
                    old(buf).in_bounds(x, y) && (x != self.start.x + pos.x || y != self.start.y
                        + pos.y) ==> final(buf).cell_at(x, y) == old(buf).cell_at(x, y)
            },
            !self.in_view(pos.x as int, pos.y as int) ==> r is Err && *final(buf) == *old(buf),
    {
        let abs = self.start.saturating_add(pos);
        if abs.x >= self.end.x || abs.y >= self.end.y {
            return Err(OutOfBounds);
        }
        buf.set(abs, cell)
    }

    /// Records the cursor when this view is cursor-enabled and the position
    /// lies inside the window; a cursor-disabled view leaves the buffer
    /// untouched, and so does an out-of-window position — a silent no-op,
    /// which is how non-focused branches and degenerate windows are kept
    /// from stealing the cursor. An explicit `None` clears it.
    pub fn set_cursor(&self, buf: &mut Buffer, cursor: Option<Vec2>)
        ensures
            final(buf).spec_size() == old(buf).spec_size(),
            final(buf).wf() == old(buf).wf(),
            forall|x: int, y: int| final(buf).cell_at(x, y) == old(buf).cell_at(x, y),
            !self.cursor_enabled ==> *final(buf) == *old(buf),
            self.cursor_enabled ==> final(buf).spec_cursor() == match cursor {
                Some(pos) => {
                    if self.in_view(pos.x as int, pos.y as int) {
                        Some(spec_vec2_sat_add(self.start, pos))
                    } else {
                        old(buf).spec_cursor()
                    }
                },
                None => None::<Vec2>,
            },
    {
        if !self.cursor_enabled {
            return ;
        }
        match cursor {
            Some(pos) => {
                let abs = self.start.saturating_add(pos);
                if abs.x < self.end.x && abs.y < self.end.y {
                    buf.set_cursor(Some(abs));
                }
            },
            None => {
                buf.set_cursor(None);
            },
        }
    }
}

/// The component-wise minimum, at the spec level.
pub open spec fn spec_vec2_min(a: Vec2, b: Vec2) -> Vec2 {
    Vec2 {
        x: if a.x <= b.x {
            a.x
        } else {
            b.x
        },
        y: if a.y <= b.y {
            a.y
        } else {
            b.y
        },
    }
}

/// Component-wise saturating addition, at the spec level.
pub open spec fn spec_vec2_sat_add(a: Vec2, b: Vec2) -> Vec2 {
    Vec2 {
        x: if a.x + b.x <= u16::MAX {
            (a.x + b.x) as u16
        } else {
            u16::MAX
        },
        y: if a.y + b.y <= u16::MAX {
            (a.y + b.y) as u16
        } else {
            u16::MAX
        },
    }
}

/// A row-major index of an in-bounds coordinate lies inside the storage.
pub proof fn lemma_row_major_in_range(x: int, y: int, w: int, h: int)
    requires
        0 <= x < w <= 0xFFFF,
        0 <= y < h <= 0xFFFF,
    ensures
        0 <= y * w + x < w * h,
        w * h <= 0xFFFF * 0xFFFF,
{
    assert(0 <= y * w + x < w * h && w * h <= 0xFFFF * 0xFFFF) by (nonlinear_arith)
        requires
            0 <= x < w <= 0xFFFF,
            0 <= y < h <= 0xFFFF,
    ;
}

/// Distinct in-bounds coordinates have distinct row-major indices.
pub proof fn lemma_row_major_injective(x1: int, y1: int, x2: int, y2: int, w: int, h: int)
    requires
        0 <= x1 < w,
        0 <= y1 < h,
        0 <= x2 < w,
        0 <= y2 < h,
        x1 != x2 || y1 != y2,
    ensures
        y1 * w + x1 != y2 * w + x2,
{
    assert(y1 * w + x1 != y2 * w + x2) by (nonlinear_arith)
        requires
            0 <= x1 < w,
            0 <= y1 < h,
            0 <= x2 < w,
            0 <= y2 < h,
            x1 != x2 || y1 != y2,
    ;
}

/// Writes through a sub-view at a relative offset are visible through the
/// parent view at that offset shifted by the sub-view's starting corner,
/// and never land outside the `[start, end)` window the sub-view was
/// created with.
pub proof fn lemma_subview_visibility(
    v: BufferView,
    buf: Buffer,
    start: Vec2,
    end: Vec2,
    cursor_enabled: bool,
    x: int,
    y: int,
)
    requires
        v.wf_for(buf),
    ensures
        v.spec_subview(start, end, cursor_enabled).wf_for(buf),
        v.spec_subview(start, end, cursor_enabled).in_view(x, y) ==> {
            let s = v.spec_subview(start, end, cursor_enabled);
            &&& s.cell(buf, x, y) == v.cell(buf, start.x + x, start.y + y)
            &&& v.in_view(start.x + x, start.y + y)
            &&& start.x + x < end.x
            &&& start.y + y < end.y
        },
{
}

} // verus!
