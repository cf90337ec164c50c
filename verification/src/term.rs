//! Terminal geometry: a size in columns and rows, and an absolute cell
//! position.

use vstd::prelude::*;

verus! {

/// A terminal size: columns and rows.
#[derive(Default, Debug, Clone, Copy, PartialEq, Eq, Structural)]
pub struct TermSize {
    pub width: u16,
    pub height: u16,
}

impl TermSize {
    pub fn new(width: u16, height: u16) -> (r: Self)
        ensures
            r == (TermSize { width, height }),
    {
        Self { width, height }
    }

    /// The number of cells on the screen.
    pub fn area(&self) -> (r: usize)
        ensures
            r == self.width * self.height,
    {
        proof {
            assert(self.width * self.height <= 0xFFFF * 0xFFFF) by (nonlinear_arith)
                requires
                    self.width <= 0xFFFF,
                    self.height <= 0xFFFF,
            ;
        }
        self.width as usize * self.height as usize
    }
}

/// An absolute cell position: column and row, zero-based.
#[derive(Default, Debug, Clone, Copy, PartialEq, Eq, Structural)]
pub struct TermPos {
    pub x: u16,
    pub y: u16,
}

impl TermPos {
    pub fn new(x: u16, y: u16) -> (r: Self)
        ensures
            r == (TermPos { x, y }),
    {
        Self { x, y }
    }

    /// This position shifted by an offset, saturating at the numeric
    /// bound.
    pub fn offset(&self, offset: TermPos) -> (r: Self)
        ensures
            r.x == if self.x + offset.x <= u16::MAX { self.x + offset.x } else { u16::MAX as int },
            r.y == if self.y + offset.y <= u16::MAX { self.y + offset.y } else { u16::MAX as int },
    {
        Self {
            x: if self.x <= u16::MAX - offset.x { self.x + offset.x } else { u16::MAX },
            y: if self.y <= u16::MAX - offset.y { self.y + offset.y } else { u16::MAX },
        }
    }
}

} // verus!
