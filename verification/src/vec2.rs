//! A 16-bit 2D vector used for grid sizes and positions.

use vstd::prelude::*;

verus! {

/// A 16-bit 2D vector. `x` is the column axis, `y` the row axis.
#[derive(Default, Debug, Clone, Copy, PartialEq, Eq, Structural)]
pub struct Vec2 {
    pub x: u16,
    pub y: u16,
}

impl Vec2 {
    pub fn new(x: u16, y: u16) -> (r: Self)
        ensures
            r.x == x,
            r.y == y,
    {
        Self { x, y }
    }

    /// The component-wise minimum.
    pub fn min(&self, rhs: Self) -> (r: Self)
        ensures
            r.x == if self.x <= rhs.x { self.x } else { rhs.x },
            r.y == if self.y <= rhs.y { self.y } else { rhs.y },
    {
        Self {
            x: if self.x <= rhs.x { self.x } else { rhs.x },
            y: if self.y <= rhs.y { self.y } else { rhs.y },
        }
    }

    /// The component-wise maximum.
    pub fn max(&self, rhs: Self) -> (r: Self)
        ensures
            r.x == if self.x >= rhs.x { self.x } else { rhs.x },
            r.y == if self.y >= rhs.y { self.y } else { rhs.y },
    {
        Self {
            x: if self.x >= rhs.x { self.x } else { rhs.x },
            y: if self.y >= rhs.y { self.y } else { rhs.y },
        }
    }

    /// The number of cells in a grid of this size.
    pub fn area(&self) -> (r: usize)
        ensures
            r == self.x * self.y,
    {
        proof {
            assert(self.x * self.y <= 0xFFFF * 0xFFFF) by (nonlinear_arith)
                requires
                    self.x <= 0xFFFF,
                    self.y <= 0xFFFF,
            ;
        }
        self.x as usize * self.y as usize
    }

    /// Component-wise addition, saturating at the numeric bound.
    pub fn saturating_add(&self, rhs: Self) -> (r: Self)
        ensures
            r.x == if self.x + rhs.x <= u16::MAX { self.x + rhs.x } else { u16::MAX as int },
            r.y == if self.y + rhs.y <= u16::MAX { self.y + rhs.y } else { u16::MAX as int },
    {
        Self {
            x: if self.x <= u16::MAX - rhs.x { self.x + rhs.x } else { u16::MAX },
            y: if self.y <= u16::MAX - rhs.y { self.y + rhs.y } else { u16::MAX },
        }
    }

    /// Component-wise subtraction, saturating at zero.
    pub fn saturating_sub(&self, rhs: Self) -> (r: Self)
        ensures
            r.x == if self.x >= rhs.x { self.x - rhs.x } else { 0 },
            r.y == if self.y >= rhs.y { self.y - rhs.y } else { 0 },
    {
        Self {
            x: if self.x >= rhs.x { self.x - rhs.x } else { 0 },
            y: if self.y >= rhs.y { self.y - rhs.y } else { 0 },
        }
    }

    /// Component-wise addition, `None` on overflow of either component.
    pub fn checked_add(&self, rhs: Self) -> (r: Option<Self>)
        ensures
            self.x + rhs.x <= u16::MAX && self.y + rhs.y <= u16::MAX ==> (r matches Some(v)
                && v.x == self.x + rhs.x && v.y == self.y + rhs.y),
            self.x + rhs.x > u16::MAX || self.y + rhs.y > u16::MAX ==> r is None,
    {
        if self.x <= u16::MAX - rhs.x && self.y <= u16::MAX - rhs.y {
            Some(Self { x: self.x + rhs.x, y: self.y + rhs.y })
        } else {
            None
        }
    }

    /// Component-wise subtraction, `None` on underflow of either component.
    pub fn checked_sub(&self, rhs: Self) -> (r: Option<Self>)
        ensures
            self.x >= rhs.x && self.y >= rhs.y ==> (r matches Some(v) && v.x == self.x - rhs.x
                && v.y == self.y - rhs.y),
            self.x < rhs.x || self.y < rhs.y ==> r is None,
    {
        if self.x >= rhs.x && self.y >= rhs.y {
            Some(Self { x: self.x - rhs.x, y: self.y - rhs.y })
        } else {
            None
        }
    }

    pub fn either_lt(&self, rhs: Self) -> (r: bool)
        ensures
            r == (self.x < rhs.x || self.y < rhs.y),
    {
        self.x < rhs.x || self.y < rhs.y
    }

    pub fn either_gt(&self, rhs: Self) -> (r: bool)
        ensures
            r == (self.x > rhs.x || self.y > rhs.y),
    {
        self.x > rhs.x || self.y > rhs.y
    }

    pub fn either_lteq(&self, rhs: Self) -> (r: bool)
        ensures
            r == (self.x <= rhs.x || self.y <= rhs.y),
    {
        self.x <= rhs.x || self.y <= rhs.y
    }

    pub fn either_gteq(&self, rhs: Self) -> (r: bool)
        ensures
            r == (self.x >= rhs.x || self.y >= rhs.y),
    {
        self.x >= rhs.x || self.y >= rhs.y
    }

    pub fn both_lt(&self, rhs: Self) -> (r: bool)
        ensures
            r == (self.x < rhs.x && self.y < rhs.y),
    {
        self.x < rhs.x && self.y < rhs.y
    }

    pub fn both_gt(&self, rhs: Self) -> (r: bool)
        ensures
            r == (self.x > rhs.x && self.y > rhs.y),
    {
        self.x > rhs.x && self.y > rhs.y
    }

    pub fn both_lteq(&self, rhs: Self) -> (r: bool)
        ensures
            r == (self.x <= rhs.x && self.y <= rhs.y),
    {
        self.x <= rhs.x && self.y <= rhs.y
    }

    pub fn both_gteq(&self, rhs: Self) -> (r: bool)
        ensures
            r == (self.x >= rhs.x && self.y >= rhs.y),
    {
        self.x >= rhs.x && self.y >= rhs.y
    }
}

} // verus!
