//! Cursor position tracking.

use vstd::prelude::*;

verus! {

/// Clamp a target coordinate into [0, bound - 1]; a zero bound pins it at 0.
pub open spec fn clamped(v: int, bound: int) -> int {
    if bound <= 0 {
        0
    } else if v < 0 {
        0
    } else if v > bound - 1 {
        bound - 1
    } else {
        v
    }
}

/// Cursor position on the canvas.
#[derive(Clone, Copy, Debug, Default, PartialEq, Eq, Structural)]
pub struct Cursor {
    pub x: u16,
    pub y: u16,
}

impl Cursor {
    /// Create a new cursor at (0, 0).
    pub fn new() -> (c: Cursor)
        ensures
            c.x == 0 && c.y == 0,
    {
        Cursor { x: 0, y: 0 }
    }

    /// Create a cursor at the specified position.
    pub fn at(x: u16, y: u16) -> (c: Cursor)
        ensures
            c.x == x && c.y == y,
    {
        Cursor { x, y }
    }

    /// Move the cursor by the given delta, clamping each axis to the bounds.
    pub fn move_by(&mut self, dx: i16, dy: i16, bounds: (u16, u16))
        ensures
            final(self).x == clamped(old(self).x + dx, bounds.0 as int),
            final(self).y == clamped(old(self).y + dy, bounds.1 as int),
    {
        self.x = clamp_i32(self.x as i32 + dx as i32, bounds.0);
        self.y = clamp_i32(self.y as i32 + dy as i32, bounds.1);
    }

    /// Jump to the specified position, clamping to bounds.
    pub fn jump_to(&mut self, x: u16, y: u16, bounds: (u16, u16))
        ensures
            final(self).x == clamped(x as int, bounds.0 as int),
            final(self).y == clamped(y as int, bounds.1 as int),
    {
        self.x = if bounds.0 == 0 {
            0
        } else if x > bounds.0 - 1 {
            bounds.0 - 1
        } else {
            x
        };
        self.y = if bounds.1 == 0 {
            0
        } else if y > bounds.1 - 1 {
            bounds.1 - 1
        } else {
            y
        };
    }

    /// Move to the start of the current row.
    pub fn home(&mut self)
        ensures
            final(self).x == 0,
            final(self).y == old(self).y,
    {
        self.x = 0;
    }

    /// Move to the end of the current row.
    pub fn end(&mut self, width: u16)
        ensures
            final(self).x == if width == 0 { 0int } else { width - 1 },
            final(self).y == old(self).y,
    {
        self.x = if width == 0 {
            0
        } else {
            width - 1
        };
    }

    /// Move to the top-left corner.
    pub fn top_left(&mut self)
        ensures
            final(self).x == 0,
            final(self).y == 0,
    {
        self.x = 0;
        self.y = 0;
    }

    /// Move to the bottom-right corner.
    pub fn bottom_right(&mut self, bounds: (u16, u16))
        ensures
            final(self).x == if bounds.0 == 0 { 0int } else { bounds.0 - 1 },
            final(self).y == if bounds.1 == 0 { 0int } else { bounds.1 - 1 },
    {
        self.x = if bounds.0 == 0 {
            0
        } else {
            bounds.0 - 1
        };
        self.y = if bounds.1 == 0 {
            0
        } else {
            bounds.1 - 1
        };
    }
}

/// Clamp a signed coordinate into [0, bound - 1]; a zero bound pins it at 0.
fn clamp_i32(v: i32, bound: u16) -> (r: u16)
    requires
        -0x2_0000 <= v <= 0x2_0000,
    ensures
        r == clamped(v as int, bound as int),
{
    if bound == 0 {
        0
    } else if v < 0 {
        0
    } else if v > bound as i32 - 1 {
        bound - 1
    } else {
        v as u16
    }
}

} // verus!
