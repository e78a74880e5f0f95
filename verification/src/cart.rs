//! Positions, sizes and rectangles on the grid of terminal cells.

use vstd::prelude::*;

verus! {

/// A cell of the terminal: column `x` and row `y`, both counted from 0.
#[derive(Debug, Clone, Copy, PartialEq, Eq, Structural)]
pub struct U16Pos {
    pub x: u16,
    pub y: u16,
}

impl U16Pos {
    /// The cell at column `x` and row `y`.
    pub fn new(x: u16, y: u16) -> (pos: Self)
        ensures
            pos.x == x,
            pos.y == y,
    {
        U16Pos { x, y }
    }

    /// The column.
    pub fn x(&self) -> (x: u16)
        ensures
            x == self.x,
    {
        self.x
    }

    /// The row.
    pub fn y(&self) -> (y: u16)
        ensures
            y == self.y,
    {
        self.y
    }
}

/// A number of columns and a number of rows.
#[derive(Debug, Clone, Copy, PartialEq, Eq, Structural)]
pub struct U16Size {
    pub width: u16,
    pub height: u16,
}

impl U16Size {
    /// The size of `width` columns and `height` rows.
    pub fn new(width: u16, height: u16) -> (size: Self)
        ensures
            size.width == width,
            size.height == height,
    {
        U16Size { width, height }
    }

    /// The number of columns.
    pub fn width(&self) -> (width: u16)
        ensures
            width == self.width,
    {
        self.width
    }

    /// The number of rows.
    pub fn height(&self) -> (height: u16)
        ensures
            height == self.height,
    {
        self.height
    }
}

/// A rectangle of cells: from its top left corner `min`, which belongs to
/// it, to its bottom right corner `max`, which does not. `min` is never to
/// the right of or below `max`.
#[derive(Debug, Clone, Copy)]
pub struct U16Rect {
    min: U16Pos,
    max: U16Pos,
}

impl U16Rect {
    #[verifier::type_invariant]
    spec fn ordered(self) -> bool {
        self.min.x <= self.max.x && self.min.y <= self.max.y
    }

    /// The top left corner, as a value of the model.
    pub closed spec fn spec_min(&self) -> U16Pos {
        self.min
    }

    /// The bottom right corner, as a value of the model.
    pub closed spec fn spec_max(&self) -> U16Pos {
        self.max
    }

    /// The number of columns, as a value of the model.
    pub open spec fn spec_width(&self) -> int {
        self.spec_max().x - self.spec_min().x
    }

    /// The number of rows, as a value of the model.
    pub open spec fn spec_height(&self) -> int {
        self.spec_max().y - self.spec_min().y
    }

    /// The rectangle between two corners, whichever way round they are
    /// given: its `min` has the smaller column and the smaller row of the
    /// two, its `max` the larger.
    pub fn new(a: (u16, u16), b: (u16, u16)) -> (rect: Self)
        ensures
            rect.spec_min().x == (if a.0 <= b.0 {
                a.0
            } else {
                b.0
            }),
            rect.spec_min().y == (if a.1 <= b.1 {
                a.1
            } else {
                b.1
            }),
            rect.spec_max().x == (if a.0 <= b.0 {
                b.0
            } else {
                a.0
            }),
            rect.spec_max().y == (if a.1 <= b.1 {
                b.1
            } else {
                a.1
            }),
    {
        let (x0, x1) = if a.0 <= b.0 {
            (a.0, b.0)
        } else {
            (b.0, a.0)
        };
        let (y0, y1) = if a.1 <= b.1 {
            (a.1, b.1)
        } else {
            (b.1, a.1)
        };
        U16Rect { min: U16Pos { x: x0, y: y0 }, max: U16Pos { x: x1, y: y1 } }
    }

    /// The top left corner.
    pub fn min(&self) -> (min: U16Pos)
        ensures
            min == self.spec_min(),
    {
        self.min
    }

    /// The bottom right corner.
    pub fn max(&self) -> (max: U16Pos)
        ensures
            max == self.spec_max(),
    {
        self.max
    }

    /// The number of columns.
    pub fn width(&self) -> (width: u16)
        ensures
            width == self.spec_width(),
    {
        proof {
            use_type_invariant(self);
        }
        self.max.x - self.min.x
    }

    /// The number of rows.
    pub fn height(&self) -> (height: u16)
        ensures
            height == self.spec_height(),
    {
        proof {
            use_type_invariant(self);
        }
        self.max.y - self.min.y
    }
}

/// A point of the unbounded plane that the shapes of widgets live in.
#[derive(Debug, Clone, Copy, PartialEq, Eq, Structural)]
pub struct IPos {
    pub x: isize,
    pub y: isize,
}

impl IPos {
    /// The point at `x` and `y`.
    pub fn new(x: isize, y: isize) -> (pos: Self)
        ensures
            pos.x == x,
            pos.y == y,
    {
        IPos { x, y }
    }

    /// The horizontal coordinate.
    pub fn x(&self) -> (x: isize)
        ensures
            x == self.x,
    {
        self.x
    }

    /// The vertical coordinate.
    pub fn y(&self) -> (y: isize)
        ensures
            y == self.y,
    {
        self.y
    }
}

/// A cell counted from the terminal's top left corner.
#[derive(Debug, Clone, Copy, PartialEq, Eq, Structural)]
pub struct UPos {
    pub x: usize,
    pub y: usize,
}

impl UPos {
    /// The cell at column `x` and row `y`.
    pub fn new(x: usize, y: usize) -> (pos: Self)
        ensures
            pos.x == x,
            pos.y == y,
    {
        UPos { x, y }
    }

    /// The column.
    pub fn x(&self) -> (x: usize)
        ensures
            x == self.x,
    {
        self.x
    }

    /// The row.
    pub fn y(&self) -> (y: usize)
        ensures
            y == self.y,
    {
        self.y
    }
}

/// A width and a height that are never negative.
#[derive(Debug, Clone, Copy, PartialEq, Eq, Structural)]
pub struct USize {
    pub width: usize,
    pub height: usize,
}

impl USize {
    /// The size of `width` columns and `height` rows.
    pub fn new(width: usize, height: usize) -> (size: Self)
        ensures
            size.width == width,
            size.height == height,
    {
        USize { width, height }
    }

    /// The number of columns.
    pub fn width(&self) -> (width: usize)
        ensures
            width == self.width,
    {
        self.width
    }

    /// The number of rows.
    pub fn height(&self) -> (height: usize)
        ensures
            height == self.height,
    {
        self.height
    }
}

/// A rectangle of the plane, from its corner `min` to its corner `max`.
/// `min` is never to the right of or below `max`.
#[derive(Debug, Clone, Copy)]
pub struct IRect {
    min: IPos,
    max: IPos,
}

/// The distance from `low` up to `high`.
fn distance(low: isize, high: isize) -> (d: usize)
    requires
        low <= high,
    ensures
        d == high - low,
{
    if low >= 0 {
        (high - low) as usize
    } else if high < 0 {
        (high - low) as usize
    } else {
        let below: usize = (-(low + 1)) as usize + 1;
        high as usize + below
    }
}

/// The coordinate `d` above `low`.
fn offset_by(low: isize, d: usize) -> (high: isize)
    requires
        low + d <= isize::MAX,
    ensures
        high == low + d,
{
    if d <= isize::MAX as usize {
        low + d as isize
    } else {
        let rest: usize = d - isize::MAX as usize - 1;
        (low + isize::MAX + 1) + rest as isize
    }
}

impl IRect {
    #[verifier::type_invariant]
    spec fn ordered(self) -> bool {
        self.min.x <= self.max.x && self.min.y <= self.max.y
    }

    /// The corner with the smaller coordinates, as a value of the model.
    pub closed spec fn spec_min(&self) -> IPos {
        self.min
    }

    /// The corner with the larger coordinates, as a value of the model.
    pub closed spec fn spec_max(&self) -> IPos {
        self.max
    }

    /// The width, as a value of the model.
    pub open spec fn spec_width(&self) -> int {
        self.spec_max().x - self.spec_min().x
    }

    /// The height, as a value of the model.
    pub open spec fn spec_height(&self) -> int {
        self.spec_max().y - self.spec_min().y
    }

    /// The rectangle between two corners, whichever way round they are
    /// given.
    pub fn new(a: (isize, isize), b: (isize, isize)) -> (rect: Self)
        ensures
            rect.spec_min().x == (if a.0 <= b.0 {
                a.0
            } else {
                b.0
            }),
            rect.spec_min().y == (if a.1 <= b.1 {
                a.1
            } else {
                b.1
            }),
            rect.spec_max().x == (if a.0 <= b.0 {
                b.0
            } else {
                a.0
            }),
            rect.spec_max().y == (if a.1 <= b.1 {
                b.1
            } else {
                a.1
            }),
    {
        let (x0, x1) = if a.0 <= b.0 {
            (a.0, b.0)
        } else {
            (b.0, a.0)
        };
        let (y0, y1) = if a.1 <= b.1 {
            (a.1, b.1)
        } else {
            (b.1, a.1)
        };
        IRect { min: IPos { x: x0, y: y0 }, max: IPos { x: x1, y: y1 } }
    }

    /// The corner with the smaller coordinates.
    pub fn min(&self) -> (min: IPos)
        ensures
            min == self.spec_min(),
            min.x <= self.spec_max().x,
            min.y <= self.spec_max().y,
    {
        proof {
            use_type_invariant(self);
        }
        self.min
    }

    /// The corner with the larger coordinates.
    pub fn max(&self) -> (max: IPos)
        ensures
            max == self.spec_max(),
    {
        self.max
    }

    /// The rectangle of the given size whose `min` is `pos`. It must not
    /// reach beyond the largest coordinate.
    pub fn from_pos_size(pos: IPos, size: USize) -> (rect: Self)
        requires
            pos.x + size.width <= isize::MAX,
            pos.y + size.height <= isize::MAX,
        ensures
            rect.spec_min() == pos,
            rect.spec_width() == size.width,
            rect.spec_height() == size.height,
    {
        IRect {
            min: pos,
            max: IPos { x: offset_by(pos.x, size.width), y: offset_by(pos.y, size.height) },
        }
    }

    /// The width and the height.
    pub fn size(&self) -> (size: USize)
        ensures
            size.width == self.spec_width(),
            size.height == self.spec_height(),
    {
        proof {
            use_type_invariant(self);
        }
        USize {
            width: distance(self.min.x, self.max.x),
            height: distance(self.min.y, self.max.y),
        }
    }
}


} // verus!
