//! Plain geometry and color values used by the text layout: sizes, points,
//! rectangles, edge coordinates and a packed color.
//!
//! The drawing surfaces themselves (bitmaps, the screen) live outside this
//! crate; the layout code only measures and positions, so these types carry
//! nothing but coordinates.

use vstd::prelude::*;

verus! {

/// A width and a height, in pixels; negative values denote an invalid size.
#[derive(Clone, Copy, Debug, PartialEq, Eq, Structural, Default)]
pub struct Size {
    pub width: isize,
    pub height: isize,
}

impl Size {
    pub fn new(width: isize, height: isize) -> (r: Self)
        ensures
            r.width == width,
            r.height == height,
    {
        Size { width, height }
    }

    pub fn width(&self) -> (r: isize)
        ensures
            r == self.width,
    {
        self.width
    }

    pub fn height(&self) -> (r: isize)
        ensures
            r == self.height,
    {
        self.height
    }
}

/// A position, in pixels from the drawing surface's origin.
#[derive(Clone, Copy, Debug, PartialEq, Eq, Structural, Default)]
pub struct Point {
    pub x: isize,
    pub y: isize,
}

impl Point {
    pub fn new(x: isize, y: isize) -> (r: Self)
        ensures
            r.x == x,
            r.y == y,
    {
        Point { x, y }
    }
}

/// A rectangle: an origin and a size.
#[derive(Clone, Copy, Debug, PartialEq, Eq, Structural, Default)]
pub struct Rect {
    pub origin: Point,
    pub size: Size,
}

impl Rect {
    pub fn new(x: isize, y: isize, width: isize, height: isize) -> (r: Self)
        ensures
            r.origin.x == x,
            r.origin.y == y,
            r.size.width == width,
            r.size.height == height,
    {
        Rect { origin: Point { x, y }, size: Size { width, height } }
    }

    pub fn x(&self) -> (r: isize)
        ensures
            r == self.origin.x,
    {
        self.origin.x
    }

    pub fn y(&self) -> (r: isize)
        ensures
            r == self.origin.y,
    {
        self.origin.y
    }

    pub fn width(&self) -> (r: isize)
        ensures
            r == self.size.width,
    {
        self.size.width
    }

    pub fn height(&self) -> (r: isize)
        ensures
            r == self.size.height,
    {
        self.size.height
    }

    pub fn size(&self) -> (r: Size)
        ensures
            r == self.size,
    {
        self.size
    }
}

/// A rectangle by its edges. Valid only while `left <= right` and
/// `top <= bottom`.
#[derive(Clone, Copy, Debug, PartialEq, Eq, Structural, Default)]
pub struct Coordinates {
    pub left: isize,
    pub top: isize,
    pub right: isize,
    pub bottom: isize,
}

impl Coordinates {
    pub fn new(left: isize, top: isize, right: isize, bottom: isize) -> (r: Self)
        ensures
            r.left == left,
            r.top == top,
            r.right == right,
            r.bottom == bottom,
    {
        Coordinates { left, top, right, bottom }
    }

    /// The edges of a rectangle; an overflowing or negative extent is
    /// rejected.
    pub fn from_rect(rect: Rect) -> (r: Result<Coordinates, ()>)
        ensures
            (rect.size.width >= 0 && rect.size.height >= 0 && rect.origin.x + rect.size.width
                <= isize::MAX && rect.origin.y + rect.size.height <= isize::MAX) <==> r is Ok,
            r matches Ok(c) ==> c.left == rect.origin.x && c.top == rect.origin.y && c.right
                == rect.origin.x + rect.size.width && c.bottom == rect.origin.y + rect.size.height,
    {
        if rect.size.width < 0 || rect.size.height < 0 {
            return Err(());
        }
        if rect.origin.x > isize::MAX - rect.size.width {
            return Err(());
        }
        if rect.origin.y > isize::MAX - rect.size.height {
            return Err(());
        }
        Ok(
            Coordinates {
                left: rect.origin.x,
                top: rect.origin.y,
                right: rect.origin.x + rect.size.width,
                bottom: rect.origin.y + rect.size.height,
            },
        )
    }
}

/// A packed 32-bit color, carried through the layout untouched.
#[derive(Clone, Copy, Debug, PartialEq, Eq, Structural, Default)]
pub struct SomeColor(pub u32);

impl SomeColor {
    /// Opaque black.
    pub fn black() -> (r: Self)
        ensures
            r.0 == 0xFF00_0000u32,
    {
        SomeColor(0xFF00_0000)
    }
}

} // verus!
