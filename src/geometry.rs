use vstd::prelude::*;

verus! {

/// Pixel dimensions of a texture, an image or a glyph bitmap.
#[derive(Debug, Clone, Copy, PartialEq, Eq, Structural)]
pub struct Size {
    pub width: u32,
    pub height: u32,
}

/// An axis-aligned rectangle in pixel space, origin at the top left.
#[derive(Debug, Clone, Copy, PartialEq, Eq, Structural)]
pub struct Region {
    pub x: u32,
    pub y: u32,
    pub width: u32,
    pub height: u32,
}

/// Number of bytes an RGBA8 buffer of `width` by `height` pixels holds.
pub open spec fn rgba_len(width: u32, height: u32) -> int {
    width as int * height as int * 4
}

/// The two rectangles share no pixel.
pub open spec fn disjoint(a: Region, b: Region) -> bool {
    ||| a.x + a.width <= b.x
    ||| b.x + b.width <= a.x
    ||| a.y + a.height <= b.y
    ||| b.y + b.height <= a.y
}

/// The rectangle lies inside a surface of the given size.
pub open spec fn within(r: Region, s: Size) -> bool {
    r.x + r.width <= s.width && r.y + r.height <= s.height
}

impl Size {
    pub fn new(width: u32, height: u32) -> (r: Size)
        ensures
            r.width == width,
            r.height == height,
    {
        Size { width, height }
    }
}

impl Region {
    pub fn new(x: u32, y: u32, width: u32, height: u32) -> (r: Region)
        ensures
            r.x == x,
            r.y == y,
            r.width == width,
            r.height == height,
    {
        Region { x, y, width, height }
    }

    pub fn size(&self) -> (r: Size)
        ensures
            r.width == self.width,
            r.height == self.height,
    {
        Size { width: self.width, height: self.height }
    }
}

} // verus!
