//! A rectangle with whole-number sides.

use vstd::prelude::*;

verus! {

#[derive(Debug, PartialEq, Eq, Clone, Copy, Structural)]
pub struct Rect {
    pub width: u64,
    pub height: u64,
}

impl Rect {
    pub fn new(width: u64, height: u64) -> (rect: Self)
        ensures
            rect.width == width,
            rect.height == height,
    {
        Self { width, height }
    }

    /// A rectangle with four sides of length `size`.
    pub fn square(size: u64) -> (rect: Self)
        ensures
            rect.width == size,
            rect.height == size,
    {
        Self { width: size, height: size }
    }

    /// Width times height; the product has to fit in a `u64`.
    pub fn area(&self) -> (area: u64)
        requires
            self.width * self.height <= u64::MAX,
        ensures
            area == self.width * self.height,
    {
        self.width * self.height
    }

    /// Makes both sides longer by `x`; the new sides have to fit in a `u64`.
    pub fn expand_area_by_x(&mut self, x: u64)
        requires
            old(self).width + x <= u64::MAX,
            old(self).height + x <= u64::MAX,
        ensures
            final(self).width == old(self).width + x,
            final(self).height == old(self).height + x,
    {
        self.width += x;
        self.height += x;
    }
}

} // verus!
