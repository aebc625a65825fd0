//! Rectangles in screen coordinates.

use vstd::prelude::*;

verus! {

/// A rectangle given by its four edges, in screen coordinates.
#[derive(Clone, Copy, Debug, PartialEq, Eq, Structural)]
pub struct Rect {
    pub left: i32,
    pub top: i32,
    pub right: i32,
    pub bottom: i32,
}

impl Rect {
    /// Width of the rectangle; negative where the edges are crossed.
    pub open spec fn spec_width(self) -> int {
        self.right - self.left
    }

    /// Height of the rectangle; negative where the edges are crossed.
    pub open spec fn spec_height(self) -> int {
        self.bottom - self.top
    }

    /// Left edge of this rectangle once it is centered in `outer`, keeping its size.
    pub open spec fn centered_left(self, outer: Rect) -> int {
        outer.left + outer.spec_width() / 2 - self.spec_width() / 2
    }

    /// Top edge of this rectangle once it is centered in `outer`, keeping its size.
    pub open spec fn centered_top(self, outer: Rect) -> int {
        outer.top + outer.spec_height() / 2 - self.spec_height() / 2
    }

    /// Whether the rectangle has no crossed edges.
    pub open spec fn is_ordered(self) -> bool {
        self.left <= self.right && self.top <= self.bottom
    }

    /// Whether this rectangle, centered in `outer`, still has edges that fit the coordinate type.
    pub open spec fn center_fits(self, outer: Rect) -> bool {
        &&& self.is_ordered()
        &&& outer.is_ordered()
        &&& i32::MIN <= self.centered_left(outer)
        &&& self.centered_left(outer) + self.spec_width() <= i32::MAX
        &&& i32::MIN <= self.centered_top(outer)
        &&& self.centered_top(outer) + self.spec_height() <= i32::MAX
    }

    /// This rectangle moved so that its center lies on the center of `outer`, size unchanged.
    pub open spec fn centered_in(self, outer: Rect) -> Rect {
        Rect {
            left: self.centered_left(outer) as i32,
            top: self.centered_top(outer) as i32,
            right: (self.centered_left(outer) + self.spec_width()) as i32,
            bottom: (self.centered_top(outer) + self.spec_height()) as i32,
        }
    }

    pub fn from_ltrb(left: i32, top: i32, right: i32, bottom: i32) -> (r: Rect)
        ensures
            r == (Rect { left, top, right, bottom }),
    {
        Rect { left, top, right, bottom }
    }

    pub fn width(&self) -> (w: i64)
        ensures
            w == self.spec_width(),
    {
        self.right as i64 - self.left as i64
    }

    pub fn height(&self) -> (h: i64)
        ensures
            h == self.spec_height(),
    {
        self.bottom as i64 - self.top as i64
    }

    /// Moves the rectangle onto the center of `outer` without resizing it.
    ///
    /// Yields nothing where an edge is crossed or a resulting edge would leave
    /// the coordinate range.
    pub fn translate_to_center(&self, outer: &Rect) -> (r: Option<Rect>)
        ensures
            r is Some <==> self.center_fits(*outer),
            r is Some ==> r->0 == self.centered_in(*outer),
            r is Some ==> r->0.spec_width() == self.spec_width() && r->0.spec_height()
                == self.spec_height(),
    {
        if self.left > self.right || self.top > self.bottom || outer.left > outer.right
            || outer.top > outer.bottom {
            return None;
        }
        let w: i64 = self.width();
        let h: i64 = self.height();
        let left: i64 = outer.left as i64 + outer.width() / 2 - w / 2;
        let top: i64 = outer.top as i64 + outer.height() / 2 - h / 2;
        let right: i64 = left + w;
        let bottom: i64 = top + h;
        if left < i32::MIN as i64 || right > i32::MAX as i64 || top < i32::MIN as i64 || bottom
            > i32::MAX as i64 {
            return None;
        }
        Some(Rect { left: left as i32, top: top as i32, right: right as i32, bottom: bottom as i32 })
    }
}

} // verus!
