//! Geometry primitives shared by the menu core and the backends. All
//! coordinates are root/window-space `i32` pixels.
use vstd::prelude::*;

verus! {

/// A position in two-dimensional space.
#[derive(Debug, Clone, Copy, PartialEq, Eq, Structural)]
pub struct Point {
    pub x: i32,
    pub y: i32,
}

impl Default for Point {
    fn default() -> (p: Self)
        ensures
            p.x == 0 && p.y == 0,
    {
        Point { x: 0, y: 0 }
    }
}

impl Point {
    pub fn new(x: i32, y: i32) -> (p: Self)
        ensures
            p.x == x,
            p.y == y,
    {
        Point { x, y }
    }

    /// Clamp both axes to be non-negative.
    pub fn clamp_non_negative(self) -> (p: Self)
        ensures
            p.x == (if self.x < 0 { 0 } else { self.x }),
            p.y == (if self.y < 0 { 0 } else { self.y }),
    {
        Point { x: if self.x < 0 { 0 } else { self.x }, y: if self.y < 0 { 0 } else { self.y } }
    }
}

/// A width/height pair.
#[derive(Debug, Clone, Copy, PartialEq, Eq, Structural)]
pub struct Size {
    pub w: i32,
    pub h: i32,
}

impl Default for Size {
    fn default() -> (s: Self)
        ensures
            s.w == 0 && s.h == 0,
    {
        Size { w: 0, h: 0 }
    }
}

impl Size {
    pub fn new(w: i32, h: i32) -> (s: Self)
        ensures
            s.w == w,
            s.h == h,
    {
        Size { w, h }
    }
}

/// An axis-aligned rectangle: top-left corner plus size.
#[derive(Debug, Clone, Copy, PartialEq, Eq, Structural)]
pub struct Rect {
    pub x: i32,
    pub y: i32,
    pub w: i32,
    pub h: i32,
}

impl Default for Rect {
    fn default() -> (r: Self)
        ensures
            r.x == 0 && r.y == 0 && r.w == 0 && r.h == 0,
    {
        Rect { x: 0, y: 0, w: 0, h: 0 }
    }
}

pub open spec fn fits_i32(v: int) -> bool {
    i32::MIN <= v <= i32::MAX
}

pub open spec fn min_i(a: int, b: int) -> int {
    if a < b {
        a
    } else {
        b
    }
}

pub open spec fn max_i(a: int, b: int) -> int {
    if a > b {
        a
    } else {
        b
    }
}

impl Rect {
    /// Both edges fit an `i32`.
    pub open spec fn edges_fit(self) -> bool {
        fits_i32(self.x + self.w) && fits_i32(self.y + self.h)
    }

    /// Overlap width and height with `other` (0 when disjoint on that axis).
    pub open spec fn overlap_w(self, other: Rect) -> int {
        max_i(0, min_i(self.x + self.w, other.x + other.w) - max_i(self.x as int, other.x as int))
    }

    pub open spec fn overlap_h(self, other: Rect) -> int {
        max_i(0, min_i(self.y + self.h, other.y + other.h) - max_i(self.y as int, other.y as int))
    }

    pub fn new(x: i32, y: i32, w: i32, h: i32) -> (r: Self)
        ensures
            r.x == x && r.y == y && r.w == w && r.h == h,
    {
        Rect { x, y, w, h }
    }

    /// The zero-origin rectangle of the given size.
    pub fn with_size(size: Size) -> (r: Self)
        ensures
            r.x == 0 && r.y == 0 && r.w == size.w && r.h == size.h,
    {
        Rect { x: 0, y: 0, w: size.w, h: size.h }
    }

    pub fn origin(self) -> (p: Point)
        ensures
            p.x == self.x && p.y == self.y,
    {
        Point::new(self.x, self.y)
    }

    pub fn size(self) -> (s: Size)
        ensures
            s.w == self.w && s.h == self.h,
    {
        Size::new(self.w, self.h)
    }

    /// Exclusive right edge.
    pub fn right(self) -> (r: i32)
        requires
            fits_i32(self.x + self.w),
        ensures
            r == self.x + self.w,
    {
        self.x + self.w
    }

    /// Exclusive bottom edge.
    pub fn bottom(self) -> (b: i32)
        requires
            fits_i32(self.y + self.h),
        ensures
            b == self.y + self.h,
    {
        self.y + self.h
    }

    /// Inclusive-bounds hit test (`x <= p.x <= x + w`, likewise for y).
    pub fn contains(self, p: Point) -> (b: bool)
        requires
            self.edges_fit(),
        ensures
            b == (self.x <= p.x <= self.x + self.w && self.y <= p.y <= self.y + self.h),
    {
        p.x >= self.x && p.x <= self.right() && p.y >= self.y && p.y <= self.bottom()
    }

    /// Half-open hit test (`x <= p.x < x + w`, likewise for y): a point on a
    /// shared edge belongs to the left/top rectangle only.
    pub fn contains_exclusive(self, p: Point) -> (b: bool)
        requires
            self.edges_fit(),
        ensures
            b == (self.x <= p.x < self.x + self.w && self.y <= p.y < self.y + self.h),
    {
        p.x >= self.x && p.x < self.right() && p.y >= self.y && p.y < self.bottom()
    }

    /// Overlap area with `other`; 0 when disjoint.
    pub fn intersect_area(self, other: Rect) -> (a: i32)
        requires
            self.edges_fit(),
            other.edges_fit(),
            fits_i32(self.overlap_w(other) * self.overlap_h(other)),
        ensures
            a == self.overlap_w(other) * self.overlap_h(other),
    {
        let r = if self.right() < other.right() { self.right() } else { other.right() };
        let l = if self.x > other.x { self.x } else { other.x };
        let b = if self.bottom() < other.bottom() { self.bottom() } else { other.bottom() };
        let t = if self.y > other.y { self.y } else { other.y };
        let w: i64 = if (r as i64) - (l as i64) > 0 { (r as i64) - (l as i64) } else { 0 };
        let h: i64 = if (b as i64) - (t as i64) > 0 { (b as i64) - (t as i64) } else { 0 };
        assert(0 <= w <= 0x1_0000_0000);
        assert(0 <= h <= 0x1_0000_0000);
        assert(w * h <= 0x1_0000_0000 * 0x1_0000_0000) by (nonlinear_arith)
            requires
                0 <= w <= 0x1_0000_0000,
                0 <= h <= 0x1_0000_0000,
        ;
        (w * h) as i32
    }
}

} // verus!
