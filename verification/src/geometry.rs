//! Device-pixel rectangles, DPI scaling and the hit tests built on them.
use vstd::prelude::*;

verus! {

/// Logical pixels per inch at 100% scaling.
pub const BASE_DPI: u32 = 96;

/// A point in device pixels.
#[derive(Clone, Copy, Debug, PartialEq, Eq, Structural, Default)]
pub struct Point {
    pub x: i32,
    pub y: i32,
}

/// A half-open device-pixel rectangle: `left..right` by `top..bottom`.
#[derive(Clone, Copy, Debug, PartialEq, Eq, Structural, Default)]
pub struct Rect {
    pub left: i32,
    pub top: i32,
    pub right: i32,
    pub bottom: i32,
}

/// A width and height in device pixels.
#[derive(Clone, Copy, Debug, PartialEq, Eq, Structural, Default)]
pub struct Size {
    pub cx: i32,
    pub cy: i32,
}

pub open spec fn max_int(a: int, b: int) -> int {
    if a >= b { a } else { b }
}

pub open spec fn min_int(a: int, b: int) -> int {
    if a <= b { a } else { b }
}

pub open spec fn fits_i32(v: int) -> bool {
    i32::MIN <= v <= i32::MAX
}

impl Rect {
    /// The differences `right - left` and `bottom - top` are representable.
    pub open spec fn extents_fit(self) -> bool {
        fits_i32(self.right - self.left) && fits_i32(self.bottom - self.top)
    }

    pub open spec fn spec_width(self) -> int {
        max_int(self.right - self.left, 0)
    }

    pub open spec fn spec_height(self) -> int {
        max_int(self.bottom - self.top, 0)
    }

    /// `inner` lies inside `self` and is not inverted.
    pub open spec fn contains_rect(self, inner: Rect) -> bool {
        &&& self.left <= inner.left
        &&& self.top <= inner.top
        &&& inner.right <= self.right
        &&& inner.bottom <= self.bottom
        &&& inner.left <= inner.right
        &&& inner.top <= inner.bottom
    }

    /// Horizontal extent, never negative.
    pub fn width(&self) -> (w: i32)
        requires
            fits_i32(self.right - self.left),
        ensures
            w == self.spec_width(),
    {
        let d = self.right - self.left;
        if d > 0 { d } else { 0 }
    }

    /// Vertical extent, never negative.
    pub fn height(&self) -> (h: i32)
        requires
            fits_i32(self.bottom - self.top),
        ensures
            h == self.spec_height(),
    {
        let d = self.bottom - self.top;
        if d > 0 { d } else { 0 }
    }

    /// Moves every edge inward; an edge never crosses its opposite edge.
    pub fn inset(self, horizontal: i32, vertical: i32) -> (r: Rect)
        requires
            fits_i32(self.left + horizontal),
            fits_i32(self.top + vertical),
            fits_i32(self.right - horizontal),
            fits_i32(self.bottom - vertical),
        ensures
            r.left == self.left + horizontal,
            r.top == self.top + vertical,
            r.right == max_int(self.right - horizontal, self.left + horizontal),
            r.bottom == max_int(self.bottom - vertical, self.top + vertical),
    {
        let left = self.left + horizontal;
        let top = self.top + vertical;
        let right = self.right - horizontal;
        let bottom = self.bottom - vertical;
        Rect {
            left,
            top,
            right: if right >= left { right } else { left },
            bottom: if bottom >= top { bottom } else { top },
        }
    }
}

/// The two rectangles overlap in a region of positive area.
pub open spec fn spec_intersects(a: Rect, b: Rect) -> bool {
    a.left < b.right && a.right > b.left && a.top < b.bottom && a.bottom > b.top
}

/// Whether two rectangles share any pixel.
pub fn intersects(left: &Rect, right: &Rect) -> (b: bool)
    ensures
        b == spec_intersects(*left, *right),
{
    left.left < right.right && left.right > right.left && left.top < right.bottom && left.bottom
        > right.top
}

/// The overlap of two rectangles, before the empty check.
pub open spec fn spec_overlap(a: Rect, b: Rect) -> Rect {
    Rect {
        left: max_int(a.left as int, b.left as int) as i32,
        top: max_int(a.top as int, b.top as int) as i32,
        right: min_int(a.right as int, b.right as int) as i32,
        bottom: min_int(a.bottom as int, b.bottom as int) as i32,
    }
}

/// The overlap of two rectangles when it has positive area.
pub fn intersection(left: Rect, right: Rect) -> (r: Option<Rect>)
    requires
        spec_overlap(left, right).extents_fit(),
    ensures
        r == (if spec_overlap(left, right).spec_width() > 0 && spec_overlap(
            left,
            right,
        ).spec_height() > 0 {
            Some(spec_overlap(left, right))
        } else {
            None
        }),
{
    let rect = Rect {
        left: if left.left >= right.left { left.left } else { right.left },
        top: if left.top >= right.top { left.top } else { right.top },
        right: if left.right <= right.right { left.right } else { right.right },
        bottom: if left.bottom <= right.bottom { left.bottom } else { right.bottom },
    };
    if rect.width() > 0 && rect.height() > 0 {
        Some(rect)
    } else {
        None
    }
}

/// Half-open point containment.
pub open spec fn spec_contains(rectangle: Rect, point: Point) -> bool {
    rectangle.left <= point.x < rectangle.right && rectangle.top <= point.y < rectangle.bottom
}

/// Whether `point` lies inside `rectangle` (right and bottom edges excluded).
pub fn contains(rectangle: Rect, point: Point) -> (b: bool)
    ensures
        b == spec_contains(rectangle, point),
{
    point.x >= rectangle.left && point.x < rectangle.right && point.y >= rectangle.top && point.y
        < rectangle.bottom
}

/// `value * dpi / 96`, rounded half away from zero, saturated to `i32`.
pub open spec fn spec_scale_dip(value: int, dpi: int) -> int {
    let product = value * dpi;
    let rounded = if product >= 0 {
        (product + 48) / 96
    } else {
        -((-product + 48) / 96)
    };
    if rounded > i32::MAX {
        i32::MAX as int
    } else if rounded < i32::MIN {
        i32::MIN as int
    } else {
        rounded
    }
}

/// Converts device-independent pixels to device pixels at `dpi`.
pub fn scale_dip(value: i32, dpi: u32) -> (r: i32)
    ensures
        r == spec_scale_dip(value as int, dpi as int),
{
    let v = value as i64;
    let d = dpi as i64;
    assert(-0x8000_0000 * 0xffff_ffff <= v * d <= 0x7fff_ffff * 0xffff_ffff) by (nonlinear_arith)
        requires
            -0x8000_0000 <= v <= 0x7fff_ffff,
            0 <= d <= 0xffff_ffff,
    ;
    let product = v * d;
    let rounded = if product >= 0 {
        (product + 48) / 96
    } else {
        -((-product + 48) / 96)
    };
    if rounded > i32::MAX as i64 {
        i32::MAX
    } else if rounded < i32::MIN as i64 {
        i32::MIN
    } else {
        rounded as i32
    }
}

/// Scaling is monotone in the logical value.
pub proof fn lemma_scale_dip_monotone(a: int, b: int, dpi: int)
    requires
        a <= b,
        0 <= dpi,
    ensures
        spec_scale_dip(a, dpi) <= spec_scale_dip(b, dpi),
{
    assert(a * dpi <= b * dpi) by (nonlinear_arith)
        requires
            a <= b,
            0 <= dpi,
    ;
    let pa = a * dpi;
    let pb = b * dpi;
    if pa >= 0 {
        assert((pa + 48) / 96 <= (pb + 48) / 96) by (nonlinear_arith)
            requires
                0 <= pa <= pb,
        ;
    } else if pb >= 0 {
        assert(-((-pa + 48) / 96) <= 0);
        assert(0 <= (pb + 48) / 96);
    } else {
        assert((-pb + 48) / 96 <= (-pa + 48) / 96) by (nonlinear_arith)
            requires
                0 <= -pb <= -pa,
        ;
    }
}

} // verus!
