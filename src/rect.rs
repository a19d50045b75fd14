use vstd::prelude::*;

verus! {

/// An axis-aligned rectangle in screen space, origin at the top left.
#[derive(Debug, Clone, Copy, PartialEq, Eq, Structural)]
pub struct Rect {
    pub x: i32,
    pub y: i32,
    pub width: i32,
    pub height: i32,
}

/// The point is inside the rectangle, both edges included.
pub open spec fn rect_contains(r: Rect, px: int, py: int) -> bool {
    r.x <= px <= r.x + r.width && r.y <= py <= r.y + r.height
}

/// The rectangle after the border compensation: it grows by `bx` on both
/// horizontal sides and by `by` at the bottom only.
pub open spec fn border_adjusted(r: Rect, bx: int, by: int) -> (int, int, int, int) {
    (r.x - bx, r.y as int, r.width + 2 * bx, r.height + by)
}

/// The rectangle that `border_adjusted` describes.
pub open spec fn adjusted_rect(r: Rect, border: (i32, i32)) -> Rect {
    let (x, y, w, h) = border_adjusted(r, border.0 as int, border.1 as int);
    Rect { x: x as i32, y: y as i32, width: w as i32, height: h as i32 }
}

/// The values of `border_adjusted` all fit in `i32`.
pub open spec fn border_adjust_fits(r: Rect, bx: int, by: int) -> bool {
    let (x, y, w, h) = border_adjusted(r, bx, by);
    i32::MIN <= x <= i32::MAX && i32::MIN <= w <= i32::MAX && i32::MIN <= h <= i32::MAX
}

impl Rect {
    /// Inclusive containment: a point on the right or bottom edge is inside.
    pub fn contains_point(self, point: (i32, i32)) -> (r: bool)
        ensures
            r == rect_contains(self, point.0 as int, point.1 as int),
    {
        let px = point.0 as i64;
        let py = point.1 as i64;
        px >= self.x as i64 && px <= self.x as i64 + self.width as i64 && py >= self.y as i64
            && py <= self.y as i64 + self.height as i64
    }

    /// The empty rectangle at the origin.
    pub fn zero() -> (r: Rect)
        ensures
            r == (Rect { x: 0, y: 0, width: 0, height: 0 }),
    {
        Rect { x: 0, y: 0, width: 0, height: 0 }
    }

    /// Grows the rectangle by a window's transparent border: `x` moves left by
    /// `border.0`, the width grows by twice that, and the height grows by
    /// `border.1` while `y` stays.
    pub fn adjust_for_border(&mut self, border: (i32, i32))
        requires
            border_adjust_fits(*old(self), border.0 as int, border.1 as int),
        ensures
            ({
                let r = *final(self);
                (r.x as int, r.y as int, r.width as int, r.height as int)
            }) == border_adjusted(*old(self), border.0 as int, border.1 as int),
    {
        self.x = self.x - border.0;
        self.width = (self.width as i64 + border.0 as i64 * 2) as i32;
        self.height = self.height + border.1;
    }

    /// The rectangle grown by a transparent border as `adjust_for_border`
    /// does, or `None` where the result does not fit in `i32`.
    pub fn adjusted_for_border(self, border: (i32, i32)) -> (r: Option<Rect>)
        ensures
            r == (if border_adjust_fits(self, border.0 as int, border.1 as int) {
                Some(adjusted_rect(self, border))
            } else {
                None
            }),
    {
        let x = self.x as i64 - border.0 as i64;
        let width = self.width as i64 + border.0 as i64 * 2;
        let height = self.height as i64 + border.1 as i64;
        if x < i32::MIN as i64 || x > i32::MAX as i64 || width < i32::MIN as i64 || width
            > i32::MAX as i64 || height < i32::MIN as i64 || height > i32::MAX as i64 {
            None
        } else {
            let mut r = self;
            r.adjust_for_border(border);
            Some(r)
        }
    }

    /// The rectangle with the given left, top, right and bottom edges.
    pub fn from_corners(left: i32, top: i32, right: i32, bottom: i32) -> (r: Rect)
        requires
            i32::MIN <= right - left <= i32::MAX,
            i32::MIN <= bottom - top <= i32::MAX,
        ensures
            r.x == left,
            r.y == top,
            r.width == right - left,
            r.height == bottom - top,
    {
        Rect { x: left, y: top, width: right - left, height: bottom - top }
    }

    /// The right edge, `x + width`.
    pub fn right(self) -> (r: i32)
        requires
            i32::MIN <= self.x + self.width <= i32::MAX,
        ensures
            r == self.x + self.width,
    {
        self.x + self.width
    }

    /// The bottom edge, `y + height`.
    pub fn bottom(self) -> (r: i32)
        requires
            i32::MIN <= self.y + self.height <= i32::MAX,
        ensures
            r == self.y + self.height,
    {
        self.y + self.height
    }
}

/// The border thickness of a window as the sum of the gaps between its outer
/// rectangle and its client rectangle on each axis.
pub open spec fn border_between(window: Rect, client: Rect) -> (int, int) {
    (
        (window.x - client.x) + (window.width - client.width),
        (window.y - client.y) + (window.height - client.height),
    )
}

/// The transparent border of a window, from its outer and its client
/// rectangle: on each axis, the offset of the outer origin from the client
/// origin plus the difference of the sizes.
pub fn transparent_border(window: Rect, client: Rect) -> (r: (i32, i32))
    requires
        i32::MIN <= border_between(window, client).0 <= i32::MAX,
        i32::MIN <= border_between(window, client).1 <= i32::MAX,
    ensures
        (r.0 as int, r.1 as int) == border_between(window, client),
{
    let x = (window.x as i64 - client.x as i64) + (window.width as i64 - client.width as i64);
    let y = (window.y as i64 - client.y as i64) + (window.height as i64 - client.height as i64);
    (x as i32, y as i32)
}

/// The low 16 bits of a machine word.
#[allow(non_snake_case)]
pub fn LOWORD(l: usize) -> (r: u16)
    ensures
        r as int == l as int % 0x10000,
{
    let w = l & 0xffff;
    assert(l & 0xffff == l % 0x10000) by (bit_vector);
    w as u16
}

/// Bits 16 to 31 of a machine word.
#[allow(non_snake_case)]
pub fn HIWORD(l: usize) -> (r: u16)
    ensures
        r as int == (l as int / 0x10000) % 0x10000,
{
    let w = (l >> 16) & 0xffff;
    assert((l >> 16) & 0xffff == (l / 0x10000) % 0x10000) by (bit_vector);
    w as u16
}

} // verus!
