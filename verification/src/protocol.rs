//! Damage rectangles: the `Rect` type, clamping to a surface, and merging.

use vstd::prelude::*;

verus! {

/// Axis-aligned rectangle (x, y, w, h) in pixels.
///
/// Used for damage regions in SURFACE_COMMIT events.
/// All coordinates are relative to the surface origin (top-left).
#[derive(Debug, Clone, Copy, PartialEq, Eq, Structural)]
pub struct Rect {
    pub x: u16,
    pub y: u16,
    pub w: u16,
    pub h: u16,
}

/// The rectangle with the given fields.
pub open spec fn rect(x: int, y: int, w: int, h: int) -> Rect {
    Rect { x: x as u16, y: y as u16, w: w as u16, h: h as u16 }
}

/// A rectangle has zero area when its width or its height is zero.
pub open spec fn spec_is_zero(r: Rect) -> bool {
    r.w == 0 || r.h == 0
}

pub open spec fn min_int(a: int, b: int) -> int {
    if a <= b { a } else { b }
}

pub open spec fn max_int(a: int, b: int) -> int {
    if a >= b { a } else { b }
}

/// Right edge of `r`, saturating at `u16::MAX`.
pub open spec fn right_edge(r: Rect) -> int {
    min_int(r.x + r.w, u16::MAX as int)
}

/// Bottom edge of `r`, saturating at `u16::MAX`.
pub open spec fn bottom_edge(r: Rect) -> int {
    min_int(r.y + r.h, u16::MAX as int)
}

/// The damage region of a surface of size `sw` x `sh`: a zero-area damage
/// means the whole surface; otherwise the intersection of the damage with the
/// surface, or `None` when that intersection is empty.
pub open spec fn spec_clamp_damage(d: Rect, sw: u16, sh: u16) -> Option<Rect> {
    if spec_is_zero(d) {
        Some(Rect { x: 0, y: 0, w: sw, h: sh })
    } else if d.x >= sw || d.y >= sh {
        None
    } else {
        Some(rect(d.x as int, d.y as int,
            min_int(d.x + d.w, sw as int) - d.x,
            min_int(d.y + d.h, sh as int) - d.y))
    }
}

/// The bounding box of two rectangles; a zero-area operand is ignored.
/// Edges are measured with saturation at `u16::MAX`.
pub open spec fn spec_merge_damage(d1: Rect, d2: Rect) -> Rect {
    if spec_is_zero(d1) {
        d2
    } else if spec_is_zero(d2) {
        d1
    } else {
        let x = min_int(d1.x as int, d2.x as int);
        let y = min_int(d1.y as int, d2.y as int);
        rect(x, y,
            max_int(right_edge(d1), right_edge(d2)) - x,
            max_int(bottom_edge(d1), bottom_edge(d2)) - y)
    }
}

impl Rect {
    /// Creates a new rectangle.
    pub fn new(x: u16, y: u16, w: u16, h: u16) -> (r: Self)
        ensures
            r == (Rect { x, y, w, h }),
    {
        Self { x, y, w, h }
    }

    /// Creates a zero-sized rectangle at (0, 0).
    pub fn zero() -> (r: Self)
        ensures
            r == (Rect { x: 0, y: 0, w: 0, h: 0 }),
    {
        Self { x: 0, y: 0, w: 0, h: 0 }
    }

    /// True if the rectangle has zero area (w = 0 or h = 0).
    pub fn is_zero(&self) -> (b: bool)
        ensures
            b == spec_is_zero(*self),
    {
        self.w == 0 || self.h == 0
    }
}

fn min_u16(a: u16, b: u16) -> (r: u16)
    ensures
        r == min_int(a as int, b as int),
{
    if a <= b { a } else { b }
}

fn max_u16(a: u16, b: u16) -> (r: u16)
    ensures
        r == max_int(a as int, b as int),
{
    if a >= b { a } else { b }
}

/// Clamps a damage rectangle to the surface bounds.
///
/// A zero-sized damage (w = 0 or h = 0) means the full surface (Wayland
/// convention). If the clamped rectangle has zero area, returns `None`.
pub fn clamp_damage_to_surface(damage: Rect, surface_w: u16, surface_h: u16) -> (r: Option<Rect>)
    ensures
        r == spec_clamp_damage(damage, surface_w, surface_h),
{
    if damage.is_zero() {
        return Some(Rect::new(0, 0, surface_w, surface_h));
    }
    let x = min_u16(damage.x, surface_w);
    let y = min_u16(damage.y, surface_h);
    let x2 = min_u16(damage.x.saturating_add(damage.w), surface_w);
    let y2 = min_u16(damage.y.saturating_add(damage.h), surface_h);

    let w = x2.saturating_sub(x);
    let h = y2.saturating_sub(y);

    if w == 0 || h == 0 {
        None
    } else {
        Some(Rect::new(x, y, w, h))
    }
}

/// Merges two damage rectangles into their bounding rectangle.
/// If either is zero-sized, the other is returned.
pub fn merge_damage(d1: Rect, d2: Rect) -> (r: Rect)
    ensures
        r == spec_merge_damage(d1, d2),
{
    if d1.is_zero() {
        return d2;
    }
    if d2.is_zero() {
        return d1;
    }
    let x1 = min_u16(d1.x, d2.x);
    let y1 = min_u16(d1.y, d2.y);
    let x2 = max_u16(d1.x.saturating_add(d1.w), d2.x.saturating_add(d2.w));
    let y2 = max_u16(d1.y.saturating_add(d1.h), d2.y.saturating_add(d2.h));

    Rect::new(x1, y1, x2.saturating_sub(x1), y2.saturating_sub(y1))
}

/// A clamped damage lies within the surface; for a nonzero damage it is also
/// nonzero and lies within the damage.
pub proof fn lemma_clamp_within_surface_and_damage(d: Rect, sw: u16, sh: u16)
    ensures
        spec_clamp_damage(d, sw, sh) matches Some(r) ==> {
            &&& r.x + r.w <= sw
            &&& r.y + r.h <= sh
            &&& !spec_is_zero(d) ==> {
                &&& !spec_is_zero(r)
                &&& d.x <= r.x && r.x + r.w <= d.x + d.w
                &&& d.y <= r.y && r.y + r.h <= d.y + d.h
            }
        },
{
}

/// Clamping is idempotent: a clamped damage clamps to itself.
pub proof fn lemma_clamp_idempotent(d: Rect, sw: u16, sh: u16)
    ensures
        spec_clamp_damage(d, sw, sh) matches Some(r) ==> spec_clamp_damage(r, sw, sh) == Some(r),
{
}

/// A nonzero damage is dropped exactly when it starts at or beyond the
/// surface's right or bottom edge.
pub proof fn lemma_clamp_none_iff_outside(d: Rect, sw: u16, sh: u16)
    ensures
        spec_clamp_damage(d, sw, sh) is None <==> (!spec_is_zero(d) && (d.x >= sw || d.y >= sh)),
{
}

/// The merged rectangle encloses both operands (edges saturating at
/// `u16::MAX`) when neither is zero-sized.
pub proof fn lemma_merge_encloses(d1: Rect, d2: Rect)
    requires
        !spec_is_zero(d1),
        !spec_is_zero(d2),
    ensures
        ({
            let m = spec_merge_damage(d1, d2);
            &&& m.x <= d1.x && m.x <= d2.x
            &&& m.y <= d1.y && m.y <= d2.y
            &&& m.x + m.w >= right_edge(d1) && m.x + m.w >= right_edge(d2)
            &&& m.y + m.h >= bottom_edge(d1) && m.y + m.h >= bottom_edge(d2)
        }),
{
}

/// Merging is commutative unless both operands are zero-sized (then the
/// second operand is returned).
pub proof fn lemma_merge_commutative(d1: Rect, d2: Rect)
    requires
        !(spec_is_zero(d1) && spec_is_zero(d2)),
    ensures
        spec_merge_damage(d1, d2) == spec_merge_damage(d2, d1),
{
}

/// A zero-sized rectangle is an identity for merging.
pub proof fn lemma_merge_zero_identity(z: Rect, d: Rect)
    requires
        spec_is_zero(z),
    ensures
        spec_merge_damage(z, d) == d,
        !spec_is_zero(d) ==> spec_merge_damage(d, z) == d,
{
}

/// Merging a rectangle with itself gives it back when its edges do not
/// saturate.
pub proof fn lemma_merge_idempotent(d: Rect)
    requires
        d.x + d.w <= u16::MAX,
        d.y + d.h <= u16::MAX,
    ensures
        spec_merge_damage(d, d) == d,
{
}

} // verus!
