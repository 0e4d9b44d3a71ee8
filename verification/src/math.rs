//! Integer point, vector and bounds arithmetic for film sample regions.
//!
//! `inside_2d` includes both corners, `inside_exclusive_2d` excludes the
//! maximum corner: the two membership tests a tiled pixel raster needs.
use vstd::prelude::*;

verus! {

/// The smaller of two coordinates.
pub fn min(lhs: i32, rhs: i32) -> (r: i32)
    ensures
        r == if lhs <= rhs { lhs } else { rhs },
{
    if lhs <= rhs {
        lhs
    } else {
        rhs
    }
}

/// The larger of two coordinates.
pub fn max(lhs: i32, rhs: i32) -> (r: i32)
    ensures
        r == if lhs >= rhs { lhs } else { rhs },
{
    if lhs >= rhs {
        lhs
    } else {
        rhs
    }
}

/// `v` forced into the closed interval `[lo, hi]`.
pub open spec fn clamp_i32(v: int, lo: int, hi: int) -> int {
    if v <= lo {
        lo
    } else if v >= hi {
        hi
    } else {
        v
    }
}

/// Force `v` into the closed interval `[lo, hi]`.
pub fn clamp(v: i32, lo: i32, hi: i32) -> (r: i32)
    requires
        lo <= hi,
    ensures
        r == clamp_i32(v as int, lo as int, hi as int),
        lo <= r <= hi,
{
    if v <= lo {
        lo
    } else if v >= hi {
        hi
    } else {
        v
    }
}

/// A two-component integer vector.
#[derive(Clone, Copy, PartialEq, Eq, Structural, Debug)]
pub struct Vec2i {
    pub x: i32,
    pub y: i32,
}

impl Vec2i {
    pub fn new(x: i32, y: i32) -> (r: Vec2i)
        ensures
            r.x == x,
            r.y == y,
    {
        Vec2i { x, y }
    }
}

/// A two-component integer point, used for pixel coordinates.
#[derive(Clone, Copy, PartialEq, Eq, Structural, Debug)]
pub struct Point2i {
    pub x: i32,
    pub y: i32,
}

impl Point2i {
    pub fn new(x: i32, y: i32) -> (r: Point2i)
        ensures
            r.x == x,
            r.y == y,
    {
        Point2i { x, y }
    }
}

/// An axis-aligned integer rectangle given by its minimum and maximum corner.
#[derive(Clone, Copy, PartialEq, Eq, Structural, Debug)]
pub struct Bounds2Di {
    pub min: Point2i,
    pub max: Point2i,
}

/// Membership with both corners included.
pub open spec fn spec_inside_2d(p: Point2i, b: Bounds2Di) -> bool {
    p.x >= b.min.x && p.x <= b.max.x && p.y >= b.min.y && p.y <= b.max.y
}

/// Membership with the maximum corner excluded, the test a pixel raster uses.
pub open spec fn spec_inside_exclusive_2d(p: Point2i, b: Bounds2Di) -> bool {
    p.x >= b.min.x && p.x < b.max.x && p.y >= b.min.y && p.y < b.max.y
}

/// The two rectangles share no raster position: they are separated along
/// some axis.
pub open spec fn bounds_disjoint_2d(a: Bounds2Di, b: Bounds2Di) -> bool {
    a.max.x <= b.min.x || b.max.x <= a.min.x || a.max.y <= b.min.y || b.max.y <= a.min.y
}

/// Both corners of `inner` lie inside `outer` (so does every point between).
pub open spec fn bounds_contains_2d(outer: Bounds2Di, inner: Bounds2Di) -> bool {
    outer.min.x <= inner.min.x && outer.min.y <= inner.min.y && inner.max.x <= outer.max.x
        && inner.max.y <= outer.max.y
}

/// The componentwise min/max envelope of two bounds.
pub open spec fn spec_union_2d(b1: Bounds2Di, b2: Bounds2Di) -> Bounds2Di {
    Bounds2Di {
        min: Point2i {
            x: if b1.min.x <= b2.min.x { b1.min.x } else { b2.min.x },
            y: if b1.min.y <= b2.min.y { b1.min.y } else { b2.min.y },
        },
        max: Point2i {
            x: if b1.max.x >= b2.max.x { b1.max.x } else { b2.max.x },
            y: if b1.max.y >= b2.max.y { b1.max.y } else { b2.max.y },
        },
    }
}

/// The componentwise max/min common region of two bounds.
pub open spec fn spec_intersect_2d(b1: Bounds2Di, b2: Bounds2Di) -> Bounds2Di {
    Bounds2Di {
        min: Point2i {
            x: if b1.min.x >= b2.min.x { b1.min.x } else { b2.min.x },
            y: if b1.min.y >= b2.min.y { b1.min.y } else { b2.min.y },
        },
        max: Point2i {
            x: if b1.max.x <= b2.max.x { b1.max.x } else { b2.max.x },
            y: if b1.max.y <= b2.max.y { b1.max.y } else { b2.max.y },
        },
    }
}

impl Bounds2Di {
    /// The vector from the minimum to the maximum corner.
    pub fn diagonal(&self) -> (r: Vec2i)
        requires
            self.max.x - self.min.x <= i32::MAX,
            self.max.y - self.min.y <= i32::MAX,
            i32::MIN <= self.max.x - self.min.x,
            i32::MIN <= self.max.y - self.min.y,
        ensures
            r.x == self.max.x - self.min.x,
            r.y == self.max.y - self.min.y,
    {
        Vec2i { x: self.max.x - self.min.x, y: self.max.y - self.min.y }
    }

    /// The degenerate bounds holding the single point `p`.
    pub fn from_point(p: Point2i) -> (r: Bounds2Di)
        ensures
            r.min == p,
            r.max == p,
    {
        Bounds2Di { min: p, max: p }
    }

    /// The smallest bounds with both `p1` and `p2` inside.
    pub fn from_two_points(p1: Point2i, p2: Point2i) -> (r: Bounds2Di)
        ensures
            r == spec_union_2d(
                Bounds2Di { min: p1, max: p1 },
                Bounds2Di { min: p2, max: p2 },
            ),
            spec_inside_2d(p1, r) && spec_inside_2d(p2, r),
    {
        Bounds2Di {
            min: Point2i { x: min(p1.x, p2.x), y: min(p1.y, p2.y) },
            max: Point2i { x: max(p1.x, p2.x), y: max(p1.y, p2.y) },
        }
    }

    /// The axis along which the bounds extend the furthest: 0 for x, 1 for y.
    pub fn maximum_extent(&self) -> (r: i32)
        requires
            self.max.x - self.min.x <= i32::MAX,
            self.max.y - self.min.y <= i32::MAX,
            i32::MIN <= self.max.x - self.min.x,
            i32::MIN <= self.max.y - self.min.y,
        ensures
            r == if self.max.x - self.min.x > self.max.y - self.min.y {
                0int
            } else {
                1int
            },
    {
        let d = self.diagonal();
        if d.x > d.y {
            0
        } else {
            1
        }
    }
}

impl Default for Bounds2Di {
    /// The empty envelope: the identity of `union_2d_with_point`, shrunk so
    /// far that any union with a point snaps both corners to that point.
    fn default() -> (r: Bounds2Di)
        ensures
            r.min.x == i32::MAX,
            r.min.y == i32::MAX,
            r.max.x == i32::MIN,
            r.max.y == i32::MIN,
    {
        Bounds2Di {
            min: Point2i { x: i32::MAX, y: i32::MAX },
            max: Point2i { x: i32::MIN, y: i32::MIN },
        }
    }
}

/// Grow `b` just enough to take in the point `p`.
pub fn union_2d_with_point(b: &Bounds2Di, p: &Vec2i) -> (r: Bounds2Di)
    ensures
        r == spec_union_2d(
            *b,
            Bounds2Di { min: Point2i { x: p.x, y: p.y }, max: Point2i { x: p.x, y: p.y } },
        ),
        bounds_contains_2d(r, *b),
        spec_inside_2d(Point2i { x: p.x, y: p.y }, r),
{
    Bounds2Di {
        min: Point2i { x: min(b.min.x, p.x), y: min(b.min.y, p.y) },
        max: Point2i { x: max(b.max.x, p.x), y: max(b.max.y, p.y) },
    }
}

/// The smallest rectangle with both inputs inside it.
pub fn union_bounds_2d(b1: &Bounds2Di, b2: &Bounds2Di) -> (r: Bounds2Di)
    ensures
        r == spec_union_2d(*b1, *b2),
        bounds_contains_2d(r, *b1),
        bounds_contains_2d(r, *b2),
{
    Bounds2Di {
        min: Point2i { x: min(b1.min.x, b2.min.x), y: min(b1.min.y, b2.min.y) },
        max: Point2i { x: max(b1.max.x, b2.max.x), y: max(b1.max.y, b2.max.y) },
    }
}

/// The common region of two bounds; when they do not overlap the result has
/// `min` past `max` on some axis and holds no point.
pub fn intersect_2d(b1: &Bounds2Di, b2: &Bounds2Di) -> (r: Bounds2Di)
    ensures
        r == spec_intersect_2d(*b1, *b2),
        forall|p: Point2i| spec_inside_2d(p, r) <==> spec_inside_2d(p, *b1) && spec_inside_2d(
            p,
            *b2,
        ),
{
    Bounds2Di {
        min: Point2i { x: max(b1.min.x, b2.min.x), y: max(b1.min.y, b2.min.y) },
        max: Point2i { x: min(b1.max.x, b2.max.x), y: min(b1.max.y, b2.max.y) },
    }
}

/// Whether the two bounds share at least one point.
pub fn overlaps_2d(b1: &Bounds2Di, b2: &Bounds2Di) -> (r: bool)
    ensures
        r == (b1.max.x >= b2.min.x && b1.min.x <= b2.max.x && b1.max.y >= b2.min.y && b1.min.y
            <= b2.max.y),
{
    let x = (b1.max.x >= b2.min.x) && (b1.min.x <= b2.max.x);
    let y = (b1.max.y >= b2.min.y) && (b1.min.y <= b2.max.y);
    x && y
}

/// Membership with both corners included.
pub fn inside_2d(p: &Point2i, b: &Bounds2Di) -> (r: bool)
    ensures
        r == spec_inside_2d(*p, *b),
{
    p.x >= b.min.x && p.x <= b.max.x && p.y >= b.min.y && p.y <= b.max.y
}

/// Membership with the maximum corner excluded.
pub fn inside_exclusive_2d(p: &Point2i, b: &Bounds2Di) -> (r: bool)
    ensures
        r == spec_inside_exclusive_2d(*p, *b),
{
    p.x >= b.min.x && p.x < b.max.x && p.y >= b.min.y && p.y < b.max.y
}

/// Pad the bounds by `delta` on every side.
pub fn expand_2d(b: &Bounds2Di, delta: i32) -> (r: Bounds2Di)
    requires
        i32::MIN <= b.min.x - delta <= i32::MAX,
        i32::MIN <= b.min.y - delta <= i32::MAX,
        i32::MIN <= b.max.x + delta <= i32::MAX,
        i32::MIN <= b.max.y + delta <= i32::MAX,
    ensures
        r.min.x == b.min.x - delta,
        r.min.y == b.min.y - delta,
        r.max.x == b.max.x + delta,
        r.max.y == b.max.y + delta,
{
    Bounds2Di {
        min: Point2i { x: b.min.x - delta, y: b.min.y - delta },
        max: Point2i { x: b.max.x + delta, y: b.max.y + delta },
    }
}

/// The envelope of two bounds does not depend on their order.
pub proof fn lemma_union_2d_commutative(b1: Bounds2Di, b2: Bounds2Di)
    ensures
        spec_union_2d(b1, b2) == spec_union_2d(b2, b1),
{
}

/// Enveloping three bounds gives the same rectangle whichever pair is
/// enveloped first.
pub proof fn lemma_union_2d_associative(b1: Bounds2Di, b2: Bounds2Di, b3: Bounds2Di)
    ensures
        spec_union_2d(spec_union_2d(b1, b2), b3) == spec_union_2d(b1, spec_union_2d(b2, b3)),
{
}

/// Every point of either input lies in the envelope.
pub proof fn lemma_union_2d_contains(b1: Bounds2Di, b2: Bounds2Di, p: Point2i)
    requires
        spec_inside_2d(p, b1) || spec_inside_2d(p, b2),
    ensures
        spec_inside_2d(p, spec_union_2d(b1, b2)),
{
}

/// Rectangles separated along an axis hold no raster position in common.
pub proof fn lemma_disjoint_2d_no_common_point(a: Bounds2Di, b: Bounds2Di, p: Point2i)
    requires
        bounds_disjoint_2d(a, b),
    ensures
        !(spec_inside_exclusive_2d(p, a) && spec_inside_exclusive_2d(p, b)),
{
}

} // verus!
