//! The intersection core's geometric model, over exact integer coordinates.
//!
//! The renderer's own boxes and hit distances are floating point, but the
//! rules that make its acceleration structure correct are arithmetic, not
//! numeric: a box union is a componentwise envelope, the nearest hit of a
//! tree of primitives is the nearest hit of the flat list however the list
//! is split, and a rotation by angle zero moves nothing. This module states
//! and proves those rules over `i64` coordinates, where every comparison is
//! exact.
use vstd::prelude::*;

verus! {

/// A three-component integer vector.
#[derive(Clone, Copy, PartialEq, Eq, Structural, Debug)]
pub struct Vec3i {
    pub x: i64,
    pub y: i64,
    pub z: i64,
}

/// An axis-aligned box given by its minimum and maximum corner.
#[derive(Clone, Copy, PartialEq, Eq, Structural, Debug)]
pub struct AABB {
    pub min: Vec3i,
    pub max: Vec3i,
}

/// Membership with both corners included.
pub open spec fn spec_inside_3d(p: Vec3i, b: AABB) -> bool {
    &&& b.min.x <= p.x <= b.max.x
    &&& b.min.y <= p.y <= b.max.y
    &&& b.min.z <= p.z <= b.max.z
}

/// Both corners of `inner` lie inside `outer` (so does every point between).
pub open spec fn aabb_contains(outer: AABB, inner: AABB) -> bool {
    &&& outer.min.x <= inner.min.x && inner.max.x <= outer.max.x
    &&& outer.min.y <= inner.min.y && inner.max.y <= outer.max.y
    &&& outer.min.z <= inner.min.z && inner.max.z <= outer.max.z
}

/// The componentwise min/max envelope of two boxes.
pub open spec fn spec_surrounding_box(a: AABB, b: AABB) -> AABB {
    AABB {
        min: Vec3i {
            x: if a.min.x <= b.min.x { a.min.x } else { b.min.x },
            y: if a.min.y <= b.min.y { a.min.y } else { b.min.y },
            z: if a.min.z <= b.min.z { a.min.z } else { b.min.z },
        },
        max: Vec3i {
            x: if a.max.x >= b.max.x { a.max.x } else { b.max.x },
            y: if a.max.y >= b.max.y { a.max.y } else { b.max.y },
            z: if a.max.z >= b.max.z { a.max.z } else { b.max.z },
        },
    }
}

/// The smallest box with both inputs inside it, built bottom-up during
/// acceleration-structure construction.
pub fn surrounding_box(box0: AABB, box1: AABB) -> (r: AABB)
    ensures
        r == spec_surrounding_box(box0, box1),
        aabb_contains(r, box0),
        aabb_contains(r, box1),
{
    AABB {
        min: Vec3i {
            x: if box0.min.x <= box1.min.x {
                box0.min.x
            } else {
                box1.min.x
            },
            y: if box0.min.y <= box1.min.y {
                box0.min.y
            } else {
                box1.min.y
            },
            z: if box0.min.z <= box1.min.z {
                box0.min.z
            } else {
                box1.min.z
            },
        },
        max: Vec3i {
            x: if box0.max.x >= box1.max.x {
                box0.max.x
            } else {
                box1.max.x
            },
            y: if box0.max.y >= box1.max.y {
                box0.max.y
            } else {
                box1.max.y
            },
            z: if box0.max.z >= box1.max.z {
                box0.max.z
            } else {
                box1.max.z
            },
        },
    }
}

/// The envelope of two boxes does not depend on their order.
pub proof fn lemma_surrounding_box_commutative(a: AABB, b: AABB)
    ensures
        spec_surrounding_box(a, b) == spec_surrounding_box(b, a),
{
}

/// Enveloping three boxes gives the same box whichever pair is enveloped
/// first.
pub proof fn lemma_surrounding_box_associative(a: AABB, b: AABB, c: AABB)
    ensures
        spec_surrounding_box(spec_surrounding_box(a, b), c) == spec_surrounding_box(
            a,
            spec_surrounding_box(b, c),
        ),
{
}

/// Every point of either input lies in the envelope.
pub proof fn lemma_surrounding_box_contains_point(a: AABB, b: AABB, p: Vec3i)
    requires
        spec_inside_3d(p, a) || spec_inside_3d(p, b),
    ensures
        spec_inside_3d(p, spec_surrounding_box(a, b)),
{
}

/// The ray parameter `p / q` lies strictly inside all three slab intervals
/// and the query interval: the brute-force criterion for the ray's segment
/// to pass through the box.
pub open spec fn spec_param_inside(
    p: int,
    q: int,
    x0: int,
    x1: int,
    y0: int,
    y1: int,
    z0: int,
    z1: int,
    t_min: int,
    t_max: int,
) -> bool {
    &&& q > 0
    &&& x0 * q < p < x1 * q
    &&& y0 * q < p < y1 * q
    &&& z0 * q < p < z1 * q
    &&& t_min * q < p < t_max * q
}

/// A product inequality with a positive factor preserves the order of the
/// factors.
proof fn lemma_cancel_positive_factor(a: int, b: int, q: int)
    by (nonlinear_arith)
    requires
        q > 0,
        a * q < b * q,
    ensures
        a < b,
{
}

/// Multiplying both sides of an order by a positive factor keeps it.
proof fn lemma_scale_positive_factor(a: int, b: int, q: int)
    by (nonlinear_arith)
    requires
        q > 0,
        a <= b,
    ensures
        a * q <= b * q,
{
}

/// The slab test: shrink the query interval by each axis's entry/exit
/// interval in turn, and report a hit exactly when something is left. The
/// result agrees with the brute-force check for a ray parameter inside
/// every slab — the intervals overlap strictly if and only if such a
/// parameter exists.
pub fn slab_hit(
    x0: i64,
    x1: i64,
    y0: i64,
    y1: i64,
    z0: i64,
    z1: i64,
    t_min: i64,
    t_max: i64,
) -> (r: bool)
    ensures
        r <==> exists|p: int, q: int|
            spec_param_inside(
                p,
                q,
                x0 as int,
                x1 as int,
                y0 as int,
                y1 as int,
                z0 as int,
                z1 as int,
                t_min as int,
                t_max as int,
            ),
{
    let mut t_lo = t_min;
    let mut t_hi = t_max;
    if x0 > t_lo {
        t_lo = x0;
    }
    if x1 < t_hi {
        t_hi = x1;
    }
    if y0 > t_lo {
        t_lo = y0;
    }
    if y1 < t_hi {
        t_hi = y1;
    }
    if z0 > t_lo {
        t_lo = z0;
    }
    if z1 < t_hi {
        t_hi = z1;
    }
    if t_hi <= t_lo {
        proof {
            assert(!(exists|p: int, q: int|
                spec_param_inside(
                    p,
                    q,
                    x0 as int,
                    x1 as int,
                    y0 as int,
                    y1 as int,
                    z0 as int,
                    z1 as int,
                    t_min as int,
                    t_max as int,
                ))) by {
                if exists|p: int, q: int|
                    spec_param_inside(
                        p,
                        q,
                        x0 as int,
                        x1 as int,
                        y0 as int,
                        y1 as int,
                        z0 as int,
                        z1 as int,
                        t_min as int,
                        t_max as int,
                    ) {
                    let (p, q) = choose|p: int, q: int|
                        spec_param_inside(
                            p,
                            q,
                            x0 as int,
                            x1 as int,
                            y0 as int,
                            y1 as int,
                            z0 as int,
                            z1 as int,
                            t_min as int,
                            t_max as int,
                        );
                    assert(t_lo * q < p);
                    assert(p < t_hi * q);
                    lemma_cancel_positive_factor(t_lo as int, t_hi as int, q);
                }
            }
        }
        return false;
    }
    proof {
        let ghost p = t_lo as int + t_hi as int;
        assert(t_lo * 2 < p && p < t_hi * 2);
        lemma_scale_positive_factor(t_min as int, t_lo as int, 2);
        lemma_scale_positive_factor(x0 as int, t_lo as int, 2);
        lemma_scale_positive_factor(y0 as int, t_lo as int, 2);
        lemma_scale_positive_factor(z0 as int, t_lo as int, 2);
        lemma_scale_positive_factor(t_hi as int, t_max as int, 2);
        lemma_scale_positive_factor(t_hi as int, x1 as int, 2);
        lemma_scale_positive_factor(t_hi as int, y1 as int, 2);
        lemma_scale_positive_factor(t_hi as int, z1 as int, 2);
        assert(spec_param_inside(
            p,
            2,
            x0 as int,
            x1 as int,
            y0 as int,
            y1 as int,
            z0 as int,
            z1 as int,
            t_min as int,
            t_max as int,
        ));
    }
    true
}

/// A hit in the integer model: the distance along the ray and which
/// primitive was struck.
#[derive(Clone, Copy, PartialEq, Eq, Structural, Debug)]
pub struct HitRecord {
    pub t: i64,
    pub primitive: usize,
}

/// The nearer of two optional hits; the first wins an exact tie. This is
/// the one combination rule of both the flat list and the tree.
pub open spec fn spec_nearer(a: Option<HitRecord>, b: Option<HitRecord>) -> Option<HitRecord> {
    match (a, b) {
        (Some(ra), Some(rb)) => if ra.t <= rb.t {
            a
        } else {
            b
        },
        (Some(_), None) => a,
        (None, _) => b,
    }
}

/// The nearest hit of a whole list, scanned front to back: what the flat
/// list aggregate returns by shrinking its upper distance bound as it goes.
pub open spec fn spec_nearest(hits: Seq<Option<HitRecord>>) -> Option<HitRecord>
    decreases hits.len(),
{
    if hits.len() == 0 {
        None
    } else {
        spec_nearer(hits[0], spec_nearest(hits.drop_first()))
    }
}

/// Taking the nearer of two hits is associative, so hits may be combined in
/// any grouping.
pub proof fn lemma_nearer_associative(
    a: Option<HitRecord>,
    b: Option<HitRecord>,
    c: Option<HitRecord>,
)
    ensures
        spec_nearer(spec_nearer(a, b), c) == spec_nearer(a, spec_nearer(b, c)),
{
}

/// Splitting the primitive list anywhere and combining each side's nearest
/// hit gives the flat scan's nearest hit: the recombination a tree node
/// performs at every level returns what the unaccelerated scan returns.
pub proof fn lemma_nearest_split(hits: Seq<Option<HitRecord>>, k: int)
    requires
        0 <= k <= hits.len(),
    ensures
        spec_nearest(hits) == spec_nearer(
            spec_nearest(hits.take(k)),
            spec_nearest(hits.skip(k)),
        ),
    decreases k,
{
    if k == 0 {
        assert(hits.take(0).len() == 0);
        assert(hits.skip(0) =~= hits);
    } else {
        let rest = hits.drop_first();
        lemma_nearest_split(rest, k - 1);
        assert(hits.take(k).drop_first() =~= rest.take(k - 1));
        assert(hits.skip(k) =~= rest.skip(k - 1));
        assert(hits.take(k)[0] == hits[0]);
        lemma_nearer_associative(
            hits[0],
            spec_nearest(rest.take(k - 1)),
            spec_nearest(rest.skip(k - 1)),
        );
    }
}

/// A set of primitives none of which hits contributes nothing, which is
/// what makes pruning a subtree behind a missed box sound.
pub proof fn lemma_nearest_none(hits: Seq<Option<HitRecord>>)
    ensures
        (spec_nearest(hits) is None) <==> (forall|i: int| 0 <= i < hits.len() ==> hits[i] is None),
    decreases hits.len(),
{
    if hits.len() > 0 {
        let rest = hits.drop_first();
        lemma_nearest_none(rest);
        assert(forall|j: int| 0 <= j < rest.len() ==> #[trigger] rest[j] == hits[j + 1]);
        if spec_nearest(hits) is None {
            assert(spec_nearest(rest) is None);
            assert forall|i: int| 0 <= i < hits.len() implies hits[i] is None by {
                if i >= 1 {
                    assert(rest[i - 1] is None);
                }
            }
        }
        if forall|i: int| 0 <= i < hits.len() ==> hits[i] is None {
            assert(hits[0] is None);
            assert forall|j: int| 0 <= j < rest.len() implies rest[j] is None by {
                assert(hits[j + 1] is None);
            }
            assert(spec_nearest(rest) is None);
            assert(spec_nearest(hits) is None);
        }
    }
}

/// The nearer of two optional hits; the first wins an exact tie.
pub fn nearer(a: Option<HitRecord>, b: Option<HitRecord>) -> (r: Option<HitRecord>)
    ensures
        r == spec_nearer(a, b),
{
    match (a, b) {
        (Some(ra), Some(rb)) => if ra.t <= rb.t {
            Some(ra)
        } else {
            Some(rb)
        },
        (Some(ra), None) => Some(ra),
        (None, rb) => rb,
    }
}

/// The flat scan: fold the per-primitive hits front to back, keeping the
/// nearest so far. This is the unaccelerated oracle a tree is held to.
pub fn nearest_hit(hits: &Vec<Option<HitRecord>>) -> (r: Option<HitRecord>)
    ensures
        r == spec_nearest(hits@),
{
    let mut acc: Option<HitRecord> = None;
    let mut i: usize = 0;
    while i < hits.len()
        invariant
            i <= hits@.len(),
            acc == spec_nearest(hits@.take(i as int)),
        decreases hits@.len() - i,
    {
        proof {
            let h = hits@[i as int];
            let single = hits@.take(i + 1).skip(i as int);
            assert(single =~= seq![h]);
            assert(single.drop_first() =~= Seq::<Option<HitRecord>>::empty());
            assert(spec_nearest(single.drop_first()) == None::<HitRecord>);
            assert(spec_nearest(single) == spec_nearer(h, None));
            assert(spec_nearer(h, None) == h);
            lemma_nearest_split(hits@.take(i + 1), i as int);
            assert(hits@.take(i + 1).take(i as int) =~= hits@.take(i as int));
        }
        acc = nearer(acc, hits[i]);
        i = i + 1;
    }
    proof {
        assert(hits@.take(hits@.len() as int) =~= hits@);
    }
    acc
}

/// How a tree node divides its primitives: a pair becomes two leaves,
/// three leave one leaf beside a recursive pair, and a longer list splits
/// at its midpoint. Both parts are nonempty and strictly smaller than the
/// input, which is what bounds the recursive construction; fewer than two
/// primitives are a malformed scene and excluded outright.
pub fn bvh_split(n: usize) -> (r: (usize, usize))
    requires
        n >= 2,
    ensures
        r.0 + r.1 == n,
        1 <= r.0 < n,
        1 <= r.1 < n,
        n == 2 ==> r.0 == 1,
        n == 3 ==> r.0 == 1,
        n > 3 ==> r.0 == n / 2,
{
    if n == 2 {
        (1, 1)
    } else if n == 3 {
        (1, 2)
    } else {
        (n / 2, n - n / 2)
    }
}

/// The rotation about the y axis, as the exact linear map it is once its
/// cosine and sine are fixed: `(c·x + s·z, y, −s·x + c·z)`.
pub open spec fn spec_rotate_y(c: int, s: int, v: Vec3i) -> (int, int, int) {
    (c * v.x + s * v.z, v.y as int, (-s) * v.x + c * v.z)
}

/// Apply the rotation map to a point.
pub fn rotate_y_point(c: i64, s: i64, v: Vec3i) -> (r: Vec3i)
    requires
        i64::MIN <= c * v.x <= i64::MAX,
        i64::MIN <= s * v.z <= i64::MAX,
        i64::MIN <= c * v.x + s * v.z <= i64::MAX,
        i64::MIN <= -s <= i64::MAX,
        i64::MIN <= (-s) * v.x <= i64::MAX,
        i64::MIN <= c * v.z <= i64::MAX,
        i64::MIN <= (-s) * v.x + c * v.z <= i64::MAX,
    ensures
        (r.x as int, r.y as int, r.z as int) == spec_rotate_y(c as int, s as int, v),
{
    Vec3i { x: c * v.x + s * v.z, y: v.y, z: (-s) * v.x + c * v.z }
}

/// A rotation by angle zero has cosine one and sine zero, and its map moves
/// no point — so it changes neither hit positions nor boxes.
pub proof fn lemma_rotate_y_zero_is_identity(v: Vec3i)
    ensures
        spec_rotate_y(1, 0, v) == (v.x as int, v.y as int, v.z as int),
{
}

} // verus!
