use garage_ray::math::Bounds2Di;
use garage_ray::math::Point2i;
use garage_ray::math::Vec2i;
use garage_ray::math::clamp;
use garage_ray::math::expand_2d;
use garage_ray::math::inside_2d;
use garage_ray::math::inside_exclusive_2d;
use garage_ray::math::intersect_2d;
use garage_ray::math::max;
use garage_ray::math::min;
use garage_ray::math::overlaps_2d;
use garage_ray::math::union_2d_with_point;
use garage_ray::math::union_bounds_2d;

fn b(x0: i32, y0: i32, x1: i32, y1: i32) -> Bounds2Di {
    Bounds2Di {
        min: Point2i { x: x0, y: y0 },
        max: Point2i { x: x1, y: y1 },
    }
}

#[test]
fn min_max_pick_the_right_operand() {
    assert_eq!(min(3, 7), 3);
    assert_eq!(min(7, 3), 3);
    assert_eq!(max(3, 7), 7);
    assert_eq!(max(-5, -9), -5);
    assert_eq!(min(4, 4), 4);
}

#[test]
fn clamp_forces_into_interval() {
    assert_eq!(clamp(-3, 0, 10), 0);
    assert_eq!(clamp(15, 0, 10), 10);
    assert_eq!(clamp(6, 0, 10), 6);
    assert_eq!(clamp(5, 5, 5), 5);
}

#[test]
fn union_is_the_envelope() {
    let u = union_bounds_2d(&b(0, 0, 4, 2), &b(-1, 1, 3, 5));
    assert_eq!((u.min.x, u.min.y, u.max.x, u.max.y), (-1, 0, 4, 5));
}

#[test]
fn union_is_commutative_on_samples() {
    let cases = [
        (b(0, 0, 4, 2), b(-1, 1, 3, 5)),
        (b(-7, -7, -3, -3), b(2, 2, 9, 9)),
        (b(0, 0, 0, 0), b(0, 0, 0, 0)),
    ];
    for (p, q) in cases {
        let a = union_bounds_2d(&p, &q);
        let c = union_bounds_2d(&q, &p);
        assert_eq!(a, c);
    }
}

#[test]
fn union_contains_both_inputs() {
    let p = b(0, 0, 4, 2);
    let q = b(-1, 1, 3, 5);
    let u = union_bounds_2d(&p, &q);
    for corner in [p.min, p.max, q.min, q.max] {
        assert!(inside_2d(&corner, &u));
    }
}

#[test]
fn union_with_point_takes_the_point_in() {
    let u = union_2d_with_point(&b(0, 0, 2, 2), &Vec2i { x: 5, y: -1 });
    assert_eq!((u.min.x, u.min.y, u.max.x, u.max.y), (0, -1, 5, 2));
}

#[test]
fn intersection_is_the_common_region() {
    let i = intersect_2d(&b(0, 0, 4, 4), &b(2, 1, 6, 3));
    assert_eq!((i.min.x, i.min.y, i.max.x, i.max.y), (2, 1, 4, 3));
}

#[test]
fn disjoint_bounds_do_not_overlap() {
    assert!(!overlaps_2d(&b(0, 0, 1, 1), &b(2, 2, 3, 3)));
    assert!(overlaps_2d(&b(0, 0, 2, 2), &b(1, 1, 3, 3)));
    // sharing only an edge still counts as overlap
    assert!(overlaps_2d(&b(0, 0, 1, 1), &b(1, 0, 2, 1)));
}

#[test]
fn membership_tests_differ_on_the_max_corner() {
    let r = b(0, 0, 2, 2);
    assert!(inside_2d(&Point2i { x: 2, y: 2 }, &r));
    assert!(!inside_exclusive_2d(&Point2i { x: 2, y: 2 }, &r));
    assert!(inside_exclusive_2d(&Point2i { x: 1, y: 1 }, &r));
    assert!(!inside_2d(&Point2i { x: 3, y: 1 }, &r));
}

#[test]
fn expand_pads_every_side() {
    let e = expand_2d(&b(0, 0, 2, 2), 3);
    assert_eq!((e.min.x, e.min.y, e.max.x, e.max.y), (-3, -3, 5, 5));
}

#[test]
fn diagonal_and_extent() {
    let r = b(1, 1, 5, 3);
    let d = r.diagonal();
    assert_eq!((d.x, d.y), (4, 2));
    assert_eq!(r.maximum_extent(), 0);
    let tall = b(0, 0, 1, 9);
    assert_eq!(tall.maximum_extent(), 1);
}

#[test]
fn from_two_points_orders_corners() {
    let r = Bounds2Di::from_two_points(Point2i { x: 5, y: -2 }, Point2i { x: 1, y: 4 });
    assert_eq!((r.min.x, r.min.y, r.max.x, r.max.y), (1, -2, 5, 4));
    let p = Bounds2Di::from_point(Point2i { x: 7, y: 7 });
    assert_eq!(p.min, p.max);
}

#[test]
fn union_is_associative_on_samples() {
    let p = b(0, 0, 1, 1);
    let q = b(-5, 2, 0, 3);
    let r = b(2, -2, 7, 0);
    let left = union_bounds_2d(&union_bounds_2d(&p, &q), &r);
    let right = union_bounds_2d(&p, &union_bounds_2d(&q, &r));
    assert_eq!(left, right);
}

#[test]
fn default_bounds_are_the_union_identity() {
    let empty = Bounds2Di::default();
    let u = union_2d_with_point(&empty, &Vec2i { x: 4, y: -7 });
    assert_eq!((u.min.x, u.min.y, u.max.x, u.max.y), (4, -7, 4, -7));
}
