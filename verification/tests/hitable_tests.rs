use garage_ray::hitable::AABB;
use garage_ray::hitable::HitRecord;
use garage_ray::hitable::Vec3i;
use garage_ray::hitable::bvh_split;
use garage_ray::hitable::nearer;
use garage_ray::hitable::nearest_hit;
use garage_ray::hitable::rotate_y_point;
use garage_ray::hitable::slab_hit;
use garage_ray::hitable::surrounding_box;

fn v(x: i64, y: i64, z: i64) -> Vec3i {
    Vec3i { x, y, z }
}

fn aabb(min: Vec3i, max: Vec3i) -> AABB {
    AABB { min, max }
}

fn hit(t: i64, primitive: usize) -> Option<HitRecord> {
    Some(HitRecord { t, primitive })
}

#[test]
fn surrounding_box_is_the_envelope() {
    let a = aabb(v(0, 0, 0), v(2, 2, 2));
    let b = aabb(v(-1, 1, -3), v(1, 5, 0));
    let u = surrounding_box(a, b);
    assert_eq!(u.min, v(-1, 0, -3));
    assert_eq!(u.max, v(2, 5, 2));
}

#[test]
fn surrounding_box_is_commutative_and_associative_on_samples() {
    let a = aabb(v(0, 0, 0), v(2, 2, 2));
    let b = aabb(v(-1, 1, -3), v(1, 5, 0));
    let c = aabb(v(7, -2, 4), v(9, 0, 6));
    assert_eq!(surrounding_box(a, b), surrounding_box(b, a));
    assert_eq!(
        surrounding_box(surrounding_box(a, b), c),
        surrounding_box(a, surrounding_box(b, c))
    );
}

#[test]
fn surrounding_box_contains_both_inputs_corners() {
    let a = aabb(v(0, 0, 0), v(2, 2, 2));
    let b = aabb(v(-1, 1, -3), v(1, 5, 0));
    let u = surrounding_box(a, b);
    for corner in [a.min, a.max, b.min, b.max] {
        assert!(u.min.x <= corner.x && corner.x <= u.max.x);
        assert!(u.min.y <= corner.y && corner.y <= u.max.y);
        assert!(u.min.z <= corner.z && corner.z <= u.max.z);
    }
}

#[test]
fn nearer_prefers_the_closer_hit_and_the_left_on_ties() {
    assert_eq!(nearer(hit(3, 0), hit(5, 1)), hit(3, 0));
    assert_eq!(nearer(hit(5, 0), hit(3, 1)), hit(3, 1));
    assert_eq!(nearer(hit(4, 0), hit(4, 1)), hit(4, 0));
    assert_eq!(nearer(hit(4, 0), None), hit(4, 0));
    assert_eq!(nearer(None, hit(4, 1)), hit(4, 1));
    assert_eq!(nearer(None, None), None);
}

#[test]
fn linear_scan_returns_the_nearest_hit() {
    let hits = vec![hit(9, 0), None, hit(2, 2), hit(2, 3), hit(7, 4)];
    assert_eq!(nearest_hit(&hits), hit(2, 2));
    assert_eq!(nearest_hit(&vec![None, None, None]), None);
    assert_eq!(nearest_hit(&Vec::new()), None);
}

#[test]
fn tree_shaped_combination_agrees_with_the_scan() {
    // combine the same per-primitive hits as a two-level tree and as the
    // flat scan: the split law says they must agree
    let hits = vec![hit(9, 0), hit(4, 1), None, hit(4, 3), hit(7, 4), None];
    let left = nearest_hit(&hits[..3].to_vec());
    let right = nearest_hit(&hits[3..].to_vec());
    assert_eq!(nearer(left, right), nearest_hit(&hits));
}

#[test]
fn rotation_by_angle_zero_moves_nothing() {
    // angle 0 has cosine 1 and sine 0
    for p in [v(0, 0, 0), v(5, -3, 8), v(-100, 42, 7)] {
        assert_eq!(rotate_y_point(1, 0, p), p);
    }
}

#[test]
fn quarter_turn_swaps_x_and_z() {
    // cosine 0, sine 1: (x, y, z) -> (z, y, -x)
    assert_eq!(rotate_y_point(0, 1, v(2, 5, 7)), v(7, 5, -2));
}

#[test]
fn slab_test_hits_when_all_intervals_overlap() {
    // slabs (1,10), (2,8), (0,9) against the query interval (0, 100)
    assert!(slab_hit(1, 10, 2, 8, 0, 9, 0, 100));
}

#[test]
fn slab_test_misses_when_one_axis_is_disjoint() {
    assert!(!slab_hit(1, 10, 20, 30, 0, 9, 0, 100));
}

#[test]
fn slab_test_misses_on_touching_intervals() {
    // the x slab ends exactly where the y slab begins: open intervals, miss
    assert!(!slab_hit(0, 5, 5, 9, 0, 9, 0, 100));
}

#[test]
fn slab_test_misses_on_an_inverted_slab() {
    // an empty entry/exit interval can never be crossed
    assert!(!slab_hit(7, 3, 0, 9, 0, 9, 0, 100));
}

#[test]
fn slab_test_respects_the_query_interval() {
    assert!(!slab_hit(1, 10, 2, 8, 0, 9, 50, 100));
    assert!(slab_hit(1, 10, 2, 8, 0, 9, 3, 100));
}

#[test]
fn bvh_split_follows_the_size_table() {
    assert_eq!(bvh_split(2), (1, 1));
    assert_eq!(bvh_split(3), (1, 2));
    assert_eq!(bvh_split(4), (2, 2));
    assert_eq!(bvh_split(9), (4, 5));
    assert_eq!(bvh_split(1000), (500, 500));
}
