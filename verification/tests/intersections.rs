use tracer::intersection::{Intersection, Intersections, INFINITY_BITS};

/// A hit time as the collection carries it: the bit pattern of the double.
fn key(t: f64) -> u64 {
    t.to_bits()
}

#[test]
fn intersection_encapsulates_object() {
    let i = Intersection::new(key(3.5), 0);
    assert_eq!(i.time, key(3.5));
    assert_eq!(i.object, 0);
}

#[test]
fn aggregating_intersections() {
    let i1 = Intersection::new(key(1.0), 0);
    let i2 = Intersection::new(key(2.0), 0);
    let mut xs = Intersections::with(vec![i2, i1]);
    assert_eq!(xs.count(), 2);
    assert_eq!(xs.pop().unwrap().time, i1.time);
    assert_eq!(xs.pop().unwrap().time, i2.time);
}

#[test]
fn closest_hit_multiple_options() {
    let i1 = Intersection::new(key(1.0), 0);
    let i2 = Intersection::new(key(2.0), 0);
    let xs = Intersections::with(vec![i1, i2]);
    assert_eq!(xs.closest().unwrap().time, i1.time);
}

#[test]
fn closest_hit_one_option() {
    let i1 = Intersection::new(key(-1.0), 0);
    let i2 = Intersection::new(key(1.0), 0);
    let xs = Intersections::with(vec![i1, i2]);
    assert_eq!(xs.closest().unwrap().time, i2.time);
}

#[test]
fn closest_hit_no_options() {
    let i1 = Intersection::new(key(-1.0), 0);
    let i2 = Intersection::new(key(-2.0), 0);
    let xs = Intersections::with(vec![i1, i2]);
    assert!(xs.closest().is_none());
}

#[test]
fn closest_hit_has_lowest_nonnegative_time() {
    let i1 = Intersection::new(key(5.0), 0);
    let i2 = Intersection::new(key(7.0), 0);
    let i3 = Intersection::new(key(-3.0), 0);
    let i4 = Intersection::new(key(2.0), 0);
    let xs = Intersections::with(vec![i1, i2, i3, i4]);
    assert_eq!(xs.closest().unwrap().time, i4.time);
}

#[test]
fn zero_time_is_discarded() {
    let mut xs = Intersections::new();
    xs.insert(Intersection::new(key(0.0), 0));
    xs.insert(Intersection::new(key(-0.0), 0));
    assert_eq!(xs.count(), 0);
    assert!(xs.closest().is_none());
}

#[test]
fn nan_time_is_discarded() {
    let mut xs = Intersections::new();
    xs.insert(Intersection::new(key(f64::NAN), 0));
    xs.insert(Intersection::new(key(-f64::NAN), 0));
    assert_eq!(xs.count(), 0);
}

#[test]
fn infinite_time_is_retained() {
    let mut xs = Intersections::new();
    xs.insert(Intersection::new(key(f64::INFINITY), 0));
    xs.insert(Intersection::new(key(f64::NEG_INFINITY), 0));
    assert_eq!(xs.count(), 1);
    assert_eq!(xs.closest().unwrap().time, INFINITY_BITS);
}

#[test]
fn subnormal_time_is_retained() {
    let tiny = f64::MIN_POSITIVE / 4.0;
    let mut xs = Intersections::new();
    xs.insert(Intersection::new(key(tiny), 3));
    assert_eq!(xs.count(), 1);
    assert_eq!(xs.pop().unwrap().object, 3);
}

#[test]
fn equal_times_are_both_retained() {
    let i1 = Intersection::new(key(5.0), 0);
    let i2 = Intersection::new(key(5.0), 1);
    let mut xs = Intersections::with(vec![i1, i2]);
    assert_eq!(xs.count(), 2);
    assert_eq!(xs.pop().unwrap().time, key(5.0));
    assert_eq!(xs.pop().unwrap().time, key(5.0));
}

#[test]
fn pop_yields_times_in_ascending_order() {
    let times = [9.25, 0.5, 3.0, 7.5, 0.5, 12.0, 1.0e-3, 64.0];
    let list: Vec<Intersection> = times
        .iter()
        .enumerate()
        .map(|(k, &t)| Intersection::new(key(t), k))
        .collect();
    let mut xs = Intersections::with(list);
    assert_eq!(xs.count(), times.len());
    let mut sorted = times;
    sorted.sort_by(|a, b| a.partial_cmp(b).unwrap());
    for &t in sorted.iter() {
        assert_eq!(xs.pop().unwrap().time, key(t));
    }
    assert!(xs.pop().is_none());
}

/// The times at which a ray from `origin` toward `direction` meets the unit
/// sphere about the local origin, before any sign filtering.
fn unit_sphere_roots(origin: [f64; 3], direction: [f64; 3]) -> Vec<f64> {
    let dot = |a: [f64; 3], b: [f64; 3]| a[0] * b[0] + a[1] * b[1] + a[2] * b[2];
    let a = dot(direction, direction);
    let b = 2.0 * dot(direction, origin);
    let c = dot(origin, origin) - 1.0;
    let discriminant = b * b - 4.0 * a * c;
    if discriminant < 0.0 {
        vec![]
    } else {
        vec![
            (-b - discriminant.sqrt()) / (2.0 * a),
            (-b + discriminant.sqrt()) / (2.0 * a),
        ]
    }
}

fn gather(roots: Vec<f64>, object: usize) -> Intersections {
    Intersections::with(
        roots
            .into_iter()
            .map(|t| Intersection::new(key(t), object))
            .collect(),
    )
}

#[test]
fn unit_sphere_hit_from_outside() {
    let mut xs = gather(unit_sphere_roots([0.0, 0.0, -5.0], [0.0, 0.0, 1.0]), 0);
    assert_eq!(xs.count(), 2);
    assert_eq!(xs.pop().unwrap().time, key(4.0));
    assert_eq!(xs.pop().unwrap().time, key(6.0));
}

#[test]
fn unit_sphere_hit_from_inside() {
    // The t = -1 root lies behind the ray's origin and is discarded.
    let mut xs = gather(unit_sphere_roots([0.0, 0.0, 0.0], [0.0, 0.0, 1.0]), 0);
    assert_eq!(xs.count(), 1);
    assert_eq!(xs.pop().unwrap().time, key(1.0));
}

#[test]
fn scaled_sphere_hit() {
    // A sphere scaled by (2, 2, 2) sees the same ray with origin and
    // direction shrunk by half in its own space.
    let mut xs = gather(unit_sphere_roots([0.0, 0.0, -2.5], [0.0, 0.0, 0.5]), 0);
    assert_eq!(xs.count(), 2);
    assert_eq!(xs.pop().unwrap().time, key(3.0));
    assert_eq!(xs.pop().unwrap().time, key(7.0));
}

#[test]
fn tangent_ray_intersection() {
    // A ray grazing the sphere yields a doubled root; both copies stay.
    let mut xs = gather(unit_sphere_roots([0.0, 1.0, -5.0], [0.0, 0.0, 1.0]), 0);
    assert_eq!(xs.count(), 2);
    assert_eq!(xs.pop().unwrap().time, key(5.0));
    assert_eq!(xs.pop().unwrap().time, key(5.0));
}

#[test]
fn ray_misses_sphere() {
    let xs = gather(unit_sphere_roots([0.0, 2.0, -5.0], [0.0, 0.0, 1.0]), 0);
    assert_eq!(xs.count(), 0);
    assert!(xs.closest().is_none());
}

#[test]
fn sphere_behind_ray_leaves_nothing() {
    let xs = gather(unit_sphere_roots([0.0, 0.0, 5.0], [0.0, 0.0, 1.0]), 0);
    assert_eq!(xs.count(), 0);
    assert!(xs.closest().is_none());
}
