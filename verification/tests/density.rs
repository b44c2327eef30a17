use procedural_grass::density::instance_count;
use procedural_grass::fixed::{floor_div, isqrt, Vec3Fx};

fn v(x: i64, y: i64, z: i64) -> Vec3Fx {
    Vec3Fx { x, y, z }
}

// A right triangle with legs of 2 world units: area 2.0, so the cross
// product length is 4_000_000 and the count is exactly 2 * density.
fn leg_triangle() -> (Vec3Fx, Vec3Fx, Vec3Fx) {
    (v(0, 0, 0), v(2000, 0, 0), v(0, 0, 2000))
}

#[test]
fn count_matches_density_times_area() {
    let (a, b, c) = leg_triangle();
    assert_eq!(instance_count(a, b, c, 10), 20);
    assert_eq!(instance_count(a, b, c, 1), 2);
    assert_eq!(instance_count(a, b, c, 25), 50);
}

#[test]
fn zero_density_places_nothing() {
    let (a, b, c) = leg_triangle();
    assert_eq!(instance_count(a, b, c, 0), 0);
    assert_eq!(instance_count(v(-500, 300, 9), v(777, -2, 5), v(4, 4, 4), 0), 0);
}

#[test]
fn count_is_monotonic_in_density() {
    let (a, b, c) = leg_triangle();
    let mut last: u32 = 0;
    for d in [0u32, 1, 2, 5, 10, 100, 1000] {
        let n = instance_count(a, b, c, d);
        assert!(n >= last);
        last = n;
    }
}

#[test]
fn degenerate_triangle_places_nothing() {
    let p = v(5, 5, 5);
    assert_eq!(instance_count(p, p, p, 1000), 0);
    // Collinear points: zero area as well.
    assert_eq!(instance_count(v(0, 0, 0), v(1000, 0, 0), v(3000, 0, 0), 1000), 0);
}

#[test]
fn doubling_area_doubles_count() {
    let (a, b, c) = leg_triangle();
    // One leg stretched to 4 world units: exactly twice the area.
    let b2 = v(4000, 0, 0);
    let small = instance_count(a, b, c, 10);
    let large = instance_count(a, b2, c, 10);
    assert!(large <= 2 * small);
    assert!(2 * small <= large + 1);
    assert_eq!(large, 40);
}

#[test]
fn fractional_area_rounds_up() {
    // Legs of 1 world unit: area 0.5, so density 1 still places one blade.
    let a = v(0, 0, 0);
    let b = v(1000, 0, 0);
    let c = v(0, 0, 1000);
    assert_eq!(instance_count(a, b, c, 1), 1);
    assert_eq!(instance_count(a, b, c, 3), 2);
}

#[test]
fn isqrt_exact_values() {
    assert_eq!(isqrt(0), 0);
    assert_eq!(isqrt(1), 1);
    assert_eq!(isqrt(15), 3);
    assert_eq!(isqrt(16), 4);
    assert_eq!(isqrt(1_000_000_000_000_000_000), 1_000_000_000);
    assert_eq!(isqrt(u64::MAX as u128), 4_294_967_295);
}

#[test]
fn floor_div_rounds_toward_negative_infinity() {
    assert_eq!(floor_div(-100, 30000), -1);
    assert_eq!(floor_div(100, 30000), 0);
    assert_eq!(floor_div(-30000, 30000), -1);
    assert_eq!(floor_div(-30001, 30000), -2);
    assert_eq!(floor_div(59999, 30000), 1);
    assert_eq!(floor_div(0, 30000), 0);
}
