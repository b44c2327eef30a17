use procedural_grass::sampler::{barycentric_weights, blend_component, face_normal, sample, sample_point, BARY_ONE};
use procedural_grass::fixed::{Vec2Fx, Vec3Fx};

fn v(x: i64, y: i64, z: i64) -> Vec3Fx {
    Vec3Fx { x, y, z }
}

fn uv(x: i64, y: i64) -> Vec2Fx {
    Vec2Fx { x, y }
}

#[test]
fn weights_sum_to_one() {
    for (u1, u2) in [(0, 0), (65535, 65535), (12345, 54321), (1, 65535), (65535, 1), (32768, 32768)] {
        let (b0, b1, b2) = barycentric_weights(u1, u2);
        assert_eq!(b0 + b1 + b2, BARY_ONE);
        assert!(b0 <= BARY_ONE && b1 <= BARY_ONE && b2 <= BARY_ONE);
    }
}

#[test]
fn zero_draw_lands_on_first_corner() {
    // u1 = 0 gives r1 = 0: all the weight sits on the first corner.
    let b = barycentric_weights(0, 40000);
    assert_eq!(b, (BARY_ONE, 0, 0));
    assert_eq!(blend_component(b, -700, 123, 456), -700);
}

#[test]
fn blend_stays_between_corner_values() {
    for (u1, u2) in [(9, 70), (65535, 0), (40000, 60000), (3, 65535)] {
        let b = barycentric_weights(u1, u2);
        let r = blend_component(b, -1000, 500, 2000);
        assert!(r >= -1000 && r <= 2000);
    }
}

#[test]
fn sample_on_flat_triangle_keeps_height() {
    let v0 = v(0, 0, 0);
    let v1 = v(2000, 0, 0);
    let v2 = v(0, 0, 2000);
    let t0 = uv(0, 0);
    let t1 = uv(1000, 0);
    let t2 = uv(0, 1000);
    for (u1, u2) in [(0, 0), (65535, 65535), (30000, 10000)] {
        let (p, t) = sample_point(v0, v1, v2, t0, t1, t2, u1, u2);
        assert_eq!(p.y, 0);
        assert!(p.x >= 0 && p.x <= 2000);
        assert!(p.z >= 0 && p.z <= 2000);
        assert!(t.x >= 0 && t.x <= 1000);
        assert!(t.y >= 0 && t.y <= 1000);
    }
}

#[test]
fn batch_sampling_stays_on_the_triangle() {
    let v0 = v(-2000, 500, 0);
    let v1 = v(2000, 500, 0);
    let v2 = v(0, 500, 3000);
    let t0 = uv(0, 0);
    let t1 = uv(1000, 0);
    let t2 = uv(500, 1000);
    let points = sample(v0, v1, v2, t0, t1, t2, 250);
    assert_eq!(points.len(), 250);
    for (p, t) in &points {
        assert!(p.x >= -2000 && p.x <= 2000);
        assert_eq!(p.y, 500);
        assert!(p.z >= 0 && p.z <= 3000);
        assert!(t.x >= 0 && t.x <= 1000);
        assert!(t.y >= 0 && t.y <= 1000);
    }
}

#[test]
fn face_normal_of_flat_triangle_points_along_y() {
    let n = face_normal(v(0, 0, 0), v(2000, 0, 0), v(0, 0, 2000));
    assert_eq!((n.x, n.y, n.z), (0, -1000, 0));
    // The opposite winding flips the normal.
    let m = face_normal(v(0, 0, 0), v(0, 0, 2000), v(2000, 0, 0));
    assert_eq!((m.x, m.y, m.z), (0, 1000, 0));
}

#[test]
fn face_normal_is_scale_invariant_in_direction() {
    let small = face_normal(v(0, 0, 0), v(100, 0, 0), v(0, 0, 100));
    let large = face_normal(v(0, 0, 0), v(900_000, 0, 0), v(0, 0, 900_000));
    assert_eq!((small.x, small.y, small.z), (large.x, large.y, large.z));
}
