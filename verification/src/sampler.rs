//! Geometry sampler: uniformly distributed surface points on a triangle.
//!
//! Each sample starts from two independent draws `u1, u2` in
//! `[0, BARY_ONE)`. With `r1 = sqrt(u1 * BARY_ONE)` the barycentric
//! weights are `(BARY_ONE - r1, r1 - b2, b2)` with `b2 = r1 * u2 / BARY_ONE`:
//! the fixed-point form of the classic square-root correction that makes
//! the samples uniform over the triangle's area. The weights always sum
//! to exactly `BARY_ONE`, so every sampled point is a convex combination
//! of the corners.

use vstd::prelude::*;
use crate::fixed::{Vec2Fx, Vec3Fx, SCALE, WORLD_LIMIT, floor_div, floor_div_i128, is_sqrt, isqrt, sqrt_floor};
use crate::density::{cross_product, cross_x, cross_y, cross_z, norm_sq};

verus! {

/// The fixed-point barycentric weight that stands for `1.0`.
pub const BARY_ONE: u32 = 65536;

/// The square-root-corrected first coordinate: `sqrt(u1 / BARY_ONE)` in
/// `BARY_ONE` units.
pub open spec fn bary_r1(u1: u32) -> nat {
    sqrt_floor((u1 * BARY_ONE) as nat)
}

/// The weight of the third corner: `r1 * u2 / BARY_ONE`.
pub open spec fn bary_b2(u1: u32, u2: u32) -> int {
    (bary_r1(u1) * u2) as int / BARY_ONE as int
}

/// The convex blend `(b0*c0 + b1*c1 + b2*c2) / BARY_ONE`, rounded toward
/// negative infinity.
pub open spec fn blend_spec(b0: int, b1: int, b2: int, c0: int, c1: int, c2: int) -> int {
    (b0 * c0 + b1 * c1 + b2 * c2) / BARY_ONE as int
}

proof fn lemma_mul_bound_mixed(x: int, y: int, mx: int, my: int) by (nonlinear_arith)
    requires
        0 <= x <= mx,
        -my <= y <= my,
        0 <= my,
    ensures
        -(mx * my) <= x * y <= mx * my,
{
}

/// Barycentric weights from two uniform draws. The weights are the
/// fixed-point counterparts of `(1 - r1, r1*(1 - u2), r1*u2)` and sum to
/// exactly `BARY_ONE`, so they describe a point inside the triangle.
pub fn barycentric_weights(u1: u32, u2: u32) -> (b: (u32, u32, u32))
    requires
        u1 < BARY_ONE,
        u2 < BARY_ONE,
    ensures
        b.0 == BARY_ONE - bary_r1(u1),
        b.1 == bary_r1(u1) - bary_b2(u1, u2),
        b.2 == bary_b2(u1, u2),
        b.0 + b.1 + b.2 == BARY_ONE,
        b.0 <= BARY_ONE && b.1 <= BARY_ONE && b.2 <= BARY_ONE,
{
    let r1w = isqrt((u1 as u128) * 65536);
    proof {
        assert(r1w < 65536) by (nonlinear_arith)
            requires
                r1w * r1w <= (u1 as u128) * 65536,
                u1 < 65536,
        ;
    }
    let r1 = r1w as u32;
    proof {
        assert((r1 as int) * (u2 as int) < 65536 * 65536) by (nonlinear_arith)
            requires
                0 <= r1 < 65536,
                0 <= u2 < 65536,
        ;
    }
    let b2w: u64 = (r1 as u64) * (u2 as u64) / 65536;
    proof {
        vstd::arithmetic::mul::lemma_mul_inequality(u2 as int, 65536, r1 as int);
        vstd::arithmetic::mul::lemma_mul_is_commutative(u2 as int, r1 as int);
        vstd::arithmetic::mul::lemma_mul_is_commutative(65536, r1 as int);
        vstd::arithmetic::div_mod::lemma_div_is_ordered(
            (r1 as int) * (u2 as int),
            (r1 as int) * 65536,
            65536,
        );
        vstd::arithmetic::div_mod::lemma_fundamental_div_mod_converse(
            (r1 as int) * 65536,
            65536,
            r1 as int,
            0,
        );
    }
    let b2 = b2w as u32;
    (BARY_ONE - r1, r1 - b2, b2)
}

/// One fixed-point component of the convex blend of three corner values.
/// The result never leaves the range spanned by the three values: the
/// sampled point cannot escape the triangle.
pub fn blend_component(b: (u32, u32, u32), c0: i64, c1: i64, c2: i64) -> (r: i64)
    requires
        b.0 + b.1 + b.2 == BARY_ONE,
        -WORLD_LIMIT <= c0 <= WORLD_LIMIT,
        -WORLD_LIMIT <= c1 <= WORLD_LIMIT,
        -WORLD_LIMIT <= c2 <= WORLD_LIMIT,
    ensures
        r == blend_spec(b.0 as int, b.1 as int, b.2 as int, c0 as int, c1 as int, c2 as int),
        r >= c0 || r >= c1 || r >= c2,
        r <= c0 || r <= c1 || r <= c2,
{
    proof {
        lemma_mul_bound_mixed(b.0 as int, c0 as int, 65536, 1_000_000_000);
        lemma_mul_bound_mixed(b.1 as int, c1 as int, 65536, 1_000_000_000);
        lemma_mul_bound_mixed(b.2 as int, c2 as int, 65536, 1_000_000_000);
    }
    let s: i64 = (b.0 as i64) * c0 + (b.1 as i64) * c1 + (b.2 as i64) * c2;
    let r = floor_div(s, 65536);
    proof {
        let mn = if c0 <= c1 && c0 <= c2 {
            c0 as int
        } else if c1 <= c2 {
            c1 as int
        } else {
            c2 as int
        };
        let mx = if c0 >= c1 && c0 >= c2 {
            c0 as int
        } else if c1 >= c2 {
            c1 as int
        } else {
            c2 as int
        };
        assert((b.0 + b.1 + b.2) * mn <= s <= (b.0 + b.1 + b.2) * mx) by (nonlinear_arith)
            requires
                s == b.0 * c0 + b.1 * c1 + b.2 * c2,
                mn <= c0 <= mx,
                mn <= c1 <= mx,
                mn <= c2 <= mx,
                b.0 >= 0,
                b.1 >= 0,
                b.2 >= 0,
        ;
        vstd::arithmetic::div_mod::lemma_fundamental_div_mod_converse(65536 * mn, 65536, mn, 0);
        vstd::arithmetic::div_mod::lemma_fundamental_div_mod_converse(65536 * mx, 65536, mx, 0);
        vstd::arithmetic::div_mod::lemma_div_is_ordered(65536 * mn, s as int, 65536);
        vstd::arithmetic::div_mod::lemma_div_is_ordered(s as int, 65536 * mx, 65536);
    }
    r
}

/// One surface sample: the position and the interpolated UV of the point
/// with barycentric draws `u1, u2` on the triangle `v0 v1 v2` carrying
/// the texture corners `t0 t1 t2`.
pub fn sample_point(
    v0: Vec3Fx,
    v1: Vec3Fx,
    v2: Vec3Fx,
    t0: Vec2Fx,
    t1: Vec2Fx,
    t2: Vec2Fx,
    u1: u32,
    u2: u32,
) -> (r: (Vec3Fx, Vec2Fx))
    requires
        v0.in_bounds(WORLD_LIMIT as int),
        v1.in_bounds(WORLD_LIMIT as int),
        v2.in_bounds(WORLD_LIMIT as int),
        t0.in_bounds(WORLD_LIMIT as int),
        t1.in_bounds(WORLD_LIMIT as int),
        t2.in_bounds(WORLD_LIMIT as int),
        u1 < BARY_ONE,
        u2 < BARY_ONE,
    ensures
        ({
            let b0 = (BARY_ONE - bary_r1(u1)) as int;
            let b1 = bary_r1(u1) - bary_b2(u1, u2);
            let b2 = bary_b2(u1, u2);
            &&& r.0.x == blend_spec(b0, b1, b2, v0.x as int, v1.x as int, v2.x as int)
            &&& r.0.y == blend_spec(b0, b1, b2, v0.y as int, v1.y as int, v2.y as int)
            &&& r.0.z == blend_spec(b0, b1, b2, v0.z as int, v1.z as int, v2.z as int)
            &&& r.1.x == blend_spec(b0, b1, b2, t0.x as int, t1.x as int, t2.x as int)
            &&& r.1.y == blend_spec(b0, b1, b2, t0.y as int, t1.y as int, t2.y as int)
        }),
        r.0.in_bounds(WORLD_LIMIT as int),
        r.1.in_bounds(WORLD_LIMIT as int),
        sample_in_span(r, v0, v1, v2, t0, t1, t2),
{
    let b = barycentric_weights(u1, u2);
    let px = blend_component(b, v0.x, v1.x, v2.x);
    let py = blend_component(b, v0.y, v1.y, v2.y);
    let pz = blend_component(b, v0.z, v1.z, v2.z);
    let tx = blend_component(b, t0.x, t1.x, t2.x);
    let ty = blend_component(b, t0.y, t1.y, t2.y);
    (Vec3Fx { x: px, y: py, z: pz }, Vec2Fx { x: tx, y: ty })
}

/// `x` does not leave the range spanned by the three values `a b c`.
pub open spec fn within_span(x: int, a: int, b: int, c: int) -> bool {
    (x >= a || x >= b || x >= c) && (x <= a || x <= b || x <= c)
}

/// The sample `s` (position, UV) lies within the componentwise span of
/// the triangle's corners: it cannot escape the triangle's bounding box.
pub open spec fn sample_in_span(
    s: (Vec3Fx, Vec2Fx),
    v0: Vec3Fx,
    v1: Vec3Fx,
    v2: Vec3Fx,
    t0: Vec2Fx,
    t1: Vec2Fx,
    t2: Vec2Fx,
) -> bool {
    &&& within_span(s.0.x as int, v0.x as int, v1.x as int, v2.x as int)
    &&& within_span(s.0.y as int, v0.y as int, v1.y as int, v2.y as int)
    &&& within_span(s.0.z as int, v0.z as int, v1.z as int, v2.z as int)
    &&& within_span(s.1.x as int, t0.x as int, t1.x as int, t2.x as int)
    &&& within_span(s.1.y as int, t0.y as int, t1.y as int, t2.y as int)
}

/// `count` random surface samples on one triangle, each an independent
/// pair of draws. The points are random, but there are exactly `count`
/// of them and every one stays within the triangle's corner span.
pub fn sample(
    v0: Vec3Fx,
    v1: Vec3Fx,
    v2: Vec3Fx,
    t0: Vec2Fx,
    t1: Vec2Fx,
    t2: Vec2Fx,
    count: u32,
) -> (r: Vec<(Vec3Fx, Vec2Fx)>)
    requires
        v0.in_bounds(WORLD_LIMIT as int),
        v1.in_bounds(WORLD_LIMIT as int),
        v2.in_bounds(WORLD_LIMIT as int),
        t0.in_bounds(WORLD_LIMIT as int),
        t1.in_bounds(WORLD_LIMIT as int),
        t2.in_bounds(WORLD_LIMIT as int),
    ensures
        r@.len() == count,
        forall|i: int|
            0 <= i < r@.len() ==> sample_in_span(#[trigger] r@[i], v0, v1, v2, t0, t1, t2),
        forall|i: int|
            0 <= i < r@.len() ==> (#[trigger] r@[i]).0.in_bounds(WORLD_LIMIT as int)
                && r@[i].1.in_bounds(WORLD_LIMIT as int),
{
    let mut out: Vec<(Vec3Fx, Vec2Fx)> = Vec::new();
    let mut j: u32 = 0;
    while j < count
        invariant
            j <= count,
            out@.len() == j,
            v0.in_bounds(WORLD_LIMIT as int),
            v1.in_bounds(WORLD_LIMIT as int),
            v2.in_bounds(WORLD_LIMIT as int),
            t0.in_bounds(WORLD_LIMIT as int),
            t1.in_bounds(WORLD_LIMIT as int),
            t2.in_bounds(WORLD_LIMIT as int),
            forall|i: int|
                0 <= i < out@.len() ==> sample_in_span(#[trigger] out@[i], v0, v1, v2, t0, t1, t2),
            forall|i: int|
                0 <= i < out@.len() ==> (#[trigger] out@[i]).0.in_bounds(WORLD_LIMIT as int)
                    && out@[i].1.in_bounds(WORLD_LIMIT as int),
        decreases count - j,
    {
        let u1 = crate::rng::draw_unit();
        let u2 = crate::rng::draw_unit();
        let s = sample_point(v0, v1, v2, t0, t1, t2, u1, u2);
        out.push(s);
        j = j + 1;
    }
    out
}

/// The face normal of a triangle, as a spec-level value: the edge cross
/// product scaled to length `SCALE`, rounded toward negative infinity.
pub open spec fn normal_spec(p0: Vec3Fx, p1: Vec3Fx, p2: Vec3Fx) -> Vec3Fx {
    let len = sqrt_floor(norm_sq(p0, p1, p2)) as int;
    Vec3Fx {
        x: (cross_x(p0, p1, p2) * SCALE / len) as i64,
        y: (cross_y(p0, p1, p2) * SCALE / len) as i64,
        z: (cross_z(p0, p1, p2) * SCALE / len) as i64,
    }
}

/// The face normal of a triangle with positive area: the cross product
/// of its edges brought to length `SCALE`. Every component stays within
/// `[-SCALE, SCALE]`.
pub fn face_normal(p0: Vec3Fx, p1: Vec3Fx, p2: Vec3Fx) -> (n: Vec3Fx)
    requires
        p0.in_bounds(WORLD_LIMIT as int),
        p1.in_bounds(WORLD_LIMIT as int),
        p2.in_bounds(WORLD_LIMIT as int),
        norm_sq(p0, p1, p2) > 0,
    ensures
        n == normal_spec(p0, p1, p2),
        n.in_bounds(SCALE as int),
{
    let c = cross_product(p0, p1, p2);
    let cxu: u128 = if c.0 < 0 { (-c.0) as u128 } else { c.0 as u128 };
    let cyu: u128 = if c.1 < 0 { (-c.1) as u128 } else { c.1 as u128 };
    let czu: u128 = if c.2 < 0 { (-c.2) as u128 } else { c.2 as u128 };
    proof {
        assert((cxu as int) * (cxu as int) == (c.0 as int) * (c.0 as int)
            && (cyu as int) * (cyu as int) == (c.1 as int) * (c.1 as int)
            && (czu as int) * (czu as int) == (c.2 as int) * (c.2 as int)
            && 0 <= (cxu as int) * (cxu as int) <= 64_000_000_000_000_000_000_000_000_000_000_000_000
            && 0 <= (cyu as int) * (cyu as int) <= 64_000_000_000_000_000_000_000_000_000_000_000_000
            && 0 <= (czu as int) * (czu as int) <= 64_000_000_000_000_000_000_000_000_000_000_000_000)
            by (nonlinear_arith)
            requires
                cxu == if c.0 < 0 { -(c.0 as int) } else { c.0 as int },
                cyu == if c.1 < 0 { -(c.1 as int) } else { c.1 as int },
                czu == if c.2 < 0 { -(c.2 as int) } else { c.2 as int },
                -8_000_000_000_000_000_000 <= c.0 <= 8_000_000_000_000_000_000,
                -8_000_000_000_000_000_000 <= c.1 <= 8_000_000_000_000_000_000,
                -8_000_000_000_000_000_000 <= c.2 <= 8_000_000_000_000_000_000,
        ;
    }
    let s: u128 = cxu * cxu + cyu * cyu + czu * czu;
    assert(s as nat == norm_sq(p0, p1, p2));
    let len = isqrt(s);
    proof {
        assert(len >= 1) by (nonlinear_arith)
            requires
                is_sqrt(s as nat, len as nat),
                s > 0,
        ;
        assert(len <= 20_000_000_000_000_000_000u128) by (nonlinear_arith)
            requires
                len * len <= s,
                s <= 192_000_000_000_000_000_000_000_000_000_000_000_000u128,
        ;
        assert(cxu <= len && cyu <= len && czu <= len) by (nonlinear_arith)
            requires
                is_sqrt(s as nat, len as nat),
                (cxu as int) * (cxu as int) <= s as int,
                (cyu as int) * (cyu as int) <= s as int,
                (czu as int) * (czu as int) <= s as int,
                0 <= cxu && 0 <= cyu && 0 <= czu && 0 <= len,
        ;
    }
    let nx = normal_component(c.0, cxu, len);
    let ny = normal_component(c.1, cyu, len);
    let nz = normal_component(c.2, czu, len);
    Vec3Fx { x: nx, y: ny, z: nz }
}

/// One component of the normal: `cv * SCALE / len`, where `cv` is a
/// cross-product component whose magnitude `cu` cannot exceed `len`.
fn normal_component(cv: i128, cu: u128, len: u128) -> (r: i64)
    requires
        cu == if cv < 0 { -(cv as int) } else { cv as int },
        -8_000_000_000_000_000_000 <= cv <= 8_000_000_000_000_000_000,
        1 <= len <= 20_000_000_000_000_000_000,
        cu <= len,
    ensures
        r == cv as int * SCALE / len as int,
        -SCALE <= r <= SCALE,
{
    proof {
        lemma_mul_bound_mixed(1000, cv as int, 1000, 8_000_000_000_000_000_000);
        assert((cv as int) * 1000 == 1000 * (cv as int)) by (nonlinear_arith);
    }
    let num: i128 = cv * 1000;
    let r128 = floor_div_i128(num, len as i128);
    proof {
        let l = len as int;
        assert(-(l * 1000) <= (cv as int) * 1000 <= l * 1000) by (nonlinear_arith)
            requires
                cu == if cv < 0 { -(cv as int) } else { cv as int },
                cu <= l,
        ;
        vstd::arithmetic::div_mod::lemma_fundamental_div_mod_converse(-(l * 1000), l, -1000, 0);
        vstd::arithmetic::div_mod::lemma_fundamental_div_mod_converse(l * 1000, l, 1000, 0);
        vstd::arithmetic::div_mod::lemma_div_is_ordered(-(l * 1000), num as int, l);
        vstd::arithmetic::div_mod::lemma_div_is_ordered(num as int, l * 1000, l);
    }
    r128 as i64
}

} // verus!
