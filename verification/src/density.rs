//! Density estimator: how many grass blades a triangle receives.
//!
//! The instance count of a triangle is `ceil(density * area)`, where
//! `area` is the triangle's world-space area. In fixed-point units the
//! cross product of two edges has magnitude `2 * area * SCALE * SCALE`,
//! so the count is `ceil(density * cross_len / AREA_DIVISOR)`, saturated
//! at `u32::MAX`.

use vstd::prelude::*;
use crate::fixed::{Vec3Fx, WORLD_LIMIT, is_sqrt, sqrt_floor, isqrt, lemma_sqrt_floor_exists, lemma_sqrt_unique};

verus! {

/// `2 * SCALE * SCALE`: the length of an edge cross product divided by
/// this is the triangle's area in world units.
pub const AREA_DIVISOR: u128 = 2_000_000;

/// The x component of `(p1 - p0) x (p2 - p0)`.
pub open spec fn cross_x(p0: Vec3Fx, p1: Vec3Fx, p2: Vec3Fx) -> int {
    (p1.y - p0.y) * (p2.z - p0.z) - (p1.z - p0.z) * (p2.y - p0.y)
}

/// The y component of `(p1 - p0) x (p2 - p0)`.
pub open spec fn cross_y(p0: Vec3Fx, p1: Vec3Fx, p2: Vec3Fx) -> int {
    (p1.z - p0.z) * (p2.x - p0.x) - (p1.x - p0.x) * (p2.z - p0.z)
}

/// The z component of `(p1 - p0) x (p2 - p0)`.
pub open spec fn cross_z(p0: Vec3Fx, p1: Vec3Fx, p2: Vec3Fx) -> int {
    (p1.x - p0.x) * (p2.y - p0.y) - (p1.y - p0.y) * (p2.x - p0.x)
}

/// Squared length of the edge cross product; `4 * SCALE^4` times the
/// squared world-space area of the triangle.
pub open spec fn norm_sq(p0: Vec3Fx, p1: Vec3Fx, p2: Vec3Fx) -> nat {
    (cross_x(p0, p1, p2) * cross_x(p0, p1, p2) + cross_y(p0, p1, p2) * cross_y(p0, p1, p2)
        + cross_z(p0, p1, p2) * cross_z(p0, p1, p2)) as nat
}

/// Instance count from the cross-product length `len`:
/// `ceil(density * len / AREA_DIVISOR)`, saturated at `u32::MAX`.
pub open spec fn count_of_len(len: nat, density: u32) -> nat {
    let c = (density * len + AREA_DIVISOR - 1) as int / AREA_DIVISOR as int;
    if c > u32::MAX {
        u32::MAX as nat
    } else {
        c as nat
    }
}

/// The number of instances a triangle receives at a given density.
pub open spec fn count_spec(p0: Vec3Fx, p1: Vec3Fx, p2: Vec3Fx, density: u32) -> nat {
    count_of_len(sqrt_floor(norm_sq(p0, p1, p2)), density)
}

proof fn lemma_abs_mul_bound(x: int, y: int, m: int) by (nonlinear_arith)
    requires
        -m <= x <= m,
        -m <= y <= m,
        0 <= m,
    ensures
        -(m * m) <= x * y <= m * m,
{
}

proof fn lemma_abs_square(c: int, a: int) by (nonlinear_arith)
    requires
        a == if c < 0 { -c } else { c },
    ensures
        a * a == c * c,
        0 <= a * a,
{
}

/// The edge cross product of a triangle, exactly.
pub(crate) fn cross_product(p0: Vec3Fx, p1: Vec3Fx, p2: Vec3Fx) -> (c: (i128, i128, i128))
    requires
        p0.in_bounds(WORLD_LIMIT as int),
        p1.in_bounds(WORLD_LIMIT as int),
        p2.in_bounds(WORLD_LIMIT as int),
    ensures
        c.0 == cross_x(p0, p1, p2),
        c.1 == cross_y(p0, p1, p2),
        c.2 == cross_z(p0, p1, p2),
        -8_000_000_000_000_000_000 <= c.0 <= 8_000_000_000_000_000_000,
        -8_000_000_000_000_000_000 <= c.1 <= 8_000_000_000_000_000_000,
        -8_000_000_000_000_000_000 <= c.2 <= 8_000_000_000_000_000_000,
{
    let ex = (p1.x - p0.x) as i128;
    let ey = (p1.y - p0.y) as i128;
    let ez = (p1.z - p0.z) as i128;
    let fx = (p2.x - p0.x) as i128;
    let fy = (p2.y - p0.y) as i128;
    let fz = (p2.z - p0.z) as i128;
    proof {
        lemma_abs_mul_bound(ey as int, fz as int, 2_000_000_000);
        lemma_abs_mul_bound(ez as int, fy as int, 2_000_000_000);
        lemma_abs_mul_bound(ez as int, fx as int, 2_000_000_000);
        lemma_abs_mul_bound(ex as int, fz as int, 2_000_000_000);
        lemma_abs_mul_bound(ex as int, fy as int, 2_000_000_000);
        lemma_abs_mul_bound(ey as int, fx as int, 2_000_000_000);
    }
    (ey * fz - ez * fy, ez * fx - ex * fz, ex * fy - ey * fx)
}

/// Instance count for one triangle with world-space corners `p0 p1 p2`:
/// `ceil(density * area)` with the area in world units, saturated at
/// `u32::MAX`. A degenerate triangle or a density of zero yields zero.
pub fn instance_count(p0: Vec3Fx, p1: Vec3Fx, p2: Vec3Fx, density: u32) -> (count: u32)
    requires
        p0.in_bounds(WORLD_LIMIT as int),
        p1.in_bounds(WORLD_LIMIT as int),
        p2.in_bounds(WORLD_LIMIT as int),
    ensures
        count == count_spec(p0, p1, p2, density),
{
    let c = cross_product(p0, p1, p2);
    let cx = c.0;
    let cy = c.1;
    let cz = c.2;
    let cxu: u128 = if cx < 0 { (-cx) as u128 } else { cx as u128 };
    let cyu: u128 = if cy < 0 { (-cy) as u128 } else { cy as u128 };
    let czu: u128 = if cz < 0 { (-cz) as u128 } else { cz as u128 };
    proof {
        lemma_abs_square(cx as int, cxu as int);
        lemma_abs_square(cy as int, cyu as int);
        lemma_abs_square(cz as int, czu as int);
        lemma_abs_mul_bound(cxu as int, cxu as int, 8_000_000_000_000_000_000);
        lemma_abs_mul_bound(cyu as int, cyu as int, 8_000_000_000_000_000_000);
        lemma_abs_mul_bound(czu as int, czu as int, 8_000_000_000_000_000_000);
    }
    let s: u128 = cxu * cxu + cyu * cyu + czu * czu;
    assert(s as nat == norm_sq(p0, p1, p2));

    let len = isqrt(s);
    proof {
        assert(len <= 20_000_000_000_000_000_000u128) by (nonlinear_arith)
            requires
                len * len <= s,
                s <= 192_000_000_000_000_000_000_000_000_000_000_000_000u128,
        ;
        assert((density as int) * (len as int) <= 0xffff_ffffi128 * 20_000_000_000_000_000_000i128)
            by (nonlinear_arith)
            requires
                0 <= density <= 0xffff_ffff,
                0 <= len <= 20_000_000_000_000_000_000u128,
        ;
    }
    let m: u128 = (density as u128) * len;
    let raw: u128 = (m + (AREA_DIVISOR - 1)) / AREA_DIVISOR;
    if raw > 0xffff_ffff {
        u32::MAX
    } else {
        raw as u32
    }
}

/// Density scaling, half one: a density of zero places no blades on any
/// triangle.
pub proof fn lemma_density_zero(p0: Vec3Fx, p1: Vec3Fx, p2: Vec3Fx)
    ensures
        count_spec(p0, p1, p2, 0) == 0,
{
    assert(0 * sqrt_floor(norm_sq(p0, p1, p2)) == 0);
}

/// Density scaling, half two: for a fixed triangle the instance count is
/// monotonically non-decreasing in the density.
pub proof fn lemma_density_monotonic(p0: Vec3Fx, p1: Vec3Fx, p2: Vec3Fx, d1: u32, d2: u32)
    requires
        d1 <= d2,
    ensures
        count_spec(p0, p1, p2, d1) <= count_spec(p0, p1, p2, d2),
{
    let len = sqrt_floor(norm_sq(p0, p1, p2));
    vstd::arithmetic::mul::lemma_mul_inequality(d1 as int, d2 as int, len as int);
    vstd::arithmetic::div_mod::lemma_div_is_ordered(
        d1 * len + AREA_DIVISOR - 1,
        d2 * len + AREA_DIVISOR - 1,
        AREA_DIVISOR as int,
    );
}

/// A degenerate triangle (zero area, for instance three collinear or
/// identical corners) yields zero instances at every density.
pub proof fn lemma_degenerate_triangle(p0: Vec3Fx, p1: Vec3Fx, p2: Vec3Fx, density: u32)
    requires
        norm_sq(p0, p1, p2) == 0,
    ensures
        count_spec(p0, p1, p2, density) == 0,
{
    lemma_sqrt_floor_exists(0);
    assert(is_sqrt(0, 0)) by (nonlinear_arith);
    lemma_sqrt_unique(0, sqrt_floor(0), 0);
    assert(density * 0nat == 0);
}

/// The ceiling count for a doubled cross-product length, before
/// saturation, against twice the original count: `ceil(2a)` is `2*ceil(a)`
/// or `2*ceil(a) - 1`.
proof fn lemma_ceil_doubled(m: int)
    requires
        m >= 0,
    ensures
        (2 * m + AREA_DIVISOR - 1) / (AREA_DIVISOR as int) <= 2 * ((m + AREA_DIVISOR - 1)
            / (AREA_DIVISOR as int)),
        2 * ((m + AREA_DIVISOR - 1) / (AREA_DIVISOR as int)) <= (2 * m + AREA_DIVISOR - 1)
            / (AREA_DIVISOR as int) + 1,
{
    let dv = AREA_DIVISOR as int;
    let q = m / dv;
    let r = m % dv;
    vstd::arithmetic::div_mod::lemma_fundamental_div_mod(m, dv);
    vstd::arithmetic::mul::lemma_mul_is_distributive_add(dv, q, 1);
    vstd::arithmetic::mul::lemma_mul_is_distributive_add(dv, 2 * q, 1);
    vstd::arithmetic::mul::lemma_mul_is_distributive_add(dv, 2 * q, 2);
    assert(dv * (2 * q) == 2 * (dv * q)) by (nonlinear_arith);
    if r == 0 {
        vstd::arithmetic::div_mod::lemma_fundamental_div_mod_converse(
            m + dv - 1,
            dv,
            q,
            dv - 1,
        );
        vstd::arithmetic::div_mod::lemma_fundamental_div_mod_converse(
            2 * m + dv - 1,
            dv,
            2 * q,
            dv - 1,
        );
    } else {
        vstd::arithmetic::div_mod::lemma_fundamental_div_mod_converse(
            m + dv - 1,
            dv,
            q + 1,
            r - 1,
        );
        if 2 * r <= dv {
            vstd::arithmetic::div_mod::lemma_fundamental_div_mod_converse(
                2 * m + dv - 1,
                dv,
                2 * q + 1,
                2 * r - 1,
            );
        } else {
            vstd::arithmetic::div_mod::lemma_fundamental_div_mod_converse(
                2 * m + dv - 1,
                dv,
                2 * q + 2,
                2 * r - 1 - dv,
            );
        }
    }
}

/// Area invariance: doubling a triangle's world-space area while holding
/// the density fixed doubles the instance count to within one, the slack
/// coming from ceiling rounding. The doubled area is stated over the
/// integer cross-product lengths of the two triangles.
pub proof fn lemma_area_doubling(
    a0: Vec3Fx,
    a1: Vec3Fx,
    a2: Vec3Fx,
    b0: Vec3Fx,
    b1: Vec3Fx,
    b2: Vec3Fx,
    density: u32,
)
    requires
        sqrt_floor(norm_sq(b0, b1, b2)) == 2 * sqrt_floor(norm_sq(a0, a1, a2)),
        (density * sqrt_floor(norm_sq(b0, b1, b2)) + AREA_DIVISOR - 1) as int / AREA_DIVISOR as int
            <= u32::MAX,
    ensures
        count_spec(b0, b1, b2, density) <= 2 * count_spec(a0, a1, a2, density),
        2 * count_spec(a0, a1, a2, density) <= count_spec(b0, b1, b2, density) + 1,
{
    let len = sqrt_floor(norm_sq(a0, a1, a2));
    let m = (density * len) as int;
    vstd::arithmetic::mul::lemma_mul_nonnegative(density as int, len as int);
    assert(density * (2 * len) == 2 * m) by (nonlinear_arith)
        requires
            m == density * len,
    ;
    lemma_ceil_doubled(m);
    vstd::arithmetic::div_mod::lemma_div_is_ordered(
        m + AREA_DIVISOR - 1,
        2 * m + AREA_DIVISOR - 1,
        AREA_DIVISOR as int,
    );
}

} // verus!
