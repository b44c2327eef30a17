//! Fixed-point scalars and small vectors.
//!
//! World-space lengths are carried as `i64` values in units of
//! `1 / SCALE` world units, so `SCALE` stands for the world length `1.0`.
//! Floor division and an integer square root are the two primitives the
//! geometry code builds on.

use vstd::prelude::*;

verus! {

/// Fixed-point sub-units per world unit: a coordinate of `SCALE` is the
/// world length `1.0`.
pub const SCALE: i64 = 1000;

/// Largest magnitude allowed for a mesh-local coordinate or a scale factor.
pub const COORD_LIMIT: i64 = 1_000_000;

/// Largest magnitude a world-space (scaled) coordinate can reach:
/// `COORD_LIMIT * COORD_LIMIT / SCALE`.
pub const WORLD_LIMIT: i64 = 1_000_000_000;

/// A 3-component fixed-point vector.
#[derive(Clone, Copy, PartialEq, Eq, Structural, Debug)]
pub struct Vec3Fx {
    pub x: i64,
    pub y: i64,
    pub z: i64,
}

/// A 2-component fixed-point vector.
#[derive(Clone, Copy, PartialEq, Eq, Structural, Debug)]
pub struct Vec2Fx {
    pub x: i64,
    pub y: i64,
}

impl Vec3Fx {
    pub open spec fn in_bounds(self, limit: int) -> bool {
        -limit <= self.x <= limit && -limit <= self.y <= limit && -limit <= self.z <= limit
    }
}

impl Vec2Fx {
    pub open spec fn in_bounds(self, limit: int) -> bool {
        -limit <= self.x <= limit && -limit <= self.y <= limit
    }
}

/// Floor division of `a` by a positive `b`: rounds toward negative
/// infinity, so `floor_div(-100, 30000) == -1` rather than `0`.
///
/// In specifications `a / b` on `int` is Euclidean division, which for a
/// positive divisor is exactly floor division.
pub fn floor_div(a: i64, b: i64) -> (q: i64)
    requires
        b > 0,
    ensures
        q == a as int / b as int,
        b * q <= a < b * (q + 1),
{
    let t = a / b;
    let r = a % b;
    let q = if r != 0 && a < 0 {
        proof {
            // A nonzero remainder rules out b == 1, which keeps t above
            // i64::MIN: t - 1 cannot underflow.
            assert((-(a as int)) % 1int == 0);
            vstd::arithmetic::div_mod::lemma_div_is_ordered_by_denominator(
                -(a as int),
                2,
                b as int,
            );
        }
        t - 1
    } else {
        t
    };
    proof {
        lemma_trunc_div_is_floor_div(a as int, b as int, q as int);
    }
    q
}

/// Relates Rust's truncating division to Euclidean division for a
/// positive divisor.
proof fn lemma_trunc_div_is_floor_div(a: int, b: int, q: int)
    requires
        b > 0,
        a >= 0 ==> q == a / b,
        a < 0 ==> {
            let t = -((-a) / b);
            let r = -((-a) % b);
            q == if r != 0 { t - 1 } else { t }
        },
    ensures
        q == a / b,
        b * q <= a < b * (q + 1),
{
    if a >= 0 {
        vstd::arithmetic::div_mod::lemma_fundamental_div_mod(a, b);
        assert(b * q <= a < b * (q + 1)) by (nonlinear_arith)
            requires
                b > 0,
                a == b * q + a % b,
                0 <= a % b < b,
        ;
    } else {
        let qn = (-a) / b;
        let rn = (-a) % b;
        vstd::arithmetic::div_mod::lemma_fundamental_div_mod(-a, b);
        assert(-a == b * qn + rn);
        if rn == 0 {
            assert(a == b * (-qn) + 0) by (nonlinear_arith)
                requires
                    -a == b * qn,
            ;
            vstd::arithmetic::div_mod::lemma_fundamental_div_mod_converse(a, b, -qn, 0);
        } else {
            assert(a == b * (-qn - 1) + (b - rn)) by (nonlinear_arith)
                requires
                    -a == b * qn + rn,
            ;
            vstd::arithmetic::div_mod::lemma_fundamental_div_mod_converse(a, b, -qn - 1, b - rn);
        }
        vstd::arithmetic::div_mod::lemma_fundamental_div_mod(a, b);
        assert(b * q <= a < b * (q + 1)) by (nonlinear_arith)
            requires
                b > 0,
                a == b * q + a % b,
                0 <= a % b < b,
        ;
    }
}

/// Floor division on `i128`, as [`floor_div`] on `i64`.
pub fn floor_div_i128(a: i128, b: i128) -> (q: i128)
    requires
        b > 0,
        a > i128::MIN,
    ensures
        q == a as int / b as int,
        b * q <= a < b * (q + 1),
{
    let t = a / b;
    let r = a % b;
    let q = if r != 0 && a < 0 {
        proof {
            vstd::arithmetic::div_mod::lemma_div_nonincreasing(-(a as int), b as int);
        }
        t - 1
    } else {
        t
    };
    proof {
        lemma_trunc_div_is_floor_div(a as int, b as int, q as int);
    }
    q
}

/// `r` is the integer square root of `n`: the largest integer whose
/// square does not exceed `n`.
pub open spec fn is_sqrt(n: nat, r: nat) -> bool {
    r * r <= n < (r + 1) * (r + 1)
}

/// The integer square root, as a mathematical function.
pub closed spec fn sqrt_floor(n: nat) -> nat {
    choose|r: nat| is_sqrt(n, r)
}

/// The integer square root exists for every `n`.
pub proof fn lemma_sqrt_floor_exists(n: nat)
    ensures
        is_sqrt(n, sqrt_floor(n)),
    decreases n,
{
    if n == 0 {
        assert(is_sqrt(0, 0)) by (nonlinear_arith);
    } else {
        lemma_sqrt_floor_exists((n - 1) as nat);
        let r = sqrt_floor((n - 1) as nat);
        if n < (r + 1) * (r + 1) {
            assert(is_sqrt(n, r));
        } else {
            assert(n == (r + 1) * (r + 1));
            assert(is_sqrt(n, r + 1)) by (nonlinear_arith)
                requires
                    n == (r + 1) * (r + 1),
            ;
        }
        assert(exists|s: nat| is_sqrt(n, s));
    }
}

/// Two integer square roots of the same number are equal.
pub proof fn lemma_sqrt_unique(n: nat, r1: nat, r2: nat)
    requires
        is_sqrt(n, r1),
        is_sqrt(n, r2),
    ensures
        r1 == r2,
{
    assert(r1 == r2) by (nonlinear_arith)
        requires
            r1 * r1 <= n < (r1 + 1) * (r1 + 1),
            r2 * r2 <= n < (r2 + 1) * (r2 + 1),
    ;
}

/// Integer square root by bisection over the answer.
pub fn isqrt(n: u128) -> (r: u128)
    ensures
        r == sqrt_floor(n as nat),
        is_sqrt(n as nat, r as nat),
{
    let mut lo: u128 = 0;
    let mut hi: u128 = 0x1_0000_0000_0000_0000;
    proof {
        assert((hi * hi) as int > n as int) by (nonlinear_arith)
            requires
                hi == 0x1_0000_0000_0000_0000u128,
                n <= u128::MAX,
        ;
    }
    while hi - lo > 1
        invariant
            0 <= lo < hi <= 0x1_0000_0000_0000_0000,
            lo * lo <= n,
            (hi * hi) as int > n as int,
        decreases hi - lo,
    {
        let mid = lo + (hi - lo) / 2;
        proof {
            assert(mid * mid <= u128::MAX) by (nonlinear_arith)
                requires
                    0 <= mid < 0x1_0000_0000_0000_0000u128,
            ;
        }
        if mid * mid <= n {
            lo = mid;
        } else {
            hi = mid;
        }
    }
    proof {
        assert(is_sqrt(n as nat, lo as nat));
        lemma_sqrt_floor_exists(n as nat);
        lemma_sqrt_unique(n as nat, lo as nat, sqrt_floor(n as nat));
    }
    lo
}

} // verus!
