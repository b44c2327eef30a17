//! The randomness source for surface sampling.
//!
//! The generation pass makes no reproducibility promise: two passes over
//! the same mesh place blades at different points. Everything that is
//! proved about generation therefore holds for every value these draws
//! can take.

use vstd::prelude::*;
use crate::sampler::BARY_ONE;

verus! {

/// Relies on `rand::random`: one draw from the thread-local generator.
/// Nothing is assumed about the value that comes back.
#[verifier::external_body]
fn random_u64() -> u64 {
    rand::random::<u64>()
}

/// A fresh sample coordinate in `[0, BARY_ONE)`. Two calls are
/// independent draws; no further property of the value is promised.
pub fn draw_unit() -> (r: u32)
    ensures
        r < BARY_ONE,
{
    let x = random_u64();
    (x % 65536) as u32
}

} // verus!
