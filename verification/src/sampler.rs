//! Randomness for Monte Carlo sampling.
//!
//! All random draws come from one trusted wrapper around the process-wide
//! generator; everything derived from them is verified for every outcome.
use crate::fixed::ONE;
use crate::vec3::Vec3;
use vstd::prelude::*;

verus! {

/// Relies on rand::random::<u64>: a random 64-bit integer from the
/// process-wide thread-local generator. Nothing is promised of the value.
#[verifier::external_body]
fn random_u64() -> u64 {
    rand::random::<u64>()
}

/// A random fixed-point value in `[0, ONE)`, standing for a real in `[0, 1)`.
pub fn random_unit() -> (r: i64)
    ensures
        0 <= r < ONE,
{
    let raw: u64 = random_u64();
    (raw % (ONE as u64)) as i64
}

/// A random point in the open unit ball, by rejection sampling: each
/// component is drawn as `2 * uniform(0, 1) - 1` and the point is kept once
/// its raw squared length is below one. The number of rounds is capped; if
/// every draw is rejected the center of the ball is returned, which satisfies
/// the same bound.
pub fn random_in_unit_sphere() -> (p: Vec3)
    ensures
        p@.in_bounds(ONE as int),
        p@.dot2(p@) < (ONE as int) * (ONE as int),
{
    let mut tries: u32 = 0;
    while tries < 64
        invariant
            tries <= 64,
        decreases 64 - tries,
    {
        let x: i64 = 2 * random_unit() - ONE;
        let y: i64 = 2 * random_unit() - ONE;
        let z: i64 = 2 * random_unit() - ONE;
        let p: Vec3 = Vec3::new(x, y, z);
        let d2: i128 = p.dot2(&p);
        if d2 < (ONE as i128) * (ONE as i128) {
            return p;
        }
        tries = tries + 1;
    }
    Vec3::new(0, 0, 0)
}

} // verus!
