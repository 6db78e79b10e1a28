//! Light transport: resolving the color seen along a ray.
//!
//! The recursion of scatter events is an explicit loop carrying the product
//! of the attenuations; it ends at a miss (background gradient), an
//! absorption, or the depth limit (black).
use crate::fixed::{lemma_fp_mul_non_amplifying, ONE};
use crate::ray::Ray;
use crate::sphere::HitRecord;
use crate::vec3::{lemma_vmul_non_amplifying, lemma_vmul_white_identity, Vec3, Vec3i};
use crate::world::World;
use vstd::prelude::*;

verus! {

/// The self-intersection guard: hits closer than this (0.0001 units) are
/// ignored, so a scattered ray does not immediately re-hit its own surface.
pub const T_EPSILON: i64 = 100;

/// The far end of every intersection window: one million units stands in for
/// infinity.
pub const T_LIMIT: i64 = 1000000000000;

/// The background gradient: with `t = (unit(dir).y + ONE) / 2`, the blend
/// `(1 - t) * white + t * sky_blue`, where `sky_blue = (0.5, 0.7, 1.0)`.
pub open spec fn spec_background(r: Ray) -> Vec3i {
    let u = r.b@.vunit();
    let t = (u.y + ONE) / 2;
    (Vec3i { x: ONE as int, y: ONE as int, z: ONE as int }).vscale(ONE - t).vadd(
        (Vec3i { x: 500000, y: 700000, z: ONE as int }).vscale(t),
    )
}

/// Computes the background gradient for a ray that hits nothing.
pub fn background(r: &Ray) -> (c: Vec3)
    requires
        r.b@.in_bounds(500000000),
        r.b@.dot2(r.b@) >= 1,
    ensures
        c@ == spec_background(*r),
        c@.in_unit_range(),
{
    let u: Vec3 = r.b.unit();
    let t: i64 = (u.y + ONE) / 2;
    let omt: i64 = ONE - t;
    proof {
        assert(0 <= t <= ONE);
        assert(-(i64::MAX as int) * (ONE as int) <= (ONE as int) * omt <= (i64::MAX as int) * (
        ONE as int) && -(i64::MAX as int) * (ONE as int) <= 500000 * t <= (i64::MAX as int) * (
        ONE as int) && -(i64::MAX as int) * (ONE as int) <= 700000 * t <= (i64::MAX as int) * (
        ONE as int) && -(i64::MAX as int) * (ONE as int) <= (ONE as int) * t <= (i64::MAX as int)
            * (ONE as int)) by (nonlinear_arith)
            requires
                0 <= t <= ONE,
                0 <= omt <= ONE,
        ;
        lemma_fp_mul_non_amplifying(ONE as int, omt as int);
        lemma_fp_mul_non_amplifying(500000, t as int);
        lemma_fp_mul_non_amplifying(700000, t as int);
        lemma_fp_mul_non_amplifying(ONE as int, t as int);
    }
    let white: Vec3 = Vec3::new(ONE, ONE, ONE);
    let sky: Vec3 = Vec3::new(500000, 700000, ONE);
    let wpart: Vec3 = white.mul(omt);
    let spart: Vec3 = sky.mul(t);
    wpart.add(&spart)
}

/// Resolves the color along a ray by following scatter events.
///
/// For every input the result is a color in range (energy is never
/// amplified); a ray that hits nothing yields exactly the background
/// gradient whatever the depth limit; and a ray that hits something under a
/// zero depth limit yields exactly black.
pub fn color(r: &Ray, world: &World, max_depth: u32) -> (c: Vec3)
    requires
        world.wf(),
        r.a@.in_bounds(1000000000),
        r.b@.in_bounds(500000000),
        r.b@.dot2(r.b@) >= 1,
    ensures
        c@.in_unit_range(),
        world.spec_hit(*r, T_EPSILON as int, T_LIMIT as int) is None ==> c@ == spec_background(*r),
        world.spec_hit(*r, T_EPSILON as int, T_LIMIT as int) is Some && max_depth == 0 ==> c@ == (
        Vec3i { x: 0, y: 0, z: 0 }),
{
    let mut cur: Ray = *r;
    let mut atten: Vec3 = Vec3::new(ONE, ONE, ONE);
    let mut depth: u32 = 0;
    loop
        invariant
            world.wf(),
            cur.a@.in_bounds(1000000000),
            cur.b@.in_bounds(500000000),
            cur.b@.dot2(cur.b@) >= 1,
            atten@.in_unit_range(),
            depth <= max_depth,
            depth == 0 ==> cur == *r && atten@ == (Vec3i {
                x: ONE as int,
                y: ONE as int,
                z: ONE as int,
            }),
            depth > 0 ==> world.spec_hit(*r, T_EPSILON as int, T_LIMIT as int) is Some,
            r.a@.in_bounds(1000000000),
            r.b@.in_bounds(500000000),
            r.b@.dot2(r.b@) >= 1,
        decreases max_depth - depth,
    {
        let hit: Option<HitRecord> = world.hit(&cur, T_EPSILON, T_LIMIT);
        match hit {
            None => {
                let bg: Vec3 = background(&cur);
                proof {
                    lemma_vmul_non_amplifying(atten@, bg@);
                    if depth == 0 {
                        lemma_vmul_white_identity(atten@, bg@);
                    }
                    assert(0 <= atten@.x * bg@.x <= (i64::MAX as int) * (ONE as int) && 0 <= atten@.y
                        * bg@.y <= (i64::MAX as int) * (ONE as int) && 0 <= atten@.z * bg@.z <= (
                    i64::MAX as int) * (ONE as int)) by (nonlinear_arith)
                        requires
                            atten@.in_unit_range(),
                            bg@.in_unit_range(),
                            ONE == 1000000,
                            i64::MAX >= 1000000,
                    ;
                }
                return atten.mul_vec(&bg);
            },
            Some(hit_record) => {
                if depth >= max_depth {
                    return Vec3::new(0, 0, 0);
                }
                let scattered: Option<crate::material::Scatter> = hit_record.material.scatter(
                    &cur,
                    &hit_record,
                );
                match scattered {
                    None => {
                        return Vec3::new(0, 0, 0);
                    },
                    Some(sc) => {
                        let d2: i128 = sc.scattered.b.dot2(&sc.scattered.b);
                        if d2 < 1 {
                            // A degenerate scattered direction cannot carry
                            // radiance: treat it as absorbed.
                            return Vec3::new(0, 0, 0);
                        }
                        proof {
                            lemma_vmul_non_amplifying(atten@, sc.attenuation@);
                            assert(0 <= atten@.x * sc.attenuation@.x <= (i64::MAX as int) * (
                            ONE as int) && 0 <= atten@.y * sc.attenuation@.y <= (i64::MAX as int)
                                * (ONE as int) && 0 <= atten@.z * sc.attenuation@.z <= (
                            i64::MAX as int) * (ONE as int)) by (nonlinear_arith)
                                requires
                                    atten@.in_unit_range(),
                                    sc.attenuation@.in_unit_range(),
                                    ONE == 1000000,
                                    i64::MAX >= 1000000,
                            ;
                        }
                        atten = atten.mul_vec(&sc.attenuation);
                        cur = sc.scattered;
                        depth = depth + 1;
                    },
                }
            },
        }
    }
}

} // verus!
