//! The camera: maps normalized viewport coordinates to world-space rays.
use crate::fixed::ONE;
use crate::vec3::{lemma_vscale_bound, Vec3, Vec3i};
use crate::ray::Ray;
use vstd::prelude::*;

verus! {

/// An axis-aligned viewport rectangle in world space: rays go from `origin`
/// toward points of the rectangle spanned by `horizontal` and `vertical`
/// from `lower_left_corner`.
#[derive(Debug, Clone, Copy)]
pub struct Camera {
    pub origin: Vec3,
    pub lower_left_corner: Vec3,
    pub horizontal: Vec3,
    pub vertical: Vec3,
}

impl Camera {
    /// A well-formed camera keeps all four vectors within the scene bound.
    pub open spec fn wf(self) -> bool {
        &&& self.origin@.in_bounds(120000000)
        &&& self.lower_left_corner@.in_bounds(120000000)
        &&& self.horizontal@.in_bounds(120000000)
        &&& self.vertical@.in_bounds(120000000)
    }

    /// The direction of the ray through viewport coordinates `(u, v)`:
    /// `lower_left_corner + u * horizontal + v * vertical - origin`. The
    /// origin is subtracted so that a camera away from the world origin
    /// still aims at the viewport rectangle.
    pub open spec fn spec_ray_direction(self, u: int, v: int) -> Vec3i {
        self.lower_left_corner@.vadd(self.horizontal@.vscale(u)).vadd(
            self.vertical@.vscale(v),
        ).vsub(self.origin@)
    }

    /// The ray through viewport coordinates `(u, v)`, each in `[0, ONE]`.
    pub fn get_ray(&self, u: i64, v: i64) -> (r: Ray)
        requires
            self.wf(),
            0 <= u <= ONE,
            0 <= v <= ONE,
        ensures
            r.a@ == self.origin@,
            r.b@ == self.spec_ray_direction(u as int, v as int),
            r.b@.in_bounds(480000000),
    {
        proof {
            assert(-(i64::MAX as int) * (ONE as int) <= self.horizontal@.x * u <= (i64::MAX as int)
                * (ONE as int) && -(i64::MAX as int) * (ONE as int) <= self.horizontal@.y * u <= (
            i64::MAX as int) * (ONE as int) && -(i64::MAX as int) * (ONE as int)
                <= self.horizontal@.z * u <= (i64::MAX as int) * (ONE as int) && -(i64::MAX as int)
                * (ONE as int) <= self.vertical@.x * v <= (i64::MAX as int) * (ONE as int) && -(
            i64::MAX as int) * (ONE as int) <= self.vertical@.y * v <= (i64::MAX as int) * (
            ONE as int) && -(i64::MAX as int) * (ONE as int) <= self.vertical@.z * v <= (
            i64::MAX as int) * (ONE as int)) by (nonlinear_arith)
                requires
                    self.horizontal@.in_bounds(120000000),
                    self.vertical@.in_bounds(120000000),
                    0 <= u <= ONE,
                    0 <= v <= ONE,
                    ONE == 1000000,
            ;
            lemma_vscale_bound(self.horizontal@, u as int, 120000000, ONE as int, 120000000);
            lemma_vscale_bound(self.vertical@, v as int, 120000000, ONE as int, 120000000);
        }
        let uh: Vec3 = self.horizontal.mul(u);
        let vv: Vec3 = self.vertical.mul(v);
        let dir: Vec3 = self.lower_left_corner.add(&uh).add(&vv).sub(&self.origin);
        Ray { a: self.origin, b: dir }
    }
}

} // verus!
