//! Rays: an origin and a direction, evaluated at a scalar parameter.
use crate::fixed::ONE;
use crate::vec3::{lemma_vscale_bound, Vec3, Vec3i};
use vstd::prelude::*;

verus! {

/// A ray `a + t * b`: `a` is the origin, `b` the direction.
/// The direction is not required to have unit length.
#[derive(Debug, Clone, Copy)]
pub struct Ray {
    pub a: Vec3,
    pub b: Vec3,
}

/// The point a ray reaches at parameter `t`, in exact fixed-point arithmetic:
/// the direction is scaled by `t` (with truncation) and added to the origin.
pub open spec fn spec_point_at(r: Ray, t: int) -> Vec3i {
    r.a@.vadd(r.b@.vscale(t))
}

impl Ray {
    /// Builds a ray from an origin and a direction.
    pub fn new(a: Vec3, b: Vec3) -> (r: Ray)
        ensures
            r.a@ == a@,
            r.b@ == b@,
    {
        Ray { a, b }
    }

    /// The ray's origin.
    pub fn origin(&self) -> (r: &Vec3)
        ensures
            r@ == self.a@,
    {
        &self.a
    }

    /// The ray's direction.
    pub fn direction(&self) -> (r: &Vec3)
        ensures
            r@ == self.b@,
    {
        &self.b
    }

    /// Evaluates the ray at parameter `t`.
    pub fn point_at_parameter(&self, t: i64) -> (p: Vec3)
        requires
            self.a@.in_bounds(1000000000),
            self.b@.in_bounds(1000000000),
            -1000000000000 <= t <= 1000000000000,
        ensures
            p@ == spec_point_at(*self, t as int),
            p@.in_bounds(1000000000000001000),
    {
        proof {
            assert(-(1000000000 * 1000000000000) <= self.b@.x * t <= 1000000000 * 1000000000000 && -(
            1000000000 * 1000000000000) <= self.b@.y * t <= 1000000000 * 1000000000000 && -(
            1000000000 * 1000000000000) <= self.b@.z * t <= 1000000000 * 1000000000000)
                by (nonlinear_arith)
                requires
                    self.b@.in_bounds(1000000000),
                    -1000000000000 <= t <= 1000000000000,
            ;
            lemma_vscale_bound(self.b@, t as int, 1000000000, 1000000000000, 1000000000000000000);
        }
        let scaled: Vec3 = self.b.mul(t);
        self.a.add(&scaled)
    }
}

} // verus!
