//! Sphere geometry and the record of a successful intersection.
//!
//! The intersection solves the quadratic `|origin + t * dir - center|^2 =
//! radius^2`. Its coefficients are computed exactly at the doubled scale
//! `ONE * ONE`, so the discriminant's sign is exact; only the square root and
//! the final divisions truncate. The near root is preferred, the far root
//! tried next, and a hit is reported only when the derived point and normal
//! pass the world bound and the near-unit-normal check.
use crate::fixed::{div_trunc, sqrt_floor, isqrt, lemma_sqrt_floor_props, ONE};
use crate::material::Material;
use crate::ray::{spec_point_at, Ray};
use crate::vec3::{lemma_dot2_bound, lemma_dot2_self_nonneg, Vec3, Vec3i};
use vstd::prelude::*;

verus! {

/// The result of a successful ray intersection: the ray parameter `t`, the
/// world-space point `p`, the unit outward normal, and the material hit.
/// The material is held by value (a small closed variant type) rather than
/// by reference into the scene.
#[derive(Debug, Clone, Copy)]
pub struct HitRecord {
    pub t: i64,
    pub p: Vec3,
    pub normal: Vec3,
    pub material: Material,
}

/// How far the square of a truncated quotient, rescaled by the divisor, can
/// sit from the square of what was divided: one truncation step per factor.
proof fn lemma_square_of_truncated_quotient(pc: int, n: int, rad: int)
    requires
        rad >= 1,
        -2000000 <= n <= 2000000,
        n == div_trunc(pc * 1000000, rad),
    ensures
        n * n * (rad * rad) - 4000001 * (rad * rad) <= (pc * 1000000) * (pc * 1000000),
        (pc * 1000000) * (pc * 1000000) <= n * n * (rad * rad) + 4000001 * (rad * rad),
{
    crate::fixed::lemma_div_trunc_remainder(pc * 1000000, rad);
    let e = pc * 1000000 - n * rad;
    assert(n * n * (rad * rad) - 4000001 * (rad * rad) <= (n * rad + e) * (n * rad + e) <= n * n
        * (rad * rad) + 4000001 * (rad * rad)) by (nonlinear_arith)
        requires
            rad >= 1,
            -2000000 <= n <= 2000000,
            -(rad - 1) <= e <= rad - 1,
    ;
}

impl HitRecord {
    /// What every intersection routine guarantees of a returned record:
    /// a nonnegative parameter, a point within the world bound, a normal of
    /// nearly unit raw length, and a well-formed material.
    pub open spec fn wf(self) -> bool {
        &&& self.t >= 0
        &&& self.p@.in_bounds(1000000000)
        &&& self.normal@.in_bounds(2000000)
        &&& self.material.wf()
    }
}

/// Immutable scene geometry: a sphere with its material.
#[derive(Debug, Clone, Copy)]
pub struct Sphere {
    pub center: Vec3,
    pub radius: i64,
    pub material: Material,
}

impl Sphere {
    /// A well-formed sphere: its center within the scene bound (120 units),
    /// its radius positive (at least a thousandth of a unit) and bounded.
    pub open spec fn wf(self) -> bool {
        &&& self.center@.in_bounds(120000000)
        &&& 1000 <= self.radius <= 120000000
        &&& self.material.wf()
    }

    /// `origin - center`, the vector from the sphere's center to the ray's origin.
    pub open spec fn spec_oc(self, r: Ray) -> Vec3i {
        r.a@.vsub(self.center@)
    }

    /// Quadratic coefficient `a = dir . dir`, exact at scale `ONE * ONE`.
    pub open spec fn spec_a2(self, r: Ray) -> int {
        r.b@.dot2(r.b@)
    }

    /// Quadratic coefficient `b = 2 * (oc . dir)`, exact at scale `ONE * ONE`.
    pub open spec fn spec_b2(self, r: Ray) -> int {
        2 * self.spec_oc(r).dot2(r.b@)
    }

    /// Quadratic coefficient `c = oc . oc - radius^2`, exact at scale `ONE * ONE`.
    pub open spec fn spec_c2(self, r: Ray) -> int {
        self.spec_oc(r).dot2(self.spec_oc(r)) - self.radius * self.radius
    }

    /// The exact discriminant `b^2 - 4 a c` of the intersection quadratic,
    /// at scale `ONE^4`. Nonpositive means the ray misses (a tangent counts
    /// as a miss).
    pub open spec fn spec_discriminant(self, r: Ray) -> int {
        self.spec_b2(r) * self.spec_b2(r) - 4 * self.spec_a2(r) * self.spec_c2(r)
    }

    /// The near intersection parameter `(-b - sqrt(disc)) / (2a)` as a
    /// fixed-point value, truncated toward zero.
    pub open spec fn spec_root_near(self, r: Ray) -> int {
        div_trunc(
            (-self.spec_b2(r) - sqrt_floor(self.spec_discriminant(r))) * (ONE as int),
            2 * self.spec_a2(r),
        )
    }

    /// The far intersection parameter `(-b + sqrt(disc)) / (2a)`.
    pub open spec fn spec_root_far(self, r: Ray) -> int {
        div_trunc(
            (-self.spec_b2(r) + sqrt_floor(self.spec_discriminant(r))) * (ONE as int),
            2 * self.spec_a2(r),
        )
    }

    /// The accepted parameter: the near root if it lies strictly inside
    /// `(t_min, t_max)`, otherwise the far root, otherwise none. A ray with a
    /// degenerate (zero) direction never hits.
    pub open spec fn spec_chosen_t(self, r: Ray, t_min: int, t_max: int) -> Option<int> {
        if self.spec_a2(r) <= 0 || self.spec_discriminant(r) <= 0 {
            None
        } else if t_min < self.spec_root_near(r) < t_max {
            Some(self.spec_root_near(r))
        } else if t_min < self.spec_root_far(r) < t_max {
            Some(self.spec_root_far(r))
        } else {
            None
        }
    }

    /// The outward normal at parameter `t`: `(point - center) / radius`.
    pub open spec fn spec_normal_at(self, r: Ray, t: int) -> Vec3i {
        spec_point_at(r, t).vsub(self.center@).vdiv(self.radius as int)
    }

    /// Whether the derived hit data is reportable: the point lies within the
    /// world bound and the normal is a unit vector up to the fixed tolerance
    /// (raw squared length within one percent of `ONE * ONE`). Truncation can
    /// only break this for extreme geometry; such a hit is treated as a miss.
    pub open spec fn spec_hit_ok(self, r: Ray, t: int) -> bool {
        let p = spec_point_at(r, t);
        let n = self.spec_normal_at(r, t);
        &&& p.in_bounds(1000000000)
        &&& n.in_bounds(2000000)
        &&& 990000000000 <= n.dot2(n) <= 1010000000000
    }

    /// The record reported at parameter `t`.
    pub open spec fn spec_hit_record(self, r: Ray, t: int) -> HitRecord {
        let p = spec_point_at(r, t);
        let n = self.spec_normal_at(r, t);
        HitRecord {
            t: t as i64,
            p: Vec3 { x: p.x as i64, y: p.y as i64, z: p.z as i64 },
            normal: Vec3 { x: n.x as i64, y: n.y as i64, z: n.z as i64 },
            material: self.material,
        }
    }

    /// The full intersection query as a mathematical function of the inputs.
    pub open spec fn spec_hit(self, r: Ray, t_min: int, t_max: int) -> Option<HitRecord> {
        match self.spec_chosen_t(r, t_min, t_max) {
            None => None,
            Some(t) => if self.spec_hit_ok(r, t) {
                Some(self.spec_hit_record(r, t))
            } else {
                None
            },
        }
    }

    /// Ray-sphere round trip: every reported hit lies on the sphere's
    /// surface. The raw squared distance from `point` to `center`, rescaled
    /// by `ONE * ONE`, is within the library's tolerance of `radius^2`: the
    /// one-percent band of the normal check widened by one truncation step
    /// per axis.
    pub proof fn lemma_hit_point_on_surface(self, r: Ray, t_min: int, t_max: int)
        requires
            self.wf(),
        ensures
            self.spec_hit(r, t_min, t_max) matches Some(h) ==> {
                let pc = h.p@.vsub(self.center@);
                &&& 989987000000 * (self.radius * self.radius) <= pc.dot2(pc) * 1000000000000
                &&& pc.dot2(pc) * 1000000000000 <= 1010013000000 * (self.radius * self.radius)
            },
    {
        match self.spec_chosen_t(r, t_min, t_max) {
            Option::None => {},
            Option::Some(t) => {
                if self.spec_hit_ok(r, t) {
                    let h = self.spec_hit_record(r, t);
                    let p = spec_point_at(r, t);
                    let n = self.spec_normal_at(r, t);
                    let rad = self.radius as int;
                    assert(h.p@ == p);
                    let pc = p.vsub(self.center@);
                    lemma_square_of_truncated_quotient(pc.x, n.x, rad);
                    lemma_square_of_truncated_quotient(pc.y, n.y, rad);
                    lemma_square_of_truncated_quotient(pc.z, n.z, rad);
                    assert(pc.dot2(pc) * 1000000000000 == (pc.x * 1000000) * (pc.x * 1000000) + (
                    pc.y * 1000000) * (pc.y * 1000000) + (pc.z * 1000000) * (pc.z * 1000000))
                        by (nonlinear_arith)
                        requires
                            pc.dot2(pc) == pc.x * pc.x + pc.y * pc.y + pc.z * pc.z,
                    ;
                    assert(n.dot2(n) * (rad * rad) == n.x * n.x * (rad * rad) + n.y * n.y * (rad
                        * rad) + n.z * n.z * (rad * rad)) by (nonlinear_arith)
                        requires
                            n.dot2(n) == n.x * n.x + n.y * n.y + n.z * n.z,
                    ;
                    assert(990000000000 * (rad * rad) <= n.dot2(n) * (rad * rad) <= 1010000000000
                        * (rad * rad)) by (nonlinear_arith)
                        requires
                            990000000000 <= n.dot2(n) <= 1010000000000,
                            rad >= 1,
                    ;
                }
            },
        }
    }

    /// Miss correctness: a ray whose line passes the sphere's center farther
    /// than the radius reports no hit. The premise states exactly that the
    /// squared distance from the center to the ray's line exceeds the squared
    /// radius, cleared of denominators: `(oc.oc - radius^2) * (d.d) >
    /// (oc.d)^2`, where `oc = origin - center` and `d` is the direction.
    pub proof fn lemma_miss_when_beyond_radius(self, r: Ray, t_min: int, t_max: int)
        requires
            self.spec_c2(r) * self.spec_a2(r) > self.spec_oc(r).dot2(r.b@) * self.spec_oc(r).dot2(
                r.b@,
            ),
        ensures
            self.spec_hit(r, t_min, t_max) is None,
    {
        let od = self.spec_oc(r).dot2(r.b@);
        assert(self.spec_discriminant(r) < 0) by (nonlinear_arith)
            requires
                self.spec_b2(r) == 2 * od,
                self.spec_discriminant(r) == self.spec_b2(r) * self.spec_b2(r) - 4 * self.spec_a2(
                    r,
                ) * self.spec_c2(r),
                self.spec_c2(r) * self.spec_a2(r) > od * od,
        ;
    }

    /// Ray-sphere intersection over the window `(t_min, t_max)`, both ends
    /// exclusive. Returns the nearest reportable intersection, preferring the
    /// near root of the quadratic, or none when the ray misses.
    pub fn hit(&self, r: &Ray, t_min: i64, t_max: i64) -> (res: Option<HitRecord>)
        requires
            self.wf(),
            r.a@.in_bounds(1000000000),
            r.b@.in_bounds(500000000),
            0 <= t_min < t_max <= 1000000000000,
        ensures
            res == self.spec_hit(*r, t_min as int, t_max as int),
            res matches Some(hr) ==> {
                &&& hr.wf()
                &&& t_min < hr.t < t_max
                &&& hr.material == self.material
                &&& 990000000000 <= hr.normal@.dot2(hr.normal@) <= 1010000000000
            },
    {
        let ghost sp = *self;
        let ghost rr = *r;
        let oc: Vec3 = r.a.sub(&self.center);
        let a2: i128 = r.b.dot2(&r.b);
        let dot_oc_d: i128 = oc.dot2(&r.b);
        let oc2: i128 = oc.dot2(&oc);
        proof {
            lemma_dot2_self_nonneg(rr.b@);
            lemma_dot2_self_nonneg(sp.spec_oc(rr));
            lemma_dot2_bound(rr.b@, rr.b@, 500000000, 500000000);
            lemma_dot2_bound(sp.spec_oc(rr), rr.b@, 1120000000, 500000000);
            lemma_dot2_bound(sp.spec_oc(rr), sp.spec_oc(rr), 1120000000, 1120000000);
            assert((sp.radius as int) * (sp.radius as int) <= 14400000000000000 && (sp.radius as int)
                * (sp.radius as int) >= 0) by (nonlinear_arith)
                requires
                    1000 <= sp.radius <= 120000000,
            ;
        }
        let b2: i128 = 2 * dot_oc_d;
        let c2: i128 = oc2 - (self.radius as i128) * (self.radius as i128);
        proof {
            assert(0 <= b2 * b2 <= 12000000000000000000000000000000000000) by (nonlinear_arith)
                requires
                    -3360000000000000000 <= b2 <= 3360000000000000000,
            ;
            assert(-12000000000000000000000000000000000000 <= 4 * a2 * c2
                <= 12000000000000000000000000000000000000) by (nonlinear_arith)
                requires
                    0 <= a2 <= 750000000000000000,
                    -3780000000000000000 <= c2 <= 3780000000000000000,
            ;
        }
        let disc: i128 = b2 * b2 - 4 * a2 * c2;
        if a2 <= 0 || disc <= 0 {
            return None;
        }
        let sq_u: u64 = isqrt(disc as u128);
        let sq: i128 = sq_u as i128;
        proof {
            assert(sq * sq <= disc as int);
            assert(sq <= 5000000000000000000) by {
                if sq > 5000000000000000000 {
                    assert(25000000000000000000000000000000000000 < sq * sq) by (nonlinear_arith)
                        requires
                            sq > 5000000000000000000,
                    ;
                }
            }
            assert(-9000000000000000000000000000 <= (-b2 - sq) * (ONE as int)
                <= 9000000000000000000000000000 && -9000000000000000000000000000 <= (-b2 + sq) * (
            ONE as int) <= 9000000000000000000000000000) by (nonlinear_arith)
                requires
                    -3360000000000000000 <= b2 <= 3360000000000000000,
                    0 <= sq <= 5000000000000000000,
                    ONE == 1000000,
            ;
        }
        let t_near: i128 = ((-b2 - sq) * (ONE as i128)) / (2 * a2);
        let t_far: i128 = ((-b2 + sq) * (ONE as i128)) / (2 * a2);
        let t_lo: i128 = t_min as i128;
        let t_hi: i128 = t_max as i128;
        let t_val: i128 = if t_lo < t_near && t_near < t_hi {
            t_near
        } else if t_lo < t_far && t_far < t_hi {
            t_far
        } else {
            return None;
        };
        let t: i64 = t_val as i64;
        let p: Vec3 = r.point_at_parameter(t);
        if p.x < -1000000000 || p.x > 1000000000 || p.y < -1000000000 || p.y > 1000000000 || p.z
            < -1000000000 || p.z > 1000000000 {
            return None;
        }
        let pc: Vec3 = p.sub(&self.center);
        proof {
            assert(-(i64::MAX as int) * (sp.radius as int) <= pc@.x * (ONE as int) <= (
            i64::MAX as int) * (sp.radius as int) && -(i64::MAX as int) * (sp.radius as int)
                <= pc@.y * (ONE as int) <= (i64::MAX as int) * (sp.radius as int) && -(
            i64::MAX as int) * (sp.radius as int) <= pc@.z * (ONE as int) <= (i64::MAX as int) * (
            sp.radius as int)) by (nonlinear_arith)
                requires
                    pc@.in_bounds(1120000000),
                    1000 <= sp.radius,
        ;
        }
        let n: Vec3 = pc.div(self.radius);
        if n.x < -2000000 || n.x > 2000000 || n.y < -2000000 || n.y > 2000000 || n.z < -2000000
            || n.z > 2000000 {
            return None;
        }
        let nsl: i128 = n.dot2(&n);
        if nsl < 990000000000 || nsl > 1010000000000 {
            return None;
        }
        Some(HitRecord { t, p, normal: n, material: self.material })
    }
}

} // verus!
