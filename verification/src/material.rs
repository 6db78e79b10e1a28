//! Materials and their scattering behavior.
//!
//! The two material kinds form a closed variant type, dispatched by `match`.
//! Scattering is split in two layers: a deterministic core that takes the
//! random unit-ball sample as an argument and is specified exactly, and the
//! sampling wrapper that draws the sample.
use crate::fixed::{div_trunc, lemma_div_trunc_bound, ONE};
use crate::ray::Ray;
use crate::sampler::random_in_unit_sphere;
use crate::sphere::HitRecord;
use crate::vec3::{lemma_dot2_bound, lemma_vscale_bound, Vec3, Vec3i};
use vstd::prelude::*;

verus! {

/// A material's response to a ray: a color attenuation and the outgoing ray.
#[derive(Debug, Clone, Copy)]
pub struct Scatter {
    pub attenuation: Vec3,
    pub scattered: Ray,
}

/// A diffuse surface: always scatters near the normal, attenuates by albedo.
#[derive(Debug, Clone, Copy)]
pub struct Lambertian {
    pub albedo: Vec3,
}

/// A reflective surface with a fuzz factor roughening the mirror direction.
#[derive(Debug, Clone, Copy)]
pub struct Metal {
    pub albedo: Vec3,
    pub fuzz: i64,
}

/// The closed set of material kinds.
#[derive(Debug, Clone, Copy)]
pub enum Material {
    Lambertian(Lambertian),
    Metal(Metal),
}

/// Mirror reflection of `v` about the normal `n`: `v - 2 * (v . n) * n`,
/// with the dot product and the scaling truncated to the fixed-point scale.
pub open spec fn spec_reflect(v: Vec3i, n: Vec3i) -> Vec3i {
    v.vsub(n.vscale(2 * div_trunc(v.dot2(n), ONE as int)))
}

/// The scattered direction of each material for a given unit-ball sample:
/// diffuse bounces toward `normal + sample`; metal reflects the unit incoming
/// direction and perturbs it by `fuzz * sample`.
pub open spec fn spec_scatter_direction(m: Material, r: Ray, hr: HitRecord, s: Vec3i) -> Vec3i {
    match m {
        Material::Lambertian(_) => hr.normal@.vadd(s),
        Material::Metal(mt) => spec_reflect(r.b@.vunit(), hr.normal@).vadd(
            s.vscale(mt.fuzz as int),
        ),
    }
}

/// Whether the material scatters (rather than absorbs) for this sample:
/// a diffuse surface always scatters; a metal only when the scattered
/// direction leaves the surface, i.e. has positive raw dot product with the
/// normal.
pub open spec fn spec_scatters(m: Material, r: Ray, hr: HitRecord, s: Vec3i) -> bool {
    match m {
        Material::Lambertian(_) => true,
        Material::Metal(_) => spec_scatter_direction(m, r, hr, s).dot2(hr.normal@) > 0,
    }
}

impl Material {
    /// A well-formed material: albedo channels in `[0, ONE]`, and for metal a
    /// fuzz factor in `[0, ONE]`.
    pub open spec fn wf(self) -> bool {
        match self {
            Material::Lambertian(l) => l.albedo@.in_unit_range(),
            Material::Metal(m) => m.albedo@.in_unit_range() && 0 <= m.fuzz <= ONE,
        }
    }

    /// The material's base reflectance color.
    pub open spec fn spec_albedo(self) -> Vec3i {
        match self {
            Material::Lambertian(l) => l.albedo@,
            Material::Metal(m) => m.albedo@,
        }
    }

    /// Deterministic scattering core: the random unit-ball sample is an
    /// argument, and the result is pinned down exactly as a function of it.
    pub fn scatter_with_sample(&self, r: &Ray, hit_record: &HitRecord, sample: &Vec3) -> (res:
        Option<Scatter>)
        requires
            self.wf(),
            hit_record.wf(),
            r.b@.in_bounds(1000000000),
            r.b@.dot2(r.b@) >= 1,
            sample@.in_bounds(ONE as int),
        ensures
            res is Some <==> spec_scatters(*self, *r, *hit_record, sample@),
            res matches Some(sc) ==> {
                &&& sc.attenuation@ == self.spec_albedo()
                &&& sc.attenuation@.in_unit_range()
                &&& sc.scattered.a@ == hit_record.p@
                &&& sc.scattered.b@ == spec_scatter_direction(*self, *r, *hit_record, sample@)
                &&& sc.scattered.b@.in_bounds(100000000)
            },
    {
        match self {
            Material::Lambertian(l) => {
                let target: Vec3 = hit_record.p.add(&hit_record.normal).add(sample);
                let dir: Vec3 = target.sub(&hit_record.p);
                Some(
                    Scatter {
                        attenuation: l.albedo,
                        scattered: Ray { a: hit_record.p, b: dir },
                    },
                )
            },
            Material::Metal(m) => {
                let u: Vec3 = r.b.unit();
                proof {
                    lemma_dot2_bound(u@, hit_record.normal@, ONE as int, 2000000);
                    lemma_div_trunc_bound(u@.dot2(hit_record.normal@), ONE as int, 6000000);
                }
                let dn: i64 = u.dot(&hit_record.normal);
                let two_dn: i64 = 2 * dn;
                proof {
                    assert(-(i64::MAX as int) * (ONE as int) <= hit_record.normal@.x * two_dn <= (
                    i64::MAX as int) * (ONE as int) && -(i64::MAX as int) * (ONE as int)
                        <= hit_record.normal@.y * two_dn <= (i64::MAX as int) * (ONE as int) && -(
                    i64::MAX as int) * (ONE as int) <= hit_record.normal@.z * two_dn <= (
                    i64::MAX as int) * (ONE as int)) by (nonlinear_arith)
                        requires
                            hit_record.normal@.in_bounds(2000000),
                            -12000000 <= two_dn <= 12000000,
                    ;
                    lemma_vscale_bound(
                        hit_record.normal@,
                        two_dn as int,
                        2000000,
                        12000000,
                        24000000,
                    );
                    assert(2000000 * 12000000 <= 24000000 * (ONE as int));
                }
                let refl_term: Vec3 = hit_record.normal.mul(two_dn);
                let reflected: Vec3 = u.sub(&refl_term);
                proof {
                    assert(-(i64::MAX as int) * (ONE as int) <= sample@.x * m.fuzz <= (
                    i64::MAX as int) * (ONE as int) && -(i64::MAX as int) * (ONE as int)
                        <= sample@.y * m.fuzz <= (i64::MAX as int) * (ONE as int) && -(
                    i64::MAX as int) * (ONE as int) <= sample@.z * m.fuzz <= (i64::MAX as int) * (
                    ONE as int)) by (nonlinear_arith)
                        requires
                            sample@.in_bounds(ONE as int),
                            0 <= m.fuzz <= ONE,
                    ;
                    lemma_vscale_bound(sample@, m.fuzz as int, ONE as int, ONE as int, ONE as int);
                }
                let fuzz_term: Vec3 = sample.mul(m.fuzz);
                let dir: Vec3 = reflected.add(&fuzz_term);
                let d2: i128 = dir.dot2(&hit_record.normal);
                if d2 > 0 {
                    Some(
                        Scatter {
                            attenuation: m.albedo,
                            scattered: Ray { a: hit_record.p, b: dir },
                        },
                    )
                } else {
                    None
                }
            },
        }
    }

    /// Scattering as the transport loop uses it: draws a random unit-ball
    /// sample and applies the deterministic core, so the result equals the
    /// core's answer for some point of the open unit ball.
    pub fn scatter(&self, r: &Ray, hit_record: &HitRecord) -> (res: Option<Scatter>)
        requires
            self.wf(),
            hit_record.wf(),
            r.b@.in_bounds(1000000000),
            r.b@.dot2(r.b@) >= 1,
        ensures
            res matches Some(sc) ==> {
                &&& sc.attenuation@ == self.spec_albedo()
                &&& sc.attenuation@.in_unit_range()
                &&& sc.scattered.a@ == hit_record.p@
                &&& sc.scattered.b@.in_bounds(100000000)
            },
            exists|s: Vec3i|
                {
                    &&& #[trigger] s.dot2(s) < (ONE as int) * (ONE as int)
                    &&& s.in_bounds(ONE as int)
                    &&& (res is Some <==> spec_scatters(*self, *r, *hit_record, s))
                    &&& (res matches Some(sc) ==> sc.scattered.b@ == spec_scatter_direction(
                        *self,
                        *r,
                        *hit_record,
                        s,
                    ))
                },
    {
        let sample: Vec3 = random_in_unit_sphere();
        let res: Option<Scatter> = self.scatter_with_sample(r, hit_record, &sample);
        proof {
            assert(sample@.dot2(sample@) < (ONE as int) * (ONE as int));
        }
        res
    }
}

} // verus!
