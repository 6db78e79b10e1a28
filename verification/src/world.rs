//! The scene: an ordered collection of spheres with nearest-hit aggregation.
use crate::ray::Ray;
use crate::sphere::{HitRecord, Sphere};
use vstd::prelude::*;

verus! {

/// Of two optional hits, the nearer one: the smaller parameter wins, and the
/// first argument wins a tie.
pub open spec fn nearer_hit(a: Option<HitRecord>, b: Option<HitRecord>) -> Option<HitRecord> {
    match a {
        Option::None => b,
        Option::Some(x) => match b {
            Option::None => a,
            Option::Some(y) => if x.t <= y.t {
                a
            } else {
                b
            },
        },
    }
}

/// The nearest hit among the spheres from index `i` on, each queried over the
/// same full window.
pub open spec fn spec_world_hit_from(
    s: Seq<Sphere>,
    i: int,
    r: Ray,
    t_min: int,
    t_max: int,
) -> Option<HitRecord>
    decreases s.len() - i,
{
    if i < 0 || i >= s.len() {
        Option::None
    } else {
        nearer_hit(s[i].spec_hit(r, t_min, t_max), spec_world_hit_from(s, i + 1, r, t_min, t_max))
    }
}

/// The nearest-hit answer is sound and complete with respect to the
/// individual spheres: a miss means every sphere missed; any sphere's hit is
/// dominated (no farther hit is ever returned); and the answer, when present,
/// is exactly one of the spheres' answers.
pub proof fn lemma_world_hit_from_nearest(s: Seq<Sphere>, i: int, r: Ray, t_min: int, t_max: int)
    requires
        0 <= i <= s.len(),
    ensures
        spec_world_hit_from(s, i, r, t_min, t_max) is None ==> forall|j: int|
            i <= j < s.len() ==> (#[trigger] s[j].spec_hit(r, t_min, t_max)) is None,
        forall|j: int|
            i <= j < s.len() ==> ((#[trigger] s[j].spec_hit(r, t_min, t_max)) matches Some(h)
                ==> spec_world_hit_from(s, i, r, t_min, t_max) matches Some(w) && w.t <= h.t),
        spec_world_hit_from(s, i, r, t_min, t_max) matches Some(w) ==> exists|j: int|
            i <= j < s.len() && (#[trigger] s[j].spec_hit(r, t_min, t_max)) == Some(w),
    decreases s.len() - i,
{
    if i < s.len() {
        lemma_world_hit_from_nearest(s, i + 1, r, t_min, t_max);
        let cur = s[i].spec_hit(r, t_min, t_max);
        let rest = spec_world_hit_from(s, i + 1, r, t_min, t_max);
        let whole = spec_world_hit_from(s, i, r, t_min, t_max);
        assert(whole == nearer_hit(cur, rest));
        match whole {
            Option::Some(w) => {
                if cur == Some(w) {
                    assert(s[i].spec_hit(r, t_min, t_max) == Some(w));
                }
            },
            Option::None => {},
        }
    }
}

/// An ordered collection of spheres, owned by the scene and read-only during
/// rendering.
#[derive(Debug, Clone)]
pub struct World {
    pub hittables: Vec<Sphere>,
}

impl World {
    /// Every sphere of the scene is well-formed.
    pub open spec fn wf(self) -> bool {
        forall|i: int|
            0 <= i < self.hittables@.len() ==> (#[trigger] self.hittables@[i]).wf()
    }

    /// The nearest hit over the whole scene.
    pub open spec fn spec_hit(self, r: Ray, t_min: int, t_max: int) -> Option<HitRecord> {
        spec_world_hit_from(self.hittables@, 0, r, t_min, t_max)
    }

    /// Nearest-hit selection: whenever any sphere of the scene reports a hit,
    /// the aggregate reports one too, with a parameter no larger than that
    /// sphere's — so of two overlapping spheres along one ray, the nearer hit
    /// is returned, never the farther one — and the aggregate's answer is
    /// always one of the spheres' own answers.
    pub proof fn lemma_nearest_hit(self, r: Ray, t_min: int, t_max: int)
        ensures
            forall|j: int|
                0 <= j < self.hittables@.len() ==> ((#[trigger] self.hittables@[j].spec_hit(
                    r,
                    t_min,
                    t_max,
                )) matches Some(h) ==> self.spec_hit(r, t_min, t_max) matches Some(w) && w.t
                    <= h.t),
            self.spec_hit(r, t_min, t_max) matches Some(w) ==> exists|j: int|
                0 <= j < self.hittables@.len() && (#[trigger] self.hittables@[j].spec_hit(
                    r,
                    t_min,
                    t_max,
                )) == Some(w),
            self.spec_hit(r, t_min, t_max) is None ==> forall|j: int|
                0 <= j < self.hittables@.len() ==> (#[trigger] self.hittables@[j].spec_hit(
                    r,
                    t_min,
                    t_max,
                )) is None,
    {
        lemma_world_hit_from_nearest(self.hittables@, 0, r, t_min, t_max);
    }

    /// Queries every sphere over the same `(t_min, t_max)` window and returns
    /// the hit with the smallest parameter, or none if every sphere misses.
    pub fn hit(&self, r: &Ray, t_min: i64, t_max: i64) -> (res: Option<HitRecord>)
        requires
            self.wf(),
            r.a@.in_bounds(1000000000),
            r.b@.in_bounds(500000000),
            0 <= t_min < t_max <= 1000000000000,
        ensures
            res == self.spec_hit(*r, t_min as int, t_max as int),
            res matches Some(hr) ==> {
                &&& hr.wf()
                &&& t_min < hr.t < t_max
                &&& 990000000000 <= hr.normal@.dot2(hr.normal@) <= 1010000000000
            },
    {
        let n: usize = self.hittables.len();
        let mut best: Option<HitRecord> = None;
        let mut i: usize = n;
        while i > 0
            invariant
                i <= n,
                n == self.hittables@.len(),
                self.wf(),
                r.a@.in_bounds(1000000000),
                r.b@.in_bounds(500000000),
                0 <= t_min < t_max <= 1000000000000,
                best == spec_world_hit_from(
                    self.hittables@,
                    i as int,
                    *r,
                    t_min as int,
                    t_max as int,
                ),
                best matches Some(hr) ==> {
                    &&& hr.wf()
                    &&& t_min < hr.t < t_max
                    &&& 990000000000 <= hr.normal@.dot2(hr.normal@) <= 1010000000000
                },
            decreases i,
        {
            i = i - 1;
            let sphere: &Sphere = &self.hittables[i];
            let cur: Option<HitRecord> = sphere.hit(r, t_min, t_max);
            best = match cur {
                Some(c) => match best {
                    Some(b) => if c.t <= b.t {
                        Some(c)
                    } else {
                        Some(b)
                    },
                    None => Some(c),
                },
                None => best,
            };
        }
        best
    }
}

} // verus!
