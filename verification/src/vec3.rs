//! Three-component fixed-point vectors, doubling as points and RGB colors.
//!
//! The view of a [`Vec3`] is a [`Vec3i`], the same three components as
//! unbounded integers; every operation's contract states the exact result
//! over that view, including the truncation of the fixed-point scale.
use crate::fixed::{
    div_trunc, fp_div, fp_mul, isqrt, lemma_div_trunc_bound, lemma_sqrt_floor_props, sqrt_floor,
    ONE,
};
use vstd::arithmetic::mul::lemma_mul_is_commutative;
use vstd::prelude::*;

verus! {

/// Mathematical view of a vector: its raw fixed-point components as integers.
pub ghost struct Vec3i {
    pub x: int,
    pub y: int,
    pub z: int,
}

impl Vec3i {
    /// Component-wise sum.
    pub open spec fn vadd(self, o: Vec3i) -> Vec3i {
        Vec3i { x: self.x + o.x, y: self.y + o.y, z: self.z + o.z }
    }

    /// Component-wise negation.
    pub open spec fn vneg(self) -> Vec3i {
        Vec3i { x: -self.x, y: -self.y, z: -self.z }
    }

    /// Component-wise difference.
    pub open spec fn vsub(self, o: Vec3i) -> Vec3i {
        Vec3i { x: self.x - o.x, y: self.y - o.y, z: self.z - o.z }
    }

    /// Scaling by a fixed-point scalar, truncated per component.
    pub open spec fn vscale(self, t: int) -> Vec3i {
        Vec3i {
            x: div_trunc(self.x * t, ONE as int),
            y: div_trunc(self.y * t, ONE as int),
            z: div_trunc(self.z * t, ONE as int),
        }
    }

    /// Division by a positive fixed-point scalar, truncated per component.
    pub open spec fn vdiv(self, d: int) -> Vec3i {
        Vec3i {
            x: div_trunc(self.x * (ONE as int), d),
            y: div_trunc(self.y * (ONE as int), d),
            z: div_trunc(self.z * (ONE as int), d),
        }
    }

    /// Component-wise fixed-point product (used for color attenuation).
    pub open spec fn vmul(self, o: Vec3i) -> Vec3i {
        Vec3i {
            x: div_trunc(self.x * o.x, ONE as int),
            y: div_trunc(self.y * o.y, ONE as int),
            z: div_trunc(self.z * o.z, ONE as int),
        }
    }

    /// The raw (twice-scaled) dot product: exact, no truncation.
    /// Its scale is `ONE * ONE`, so `a.dot2(b) / ONE` is the fixed-point dot.
    pub open spec fn dot2(self, o: Vec3i) -> int {
        self.x * o.x + self.y * o.y + self.z * o.z
    }

    /// The raw length: floor square root of the raw squared length,
    /// which is again a fixed-point value at scale `ONE`.
    pub open spec fn vlen(self) -> int {
        sqrt_floor(self.dot2(self))
    }

    /// The unit vector in the same direction, by fixed-point division.
    pub open spec fn vunit(self) -> Vec3i {
        self.vdiv(self.vlen())
    }

    /// Every component has magnitude at most `b`.
    pub open spec fn in_bounds(self, b: int) -> bool {
        -b <= self.x <= b && -b <= self.y <= b && -b <= self.z <= b
    }

    /// Every component lies in `[0, ONE]`: a well-formed color.
    pub open spec fn in_unit_range(self) -> bool {
        0 <= self.x <= ONE && 0 <= self.y <= ONE && 0 <= self.z <= ONE
    }
}

/// Bound propagation through scaling: if `|v| <= mb` component-wise,
/// `|t| <= tb` and `mb * tb <= m2 * ONE`, then `|v.vscale(t)| <= m2`.
pub proof fn lemma_vscale_bound(v: Vec3i, t: int, mb: int, tb: int, m2: int)
    requires
        mb >= 0,
        tb >= 0,
        m2 >= 0,
        v.in_bounds(mb),
        -tb <= t <= tb,
        mb * tb <= m2 * (ONE as int),
    ensures
        v.vscale(t).in_bounds(m2),
{
    assert(-(m2 * (ONE as int)) <= v.x * t <= m2 * (ONE as int) && -(m2 * (ONE as int)) <= v.y * t
        <= m2 * (ONE as int) && -(m2 * (ONE as int)) <= v.z * t <= m2 * (ONE as int))
        by (nonlinear_arith)
        requires
            mb >= 0,
            tb >= 0,
            -mb <= v.x <= mb,
            -mb <= v.y <= mb,
            -mb <= v.z <= mb,
            -tb <= t <= tb,
            mb * tb <= m2 * (ONE as int),
    ;
    lemma_div_trunc_bound(v.x * t, ONE as int, m2);
    lemma_div_trunc_bound(v.y * t, ONE as int, m2);
    lemma_div_trunc_bound(v.z * t, ONE as int, m2);
}

/// Attenuating one color by another never amplifies any channel.
pub proof fn lemma_vmul_non_amplifying(a: Vec3i, b: Vec3i)
    requires
        a.in_unit_range(),
        b.in_unit_range(),
    ensures
        a.vmul(b).in_unit_range(),
        a.vmul(b).x <= a.x && a.vmul(b).x <= b.x,
        a.vmul(b).y <= a.y && a.vmul(b).y <= b.y,
        a.vmul(b).z <= a.z && a.vmul(b).z <= b.z,
{
    crate::fixed::lemma_fp_mul_non_amplifying(a.x, b.x);
    crate::fixed::lemma_fp_mul_non_amplifying(a.y, b.y);
    crate::fixed::lemma_fp_mul_non_amplifying(a.z, b.z);
}

/// Attenuating by pure white (`ONE` in every channel) changes nothing.
pub proof fn lemma_vmul_white_identity(w: Vec3i, b: Vec3i)
    requires
        w.x == ONE && w.y == ONE && w.z == ONE,
    ensures
        w.vmul(b) == b,
{
    lemma_mul_is_commutative(w.x, b.x);
    lemma_mul_is_commutative(w.y, b.y);
    lemma_mul_is_commutative(w.z, b.z);
    crate::fixed::lemma_div_trunc_exact(b.x, ONE as int);
    crate::fixed::lemma_div_trunc_exact(b.y, ONE as int);
    crate::fixed::lemma_div_trunc_exact(b.z, ONE as int);
}

/// A raw squared length is never negative.
pub proof fn lemma_dot2_self_nonneg(v: Vec3i)
    ensures
        v.dot2(v) >= 0,
{
    assert(v.x * v.x + v.y * v.y + v.z * v.z >= 0) by (nonlinear_arith);
}

/// A bound on the components of two vectors bounds their raw dot product.
pub proof fn lemma_dot2_bound(a: Vec3i, b: Vec3i, m1: int, m2: int)
    requires
        m1 >= 0,
        m2 >= 0,
        a.in_bounds(m1),
        b.in_bounds(m2),
    ensures
        -3 * (m1 * m2) <= a.dot2(b) <= 3 * (m1 * m2),
{
    assert(-(m1 * m2) <= a.x * b.x <= m1 * m2 && -(m1 * m2) <= a.y * b.y <= m1 * m2 && -(m1 * m2)
        <= a.z * b.z <= m1 * m2) by (nonlinear_arith)
        requires
            m1 >= 0,
            m2 >= 0,
            -m1 <= a.x <= m1 && -m1 <= a.y <= m1 && -m1 <= a.z <= m1,
            -m2 <= b.x <= m2 && -m2 <= b.y <= m2 && -m2 <= b.z <= m2,
    ;
}

proof fn lemma_sqrt_dominates(c: int, n: int, l: int)
    requires
        c * c <= n,
        l >= 0,
        l * l <= n,
        n < (l + 1) * (l + 1),
    ensures
        -l <= c <= l,
{
    if c > l || c < -l {
        assert((l + 1) * (l + 1) <= c * c) by (nonlinear_arith)
            requires
                0 <= l,
                c > l || c < -l,
        ;
    }
}

/// The raw length of a vector dominates the magnitude of each component.
pub proof fn lemma_len_dominates_components(v: Vec3i)
    ensures
        v.vlen() >= 0,
        v.in_bounds(v.vlen()),
{
    lemma_dot2_self_nonneg(v);
    lemma_sqrt_floor_props(v.dot2(v));
    let l = v.vlen();
    assert(v.x * v.x <= v.dot2(v) && v.y * v.y <= v.dot2(v) && v.z * v.z <= v.dot2(v))
        by (nonlinear_arith);
    lemma_sqrt_dominates(v.x, v.dot2(v), l);
    lemma_sqrt_dominates(v.y, v.dot2(v), l);
    lemma_sqrt_dominates(v.z, v.dot2(v), l);
}

/// A three-component vector of fixed-point scalars. The same type carries
/// positions, directions and RGB colors (`x, y, z` read as `r, g, b`).
#[derive(Debug, Clone, Copy)]
pub struct Vec3 {
    pub x: i64,
    pub y: i64,
    pub z: i64,
}

impl View for Vec3 {
    type V = Vec3i;

    open spec fn view(&self) -> Vec3i {
        Vec3i { x: self.x as int, y: self.y as int, z: self.z as int }
    }
}

impl Vec3 {
    /// Builds a vector from raw fixed-point components.
    pub fn new(x: i64, y: i64, z: i64) -> (v: Vec3)
        ensures
            v@ == (Vec3i { x: x as int, y: y as int, z: z as int }),
    {
        Vec3 { x, y, z }
    }

    /// First spatial component.
    pub fn x(&self) -> (r: i64)
        ensures
            r == self@.x,
    {
        self.x
    }

    /// Second spatial component.
    pub fn y(&self) -> (r: i64)
        ensures
            r == self@.y,
    {
        self.y
    }

    /// Third spatial component.
    pub fn z(&self) -> (r: i64)
        ensures
            r == self@.z,
    {
        self.z
    }

    /// Red channel, when the vector is read as a color.
    pub fn r(&self) -> (r: i64)
        ensures
            r == self@.x,
    {
        self.x
    }

    /// Green channel, when the vector is read as a color.
    pub fn g(&self) -> (r: i64)
        ensures
            r == self@.y,
    {
        self.y
    }

    /// Blue channel, when the vector is read as a color.
    pub fn b(&self) -> (r: i64)
        ensures
            r == self@.z,
    {
        self.z
    }

    /// Component-wise sum.
    pub fn add(&self, o: &Vec3) -> (r: Vec3)
        requires
            i64::MIN <= self@.x + o@.x <= i64::MAX,
            i64::MIN <= self@.y + o@.y <= i64::MAX,
            i64::MIN <= self@.z + o@.z <= i64::MAX,
        ensures
            r@ == self@.vadd(o@),
    {
        Vec3 { x: self.x + o.x, y: self.y + o.y, z: self.z + o.z }
    }

    /// Component-wise negation.
    pub fn neg(&self) -> (r: Vec3)
        requires
            self@.x > i64::MIN,
            self@.y > i64::MIN,
            self@.z > i64::MIN,
        ensures
            r@ == self@.vneg(),
    {
        Vec3 { x: -self.x, y: -self.y, z: -self.z }
    }

    /// Component-wise difference.
    pub fn sub(&self, o: &Vec3) -> (r: Vec3)
        requires
            i64::MIN <= self@.x - o@.x <= i64::MAX,
            i64::MIN <= self@.y - o@.y <= i64::MAX,
            i64::MIN <= self@.z - o@.z <= i64::MAX,
        ensures
            r@ == self@.vsub(o@),
    {
        Vec3 { x: self.x - o.x, y: self.y - o.y, z: self.z - o.z }
    }

    /// Scaling by a fixed-point scalar.
    pub fn mul(&self, t: i64) -> (r: Vec3)
        requires
            -(i64::MAX as int) * (ONE as int) <= self@.x * t <= (i64::MAX as int) * (ONE as int),
            -(i64::MAX as int) * (ONE as int) <= self@.y * t <= (i64::MAX as int) * (ONE as int),
            -(i64::MAX as int) * (ONE as int) <= self@.z * t <= (i64::MAX as int) * (ONE as int),
        ensures
            r@ == self@.vscale(t as int),
    {
        Vec3 { x: fp_mul(self.x, t), y: fp_mul(self.y, t), z: fp_mul(self.z, t) }
    }

    /// Division by a positive fixed-point scalar.
    pub fn div(&self, d: i64) -> (r: Vec3)
        requires
            d >= 1,
            -(i64::MAX as int) * (d as int) <= self@.x * (ONE as int) <= (i64::MAX as int) * (
            d as int),
            -(i64::MAX as int) * (d as int) <= self@.y * (ONE as int) <= (i64::MAX as int) * (
            d as int),
            -(i64::MAX as int) * (d as int) <= self@.z * (ONE as int) <= (i64::MAX as int) * (
            d as int),
        ensures
            r@ == self@.vdiv(d as int),
    {
        Vec3 { x: fp_div(self.x, d), y: fp_div(self.y, d), z: fp_div(self.z, d) }
    }

    /// Component-wise fixed-point product (color attenuation).
    pub fn mul_vec(&self, o: &Vec3) -> (r: Vec3)
        requires
            -(i64::MAX as int) * (ONE as int) <= self@.x * o@.x <= (i64::MAX as int) * (ONE as int),
            -(i64::MAX as int) * (ONE as int) <= self@.y * o@.y <= (i64::MAX as int) * (ONE as int),
            -(i64::MAX as int) * (ONE as int) <= self@.z * o@.z <= (i64::MAX as int) * (ONE as int),
        ensures
            r@ == self@.vmul(o@),
    {
        Vec3 { x: fp_mul(self.x, o.x), y: fp_mul(self.y, o.y), z: fp_mul(self.z, o.z) }
    }

    /// The raw (twice-scaled) dot product, exact in 128 bits.
    pub fn dot2(&self, o: &Vec3) -> (r: i128)
        requires
            self@.in_bounds(2000000000000000000),
            o@.in_bounds(2000000000000000000),
        ensures
            r == self@.dot2(o@),
    {
        proof {
            lemma_dot2_bound(self@, o@, 2000000000000000000, 2000000000000000000);
            assert(-(2000000000000000000 * 2000000000000000000) <= self@.x * o@.x <= 2000000000000000000
                * 2000000000000000000 && -(2000000000000000000 * 2000000000000000000) <= self@.y
                * o@.y <= 2000000000000000000 * 2000000000000000000 && -(2000000000000000000
                * 2000000000000000000) <= self@.z * o@.z <= 2000000000000000000
                * 2000000000000000000) by (nonlinear_arith)
                requires
                    self@.in_bounds(2000000000000000000),
                    o@.in_bounds(2000000000000000000),
            ;
        }
        (self.x as i128) * (o.x as i128) + (self.y as i128) * (o.y as i128) + (self.z as i128) * (
        o.z as i128)
    }

    /// The fixed-point dot product, truncated toward zero.
    pub fn dot(&self, o: &Vec3) -> (r: i64)
        requires
            self@.in_bounds(1500000000000),
            o@.in_bounds(1500000000000),
        ensures
            r == div_trunc(self@.dot2(o@), ONE as int),
    {
        let w: i128 = self.dot2(o);
        proof {
            lemma_dot2_bound(self@, o@, 1500000000000, 1500000000000);
            lemma_div_trunc_bound(self@.dot2(o@), ONE as int, i64::MAX as int);
        }
        let q: i128 = w / (ONE as i128);
        q as i64
    }

    /// The fixed-point squared length, truncated toward zero.
    pub fn squared_length(&self) -> (r: i64)
        requires
            self@.in_bounds(1500000000000),
        ensures
            r == div_trunc(self@.dot2(self@), ONE as int),
            r >= 0,
    {
        proof {
            lemma_dot2_self_nonneg(self@);
        }
        self.dot(self)
    }

    /// The raw length: floor square root of the raw squared length.
    pub fn length(&self) -> (r: i64)
        requires
            self@.in_bounds(2000000000000000000),
        ensures
            r == self@.vlen(),
            r >= 0,
    {
        let w: i128 = self.dot2(self);
        proof {
            lemma_dot2_self_nonneg(self@);
            lemma_dot2_bound(self@, self@, 2000000000000000000, 2000000000000000000);
            lemma_sqrt_floor_props(self@.dot2(self@));
            if self@.vlen() > i64::MAX {
                assert((i64::MAX as int + 1) * (i64::MAX as int + 1) <= self@.vlen() * self@.vlen())
                    by (nonlinear_arith)
                    requires
                        0 <= (i64::MAX as int) + 1 <= self@.vlen(),
                ;
                assert(3 * (2000000000000000000 * 2000000000000000000) < (i64::MAX as int + 1) * (
                i64::MAX as int + 1)) by (nonlinear_arith);
            }
        }
        let r: u64 = isqrt(w as u128);
        r as i64
    }

    /// The unit vector in the same direction. Defined only away from zero;
    /// each component of the result has magnitude at most `ONE`.
    pub fn unit(&self) -> (r: Vec3)
        requires
            self@.in_bounds(2000000000000000000),
            self@.dot2(self@) >= 1,
        ensures
            r@ == self@.vunit(),
            r@.in_bounds(ONE as int),
    {
        let l: i64 = self.length();
        proof {
            lemma_dot2_self_nonneg(self@);
            lemma_sqrt_floor_props(self@.dot2(self@));
            lemma_len_dominates_components(self@);
            let lv = self@.vlen();
            assert(lv >= 1) by {
                if lv == 0 {
                    assert((lv + 1) * (lv + 1) == 1) by (nonlinear_arith)
                        requires
                            lv == 0,
                    ;
                }
            }
            assert(-(ONE as int) * lv <= self@.x * (ONE as int) <= (ONE as int) * lv && -(
            ONE as int) * lv <= self@.y * (ONE as int) <= (ONE as int) * lv && -(ONE as int) * lv
                <= self@.z * (ONE as int) <= (ONE as int) * lv && -(i64::MAX as int) * lv <= self@.x
                * (ONE as int) <= (i64::MAX as int) * lv && -(i64::MAX as int) * lv <= self@.y * (
            ONE as int) <= (i64::MAX as int) * lv && -(i64::MAX as int) * lv <= self@.z * (
            ONE as int) <= (i64::MAX as int) * lv) by (nonlinear_arith)
                requires
                    -lv <= self@.x <= lv,
                    -lv <= self@.y <= lv,
                    -lv <= self@.z <= lv,
                    lv >= 1,
            ;
            lemma_div_trunc_bound(self@.x * (ONE as int), lv, ONE as int);
            lemma_div_trunc_bound(self@.y * (ONE as int), lv, ONE as int);
            lemma_div_trunc_bound(self@.z * (ONE as int), lv, ONE as int);
        }
        self.div(l)
    }
}

} // verus!
