//! The sampler/renderer: jittered multi-sample pixels, gamma correction,
//! and packing into an RGBA byte buffer.
use crate::camera::Camera;
use crate::fixed::{div_trunc, fp_sqrt, sqrt_floor, ONE};
use crate::ray::Ray;
use crate::sampler::random_unit;
use crate::transport::color;
use crate::vec3::Vec3;
use crate::world::World;
use vstd::arithmetic::div_mod::{
    lemma_div_is_ordered, lemma_div_multiples_vanish, lemma_div_pos_is_pos,
    lemma_fundamental_div_mod,
};
use vstd::arithmetic::mul::lemma_mul_inequality;
use vstd::prelude::*;

verus! {

/// Gamma-2 correction of an averaged linear channel: its fixed-point square
/// root.
pub open spec fn spec_gamma(c: int) -> int {
    sqrt_floor(c * (ONE as int))
}

/// Quantization of a gamma-corrected channel to a byte: the channel times
/// `255.99`, truncated toward zero.
pub open spec fn spec_quantize(g: int) -> int {
    div_trunc(g * 25599, 100 * (ONE as int))
}

/// Applies gamma-2 correction (square root) to a channel in `[0, ONE]`.
pub fn gamma(c: i64) -> (g: i64)
    requires
        0 <= c <= ONE,
    ensures
        g == spec_gamma(c as int),
        0 <= g <= ONE,
{
    fp_sqrt(c)
}

/// Quantizes a gamma-corrected channel in `[0, ONE]` to one byte.
pub fn quantize(g: i64) -> (b: u8)
    requires
        0 <= g <= ONE,
    ensures
        b == spec_quantize(g as int),
{
    let w: i64 = g * 25599;
    let q: i64 = w / 100000000;
    proof {
        lemma_div_pos_is_pos(w as int, 100000000);
        lemma_fundamental_div_mod(w as int, 100000000);
    }
    q as u8
}

/// Monotonicity of the pixel pipeline: a brighter linear channel never yields
/// a darker byte. (The 8-bit quantization makes the growth non-strict: two
/// nearby linear values can share a byte.)
pub proof fn lemma_gamma_quantize_monotonic(c1: int, c2: int)
    requires
        0 <= c1 <= c2 <= ONE,
    ensures
        spec_gamma(c1) <= spec_gamma(c2),
        spec_quantize(spec_gamma(c1)) <= spec_quantize(spec_gamma(c2)),
{
    assert(c1 * (ONE as int) <= c2 * (ONE as int)) by (nonlinear_arith)
        requires
            c1 <= c2,
            ONE >= 0,
    ;
    crate::fixed::lemma_sqrt_floor_monotonic(c1 * (ONE as int), c2 * (ONE as int));
    crate::fixed::lemma_sqrt_floor_props(c1 * (ONE as int));
    let g1 = spec_gamma(c1);
    let g2 = spec_gamma(c2);
    assert(g1 * 25599 <= g2 * 25599) by (nonlinear_arith)
        requires
            g1 <= g2,
    ;
    assert(0 <= g1 * 25599) by (nonlinear_arith)
        requires
            0 <= g1,
    ;
    lemma_div_is_ordered(g1 * 25599, g2 * 25599, 100 * (ONE as int));
    lemma_div_pos_is_pos(g1 * 25599, 100 * (ONE as int));
}

/// Renders the scene into a flat RGBA byte buffer, top visual row first:
/// for every pixel, `samples_per_pixel` jittered camera rays are traced and
/// averaged, the average is gamma-corrected and quantized, and an alpha byte
/// of 255 is appended. The buffer holds exactly `width * height * 4` bytes.
pub fn render(
    world: &World,
    camera: &Camera,
    width: usize,
    height: usize,
    samples_per_pixel: usize,
    max_depth: u32,
) -> (buf: Vec<u8>)
    requires
        world.wf(),
        camera.wf(),
        1 <= width <= 4096,
        1 <= height <= 4096,
        1 <= samples_per_pixel <= 100000,
    ensures
        buf@.len() == width * height * 4,
        forall|q: int| 0 <= q < width * height ==> #[trigger] buf@[4 * q + 3] == 255,
{
    let mut buf: Vec<u8> = Vec::new();
    let mut j: usize = height;
    proof {
        assert(width * height * 4 <= 67108864 && (height - height) * (width * 4) == 0)
            by (nonlinear_arith)
            requires
                1 <= width <= 4096,
                1 <= height <= 4096,
        ;
    }
    while j > 0
        invariant
            world.wf(),
            camera.wf(),
            1 <= width <= 4096,
            1 <= height <= 4096,
            1 <= samples_per_pixel <= 100000,
            j <= height,
            buf@.len() == (height - j) * (width * 4),
            buf@.len() == 4 * ((height - j) * width),
            forall|q: int| 0 <= q < (height - j) * width ==> #[trigger] buf@[4 * q + 3] == 255,
        decreases j,
    {
        j = j - 1;
        let mut i: usize = 0;
        proof {
            assert((height - j) * (width * 4) == (height - (j + 1)) * (width * 4) + width * 4 && (
            height - j) * width == (height - (j + 1)) * width + width && (height - (j + 1)) * (
            width * 4) == 4 * ((height - (j + 1)) * width) && (height - (j + 1)) * (width * 4)
                >= 0) by (nonlinear_arith)
                requires
                    0 <= j,
                    j + 1 <= height,
                    1 <= width,
            ;
        }
        while i < width
            invariant
                world.wf(),
                camera.wf(),
                1 <= width <= 4096,
                1 <= height <= 4096,
                1 <= samples_per_pixel <= 100000,
                j < height,
                i <= width,
                buf@.len() == (height - (j + 1)) * (width * 4) + i * 4,
                buf@.len() == 4 * ((height - (j + 1)) * width + i),
                (height - (j + 1)) * (width * 4) + width * 4 == (height - j) * (width * 4),
                (height - (j + 1)) * width + width == (height - j) * width,
                forall|q: int|
                    0 <= q < (height - (j + 1)) * width + i ==> #[trigger] buf@[4 * q + 3] == 255,
            decreases width - i,
        {
            let mut col: Vec3 = Vec3::new(0, 0, 0);
            let mut s: usize = 0;
            while s < samples_per_pixel
                invariant
                    world.wf(),
                    camera.wf(),
                    1 <= width <= 4096,
                    1 <= height <= 4096,
                    1 <= samples_per_pixel <= 100000,
                    j < height,
                    i < width,
                    s <= samples_per_pixel,
                    0 <= col@.x <= s * (ONE as int),
                    0 <= col@.y <= s * (ONE as int),
                    0 <= col@.z <= s * (ONE as int),
                decreases samples_per_pixel - s,
            {
                let ju: i64 = random_unit();
                let jv: i64 = random_unit();
                let nu: i64 = (i as i64) * ONE + ju;
                let nv: i64 = (j as i64) * ONE + jv;
                proof {
                    lemma_mul_inequality(i as int, width as int - 1, ONE as int);
                    lemma_mul_inequality(j as int, height as int - 1, ONE as int);
                    lemma_div_pos_is_pos(nu as int, width as int);
                    lemma_div_pos_is_pos(nv as int, height as int);
                    lemma_div_is_ordered(nu as int, width * (ONE as int), width as int);
                    lemma_div_is_ordered(nv as int, height * (ONE as int), height as int);
                    lemma_div_multiples_vanish(ONE as int, width as int);
                    lemma_div_multiples_vanish(ONE as int, height as int);
                }
                let u: i64 = nu / (width as i64);
                let v: i64 = nv / (height as i64);
                let ray: Ray = camera.get_ray(u, v);
                let d2: i128 = ray.b.dot2(&ray.b);
                let sample_col: Vec3 = if d2 < 1 {
                    // A degenerate viewport ray carries no radiance.
                    Vec3::new(0, 0, 0)
                } else {
                    color(&ray, world, max_depth)
                };
                proof {
                    assert((s + 1) * (ONE as int) == s * (ONE as int) + ONE) by (nonlinear_arith);
                }
                col = col.add(&sample_col);
                s = s + 1;
            }
            proof {
                lemma_mul_inequality(s as int, samples_per_pixel as int, ONE as int);
                lemma_div_pos_is_pos(col@.x as int, samples_per_pixel as int);
                lemma_div_pos_is_pos(col@.y as int, samples_per_pixel as int);
                lemma_div_pos_is_pos(col@.z as int, samples_per_pixel as int);
                lemma_div_is_ordered(
                    col@.x as int,
                    samples_per_pixel * (ONE as int),
                    samples_per_pixel as int,
                );
                lemma_div_is_ordered(
                    col@.y as int,
                    samples_per_pixel * (ONE as int),
                    samples_per_pixel as int,
                );
                lemma_div_is_ordered(
                    col@.z as int,
                    samples_per_pixel * (ONE as int),
                    samples_per_pixel as int,
                );
                lemma_div_multiples_vanish(ONE as int, samples_per_pixel as int);
            }
            let avg_r: i64 = col.x / (samples_per_pixel as i64);
            let avg_g: i64 = col.y / (samples_per_pixel as i64);
            let avg_b: i64 = col.z / (samples_per_pixel as i64);
            let br: u8 = quantize(gamma(avg_r));
            let bg: u8 = quantize(gamma(avg_g));
            let bb: u8 = quantize(gamma(avg_b));
            buf.push(br);
            buf.push(bg);
            buf.push(bb);
            buf.push(255);
            i = i + 1;
        }
    }
    proof {
        assert((height - 0) * (width * 4) == width * height * 4 && (height - 0) * width == width
            * height) by (nonlinear_arith);
    }
    buf
}

} // verus!
