//! Colors are vectors: red, green and blue channels in `[0, 1]`.
use vstd::prelude::*;

verus! {

use crate::fixed::{Fx, FX_SCALE, fx_clamp, fx_mul, fx_sqrt};
use crate::vec3::{V3, Vec3};
use crate::utils::clamp;

pub type Color = Vec3;

/// Every channel lies in the unit interval.
pub open spec fn color_in_unit(c: V3) -> bool {
    0 <= c.x <= FX_SCALE as int && 0 <= c.y <= FX_SCALE as int && 0 <= c.z <= FX_SCALE as int
}

/// One output channel: average over the samples, gamma-correct with a
/// square root, clamp to `[0, 0.999]` and truncate `256 * value`.
pub open spec fn channel_v(sum: int, samples: int) -> int {
    let scaled = fx_mul(sum, crate::fixed::fx_div(FX_SCALE as int, samples * (FX_SCALE as int)));
    let gamma = fx_sqrt(scaled);
    let clamped = fx_clamp(gamma, 0, 999_000);
    fx_mul(clamped, 256 * (FX_SCALE as int)) / (FX_SCALE as int)
}

impl Color {
    /// The three integer channels, each in `[0, 255]`, that the PPM writer
    /// prints for this color.
    pub fn write_color(&self, samples_per_pixel: i32) -> (rgb: (u32, u32, u32))
        requires
            1 <= samples_per_pixel <= 1_000_000,
            self@.x >= 0,
            self@.y >= 0,
            self@.z >= 0,
        ensures
            rgb.0 == channel_v(self@.x, samples_per_pixel as int),
            rgb.1 == channel_v(self@.y, samples_per_pixel as int),
            rgb.2 == channel_v(self@.z, samples_per_pixel as int),
            rgb.0 <= 255,
            rgb.1 <= 255,
            rgb.2 <= 255,
    {
        let scale = Fx::one().div(Fx::from_int(samples_per_pixel));
        let r = write_channel(self.x, scale, samples_per_pixel);
        let g = write_channel(self.y, scale, samples_per_pixel);
        let b = write_channel(self.z, scale, samples_per_pixel);
        (r, g, b)
    }
}

/// Computes one channel of `write_color`.
fn write_channel(sum: Fx, scale: Fx, samples_per_pixel: i32) -> (c: u32)
    requires
        1 <= samples_per_pixel <= 1_000_000,
        scale@ == crate::fixed::fx_div(
            FX_SCALE as int,
            samples_per_pixel * (FX_SCALE as int),
        ),
        sum@ >= 0,
    ensures
        c == channel_v(sum@, samples_per_pixel as int),
        c <= 255,
{
    proof {
        use_type_invariant(sum);
        crate::fixed::lemma_fx_div_nonneg(FX_SCALE as int, samples_per_pixel * (FX_SCALE as int));
        crate::fixed::lemma_fx_mul_nonneg(sum@, scale@);
    }
    let scaled = sum.mul(scale);
    let gamma = scaled.sqrt();
    let clamped = clamp(gamma, Fx::zero(), Fx::new(999_000));
    let wide = clamped.mul(Fx::new(256_000_000));
    let raw: i64 = wide.raw();
    proof {
        lemma_channel_range(clamped@);
    }
    (raw / 1_000_000) as u32
}

/// Componentwise attenuation keeps channels in the unit interval.
pub proof fn lemma_cmul_unit(a: V3, b: V3)
    requires
        color_in_unit(a),
        color_in_unit(b),
    ensures
        color_in_unit(crate::vec3::v3_cmul(a, b)),
{
    crate::fixed::lemma_fx_mul_le(a.x, b.x);
    crate::fixed::lemma_fx_mul_le(a.y, b.y);
    crate::fixed::lemma_fx_mul_le(a.z, b.z);
}

/// Attenuating by pure white changes nothing.
pub proof fn lemma_white_cmul(c: V3)
    requires
        crate::fixed::fx_abs(c.x) <= crate::fixed::FX_MAX as int,
        crate::fixed::fx_abs(c.y) <= crate::fixed::FX_MAX as int,
        crate::fixed::fx_abs(c.z) <= crate::fixed::FX_MAX as int,
    ensures
        crate::vec3::v3_cmul(
            crate::vec3::v3(FX_SCALE as int, FX_SCALE as int, FX_SCALE as int),
            c,
        ) == c,
{
    crate::fixed::lemma_fx_mul_one(c.x);
    crate::fixed::lemma_fx_mul_one(c.y);
    crate::fixed::lemma_fx_mul_one(c.z);
}

/// The color a light contribution becomes after a chain of bounces,
/// attenuated once per surface, innermost bounce first.
pub open spec fn attenuated_v(attens: Seq<V3>, c: V3) -> V3
    decreases attens.len(),
{
    if attens.len() == 0 {
        c
    } else {
        crate::vec3::v3_cmul(attens[0], attenuated_v(attens.drop_first(), c))
    }
}

/// Energy non-creation: a chain of bounces whose attenuation channels
/// all lie within the unit interval can never return more light than
/// arrived; every channel stays within the incoming channel.
pub proof fn lemma_energy_non_creation(attens: Seq<V3>, c: V3)
    requires
        forall|i: int| 0 <= i < attens.len() ==> color_in_unit(#[trigger] attens[i]),
        c.x >= 0,
        c.y >= 0,
        c.z >= 0,
    ensures
        attenuated_v(attens, c).x <= c.x,
        attenuated_v(attens, c).y <= c.y,
        attenuated_v(attens, c).z <= c.z,
        attenuated_v(attens, c).x >= 0,
        attenuated_v(attens, c).y >= 0,
        attenuated_v(attens, c).z >= 0,
    decreases attens.len(),
{
    if attens.len() > 0 {
        lemma_energy_non_creation(attens.drop_first(), c);
        let inner = attenuated_v(attens.drop_first(), c);
        crate::fixed::lemma_fx_mul_le(attens[0].x, inner.x);
        crate::fixed::lemma_fx_mul_le(attens[0].y, inner.y);
        crate::fixed::lemma_fx_mul_le(attens[0].z, inner.z);
    }
}

/// A clamped gamma value scales to a channel of at most 255.
proof fn lemma_channel_range(clamped: int)
    requires
        0 <= clamped <= 999_000,
    ensures
        0 <= fx_mul(clamped, 256_000_000) / (FX_SCALE as int) <= 255,
        fx_mul(clamped, 256_000_000) <= 255_744_000,
{
    crate::fixed::lemma_fx_mul_nonneg(clamped, 256_000_000);
    assert(clamped * 256_000_000 <= 999_000 * 256_000_000) by (nonlinear_arith)
        requires
            clamped <= 999_000,
    ;
    vstd::arithmetic::div_mod::lemma_div_is_ordered(
        clamped * 256_000_000,
        999_000int * 256_000_000,
        FX_SCALE as int,
    );
    vstd::arithmetic::div_mod::lemma_div_pos_is_pos(clamped * 256_000_000, FX_SCALE as int);
    vstd::arithmetic::div_mod::lemma_div_is_ordered(
        fx_mul(clamped, 256_000_000),
        255_744_000,
        FX_SCALE as int,
    );
    vstd::arithmetic::div_mod::lemma_div_pos_is_pos(fx_mul(clamped, 256_000_000), FX_SCALE as int);
}

} // verus!
