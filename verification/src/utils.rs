//! Scalar helpers: uniform fixed-point samples and clamping.
use vstd::prelude::*;

verus! {

use crate::fixed::{Fx, FX_SCALE, fx_add, fx_clamp, fx_mul, fx_sub};
use crate::rng::RandomSource;

/// A uniform sample in `[0, 1)`.
pub fn random_float(rng: &mut RandomSource) -> (r: Fx)
    ensures
        0 <= r@ < FX_SCALE as int,
{
    let m: u32 = rng.next_micro();
    Fx::new(m as i64)
}

/// A uniform sample stretched onto `[min, max)`: `min + (max - min) * u`
/// for some unit sample `u`.
pub fn random_float_range(rng: &mut RandomSource, min: Fx, max: Fx) -> (r: Fx)
    ensures
        exists|u: int|
            0 <= u < FX_SCALE as int && r@ == fx_add(min@, fx_mul(fx_sub(max@, min@), u)),
{
    let u: Fx = random_float(rng);
    let r = min.add(max.sub(min).mul(u));
    proof {
        assert(0 <= u@ < FX_SCALE as int && r@ == fx_add(min@, fx_mul(fx_sub(max@, min@), u@)));
    }
    r
}

/// Clamps `x` into `[min, max]`.
pub fn clamp(x: Fx, min: Fx, max: Fx) -> (r: Fx)
    ensures
        r@ == fx_clamp(x@, min@, max@),
{
    if x.lt(min) {
        min
    } else if max.lt(x) {
        max
    } else {
        x
    }
}

} // verus!
