//! Three-component vectors over the fixed-point scalars.
//!
//! The mathematical model of a vector is [`V3`], a triple of raw scaled
//! integers; every method's contract states its result over that model.
use vstd::prelude::*;

verus! {

use crate::fixed::{
    Fx, FX_SCALE, fx_abs, fx_add, fx_min, fx_mul, fx_neg, fx_sqrt, fx_sub,
    lemma_fx_square_nonneg,
};
use crate::rng::RandomSource;
use crate::utils::random_float;

/// Raw magnitude below which a component counts as zero: one raw unit,
/// so only an exactly zero component qualifies.
pub const NEAR_ZERO_EPS: i64 = 1;

/// The mathematical model of a vector: its three raw scaled components.
pub ghost struct V3 {
    pub x: int,
    pub y: int,
    pub z: int,
}

pub open spec fn v3(x: int, y: int, z: int) -> V3 {
    V3 { x, y, z }
}

pub open spec fn v3_add(u: V3, w: V3) -> V3 {
    V3 { x: fx_add(u.x, w.x), y: fx_add(u.y, w.y), z: fx_add(u.z, w.z) }
}

pub open spec fn v3_sub(u: V3, w: V3) -> V3 {
    V3 { x: fx_sub(u.x, w.x), y: fx_sub(u.y, w.y), z: fx_sub(u.z, w.z) }
}

pub open spec fn v3_neg(u: V3) -> V3 {
    V3 { x: fx_neg(u.x), y: fx_neg(u.y), z: fx_neg(u.z) }
}

/// Componentwise product; this is how attenuation acts on a color.
pub open spec fn v3_cmul(u: V3, w: V3) -> V3 {
    V3 { x: fx_mul(u.x, w.x), y: fx_mul(u.y, w.y), z: fx_mul(u.z, w.z) }
}

/// Scaling by a scalar.
pub open spec fn v3_scale(u: V3, s: int) -> V3 {
    V3 { x: fx_mul(u.x, s), y: fx_mul(u.y, s), z: fx_mul(u.z, s) }
}

/// Division by a scalar multiplies by its reciprocal.
pub open spec fn v3_div(u: V3, s: int) -> V3 {
    v3_scale(u, crate::fixed::fx_div(FX_SCALE as int, s))
}

pub open spec fn v3_dot(u: V3, w: V3) -> int {
    fx_add(fx_add(fx_mul(u.x, w.x), fx_mul(u.y, w.y)), fx_mul(u.z, w.z))
}

pub open spec fn v3_lsq(u: V3) -> int {
    v3_dot(u, u)
}

pub open spec fn v3_len(u: V3) -> int {
    fx_sqrt(v3_lsq(u))
}

pub open spec fn v3_unit(u: V3) -> V3 {
    v3_div(u, v3_len(u))
}

/// The cross product, with the operand order the `cross` method uses.
pub open spec fn v3_cross(u: V3, w: V3) -> V3 {
    V3 {
        x: fx_sub(fx_mul(w.y, u.z), fx_mul(w.z, u.y)),
        y: fx_sub(fx_mul(w.z, u.x), fx_mul(w.x, u.z)),
        z: fx_sub(fx_mul(w.x, u.y), fx_mul(w.y, u.x)),
    }
}

pub open spec fn v3_near_zero(u: V3) -> bool {
    fx_abs(u.x) < NEAR_ZERO_EPS as int && fx_abs(u.y) < NEAR_ZERO_EPS as int && fx_abs(u.z)
        < NEAR_ZERO_EPS as int
}

/// Mirror reflection about a normal: `v - n * dot(v, n) * 2`.
pub open spec fn v3_reflect(v: V3, n: V3) -> V3 {
    v3_sub(v, v3_scale(v3_scale(n, v3_dot(v, n)), 2 * FX_SCALE as int))
}

/// Snell refraction of `v` at a surface with normal `n`, combining the
/// perpendicular and parallel components.
pub open spec fn v3_refract(v: V3, n: V3, ratio: int) -> V3 {
    let cos_theta = fx_min(v3_dot(v3_neg(v), n), FX_SCALE as int);
    let out_perp = v3_scale(v3_add(v, v3_scale(n, cos_theta)), ratio);
    let out_parallel = v3_scale(
        n,
        fx_neg(fx_sqrt(fx_abs(fx_sub(FX_SCALE as int, v3_lsq(out_perp))))),
    );
    v3_add(out_perp, out_parallel)
}

/// A squared length is never negative.
pub proof fn lemma_v3_lsq_nonneg(u: V3)
    ensures
        v3_lsq(u) >= 0,
{
    lemma_fx_square_nonneg(u.x);
    lemma_fx_square_nonneg(u.y);
    lemma_fx_square_nonneg(u.z);
}

#[derive(Clone, Copy, Debug, PartialEq, Eq, Structural)]
pub struct Vec3 {
    pub x: Fx,
    pub y: Fx,
    pub z: Fx,
}

impl View for Vec3 {
    type V = V3;

    open spec fn view(&self) -> V3 {
        V3 { x: self.x@, y: self.y@, z: self.z@ }
    }
}

impl Vec3 {
    pub fn new(x: Fx, y: Fx, z: Fx) -> (r: Vec3)
        ensures
            r@ == v3(x@, y@, z@),
    {
        Vec3 { x, y, z }
    }

    pub fn origin() -> (r: Vec3)
        ensures
            r@ == v3(0, 0, 0),
    {
        Vec3 { x: Fx::zero(), y: Fx::zero(), z: Fx::zero() }
    }

    pub fn x(&self) -> (r: Fx)
        ensures
            r@ == self@.x,
    {
        self.x
    }

    pub fn y(&self) -> (r: Fx)
        ensures
            r@ == self@.y,
    {
        self.y
    }

    pub fn z(&self) -> (r: Fx)
        ensures
            r@ == self@.z,
    {
        self.z
    }

    pub fn index(&self, i: usize) -> (r: Fx)
        requires
            i < 3,
        ensures
            r@ == (if i == 0 {
                self@.x
            } else if i == 1 {
                self@.y
            } else {
                self@.z
            }),
    {
        if i == 0 {
            self.x
        } else if i == 1 {
            self.y
        } else {
            self.z
        }
    }

    pub fn add(&self, rhs: &Vec3) -> (r: Vec3)
        ensures
            r@ == v3_add(self@, rhs@),
    {
        Vec3 { x: self.x.add(rhs.x), y: self.y.add(rhs.y), z: self.z.add(rhs.z) }
    }

    pub fn sub(&self, rhs: &Vec3) -> (r: Vec3)
        ensures
            r@ == v3_sub(self@, rhs@),
    {
        Vec3 { x: self.x.sub(rhs.x), y: self.y.sub(rhs.y), z: self.z.sub(rhs.z) }
    }

    pub fn neg(&self) -> (r: Vec3)
        ensures
            r@ == v3_neg(self@),
    {
        Vec3 { x: self.x.neg(), y: self.y.neg(), z: self.z.neg() }
    }

    /// Componentwise product.
    pub fn mul(&self, rhs: &Vec3) -> (r: Vec3)
        ensures
            r@ == v3_cmul(self@, rhs@),
    {
        Vec3 { x: self.x.mul(rhs.x), y: self.y.mul(rhs.y), z: self.z.mul(rhs.z) }
    }

    pub fn scale(&self, s: Fx) -> (r: Vec3)
        ensures
            r@ == v3_scale(self@, s@),
    {
        Vec3 { x: self.x.mul(s), y: self.y.mul(s), z: self.z.mul(s) }
    }

    /// Scalar division, computed as multiplication by the reciprocal.
    pub fn div(&self, s: Fx) -> (r: Vec3)
        requires
            s@ != 0,
        ensures
            r@ == v3_div(self@, s@),
    {
        let inv = Fx::one().div(s);
        self.scale(inv)
    }

    pub fn length_squared(&self) -> (r: Fx)
        ensures
            r@ == v3_lsq(self@),
            r@ >= 0,
    {
        proof {
            lemma_v3_lsq_nonneg(self@);
        }
        self.x.mul(self.x).add(self.y.mul(self.y)).add(self.z.mul(self.z))
    }

    pub fn length(&self) -> (r: Fx)
        ensures
            r@ == v3_len(self@),
            r@ >= 0,
    {
        self.length_squared().sqrt()
    }

    pub fn dot(&self, v: &Vec3) -> (r: Fx)
        ensures
            r@ == v3_dot(self@, v@),
    {
        self.x.mul(v.x).add(self.y.mul(v.y)).add(self.z.mul(v.z))
    }

    pub fn cross(&self, u: &Vec3) -> (r: Vec3)
        ensures
            r@ == v3_cross(self@, u@),
    {
        Vec3 {
            x: u.y.mul(self.z).sub(u.z.mul(self.y)),
            y: u.z.mul(self.x).sub(u.x.mul(self.z)),
            z: u.x.mul(self.y).sub(u.y.mul(self.x)),
        }
    }

    /// Normalization; meaningful only for vectors whose squared length
    /// does not vanish at the fixed-point resolution.
    pub fn unit_vector(&self) -> (r: Vec3)
        requires
            v3_lsq(self@) > 0,
        ensures
            r@ == v3_unit(self@),
    {
        let len = self.length();
        proof {
            lemma_len_positive(self@);
        }
        self.div(len)
    }

    pub fn near_zero(&self) -> (r: bool)
        ensures
            r == v3_near_zero(self@),
    {
        self.x.abs().raw() < NEAR_ZERO_EPS && self.y.abs().raw() < NEAR_ZERO_EPS
            && self.z.abs().raw() < NEAR_ZERO_EPS
    }

    pub fn reflect(&self, n: &Vec3) -> (r: Vec3)
        ensures
            r@ == v3_reflect(self@, n@),
    {
        let two = Fx::from_int(2);
        self.sub(&n.scale(self.dot(n)).scale(two))
    }

    pub fn refract(&self, n: &Vec3, etai_over_etat: Fx) -> (r: Vec3)
        ensures
            r@ == v3_refract(self@, n@, etai_over_etat@),
    {
        let cos_theta = self.neg().dot(n).min(Fx::one());
        let out_perp = self.add(&n.scale(cos_theta)).scale(etai_over_etat);
        let out_parallel = n.scale(
            Fx::one().sub(out_perp.length_squared()).abs().sqrt().neg(),
        );
        out_perp.add(&out_parallel)
    }

    /// A vector of three uniform samples in `[0, 1)`.
    pub fn random(rng: &mut RandomSource) -> (r: Vec3)
        ensures
            0 <= r@.x < FX_SCALE as int,
            0 <= r@.y < FX_SCALE as int,
            0 <= r@.z < FX_SCALE as int,
    {
        let x = random_float(rng);
        let y = random_float(rng);
        let z = random_float(rng);
        Vec3 { x, y, z }
    }

    /// A vector of three uniform samples stretched onto `[min, max)`.
    pub fn random_range(rng: &mut RandomSource, min: Fx, max: Fx) -> (r: Vec3)
        ensures
            min@ <= max@ ==> min@ <= r@.x <= max@,
            min@ <= max@ ==> min@ <= r@.y <= max@,
            min@ <= max@ ==> min@ <= r@.z <= max@,
    {
        let x = crate::utils::random_float_range(rng, min, max);
        let y = crate::utils::random_float_range(rng, min, max);
        let z = crate::utils::random_float_range(rng, min, max);
        proof {
            use_type_invariant(min);
            use_type_invariant(max);
            if min@ <= max@ {
                lemma_range_sample_bounds(min@, max@, x@);
                lemma_range_sample_bounds(min@, max@, y@);
                lemma_range_sample_bounds(min@, max@, z@);
            }
        }
        Vec3 { x, y, z }
    }

    /// Rejection-samples a point strictly inside the unit sphere (and away
    /// from the exact zero vector, which would make a degenerate direction).
    /// After a bounded number of draws it falls back to a fixed interior point.
    pub fn random_in_unit_sphere(rng: &mut RandomSource) -> (r: Vec3)
        ensures
            0 < v3_lsq(r@) < FX_SCALE as int,
    {
        let one = Fx::one();
        let mut tries: usize = 0;
        while tries < 64
            invariant
                tries <= 64,
                one@ == FX_SCALE as int,
            decreases 64 - tries,
        {
            let p = Vec3::random_range(rng, one.neg(), one);
            let lsq = p.length_squared();
            if lsq.raw() > 0 && lsq.lt(one) {
                return p;
            }
            tries = tries + 1;
        }
        let fallback = Vec3::new(Fx::new(crate::fixed::FX_HALF), Fx::zero(), Fx::zero());
        proof {
            lemma_fallback_inside(fallback@);
        }
        fallback
    }

    /// A random direction on (a fixed-point approximation of) the unit sphere.
    pub fn random_unit_vector(rng: &mut RandomSource) -> (r: Vec3)
        ensures
            exists|p: V3| 0 < v3_lsq(p) < FX_SCALE as int && r@ == #[trigger] v3_unit(p),
    {
        let p = Vec3::random_in_unit_sphere(rng);
        let u = p.unit_vector();
        proof {
            assert(0 < v3_lsq(p@) < FX_SCALE as int && u@ == v3_unit(p@));
        }
        u
    }
}

/// A positive squared length yields a positive fixed-point length.
pub proof fn lemma_len_positive(u: V3)
    requires
        v3_lsq(u) > 0,
    ensures
        v3_len(u) >= 1000,
{
    let n = v3_lsq(u) * (FX_SCALE as int);
    assert(n >= FX_SCALE as int) by (nonlinear_arith)
        requires
            n == v3_lsq(u) * (FX_SCALE as int),
            v3_lsq(u) >= 1,
    ;
    let c = fx_sqrt(v3_lsq(u));
    assert(0 <= c && c * c <= n < (c + 1) * (c + 1)) by {
        crate::fixed::lemma_sqrt_floor_of(n);
    }
    if c < 1000 {
        assert((c + 1) * (c + 1) <= 1000 * 1000) by (nonlinear_arith)
            requires
                0 <= c < 1000,
        ;
    }
}

proof fn lemma_range_sample_bounds(min: int, max: int, r: int)
    requires
        min <= max,
        -(crate::fixed::FX_MAX as int) <= min,
        max <= crate::fixed::FX_MAX as int,
        exists|u: int| 0 <= u < FX_SCALE as int && r == fx_add(min, fx_mul(fx_sub(max, min), u)),
    ensures
        min <= r <= max,
{
    let u = choose|u: int|
        0 <= u < FX_SCALE as int && r == fx_add(min, fx_mul(fx_sub(max, min), u));
    let d = fx_sub(max, min);
    assert(0 <= d <= max - min);
    crate::fixed::lemma_fx_mul_le(u, d);
    vstd::arithmetic::mul::lemma_mul_is_commutative(d, u);
    assert(fx_mul(d, u) == fx_mul(u, d));
}

proof fn lemma_fallback_inside(u: V3)
    requires
        u.x == crate::fixed::FX_HALF as int,
        u.y == 0,
        u.z == 0,
    ensures
        0 < v3_lsq(u) < FX_SCALE as int,
{
    assert(fx_mul(u.x, u.x) == 250_000);
    assert(fx_mul(u.y, u.y) == 0);
    assert(fx_mul(u.z, u.z) == 0);
    assert(v3_lsq(u) == 250_000);
}

} // verus!
