//! Exact fixed-point scalar arithmetic.
//!
//! A [`Fx`] stores a real quantity `q` as the integer `q * FX_SCALE`,
//! truncated toward zero.  The decimal scale keeps values such as 0.5, 0.7
//! or 0.001 exactly representable.  Every operation saturates at
//! `±FX_MAX`, so results always stay inside the representable range and
//! the operations are total.
use vstd::prelude::*;

verus! {

use vstd::arithmetic::div_mod::lemma_fundamental_div_mod;
use vstd::arithmetic::div_mod::lemma_fundamental_div_mod_converse_div;

/// Number of raw units per whole unit: `Fx` has six decimal places.
pub const FX_SCALE: i64 = 1_000_000;

/// Largest raw magnitude a `Fx` can carry (a real magnitude of one billion).
pub const FX_MAX: i64 = 1_000_000_000_000_000;

/// Raw representation of one half.
pub const FX_HALF: i64 = 500_000;

/// Saturation at the representable range.
pub open spec fn sat_fx(x: int) -> int {
    if x > FX_MAX {
        FX_MAX as int
    } else if x < -(FX_MAX as int) {
        -(FX_MAX as int)
    } else {
        x
    }
}

/// Quotient truncated toward zero, as the machine division computes it.
pub open spec fn quot_fx(a: int, b: int) -> int {
    let q = (if a < 0 { -a } else { a }) / (if b < 0 { -b } else { b });
    if (a < 0) != (b < 0) {
        -q
    } else {
        q
    }
}

pub open spec fn fx_add(a: int, b: int) -> int {
    sat_fx(a + b)
}

pub open spec fn fx_sub(a: int, b: int) -> int {
    sat_fx(a - b)
}

pub open spec fn fx_neg(a: int) -> int {
    sat_fx(-a)
}

pub open spec fn fx_mul(a: int, b: int) -> int {
    sat_fx(quot_fx(a * b, FX_SCALE as int))
}

pub open spec fn fx_div(a: int, b: int) -> int {
    sat_fx(quot_fx(a * (FX_SCALE as int), b))
}

pub open spec fn fx_min(a: int, b: int) -> int {
    if a < b {
        a
    } else {
        b
    }
}

pub open spec fn fx_max(a: int, b: int) -> int {
    if a > b {
        a
    } else {
        b
    }
}

pub open spec fn fx_abs(a: int) -> int {
    if a < 0 {
        -a
    } else {
        a
    }
}

pub open spec fn fx_clamp(x: int, lo: int, hi: int) -> int {
    if x < lo {
        lo
    } else if x > hi {
        hi
    } else {
        x
    }
}

/// The integer square root: the unique `r >= 0` with `r * r <= n < (r + 1) * (r + 1)`.
pub open spec fn sqrt_floor(n: int) -> int {
    choose|r: int| 0 <= r && #[trigger] (r * r) <= n < (r + 1) * (r + 1)
}

/// Square root of a fixed-point value: `sqrt(a / S) == sqrt(a * S) / S`.
pub open spec fn fx_sqrt(a: int) -> int {
    sqrt_floor(a * (FX_SCALE as int))
}

/// The integer square root is well defined: any root candidate is the root.
pub proof fn lemma_sqrt_floor_unique(n: int, r: int)
    requires
        0 <= r,
        r * r <= n,
        n < (r + 1) * (r + 1),
    ensures
        sqrt_floor(n) == r,
{
    assert(exists|s: int| 0 <= s && #[trigger] (s * s) <= n < (s + 1) * (s + 1)) by {
        assert(0 <= r && r * r <= n < (r + 1) * (r + 1));
    }
    let c = sqrt_floor(n);
    assert(0 <= c && c * c <= n < (c + 1) * (c + 1));
    if c < r {
        assert((c + 1) * (c + 1) <= r * r) by (nonlinear_arith)
            requires
                0 <= c,
                c < r,
        ;
    }
    if r < c {
        assert((r + 1) * (r + 1) <= c * c) by (nonlinear_arith)
            requires
                0 <= r,
                r < c,
        ;
    }
}

/// The scalar with the given raw representation, for use in specifications.
pub closed spec fn fx_raw(v: int) -> Fx {
    Fx { v: v as i64 }
}

pub proof fn lemma_fx_raw_view(v: int)
    requires
        -(FX_MAX as int) <= v <= FX_MAX as int,
    ensures
        fx_raw(v)@ == v,
{
}

/// Two scalars with the same value are the same scalar.
pub proof fn lemma_fx_view_injective(a: Fx, b: Fx)
    requires
        a@ == b@,
    ensures
        a == b,
{
    assert(a == Fx { v: a.v });
    assert(b == Fx { v: b.v });
}

/// A fixed-point square is never negative.
pub proof fn lemma_fx_square_nonneg(a: int)
    ensures
        fx_mul(a, a) >= 0,
{
    assert(a * a >= 0) by (nonlinear_arith);
    vstd::arithmetic::div_mod::lemma_div_pos_is_pos(a * a, FX_SCALE as int);
}

/// A product of factors with matching signs truncates to a nonnegative value.
pub proof fn lemma_fx_mul_nonneg(a: int, b: int)
    requires
        a >= 0,
        b >= 0,
    ensures
        fx_mul(a, b) >= 0,
{
    assert(a * b >= 0) by (nonlinear_arith)
        requires
            a >= 0,
            b >= 0,
    ;
    vstd::arithmetic::div_mod::lemma_div_pos_is_pos(a * b, FX_SCALE as int);
}

/// A quotient of nonnegatives truncates to a nonnegative value.
pub proof fn lemma_fx_div_nonneg(a: int, b: int)
    requires
        a >= 0,
        b > 0,
    ensures
        fx_div(a, b) >= 0,
{
    assert(a * (FX_SCALE as int) >= 0) by (nonlinear_arith)
        requires
            a >= 0,
    ;
    vstd::arithmetic::div_mod::lemma_div_pos_is_pos(a * (FX_SCALE as int), b);
}

/// Multiplying a value of at most one by a nonnegative value cannot enlarge it.
pub proof fn lemma_fx_mul_le(a: int, b: int)
    requires
        0 <= a <= FX_SCALE as int,
        0 <= b,
    ensures
        0 <= fx_mul(a, b) <= b,
{
    assert(0 <= a * b <= (FX_SCALE as int) * b) by (nonlinear_arith)
        requires
            0 <= a <= FX_SCALE as int,
            0 <= b,
    ;
    vstd::arithmetic::div_mod::lemma_div_pos_is_pos(a * b, FX_SCALE as int);
    assert((a * b) / (FX_SCALE as int) <= ((FX_SCALE as int) * b) / (FX_SCALE as int)) by {
        vstd::arithmetic::div_mod::lemma_div_is_ordered(a * b, (FX_SCALE as int) * b, FX_SCALE as int);
    }
    assert(((FX_SCALE as int) * b) / (FX_SCALE as int) == b) by {
        vstd::arithmetic::div_mod::lemma_div_by_multiple(b, FX_SCALE as int);
        vstd::arithmetic::mul::lemma_mul_is_commutative(FX_SCALE as int, b);
    }
}

/// The square-root specification is inhabited for nonnegative arguments.
pub proof fn lemma_sqrt_floor_of(n: int)
    requires
        n >= 0,
    ensures
        ({
            let c = sqrt_floor(n);
            0 <= c && c * c <= n < (c + 1) * (c + 1)
        }),
    decreases n,
{
    if n == 0 {
        lemma_sqrt_floor_unique(0, 0);
    } else {
        lemma_sqrt_floor_of(n - 1);
        let p = sqrt_floor(n - 1);
        if n < (p + 1) * (p + 1) {
            lemma_sqrt_floor_unique(n, p);
        } else {
            assert(n == (p + 1) * (p + 1));
            assert((p + 2) * (p + 2) > n) by (nonlinear_arith)
                requires
                    n == (p + 1) * (p + 1),
                    p >= 0,
            ;
            lemma_sqrt_floor_unique(n, p + 1);
        }
    }
}

/// A square root of a nonnegative value is nonnegative.
pub proof fn lemma_fx_sqrt_nonneg(a: int)
    requires
        a >= 0,
    ensures
        fx_sqrt(a) >= 0,
{
    assert(a * (FX_SCALE as int) >= 0) by (nonlinear_arith)
        requires
            a >= 0,
    ;
    lemma_sqrt_floor_of(a * (FX_SCALE as int));
}

/// Multiplying by one is the identity, up to saturation.
pub proof fn lemma_fx_mul_one(x: int)
    ensures
        fx_mul(x, FX_SCALE as int) == sat_fx(x),
        fx_mul(FX_SCALE as int, x) == sat_fx(x),
{
    let ax = if x < 0 {
        -x
    } else {
        x
    };
    assert((if x * (FX_SCALE as int) < 0 {
        -(x * (FX_SCALE as int))
    } else {
        x * (FX_SCALE as int)
    }) == ax * (FX_SCALE as int)) by (nonlinear_arith)
        requires
            ax == (if x < 0 {
                -x
            } else {
                x
            }),
    ;
    vstd::arithmetic::div_mod::lemma_div_by_multiple(ax, FX_SCALE as int);
    assert(quot_fx(x * (FX_SCALE as int), FX_SCALE as int) == x);
    assert(x * (FX_SCALE as int) == (FX_SCALE as int) * x) by (nonlinear_arith);
}

/// Multiplying by minus one negates, up to saturation.
pub proof fn lemma_fx_mul_neg_one(x: int)
    ensures
        fx_mul(x, -(FX_SCALE as int)) == sat_fx(-x),
{
    let ax = if x < 0 {
        -x
    } else {
        x
    };
    assert((if x * (-(FX_SCALE as int)) < 0 {
        -(x * (-(FX_SCALE as int)))
    } else {
        x * (-(FX_SCALE as int))
    }) == ax * (FX_SCALE as int)) by (nonlinear_arith)
        requires
            ax == (if x < 0 {
                -x
            } else {
                x
            }),
    ;
    vstd::arithmetic::div_mod::lemma_div_by_multiple(ax, FX_SCALE as int);
    let a = x * (-(FX_SCALE as int));
    if x > 0 {
        assert(a < 0) by (nonlinear_arith)
            requires
                a == x * (-(FX_SCALE as int)),
                x > 0,
        ;
        assert(quot_fx(a, FX_SCALE as int) == -ax);
    } else if x < 0 {
        assert(a > 0) by (nonlinear_arith)
            requires
                a == x * (-(FX_SCALE as int)),
                x < 0,
        ;
        assert(quot_fx(a, FX_SCALE as int) == ax);
    } else {
        assert(a == 0) by (nonlinear_arith)
            requires
                a == x * (-(FX_SCALE as int)),
                x == 0,
        ;
    }
    assert(quot_fx(x * (-(FX_SCALE as int)), FX_SCALE as int) == -x);
}

/// Truncating division by a positive divisor is monotone in the dividend.
pub proof fn lemma_quot_monotone(x: int, y: int, b: int)
    requires
        x <= y,
        b > 0,
    ensures
        quot_fx(x, b) <= quot_fx(y, b),
{
    if x >= 0 {
        vstd::arithmetic::div_mod::lemma_div_is_ordered(x, y, b);
    } else if y < 0 {
        vstd::arithmetic::div_mod::lemma_div_is_ordered(-y, -x, b);
    } else {
        vstd::arithmetic::div_mod::lemma_div_pos_is_pos(-x, b);
        vstd::arithmetic::div_mod::lemma_div_pos_is_pos(y, b);
    }
}

/// Fixed-point division by a positive divisor is monotone in the dividend.
pub proof fn lemma_fx_div_monotone(x: int, y: int, b: int)
    requires
        x <= y,
        b > 0,
    ensures
        fx_div(x, b) <= fx_div(y, b),
{
    assert(x * (FX_SCALE as int) <= y * (FX_SCALE as int)) by (nonlinear_arith)
        requires
            x <= y,
    ;
    lemma_quot_monotone(x * (FX_SCALE as int), y * (FX_SCALE as int), b);
}

/// The machine's truncating signed division agrees with `quot_fx`.
proof fn lemma_machine_div_is_quot(a: int, b: int)
    requires
        b != 0,
    ensures
        (if a >= 0 {
            a / b
        } else {
            -((-a) / b)
        }) == quot_fx(a, b),
{
    if b < 0 {
        lemma_div_negative_divisor(if a >= 0 { a } else { -a }, b);
    }
}

/// For a nonnegative dividend, dividing by `b < 0` negates the quotient by `-b`.
proof fn lemma_div_negative_divisor(a: int, b: int)
    requires
        a >= 0,
        b < 0,
    ensures
        a / b == -(a / (-b)),
{
    let q = a / b;
    let r = a % b;
    lemma_fundamental_div_mod(a, b);
    assert(a == b * q + r);
    assert(0 <= r < -b);
    assert(a == (-q) * (-b) + r) by (nonlinear_arith)
        requires
            a == b * q + r,
    ;
    lemma_fundamental_div_mod_converse_div(a, -b, -q, r);
}

/// An exact fixed-point scalar; the raw integer is the value times `FX_SCALE`.
#[derive(Clone, Copy, Debug, PartialEq, Eq, Structural)]
pub struct Fx {
    v: i64,
}

impl View for Fx {
    type V = int;

    closed spec fn view(&self) -> int {
        self.v as int
    }
}

impl Fx {
    /// Every scalar the library builds stays inside the saturation range.
    #[verifier::type_invariant]
    pub open spec fn bounded(self) -> bool {
        -(FX_MAX as int) <= self@ <= FX_MAX as int
    }

    /// Builds the scalar whose raw (scaled) representation is `raw`.
    pub fn new(raw: i64) -> (r: Fx)
        requires
            -FX_MAX <= raw <= FX_MAX,
        ensures
            r@ == raw,
    {
        Fx { v: raw }
    }

    /// Builds the scalar for the whole number `i`.
    pub fn from_int(i: i32) -> (r: Fx)
        requires
            -1_000_000_000 <= i <= 1_000_000_000,
        ensures
            r@ == i * (FX_SCALE as int),
    {
        Fx { v: (i as i64) * FX_SCALE }
    }

    pub fn zero() -> (r: Fx)
        ensures
            r@ == 0,
    {
        Fx { v: 0 }
    }

    pub fn one() -> (r: Fx)
        ensures
            r@ == FX_SCALE as int,
    {
        Fx { v: FX_SCALE }
    }

    /// The raw (scaled) representation.
    pub fn raw(&self) -> (r: i64)
        ensures
            r == self@,
    {
        self.v
    }

    pub fn add(self, rhs: Fx) -> (r: Fx)
        ensures
            r@ == fx_add(self@, rhs@),
    {
        proof {
            use_type_invariant(self);
            use_type_invariant(rhs);
        }
        let s: i64 = self.v + rhs.v;
        Fx { v: sat_exec(s as i128) }
    }

    pub fn sub(self, rhs: Fx) -> (r: Fx)
        ensures
            r@ == fx_sub(self@, rhs@),
    {
        proof {
            use_type_invariant(self);
            use_type_invariant(rhs);
        }
        let s: i64 = self.v - rhs.v;
        Fx { v: sat_exec(s as i128) }
    }

    pub fn neg(self) -> (r: Fx)
        ensures
            r@ == fx_neg(self@),
            r@ == -self@,
    {
        proof {
            use_type_invariant(self);
        }
        Fx { v: -self.v }
    }

    pub fn mul(self, rhs: Fx) -> (r: Fx)
        ensures
            r@ == fx_mul(self@, rhs@),
    {
        proof {
            use_type_invariant(self);
            use_type_invariant(rhs);
        }
        let a: i128 = self.v as i128;
        let b: i128 = rhs.v as i128;
        assert(-0x1_0000_0000_0000_0000_0000_0000_0000i128 <= a * b
            <= 0x1_0000_0000_0000_0000_0000_0000_0000i128) by (nonlinear_arith)
            requires
                -(FX_MAX as int) <= a <= FX_MAX as int,
                -(FX_MAX as int) <= b <= FX_MAX as int,
        ;
        let p: i128 = a * b;
        let q: i128 = trunc_div(p, FX_SCALE as i128);
        Fx { v: sat_exec(q) }
    }

    pub fn div(self, rhs: Fx) -> (r: Fx)
        requires
            rhs@ != 0,
        ensures
            r@ == fx_div(self@, rhs@),
    {
        proof {
            use_type_invariant(self);
            use_type_invariant(rhs);
        }
        let a: i128 = (self.v as i128) * (FX_SCALE as i128);
        assert(-0x10_0000_0000_0000_0000_0000i128 <= a <= 0x10_0000_0000_0000_0000_0000i128)
            by (nonlinear_arith)
            requires
                a == (self.v as int) * (FX_SCALE as int),
                -(FX_MAX as int) <= self.v <= FX_MAX as int,
        ;
        let q: i128 = trunc_div(a, rhs.v as i128);
        Fx { v: sat_exec(q) }
    }

    /// Floor square root in the fixed-point scale; exact on perfect squares.
    pub fn sqrt(self) -> (r: Fx)
        requires
            self@ >= 0,
        ensures
            r@ == fx_sqrt(self@),
            r@ >= 0,
    {
        proof {
            use_type_invariant(self);
        }
        let n: u128 = (self.v as u128) * (FX_SCALE as u128);
        proof {
            assert(n <= 1_000_000_000_000_000_000_000u128) by (nonlinear_arith)
                requires
                    n == (self.v as int) * (FX_SCALE as int),
                    0 <= self.v <= FX_MAX as int,
            ;
        }
        let s: u128 = isqrt(n);
        proof {
            lemma_sqrt_floor_unique(n as int, s as int);
            // The root of a value at most FX_MAX * FX_SCALE fits well below FX_MAX.
            assert(s <= 31_622_776_602u128) by (nonlinear_arith)
                requires
                    s * s <= n,
                    n <= 1_000_000_000_000_000_000_000int,
            ;
        }
        Fx { v: s as i64 }
    }

    pub fn min(self, rhs: Fx) -> (r: Fx)
        ensures
            r@ == fx_min(self@, rhs@),
    {
        if self.v < rhs.v {
            self
        } else {
            rhs
        }
    }

    pub fn max(self, rhs: Fx) -> (r: Fx)
        ensures
            r@ == fx_max(self@, rhs@),
    {
        if self.v > rhs.v {
            self
        } else {
            rhs
        }
    }

    pub fn abs(self) -> (r: Fx)
        ensures
            r@ == fx_abs(self@),
    {
        proof {
            use_type_invariant(self);
        }
        if self.v < 0 {
            Fx { v: -self.v }
        } else {
            self
        }
    }

    pub fn lt(self, rhs: Fx) -> (r: bool)
        ensures
            r == (self@ < rhs@),
    {
        self.v < rhs.v
    }

    pub fn le(self, rhs: Fx) -> (r: bool)
        ensures
            r == (self@ <= rhs@),
    {
        self.v <= rhs.v
    }
}

/// Saturates a wide intermediate result back into the representable range.
fn sat_exec(q: i128) -> (r: i64)
    ensures
        r as int == sat_fx(q as int),
{
    if q > FX_MAX as i128 {
        FX_MAX
    } else if q < -(FX_MAX as i128) {
        -FX_MAX
    } else {
        q as i64
    }
}

/// Truncating division on wide intermediates, pinned to `quot_fx`.
fn trunc_div(a: i128, b: i128) -> (r: i128)
    requires
        b != 0,
        -0x4000_0000_0000_0000_0000_0000_0000_0000i128 < a,
    ensures
        r as int == quot_fx(a as int, b as int),
{
    proof {
        lemma_machine_div_is_quot(a as int, b as int);
    }
    if a >= 0 {
        a / b
    } else {
        -((-a) / b)
    }
}

/// Binary-search integer square root.
fn isqrt(n: u128) -> (r: u128)
    requires
        n < 0x1_0000_0000_0000_0000_0000u128,
    ensures
        r * r <= n < (r + 1) * (r + 1),
{
    let mut lo: u128 = 0;
    let mut hi: u128 = 0x100_0000_0000u128;
    assert(hi * hi > n) by (nonlinear_arith)
        requires
            hi == 0x100_0000_0000u128,
            n < 0x1_0000_0000_0000_0000_0000u128,
    ;
    while lo + 1 < hi
        invariant
            lo < hi,
            hi <= 0x100_0000_0000u128,
            lo * lo <= n,
            n < hi * hi,
        decreases hi - lo,
    {
        let mid: u128 = lo + (hi - lo) / 2;
        assert(mid * mid < 0x1_0000_0000_0000_0000_0000_0000u128) by (nonlinear_arith)
            requires
                mid <= 0x100_0000_0000u128,
        ;
        if mid * mid <= n {
            lo = mid;
        } else {
            hi = mid;
        }
    }
    lo
}

} // verus!
