//! Saturating fixed-point scalars.
//!
//! Every kinematic quantity of the simulation (position and velocity
//! components, masses, radii, time steps, the gravitational constant) is
//! an [`Fx`]: a signed 64-bit value read as a binary fixed-point number
//! with [`FX_SHIFT`] fractional bits.  Arithmetic truncates toward zero
//! and saturates at the representable bounds, the counterpart of a
//! floating-point computation overflowing to infinity: a close approach
//! of two bodies is allowed to produce extreme velocities rather than a
//! runtime failure.

use vstd::prelude::*;

verus! {

/// Number of fractional bits of an [`Fx`] value.
pub const FX_SHIFT: u32 = 40;

/// The unit value `1` in fixed-point form: `2^FX_SHIFT`.
pub const FX_ONE: i64 = 0x100_0000_0000;

/// A fixed-point scalar: `raw` counts multiples of `2^-FX_SHIFT`.
#[derive(Clone, Copy, Debug, PartialEq, Eq, Structural)]
pub struct Fx {
    pub raw: i64,
}

impl View for Fx {
    type V = int;

    open spec fn view(&self) -> int {
        self.raw as int
    }
}

/// Saturation of a mathematical integer to the raw `i64` range.
pub open spec fn clip(v: int) -> int {
    if v > i64::MAX as int {
        i64::MAX as int
    } else if v < i64::MIN as int {
        i64::MIN as int
    } else {
        v
    }
}

/// Magnitude of a mathematical integer.
pub open spec fn iabs(v: int) -> int {
    if v < 0 {
        -v
    } else {
        v
    }
}

/// Division by the scale `2^FX_SHIFT`, truncating toward zero.
pub open spec fn unscale(p: int) -> int {
    if p >= 0 {
        p / (FX_ONE as int)
    } else {
        -((-p) / (FX_ONE as int))
    }
}

/// The fixed-point value whose raw representation is `clip(v)`.
pub open spec fn fx(v: int) -> Fx {
    Fx { raw: clip(v) as i64 }
}

/// Saturating fixed-point sum.
pub open spec fn fx_add(a: Fx, b: Fx) -> Fx {
    fx(a@ + b@)
}

/// Saturating fixed-point difference.
pub open spec fn fx_sub(a: Fx, b: Fx) -> Fx {
    fx(a@ - b@)
}

/// Saturating fixed-point negation.
pub open spec fn fx_neg(a: Fx) -> Fx {
    fx(-a@)
}

/// Saturating fixed-point product, truncated toward zero.
pub open spec fn fx_mul(a: Fx, b: Fx) -> Fx {
    fx(unscale(a@ * b@))
}

/// Saturating fixed-point quotient, truncated toward zero.
/// Meaningful only for a nonzero divisor.
pub open spec fn fx_div(a: Fx, b: Fx) -> Fx {
    let q = (iabs(a@) * (FX_ONE as int)) / iabs(b@);
    if (a@ < 0) != (b@ < 0) {
        fx(-q)
    } else {
        fx(q)
    }
}

/// The integer square root: the unique `r >= 0` with
/// `r * r <= n < (r + 1) * (r + 1)`.  Meaningful only for `n >= 0`.
pub open spec fn sqrt_floor(n: int) -> int {
    choose|r: int| 0 <= r && #[trigger] (r * r) <= n < (r + 1) * (r + 1)
}

/// Fixed-point square root (exact for perfect squares, floor otherwise).
/// Meaningful only for a nonnegative argument.
pub open spec fn fx_sqrt(a: Fx) -> Fx {
    fx(sqrt_floor(a@ * (FX_ONE as int)))
}

/// The fixed-point representation of the integer `v`.
pub open spec fn fx_from_int(v: int) -> Fx {
    fx(v * (FX_ONE as int))
}

proof fn lemma_i64_product_in_i128(a: int, b: int)
    by (nonlinear_arith)
    requires
        i64::MIN <= a <= i64::MAX,
        i64::MIN <= b <= i64::MAX,
    ensures
        -0x40000000000000000000000000000000 <= a * b
            <= 0x40000000000000000000000000000000,
{
}

proof fn lemma_sqrt_exists(n: int)
    requires
        n >= 0,
    ensures
        exists|r: int| 0 <= r && #[trigger] (r * r) <= n < (r + 1) * (r + 1),
    decreases n,
{
    if n == 0 {
        assert(0 <= 0 && (0int * 0int) <= 0 < (0int + 1) * (0int + 1));
    } else {
        lemma_sqrt_exists(n - 1);
        let r = choose|r: int| 0 <= r && #[trigger] (r * r) <= n - 1 < (r + 1) * (r + 1);
        if (r + 1) * (r + 1) <= n {
            assert((r + 1) * (r + 1) == n);
            assert((r + 1) * (r + 1) < (r + 2) * (r + 2)) by (nonlinear_arith)
                requires
                    r >= 0,
            ;
            assert(0 <= r + 1 && ((r + 1) * (r + 1)) <= n < (r + 2) * (r + 2));
        } else {
            assert(0 <= r && (r * r) <= n < (r + 1) * (r + 1));
        }
    }
}

/// `sqrt_floor(n)` really is the integer square root of `n >= 0`.
pub proof fn lemma_sqrt_floor_props(n: int)
    requires
        n >= 0,
    ensures
        0 <= sqrt_floor(n),
        sqrt_floor(n) * sqrt_floor(n) <= n,
        n < (sqrt_floor(n) + 1) * (sqrt_floor(n) + 1),
{
    lemma_sqrt_exists(n);
}

/// The fixed-point square root of a scalar at least one is at least one:
/// a nonzero distance never collapses to a zero norm.
pub proof fn lemma_fx_sqrt_positive(a: Fx)
    requires
        a@ >= 1,
    ensures
        fx_sqrt(a)@ >= 1,
{
    lemma_sqrt_floor_props(a@ * (FX_ONE as int));
}

proof fn lemma_sqrt_floor_unique(n: int, r1: int, r2: int)
    by (nonlinear_arith)
    requires
        0 <= r1,
        0 <= r2,
        r1 * r1 <= n < (r1 + 1) * (r1 + 1),
        r2 * r2 <= n < (r2 + 1) * (r2 + 1),
    ensures
        r1 == r2,
{
}

/// A product with a zero factor is zero.
pub proof fn lemma_fx_mul_zero(a: Fx, b: Fx)
    requires
        a@ == 0 || b@ == 0,
    ensures
        fx_mul(a, b) == (Fx { raw: 0 }),
{
    assert(a@ * b@ == 0) by (nonlinear_arith)
        requires
            a@ == 0 || b@ == 0,
    ;
}

/// Squaring a difference is insensitive to its sign, saturation
/// included: `(a - b)^2 == (b - a)^2` in saturating fixed point.
pub proof fn lemma_square_sub_symmetric(a: Fx, b: Fx)
    ensures
        fx_mul(fx_sub(a, b), fx_sub(a, b)) == fx_mul(fx_sub(b, a), fx_sub(b, a)),
{
    let d = a@ - b@;
    if -0x7fff_ffff_ffff_ffff <= d <= 0x7fff_ffff_ffff_ffff {
        assert(clip(d) == d && clip(-d) == -d);
        assert(d * d == (-d) * (-d)) by (nonlinear_arith);
    } else {
        let lo = i64::MIN as int;
        let hi = i64::MAX as int;
        assert((clip(d) == lo && clip(-d) == hi) || (clip(d) == hi && clip(-d) == lo));
        assert(unscale(lo * lo) > hi);
        assert(unscale(hi * hi) > hi);
        assert(fx_mul(fx_sub(a, b), fx_sub(a, b)) == (Fx { raw: i64::MAX }));
        assert(fx_mul(fx_sub(b, a), fx_sub(b, a)) == (Fx { raw: i64::MAX }));
    }
}

/// The integer square root of an arbitrary `u128`, by bisection.
fn isqrt_u128(n: u128) -> (r: u128)
    ensures
        r * r <= n,
        n < (r + 1) * (r + 1),
{
    let mut lo: u128 = 0;
    let mut hi: u128 = 0x1_0000_0000_0000_0000;
    while hi - lo > 1
        invariant
            lo < hi <= 0x1_0000_0000_0000_0000,
            lo * lo <= n,
            n < hi * hi,
        decreases hi - lo,
    {
        let mid: u128 = lo + (hi - lo) / 2;
        assert(mid * mid < 0xffffffffffffffffffffffffffffffff) by (nonlinear_arith)
            requires
                mid < 0x1_0000_0000_0000_0000u128,
        ;
        if mid * mid <= n {
            lo = mid;
        } else {
            hi = mid;
        }
    }
    lo
}

fn clamp_raw(v: i128) -> (r: i64)
    ensures
        r as int == clip(v as int),
{
    if v > i64::MAX as i128 {
        i64::MAX
    } else if v < i64::MIN as i128 {
        i64::MIN
    } else {
        v as i64
    }
}

impl Fx {
    /// The scalar with the given raw fixed-point representation.
    pub fn from_raw(raw: i64) -> (r: Fx)
        ensures
            r@ == raw,
    {
        Fx { raw }
    }

    /// The scalar zero.
    pub fn zero() -> (r: Fx)
        ensures
            r@ == 0,
    {
        Fx { raw: 0 }
    }

    /// The fixed-point representation of the integer `v`, saturated.
    pub fn from_int(v: i64) -> (r: Fx)
        ensures
            r == fx_from_int(v as int),
    {
        let p: i128 = (v as i128) * (FX_ONE as i128);
        Fx { raw: clamp_raw(p) }
    }

    /// Saturating sum.
    pub fn add(self, other: Fx) -> (r: Fx)
        ensures
            r == fx_add(self, other),
    {
        let s: i128 = (self.raw as i128) + (other.raw as i128);
        Fx { raw: clamp_raw(s) }
    }

    /// Saturating difference.
    pub fn sub(self, other: Fx) -> (r: Fx)
        ensures
            r == fx_sub(self, other),
    {
        let s: i128 = (self.raw as i128) - (other.raw as i128);
        Fx { raw: clamp_raw(s) }
    }

    /// Saturating negation.
    pub fn neg(self) -> (r: Fx)
        ensures
            r == fx_neg(self),
    {
        let s: i128 = -(self.raw as i128);
        Fx { raw: clamp_raw(s) }
    }

    /// Saturating product, truncated toward zero.
    pub fn mul(self, other: Fx) -> (r: Fx)
        ensures
            r == fx_mul(self, other),
    {
        proof {
            lemma_i64_product_in_i128(self@, other@);
        }
        let p: i128 = (self.raw as i128) * (other.raw as i128);
        let res: i128 = if p >= 0 {
            let q: u128 = (p as u128) / (FX_ONE as u128);
            q as i128
        } else {
            let q: u128 = ((-p) as u128) / (FX_ONE as u128);
            -(q as i128)
        };
        Fx { raw: clamp_raw(res) }
    }

    /// Saturating quotient, truncated toward zero.
    pub fn div(self, other: Fx) -> (r: Fx)
        requires
            other@ != 0,
        ensures
            r == fx_div(self, other),
    {
        let mag_a: u128 = if self.raw < 0 {
            (-(self.raw as i128)) as u128
        } else {
            self.raw as u128
        };
        let mag_b: u128 = if other.raw < 0 {
            (-(other.raw as i128)) as u128
        } else {
            other.raw as u128
        };
        let num: u128 = mag_a * (FX_ONE as u128);
        let q: u128 = num / mag_b;
        proof {
            vstd::arithmetic::div_mod::lemma_div_nonincreasing(num as int, mag_b as int);
        }
        let res: i128 = if (self.raw < 0) != (other.raw < 0) {
            -(q as i128)
        } else {
            q as i128
        };
        Fx { raw: clamp_raw(res) }
    }

    /// Fixed-point square root.
    pub fn sqrt(self) -> (r: Fx)
        requires
            self@ >= 0,
        ensures
            r == fx_sqrt(self),
    {
        let n: u128 = (self.raw as u128) * (FX_ONE as u128);
        let root: u128 = isqrt_u128(n);
        proof {
            assert(root < 0x10000000000000) by (nonlinear_arith)
                requires
                    root * root <= n,
                    n < 0x100000000000000000000000000,
            ;
            assert(exists|r: int|
                0 <= r && #[trigger] (r * r) <= (n as int) && (n as int) < (r + 1) * (r + 1))
                by {
                assert((root as int) * (root as int) <= (n as int));
                assert((n as int) < (root as int + 1) * (root as int + 1));
            }
            lemma_sqrt_floor_unique(n as int, root as int, sqrt_floor(n as int));
        }
        Fx { raw: root as i64 }
    }

    /// Whether the scalar is strictly positive.
    pub fn is_positive(self) -> (r: bool)
        ensures
            r == (self@ > 0),
    {
        self.raw > 0
    }
}

} // verus!
