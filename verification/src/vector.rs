//! Three-component fixed-point vectors.
//!
//! Positions, velocities and their deltas are [`V3`] values; every
//! operation is componentwise [`Fx`](crate::fixed::Fx) arithmetic, so a
//! vector computation is pinned down exactly by the spec functions
//! here.

use vstd::prelude::*;

use crate::fixed::{fx_add, fx_mul, fx_sub, lemma_fx_mul_zero, lemma_square_sub_symmetric, Fx};

verus! {

/// A vector of three fixed-point scalars.
#[derive(Clone, Copy, Debug, PartialEq, Eq, Structural)]
pub struct V3 {
    pub x: Fx,
    pub y: Fx,
    pub z: Fx,
}

/// Componentwise saturating sum.
pub open spec fn v3_add(a: V3, b: V3) -> V3 {
    V3 { x: fx_add(a.x, b.x), y: fx_add(a.y, b.y), z: fx_add(a.z, b.z) }
}

/// Componentwise saturating difference.
pub open spec fn v3_sub(a: V3, b: V3) -> V3 {
    V3 { x: fx_sub(a.x, b.x), y: fx_sub(a.y, b.y), z: fx_sub(a.z, b.z) }
}

/// Componentwise saturating product with the scalar `s`.
pub open spec fn v3_scale(a: V3, s: Fx) -> V3 {
    V3 { x: fx_mul(a.x, s), y: fx_mul(a.y, s), z: fx_mul(a.z, s) }
}

/// Squared Euclidean norm: `x*x + y*y + z*z` in saturating fixed point.
pub open spec fn v3_norm2(a: V3) -> Fx {
    fx_add(fx_add(fx_mul(a.x, a.x), fx_mul(a.y, a.y)), fx_mul(a.z, a.z))
}

/// The zero vector.
pub open spec fn v3_zero() -> V3 {
    V3 { x: Fx { raw: 0 }, y: Fx { raw: 0 }, z: Fx { raw: 0 } }
}

impl V3 {
    /// The zero vector.
    pub fn zero() -> (r: V3)
        ensures
            r == v3_zero(),
    {
        V3 { x: Fx::zero(), y: Fx::zero(), z: Fx::zero() }
    }

    /// The vector with the given fixed-point components.
    pub fn new(x: Fx, y: Fx, z: Fx) -> (r: V3)
        ensures
            r == (V3 { x, y, z }),
    {
        V3 { x, y, z }
    }

    /// Componentwise saturating sum.
    pub fn add(self, other: V3) -> (r: V3)
        ensures
            r == v3_add(self, other),
    {
        V3 { x: self.x.add(other.x), y: self.y.add(other.y), z: self.z.add(other.z) }
    }

    /// Componentwise saturating difference.
    pub fn sub(self, other: V3) -> (r: V3)
        ensures
            r == v3_sub(self, other),
    {
        V3 { x: self.x.sub(other.x), y: self.y.sub(other.y), z: self.z.sub(other.z) }
    }

    /// Componentwise saturating product with the scalar `s`.
    pub fn scale(self, s: Fx) -> (r: V3)
        ensures
            r == v3_scale(self, s),
    {
        V3 { x: self.x.mul(s), y: self.y.mul(s), z: self.z.mul(s) }
    }

    /// Squared Euclidean norm.
    pub fn norm2(self) -> (r: Fx)
        ensures
            r == v3_norm2(self),
    {
        self.x.mul(self.x).add(self.y.mul(self.y)).add(self.z.mul(self.z))
    }
}

/// A squared component is never negative.
pub proof fn lemma_square_nonneg(a: Fx)
    ensures
        fx_mul(a, a)@ >= 0,
{
    assert(a@ * a@ >= 0) by (nonlinear_arith);
}

/// A squared norm is never negative: degenerate geometry shows up as
/// zero, not as a negative distance.
pub proof fn lemma_norm2_nonneg(a: V3)
    ensures
        v3_norm2(a)@ >= 0,
{
    lemma_square_nonneg(a.x);
    lemma_square_nonneg(a.y);
    lemma_square_nonneg(a.z);
}

/// Adding the zero vector changes nothing.
pub proof fn lemma_v3_add_zero(a: V3)
    ensures
        v3_add(a, v3_zero()) == a,
{
}

/// Scaling the zero vector gives the zero vector.
pub proof fn lemma_v3_scale_zero(s: Fx)
    ensures
        v3_scale(v3_zero(), s) == v3_zero(),
{
    lemma_fx_mul_zero(Fx { raw: 0 }, s);
}

/// The difference of a vector with itself is the zero vector, and the
/// zero vector has zero squared norm.
pub proof fn lemma_norm2_self_sub_zero(a: V3)
    ensures
        v3_sub(a, a) == v3_zero(),
        v3_norm2(v3_sub(a, a))@ == 0,
{
    lemma_fx_mul_zero(Fx { raw: 0 }, Fx { raw: 0 });
}

/// Both bodies of a pair see one squared distance: the squared norm of
/// a difference vector does not depend on which end it is taken from.
pub proof fn lemma_norm2_sub_symmetric(a: V3, b: V3)
    ensures
        v3_norm2(v3_sub(a, b)) == v3_norm2(v3_sub(b, a)),
{
    lemma_square_sub_symmetric(a.x, b.x);
    lemma_square_sub_symmetric(a.y, b.y);
    lemma_square_sub_symmetric(a.z, b.z);
}

} // verus!
