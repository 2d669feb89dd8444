//! Process-wide physical constants.

use vstd::prelude::*;

use crate::fixed::Fx;

verus! {

/// Default gravitational constant, in raw fixed-point form: the
/// conventional `6.674e-11` scaled by `2^FX_SHIFT` and rounded.  The
/// simulation treats it as plain configuration; any other value may be
/// supplied when a mesh is built.
pub const GRAVITATIONAL_CONSTANT: i64 = 73;

/// The default gravitational constant as a scalar.
pub fn gravitational_constant() -> (r: Fx)
    ensures
        r@ == GRAVITATIONAL_CONSTANT as int,
{
    Fx::from_raw(GRAVITATIONAL_CONSTANT)
}

} // verus!
