//! Bodies and the gravitational integrator.
//!
//! A [`GBody`] is one point mass with mutable kinematic state; a
//! [`PhysicsMesh`] owns the whole collection together with the
//! gravitational constant and advances it one step at a time.  Each
//! step is two phases: every unordered pair of bodies exchanges a
//! velocity kick computed from the positions as they stood at the start
//! of the step, and only afterwards every position advances along the
//! fully updated velocity (semi-implicit Euler).
//!
//! Degenerate-distance policy: a pair whose squared distance rounds to
//! zero (coincident bodies, or bodies closer than the fixed-point
//! resolution) exchanges no kick, and a kick toward a target at the
//! body's own position applies no change.  Apart from that guard,
//! nothing is clamped: a close approach produces the extreme,
//! saturating velocities that the force law dictates.

use vstd::prelude::*;

use crate::consts::{gravitational_constant, GRAVITATIONAL_CONSTANT};
use crate::fixed::{fx_div, fx_mul, fx_sqrt, lemma_fx_sqrt_positive, Fx};
use crate::vector::{lemma_norm2_self_sub_zero, lemma_norm2_sub_symmetric, lemma_v3_add_zero,
    lemma_v3_scale_zero, v3_add, v3_norm2, v3_scale, v3_sub, v3_zero, V3};

verus! {

/// An RGBA display color, visual only: it never feeds the force law.
#[derive(Clone, Copy, Debug, PartialEq, Eq, Structural)]
pub struct Srgba {
    pub r: u8,
    pub g: u8,
    pub b: u8,
    pub a: u8,
}

impl Srgba {
    /// The color with the given channels.
    pub fn new(r: u8, g: u8, b: u8, a: u8) -> (c: Srgba)
        ensures
            c == (Srgba { r, g, b, a }),
    {
        Srgba { r, g, b, a }
    }
}

/// Why constructing a body was rejected.
#[derive(Clone, Copy, Debug, PartialEq, Eq, Structural)]
pub enum BodyConfigError {
    /// The mass was zero or negative: such a body has no defined
    /// acceleration magnitude and never reaches the integrator.
    NonPositiveMass,
    /// The visual radius was negative.
    NegativeRadius,
}

/// The velocity after one kick of magnitude `dv` toward `to`, applied
/// to a body at `pos` moving with `vel`: the unit vector from `pos` to
/// `to`, scaled by `dv`, added to `vel`.  When the squared distance to
/// the target rounds to zero the velocity is returned unchanged.
#[verifier::opaque]
pub open spec fn kick_vel(pos: V3, vel: V3, dv: Fx, to: V3) -> V3 {
    let d = v3_sub(to, pos);
    let n2 = v3_norm2(d);
    if n2@ <= 0 {
        vel
    } else {
        let n = fx_sqrt(n2);
        let u = V3 { x: fx_div(d.x, n), y: fx_div(d.y, n), z: fx_div(d.z, n) };
        v3_add(vel, v3_scale(u, dv))
    }
}

/// A single simulated point mass.
///
/// `pos` and `vel` change every step; `mass` (strictly positive for
/// any body built through [`GBody::new`]), `radius`, `color` and `name`
/// are fixed for the run.  `radius`, `color` and `name` are visual
/// attributes only.
#[derive(Debug)]
pub struct GBody {
    pub name: String,
    pub pos: V3,
    pub vel: V3,
    pub color: Srgba,
    pub radius: Fx,
    pub mass: Fx,
}

impl GBody {
    /// Builds a body at rest at the origin.  Rejected as a
    /// configuration error if the mass is not strictly positive or the
    /// radius is negative; the mass is checked first.
    pub fn new(name: String, color: Srgba, radius: Fx, mass: Fx) -> (r: Result<
        GBody,
        BodyConfigError,
    >)
        ensures
            mass@ > 0 && radius@ >= 0 ==> r == Ok::<GBody, BodyConfigError>(
                GBody {
                    name: name,
                    pos: v3_zero(),
                    vel: v3_zero(),
                    color: color,
                    radius: radius,
                    mass: mass,
                },
            ),
            mass@ <= 0 ==> r == Err::<GBody, BodyConfigError>(BodyConfigError::NonPositiveMass),
            mass@ > 0 && radius@ < 0 ==> r == Err::<GBody, BodyConfigError>(
                BodyConfigError::NegativeRadius,
            ),
    {
        if !mass.is_positive() {
            Err(BodyConfigError::NonPositiveMass)
        } else if radius.raw < 0 {
            Err(BodyConfigError::NegativeRadius)
        } else {
            Ok(GBody { name, pos: V3::zero(), vel: V3::zero(), color, radius, mass })
        }
    }

    /// Overwrites both kinematic fields; used once at setup.
    pub fn set_motion(&mut self, pos: V3, vel: V3)
        ensures
            *final(self) == (GBody {
                name: old(self).name,
                pos: pos,
                vel: vel,
                color: old(self).color,
                radius: old(self).radius,
                mass: old(self).mass,
            }),
    {
        self.pos = pos;
        self.vel = vel;
    }

    /// Adds `dr` to the position.
    pub fn displace(&mut self, dr: V3)
        ensures
            *final(self) == (GBody {
                name: old(self).name,
                pos: v3_add(old(self).pos, dr),
                vel: old(self).vel,
                color: old(self).color,
                radius: old(self).radius,
                mass: old(self).mass,
            }),
    {
        self.pos = self.pos.add(dr);
    }

    /// Adds `dv` to the velocity.
    pub fn accelerate(&mut self, dv: V3)
        ensures
            *final(self) == (GBody {
                name: old(self).name,
                pos: old(self).pos,
                vel: v3_add(old(self).vel, dv),
                color: old(self).color,
                radius: old(self).radius,
                mass: old(self).mass,
            }),
    {
        self.vel = self.vel.add(dv);
    }

    /// Applies a kick of magnitude `dv` directed from the body's
    /// position toward `to`; a target at the body's own position (or
    /// within fixed-point resolution of it) applies nothing.
    pub fn accelerate_to(&mut self, dv: Fx, to: V3)
        ensures
            *final(self) == (GBody {
                name: old(self).name,
                pos: old(self).pos,
                vel: kick_vel(old(self).pos, old(self).vel, dv, to),
                color: old(self).color,
                radius: old(self).radius,
                mass: old(self).mass,
            }),
    {
        proof {
            reveal(kick_vel);
        }
        let d = to.sub(self.pos);
        let n2 = d.norm2();
        if n2.is_positive() {
            let n = n2.sqrt();
            proof {
                lemma_fx_sqrt_positive(n2);
            }
            let u = V3::new(d.x.div(n), d.y.div(n), d.z.div(n));
            self.accelerate(u.scale(dv));
        }
    }

    /// Advances the position by `vel * dt`: the explicit-Euler position
    /// update, run only after all velocity kicks of the step.
    pub fn process(&mut self, dt: Fx)
        ensures
            *final(self) == (GBody {
                name: old(self).name,
                pos: v3_add(old(self).pos, v3_scale(old(self).vel, dt)),
                vel: old(self).vel,
                color: old(self).color,
                radius: old(self).radius,
                mass: old(self).mass,
            }),
    {
        let dr = self.vel.scale(dt);
        self.displace(dr);
    }
}

/// The velocity-kick magnitude one body of a pair receives: the
/// gravitational acceleration `G * m / d2` toward the other body
/// (Newton's law as acceleration, without the accelerated mass),
/// integrated over the time step `dt`.
pub open spec fn kick_mag(g: Fx, m: Fx, d2: Fx, dt: Fx) -> Fx {
    fx_mul(fx_div(fx_mul(g, m), d2), dt)
}

/// One visit of the unordered pair `(i, j)`: both bodies' velocities
/// are kicked toward each other from one shared squared distance,
/// computed from the positions as they stand in `s`.  A pair whose
/// squared distance rounds to zero exchanges nothing.
#[verifier::opaque]
pub open spec fn pair_kick(s: Seq<GBody>, i: int, j: int, g: Fx, dt: Fx) -> Seq<GBody> {
    let bi = s[i];
    let bj = s[j];
    let d2 = v3_norm2(v3_sub(bj.pos, bi.pos));
    if d2@ <= 0 {
        s
    } else {
        let s1 = s.update(
            i,
            GBody {
                name: bi.name,
                pos: bi.pos,
                vel: kick_vel(bi.pos, bi.vel, kick_mag(g, bj.mass, d2, dt), bj.pos),
                color: bi.color,
                radius: bi.radius,
                mass: bi.mass,
            },
        );
        s1.update(
            j,
            GBody {
                name: bj.name,
                pos: bj.pos,
                vel: kick_vel(bj.pos, bj.vel, kick_mag(g, bi.mass, d2, dt), bi.pos),
                color: bj.color,
                radius: bj.radius,
                mass: bj.mass,
            },
        )
    }
}

/// The pairs `(i, i+1) .. (i, j-1)` applied in order.
pub open spec fn kick_row(s: Seq<GBody>, i: int, j: int, g: Fx, dt: Fx) -> Seq<GBody>
    decreases j - i,
{
    if j <= i + 1 {
        s
    } else {
        pair_kick(kick_row(s, i, j - 1, g, dt), i, j - 1, g, dt)
    }
}

/// All pair rows with first index below `i` applied in order.
pub open spec fn kick_phase_upto(s: Seq<GBody>, i: int, g: Fx, dt: Fx) -> Seq<GBody>
    decreases i,
{
    if i <= 0 {
        s
    } else {
        let prev = kick_phase_upto(s, i - 1, g, dt);
        kick_row(prev, i - 1, prev.len() as int, g, dt)
    }
}

/// The velocity phase of one step: every unordered pair visited once,
/// in row order, with positions untouched throughout.
pub open spec fn kick_phase(s: Seq<GBody>, g: Fx, dt: Fx) -> Seq<GBody> {
    kick_phase_upto(s, s.len() as int, g, dt)
}

/// One body after the position phase: `pos + vel * dt`, velocity kept.
pub open spec fn advanced(b: GBody, dt: Fx) -> GBody {
    GBody {
        name: b.name,
        pos: v3_add(b.pos, v3_scale(b.vel, dt)),
        vel: b.vel,
        color: b.color,
        radius: b.radius,
        mass: b.mass,
    }
}

/// The position phase of one step: every body advanced along its
/// (already fully updated) velocity.
pub open spec fn advance_phase(s: Seq<GBody>, dt: Fx) -> Seq<GBody> {
    Seq::new(s.len(), |k: int| advanced(s[k], dt))
}

/// One whole integrator step: the velocity phase, then the position
/// phase.  This ordering is the semi-implicit Euler scheme and is part
/// of the contract: velocities are updated from the old positions, and
/// positions from the new velocities.
pub open spec fn compute_step(s: Seq<GBody>, g: Fx, dt: Fx) -> Seq<GBody> {
    advance_phase(kick_phase(s, g, dt), dt)
}

/// One executable pair visit: the in-place counterpart of
/// [`pair_kick`].
fn visit_pair(v: &mut Vec<GBody>, g: Fx, dt: Fx, i: usize, j: usize)
    requires
        i < j < old(v)@.len(),
    ensures
        final(v)@ == pair_kick(old(v)@, i as int, j as int, g, dt),
        final(v)@.len() == old(v)@.len(),
{
    proof {
        reveal(pair_kick);
    }
    let ghost before: Seq<GBody> = v@;
    let pos_i: V3 = v[i].pos;
    let pos_j: V3 = v[j].pos;
    let mass_i: Fx = v[i].mass;
    let mass_j: Fx = v[j].mass;
    let d2: Fx = pos_j.sub(pos_i).norm2();
    if d2.is_positive() {
        let mag_i: Fx = g.mul(mass_j).div(d2).mul(dt);
        let mag_j: Fx = g.mul(mass_i).div(d2).mul(dt);
        let bi = &mut v[i];
        bi.accelerate_to(mag_i, pos_j);
        let bj = &mut v[j];
        bj.accelerate_to(mag_j, pos_i);
        proof {
            assert(v@ =~= pair_kick(before, i as int, j as int, g, dt));
        }
    } else {
        proof {
            assert(v@ =~= pair_kick(before, i as int, j as int, g, dt));
        }
    }
}

/// What one pair visit does to the two velocities, stated without
/// unfolding: body `i` is kicked toward body `j` with the magnitude
/// carrying `j`'s mass, body `j` toward body `i` with the magnitude
/// carrying `i`'s mass, and both magnitudes divide by one shared
/// squared distance.  This is Newton's third law as far as the
/// discrete arithmetic carries it: the two velocity changes are
/// opposite in direction and their magnitudes swap the masses.
pub proof fn lemma_pair_kick_velocities(s: Seq<GBody>, i: int, j: int, g: Fx, dt: Fx)
    requires
        0 <= i < s.len(),
        0 <= j < s.len(),
        i != j,
    ensures
        pair_kick(s, i, j, g, dt)[i].vel == kick_vel(
            s[i].pos,
            s[i].vel,
            kick_mag(g, s[j].mass, v3_norm2(v3_sub(s[j].pos, s[i].pos)), dt),
            s[j].pos,
        ),
        pair_kick(s, i, j, g, dt)[j].vel == kick_vel(
            s[j].pos,
            s[j].vel,
            kick_mag(g, s[i].mass, v3_norm2(v3_sub(s[i].pos, s[j].pos)), dt),
            s[i].pos,
        ),
        v3_norm2(v3_sub(s[j].pos, s[i].pos)) == v3_norm2(v3_sub(s[i].pos, s[j].pos)),
{
    reveal(pair_kick);
    lemma_norm2_sub_symmetric(s[j].pos, s[i].pos);
    let d2 = v3_norm2(v3_sub(s[j].pos, s[i].pos));
    if d2@ <= 0 {
        reveal(kick_vel);
    }
}

/// The degenerate-distance policy: a pair of bodies at the same
/// position (or closer than the fixed-point resolution) exchanges no
/// kick at all.
pub proof fn lemma_coincident_pair_no_kick(s: Seq<GBody>, i: int, j: int, g: Fx, dt: Fx)
    requires
        0 <= i < s.len(),
        0 <= j < s.len(),
        s[i].pos == s[j].pos,
    ensures
        pair_kick(s, i, j, g, dt) == s,
{
    reveal(pair_kick);
    lemma_norm2_self_sub_zero(s[j].pos);
}

/// The degenerate-target policy of a single kick: accelerating toward
/// a target at the body's own position changes nothing.
pub proof fn lemma_kick_toward_self_no_change(pos: V3, vel: V3, dv: Fx)
    ensures
        kick_vel(pos, vel, dv, pos) == vel,
{
    reveal(kick_vel);
    lemma_norm2_self_sub_zero(pos);
}

/// A pair visit touches nothing but the two velocities: every
/// position, mass, name, radius and color is kept, and every body
/// outside the pair is kept whole.
pub proof fn lemma_pair_kick_statics(s: Seq<GBody>, i: int, j: int, g: Fx, dt: Fx)
    requires
        0 <= i < s.len(),
        0 <= j < s.len(),
        i != j,
    ensures
        pair_kick(s, i, j, g, dt).len() == s.len(),
        forall|t: int|
            0 <= t < s.len() ==> (#[trigger] pair_kick(s, i, j, g, dt)[t]).pos == s[t].pos
                && pair_kick(s, i, j, g, dt)[t].mass == s[t].mass && pair_kick(
                s,
                i,
                j,
                g,
                dt,
            )[t].name == s[t].name && pair_kick(s, i, j, g, dt)[t].radius == s[t].radius
                && pair_kick(s, i, j, g, dt)[t].color == s[t].color,
        forall|t: int|
            0 <= t < s.len() && t != i && t != j ==> #[trigger] pair_kick(s, i, j, g, dt)[t]
                == s[t],
{
    reveal(pair_kick);
}

/// A row of pair visits keeps all statics as well.
pub proof fn lemma_kick_row_statics(s: Seq<GBody>, i: int, j: int, g: Fx, dt: Fx)
    requires
        0 <= i < s.len(),
        j <= s.len(),
    ensures
        kick_row(s, i, j, g, dt).len() == s.len(),
        forall|t: int|
            0 <= t < s.len() ==> (#[trigger] kick_row(s, i, j, g, dt)[t]).pos == s[t].pos
                && kick_row(s, i, j, g, dt)[t].mass == s[t].mass && kick_row(
                s,
                i,
                j,
                g,
                dt,
            )[t].name == s[t].name && kick_row(s, i, j, g, dt)[t].radius == s[t].radius
                && kick_row(s, i, j, g, dt)[t].color == s[t].color,
    decreases j - i,
{
    if j > i + 1 {
        lemma_kick_row_statics(s, i, j - 1, g, dt);
        lemma_pair_kick_statics(kick_row(s, i, j - 1, g, dt), i, j - 1, g, dt);
    }
}

/// Two-phase ordering, first half: the velocity phase never moves a
/// body, so every pair kick of a step is computed from the positions
/// as they stood when the step began.
pub proof fn lemma_kick_phase_upto_statics(s: Seq<GBody>, i: int, g: Fx, dt: Fx)
    requires
        i <= s.len(),
    ensures
        kick_phase_upto(s, i, g, dt).len() == s.len(),
        forall|t: int|
            0 <= t < s.len() ==> (#[trigger] kick_phase_upto(s, i, g, dt)[t]).pos == s[t].pos
                && kick_phase_upto(s, i, g, dt)[t].mass == s[t].mass && kick_phase_upto(
                s,
                i,
                g,
                dt,
            )[t].name == s[t].name && kick_phase_upto(s, i, g, dt)[t].radius == s[t].radius
                && kick_phase_upto(s, i, g, dt)[t].color == s[t].color,
    decreases i,
{
    if i > 0 {
        lemma_kick_phase_upto_statics(s, i - 1, g, dt);
        if i - 1 < s.len() {
            lemma_kick_row_statics(
                kick_phase_upto(s, i - 1, g, dt),
                i - 1,
                kick_phase_upto(s, i - 1, g, dt).len() as int,
                g,
                dt,
            );
        }
    }
}

/// The velocity phase of a whole step keeps every position and every
/// per-run attribute.
pub proof fn lemma_kick_phase_positions_fixed(s: Seq<GBody>, g: Fx, dt: Fx)
    ensures
        kick_phase(s, g, dt).len() == s.len(),
        forall|t: int|
            0 <= t < s.len() ==> (#[trigger] kick_phase(s, g, dt)[t]).pos == s[t].pos
                && kick_phase(s, g, dt)[t].mass == s[t].mass && kick_phase(s, g, dt)[t].name
                == s[t].name && kick_phase(s, g, dt)[t].radius == s[t].radius && kick_phase(
                s,
                g,
                dt,
            )[t].color == s[t].color,
{
    lemma_kick_phase_upto_statics(s, s.len() as int, g, dt);
}

/// Two-phase ordering, second half: the position phase keeps every
/// velocity and every per-run attribute, and advances every position
/// along the body's own, already fully updated, velocity.
pub proof fn lemma_advance_phase_velocities_fixed(s: Seq<GBody>, dt: Fx)
    ensures
        advance_phase(s, dt).len() == s.len(),
        forall|t: int|
            0 <= t < s.len() ==> #[trigger] advance_phase(s, dt)[t] == advanced(s[t], dt),
        forall|t: int| 0 <= t < s.len() ==> (#[trigger] advance_phase(s, dt)[t]).vel == s[t].vel,
{
}

/// One whole step neither adds nor removes bodies, and never changes a
/// mass, a name, a radius or a color: only positions and velocities
/// move.
pub proof fn lemma_compute_step_keeps_bodies(s: Seq<GBody>, g: Fx, dt: Fx)
    ensures
        compute_step(s, g, dt).len() == s.len(),
        forall|t: int|
            0 <= t < s.len() ==> (#[trigger] compute_step(s, g, dt)[t]).mass == s[t].mass
                && compute_step(s, g, dt)[t].name == s[t].name && compute_step(
                s,
                g,
                dt,
            )[t].radius == s[t].radius && compute_step(s, g, dt)[t].color == s[t].color,
{
    lemma_kick_phase_positions_fixed(s, g, dt);
    lemma_advance_phase_velocities_fixed(kick_phase(s, g, dt), dt);
}

/// With no pair to evaluate (zero or one body), the velocity phase
/// changes nothing.
pub proof fn lemma_no_pairs_no_kick(s: Seq<GBody>, g: Fx, dt: Fx)
    requires
        s.len() <= 1,
    ensures
        kick_phase(s, g, dt) == s,
{
    assert(kick_phase_upto(s, 0, g, dt) == s);
    if s.len() == 1 {
        assert(kick_phase_upto(s, 1, g, dt) == kick_row(s, 0, 1, g, dt));
        assert(kick_row(s, 0, 1, g, dt) == s);
    }
}

/// A body whose velocity is zero does not move in the position phase.
pub proof fn lemma_advanced_at_rest(b: GBody, dt: Fx)
    requires
        b.vel == v3_zero(),
    ensures
        advanced(b, dt) == b,
{
    lemma_v3_scale_zero(dt);
    lemma_v3_add_zero(b.pos);
}

/// A step over zero or one body, at rest, changes nothing at all: with
/// no pair there is no kick, and with no velocity there is no motion.
pub proof fn lemma_lone_body_at_rest_fixed(s: Seq<GBody>, g: Fx, dt: Fx)
    requires
        s.len() <= 1,
        forall|t: int| 0 <= t < s.len() ==> (#[trigger] s[t]).vel == v3_zero(),
    ensures
        compute_step(s, g, dt) == s,
{
    lemma_no_pairs_no_kick(s, g, dt);
    if s.len() == 1 {
        lemma_advanced_at_rest(s[0], dt);
    }
    assert(compute_step(s, g, dt) =~= s);
}

/// The collection of bodies under mutual gravity, with the
/// gravitational constant it was configured with.
pub struct PhysicsMesh {
    pub const_g: Fx,
    pub components: Vec<GBody>,
}

impl Default for PhysicsMesh {
    /// An empty mesh with the default gravitational constant.
    fn default() -> (r: Self)
        ensures
            r.const_g@ == GRAVITATIONAL_CONSTANT as int,
            r.components@ == Seq::<GBody>::empty(),
    {
        PhysicsMesh { const_g: gravitational_constant(), components: Vec::new() }
    }
}

impl PhysicsMesh {
    /// Appends a body; insertion order is kept for the whole run.
    pub fn add(&mut self, component: GBody)
        ensures
            final(self).const_g == old(self).const_g,
            final(self).components@ == old(self).components@.push(component),
    {
        self.components.push(component);
    }

    /// One integrator step over the elapsed (pre-scaled) time `dt`:
    /// exactly [`compute_step`] applied to the owned bodies.
    pub fn compute(&mut self, dt: Fx)
        ensures
            final(self).const_g == old(self).const_g,
            final(self).components@ == compute_step(old(self).components@, old(self).const_g, dt),
            final(self).components@.len() == old(self).components@.len(),
    {
        let ghost orig: Seq<GBody> = self.components@;
        let g: Fx = self.const_g;
        let n: usize = self.components.len();

        let mut i: usize = 0;
        while i < n
            invariant
                i <= n,
                n == orig.len(),
                self.const_g == g,
                self.components@ == kick_phase_upto(orig, i as int, g, dt),
                self.components@.len() == n,
            decreases n - i,
        {
            let mut j: usize = i + 1;
            while j < n
                invariant
                    i < n,
                    i + 1 <= j <= n,
                    n == orig.len(),
                    self.const_g == g,
                    self.components@ == kick_row(
                        kick_phase_upto(orig, i as int, g, dt),
                        i as int,
                        j as int,
                        g,
                        dt,
                    ),
                    self.components@.len() == n,
                decreases n - j,
            {
                visit_pair(&mut self.components, g, dt, i, j);
                j = j + 1;
            }
            i = i + 1;
        }

        let ghost kicked: Seq<GBody> = self.components@;
        let mut k: usize = 0;
        while k < n
            invariant
                k <= n,
                self.const_g == g,
                kicked.len() == n,
                self.components@.len() == n,
                forall|t: int| 0 <= t < k ==> self.components@[t] == advanced(kicked[t], dt),
                forall|t: int| k <= t < n ==> self.components@[t] == kicked[t],
            decreases n - k,
        {
            let b = &mut self.components[k];
            b.process(dt);
            k = k + 1;
        }
        proof {
            assert(self.components@ =~= advance_phase(kicked, dt));
        }
    }

    /// The current position of every body, in insertion order: the
    /// data the per-frame render accessor derives each body's visual
    /// transform from.
    pub fn positions(&self) -> (r: Vec<V3>)
        ensures
            r@.len() == self.components@.len(),
            forall|t: int| 0 <= t < r@.len() ==> r@[t] == self.components@[t].pos,
    {
        let n: usize = self.components.len();
        let mut r: Vec<V3> = Vec::new();
        let mut k: usize = 0;
        while k < n
            invariant
                k <= n,
                n == self.components@.len(),
                r@.len() == k,
                forall|t: int| 0 <= t < k ==> r@[t] == self.components@[t].pos,
            decreases n - k,
        {
            r.push(self.components[k].pos);
            k = k + 1;
        }
        r
    }
}

} // verus!
