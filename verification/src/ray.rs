use vstd::prelude::*;

use crate::scalar::{Scalar, scalar_le, scalar_le_spec};

verus! {

/// Upper bound on the length of a ray's motion trail.
pub const TRAIL_CAP: usize = 200;

/// The polar state of a ray: radius, angle, their rates of change, and the
/// conserved energy, each an IEEE-754 binary64 bit pattern. The caller
/// derives these from the Cartesian initial conditions
/// (`r = sqrt(x^2 + y^2)`, `phi = atan2(y, x)`, the velocity projected onto
/// the radial and angular directions, and `energy = f * tau` with
/// `f = 1 - rs / r`); the library carries them unchanged.
#[derive(Clone, Copy, PartialEq, Eq, Structural)]
pub struct PolarState {
    pub r: Scalar,
    pub phi: Scalar,
    pub dr: Scalar,
    pub dphi: Scalar,
    pub energy: Scalar,
}

/// The state a live ray moves to in one integration step: the four polar
/// components advanced by the caller's Runge-Kutta arithmetic, and the
/// Cartesian position resynchronized as `x = r * cos(phi)`,
/// `y = r * sin(phi)`.
#[derive(Clone, Copy, PartialEq, Eq, Structural)]
pub struct StepUpdate {
    pub r: Scalar,
    pub phi: Scalar,
    pub dr: Scalar,
    pub dphi: Scalar,
    pub x: Scalar,
    pub y: Scalar,
}

/// Rejected configuration: a ray seeded at or below the Schwarzschild
/// radius, where the metric factor `1 - rs / r` is not positive and the
/// geodesic equations are undefined.
#[derive(Clone, Copy, PartialEq, Eq, Structural, Debug)]
pub enum DomainError {
    HorizonViolation,
}

/// One simulated light ray.
///
/// All numeric fields are IEEE-754 binary64 bit patterns. `trail` holds the
/// past Cartesian positions, oldest first, never more than [`TRAIL_CAP`] of
/// them. `alive` starts true and flips to false, permanently, the first time
/// a step finds `r` at or below the absorption threshold.
pub struct Ray {
    pub alive: bool,
    pub x: Scalar,
    pub y: Scalar,
    pub trail: Vec<(Scalar, Scalar)>,
    pub r: Scalar,
    pub phi: Scalar,
    pub dr: Scalar,
    pub dphi: Scalar,
    pub energy: Scalar,
}

/// The mathematical image of a [`Ray`]: the same fields with the trail as a
/// sequence.
pub struct RayView {
    pub alive: bool,
    pub x: Scalar,
    pub y: Scalar,
    pub trail: Seq<(Scalar, Scalar)>,
    pub r: Scalar,
    pub phi: Scalar,
    pub dr: Scalar,
    pub dphi: Scalar,
    pub energy: Scalar,
}

impl View for Ray {
    type V = RayView;

    open spec fn view(&self) -> RayView {
        RayView {
            alive: self.alive,
            x: self.x,
            y: self.y,
            trail: self.trail@,
            r: self.r,
            phi: self.phi,
            dr: self.dr,
            dphi: self.dphi,
            energy: self.energy,
        }
    }
}

/// A ray is well formed when its trail respects the cap.
pub open spec fn wf(v: RayView) -> bool {
    v.trail.len() <= TRAIL_CAP
}

/// What one call of [`Ray::step`] does to a ray.
///
/// A dead ray is left exactly as it is. A live ray whose radius is at or
/// below the absorption threshold is absorbed: `alive` flips to false and
/// nothing else moves. Otherwise the ray takes the caller's update, keeps
/// its energy, and appends its new position to the trail, dropping the
/// oldest entry when the cap would be exceeded.
pub open spec fn step_spec(v: RayView, horizon_threshold: Scalar, upd: StepUpdate) -> RayView {
    if !v.alive {
        v
    } else if scalar_le_spec(v.r, horizon_threshold) {
        RayView { alive: false, ..v }
    } else {
        let pushed = v.trail.push((upd.x, upd.y));
        RayView {
            alive: true,
            x: upd.x,
            y: upd.y,
            trail: if pushed.len() > TRAIL_CAP { pushed.drop_first() } else { pushed },
            r: upd.r,
            phi: upd.phi,
            dr: upd.dr,
            dphi: upd.dphi,
            energy: v.energy,
        }
    }
}

impl Ray {
    /// Make a live ray at Cartesian position `(x, y)` with the given polar
    /// state, provided its radius lies strictly above the Schwarzschild
    /// radius `rs`; a radius at or below `rs` (under the IEEE-754 order of
    /// the encodings) is rejected, since the metric factor would vanish or
    /// go negative there.
    pub fn new(x: Scalar, y: Scalar, polar: PolarState, rs: Scalar) -> (res: Result<Ray, DomainError>)
        ensures
            !scalar_le_spec(polar.r, rs) ==> (res matches Ok(ray) && ray@ == (RayView {
                alive: true,
                x: x,
                y: y,
                trail: Seq::<(Scalar, Scalar)>::empty(),
                r: polar.r,
                phi: polar.phi,
                dr: polar.dr,
                dphi: polar.dphi,
                energy: polar.energy,
            })),
            scalar_le_spec(polar.r, rs) ==> (res matches Err(e) && e == DomainError::HorizonViolation),
    {
        if scalar_le(polar.r, rs) {
            Err(DomainError::HorizonViolation)
        } else {
            Ok(Ray {
                alive: true,
                x: x,
                y: y,
                trail: Vec::new(),
                r: polar.r,
                phi: polar.phi,
                dr: polar.dr,
                dphi: polar.dphi,
                energy: polar.energy,
            })
        }
    }

    /// Advance the ray by one step: absorb it if its radius has reached the
    /// threshold, otherwise adopt the caller's integrated state and record
    /// the new position in the trail.
    pub fn step(&mut self, horizon_threshold: Scalar, upd: StepUpdate)
        ensures
            final(self)@ == step_spec(old(self)@, horizon_threshold, upd),
            wf(old(self)@) ==> wf(final(self)@),
    {
        if !self.alive {
            return;
        }
        if scalar_le(self.r, horizon_threshold) {
            self.alive = false;
            return;
        }
        self.r = upd.r;
        self.phi = upd.phi;
        self.dr = upd.dr;
        self.dphi = upd.dphi;
        self.x = upd.x;
        self.y = upd.y;
        self.trail.push((upd.x, upd.y));
        if self.trail.len() > TRAIL_CAP {
            self.trail.remove(0);
            proof {
                assert(self@.trail =~= step_spec(old(self)@, horizon_threshold, upd).trail);
            }
        }
    }
}

/// The ray a given ray becomes after a whole sequence of steps, each with
/// its own threshold and update.
pub open spec fn run_steps(v: RayView, steps: Seq<(Scalar, StepUpdate)>) -> RayView
    decreases steps.len(),
{
    if steps.len() == 0 {
        v
    } else {
        step_spec(run_steps(v, steps.drop_last()), steps.last().0, steps.last().1)
    }
}

/// Energy conservation: no sequence of steps ever changes a ray's energy;
/// it is fixed at construction for the ray's whole lifetime.
pub proof fn lemma_energy_conserved(v: RayView, steps: Seq<(Scalar, StepUpdate)>)
    ensures
        run_steps(v, steps).energy == v.energy,
    decreases steps.len(),
{
    if steps.len() > 0 {
        lemma_energy_conserved(v, steps.drop_last());
    }
}

/// Monotone lifecycle: a dead ray is left untouched — every field, not just
/// `alive` — by any further steps, and a ray alive after a sequence of steps
/// was alive before it.
pub proof fn lemma_alive_monotone(v: RayView, steps: Seq<(Scalar, StepUpdate)>)
    ensures
        !v.alive ==> run_steps(v, steps) == v,
        run_steps(v, steps).alive ==> v.alive,
    decreases steps.len(),
{
    if steps.len() > 0 {
        lemma_alive_monotone(v, steps.drop_last());
    }
}

/// Horizon guard: a single step of a live ray whose radius is at or below
/// the threshold absorbs the ray — `alive` becomes false and no other field
/// moves, the trail included.
pub proof fn lemma_horizon_guard(v: RayView, horizon_threshold: Scalar, upd: StepUpdate)
    requires
        v.alive,
        scalar_le_spec(v.r, horizon_threshold),
    ensures
        step_spec(v, horizon_threshold, upd) == (RayView { alive: false, ..v }),
{
}

/// How the trail grows: while a ray stays alive its trail gains exactly one
/// entry per step until the cap, after which it stays at the cap; and the
/// newest entry is always the ray's current position.
pub proof fn lemma_trail_growth(v: RayView, steps: Seq<(Scalar, StepUpdate)>)
    requires
        wf(v),
        run_steps(v, steps).alive,
    ensures
        wf(run_steps(v, steps)),
        run_steps(v, steps).trail.len()
            == vstd::math::min((v.trail.len() + steps.len()) as int, TRAIL_CAP as int),
        steps.len() > 0 ==> run_steps(v, steps).trail.last()
            == (run_steps(v, steps).x, run_steps(v, steps).y),
    decreases steps.len(),
{
    if steps.len() > 0 {
        let prev = run_steps(v, steps.drop_last());
        let outcome = run_steps(v, steps);
        assert(outcome == step_spec(prev, steps.last().0, steps.last().1));
        assert(prev.alive);
        lemma_trail_growth(v, steps.drop_last());
    }
}

/// Trail bound: a ray still alive after at least [`TRAIL_CAP`] steps has a
/// trail of exactly [`TRAIL_CAP`] entries, the newest of which is its
/// current position.
pub proof fn lemma_trail_bound(v: RayView, steps: Seq<(Scalar, StepUpdate)>)
    requires
        wf(v),
        run_steps(v, steps).alive,
        steps.len() >= TRAIL_CAP,
    ensures
        run_steps(v, steps).trail.len() == TRAIL_CAP,
        run_steps(v, steps).trail.last() == (run_steps(v, steps).x, run_steps(v, steps).y),
{
    lemma_trail_growth(v, steps);
}

} // verus!
