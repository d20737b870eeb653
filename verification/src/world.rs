//! The physics world: the ordered body sequence, the gravity vector,
//! and the fixed-step update that drives one simulation tick.

use vstd::prelude::*;
use crate::bodies::{body_valid, integrated, forced, Body, BodyType};
use crate::collisions::{detect_collisions, detect_of};
use crate::solver::{resolve_collisions, resolve_of, untouched_by_solver};
use crate::vec2::{scale_of, Vec2};

verus! {

/// Bound on the relaxation passes of one tick: a tuned constant trading
/// accuracy for cost, not a guarantee of convergence.
pub const SOLVER_ITERATIONS: usize = 10;

/// One body through the first three phases of a tick: its force
/// accumulator is cleared, gravity scaled by its mass is applied (a
/// static body ignores it), and one Euler step is taken.
pub open spec fn advanced_body(b: Body, g: Vec2, dt: int) -> Body {
    let cleared = Body { force: Vec2 { x: 0i64, y: 0i64 }, ..b };
    let pushed = forced(cleared, scale_of(g, b.mass as int));
    integrated(pushed, dt)
}

/// The body sequence through the first three phases of a tick,
/// pointwise.
pub open spec fn advanced_of(bs: Seq<Body>, g: Vec2, dt: int) -> Seq<Body> {
    Seq::new(bs.len(), |m: int| advanced_body(bs[m], g, dt))
}

/// Up to `k` solver passes: detect against the current positions, stop
/// if nothing touches, otherwise resolve and repeat.
pub open spec fn solved_from(bs: Seq<Body>, k: nat) -> Seq<Body>
    decreases k,
{
    if k == 0 {
        bs
    } else {
        let cs = detect_of(bs);
        if cs.len() == 0 {
            bs
        } else {
            solved_from(resolve_of(bs, cs), (k - 1) as nat)
        }
    }
}

/// The exact effect of one tick: forces cleared, gravity applied,
/// every body integrated, then the bounded relaxation.
pub open spec fn tick_of(bs: Seq<Body>, g: Vec2, dt: int) -> Seq<Body> {
    solved_from(advanced_of(bs, g, dt), SOLVER_ITERATIONS as nat)
}

/// The physics world containing all bodies and the gravity vector.
/// Gravity is a field, never shared state, so several worlds can run
/// independently.
pub struct World {
    /// All bodies, in insertion order; a body's index is its identity
    /// for the lifetime of a tick.
    pub bodies: Vec<Body>,
    /// Gravity vector, applied to every dynamic body each tick.
    pub gravity: Vec2,
}

impl World {
    /// An empty world with the default downward gravity.
    pub fn new() -> (r: World)
        ensures
            r.bodies@ == Seq::<Body>::empty(),
            r.gravity == (Vec2 { x: 0i64, y: -9_810_000i64 }),
    {
        World { bodies: Vec::new(), gravity: Vec2 { x: 0, y: -9_810_000 } }
    }

    /// Append a body; it takes part in the simulation from the next
    /// update on.
    pub fn add_body(&mut self, body: Body)
        ensures
            final(self).bodies@ == old(self).bodies@.push(body),
            final(self).gravity == old(self).gravity,
    {
        self.bodies.push(body);
    }

    /// Advance the simulation by one fixed time step: clear every force
    /// accumulator, apply gravity to every dynamic body, integrate
    /// every body, then run up to [`SOLVER_ITERATIONS`] detection and
    /// resolution passes, stopping early once a pass finds no contact.
    /// Static bodies keep their position, velocity and acceleration,
    /// whatever happens around them.
    pub fn update(&mut self, dt: i64)
        requires
            dt > 0,
            forall|m: int|
                0 <= m < old(self).bodies@.len() ==> body_valid(#[trigger] old(self).bodies@[m]),
        ensures
            final(self).bodies@ == tick_of(old(self).bodies@, old(self).gravity, dt as int),
            final(self).gravity == old(self).gravity,
            final(self).bodies@.len() == old(self).bodies@.len(),
            forall|m: int|
                0 <= m < final(self).bodies@.len() ==> body_valid(
                    #[trigger] final(self).bodies@[m],
                ),
            forall|m: int|
                0 <= m < old(self).bodies@.len() && old(self).bodies@[m].body_type
                    == BodyType::Static ==> {
                    let b1 = #[trigger] final(self).bodies@[m];
                    let b0 = old(self).bodies@[m];
                    b1.position == b0.position && b1.velocity == b0.velocity && b1.acceleration
                        == b0.acceleration && b1.mass == b0.mass && b1.shape == b0.shape
                        && b1.material == b0.material && b1.body_type == b0.body_type
                },
    {
        let ghost start: Seq<Body> = self.bodies@;
        let ghost g: Vec2 = self.gravity;
        let n: usize = self.bodies.len();

        // Phase one: clear every force accumulator. Forces never
        // persist across ticks.
        let mut i: usize = 0;
        while i < n
            invariant
                n == self.bodies@.len(),
                i <= n,
                start.len() == n,
                self.gravity == g,
                forall|m: int|
                    0 <= m < i ==> #[trigger] self.bodies@[m] == (Body {
                        force: Vec2 { x: 0i64, y: 0i64 },
                        ..start[m]
                    }),
                forall|m: int| i <= m < n ==> #[trigger] self.bodies@[m] == start[m],
            decreases n - i,
        {
            let mut body: Body = self.bodies[i];
            body.force = Vec2::zero();
            self.bodies[i] = body;
            i += 1;
        }

        // Phase two: apply gravity, scaled by mass, to dynamic bodies.
        let mut i: usize = 0;
        while i < n
            invariant
                n == self.bodies@.len(),
                i <= n,
                start.len() == n,
                self.gravity == g,
                forall|m: int|
                    0 <= m < i ==> #[trigger] self.bodies@[m] == forced(
                        Body { force: Vec2 { x: 0i64, y: 0i64 }, ..start[m] },
                        scale_of(g, start[m].mass as int),
                    ),
                forall|m: int|
                    i <= m < n ==> #[trigger] self.bodies@[m] == (Body {
                        force: Vec2 { x: 0i64, y: 0i64 },
                        ..start[m]
                    }),
            decreases n - i,
        {
            let mut body: Body = self.bodies[i];
            if matches!(body.body_type, BodyType::Dynamic) {
                let gravity_force = self.gravity.scale(body.mass);
                body.apply_force(gravity_force);
            }
            self.bodies[i] = body;
            i += 1;
        }

        // Phase three: integrate every body.
        let mut i: usize = 0;
        while i < n
            invariant
                n == self.bodies@.len(),
                i <= n,
                start.len() == n,
                self.gravity == g,
                dt > 0,
                forall|m: int|
                    0 <= m < start.len() ==> body_valid(#[trigger] start[m]),
                forall|m: int|
                    0 <= m < i ==> #[trigger] self.bodies@[m] == advanced_body(
                        start[m],
                        g,
                        dt as int,
                    ),
                forall|m: int|
                    i <= m < n ==> #[trigger] self.bodies@[m] == forced(
                        Body { force: Vec2 { x: 0i64, y: 0i64 }, ..start[m] },
                        scale_of(g, start[m].mass as int),
                    ),
            decreases n - i,
        {
            let mut body: Body = self.bodies[i];
            body.update(dt);
            self.bodies[i] = body;
            i += 1;
        }
        proof {
            assert(self.bodies@ =~= advanced_of(start, g, dt as int));
        }

        // Phase four: bounded relaxation. Detection always runs against
        // the current positions; records are never carried over.
        let ghost advanced: Seq<Body> = self.bodies@;
        let mut iter: usize = 0;
        let mut settled: bool = false;
        while iter < SOLVER_ITERATIONS && !settled
            invariant
                iter <= SOLVER_ITERATIONS,
                self.gravity == g,
                self.bodies@.len() == advanced.len(),
                !settled ==> solved_from(self.bodies@, (SOLVER_ITERATIONS - iter) as nat)
                    == solved_from(advanced, SOLVER_ITERATIONS as nat),
                settled ==> self.bodies@ == solved_from(advanced, SOLVER_ITERATIONS as nat),
                forall|m: int|
                    0 <= m < advanced.len() ==> untouched_by_solver(
                        advanced[m],
                        #[trigger] self.bodies@[m],
                    ),
                forall|m: int|
                    0 <= m < self.bodies@.len() ==> body_valid(#[trigger] self.bodies@[m]),
            decreases SOLVER_ITERATIONS - iter, (if settled { 0int } else { 1int }),
        {
            let collisions = detect_collisions(&self.bodies);
            if collisions.is_empty() {
                proof {
                    assert(solved_from(self.bodies@, (SOLVER_ITERATIONS - iter) as nat)
                        == self.bodies@);
                }
                settled = true;
            } else {
                let ghost before: Seq<Body> = self.bodies@;
                resolve_collisions(self, &collisions);
                proof {
                    assert(collisions@ == detect_of(before));
                    assert(solved_from(before, (SOLVER_ITERATIONS - iter) as nat) == solved_from(
                        self.bodies@,
                        (SOLVER_ITERATIONS - iter - 1) as nat,
                    ));
                }
                iter += 1;
            }
        }
        proof {
            assert(self.bodies@ == solved_from(advanced, SOLVER_ITERATIONS as nat));
        }
    }
}

} // verus!
