//! Impulse-based collision resolution.
//!
//! Each collision record changes the velocities of its two bodies — and
//! nothing else: positions are never corrected. A normal impulse undoes
//! the approach velocity scaled by the averaged restitution, then a
//! friction impulse cancels as much tangential relative motion as the
//! Coulomb bound (averaged friction times the normal impulse) allows.
//! The spec function [`apply_record`] gives the exact fixed-point value
//! of every step, and the exec code is proved equal to it.

use vstd::prelude::*;
use vstd::math::abs;
use crate::bodies::{body_valid, Body, BodyType};
use crate::collisions::{record_valid, records_valid, Collision};
use crate::fx::{clampv, dz, fx_abs, fx_add, fx_avg, fx_clamp, fx_div, fx_mul, fx_neg, fxd,
    fxm, lemma_dz_bounds, sat, SCALE};
use crate::vec2::{add_of, dot_of, norm_of, scale_of, sub_of, Vec2};
use crate::world::World;

verus! {

/// Inverse mass: zero for a static body (an infinite mass that no
/// impulse moves), the fixed-point reciprocal otherwise. The guard on a
/// degenerate mass keeps the function total; a valid body never hits it.
pub open spec fn inv_mass_of(b: Body) -> int {
    if b.body_type == BodyType::Static {
        0
    } else if b.mass < 1 {
        0
    } else {
        fxd(SCALE as int, b.mass as int)
    }
}

/// The scalar size of a record's normal impulse: the approach speed
/// along the normal, amplified by one plus the averaged restitution,
/// shared out by the total inverse mass. `a` and `b` are the bodies at
/// the record's lower and higher index.
pub open spec fn normal_impulse_scalar(a: Body, b: Body, c: Collision) -> int {
    let rel = sub_of(b.velocity, a.velocity);
    let vn = dot_of(rel, c.normal);
    let e = dz(a.material.restitution + b.material.restitution, 2);
    let total_inv = sat(inv_mass_of(a) + inv_mass_of(b));
    fxd(sat(-fxm(sat(SCALE + e), vn)), total_inv)
}

/// One body after an impulse along a direction: the velocity moves by
/// the impulse scaled by the body's inverse mass, with the given sign;
/// a static body does not move.
pub open spec fn impelled(body: Body, impulse: Vec2, inv_mass: int, toward: bool) -> Body {
    if body.body_type == BodyType::Dynamic {
        if toward {
            Body { velocity: add_of(body.velocity, scale_of(impulse, inv_mass)), ..body }
        } else {
            Body { velocity: sub_of(body.velocity, scale_of(impulse, inv_mass)), ..body }
        }
    } else {
        body
    }
}

/// The two bodies of a record after the normal impulse alone, before
/// friction: the same impulse vector leaves one and enters the other,
/// each scaled by the receiving body's inverse mass.
pub open spec fn after_normal_impulse(a: Body, b: Body, c: Collision) -> (Body, Body) {
    let js = normal_impulse_scalar(a, b, c);
    let impulse = scale_of(c.normal, js);
    (impelled(a, impulse, inv_mass_of(a), false), impelled(b, impulse, inv_mass_of(b), true))
}

/// The two bodies of a record after the friction impulse that follows
/// the normal impulse.
pub open spec fn after_friction_impulse(a: Body, b: Body, c: Collision) -> (Body, Body) {
    let js = normal_impulse_scalar(a, b, c);
    let total_inv = sat(inv_mass_of(a) + inv_mass_of(b));
    let a1 = after_normal_impulse(a, b, c).0;
    let b1 = after_normal_impulse(a, b, c).1;
    let rel2 = sub_of(b1.velocity, a1.velocity);
    let vn2 = dot_of(rel2, c.normal);
    let vt = sub_of(rel2, scale_of(c.normal, vn2));
    let ts = norm_of(vt);
    if ts > 0 {
        let tdir = Vec2 { x: fxd(vt.x as int, ts) as i64, y: fxd(vt.y as int, ts) as i64 };
        let jt = fxd(sat(-ts), total_inv);
        let mu = dz(a.material.friction + b.material.friction, 2);
        let maxf = fxm(mu, sat(abs(js) as int));
        let fs = clampv(jt, -maxf, maxf);
        let fimp = scale_of(tdir, fs);
        (impelled(a1, fimp, inv_mass_of(a), false), impelled(b1, fimp, inv_mass_of(b), true))
    } else {
        (a1, b1)
    }
}

/// The exact effect of resolving one collision record on the body
/// sequence. A record that is out of bounds, a pair of static bodies, a
/// separating contact and a pair with no finite total inverse mass all
/// leave the sequence unchanged.
pub open spec fn apply_record(bs: Seq<Body>, c: Collision) -> Seq<Body> {
    if !record_valid(c, bs.len() as int) {
        bs
    } else {
        let a = bs[c.body_a as int];
        let b = bs[c.body_b as int];
        if a.body_type == BodyType::Static && b.body_type == BodyType::Static {
            bs
        } else {
            let rel = sub_of(b.velocity, a.velocity);
            let vn = dot_of(rel, c.normal);
            if vn > 0 {
                bs
            } else {
                let inv_a = inv_mass_of(a);
                let inv_b = inv_mass_of(b);
                let total_inv = sat(inv_a + inv_b);
                if total_inv == 0 {
                    bs
                } else {
                    let resolved = after_friction_impulse(a, b, c);
                    bs.update(c.body_a as int, resolved.0).update(c.body_b as int, resolved.1)
                }
            }
        }
    }
}

/// The records applied in order, starting at index `k`.
pub open spec fn resolve_from(bs: Seq<Body>, cs: Seq<Collision>, k: int) -> Seq<Body>
    decreases cs.len() - k,
{
    if k < 0 || k >= cs.len() {
        bs
    } else {
        resolve_from(apply_record(bs, cs[k]), cs, k + 1)
    }
}

/// The exact effect of one resolution pass: every record applied in
/// order, each against the velocities the previous ones left behind.
pub open spec fn resolve_of(bs: Seq<Body>, cs: Seq<Collision>) -> Seq<Body> {
    resolve_from(bs, cs, 0)
}

/// Everything resolution leaves alone, body by body: the count, every
/// field but the velocity, and static bodies wholesale.
pub open spec fn untouched_by_solver(b0: Body, b1: Body) -> bool {
    &&& b1.position == b0.position
    &&& b1.acceleration == b0.acceleration
    &&& b1.force == b0.force
    &&& b1.mass == b0.mass
    &&& b1.shape == b0.shape
    &&& b1.material == b0.material
    &&& b1.body_type == b0.body_type
    &&& (b0.body_type == BodyType::Static ==> b1 == b0)
}

/// One record only moves velocities of dynamic bodies; everything else,
/// and every static body, stays as it was.
pub proof fn lemma_apply_record_frame(bs: Seq<Body>, c: Collision)
    ensures
        apply_record(bs, c).len() == bs.len(),
        forall|m: int|
            0 <= m < bs.len() ==> untouched_by_solver(bs[m], #[trigger] apply_record(bs, c)[m]),
{
}

/// A whole pass only moves velocities of dynamic bodies.
pub proof fn lemma_resolve_from_frame(bs: Seq<Body>, cs: Seq<Collision>, k: int)
    ensures
        resolve_from(bs, cs, k).len() == bs.len(),
        forall|m: int|
            0 <= m < bs.len() ==> untouched_by_solver(
                bs[m],
                #[trigger] resolve_from(bs, cs, k)[m],
            ),
    decreases cs.len() - k,
{
    if k < 0 || k >= cs.len() {
    } else {
        lemma_apply_record_frame(bs, c_at(cs, k));
        lemma_resolve_from_frame(apply_record(bs, cs[k]), cs, k + 1);
    }
}

/// Helper to name a record in proofs.
pub open spec fn c_at(cs: Seq<Collision>, k: int) -> Collision {
    cs[k]
}

/// Resolve the given collision records by applying impulses to the
/// bodies' velocities, in record order. Positions are never touched,
/// and static bodies never move.
pub fn resolve_collisions(world: &mut World, collisions: &Vec<Collision>)
    requires
        records_valid(collisions@, old(world).bodies@.len() as int),
        forall|m: int|
            0 <= m < old(world).bodies@.len() ==> body_valid(#[trigger] old(world).bodies@[m]),
    ensures
        final(world).bodies@ == resolve_of(old(world).bodies@, collisions@),
        final(world).gravity == old(world).gravity,
        final(world).bodies@.len() == old(world).bodies@.len(),
        forall|m: int|
            0 <= m < old(world).bodies@.len() ==> untouched_by_solver(
                old(world).bodies@[m],
                #[trigger] final(world).bodies@[m],
            ),
        forall|m: int|
            0 <= m < final(world).bodies@.len() ==> body_valid(#[trigger] final(world).bodies@[m]),
{
    let ghost start: Seq<Body> = world.bodies@;
    let n: usize = collisions.len();
    let mut k: usize = 0;
    while k < n
        invariant
            n == collisions@.len(),
            k <= n,
            world.bodies@.len() == start.len(),
            world.gravity == old(world).gravity,
            start == old(world).bodies@,
            records_valid(collisions@, start.len() as int),
            resolve_from(world.bodies@, collisions@, k as int) == resolve_of(start, collisions@),
            forall|m: int|
                0 <= m < start.len() ==> untouched_by_solver(
                    start[m],
                    #[trigger] world.bodies@[m],
                ),
            forall|m: int|
                0 <= m < world.bodies@.len() ==> body_valid(#[trigger] world.bodies@[m]),
        decreases n - k,
    {
        let c: Collision = collisions[k];
        let ghost before: Seq<Body> = world.bodies@;
        resolve_contact(&mut world.bodies, c);
        proof {
            lemma_apply_record_frame(before, c);
        }
        k += 1;
    }
}

/// Resolve one collision record against the body sequence: exactly
/// [`apply_record`].
pub fn resolve_contact(bodies: &mut Vec<Body>, c: Collision)
    requires
        record_valid(c, old(bodies)@.len() as int),
        forall|m: int| 0 <= m < old(bodies)@.len() ==> body_valid(#[trigger] old(bodies)@[m]),
    ensures
        final(bodies)@ == apply_record(old(bodies)@, c),
{
    let body_a: Body = bodies[c.body_a];
    let body_b: Body = bodies[c.body_b];

    // A pair of two static bodies cannot be resolved (the detector
    // already skips it; this is defensive).
    if matches!(body_a.body_type, BodyType::Static) && matches!(
        body_b.body_type,
        BodyType::Static,
    ) {
        return ;
    }

    // Relative velocity along the contact normal; bodies moving apart
    // are left alone, so no impulse ever pulls bodies together.
    let relative_velocity = body_b.velocity.sub(body_a.velocity);
    let velocity_along_normal = relative_velocity.dot(c.normal);
    if velocity_along_normal > 0 {
        return ;
    }

    // Averaged restitution and the inverse masses.
    let restitution = fx_avg(body_a.material.restitution, body_b.material.restitution);
    let inv_mass_a = if matches!(body_a.body_type, BodyType::Static) {
        0
    } else {
        fx_div(SCALE, body_a.mass)
    };
    let inv_mass_b = if matches!(body_b.body_type, BodyType::Static) {
        0
    } else {
        fx_div(SCALE, body_b.mass)
    };
    proof {
        lemma_dz_bounds(SCALE as int * SCALE as int, body_a.mass as int);
        lemma_dz_bounds(SCALE as int * SCALE as int, body_b.mass as int);
        assert(inv_mass_a as int == inv_mass_of(old(bodies)@[c.body_a as int]));
        assert(inv_mass_b as int == inv_mass_of(old(bodies)@[c.body_b as int]));
        assert(inv_mass_a >= 0 && inv_mass_b >= 0);
    }
    let total_inv_mass = fx_add(inv_mass_a, inv_mass_b);
    if total_inv_mass == 0 {
        return ;
    }
    proof {
        assert(total_inv_mass > 0);
    }

    // Normal impulse: undo the approach velocity, amplified by the
    // restitution, shared by inverse mass.
    let j = fx_neg(fx_mul(fx_add(SCALE, restitution), velocity_along_normal));
    let impulse_scalar = fx_div(j, total_inv_mass);
    let impulse = c.normal.scale(impulse_scalar);
    let mut new_a: Body = body_a;
    let mut new_b: Body = body_b;
    if matches!(body_a.body_type, BodyType::Dynamic) {
        new_a.velocity = new_a.velocity.sub(impulse.scale(inv_mass_a));
    }
    if matches!(body_b.body_type, BodyType::Dynamic) {
        new_b.velocity = new_b.velocity.add(impulse.scale(inv_mass_b));
    }

    // Friction: recompute the relative velocity after the normal
    // impulse, take its tangential part, and cancel it as far as the
    // Coulomb bound allows.
    let relative_velocity_friction = new_b.velocity.sub(new_a.velocity);
    let velocity_normal_scalar = relative_velocity_friction.dot(c.normal);
    let velocity_normal_comp = c.normal.scale(velocity_normal_scalar);
    let velocity_tangent_comp = relative_velocity_friction.sub(velocity_normal_comp);
    let tangential_speed = velocity_tangent_comp.norm();
    if tangential_speed > 0 {
        let tangent_direction = Vec2 {
            x: fx_div(velocity_tangent_comp.x, tangential_speed),
            y: fx_div(velocity_tangent_comp.y, tangential_speed),
        };
        let jt = fx_div(fx_neg(tangential_speed), total_inv_mass);
        let mu = fx_avg(body_a.material.friction, body_b.material.friction);
        let max_friction_impulse = fx_mul(mu, fx_abs(impulse_scalar));
        proof {
            lemma_dz_bounds(
                body_a.material.friction as int + body_b.material.friction as int,
                2,
            );
            lemma_dz_bounds(
                mu as int * sat(abs(impulse_scalar as int) as int),
                SCALE as int,
            );
            assert(mu as int * sat(abs(impulse_scalar as int) as int) >= 0) by (nonlinear_arith)
                requires
                    mu as int >= 0,
                    sat(abs(impulse_scalar as int) as int) >= 0,
            {}
        }
        let friction_impulse_scalar = fx_clamp(jt, fx_neg(max_friction_impulse),
            max_friction_impulse);
        let friction_impulse = tangent_direction.scale(friction_impulse_scalar);
        if matches!(body_a.body_type, BodyType::Dynamic) {
            new_a.velocity = new_a.velocity.sub(friction_impulse.scale(inv_mass_a));
        }
        if matches!(body_b.body_type, BodyType::Dynamic) {
            new_b.velocity = new_b.velocity.add(friction_impulse.scale(inv_mass_b));
        }
    }

    bodies[c.body_a] = new_a;
    bodies[c.body_b] = new_b;
}

} // verus!
