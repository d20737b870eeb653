//! System-wide laws of the engine, stated and proved over the exact
//! fixed-point models of detection, resolution and the world tick.

use vstd::prelude::*;
use crate::bodies::{Body, BodyType, Shape};
use crate::collisions::{check_of, circle_rect_of, detect_of, record_valid, Collision};
use crate::solver::{after_friction_impulse, after_normal_impulse, apply_record, inv_mass_of,
    lemma_apply_record_frame, lemma_resolve_from_frame, normal_impulse_scalar, resolve_from,
    resolve_of, untouched_by_solver};
use crate::vec2::{add_of, dot_of, neg_of, norm_of, scale_of, sub_of, Vec2};
use crate::world::{advanced_body, advanced_of, solved_from, tick_of, SOLVER_ITERATIONS};
use crate::fx::fxd;

verus! {

/// The body sequence after `n` whole ticks.
pub open spec fn ticks_of(bs: Seq<Body>, g: Vec2, dt: int, n: nat) -> Seq<Body>
    decreases n,
{
    if n == 0 {
        bs
    } else {
        ticks_of(tick_of(bs, g, dt), g, dt, (n - 1) as nat)
    }
}

/// The relaxation loop only moves velocities of dynamic bodies,
/// however many passes it runs.
pub proof fn lemma_solved_from_frame(bs: Seq<Body>, k: nat)
    ensures
        solved_from(bs, k).len() == bs.len(),
        forall|m: int|
            0 <= m < bs.len() ==> untouched_by_solver(bs[m], #[trigger] solved_from(bs, k)[m]),
    decreases k,
{
    if k == 0 {
    } else {
        let cs = detect_of(bs);
        if cs.len() == 0 {
        } else {
            lemma_resolve_from_frame(bs, cs, 0);
            lemma_solved_from_frame(resolve_of(bs, cs), (k - 1) as nat);
        }
    }
}

/// A static body's position, velocity and acceleration are invariant
/// under a whole tick, whatever forces act and whatever touches it; its
/// force accumulator is left cleared.
pub proof fn lemma_static_body_fixed_by_tick(bs: Seq<Body>, g: Vec2, dt: int, m: int)
    requires
        0 <= m < bs.len(),
        bs[m].body_type == BodyType::Static,
    ensures
        tick_of(bs, g, dt).len() == bs.len(),
        tick_of(bs, g, dt)[m] == (Body { force: Vec2 { x: 0i64, y: 0i64 }, ..bs[m] }),
{
    let adv = advanced_of(bs, g, dt);
    assert(adv[m] == (Body { force: Vec2 { x: 0i64, y: 0i64 }, ..bs[m] }));
    lemma_solved_from_frame(adv, SOLVER_ITERATIONS as nat);
}

/// A static body's position, velocity and acceleration are invariant
/// under any number of ticks.
pub proof fn lemma_static_body_fixed_by_ticks(bs: Seq<Body>, g: Vec2, dt: int, m: int, n: nat)
    requires
        0 <= m < bs.len(),
        bs[m].body_type == BodyType::Static,
    ensures
        ticks_of(bs, g, dt, n).len() == bs.len(),
        ticks_of(bs, g, dt, n)[m].position == bs[m].position,
        ticks_of(bs, g, dt, n)[m].velocity == bs[m].velocity,
        ticks_of(bs, g, dt, n)[m].acceleration == bs[m].acceleration,
        ticks_of(bs, g, dt, n)[m].body_type == BodyType::Static,
    decreases n,
{
    if n == 0 {
    } else {
        lemma_static_body_fixed_by_tick(bs, g, dt, m);
        lemma_static_body_fixed_by_ticks(tick_of(bs, g, dt), g, dt, m, (n - 1) as nat);
    }
}

/// The circle–rectangle contact decision and its geometry do not depend
/// on which of the two shapes holds the lower index: both orders find
/// contact together, report the same depth, and report the same
/// physical direction — each record's normal means "from the lower
/// index toward the higher", so the two normals are exact opposites.
pub proof fn lemma_circle_rect_normal_order_independent(
    circle: Body,
    rect: Body,
    i: usize,
    j: usize,
)
    requires
        circle.shape is Circle,
        rect.shape is Rectangle,
    ensures
        check_of(circle, rect, i, j) is Some <==> check_of(rect, circle, i, j) is Some,
        check_of(circle, rect, i, j) is Some ==> {
            let with_circle_first = check_of(circle, rect, i, j).unwrap();
            let with_rect_first = check_of(rect, circle, i, j).unwrap();
            &&& with_circle_first.normal == neg_of(with_rect_first.normal)
            &&& with_circle_first.depth == with_rect_first.depth
            &&& with_circle_first.body_a == i && with_circle_first.body_b == j
            &&& with_rect_first.body_a == i && with_rect_first.body_b == j
        },
{
    let r = circle.shape->Circle_radius;
    let w = rect.shape->Rectangle_width;
    let h = rect.shape->Rectangle_height;
    let core_ij = circle_rect_of(circle, rect, i, j, r as int, w as int, h as int);
    let core_ji = circle_rect_of(circle, rect, j, i, r as int, w as int, h as int);
    assert(core_ij is Some <==> core_ji is Some);
    if core_ij is Some {
        assert(core_ij.unwrap().normal == core_ji.unwrap().normal);
        assert(core_ij.unwrap().depth == core_ji.unwrap().depth);
    }
}

/// A lone dynamic body follows the semi-implicit Euler step exactly:
/// nothing collides with it, so one tick recomputes its acceleration
/// from the gravity force, moves the velocity by `acceleration * dt`,
/// and moves the position by the new velocity times `dt`.
pub proof fn lemma_lone_body_follows_euler(bs: Seq<Body>, g: Vec2, dt: int)
    requires
        bs.len() == 1,
        bs[0].body_type == BodyType::Dynamic,
        bs[0].mass >= 1,
    ensures
        tick_of(bs, g, dt) =~= seq![advanced_body(bs[0], g, dt)],
        ({
            let b0 = bs[0];
            let b1 = tick_of(bs, g, dt)[0];
            let force = add_of(Vec2 { x: 0i64, y: 0i64 }, scale_of(g, b0.mass as int));
            let acc = Vec2 {
                x: fxd(force.x as int, b0.mass as int) as i64,
                y: fxd(force.y as int, b0.mass as int) as i64,
            };
            &&& b1.acceleration == acc
            &&& b1.velocity == add_of(b0.velocity, scale_of(acc, dt))
            &&& b1.position == add_of(b0.position, scale_of(b1.velocity, dt))
        }),
{
    let adv = advanced_of(bs, g, dt);
    assert(adv.len() == 1);
    assert(crate::collisions::detect_row(adv, 0, 1) =~= Seq::<Collision>::empty());
    assert(crate::collisions::detect_rows(adv, 1) =~= Seq::<Collision>::empty());
    assert(crate::collisions::detect_rows(adv, 0) =~= Seq::<Collision>::empty());
    assert(detect_of(adv).len() == 0);
    assert(solved_from(adv, SOLVER_ITERATIONS as nat) == adv);
    assert(tick_of(bs, g, dt) =~= seq![advanced_body(bs[0], g, dt)]);
}

/// A component of a vector divided by the saturated integer length of
/// that vector never exceeds one scale unit in magnitude: normalising
/// produces a unit-bounded direction.
proof fn lemma_unit_component(dx: int, dy: int)
    requires
        -(crate::fx::FX_MAX as int) <= dx <= crate::fx::FX_MAX as int,
        -(crate::fx::FX_MAX as int) <= dy <= crate::fx::FX_MAX as int,
        dx * dx + dy * dy > 0,
    ensures
        ({
            let dist = crate::fx::sat(crate::fx::sqrt_z((dx * dx + dy * dy) as nat) as int);
            dist >= 1 && -(crate::fx::SCALE as int) <= fxd(dx, dist) <= crate::fx::SCALE as int
        }),
{
    let adx = vstd::math::abs(dx) as int;
    let sum = dx * dx + dy * dy;
    assert(dx * dx >= 0 && dy * dy >= 0 && adx * adx == dx * dx) by (nonlinear_arith)
        requires
            adx == vstd::math::abs(dx),
    {}
    crate::fx::lemma_sqrt_z_of_square(adx as nat);
    crate::fx::lemma_sqrt_z_of_square(1);
    crate::fx::lemma_sqrt_z_mono((adx * adx) as nat, sum as nat);
    crate::fx::lemma_sqrt_z_mono(1, sum as nat);
    let s = crate::fx::sqrt_z(sum as nat) as int;
    assert(s >= adx && s >= 1);
    let dist = crate::fx::sat(s);
    assert(dist >= adx && 1 <= dist <= crate::fx::FX_MAX as int);
    assert(-(dist * crate::fx::SCALE as int) <= dx * crate::fx::SCALE as int <= dist
        * crate::fx::SCALE as int) by (nonlinear_arith)
        requires
            -dist <= dx <= dist,
            crate::fx::SCALE as int > 0,
    {}
    crate::fx::lemma_dz_quotient_bound(dx * crate::fx::SCALE as int, dist,
        crate::fx::SCALE as int);
}

/// Every contact normal is a unit-bounded direction: neither component
/// exceeds one scale unit in magnitude, whatever the pair of shapes.
pub proof fn lemma_contact_normal_unit_bounded(a: Body, b: Body, i: usize, j: usize)
    ensures
        check_of(a, b, i, j) is Some ==> {
            let n = check_of(a, b, i, j).unwrap().normal;
            &&& -(crate::fx::SCALE as int) <= n.x <= crate::fx::SCALE as int
            &&& -(crate::fx::SCALE as int) <= n.y <= crate::fx::SCALE as int
        },
{
    if check_of(a, b, i, j) is Some {
        match (a.shape, b.shape) {
            (Shape::Circle { radius: r1 }, Shape::Circle { radius: r2 }) => {
                let d = sub_of(b.position, a.position);
                let dist = norm_of(d);
                if 0 < dist {
                    assert(d.x * d.x >= 0 && d.y * d.y >= 0) by (nonlinear_arith);
                    assert(d.x * d.x + d.y * d.y > 0) by {
                        if d.x * d.x + d.y * d.y == 0 {
                            assert(crate::fx::sqrt_z(0) == 0);
                            assert(dist == 0);
                        }
                    };
                    lemma_unit_component(d.x as int, d.y as int);
                    lemma_unit_component(d.y as int, d.x as int);
                    assert((d.y * d.y + d.x * d.x) == (d.x * d.x + d.y * d.y));
                }
            },
            (Shape::Rectangle { .. }, Shape::Rectangle { .. }) => {},
            (Shape::Circle { radius }, Shape::Rectangle { width, height }) => {
                lemma_circle_rect_core_normal_bounded(a, b, i, j, radius as int, width as int,
                    height as int);
            },
            (Shape::Rectangle { width, height }, Shape::Circle { radius }) => {
                lemma_circle_rect_core_normal_bounded(b, a, j, i, radius as int, width as int,
                    height as int);
            },
        }
    }
}

/// The circle–rectangle helper's normal is unit-bounded.
proof fn lemma_circle_rect_core_normal_bounded(
    circle_body: Body,
    rect_body: Body,
    circle_idx: usize,
    rect_idx: usize,
    radius: int,
    width: int,
    height: int,
)
    ensures
        circle_rect_of(circle_body, rect_body, circle_idx, rect_idx, radius, width, height)
            is Some ==> {
            let n = circle_rect_of(
                circle_body,
                rect_body,
                circle_idx,
                rect_idx,
                radius,
                width,
                height,
            ).unwrap().normal;
            &&& -(crate::fx::SCALE as int) <= n.x <= crate::fx::SCALE as int
            &&& -(crate::fx::SCALE as int) <= n.y <= crate::fx::SCALE as int
        },
{
    let hx = crate::fx::dz(width, 2);
    let hy = crate::fx::dz(height, 2);
    let dx = circle_body.position.x - rect_body.position.x;
    let dy = circle_body.position.y - rect_body.position.y;
    let vx = crate::fx::sat(dx - crate::fx::clampv(dx, -hx, hx));
    let vy = crate::fx::sat(dy - crate::fx::clampv(dy, -hy, hy));
    if 0 < vx * vx + vy * vy < radius * radius {
        lemma_unit_component(vx, vy);
        lemma_unit_component(vy, vx);
        assert((vy * vy + vx * vx) == (vx * vx + vy * vy));
    }
}

/// For an approaching contact between bodies of non-negative
/// restitution, the normal impulse scalar is never negative: the
/// resolver pushes bodies apart along the record's normal, never pulls
/// them together.
pub proof fn lemma_normal_impulse_pushes_apart(a: Body, b: Body, c: Collision)
    requires
        a.material.restitution >= 0,
        b.material.restitution >= 0,
        dot_of(sub_of(b.velocity, a.velocity), c.normal) <= 0,
        crate::fx::sat(inv_mass_of(a) + inv_mass_of(b)) > 0,
    ensures
        normal_impulse_scalar(a, b, c) >= 0,
{
    let vn = dot_of(sub_of(b.velocity, a.velocity), c.normal);
    let e = crate::fx::dz(a.material.restitution + b.material.restitution, 2);
    let total_inv = crate::fx::sat(inv_mass_of(a) + inv_mass_of(b));
    crate::fx::lemma_dz_bounds(a.material.restitution + b.material.restitution, 2);
    assert(e >= 0);
    let q = crate::fx::sat(crate::fx::SCALE + e);
    assert(q >= 0);
    assert(q * vn <= 0) by (nonlinear_arith)
        requires
            q >= 0 && vn <= 0,
    {}
    crate::fx::lemma_dz_bounds(q * vn, crate::fx::SCALE as int);
    let j0 = crate::fx::fxm(q, vn);
    assert(j0 <= 0);
    let neg_j0 = crate::fx::sat(-j0);
    assert(neg_j0 >= 0);
    assert(neg_j0 * crate::fx::SCALE >= 0) by (nonlinear_arith)
        requires
            neg_j0 >= 0,
    {}
    crate::fx::lemma_dz_bounds(neg_j0 * crate::fx::SCALE, total_inv);
    assert(crate::fx::fxd(neg_j0, total_inv) >= 0);
}

/// The mass-weighted velocity sum — the total momentum, componentwise —
/// of the bodies from index `k` on, as exact integers.
pub open spec fn momentum_from(bs: Seq<Body>, k: int) -> (int, int)
    decreases bs.len() - k,
{
    if k < 0 || k >= bs.len() {
        (0, 0)
    } else {
        let rest = momentum_from(bs, k + 1);
        (
            bs[k].mass * bs[k].velocity.x + rest.0,
            bs[k].mass * bs[k].velocity.y + rest.1,
        )
    }
}

/// The total momentum of the body sequence.
pub open spec fn momentum_of(bs: Seq<Body>) -> (int, int) {
    momentum_from(bs, 0)
}

/// An isolated system of interchangeable bodies: every body dynamic,
/// all of one mass.
pub open spec fn all_dynamic_equal_mass(bs: Seq<Body>, m0: int) -> bool {
    forall|m: int|
        0 <= m < bs.len() ==> (#[trigger] bs[m]).body_type == BodyType::Dynamic && bs[m].mass == m0
}

/// Both velocity components within the cap.
pub open spec fn vel_in(v: Vec2, vb: int) -> bool {
    -vb <= v.x <= vb && -vb <= v.y <= vb
}

/// Every body's velocity within the cap.
pub open spec fn vels_bounded(bs: Seq<Body>, vb: int) -> bool {
    forall|m: int| 0 <= m < bs.len() ==> vel_in((#[trigger] bs[m]).velocity, vb)
}

/// The velocities a record produces halfway through — after its normal
/// impulse, before friction — stay within the cap.
pub open spec fn record_stage_bounded(bs: Seq<Body>, c: Collision, vb: int) -> bool {
    record_valid(c, bs.len() as int) ==> {
        let mid = after_normal_impulse(bs[c.body_a as int], bs[c.body_b as int], c);
        vel_in(mid.0.velocity, vb) && vel_in(mid.1.velocity, vb)
    }
}

/// Every velocity the resolution pass passes through, record after
/// record and inside each record, stays within the cap: the speed limit
/// never engages.
pub open spec fn bounded_through_records(bs: Seq<Body>, cs: Seq<Collision>, k: int, vb: int) -> bool
    decreases cs.len() - k,
{
    if k < 0 || k >= cs.len() {
        vels_bounded(bs, vb)
    } else {
        &&& vels_bounded(bs, vb)
        &&& record_stage_bounded(bs, cs[k], vb)
        &&& bounded_through_records(apply_record(bs, cs[k]), cs, k + 1, vb)
    }
}

/// Every velocity of up to `k` relaxation passes stays within the cap.
pub open spec fn bounded_through_passes(bs: Seq<Body>, k: nat, vb: int) -> bool
    decreases k,
{
    if k == 0 {
        vels_bounded(bs, vb)
    } else {
        let cs = detect_of(bs);
        if cs.len() == 0 {
            vels_bounded(bs, vb)
        } else {
            &&& bounded_through_records(bs, cs, 0, vb)
            &&& bounded_through_passes(resolve_of(bs, cs), (k - 1) as nat, vb)
        }
    }
}

/// The first conjunct of [`bounded_through_records`], whichever branch
/// of its definition applies.
proof fn lemma_bounded_records_head(bs: Seq<Body>, cs: Seq<Collision>, k: int, vb: int)
    requires
        bounded_through_records(bs, cs, k, vb),
    ensures
        vels_bounded(bs, vb),
{
    if k < 0 || k >= cs.len() {
    } else {
    }
}

/// Replacing one body changes the momentum sum by exactly that body's
/// contribution.
proof fn lemma_momentum_from_update(bs: Seq<Body>, idx: int, nb: Body, k: int)
    requires
        0 <= idx < bs.len(),
        0 <= k,
    ensures
        k <= idx ==> momentum_from(bs.update(idx, nb), k).0 == momentum_from(bs, k).0 - bs[
            idx
        ].mass * bs[idx].velocity.x + nb.mass * nb.velocity.x,
        k <= idx ==> momentum_from(bs.update(idx, nb), k).1 == momentum_from(bs, k).1 - bs[
            idx
        ].mass * bs[idx].velocity.y + nb.mass * nb.velocity.y,
        k > idx ==> momentum_from(bs.update(idx, nb), k) == momentum_from(bs, k),
    decreases bs.len() - k,
{
    if k < 0 || k >= bs.len() {
    } else {
        lemma_momentum_from_update(bs, idx, nb, k + 1);
    }
}

/// Sequences that agree on masses and velocities have the same
/// momentum.
proof fn lemma_momentum_from_congruent(bs1: Seq<Body>, bs2: Seq<Body>, k: int)
    requires
        bs1.len() == bs2.len(),
        forall|m: int|
            0 <= m < bs1.len() ==> (#[trigger] bs2[m]).mass == bs1[m].mass && bs2[m].velocity
                == bs1[m].velocity,
    ensures
        momentum_from(bs1, k) == momentum_from(bs2, k),
    decreases bs1.len() - k,
{
    if k < 0 || k >= bs1.len() {
    } else {
        lemma_momentum_from_congruent(bs1, bs2, k + 1);
    }
}

/// One collision record between two equal-mass dynamic bodies conserves
/// the total momentum exactly, provided the velocity cap never engages
/// while it is resolved: the record subtracts one impulse vector from
/// one body's velocity and adds the very same vector to the other's.
pub proof fn lemma_record_conserves_momentum(bs: Seq<Body>, c: Collision, m0: int, vb: int)
    requires
        all_dynamic_equal_mass(bs, m0),
        0 <= vb < crate::fx::FX_MAX as int,
        vels_bounded(bs, vb),
        record_stage_bounded(bs, c, vb),
        vels_bounded(apply_record(bs, c), vb),
    ensures
        momentum_of(apply_record(bs, c)) == momentum_of(bs),
{
    if !record_valid(c, bs.len() as int) {
        return ;
    }
    let ia = c.body_a as int;
    let ib = c.body_b as int;
    let a = bs[ia];
    let b = bs[ib];
    let rel = sub_of(b.velocity, a.velocity);
    let vn = dot_of(rel, c.normal);
    if vn > 0 {
        return ;
    }
    let inv = inv_mass_of(a);
    assert(inv_mass_of(b) == inv);
    let total_inv = crate::fx::sat(inv + inv);
    if total_inv == 0 {
        return ;
    }
    let resolved = after_friction_impulse(a, b, c);
    let upd = bs.update(ia, resolved.0).update(ib, resolved.1);
    assert(apply_record(bs, c) == upd);

    // The normal impulse moves both velocities by one shared vector.
    let mid = after_normal_impulse(a, b, c);
    let x = scale_of(c.normal, normal_impulse_scalar(a, b, c));
    let dv = scale_of(x, inv);
    assert(vel_in(mid.0.velocity, vb) && vel_in(mid.1.velocity, vb));
    crate::fx::lemma_sat_within_id(a.velocity.x - dv.x, vb);
    crate::fx::lemma_sat_within_id(a.velocity.y - dv.y, vb);
    crate::fx::lemma_sat_within_id(b.velocity.x + dv.x, vb);
    crate::fx::lemma_sat_within_id(b.velocity.y + dv.y, vb);
    assert(mid.0.velocity.x == a.velocity.x - dv.x && mid.0.velocity.y == a.velocity.y - dv.y);
    assert(mid.1.velocity.x == b.velocity.x + dv.x && mid.1.velocity.y == b.velocity.y + dv.y);

    // So does the friction impulse, with its own shared vector.
    assert(upd[ia] == resolved.0 && upd[ib] == resolved.1);
    assert(vel_in(resolved.0.velocity, vb) && vel_in(resolved.1.velocity, vb));
    let rel2 = sub_of(mid.1.velocity, mid.0.velocity);
    let vn2 = dot_of(rel2, c.normal);
    let vt = sub_of(rel2, scale_of(c.normal, vn2));
    let ts = norm_of(vt);
    if ts > 0 {
        let tdir = Vec2 {
            x: fxd(vt.x as int, ts) as i64,
            y: fxd(vt.y as int, ts) as i64,
        };
        let jt = fxd(crate::fx::sat(-ts), total_inv);
        let mu = crate::fx::dz(a.material.friction + b.material.friction, 2);
        let maxf = crate::fx::fxm(mu, crate::fx::sat(vstd::math::abs(
            normal_impulse_scalar(a, b, c),
        ) as int));
        let fs = crate::fx::clampv(jt, -maxf, maxf);
        let fv = scale_of(scale_of(tdir, fs), inv);
        crate::fx::lemma_sat_within_id(mid.0.velocity.x - fv.x, vb);
        crate::fx::lemma_sat_within_id(mid.0.velocity.y - fv.y, vb);
        crate::fx::lemma_sat_within_id(mid.1.velocity.x + fv.x, vb);
        crate::fx::lemma_sat_within_id(mid.1.velocity.y + fv.y, vb);
        assert(resolved.0.velocity.x == a.velocity.x - dv.x - fv.x);
        assert(resolved.1.velocity.x == b.velocity.x + dv.x + fv.x);
        assert(resolved.0.velocity.y == a.velocity.y - dv.y - fv.y);
        assert(resolved.1.velocity.y == b.velocity.y + dv.y + fv.y);
    } else {
        assert(resolved.0 == mid.0 && resolved.1 == mid.1);
    }

    // Equal masses make the exchanged contributions cancel exactly.
    lemma_momentum_from_update(bs, ia, resolved.0, 0);
    lemma_momentum_from_update(bs.update(ia, resolved.0), ib, resolved.1, 0);
    assert(bs.update(ia, resolved.0)[ib] == b);
    assert(m0 * resolved.0.velocity.x + m0 * resolved.1.velocity.x == m0 * a.velocity.x + m0
        * b.velocity.x) by (nonlinear_arith)
        requires
            resolved.0.velocity.x + resolved.1.velocity.x == a.velocity.x + b.velocity.x,
    {}
    assert(m0 * resolved.0.velocity.y + m0 * resolved.1.velocity.y == m0 * a.velocity.y + m0
        * b.velocity.y) by (nonlinear_arith)
        requires
            resolved.0.velocity.y + resolved.1.velocity.y == a.velocity.y + b.velocity.y,
    {}
}

/// A whole resolution pass over equal-mass dynamic bodies conserves the
/// total momentum exactly, provided the velocity cap never engages.
pub proof fn lemma_pass_conserves_momentum(
    bs: Seq<Body>,
    cs: Seq<Collision>,
    k: int,
    m0: int,
    vb: int,
)
    requires
        all_dynamic_equal_mass(bs, m0),
        0 <= vb < crate::fx::FX_MAX as int,
        bounded_through_records(bs, cs, k, vb),
    ensures
        momentum_of(resolve_from(bs, cs, k)) == momentum_of(bs),
    decreases cs.len() - k,
{
    if k < 0 || k >= cs.len() {
    } else {
        let stepped = apply_record(bs, cs[k]);
        lemma_apply_record_frame(bs, cs[k]);
        lemma_bounded_records_head(stepped, cs, k + 1, vb);
        lemma_record_conserves_momentum(bs, cs[k], m0, vb);
        assert(all_dynamic_equal_mass(stepped, m0));
        lemma_pass_conserves_momentum(stepped, cs, k + 1, m0, vb);
    }
}

/// The whole bounded relaxation conserves the total momentum of an
/// equal-mass dynamic system, provided the velocity cap never engages.
pub proof fn lemma_relaxation_conserves_momentum(bs: Seq<Body>, k: nat, m0: int, vb: int)
    requires
        all_dynamic_equal_mass(bs, m0),
        0 <= vb < crate::fx::FX_MAX as int,
        bounded_through_passes(bs, k, vb),
    ensures
        momentum_of(solved_from(bs, k)) == momentum_of(bs),
    decreases k,
{
    if k == 0 {
    } else {
        let cs = detect_of(bs);
        if cs.len() == 0 {
        } else {
            lemma_pass_conserves_momentum(bs, cs, 0, m0, vb);
            lemma_resolve_from_frame(bs, cs, 0);
            assert(all_dynamic_equal_mass(resolve_of(bs, cs), m0));
            lemma_relaxation_conserves_momentum(resolve_of(bs, cs), (k - 1) as nat, m0, vb);
        }
    }
}

/// Total momentum of an isolated system is conserved exactly across a
/// tick: with zero gravity, equal-mass dynamic bodies, and velocities
/// that stay within the cap throughout, the integration phase leaves
/// every velocity alone and every impulse exchange cancels.
pub proof fn lemma_tick_conserves_momentum(bs: Seq<Body>, dt: int, m0: int, vb: int)
    requires
        all_dynamic_equal_mass(bs, m0),
        m0 >= 1,
        0 <= vb < crate::fx::FX_MAX as int,
        vels_bounded(bs, vb),
        bounded_through_passes(
            advanced_of(bs, Vec2 { x: 0i64, y: 0i64 }, dt),
            SOLVER_ITERATIONS as nat,
            vb,
        ),
    ensures
        momentum_of(tick_of(bs, Vec2 { x: 0i64, y: 0i64 }, dt)) == momentum_of(bs),
{
    let g = Vec2 { x: 0i64, y: 0i64 };
    let adv = advanced_of(bs, g, dt);
    assert forall|m: int| 0 <= m < bs.len() implies (#[trigger] adv[m]).mass == bs[m].mass
        && adv[m].velocity == bs[m].velocity && adv[m].body_type == bs[m].body_type by {
        let b = bs[m];
        assert(b.body_type == BodyType::Dynamic && b.mass == m0 && vel_in(b.velocity, vb));
        vstd::arithmetic::div_mod::lemma_div_of0(b.mass as int);
        vstd::arithmetic::div_mod::lemma_div_of0(crate::fx::SCALE as int);
        assert(g.x as int * b.mass as int == 0 && g.y as int * b.mass as int == 0)
            by (nonlinear_arith)
            requires
                g.x == 0i64 && g.y == 0i64,
        {}
        assert(scale_of(g, b.mass as int) == (Vec2 { x: 0i64, y: 0i64 }));
        let cleared = Body { force: Vec2 { x: 0i64, y: 0i64 }, ..b };
        let pushed = crate::bodies::forced(cleared, scale_of(g, b.mass as int));
        assert(pushed.force == (Vec2 { x: 0i64, y: 0i64 }));
        let acc = Vec2 {
            x: fxd(pushed.force.x as int, pushed.mass as int) as i64,
            y: fxd(pushed.force.y as int, pushed.mass as int) as i64,
        };
        assert(acc == (Vec2 { x: 0i64, y: 0i64 }));
        assert(acc.x as int * dt == 0 && acc.y as int * dt == 0) by (nonlinear_arith)
            requires
                acc.x == 0i64 && acc.y == 0i64,
        {}
        assert(scale_of(acc, dt) == (Vec2 { x: 0i64, y: 0i64 }));
        assert(advanced_body(b, g, dt).velocity == b.velocity);
    };
    lemma_momentum_from_congruent(bs, adv, 0);
    assert(all_dynamic_equal_mass(adv, m0));
    lemma_relaxation_conserves_momentum(adv, SOLVER_ITERATIONS as nat, m0, vb);
}

/// Every velocity of `n` whole zero-gravity ticks stays within the cap.
pub open spec fn bounded_through_ticks(bs: Seq<Body>, dt: int, n: nat, vb: int) -> bool
    decreases n,
{
    if n == 0 {
        true
    } else {
        &&& vels_bounded(bs, vb)
        &&& bounded_through_passes(
            advanced_of(bs, Vec2 { x: 0i64, y: 0i64 }, dt),
            SOLVER_ITERATIONS as nat,
            vb,
        )
        &&& bounded_through_ticks(
            tick_of(bs, Vec2 { x: 0i64, y: 0i64 }, dt),
            dt,
            (n - 1) as nat,
            vb,
        )
    }
}

/// Total momentum of an isolated system — zero gravity, equal-mass
/// dynamic bodies, velocities within the cap throughout — is conserved
/// exactly across any number of ticks.
pub proof fn lemma_ticks_conserve_momentum(bs: Seq<Body>, dt: int, m0: int, vb: int, n: nat)
    requires
        all_dynamic_equal_mass(bs, m0),
        m0 >= 1,
        0 <= vb < crate::fx::FX_MAX as int,
        bounded_through_ticks(bs, dt, n, vb),
    ensures
        momentum_of(ticks_of(bs, Vec2 { x: 0i64, y: 0i64 }, dt, n)) == momentum_of(bs),
    decreases n,
{
    let g = Vec2 { x: 0i64, y: 0i64 };
    if n == 0 {
    } else {
        lemma_tick_conserves_momentum(bs, dt, m0, vb);
        let adv = advanced_of(bs, g, dt);
        let next = tick_of(bs, g, dt);
        lemma_solved_from_frame(adv, SOLVER_ITERATIONS as nat);
        assert forall|m: int|
            0 <= m < next.len() implies (#[trigger] next[m]).body_type == BodyType::Dynamic
            && next[m].mass == m0 by {
            assert(adv[m].mass == bs[m].mass && adv[m].body_type == bs[m].body_type);
            assert(untouched_by_solver(adv[m], next[m]));
        };
        lemma_ticks_conserve_momentum(next, dt, m0, vb, (n - 1) as nat);
    }
}

} // verus!
