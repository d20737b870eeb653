//! Pairwise collision detection between circles and axis-aligned
//! rectangles.
//!
//! Every unordered pair of bodies is examined in index order; a pair of
//! two static bodies is skipped. Each geometric test has a spec-level
//! twin (`*_of`) giving the exact fixed-point value of everything it
//! computes, and the exec functions are proved equal to those twins.
//! A record's normal always points from the lower-indexed body toward
//! the higher-indexed body's side of the contact.

use vstd::prelude::*;
use vstd::math::abs;
use crate::bodies::{Body, BodyType, Shape};
use crate::fx::{clampv, dz, fx_add, fx_div, fx_sub, fxd, half_i128, isqrt_u128, sat, sat_i128,
    sqrt_z, SCALE, lemma_product_in_wide_range};
use crate::vec2::{neg_of, norm_of, sub_of, Vec2};

verus! {

/// A contact between two bodies, reported with the indices the bodies
/// hold in the world's sequence. Records are recomputed fresh each
/// solver pass and never cached.
#[derive(Clone, Copy, Debug, PartialEq, Eq, Structural)]
pub struct Collision {
    /// Index of the lower-indexed body.
    pub body_a: usize,
    /// Index of the higher-indexed body.
    pub body_b: usize,
    /// Unit contact normal, pointing from `body_a` toward `body_b`'s
    /// side of the contact.
    pub normal: Vec2,
    /// Non-negative penetration depth along the normal.
    pub depth: i64,
}

/// A record speaks of two distinct bodies of a sequence of length `n`,
/// lower index first.
pub open spec fn record_valid(c: Collision, n: int) -> bool {
    c.body_a < c.body_b && (c.body_b as int) < n
}

/// All records of a detection pass are valid for a sequence of length
/// `n`.
pub open spec fn records_valid(cs: Seq<Collision>, n: int) -> bool {
    forall|k: int| 0 <= k < cs.len() ==> record_valid(#[trigger] cs[k], n)
}

/// No record names two static bodies.
pub open spec fn no_static_pairs(cs: Seq<Collision>, bs: Seq<Body>) -> bool {
    forall|k: int|
        0 <= k < cs.len() ==> !(bs[(#[trigger] cs[k]).body_a as int].body_type == BodyType::Static
            && bs[cs[k].body_b as int].body_type == BodyType::Static)
}

/// Circle–circle test: contact exactly when the center distance is
/// positive (coincident centers are deliberately no contact, so the
/// normal stays defined) and below the sum of the radii. The normal is
/// the normalised center difference, pointing from the first body to
/// the second.
pub open spec fn circle_circle_of(a: Body, b: Body, ra: int, rb: int, i: usize, j: usize) -> Option<
    Collision,
> {
    let d = sub_of(b.position, a.position);
    let dist = norm_of(d);
    let min_d = sat(ra + rb);
    if 0 < dist < min_d {
        Some(
            Collision {
                body_a: i,
                body_b: j,
                normal: Vec2 {
                    x: fxd(d.x as int, dist) as i64,
                    y: fxd(d.y as int, dist) as i64,
                },
                depth: (min_d - dist) as i64,
            },
        )
    } else {
        None
    }
}

/// Rectangle–rectangle test on axis-aligned boxes: contact exactly when
/// the extents overlap on both axes. The resolution axis is the one
/// with the smaller overlap (the y axis on a tie), the normal is the
/// unit vector along it, signed by the center difference, with a zero
/// difference defaulting to the positive direction.
pub open spec fn rect_rect_of(
    a: Body,
    b: Body,
    w1: int,
    h1: int,
    w2: int,
    h2: int,
    i: usize,
    j: usize,
) -> Option<Collision> {
    let dx = b.position.x - a.position.x;
    let dy = b.position.y - a.position.y;
    let ox = sat(dz(w1, 2) + dz(w2, 2) - abs(dx));
    let oy = sat(dz(h1, 2) + dz(h2, 2) - abs(dy));
    if ox > 0 && oy > 0 {
        if ox < oy {
            Some(
                Collision {
                    body_a: i,
                    body_b: j,
                    normal: Vec2 {
                        x: if dx >= 0 {
                            SCALE
                        } else {
                            (-SCALE) as i64
                        },
                        y: 0i64,
                    },
                    depth: ox as i64,
                },
            )
        } else {
            Some(
                Collision {
                    body_a: i,
                    body_b: j,
                    normal: Vec2 {
                        x: 0i64,
                        y: if dy >= 0 {
                            SCALE
                        } else {
                            (-SCALE) as i64
                        },
                    },
                    depth: oy as i64,
                },
            )
        }
    } else {
        None
    }
}

/// Circle–rectangle test: the circle's center is clamped into the
/// rectangle's half-extents to find the closest boundary point; contact
/// exactly when the squared distance from the center to that point is
/// positive (exact coincidence is no contact) and below the squared
/// radius. The normal points from the closest point toward the circle's
/// center, and the record's indices are the circle's and the
/// rectangle's.
pub open spec fn circle_rect_of(
    circle_body: Body,
    rect_body: Body,
    circle_idx: usize,
    rect_idx: usize,
    radius: int,
    width: int,
    height: int,
) -> Option<Collision> {
    let hx = dz(width, 2);
    let hy = dz(height, 2);
    let dx = circle_body.position.x - rect_body.position.x;
    let dy = circle_body.position.y - rect_body.position.y;
    let vx = sat(dx - clampv(dx, -hx, hx));
    let vy = sat(dy - clampv(dy, -hy, hy));
    let dsq = vx * vx + vy * vy;
    let rsq = radius * radius;
    if 0 < dsq < rsq {
        let dist = sat(sqrt_z(dsq as nat) as int);
        Some(
            Collision {
                body_a: circle_idx,
                body_b: rect_idx,
                normal: Vec2 {
                    x: fxd(vx, dist) as i64,
                    y: fxd(vy, dist) as i64,
                },
                depth: sat(radius - dist) as i64,
            },
        )
    } else {
        None
    }
}

/// The shape-dispatched test for one ordered pair (`a` at the lower
/// index `i`). Whatever internal order the circle–rectangle branch
/// uses, the record's indices are `(i, j)` and its normal means
/// "from index `i` toward index `j`", so when the circle holds the
/// lower index the rectangle-to-circle normal is reversed.
pub open spec fn check_of(a: Body, b: Body, i: usize, j: usize) -> Option<Collision> {
    match (a.shape, b.shape) {
        (Shape::Circle { radius: r1 }, Shape::Circle { radius: r2 }) => circle_circle_of(
            a,
            b,
            r1 as int,
            r2 as int,
            i,
            j,
        ),
        (
            Shape::Rectangle { width: w1, height: h1 },
            Shape::Rectangle { width: w2, height: h2 },
        ) => rect_rect_of(a, b, w1 as int, h1 as int, w2 as int, h2 as int, i, j),
        (Shape::Circle { radius }, Shape::Rectangle { width, height }) => match circle_rect_of(
            a,
            b,
            i,
            j,
            radius as int,
            width as int,
            height as int,
        ) {
            Some(c) => Some(Collision { normal: neg_of(c.normal), ..c }),
            None => None,
        },
        (Shape::Rectangle { width, height }, Shape::Circle { radius }) => match circle_rect_of(
            b,
            a,
            j,
            i,
            radius as int,
            width as int,
            height as int,
        ) {
            Some(c) => Some(Collision { body_a: i, body_b: j, ..c }),
            None => None,
        },
    }
}

/// One pair of the detection pass: a pair of two static bodies is
/// skipped entirely.
pub open spec fn pair_of(a: Body, b: Body, i: usize, j: usize) -> Option<Collision> {
    if a.body_type == BodyType::Static && b.body_type == BodyType::Static {
        None
    } else {
        check_of(a, b, i, j)
    }
}

/// The records of the pairs `(i, j), (i, j + 1), ...` for one fixed
/// lower index `i`.
pub open spec fn detect_row(bs: Seq<Body>, i: int, j: int) -> Seq<Collision>
    decreases bs.len() - j,
{
    if i < 0 || j < 0 || i >= bs.len() || j >= bs.len() {
        Seq::empty()
    } else {
        let rest = detect_row(bs, i, j + 1);
        match pair_of(bs[i], bs[j], i as usize, j as usize) {
            Some(c) => seq![c] + rest,
            None => rest,
        }
    }
}

/// The records of all rows from lower index `i` on.
pub open spec fn detect_rows(bs: Seq<Body>, i: int) -> Seq<Collision>
    decreases bs.len() - i,
{
    if i < 0 || i >= bs.len() {
        Seq::empty()
    } else {
        detect_row(bs, i, i + 1) + detect_rows(bs, i + 1)
    }
}

/// The full detection pass over every unordered pair, in index order.
pub open spec fn detect_of(bs: Seq<Body>) -> Seq<Collision> {
    detect_rows(bs, 0)
}

/// Detect collisions between all pairs of bodies, in index order. No
/// record ever names two static bodies: immovable pairs are skipped.
pub fn detect_collisions(bodies: &Vec<Body>) -> (r: Vec<Collision>)
    ensures
        r@ == detect_of(bodies@),
        records_valid(r@, bodies@.len() as int),
        no_static_pairs(r@, bodies@),
{
    let n: usize = bodies.len();
    let mut collisions: Vec<Collision> = Vec::new();
    let mut i: usize = 0;
    while i < n
        invariant
            n == bodies@.len(),
            i <= n,
            collisions@ + detect_rows(bodies@, i as int) == detect_of(bodies@),
            records_valid(collisions@, n as int),
            no_static_pairs(collisions@, bodies@),
        decreases n - i,
    {
        let mut j: usize = i + 1;
        proof {
            assert(detect_rows(bodies@, i as int) == detect_row(bodies@, i as int, i + 1)
                + detect_rows(bodies@, i as int + 1));
        }
        while j < n
            invariant
                n == bodies@.len(),
                i < n,
                i < j <= n,
                collisions@ + detect_row(bodies@, i as int, j as int) + detect_rows(
                    bodies@,
                    i as int + 1,
                ) == detect_of(bodies@),
                records_valid(collisions@, n as int),
                no_static_pairs(collisions@, bodies@),
            decreases n - j,
        {
            let body_a = bodies[i];
            let body_b = bodies[j];
            proof {
                assert(detect_row(bodies@, i as int, j as int) == match pair_of(
                    bodies@[i as int],
                    bodies@[j as int],
                    i,
                    j,
                ) {
                    Some(c) => seq![c] + detect_row(bodies@, i as int, j as int + 1),
                    None => detect_row(bodies@, i as int, j as int + 1),
                });
            }
            if !(matches!(body_a.body_type, BodyType::Static) && matches!(
                body_b.body_type,
                BodyType::Static,
            )) {
                if let Some(collision) = check_collision(&body_a, &body_b, i, j) {
                    collisions.push(collision);
                }
            }
            proof {
                assert(collisions@ + detect_row(bodies@, i as int, j as int + 1) + detect_rows(
                    bodies@,
                    i as int + 1,
                ) =~= detect_of(bodies@));
            }
            j += 1;
        }
        proof {
            assert(detect_row(bodies@, i as int, j as int) =~= Seq::<Collision>::empty());
            assert(collisions@ + detect_rows(bodies@, i as int + 1) =~= detect_of(bodies@));
        }
        i += 1;
    }
    proof {
        assert(detect_rows(bodies@, i as int) =~= Seq::<Collision>::empty());
        assert(collisions@ =~= detect_of(bodies@));
    }
    collisions
}

/// Check one pair of bodies for contact, reordering so that the test
/// always sees the lower index first.
pub fn check_collision(body_a: &Body, body_b: &Body, index_a: usize, index_b: usize) -> (r: Option<
    Collision,
>)
    ensures
        index_a < index_b ==> r == check_of(*body_a, *body_b, index_a, index_b),
        index_a >= index_b ==> r == check_of(*body_b, *body_a, index_b, index_a),
{
    let (body1, body2, idx1, idx2) = if index_a < index_b {
        (body_a, body_b, index_a, index_b)
    } else {
        (body_b, body_a, index_b, index_a)
    };
    match (body1.shape, body2.shape) {
        (Shape::Circle { radius: r1 }, Shape::Circle { radius: r2 }) => {
            let d = body2.position.sub(body1.position);
            let distance = d.norm();
            let min_distance = fx_add(r1, r2);
            if distance < min_distance && distance > 0 {
                Some(
                    Collision {
                        body_a: idx1,
                        body_b: idx2,
                        normal: Vec2 { x: fx_div(d.x, distance), y: fx_div(d.y, distance) },
                        depth: min_distance - distance,
                    },
                )
            } else {
                None
            }
        },
        (
            Shape::Rectangle { width: w1, height: h1 },
            Shape::Rectangle { width: w2, height: h2 },
        ) => {
            let hx1: i128 = half_i128(w1 as i128);
            let hx2: i128 = half_i128(w2 as i128);
            let hy1: i128 = half_i128(h1 as i128);
            let hy2: i128 = half_i128(h2 as i128);
            let dx: i128 = body2.position.x as i128 - body1.position.x as i128;
            let dy: i128 = body2.position.y as i128 - body1.position.y as i128;
            let adx: i128 = if dx >= 0 {
                dx
            } else {
                -dx
            };
            let ady: i128 = if dy >= 0 {
                dy
            } else {
                -dy
            };
            let ox: i64 = sat_i128(hx1 + hx2 - adx);
            let oy: i64 = sat_i128(hy1 + hy2 - ady);
            if ox > 0 && oy > 0 {
                let normal = if ox < oy {
                    Vec2 {
                        x: if dx >= 0 {
                            SCALE
                        } else {
                            -SCALE
                        },
                        y: 0,
                    }
                } else {
                    Vec2 {
                        x: 0,
                        y: if dy >= 0 {
                            SCALE
                        } else {
                            -SCALE
                        },
                    }
                };
                let depth = if ox < oy {
                    ox
                } else {
                    oy
                };
                Some(Collision { body_a: idx1, body_b: idx2, normal, depth })
            } else {
                None
            }
        },
        (Shape::Circle { radius }, Shape::Rectangle { width, height }) => {
            // Circle at the lower index: the helper's normal points at
            // the circle, so reverse it to keep the lower-to-higher
            // convention.
            match calculate_circle_rectangle_collision(
                body1,
                body2,
                idx1,
                idx2,
                radius,
                width,
                height,
            ) {
                Some(c) => Some(Collision { normal: c.normal.neg(), ..c }),
                None => None,
            }
        },
        (Shape::Rectangle { width, height }, Shape::Circle { radius }) => {
            // Rectangle at the lower index: the helper's normal already
            // points from the rectangle toward the circle, so only the
            // index order is restored.
            match calculate_circle_rectangle_collision(
                body2,
                body1,
                idx2,
                idx1,
                radius,
                width,
                height,
            ) {
                Some(c) => Some(Collision { body_a: idx1, body_b: idx2, ..c }),
                None => None,
            }
        },
    }
}

/// The circle–rectangle test, with the circle's and the rectangle's
/// bodies named explicitly; the returned normal points from the
/// rectangle's closest boundary point toward the circle's center.
pub fn calculate_circle_rectangle_collision(
    circle_body: &Body,
    rect_body: &Body,
    circle_idx: usize,
    rect_idx: usize,
    radius: i64,
    width: i64,
    height: i64,
) -> (r: Option<Collision>)
    ensures
        r == circle_rect_of(
            *circle_body,
            *rect_body,
            circle_idx,
            rect_idx,
            radius as int,
            width as int,
            height as int,
        ),
{
    let hx: i128 = half_i128(width as i128);
    let hy: i128 = half_i128(height as i128);
    let dx: i128 = circle_body.position.x as i128 - rect_body.position.x as i128;
    let dy: i128 = circle_body.position.y as i128 - rect_body.position.y as i128;
    let cx: i128 = if dx < -hx {
        -hx
    } else if dx > hx {
        hx
    } else {
        dx
    };
    let cy: i128 = if dy < -hy {
        -hy
    } else if dy > hy {
        hy
    } else {
        dy
    };
    let vx: i64 = sat_i128(dx - cx);
    let vy: i64 = sat_i128(dy - cy);
    proof {
        crate::fx::lemma_sat_product_in_range(vx as int, vx as int);
        crate::fx::lemma_sat_product_in_range(vy as int, vy as int);
        lemma_product_in_wide_range(radius as int, radius as int);
    }
    let distance_sq: i128 = (vx as i128) * (vx as i128) + (vy as i128) * (vy as i128);
    let radius_sq: i128 = (radius as i128) * (radius as i128);
    if distance_sq < radius_sq && distance_sq > 0 {
        let s: u128 = isqrt_u128(distance_sq as u128);
        let distance: i64 = sat_i128(s as i128);
        proof {
            assert(s >= 1) by {
                if s == 0 {
                    assert((s + 1) * (s + 1) == 1) by (nonlinear_arith)
                        requires
                            s == 0u128,
                    {}
                }
            };
        }
        Some(
            Collision {
                body_a: circle_idx,
                body_b: rect_idx,
                normal: Vec2 { x: fx_div(vx, distance), y: fx_div(vy, distance) },
                depth: fx_sub(radius, distance),
            },
        )
    } else {
        None
    }
}

} // verus!
