//! Physical bodies: materials, shapes, and the body itself with its
//! semi-implicit Euler integration step.

use vstd::prelude::*;
use crate::fx::{fx_div, fx_mul, fxd, fxm, SCALE};
use crate::vec2::{add_of, scale_of, Vec2};

verus! {

/// The circle constant with six decimal places.
pub const PI_FX: i64 = 3_141_593;

/// Material properties for different kinds of objects.
#[derive(Clone, Copy, Debug, PartialEq, Eq, Structural)]
pub struct Material {
    /// Density of the material (mass per unit area).
    pub density: i64,
    /// Coefficient of restitution (bounciness), one scale unit meaning
    /// perfectly elastic.
    pub restitution: i64,
    /// Coefficient of friction.
    pub friction: i64,
}

impl Material {
    /// Bundle the three coefficients. Validation happens where a body
    /// is built from the material, because that is where the positive
    /// mass invariant is at stake.
    pub fn new(density: i64, restitution: i64, friction: i64) -> (r: Material)
        ensures
            r == (Material { density, restitution, friction }),
    {
        Material { density, restitution, friction }
    }

    /// Predefined material: wood.
    pub fn wood() -> (r: Material)
        ensures
            r == (Material { density: 500_000i64, restitution: 300_000i64, friction: 300_000i64 }),
    {
        Material::new(500_000, 300_000, 300_000)
    }

    /// Predefined material: stone.
    pub fn stone() -> (r: Material)
        ensures
            r == (Material {
                density: 2_000_000i64,
                restitution: 100_000i64,
                friction: 700_000i64,
            }),
    {
        Material::new(2_000_000, 100_000, 700_000)
    }

    /// Predefined material: rubber.
    pub fn rubber() -> (r: Material)
        ensures
            r == (Material { density: 300_000i64, restitution: 800_000i64, friction: 700_000i64 }),
    {
        Material::new(300_000, 800_000, 700_000)
    }
}

/// The kinds of shapes a body can have. A shape carries no position;
/// position lives on the body.
#[derive(Clone, Copy, Debug, PartialEq, Eq, Structural)]
pub enum Shape {
    Circle { radius: i64 },
    Rectangle { width: i64, height: i64 },
}

/// Whether every dimension of the shape is positive.
pub open spec fn shape_positive(shape: Shape) -> bool {
    match shape {
        Shape::Circle { radius } => radius > 0,
        Shape::Rectangle { width, height } => width > 0 && height > 0,
    }
}

/// The derived mass: area times density, in fixed point.
pub open spec fn mass_of(shape: Shape, density: int) -> int {
    match shape {
        Shape::Circle { radius } => fxm(fxm(fxm(PI_FX as int, radius as int), radius as int),
            density),
        Shape::Rectangle { width, height } => fxm(fxm(width as int, height as int), density),
    }
}

/// The kinds of bodies.
#[derive(Clone, Copy, Debug, PartialEq, Eq, Structural)]
pub enum BodyType {
    /// Immovable bodies (ground, walls).
    Static,
    /// Normal physics bodies.
    Dynamic,
}

/// Why a body could not be built.
#[derive(Clone, Copy, Debug, PartialEq, Eq, Structural)]
pub enum BodyError {
    /// A shape dimension was not positive, or so small that the derived
    /// fixed-point mass would vanish.
    InvalidShape,
    /// The material's density was not positive, or its friction was
    /// negative.
    InvalidMaterial,
}

/// A physical body in the simulation.
#[derive(Clone, Copy, Debug, PartialEq, Eq, Structural)]
pub struct Body {
    /// Position of the body's center of mass.
    pub position: Vec2,
    /// Linear velocity of the body.
    pub velocity: Vec2,
    /// Linear acceleration of the body.
    pub acceleration: Vec2,
    /// Mass of the body, derived from shape and density at construction.
    pub mass: i64,
    /// Shape of the body.
    pub shape: Shape,
    /// Material properties.
    pub material: Material,
    /// Kind of body (static or dynamic).
    pub body_type: BodyType,
    /// Force accumulated for the next integration step.
    pub force: Vec2,
}

/// What construction establishes and every operation preserves: the
/// mass is positive (so inverse masses exist) and friction is
/// non-negative (so the friction clamp interval is an interval).
pub open spec fn body_valid(b: Body) -> bool {
    &&& b.mass >= 1
    &&& b.material.friction >= 0
}

/// The inputs on which construction succeeds.
pub open spec fn construction_ok(shape: Shape, material: Material) -> bool {
    &&& shape_positive(shape)
    &&& material.density > 0
    &&& material.friction >= 0
    &&& mass_of(shape, material.density as int) >= 1
}

/// Force application: accumulate on a dynamic body, ignore on a static
/// one.
pub open spec fn forced(b: Body, f: Vec2) -> Body {
    if b.body_type == BodyType::Dynamic {
        Body { force: add_of(b.force, f), ..b }
    } else {
        b
    }
}

/// One semi-implicit Euler step: acceleration from the accumulated
/// force, velocity from the new acceleration, position from the new
/// velocity. A static body is untouched.
pub open spec fn integrated(b: Body, dt: int) -> Body
    recommends
        b.body_type == BodyType::Dynamic ==> b.mass >= 1,
{
    if b.body_type == BodyType::Static {
        b
    } else {
        let acc = Vec2 {
            x: fxd(b.force.x as int, b.mass as int) as i64,
            y: fxd(b.force.y as int, b.mass as int) as i64,
        };
        let vel = add_of(b.velocity, scale_of(acc, dt));
        let pos = add_of(b.position, scale_of(vel, dt));
        Body { position: pos, velocity: vel, acceleration: acc, ..b }
    }
}

impl Body {
    /// Build a body with the given properties; the mass is derived from
    /// the shape's area and the material's density. Construction fails
    /// on a shape whose dimensions are not positive or too small to
    /// carry mass, and on a material whose density is not positive or
    /// whose friction is negative; it succeeds on everything else.
    pub fn new(position: Vec2, shape: Shape, material: Material, body_type: BodyType) -> (r: Result<
        Body,
        BodyError,
    >)
        ensures
            r.is_ok() <==> construction_ok(shape, material),
            r.is_ok() ==> r == Ok::<Body, BodyError>(
                Body {
                    position,
                    velocity: Vec2 { x: 0i64, y: 0i64 },
                    acceleration: Vec2 { x: 0i64, y: 0i64 },
                    mass: mass_of(shape, material.density as int) as i64,
                    shape,
                    material,
                    body_type,
                    force: Vec2 { x: 0i64, y: 0i64 },
                },
            ),
            r.is_ok() ==> body_valid(r.unwrap()),
            !shape_positive(shape) ==> r == Err::<Body, BodyError>(BodyError::InvalidShape),
            shape_positive(shape) && !(material.density > 0 && material.friction >= 0) ==> r
                == Err::<Body, BodyError>(BodyError::InvalidMaterial),
            shape_positive(shape) && material.density > 0 && material.friction >= 0 && mass_of(
                shape,
                material.density as int,
            ) < 1 ==> r == Err::<Body, BodyError>(BodyError::InvalidShape),
    {
        let dims_ok: bool = match shape {
            Shape::Circle { radius } => radius > 0,
            Shape::Rectangle { width, height } => width > 0 && height > 0,
        };
        if !dims_ok {
            return Err(BodyError::InvalidShape);
        }
        if !(material.density > 0 && material.friction >= 0) {
            return Err(BodyError::InvalidMaterial);
        }
        let mass: i64 = match shape {
            Shape::Circle { radius } => fx_mul(fx_mul(fx_mul(PI_FX, radius), radius),
                material.density),
            Shape::Rectangle { width, height } => fx_mul(fx_mul(width, height), material.density),
        };
        if mass < 1 {
            return Err(BodyError::InvalidShape);
        }
        Ok(
            Body {
                position,
                velocity: Vec2::zero(),
                acceleration: Vec2::zero(),
                mass,
                shape,
                material,
                body_type,
                force: Vec2::zero(),
            },
        )
    }

    /// Build a circle body.
    pub fn new_circle(position: Vec2, radius: i64, material: Material, body_type: BodyType) -> (r:
        Result<Body, BodyError>)
        ensures
            r.is_ok() <==> construction_ok(Shape::Circle { radius }, material),
            r.is_ok() ==> r == Ok::<Body, BodyError>(
                Body {
                    position,
                    velocity: Vec2 { x: 0i64, y: 0i64 },
                    acceleration: Vec2 { x: 0i64, y: 0i64 },
                    mass: mass_of(Shape::Circle { radius }, material.density as int) as i64,
                    shape: Shape::Circle { radius },
                    material,
                    body_type,
                    force: Vec2 { x: 0i64, y: 0i64 },
                },
            ),
            r.is_ok() ==> body_valid(r.unwrap()),
            radius <= 0 ==> r == Err::<Body, BodyError>(BodyError::InvalidShape),
            radius > 0 && !(material.density > 0 && material.friction >= 0) ==> r == Err::<
                Body,
                BodyError,
            >(BodyError::InvalidMaterial),
    {
        Body::new(position, Shape::Circle { radius }, material, body_type)
    }

    /// Build a rectangle body.
    pub fn new_rectangle(
        position: Vec2,
        width: i64,
        height: i64,
        material: Material,
        body_type: BodyType,
    ) -> (r: Result<Body, BodyError>)
        ensures
            r.is_ok() <==> construction_ok(Shape::Rectangle { width, height }, material),
            r.is_ok() ==> r == Ok::<Body, BodyError>(
                Body {
                    position,
                    velocity: Vec2 { x: 0i64, y: 0i64 },
                    acceleration: Vec2 { x: 0i64, y: 0i64 },
                    mass: mass_of(Shape::Rectangle { width, height }, material.density as int)
                        as i64,
                    shape: Shape::Rectangle { width, height },
                    material,
                    body_type,
                    force: Vec2 { x: 0i64, y: 0i64 },
                },
            ),
            r.is_ok() ==> body_valid(r.unwrap()),
            !shape_positive(Shape::Rectangle { width, height }) ==> r == Err::<Body, BodyError>(
                BodyError::InvalidShape,
            ),
    {
        Body::new(position, Shape::Rectangle { width, height }, material, body_type)
    }

    /// Apply a force to the body, accumulating it for the next
    /// integration step; a static body ignores it entirely.
    pub fn apply_force(&mut self, force_to_apply: Vec2)
        ensures
            *final(self) == forced(*old(self), force_to_apply),
            old(self).body_type == BodyType::Static ==> *final(self) == *old(self),
    {
        if self.body_type == BodyType::Dynamic {
            self.force = self.force.add(force_to_apply);
        }
    }

    /// Advance the body by one semi-implicit Euler step of length `dt`:
    /// the acceleration is recomputed from the accumulated force, the
    /// velocity moves by the new acceleration, the position by the new
    /// velocity. A static body does not move, whatever forces were
    /// applied. The force accumulator is left alone; the world clears
    /// it at the start of each tick.
    pub fn update(&mut self, dt: i64)
        requires
            dt > 0,
            old(self).body_type == BodyType::Dynamic ==> old(self).mass >= 1,
        ensures
            *final(self) == integrated(*old(self), dt as int),
            old(self).body_type == BodyType::Static ==> *final(self) == *old(self),
    {
        if self.body_type == BodyType::Static {
            return ;
        }
        self.acceleration = Vec2 {
            x: fx_div(self.force.x, self.mass),
            y: fx_div(self.force.y, self.mass),
        };
        self.velocity = self.velocity.add(self.acceleration.scale(dt));
        self.position = self.position.add(self.velocity.scale(dt));
    }
}

} // verus!
