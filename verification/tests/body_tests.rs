use physics::{Body, BodyError, BodyType, Material, Vec2, SCALE};

#[test]
fn test_material_properties() {
    let wood = Material::wood();
    assert_eq!(wood.density, 500_000);
    assert_eq!(wood.restitution, 300_000);
    assert_eq!(wood.friction, 300_000);

    let stone = Material::stone();
    assert_eq!(stone.density, 2_000_000);
    assert_eq!(stone.restitution, 100_000);
    assert_eq!(stone.friction, 700_000);

    let rubber = Material::rubber();
    assert_eq!(rubber.density, 300_000);
    assert_eq!(rubber.restitution, 800_000);
    assert_eq!(rubber.friction, 700_000);
}

#[test]
fn test_circle_body_creation() {
    let position = Vec2::new(10 * SCALE, 20 * SCALE);
    let radius = 5 * SCALE;
    let material = Material::wood();
    let body_type = BodyType::Dynamic;

    let circle = Body::new_circle(position, radius, material, body_type).unwrap();

    assert_eq!(circle.position, position);
    assert_eq!(circle.velocity, Vec2::new(0, 0));
    assert_eq!(circle.acceleration, Vec2::new(0, 0));
    // pi * 5^2 * 0.5 = 39.269908...; the stored mass carries the
    // rounding of the fixed-point pi.
    assert!((circle.mass - 39_269_908).abs() < 100);
}

#[test]
fn test_rectangle_body_creation() {
    let position = Vec2::new(10 * SCALE, 20 * SCALE);
    let width = 10 * SCALE;
    let height = 20 * SCALE;
    let material = Material::stone();
    let body_type = BodyType::Static;

    let rect = Body::new_rectangle(position, width, height, material, body_type).unwrap();

    assert_eq!(rect.position, position);
    assert_eq!(rect.velocity, Vec2::new(0, 0));
    assert_eq!(rect.acceleration, Vec2::new(0, 0));
    // 10 * 20 * 2 = 400, exactly representable.
    assert_eq!(rect.mass, 400 * SCALE);
}

#[test]
fn test_force_application() {
    let mut body = Body::new_circle(
        Vec2::new(0, 0),
        SCALE,
        Material::wood(),
        BodyType::Dynamic,
    )
    .unwrap();

    let force = Vec2::new(10 * SCALE, -5 * SCALE);
    body.apply_force(force);

    assert_eq!(body.force, force, "Force not accumulated correctly");
    assert_eq!(
        body.acceleration,
        Vec2::new(0, 0),
        "Acceleration changed prematurely"
    );
}

#[test]
fn test_static_body_force() {
    let mut body = Body::new_circle(
        Vec2::new(0, 0),
        SCALE,
        Material::stone(),
        BodyType::Static,
    )
    .unwrap();

    let initial_pos = body.position;
    let initial_vel = body.velocity;
    let initial_acc = body.acceleration;

    body.apply_force(Vec2::new(10 * SCALE, -5 * SCALE));
    body.update(SCALE);

    // Static bodies should not move.
    assert_eq!(body.position, initial_pos);
    assert_eq!(body.velocity, initial_vel);
    assert_eq!(body.acceleration, initial_acc);
}

#[test]
fn test_dynamic_body_update() {
    let mut body = Body::new_circle(
        Vec2::new(0, 0),
        SCALE,
        Material::wood(),
        BodyType::Dynamic,
    )
    .unwrap();

    body.velocity = Vec2::new(2 * SCALE, SCALE);
    // A force of (-mass, mass / 2) gives an acceleration of exactly
    // (-1.0, 0.5).
    body.force = Vec2::new(-body.mass, body.mass / 2);
    let dt = SCALE / 10;

    body.update(dt);

    assert_eq!(
        body.acceleration,
        Vec2::new(-SCALE, SCALE / 2),
        "Acceleration not recomputed from force"
    );
    // Semi-implicit Euler: velocity first, position from the new
    // velocity.
    assert_eq!(body.velocity, Vec2::new(1_900_000, 1_050_000), "Velocity mismatch");
    assert_eq!(body.position, Vec2::new(190_000, 105_000), "Position mismatch");
}

#[test]
fn test_construction_rejects_flat_shapes() {
    let r = Body::new_circle(Vec2::new(0, 0), 0, Material::wood(), BodyType::Dynamic);
    assert_eq!(r.unwrap_err(), BodyError::InvalidShape);

    let r = Body::new_rectangle(
        Vec2::new(0, 0),
        -5 * SCALE,
        SCALE,
        Material::wood(),
        BodyType::Dynamic,
    );
    assert_eq!(r.unwrap_err(), BodyError::InvalidShape);
}

#[test]
fn test_construction_rejects_bad_material() {
    let weightless = Material::new(0, 300_000, 300_000);
    let r = Body::new_circle(Vec2::new(0, 0), SCALE, weightless, BodyType::Dynamic);
    assert_eq!(r.unwrap_err(), BodyError::InvalidMaterial);

    let sticky = Material::new(500_000, 300_000, -1);
    let r = Body::new_circle(Vec2::new(0, 0), SCALE, sticky, BodyType::Dynamic);
    assert_eq!(r.unwrap_err(), BodyError::InvalidMaterial);
}

#[test]
fn test_construction_rejects_massless() {
    // A positive but tiny radius whose derived fixed-point mass
    // vanishes is rejected like a flat shape.
    let r = Body::new_circle(Vec2::new(0, 0), 100, Material::wood(), BodyType::Dynamic);
    assert_eq!(r.unwrap_err(), BodyError::InvalidShape);
}

#[test]
fn test_vector_norm_exact() {
    // A 3-4-5 triangle is exact in fixed point.
    let v = Vec2::new(3 * SCALE, 4 * SCALE);
    assert_eq!(v.norm(), 5 * SCALE);
}
