use physics::collisions::check_collision;
use physics::{detect_collisions, resolve_collisions, Body, BodyType, Material, Vec2, World, SCALE};

#[test]
fn test_circle_circle_collision() {
    let body_a = Body::new_circle(
        Vec2::new(0, 0),
        2 * SCALE,
        Material::wood(),
        BodyType::Dynamic,
    )
    .unwrap();
    let body_b = Body::new_circle(
        Vec2::new(3 * SCALE, 0),
        2 * SCALE,
        Material::wood(),
        BodyType::Dynamic,
    )
    .unwrap();

    let collision = check_collision(&body_a, &body_b, 0, 1);
    assert!(collision.is_some());

    let collision = collision.unwrap();
    assert_eq!(collision.body_a, 0);
    assert_eq!(collision.body_b, 1);
    assert_eq!(collision.normal, Vec2::new(SCALE, 0));
    assert_eq!(collision.depth, SCALE);
}

#[test]
fn test_circle_circle_no_collision() {
    let body_a = Body::new_circle(
        Vec2::new(0, 0),
        2 * SCALE,
        Material::wood(),
        BodyType::Dynamic,
    )
    .unwrap();
    let body_b = Body::new_circle(
        Vec2::new(5 * SCALE, 0),
        2 * SCALE,
        Material::wood(),
        BodyType::Dynamic,
    )
    .unwrap();

    let collision = check_collision(&body_a, &body_b, 0, 1);
    assert!(collision.is_none());
}

#[test]
fn test_rectangle_rectangle_collision() {
    let body_a = Body::new_rectangle(
        Vec2::new(0, 0),
        4 * SCALE,
        4 * SCALE,
        Material::wood(),
        BodyType::Dynamic,
    )
    .unwrap();
    let body_b = Body::new_rectangle(
        Vec2::new(3 * SCALE, 0),
        4 * SCALE,
        4 * SCALE,
        Material::wood(),
        BodyType::Dynamic,
    )
    .unwrap();

    let collision = check_collision(&body_a, &body_b, 0, 1);
    assert!(collision.is_some());

    let collision = collision.unwrap();
    assert_eq!(collision.body_a, 0);
    assert_eq!(collision.body_b, 1);
    assert_eq!(collision.normal, Vec2::new(SCALE, 0));
    assert_eq!(collision.depth, SCALE);
}

#[test]
fn test_static_bodies_no_collision_check() {
    let mut world = World::new();

    let body_a = Body::new_circle(
        Vec2::new(0, 0),
        2 * SCALE,
        Material::stone(),
        BodyType::Static,
    )
    .unwrap();
    let body_b = Body::new_circle(
        Vec2::new(3 * SCALE, 0),
        2 * SCALE,
        Material::stone(),
        BodyType::Static,
    )
    .unwrap();

    world.add_body(body_a);
    world.add_body(body_b);

    let collisions = detect_collisions(&world.bodies);
    assert!(collisions.is_empty());
}

#[test]
fn test_collision_resolution() {
    let mut world = World::new();

    // A perfectly elastic material.
    let perfectly_elastic_material = Material::new(300_000, SCALE, 700_000);

    let mut body_a = Body::new_circle(
        Vec2::new(0, 0),
        2 * SCALE,
        perfectly_elastic_material,
        BodyType::Dynamic,
    )
    .unwrap();
    let mut body_b = Body::new_circle(
        Vec2::new(3 * SCALE, 0),
        2 * SCALE,
        perfectly_elastic_material,
        BodyType::Dynamic,
    )
    .unwrap();

    body_a.velocity = Vec2::new(SCALE, 0);
    body_b.velocity = Vec2::new(-SCALE, 0);

    world.add_body(body_a);
    world.add_body(body_b);

    let collisions = detect_collisions(&world.bodies);
    resolve_collisions(&mut world, &collisions);

    // After a perfectly elastic head-on collision of equal masses, the
    // velocities swap, up to fixed-point rounding of the impulse.
    assert!((world.bodies[0].velocity.x + SCALE).abs() < 100);
    assert_eq!(world.bodies[0].velocity.y, 0);
    assert!((world.bodies[1].velocity.x - SCALE).abs() < 100);
    assert_eq!(world.bodies[1].velocity.y, 0);
}

#[test]
fn test_static_dynamic_collision() {
    let mut world = World::new();

    let static_body = Body::new_rectangle(
        Vec2::new(0, 0),
        4 * SCALE,
        4 * SCALE,
        Material::stone(),
        BodyType::Static,
    )
    .unwrap();
    let mut dynamic_body = Body::new_circle(
        Vec2::new(3 * SCALE, 0),
        2 * SCALE,
        Material::rubber(),
        BodyType::Dynamic,
    )
    .unwrap();

    dynamic_body.velocity = Vec2::new(-SCALE, 0);

    world.add_body(static_body);
    world.add_body(dynamic_body);

    let collisions = detect_collisions(&world.bodies);
    resolve_collisions(&mut world, &collisions);

    // The static body does not move.
    assert_eq!(world.bodies[0].position, Vec2::new(0, 0));
    assert_eq!(world.bodies[0].velocity, Vec2::new(0, 0));

    // The dynamic body bounces back.
    assert!(world.bodies[1].velocity.x > 0);
}

#[test]
fn test_circle_rect_normal_independent_of_order() {
    let circle = Body::new_circle(
        Vec2::new(4 * SCALE, 0),
        2 * SCALE,
        Material::wood(),
        BodyType::Dynamic,
    )
    .unwrap();
    let rect = Body::new_rectangle(
        Vec2::new(SCALE, 0),
        4 * SCALE,
        4 * SCALE,
        Material::wood(),
        BodyType::Dynamic,
    )
    .unwrap();

    // Circle first: the normal points from the circle toward the
    // rectangle.
    let with_circle_first = check_collision(&circle, &rect, 0, 1).unwrap();
    // Rectangle first: the normal points from the rectangle toward the
    // circle.
    let with_rect_first = check_collision(&rect, &circle, 0, 1).unwrap();

    assert_eq!(with_circle_first.normal, Vec2::new(-SCALE, 0));
    assert_eq!(with_rect_first.normal, Vec2::new(SCALE, 0));
    assert_eq!(with_circle_first.depth, with_rect_first.depth);
    assert_eq!(with_circle_first.depth, SCALE);
    assert_eq!(with_circle_first.body_a, 0);
    assert_eq!(with_circle_first.body_b, 1);
    assert_eq!(with_rect_first.body_a, 0);
    assert_eq!(with_rect_first.body_b, 1);
}
