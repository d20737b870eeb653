use physics::{Body, BodyType, Material, Vec2, World, SCALE};

/// One sixtieth of a second, in fixed point.
const DT: i64 = 16_667;

fn momentum(world: &World) -> (i128, i128) {
    let mut px: i128 = 0;
    let mut py: i128 = 0;
    for body in &world.bodies {
        px += body.mass as i128 * body.velocity.x as i128;
        py += body.mass as i128 * body.velocity.y as i128;
    }
    (px, py)
}

#[test]
fn test_gravity_and_collision() {
    let mut world = World::new();

    // Ground.
    let ground = Body::new_rectangle(
        Vec2::new(400 * SCALE, 580 * SCALE),
        800 * SCALE,
        40 * SCALE,
        Material::stone(),
        BodyType::Static,
    )
    .unwrap();
    world.add_body(ground);

    // Falling ball.
    let ball = Body::new_circle(
        Vec2::new(400 * SCALE, 100 * SCALE),
        20 * SCALE,
        Material::rubber(),
        BodyType::Dynamic,
    )
    .unwrap();
    world.add_body(ball);

    let initial_position = world.bodies[1].position.y;

    // Simulate for one second.
    for _ in 0..60 {
        world.update(DT);
    }

    // The ball fell: its y-position decreased, but not further than
    // gravity allows in a second.
    assert!(world.bodies[1].position.y < initial_position);
    assert!(world.bodies[1].position.y > initial_position / 2);
    // The static ground did not move at all.
    assert_eq!(world.bodies[0].position, Vec2::new(400 * SCALE, 580 * SCALE));
    assert_eq!(world.bodies[0].velocity, Vec2::new(0, 0));
}

#[test]
fn test_multiple_body_interaction() {
    let mut world = World::new();
    // Disable gravity for this test.
    world.gravity = Vec2::new(0, 0);

    // Three balls in a row.
    let positions = [
        Vec2::new(300 * SCALE, 300 * SCALE),
        Vec2::new(350 * SCALE, 300 * SCALE),
        Vec2::new(400 * SCALE, 300 * SCALE),
    ];

    // A frictionless material, to isolate momentum behaviour.
    let frictionless_rubber = Material::new(300_000, 800_000, 0);

    for pos in positions.iter() {
        let ball = Body::new_circle(*pos, 20 * SCALE, frictionless_rubber, BodyType::Dynamic)
            .unwrap();
        world.add_body(ball);
    }

    // Give the first ball an initial velocity.
    world.bodies[0].velocity = Vec2::new(10 * SCALE, 0);

    let initial_momentum = momentum(&world);

    // Simulate for half a second.
    for _ in 0..30 {
        world.update(DT);
    }

    let final_momentum = momentum(&world);

    // Total momentum is conserved; for equal masses the conservation is
    // exact, well within the tolerance.
    let tolerance: i128 = 10_000_000;
    assert!(
        (final_momentum.0 - initial_momentum.0).abs() < tolerance
            && (final_momentum.1 - initial_momentum.1).abs() < tolerance,
        "Momentum mismatch: initial={:?}, final={:?}",
        initial_momentum,
        final_momentum
    );
}

#[test]
fn test_equal_mass_chain_conserves_momentum_exactly() {
    let mut world = World::new();
    world.gravity = Vec2::new(0, 0);

    // Close enough to collide within a few ticks.
    let frictionless = Material::new(300_000, 800_000, 0);
    for x in [300, 341, 382] {
        let ball = Body::new_circle(
            Vec2::new(x * SCALE, 300 * SCALE),
            20 * SCALE,
            frictionless,
            BodyType::Dynamic,
        )
        .unwrap();
        world.add_body(ball);
    }
    world.bodies[0].velocity = Vec2::new(10 * SCALE, 0);

    let initial_momentum = momentum(&world);
    for _ in 0..60 {
        world.update(DT);
    }
    let final_momentum = momentum(&world);

    // The balls did interact.
    assert!(world.bodies[2].velocity.x > 0);
    // Equal masses exchange equal and opposite impulses, so the total
    // momentum is conserved exactly.
    assert_eq!(initial_momentum, final_momentum);
}

#[test]
fn test_single_body_under_gravity_follows_euler() {
    let mut world = World::new();
    let ball = Body::new_circle(
        Vec2::new(0, 100 * SCALE),
        SCALE,
        Material::wood(),
        BodyType::Dynamic,
    )
    .unwrap();
    world.add_body(ball);

    for _ in 0..30 {
        world.update(DT);
    }

    // v approximates g * t = -9.81 * 0.5 = -4.905 after half a second.
    let vy = world.bodies[0].velocity.y;
    assert!((-4_910_000..=-4_900_000).contains(&vy));
    assert_eq!(world.bodies[0].velocity.x, 0);

    // y approximates y0 + g * t * t / 2 = 100 - 1.226, with the
    // semi-implicit scheme landing slightly below the exact parabola.
    let y = world.bodies[0].position.y;
    assert!(y < 100 * SCALE - 1_100_000);
    assert!(y > 100 * SCALE - 1_400_000);
}

#[test]
fn test_rectangle_rests_on_static_rectangle() {
    let mut world = World::new();

    let ground = Body::new_rectangle(
        Vec2::new(0, 0),
        200 * SCALE,
        40 * SCALE,
        Material::stone(),
        BodyType::Static,
    )
    .unwrap();
    world.add_body(ground);

    // A box whose bottom edge slightly overlaps the ground's top edge.
    let box_body = Body::new_rectangle(
        Vec2::new(0, 39 * SCALE),
        40 * SCALE,
        40 * SCALE,
        Material::wood(),
        BodyType::Dynamic,
    )
    .unwrap();
    world.add_body(box_body);

    let initial_y = world.bodies[1].position.y;
    for _ in 0..120 {
        world.update(DT);
    }

    // The box rests: over two seconds it must not sink visibly below
    // the surface (free fall would drop it by about 19 units), and the
    // ground holds its place exactly.
    let y = world.bodies[1].position.y;
    assert!(y > initial_y - SCALE / 2, "resting box sank: {} -> {}", initial_y, y);
    assert!(y <= initial_y);
    assert_eq!(world.bodies[0].position, Vec2::new(0, 0));
    assert_eq!(world.bodies[0].velocity, Vec2::new(0, 0));
}
