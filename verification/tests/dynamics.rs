use spring::collisions::resolve_impulses;
use spring::simulation::{Vertex, World};
use spring::vec2::Vec2;

#[test]
fn free_fall_one_explicit_euler_step() {
    // a unit-mass vertex at (0, 10) falling for one second under gravity:
    // velocity integrates to -9.8, position to 10 - 9.8 = 0.2
    let mut world = World::new();
    let mut vertex = Vertex::new(Vec2 { x: 0, y: 10000 });
    vertex.mass = 1000;
    world.add_vertex(vertex);
    world.update(1000, 1, false);
    assert_eq!(world.verts[0].velocity, Vec2 { x: 0, y: -9800 });
    assert_eq!(world.verts[0].position, Vec2 { x: 0, y: 200 });
    assert_eq!(world.verts[0].acceleration, Vec2 { x: 0, y: 0 });
}

#[test]
fn free_fall_accumulates_over_substeps() {
    let mut world = World::new();
    world.add_vertex(Vertex::new(Vec2 { x: 0, y: 10000 }));
    world.update(1000, 2, false);
    // two half-second substeps: v goes -4.9 then -9.8;
    // p goes 10 - 2.45 = 7.55 then 7.55 - 4.9 = 2.65
    assert_eq!(world.verts[0].velocity, Vec2 { x: 0, y: -9800 });
    assert_eq!(world.verts[0].position, Vec2 { x: 0, y: 2650 });
}

#[test]
fn spring_force_pair_is_equal_and_opposite() {
    // a stretched two-vertex surface with equal masses: the two
    // acceleration kicks are exact mirror images (Newton's third law)
    let mut world = World::new();
    world.add_vertex(Vertex::new(Vec2 { x: 0, y: 0 }));
    world.add_vertex(Vertex::new(Vec2 { x: 3000, y: 0 }));
    world.create_surface(0, 1).unwrap();
    world.verts[1].position.x = 5000;
    let surface = world.surfaces[0];
    surface.apply_force(&mut world.verts);
    let a = world.verts[0].acceleration;
    let b = world.verts[1].acceleration;
    assert_ne!(a, Vec2 { x: 0, y: 0 });
    assert_eq!(a.x, -b.x);
    assert_eq!(a.y, -b.y);
    // the stretched spring pulls the endpoints toward each other
    assert!(a.x > 0 && b.x < 0);
}

#[test]
fn static_vertices_never_move() {
    // a static anchor with a heavy moving vertex sprung to it, collisions
    // on: after stepping, the anchor sits exactly where it was, with zero
    // velocity and acceleration
    let mut world = World::new();
    let mut anchor = Vertex::new(Vec2 { x: 0, y: 5000 });
    anchor.is_static = true;
    world.add_vertex(anchor);
    world.add_vertex(Vertex::new(Vec2 { x: 0, y: 9000 }));
    world.add_vertex(Vertex::new(Vec2 { x: 4000, y: 5000 }));
    world.create_surface(0, 1).unwrap();
    world.create_surface(0, 2).unwrap();
    world.create_surface(1, 2).unwrap();
    for _ in 0..5 {
        world.update(100, 4, true);
    }
    assert_eq!(world.verts[0].position, Vec2 { x: 0, y: 5000 });
    assert_eq!(world.verts[0].velocity, Vec2 { x: 0, y: 0 });
    assert_eq!(world.verts[0].acceleration, Vec2 { x: 0, y: 0 });
    assert!(world.verts[0].is_static);
}

#[test]
fn elastic_bounce_reverses_the_normal_velocity() {
    // a probe hitting a static horizontal surface head on, with full
    // restitution and no friction: the vertical velocity flips sign with
    // equal magnitude
    let mut world = World::new();
    let mut a = Vertex::new(Vec2 { x: 0, y: 0 });
    a.is_static = true;
    let mut b = Vertex::new(Vec2 { x: 10000, y: 0 });
    b.is_static = true;
    world.add_vertex(a);
    world.add_vertex(b);
    world.create_surface(0, 1).unwrap();
    let surface = world.surfaces[0];
    assert_eq!(surface.restitution, 1000);
    assert_eq!(surface.friction, 0);

    let mut probe = Vertex::new(Vec2 { x: 5000, y: 2 });
    probe.velocity = Vec2 { x: 0, y: -3000 };
    let mut sa = world.verts[0];
    let mut sb = world.verts[1];
    resolve_impulses(&mut probe, &mut sa, &mut sb, &surface, 5);

    assert_eq!(probe.velocity, Vec2 { x: 0, y: 3000 });
    // the static endpoints took no part of the impulse
    assert_eq!(sa, world.verts[0]);
    assert_eq!(sb, world.verts[1]);
}

#[test]
fn bounce_through_the_full_step_keeps_the_speed() {
    // the same head-on bounce driven through World::update: after the
    // step the probe moves upward with the speed it came in with
    let mut world = World::new();
    let mut a = Vertex::new(Vec2 { x: 0, y: 0 });
    a.is_static = true;
    let mut b = Vertex::new(Vec2 { x: 10000, y: 0 });
    b.is_static = true;
    world.add_vertex(a);
    world.add_vertex(b);
    world.create_surface(0, 1).unwrap();
    let mut probe = Vertex::new(Vec2 { x: 5000, y: 4 });
    probe.velocity = Vec2 { x: 0, y: -3000 };
    world.add_vertex(probe);
    // one substep with gravity off: gravity still applies, so allow a
    // small tolerance around the incoming speed
    world.update(10, 1, true);
    let out = world.verts[2].velocity.y;
    assert!(out > 0, "probe should move upward after the bounce, got {}", out);
    assert!((out - 3000).abs() <= 200, "speed should be nearly preserved, got {}", out);
}

#[test]
fn friction_opposes_the_relative_sliding() {
    // the segment slides at +2 in x under a probe falling straight down,
    // with friction 0.5 and full restitution: friction must drag the
    // probe along the segment's motion (+x), shrinking the relative
    // sliding speed, and brake the endpoints
    let mut world = World::new();
    world.add_vertex(Vertex::new(Vec2 { x: 0, y: 0 }));
    world.add_vertex(Vertex::new(Vec2 { x: 10000, y: 0 }));
    world.create_surface(0, 1).unwrap();
    let mut surface = world.surfaces[0];
    surface.friction = 500;
    let mut sa = world.verts[0];
    let mut sb = world.verts[1];
    sa.velocity = Vec2 { x: 2000, y: 0 };
    sb.velocity = Vec2 { x: 2000, y: 0 };
    let mut probe = Vertex::new(Vec2 { x: 5000, y: 2 });
    probe.velocity = Vec2 { x: 0, y: -3000 };
    resolve_impulses(&mut probe, &mut sa, &mut sb, &surface, 5);
    // min(|v_n| * friction, v_t) = min(3 * 0.5, 2) = 1.5 along the slide
    assert_eq!(probe.velocity, Vec2 { x: 1500, y: 1000 });
    // the endpoints are braked by the same tangential impulse
    assert_eq!(sa.velocity, Vec2 { x: 500, y: -2000 });
    assert_eq!(sb.velocity, Vec2 { x: 500, y: -2000 });
}

#[test]
fn zero_collision_rounds_let_the_probe_pass_through() {
    // same scene as the bounce, but with the collision-pass repeat count
    // turned down to zero: nothing resolves and the probe keeps falling
    let mut world = World::new();
    let mut a = Vertex::new(Vec2 { x: 0, y: 0 });
    a.is_static = true;
    let mut b = Vertex::new(Vec2 { x: 10000, y: 0 });
    b.is_static = true;
    world.add_vertex(a);
    world.add_vertex(b);
    world.create_surface(0, 1).unwrap();
    let mut probe = Vertex::new(Vec2 { x: 5000, y: 4 });
    probe.velocity = Vec2 { x: 0, y: -3000 };
    world.add_vertex(probe);
    world.update_with_rounds(10, 1, 0, true);
    assert!(world.verts[2].velocity.y < 0);
}

#[test]
fn empty_world_steps_quietly() {
    let mut world = World::new();
    world.update(1000, 8, true);
    assert_eq!(world.verts.len(), 0);
    assert_eq!(world.surfaces.len(), 0);
    assert_eq!(world.gravity, -9800);
}

#[test]
fn debug_vectors_are_cleared_by_the_caller() {
    let mut world = World::new();
    world.debug.vectors.push((Vec2 { x: 0, y: 0 }, Vec2 { x: 1000, y: 0 }));
    assert_eq!(world.debug.vectors.len(), 1);
    world.debug.vectors.clear();
    assert_eq!(world.debug.vectors.len(), 0);
}

#[test]
fn surfaces_and_config_survive_update() {
    let mut world = World::new();
    world.add_vertex(Vertex::new(Vec2 { x: 0, y: 0 }));
    world.add_vertex(Vertex::new(Vec2 { x: 2000, y: 0 }));
    world.create_surface(0, 1).unwrap();
    world.update(500, 3, true);
    assert_eq!(world.surfaces.len(), 1);
    assert_eq!(world.gravity, -9800);
    assert_eq!(world.vertex_radius, 5);
}
