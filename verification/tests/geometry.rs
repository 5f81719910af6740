use spring::collisions::{
    colliding, distance_vector, get_crossing, get_inside, inside_box, normal, ray_intersect_seg,
    tangent,
};
use spring::simulation::Vertex;
use spring::vec2::Vec2;

fn p(x: i64, y: i64) -> Vec2 {
    Vec2 { x, y }
}

#[test]
fn signed_area_changes_sign_across_the_line() {
    let a = p(-1000, 0);
    let b = p(1000, 0);
    assert!(distance_vector(p(0, 1000), a, b) > 0);
    assert!(distance_vector(p(0, -1000), a, b) < 0);
    assert_eq!(distance_vector(p(0, 0), a, b), 0);
}

#[test]
fn crossing_segments_cross() {
    assert!(get_crossing(
        p(-1000, -1000),
        p(1000, 1000),
        p(-1000, 1000),
        p(1000, -1000)
    ));
}

#[test]
fn parallel_segments_do_not_cross() {
    assert!(!get_crossing(
        p(-1000, 0),
        p(1000, 0),
        p(-1000, 500),
        p(1000, 500)
    ));
}

#[test]
fn ray_cast_hits_a_segment_to_the_right() {
    // probe at origin, segment standing vertically at x = 500
    assert!(ray_intersect_seg(p(0, 0), p(500, -500), p(500, 500)));
    // a segment entirely to the left is missed
    assert!(!ray_intersect_seg(p(0, 0), p(-500, -500), p(-500, 500)));
}

#[test]
fn point_in_quad_by_parity() {
    let q0 = p(0, 0);
    let q1 = p(1000, 0);
    let q2 = p(1000, 1000);
    let q3 = p(0, 1000);
    assert!(get_inside(q0, q1, q2, q3, p(500, 500)));
    assert!(!get_inside(q0, q1, q2, q3, p(1500, 500)));
    assert!(!get_inside(q0, q1, q2, q3, p(500, -500)));
}

#[test]
fn bounding_box_membership() {
    let a = p(-1000, -2000);
    let b = p(1000, 2000);
    assert!(inside_box(p(0, 0), a, b));
    assert!(inside_box(p(1000, 2000), a, b));
    assert!(!inside_box(p(1001, 0), a, b));
}

#[test]
fn normal_points_away_from_the_probe_side() {
    let a = p(0, 0);
    let b = p(10000, 0);
    // a probe above the segment gets an upward normal
    assert_eq!(normal(p(5000, 2000), a, b), Vec2 { x: 0, y: 1000 });
    // a probe below gets the downward normal
    assert_eq!(normal(p(5000, -2000), a, b), Vec2 { x: 0, y: -1000 });
}

#[test]
fn tangent_aligns_with_the_direction() {
    let a = p(0, 0);
    let b = p(10000, 0);
    assert_eq!(tangent(p(-3000, 0), a, b), Vec2 { x: -1000, y: 0 });
    assert_eq!(tangent(p(3000, 0), a, b), Vec2 { x: 1000, y: 0 });
}

fn vertex_at(x: i64, y: i64, vx: i64, vy: i64) -> Vertex {
    let mut v = Vertex::new(Vec2 { x, y });
    v.velocity = Vec2 { x: vx, y: vy };
    v
}

#[test]
fn fast_probe_is_caught_by_the_swept_test() {
    // the probe jumps from well above to well below the segment in one step:
    // discrete sampling would miss it, the swept quad does not
    let a = vertex_at(0, 0, 0, 0);
    let b = vertex_at(10000, 0, 0, 0);
    let probe = vertex_at(5000, 2000, 0, -40000);
    assert!(colliding(&probe, &a, &b, 1000, 5));
}

#[test]
fn resting_contact_is_caught_by_the_proximity_test() {
    let a = vertex_at(0, 0, 0, 0);
    let b = vertex_at(10000, 0, 0, 0);
    // motionless, three raw units above the line: under the contact radius
    let probe = vertex_at(5000, 3, 0, 0);
    assert!(colliding(&probe, &a, &b, 1000, 5));
}

#[test]
fn end_cap_proximity_is_caught() {
    let a = vertex_at(0, 0, 0, 0);
    let b = vertex_at(10000, 0, 0, 0);
    let probe = vertex_at(-2, 2, 0, 0);
    assert!(colliding(&probe, &a, &b, 1000, 5));
}

#[test]
fn distant_probe_does_not_collide() {
    let a = vertex_at(0, 0, 0, 0);
    let b = vertex_at(10000, 0, 0, 0);
    let probe = vertex_at(5000, 9000, 0, 0);
    assert!(!colliding(&probe, &a, &b, 1000, 5));
}
