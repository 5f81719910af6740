use spring::simulation::{Vertex, World, WorldError};
use spring::vec2::Vec2;

fn world_with_line(xs: &[i64]) -> World {
    let mut world = World::new();
    for &x in xs {
        world.add_vertex(Vertex::new(Vec2 { x, y: 0 }));
    }
    world
}

#[test]
fn create_surface_stores_the_pair_in_canonical_order() {
    let mut world = world_with_line(&[0, 5000, 9000]);
    assert_eq!(world.create_surface(2, 0), Ok(()));
    assert_eq!(world.surfaces.len(), 1);
    assert_eq!(world.surfaces[0].index_a, 0);
    assert_eq!(world.surfaces[0].index_b, 2);
    for s in &world.surfaces {
        assert!(s.index_a < s.index_b);
    }
}

#[test]
fn create_surface_fixes_the_rest_length_at_creation() {
    let mut world = world_with_line(&[0, 5000]);
    world.create_surface(0, 1).unwrap();
    assert_eq!(world.surfaces[0].original_distance, 5000);
}

#[test]
fn duplicate_surfaces_are_rejected_in_either_order() {
    let mut world = world_with_line(&[0, 5000, 9000]);
    world.create_surface(0, 1).unwrap();
    world.create_surface(0, 1).unwrap();
    world.create_surface(1, 0).unwrap();
    assert_eq!(world.surfaces.len(), 1);
    assert_eq!((world.surfaces[0].index_a, world.surfaces[0].index_b), (0, 1));
}

#[test]
fn self_pair_is_a_silent_no_op() {
    let mut world = world_with_line(&[0, 5000]);
    assert_eq!(world.create_surface(1, 1), Ok(()));
    assert_eq!(world.surfaces.len(), 0);
}

#[test]
fn out_of_range_surface_is_an_error() {
    let mut world = world_with_line(&[0, 5000]);
    assert_eq!(world.create_surface(0, 2), Err(WorldError::IndexOutOfBounds));
    assert_eq!(world.surfaces.len(), 0);
}

#[test]
fn remove_vertex_drops_incident_surfaces_and_reindexes() {
    let mut world = world_with_line(&[0, 1000, 2000, 3000]);
    world.create_surface(0, 1).unwrap();
    world.create_surface(1, 2).unwrap();
    world.create_surface(2, 3).unwrap();
    world.create_surface(0, 3).unwrap();
    assert_eq!(world.remove_vertex(1), Ok(()));
    // four vertices become three
    assert_eq!(world.verts.len(), 3);
    // surfaces touching the removed vertex are gone; the rest shifted down
    assert_eq!(world.surfaces.len(), 2);
    assert_eq!((world.surfaces[0].index_a, world.surfaces[0].index_b), (1, 2));
    assert_eq!((world.surfaces[1].index_a, world.surfaces[1].index_b), (0, 2));
    for s in &world.surfaces {
        assert!(s.index_a < s.index_b);
        assert!(s.index_b < world.verts.len());
    }
}

#[test]
fn remove_vertex_out_of_range_is_an_error() {
    let mut world = world_with_line(&[0]);
    assert_eq!(world.remove_vertex(1), Err(WorldError::IndexOutOfBounds));
    assert_eq!(world.verts.len(), 1);
}

#[test]
fn get_vertex_at_finds_a_vertex_strictly_within_radius() {
    let world = world_with_line(&[0, 5000]);
    // distance 500 against radius 500: strict, so no pick
    assert_eq!(world.get_vertex_at(Vec2 { x: 300, y: 400 }, 500), None);
    assert_eq!(world.get_vertex_at(Vec2 { x: 300, y: 400 }, 501), Some(0));
    assert_eq!(world.get_vertex_at(Vec2 { x: 4900, y: 0 }, 500), Some(1));
}

#[test]
fn get_vertex_at_picks_the_nearest_not_the_first() {
    // both vertices are within radius; vertex 1 is strictly nearer
    let world = world_with_line(&[0, 1000]);
    assert_eq!(world.get_vertex_at(Vec2 { x: 800, y: 0 }, 2000), Some(1));
    // and the other way round
    assert_eq!(world.get_vertex_at(Vec2 { x: 200, y: 0 }, 2000), Some(0));
}

#[test]
fn get_vertex_at_breaks_distance_ties_by_lowest_index() {
    let world = world_with_line(&[0, 1000]);
    assert_eq!(world.get_vertex_at(Vec2 { x: 500, y: 0 }, 2000), Some(0));
}

#[test]
fn get_vertex_surfaces_lists_incident_surface_indices() {
    let mut world = world_with_line(&[0, 1000, 2000]);
    world.create_surface(0, 1).unwrap();
    world.create_surface(1, 2).unwrap();
    world.create_surface(0, 2).unwrap();
    assert_eq!(world.get_vertex_surfaces(1), vec![0, 1]);
    assert_eq!(world.get_vertex_surfaces(0), vec![0, 2]);
    assert_eq!(world.get_vertex_surfaces(7), Vec::<usize>::new());
}

#[test]
fn get_surface_at_picks_by_projection_within_the_span() {
    let mut world = world_with_line(&[0, 10000]);
    world.create_surface(0, 1).unwrap();
    // 300 raw units above the middle of the segment
    assert_eq!(world.get_surface_at(Vec2 { x: 5000, y: 300 }, 500), Some(0));
    // too far above
    assert_eq!(world.get_surface_at(Vec2 { x: 5000, y: 900 }, 500), None);
    // close to the line but beyond the segment's span
    assert_eq!(world.get_surface_at(Vec2 { x: 20000, y: 0 }, 500), None);
}

#[test]
fn get_surface_at_respects_the_span_of_a_vertical_segment() {
    let mut world = World::new();
    world.add_vertex(Vertex::new(Vec2 { x: 0, y: 0 }));
    world.add_vertex(Vertex::new(Vec2 { x: 0, y: 10000 }));
    world.create_surface(0, 1).unwrap();
    // beside the middle: picked
    assert_eq!(world.get_surface_at(Vec2 { x: 300, y: 5000 }, 500), Some(0));
    // on the segment's line but far beyond the top endpoint: not picked
    assert_eq!(world.get_surface_at(Vec2 { x: 0, y: 20000 }, 500), None);
}
