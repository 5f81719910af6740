use spring::shapes::make_polygon;
use spring::simulation::World;
use spring::vec2::Vec2;
use spring::viewer::{EditMode, Shaders};

#[test]
fn polygon_has_perimeter_plus_center() {
    // an octagon around (7, 7) with radius 5: eight perimeter vertices
    // and one center vertex
    let mut world = World::new();
    make_polygon(&mut world, Vec2 { x: 7000, y: 7000 }, 5000, 8);
    assert_eq!(world.verts.len(), 9);
    // a closed perimeter plus eight spokes
    assert_eq!(world.surfaces.len(), 16);
    assert_eq!(world.verts[8].position, Vec2 { x: 7000, y: 7000 });
    // the first perimeter vertex sits exactly radius away on the x axis
    assert_eq!(world.verts[0].position, Vec2 { x: 12000, y: 7000 });
    // every created vertex carries the fresh-vertex defaults
    for v in &world.verts {
        assert_eq!(v.mass, 50);
        assert_eq!(v.velocity, Vec2 { x: 0, y: 0 });
        assert_eq!(v.acceleration, Vec2 { x: 0, y: 0 });
        assert!(!v.is_static);
    }
}

#[test]
fn perimeter_vertices_stay_within_the_radius() {
    let center = Vec2 { x: 7000, y: 7000 };
    let radius: i64 = 5000;
    let mut world = World::new();
    make_polygon(&mut world, center, radius, 8);
    for i in 0..8 {
        let p = world.verts[i].position;
        let dx = (p.x - center.x) as i128;
        let dy = (p.y - center.y) as i128;
        assert!(dx * dx + dy * dy <= (radius as i128) * (radius as i128));
        // and they are genuinely spread out, not collapsed onto the center
        assert!(dx * dx + dy * dy >= (radius as i128) * (radius as i128) / 2);
    }
}

#[test]
fn polygon_surfaces_form_a_closed_perimeter_with_spokes() {
    let mut world = World::new();
    make_polygon(&mut world, Vec2 { x: 0, y: 0 }, 5000, 8);
    let pairs: Vec<(usize, usize)> =
        world.surfaces.iter().map(|s| (s.index_a, s.index_b)).collect();
    for j in 0..7 {
        assert!(pairs.contains(&(j, j + 1)), "missing perimeter edge {}", j);
    }
    assert!(pairs.contains(&(0, 7)), "missing closing edge");
    for j in 0..8 {
        assert!(pairs.contains(&(j, 8)), "missing spoke {}", j);
    }
    // every perimeter vertex touches two edges and one spoke
    for j in 0..8 {
        assert_eq!(world.get_vertex_surfaces(j).len(), 3);
    }
    // the center touches every spoke
    assert_eq!(world.get_vertex_surfaces(8).len(), 8);
}

#[test]
fn polygon_on_a_non_empty_world_leaves_old_vertices_alone() {
    let mut world = World::new();
    make_polygon(&mut world, Vec2 { x: 0, y: 0 }, 2000, 3);
    let before = world.verts.len();
    make_polygon(&mut world, Vec2 { x: 20000, y: 0 }, 2000, 3);
    assert_eq!(world.verts.len(), before + 4);
    assert_eq!(world.verts[0].position.x, 2000);
}

#[test]
fn shader_sources_exist_for_every_dialect() {
    let dialects = [
        Shaders::GlSl400,
        Shaders::GlSl130,
        Shaders::GlSl110,
        Shaders::GlSlEs300,
        Shaders::GlSlEs100,
    ];
    for d in dialects.iter() {
        let (vs, fs) = d.get_program_code();
        assert!(vs.contains("#version"));
        assert!(fs.contains("#version"));
        assert!(vs.contains("matrix"));
    }
    let (vs400, _) = Shaders::GlSl400.get_program_code();
    let (vs130, _) = Shaders::GlSl130.get_program_code();
    assert_ne!(vs400, vs130);
}

#[test]
fn edit_modes_cover_select_and_create() {
    let select = EditMode::Select;
    let create = EditMode::Create;
    assert!(matches!(select, EditMode::Select));
    assert!(matches!(create, EditMode::Create));
}
