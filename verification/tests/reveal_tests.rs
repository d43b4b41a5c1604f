//! End-to-end tests for grid generation, cell tracking and the progressive
//! petal reveal: deduplicated seam counts, reveal idempotence, and the
//! tracker state machine.

use hex_terrain::FX_ONE;
use hex_terrain::entities::{CameraCell, DrawnCells, FlowerState, HexGrid};
use hex_terrain::hex::{GridVertex, Hex, hexagon_region, region_size_of};
use hex_terrain::scene::{NodeKind, SceneGraph};
use hex_terrain::startup_systems::generate_grid;
use hex_terrain::systems::{spawn_petals, track_active_hex};
use hex_terrain::terrain::{FlowerSettings, GridSettings, TerrainConfig};
use hex_terrain::terrain_hex_layout::TerrainHexLayout;
use hex_terrain::vec::Vec2Fx;

/// A uniform flat-world configuration: every cell three units high with a
/// one-unit visual radius, region of the given ring count, reveal ring of
/// one.
fn uniform_config(radius: u32) -> TerrainConfig {
    TerrainConfig {
        grid: GridSettings {
            radius,
            point_spacing: 4 * FX_ONE,
            height_noise_seed: 42,
            radius_noise_seed: 137,
            height_noise_octaves: 4,
            radius_noise_octaves: 3,
            height_noise_scale: 50 * FX_ONE,
            radius_noise_scale: 30 * FX_ONE,
            max_height: 3 * FX_ONE,
            min_hex_radius: FX_ONE,
            max_hex_radius: FX_ONE,
        },
        flower: FlowerSettings { reveal_radius: 1, ..FlowerSettings::standard() },
    }
}

/// Builds the uniform world: noise samples pinned at the maximum, so every
/// height is exactly the configured maximum and every radius exactly one.
fn uniform_world(radius: u32) -> (TerrainConfig, HexGrid, hex_terrain::entities::HexEntities, SceneGraph) {
    let cfg = uniform_config(radius);
    let count = hexagon_region(Hex::new(0, 0), radius).len();
    let hn = vec![FX_ONE; count];
    let rn = vec![FX_ONE; count];
    let mut scene = SceneGraph::new();
    let (grid, entities) = generate_grid(&cfg, &hn, &rn, &mut scene);
    (cfg, grid, entities, scene)
}

fn count_kinds(scene: &SceneGraph) -> (usize, usize) {
    let mut quads = 0;
    let mut tris = 0;
    for node in &scene.nodes {
        match node.kind {
            NodeKind::Quad(_) => quads += 1,
            NodeKind::Tri(_) => tris += 1,
            _ => {},
        }
    }
    (quads, tris)
}

#[test]
fn seven_cell_reveal_spawns_each_seam_once() {
    // Region of radius one: seven cells, twelve interior edges (six spokes
    // and six ring edges), six complete three-cell junctions around the
    // centre.  One reveal pass over the whole region builds each seam
    // exactly once.
    let (cfg, grid, entities, mut scene) = uniform_world(1);
    let mut drawn = DrawnCells::new();
    spawn_petals(&mut scene, &grid, &entities, &cfg, &mut drawn, Hex::new(0, 0));
    let (quads, tris) = count_kinds(&scene);
    assert_eq!(drawn.cells.len(), 7);
    assert_eq!(quads, 12, "one quad petal per interior edge");
    assert_eq!(tris, 6, "one triangle petal per interior junction");
}

#[test]
fn reveal_is_idempotent() {
    let (cfg, grid, entities, mut scene) = uniform_world(1);
    let mut drawn = DrawnCells::new();
    spawn_petals(&mut scene, &grid, &entities, &cfg, &mut drawn, Hex::new(0, 0));
    let nodes_after_first = scene.nodes.len();
    let drawn_after_first = drawn.cells.len();
    spawn_petals(&mut scene, &grid, &entities, &cfg, &mut drawn, Hex::new(0, 0));
    assert_eq!(scene.nodes.len(), nodes_after_first, "a second reveal spawns nothing");
    assert_eq!(drawn.cells.len(), drawn_after_first, "a second reveal draws nothing");
}

#[test]
fn reveal_of_larger_region_covers_interior_edges_once() {
    // Region of radius three, fully revealed ring by ring: interior edge
    // and junction counts for a hexagonal region of rings R are
    // 3 * (3 R^2 + R) edges and 6 * R^2 junctions.
    let (cfg, grid, entities, mut scene) = uniform_world(3);
    let mut drawn = DrawnCells::new();
    for center in hexagon_region(Hex::new(0, 0), 3) {
        spawn_petals(&mut scene, &grid, &entities, &cfg, &mut drawn, center);
    }
    assert_eq!(drawn.cells.len(), 37);
    let (quads, tris) = count_kinds(&scene);
    assert_eq!(quads, 3 * (3 * 9 + 3), "one quad petal per interior edge");
    assert_eq!(tris, 6 * 9, "one triangle petal per interior junction");
}

#[test]
fn region_size_matches_ring_formula() {
    for r in 0..5u32 {
        let n = hexagon_region(Hex::new(0, 0), r).len();
        let rr = r as usize;
        assert_eq!(n, 3 * rr * (rr + 1) + 1);
        assert_eq!(n, region_size_of(r));
    }
}

#[test]
fn tracker_reports_transitions_once() {
    let (_cfg, grid, _entities, _scene) = uniform_world(1);
    let mut cell = CameraCell::start();
    // The very first update counts as a transition.
    track_active_hex(&grid, &mut cell, Vec2Fx::new(0, 0));
    assert!(cell.changed);
    assert_eq!(cell.current, Hex::new(0, 0));
    assert_eq!(cell.previous, Some(Hex::new(0, 0)));
    // Staying in the same cell lowers the flag.
    track_active_hex(&grid, &mut cell, Vec2Fx::new(100_000, 0));
    assert!(!cell.changed);
    // Crossing into the next column raises it for one update.
    track_active_hex(&grid, &mut cell, Vec2Fx::new(6 * FX_ONE, 0));
    assert!(cell.changed);
    assert_eq!(cell.current, Hex::new(1, 0));
    assert_eq!(cell.previous, Some(Hex::new(0, 0)));
    track_active_hex(&grid, &mut cell, Vec2Fx::new(6 * FX_ONE, 0));
    assert!(!cell.changed);
}

#[test]
fn uniform_world_interpolates_exactly() {
    let (_cfg, grid, _entities, _scene) = uniform_world(1);
    let h = grid.terrain.interpolate_height(Vec2Fx::new(0, 0));
    assert_eq!(h, 3 * FX_ONE, "a uniform field interpolates to its height exactly");
    let h2 = grid.terrain.interpolate_height(Vec2Fx::new(FX_ONE, FX_ONE / 2));
    assert_eq!(h2, 3 * FX_ONE);
}

#[test]
fn degenerate_edge_line_is_skipped() {
    let a = hex_terrain::vec::Vec3Fx::new(0, 0, 0);
    let b = hex_terrain::vec::Vec3Fx::new(500, 0, 0);
    assert!(hex_terrain::mesh::build_edge_line(a, b, 30_000).is_none());
    let c = hex_terrain::vec::Vec3Fx::new(2000, 0, 0);
    assert!(hex_terrain::mesh::build_edge_line(a, c, 30_000).is_some());
}

#[test]
fn stems_appear_only_above_ground() {
    // Heights pinned to zero: no cell gets a stem.
    let cfg = uniform_config(1);
    let count = hexagon_region(Hex::new(0, 0), 1).len();
    let hn = vec![-FX_ONE; count];
    let rn = vec![FX_ONE; count];
    let mut scene = SceneGraph::new();
    let (_grid, _entities) = generate_grid(&cfg, &hn, &rn, &mut scene);
    let stems = scene
        .nodes
        .iter()
        .filter(|n| matches!(n.kind, NodeKind::StemNode(_)))
        .count();
    assert_eq!(stems, 0);
    // Heights at the maximum: every cell gets one.
    let hn2 = vec![FX_ONE; count];
    let mut scene2 = SceneGraph::new();
    let (_grid2, _entities2) = generate_grid(&cfg, &hn2, &rn, &mut scene2);
    let stems2 = scene2
        .nodes
        .iter()
        .filter(|n| matches!(n.kind, NodeKind::StemNode(_)))
        .count();
    assert_eq!(stems2, 7);
}

#[test]
fn single_cell_reveal_has_no_petals() {
    // A lone cell has no neighbours and no complete junctions: revealing
    // it spawns no petals at all.
    let (cfg, grid, entities, mut scene) = uniform_world(0);
    let mut drawn = DrawnCells::new();
    spawn_petals(&mut scene, &grid, &entities, &cfg, &mut drawn, Hex::new(0, 0));
    let (quads, tris) = count_kinds(&scene);
    assert_eq!(quads, 0);
    assert_eq!(tris, 0);
    assert_eq!(drawn.cells.len(), 1);
}

#[test]
fn noise_remap_hits_bounds_in_built_terrain() {
    // Samples at the extremes map exactly onto the configured range ends.
    let g = uniform_config(0).grid;
    let hn = vec![-FX_ONE];
    let rn = vec![FX_ONE];
    let t = TerrainHexLayout::from_settings(&g, &hn, &rn);
    assert_eq!(t.height(&Hex::new(0, 0)), Some(0));
    assert_eq!(t.radius(&Hex::new(0, 0)), Some(FX_ONE));
}

#[test]
fn flower_state_transitions_keep_petals() {
    let mut state = FlowerState::Naked;
    assert!(state.needs_petals());
    state.promote();
    assert!(state.needs_petals(), "promoted without petals still needs them");
    state.fill_petals(vec![3, 4, 5]);
    assert!(!state.needs_petals());
    state.demote();
    assert!(matches!(&state, FlowerState::Revealed { petals } if petals == &vec![3, 4, 5]));
    state.promote();
    assert!(matches!(&state, FlowerState::PlayerAbove { petals } if petals == &vec![3, 4, 5]));
    state.fill_petals(vec![9]);
    assert!(
        matches!(&state, FlowerState::PlayerAbove { petals } if petals == &vec![3, 4, 5]),
        "filling a state that has petals changes nothing"
    );
}

#[test]
fn equivalent_vertex_found_on_junction_neighbours() {
    let (_cfg, grid, _entities, _scene) = uniform_world(1);
    let gv = GridVertex { origin: Hex::new(0, 0), direction: 0 };
    let coords = gv.coordinates();
    let v0 = grid.terrain.vertex(coords.0, 0).unwrap();
    let v1 = grid.terrain.find_equivalent_vertex(coords.1, &gv).unwrap();
    let v2 = grid.terrain.find_equivalent_vertex(coords.2, &gv).unwrap();
    // The three cells label the same junction with different local corner
    // indices: two steps round on the counter-clockwise neighbour, four on
    // the clockwise one.
    assert_eq!(v0.y, v1.y);
    assert_eq!(v0.y, v2.y);
    assert_eq!(v1, grid.terrain.vertex(coords.1, 2).unwrap());
    assert_eq!(v2, grid.terrain.vertex(coords.2, 4).unwrap());
    // A cell away from the junction has no equivalent corner.
    assert!(grid.terrain.find_equivalent_vertex(Hex::new(-1, 0), &gv).is_none());
}
