//! Tests for the grid-level height interpolation used for viewpoint
//! grounding, over a minimal single-cell grid.

use hex_terrain::FX_ONE;
use hex_terrain::entities::HexGrid;
use hex_terrain::hex::Hex;
use hex_terrain::systems::interpolate_height;
use hex_terrain::terrain_hex_layout::TerrainHexLayout;
use hex_terrain::vec::Vec2Fx;

/// Builds a minimal grid with a single hex at the origin whose six
/// vertices all sit at the given height.
fn single_hex_grid(height: i64) -> HexGrid {
    HexGrid { terrain: TerrainHexLayout::single(Hex::new(0, 0), height, FX_ONE, 4 * FX_ONE) }
}

#[test]
fn camera_interpolate_at_vertex_returns_vertex_height() {
    let grid = single_hex_grid(5 * FX_ONE);
    // Query a position very close to a vertex.
    let vpos = grid.terrain.vertex(Hex::new(0, 0), 0).unwrap();
    let pos = Vec2Fx::new(vpos.x + 100, vpos.z + 100);
    let h = interpolate_height(&grid, pos);
    assert!(
        (h - 5 * FX_ONE).abs() < FX_ONE / 10,
        "height near a vertex should be near five units, got {h}"
    );
}

#[test]
fn camera_interpolate_at_center_returns_vertex_height_when_uniform() {
    let grid = single_hex_grid(3 * FX_ONE);
    // All vertices sit at three units, so any blend also gives three units.
    let h = interpolate_height(&grid, Vec2Fx::new(0, 0));
    assert!(
        (h - 3 * FX_ONE).abs() < FX_ONE / 10,
        "uniform height should be near three units, got {h}"
    );
}

#[test]
fn camera_interpolate_outside_grid_falls_back() {
    let grid = single_hex_grid(7 * FX_ONE);
    // Far away from any vertex: falls back to the cell height or zero.
    let h = interpolate_height(&grid, Vec2Fx::new(1000 * FX_ONE, 1000 * FX_ONE));
    assert!(h >= 0);
}

#[test]
fn systems_interpolate_at_vertex_returns_vertex_height() {
    let grid = single_hex_grid(5 * FX_ONE);
    let vpos = grid.terrain.vertex(Hex::new(0, 0), 0).unwrap();
    let pos = Vec2Fx::new(vpos.x + 100, vpos.z + 100);
    let h = interpolate_height(&grid, pos);
    assert!(
        (h - 5 * FX_ONE).abs() < FX_ONE / 10,
        "height near a vertex should be near five units, got {h}"
    );
}

#[test]
fn systems_interpolate_at_center_returns_vertex_height_when_uniform() {
    let grid = single_hex_grid(3 * FX_ONE);
    let h = interpolate_height(&grid, Vec2Fx::new(0, 0));
    assert!(
        (h - 3 * FX_ONE).abs() < FX_ONE / 10,
        "uniform height should be near three units, got {h}"
    );
}

#[test]
fn systems_interpolate_outside_grid_falls_back() {
    let grid = single_hex_grid(7 * FX_ONE);
    let h = interpolate_height(&grid, Vec2Fx::new(1000 * FX_ONE, 1000 * FX_ONE));
    assert!(h >= 0);
}
