//! Tests for the terrain store: construction from noise, coordinate
//! round trips, lookups, vertex computation, interpolation, and the
//! inverse transform.

use hex_terrain::FX_ONE;
use hex_terrain::hex::{Hex, hexagon_region};
use hex_terrain::layout::HexLayout;
use hex_terrain::terrain::GridSettings;
use hex_terrain::terrain_hex_layout::TerrainHexLayout;
use hex_terrain::vec::Vec2Fx;
use noise::{Fbm, MultiFractal, NoiseFn, Perlin};

fn default_grid_settings() -> GridSettings {
    GridSettings::standard()
}

/// Samples the two fractal noise generators at every region cell centre,
/// in region-enumeration order, clamped into the fixed-point noise range.
fn sample_noise(g: &GridSettings) -> (Vec<i64>, Vec<i64>) {
    let height_fbm: Fbm<Perlin> =
        Fbm::new(g.height_noise_seed).set_octaves(g.height_noise_octaves as usize);
    let radius_fbm: Fbm<Perlin> =
        Fbm::new(g.radius_noise_seed).set_octaves(g.radius_noise_octaves as usize);
    let layout = HexLayout::from_scale(g.point_spacing);
    let unit = FX_ONE as f64;
    let mut heights = Vec::new();
    let mut radii = Vec::new();
    for hex in hexagon_region(Hex::new(0, 0), g.radius) {
        let pos = layout.hex_to_world_pos(hex);
        let x = pos.x as f64 / unit;
        let y = pos.y as f64 / unit;
        let hscale = g.height_noise_scale as f64 / unit;
        let rscale = g.radius_noise_scale as f64 / unit;
        let hv = height_fbm.get([x / hscale, y / hscale]);
        let rv = radius_fbm.get([x / rscale, y / rscale]);
        heights.push(((hv * unit) as i64).clamp(-FX_ONE, FX_ONE));
        radii.push(((rv * unit) as i64).clamp(-FX_ONE, FX_ONE));
    }
    (heights, radii)
}

fn terrain_from(g: &GridSettings) -> TerrainHexLayout {
    let (hn, rn) = sample_noise(g);
    TerrainHexLayout::from_settings(g, &hn, &rn)
}

#[test]
fn terrain_hex_layout_from_settings_populates_all_hexes() {
    let g = default_grid_settings();
    let terrain = terrain_from(&g);
    let expected = hexagon_region(Hex::new(0, 0), g.radius).len();
    assert_eq!(terrain.heights.len(), expected);
    assert_eq!(terrain.radii.len(), expected);
}

#[test]
fn terrain_hex_layout_hex_to_world_and_back_roundtrip() {
    let g = default_grid_settings();
    let terrain = terrain_from(&g);
    for hex in hexagon_region(Hex::new(0, 0), 3) {
        let world = terrain.hex_to_world_pos(hex);
        let back = terrain.world_pos_to_hex(world);
        assert_eq!(hex, back, "roundtrip failed for {hex:?}");
    }
}

#[test]
fn contains_returns_false_for_out_of_bounds() {
    let terrain = TerrainHexLayout::single(Hex::new(0, 0), 5 * FX_ONE, FX_ONE, 4 * FX_ONE);
    assert!(terrain.contains(&Hex::new(0, 0)));
    assert!(!terrain.contains(&Hex::new(100, 100)));
}

#[test]
fn height_and_radius_return_none_for_missing() {
    let terrain = TerrainHexLayout::single(Hex::new(0, 0), 5 * FX_ONE, FX_ONE, 4 * FX_ONE);
    let far = Hex::new(99, 99);
    assert!(terrain.height(&far).is_none());
    assert!(terrain.radius(&far).is_none());
    assert!(terrain.vertex(far, 0).is_none());
}

#[test]
fn terrain_hex_layout_vertex_returns_six_positions_per_hex() {
    let terrain =
        TerrainHexLayout::single(Hex::new(0, 0), 3 * FX_ONE, 3 * FX_ONE / 2, 4 * FX_ONE);
    for i in 0..6u8 {
        assert!(terrain.vertex(Hex::new(0, 0), i).is_some(), "vertex {i} should exist");
    }
}

#[test]
fn vertex_position_matches_manual_computation() {
    let hex = Hex::new(0, 0);
    let height = 7 * FX_ONE;
    let radius = 2 * FX_ONE;
    let spacing = 4 * FX_ONE;
    let terrain = TerrainHexLayout::single(hex, height, radius, spacing);

    let center = terrain.hex_to_world_pos(hex);

    for i in 0..6u8 {
        let v = terrain.vertex(hex, i).unwrap();
        let corner = terrain.unit_corner(i);
        let expected_x = center.x + corner.x * radius / FX_ONE;
        let expected_z = center.y + corner.y * radius / FX_ONE;
        assert_eq!(v.x, expected_x, "vertex {i}: x mismatch");
        assert_eq!(v.y, height, "vertex {i}: height mismatch");
        assert_eq!(v.z, expected_z, "vertex {i}: z mismatch");
    }
}

#[test]
fn interpolate_at_center_uniform() {
    let terrain = TerrainHexLayout::single(Hex::new(0, 0), 3 * FX_ONE, FX_ONE, 4 * FX_ONE);
    let h = terrain.interpolate_height(Vec2Fx::new(0, 0));
    assert!(
        (h - 3 * FX_ONE).abs() < FX_ONE / 10,
        "uniform height should be near three units, got {h}"
    );
}

#[test]
fn interpolate_at_vertex_near_exact() {
    let terrain = TerrainHexLayout::single(Hex::new(0, 0), 5 * FX_ONE, FX_ONE, 4 * FX_ONE);
    let vpos = terrain.vertex(Hex::new(0, 0), 0).unwrap();
    let pos = Vec2Fx::new(vpos.x + 100, vpos.z + 100);
    let h = terrain.interpolate_height(pos);
    assert!(
        (h - 5 * FX_ONE).abs() < FX_ONE / 10,
        "height near a vertex should be near five units, got {h}"
    );
}

#[test]
fn interpolate_outside_grid_fallback() {
    let terrain = TerrainHexLayout::single(Hex::new(0, 0), 7 * FX_ONE, FX_ONE, 4 * FX_ONE);
    let h = terrain.interpolate_height(Vec2Fx::new(1000 * FX_ONE, 1000 * FX_ONE));
    assert!(h >= 0);
}

#[test]
fn inverse_transform_cancels_parent() {
    let hex = Hex::new(0, 0);
    let height = 5 * FX_ONE;
    let radius = 2 * FX_ONE;
    let terrain = TerrainHexLayout::single(hex, height, radius, 4 * FX_ONE);

    let parent_tf = terrain.place_transform(hex);
    let inv = terrain.inverse_transform(hex);

    let combined = parent_tf.mul_transform(&inv);
    assert!(
        combined.translation.x.abs() < 100 && combined.translation.y.abs() < 100
            && combined.translation.z.abs() < 100,
        "combined translation should be near zero, got {:?}",
        combined.translation
    );
    assert!(
        (combined.scale.x - FX_ONE).abs() < 100 && (combined.scale.y - FX_ONE).abs() < 100
            && (combined.scale.z - FX_ONE).abs() < 100,
        "combined scale should be near one, got {:?}",
        combined.scale
    );
}

#[test]
fn building_twice_from_same_samples_is_identical() {
    let g = default_grid_settings();
    let (hn, rn) = sample_noise(&g);
    let a = TerrainHexLayout::from_settings(&g, &hn, &rn);
    let b = TerrainHexLayout::from_settings(&g, &hn, &rn);
    assert_eq!(a.cell_count(), b.cell_count());
    for hex in hexagon_region(Hex::new(0, 0), g.radius) {
        assert_eq!(a.height(&hex), b.height(&hex), "height differs at {hex:?}");
        assert_eq!(a.radius(&hex), b.radius(&hex), "radius differs at {hex:?}");
    }
}
