//! Tests for the slim grid-layout view of the terrain store: population,
//! round trips, vertices, interpolation near the centre, and the unit
//! corner table.

use hex_terrain::FX_ONE;
use hex_terrain::hex::{Hex, hexagon_region};
use hex_terrain::layout::HexLayout;
use hex_terrain::terrain::GridSettings;
use hex_terrain::terrain_hex_layout::TerrainHexLayout;
use hex_terrain::vec::Vec2Fx;
use noise::{Fbm, MultiFractal, NoiseFn, Perlin};

fn default_grid_settings() -> GridSettings {
    GridSettings::standard()
}

/// Samples the two fractal noise generators at every region cell centre,
/// in region-enumeration order, clamped into the fixed-point noise range.
fn sample_noise(g: &GridSettings) -> (Vec<i64>, Vec<i64>) {
    let height_fbm: Fbm<Perlin> =
        Fbm::new(g.height_noise_seed).set_octaves(g.height_noise_octaves as usize);
    let radius_fbm: Fbm<Perlin> =
        Fbm::new(g.radius_noise_seed).set_octaves(g.radius_noise_octaves as usize);
    let layout = HexLayout::from_scale(g.point_spacing);
    let unit = FX_ONE as f64;
    let mut heights = Vec::new();
    let mut radii = Vec::new();
    for hex in hexagon_region(Hex::new(0, 0), g.radius) {
        let pos = layout.hex_to_world_pos(hex);
        let x = pos.x as f64 / unit;
        let y = pos.y as f64 / unit;
        let hscale = g.height_noise_scale as f64 / unit;
        let rscale = g.radius_noise_scale as f64 / unit;
        let hv = height_fbm.get([x / hscale, y / hscale]);
        let rv = radius_fbm.get([x / rscale, y / rscale]);
        heights.push(((hv * unit) as i64).clamp(-FX_ONE, FX_ONE));
        radii.push(((rv * unit) as i64).clamp(-FX_ONE, FX_ONE));
    }
    (heights, radii)
}

fn layout_from(g: &GridSettings) -> TerrainHexLayout {
    let (hn, rn) = sample_noise(g);
    TerrainHexLayout::from_settings(g, &hn, &rn)
}

#[test]
fn h_grid_layout_from_settings_populates_all_hexes() {
    let g = default_grid_settings();
    let layout = layout_from(&g);
    let expected = hexagon_region(Hex::new(0, 0), g.radius).len();
    assert_eq!(layout.heights.len(), expected);
    assert_eq!(layout.radii.len(), expected);
}

#[test]
fn h_grid_layout_hex_to_world_and_back_roundtrip() {
    let g = default_grid_settings();
    let layout = layout_from(&g);
    for hex in hexagon_region(Hex::new(0, 0), 3) {
        let world = layout.hex_to_world_pos(hex);
        let back = layout.world_pos_to_hex(world);
        assert_eq!(hex, back, "roundtrip failed for {hex:?}");
    }
}

#[test]
fn h_grid_layout_vertex_returns_six_positions_per_hex() {
    let g = default_grid_settings();
    let layout = layout_from(&g);
    for i in 0..6u8 {
        assert!(layout.vertex(Hex::new(0, 0), i).is_some(), "vertex {i} should exist");
    }
}

#[test]
fn interpolate_at_center_uniform_height() {
    let g = GridSettings { radius: 1, ..default_grid_settings() };
    let layout = layout_from(&g);
    let h = layout.interpolate_height(Vec2Fx::new(0, 0));
    let center_h = layout.height(&Hex::new(0, 0)).unwrap();
    assert!(
        (h - center_h).abs() < 2 * FX_ONE,
        "interpolated height {h} should be near the centre height {center_h}"
    );
}

#[test]
fn unit_corner_returns_six_distinct_offsets() {
    let g = default_grid_settings();
    let layout = layout_from(&g);
    let corners: Vec<_> = (0..6u8).map(|i| layout.unit_corner(i)).collect();
    for i in 0..6 {
        for j in (i + 1)..6 {
            assert_ne!(corners[i], corners[j], "corners {i} and {j} are identical");
        }
    }
}
