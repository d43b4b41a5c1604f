//! Terrain configuration: grid generation settings and flower (petal and
//! stem) geometry settings.

use vstd::prelude::*;

use crate::fixed::FX_ONE;
use crate::hex::RADIUS_MAX;
use crate::layout::SCALE_MAX;

verus! {

/// Largest terrain elevation the store accepts, in subunits (a thousand
/// world units).
pub const HEIGHT_LIMIT: i64 = 1_000_000_000;

/// Largest per-cell visual radius the store accepts, in subunits (a
/// hundred world units).
pub const VISUAL_RADIUS_LIMIT: i64 = 100_000_000;

/// Largest region centre coordinate magnitude, keeping every cell centre
/// well within the ground-position range.
pub const CENTER_MAX: i64 = 1_000_000;

/// Grid layout and noise parameters.
#[derive(Clone, Copy, PartialEq, Eq, Structural, Debug)]
pub struct GridSettings {
    /// Number of hex rings around the origin.
    pub radius: u32,
    /// Distance in subunits between adjacent hex centers.
    pub point_spacing: i64,
    /// Seed for the height noise generator.
    pub height_noise_seed: u32,
    /// Seed for the per-hex radius noise generator.
    pub radius_noise_seed: u32,
    /// Number of octaves for height noise.
    pub height_noise_octaves: u32,
    /// Number of octaves for radius noise.
    pub radius_noise_octaves: u32,
    /// Spatial scale divisor for height noise sampling, in subunits.
    pub height_noise_scale: i64,
    /// Spatial scale divisor for radius noise sampling, in subunits.
    pub radius_noise_scale: i64,
    /// Maximum terrain elevation produced by the noise remap, in subunits.
    pub max_height: i64,
    /// Smallest visual hex radius (noise-derived per cell), in subunits.
    pub min_hex_radius: i64,
    /// Largest visual hex radius (noise-derived per cell), in subunits.
    pub max_hex_radius: i64,
}

impl GridSettings {
    /// The ranges under which grid generation is defined: a bounded region,
    /// an even spacing in range, and ordered, bounded noise target ranges.
    pub open spec fn wf(self) -> bool {
        &&& self.radius <= RADIUS_MAX
        &&& 2 <= self.point_spacing <= SCALE_MAX
        &&& self.point_spacing % 2 == 0
        &&& 0 <= self.max_height <= HEIGHT_LIMIT
        &&& 10_000 <= self.min_hex_radius <= self.max_hex_radius <= VISUAL_RADIUS_LIMIT
        &&& 1 <= self.height_noise_scale
        &&& 1 <= self.radius_noise_scale
    }

    /// The default grid: twenty rings, four units of spacing, terrain up
    /// to twenty units high, cell radii between a fifth and two and six
    /// tenths of a unit.
    pub fn standard() -> (r: GridSettings)
        ensures
            r.wf(),
            r.radius == 20,
            r.point_spacing == 4 * FX_ONE,
            r.max_height == 20 * FX_ONE,
            r.min_hex_radius == FX_ONE / 5,
            r.max_hex_radius == 26 * FX_ONE / 10,
    {
        GridSettings {
            radius: 20,
            point_spacing: 4_000_000,
            height_noise_seed: 42,
            radius_noise_seed: 137,
            height_noise_octaves: 4,
            radius_noise_octaves: 3,
            height_noise_scale: 50_000_000,
            radius_noise_scale: 30_000_000,
            max_height: 20_000_000,
            min_hex_radius: 200_000,
            max_hex_radius: 2_600_000,
        }
    }
}

impl Default for GridSettings {
    /// The default grid settings, as [`GridSettings::standard`] builds them.
    fn default() -> (r: GridSettings)
        ensures
            r.wf(),
            r.radius == 20,
            r.point_spacing == 4 * FX_ONE,
    {
        GridSettings::standard()
    }
}

/// Flower geometry: stem dimensions, and edge and reveal settings.
#[derive(Clone, Copy, PartialEq, Eq, Structural, Debug)]
pub struct FlowerSettings {
    /// Stem cylinder radius as a fixed-point fraction of the hex's visual
    /// radius.
    pub stem_radius_factor: i64,
    /// Distance at which stems reach full opacity, in subunits.
    pub stem_fade_distance: i64,
    /// Minimum fixed-point alpha when the camera is right on top of a stem.
    pub stem_min_alpha: i64,
    /// Gap between stem top and hex face, in subunits.
    pub stem_gap: i64,
    /// Thickness of edge line cuboids, in subunits.
    pub edge_thickness: i64,
    /// How many hex rings around the viewpoint to reveal per cell
    /// transition.
    pub reveal_radius: u32,
}

impl FlowerSettings {
    /// The ranges under which stem and petal construction is defined.
    pub open spec fn wf(self) -> bool {
        &&& 0 <= self.stem_radius_factor <= FX_ONE
        &&& 1 <= self.stem_fade_distance <= HEIGHT_LIMIT
        &&& 0 <= self.stem_min_alpha <= FX_ONE
        &&& 0 <= self.stem_gap <= HEIGHT_LIMIT
        &&& 0 < self.edge_thickness <= FX_ONE
        &&& self.reveal_radius <= RADIUS_MAX
    }

    /// The default flower geometry: thin stems fading over forty units,
    /// three-hundredths-of-a-unit edges, a reveal ring of two.
    pub fn standard() -> (r: FlowerSettings)
        ensures
            r.wf(),
            r.reveal_radius == 2,
            r.edge_thickness == 30_000,
    {
        FlowerSettings {
            stem_radius_factor: 60_000,
            stem_fade_distance: 40_000_000,
            stem_min_alpha: 50_000,
            stem_gap: 50_000,
            edge_thickness: 30_000,
            reveal_radius: 2,
        }
    }
}

impl Default for FlowerSettings {
    /// The default flower settings, as [`FlowerSettings::standard`] builds
    /// them.
    fn default() -> (r: FlowerSettings)
        ensures
            r.wf(),
            r.reveal_radius == 2,
    {
        FlowerSettings::standard()
    }
}

/// Nested configuration for the terrain subsystem.
#[derive(Clone, Copy, PartialEq, Eq, Structural, Debug)]
pub struct TerrainConfig {
    /// Grid generation settings.
    pub grid: GridSettings,
    /// Flower geometry: stem, petal edge, and reveal settings.
    pub flower: FlowerSettings,
}

impl TerrainConfig {
    /// Both halves of the configuration are in range.
    pub open spec fn wf(self) -> bool {
        self.grid.wf() && self.flower.wf()
    }

    /// The default terrain configuration.
    pub fn standard() -> (r: TerrainConfig)
        ensures
            r.wf(),
    {
        TerrainConfig { grid: GridSettings::standard(), flower: FlowerSettings::standard() }
    }
}

impl Default for TerrainConfig {
    /// The default terrain configuration, as [`TerrainConfig::standard`]
    /// builds it.
    fn default() -> (r: TerrainConfig)
        ensures
            r.wf(),
    {
        TerrainConfig::standard()
    }
}

} // verus!
