//! Procedurally generated hexagonal terrain core.
//!
//! A hex grid whose cells carry noise-derived heights and visual radii,
//! with on-demand vertex computation, inverse-distance-weighted height
//! interpolation for viewpoint grounding, and incremental gap-fill
//! ("petal") geometry between irregularly sized neighbouring hexes.
//!
//! All scalar quantities are fixed-point integers with [`fixed::FX_ONE`]
//! subunits per world unit, so that every computation is exact integer
//! arithmetic with verified bounds.

pub mod entities;
pub mod fixed;
pub mod hex;
pub mod layout;
pub mod math;
pub mod mesh;
pub mod scene;
pub mod startup_systems;
pub mod systems;
pub mod terrain;
pub mod terrain_hex_layout;
pub mod transform;
pub mod vec;

pub use fixed::FX_ONE;
