//! Tests for the pure computation helpers: noise remapping, easing, face
//! normals, pole fading and sizing, pitch clamping.

use hex_terrain::FX_ONE;
use hex_terrain::math::{
    HALF_PI_FX, clamp_pitch, compute_normal, ease_out_cubic, map_noise_to_range,
    pole_fade_brightness, pole_geometry,
};
use hex_terrain::vec::Vec3Fx;

#[test]
fn noise_min_maps_to_range_min() {
    assert_eq!(map_noise_to_range(-FX_ONE, 0, 10 * FX_ONE), 0);
}

#[test]
fn noise_max_maps_to_range_max() {
    assert_eq!(map_noise_to_range(FX_ONE, 0, 10 * FX_ONE), 10 * FX_ONE);
}

#[test]
fn noise_zero_maps_to_midpoint() {
    let result = map_noise_to_range(0, 2 * FX_ONE, 6 * FX_ONE);
    assert!((result - 4 * FX_ONE).abs() < 2);
}

#[test]
fn noise_works_with_negative_range() {
    let result = map_noise_to_range(0, -10 * FX_ONE, 10 * FX_ONE);
    assert!(result.abs() < 2);
}

#[test]
fn ease_at_zero_is_zero() {
    assert_eq!(ease_out_cubic(0), 0);
}

#[test]
fn ease_at_one_is_one() {
    assert_eq!(ease_out_cubic(FX_ONE), FX_ONE);
}

#[test]
fn ease_at_half_is_above_half() {
    // Ease-out should be ahead of linear at the midpoint.
    assert!(ease_out_cubic(FX_ONE / 2) > FX_ONE / 2);
}

#[test]
fn ease_is_monotonically_increasing() {
    let steps: Vec<i64> = (0..=100).map(|i| ease_out_cubic(i * (FX_ONE / 100))).collect();
    for w in steps.windows(2) {
        assert!(w[1] >= w[0], "the easing curve must be non-decreasing");
    }
}

#[test]
fn normal_of_xy_plane_triangle() {
    let zero = Vec3Fx::new(0, 0, 0);
    let x_axis = Vec3Fx::new(FX_ONE, 0, 0);
    let y_axis = Vec3Fx::new(0, FX_ONE, 0);
    let n = compute_normal(zero, x_axis, y_axis);
    // Cross of X and Y is Z.
    assert_eq!(n, Vec3Fx::new(0, 0, FX_ONE));
}

#[test]
fn normal_of_xz_plane_triangle() {
    let zero = Vec3Fx::new(0, 0, 0);
    let x_axis = Vec3Fx::new(FX_ONE, 0, 0);
    let z_axis = Vec3Fx::new(0, 0, FX_ONE);
    let n = compute_normal(zero, x_axis, z_axis);
    // Cross of X and Z is the negative Y axis.
    assert_eq!(n, Vec3Fx::new(0, -FX_ONE, 0));
}

#[test]
fn degenerate_triangle_returns_zero() {
    // Collinear points.
    let zero = Vec3Fx::new(0, 0, 0);
    let n = compute_normal(zero, Vec3Fx::new(FX_ONE, 0, 0), Vec3Fx::new(2 * FX_ONE, 0, 0));
    assert_eq!(n, Vec3Fx::new(0, 0, 0));
}

#[test]
fn at_zero_distance_returns_min_alpha() {
    let b = pole_fade_brightness(0, 40 * FX_ONE, 50_000);
    assert_eq!(b, 50_000);
}

#[test]
fn at_fade_distance_returns_one() {
    let b = pole_fade_brightness(40 * FX_ONE, 40 * FX_ONE, 50_000);
    assert_eq!(b, FX_ONE);
}

#[test]
fn beyond_fade_distance_clamps_to_one() {
    let b = pole_fade_brightness(100 * FX_ONE, 40 * FX_ONE, 50_000);
    assert_eq!(b, FX_ONE);
}

#[test]
fn mid_distance_is_between_min_and_one() {
    let b = pole_fade_brightness(20 * FX_ONE, 40 * FX_ONE, 50_000);
    assert!(b > 50_000 && b < FX_ONE);
}

#[test]
fn small_delta_passes_through() {
    let delta = clamp_pitch(0, 100_000, 50_000);
    assert_eq!(delta, 100_000);
}

#[test]
fn clamps_at_upper_limit() {
    let limit = HALF_PI_FX - 50_000;
    // Already near the limit, trying to push past.
    let delta = clamp_pitch(limit - 10_000, 100_000, 50_000);
    assert_eq!(delta, 10_000, "should clamp to the remaining room");
}

#[test]
fn clamps_at_lower_limit() {
    let limit = -(HALF_PI_FX - 50_000);
    let delta = clamp_pitch(limit + 10_000, -100_000, 50_000);
    assert_eq!(delta, -10_000);
}

#[test]
fn pole_for_elevated_hex() {
    let pg = pole_geometry(FX_ONE, 5 * FX_ONE, 60_000, 50_000).unwrap();
    assert_eq!(pg.radius, 60_000);
    assert_eq!(pg.height, 4_950_000);
    assert_eq!(pg.y_center, 4_950_000 / 2);
}

#[test]
fn pole_at_ground_level_returns_none() {
    assert!(pole_geometry(FX_ONE, 50_000, 60_000, 50_000).is_none());
}

#[test]
fn pole_below_ground_returns_none() {
    assert!(pole_geometry(FX_ONE, -FX_ONE, 60_000, 50_000).is_none());
}
