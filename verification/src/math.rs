//! Pure computation helpers: noise remapping, easing, face normals,
//! pole fading and sizing, pitch clamping.
//!
//! All scalars are fixed-point `i64` values with [`crate::fixed::FX_ONE`]
//! subunits per unit; every function states its exact integer result.

use vstd::prelude::*;

use crate::fixed::{
    FX_ONE, div_trunc, div_trunc_i128, is_sqrt_floor, isqrt_u128, lemma_div_bounds,
    lemma_div_trunc_bound, lemma_mul_bound, lemma_mul_div_exact, lemma_mul_div_range,
    lemma_sqrt_floor_unique, sqrt_floor,
};
use crate::vec::Vec3Fx;

verus! {

/// Largest scalar magnitude the helpers accept, in subunits (a million
/// world units): keeps every intermediate product within `i64`.
pub const SCALAR_MAX: i64 = 1_000_000_000_000;

/// A quarter turn in fixed-point radians.
pub const HALF_PI_FX: i64 = 1_570_796;

/// Largest edge span `compute_normal` accepts on any axis, in subunits:
/// keeps the squared cross-product length within `i128`.
pub const EDGE_SPAN_MAX: i64 = 1_000_000_000;

/// The linear remap of a noise value from `[-FX_ONE, FX_ONE]` into
/// `[min, max]`, as ghost arithmetic.
pub open spec fn map_noise_spec(noise_val: int, min: int, max: int) -> int {
    min + ((noise_val + FX_ONE) / 2) * (max - min) / (FX_ONE as int)
}

/// Maps a noise value from the standard `[-FX_ONE, FX_ONE]` range into
/// `[min, max]`.
///
/// Noise samplers produce values centred around zero.  This linearly
/// rescales to an arbitrary output range.
pub fn map_noise_to_range(noise_val: i64, min: i64, max: i64) -> (r: i64)
    requires
        -FX_ONE <= noise_val <= FX_ONE,
        min <= max,
        -SCALAR_MAX <= min,
        max <= SCALAR_MAX,
    ensures
        r == map_noise_spec(noise_val as int, min as int, max as int),
        min <= r <= max,
{
    let t = (noise_val + FX_ONE) / 2;
    let d = max - min;
    proof {
        lemma_mul_div_range(t as int, d as int, FX_ONE as int);
    }
    min + t * d / FX_ONE
}

/// At the noise extremes the remap hits the range bounds exactly, and a
/// centred noise value maps to the midpoint (stated for ranges of even
/// width, where the midpoint is exact).
pub proof fn lemma_map_noise_boundaries(min: int, max: int)
    requires
        min <= max,
        (max - min) % 2 == 0,
    ensures
        map_noise_spec(-FX_ONE as int, min, max) == min,
        map_noise_spec(FX_ONE as int, min, max) == max,
        map_noise_spec(0, min, max) == (min + max) / 2,
{
    let d = max - min;
    // noise = -FX_ONE: the interpolation factor is zero.
    assert((0int) * d == 0);
    assert(map_noise_spec(-FX_ONE as int, min, max) == min + 0int / (FX_ONE as int));
    // noise = FX_ONE: the factor is FX_ONE, which cancels exactly.
    assert((2 * FX_ONE as int) / 2 == FX_ONE as int) by {
        lemma_mul_div_exact(FX_ONE as int, 2);
    }
    assert(FX_ONE as int * d / (FX_ONE as int) == d) by {
        lemma_mul_div_exact(d, FX_ONE as int);
        assert(FX_ONE as int * d == d * FX_ONE as int) by (nonlinear_arith);
    }
    // noise = 0: the factor is a half; with an even width the midpoint is exact.
    let e = d / 2;
    assert(d == 2 * e);
    assert((FX_ONE as int + 0) / 2 == 500_000int);
    assert(500_000int * d == e * FX_ONE as int) by (nonlinear_arith)
        requires
            d == 2 * e;
    assert(500_000int * d / (FX_ONE as int) == e) by {
        lemma_mul_div_exact(e, FX_ONE as int);
    }
    assert(min + e == (min + max) / 2) by {
        assert(min + max == 2 * (min + e));
        lemma_mul_div_exact(min + e, 2);
        assert(2 * (min + e) == (min + e) * 2);
    }
}

/// The cubic ease-out curve `1 - (1 - t)^3`, as ghost fixed-point
/// arithmetic over `[0, FX_ONE]`.
pub open spec fn ease_out_cubic_spec(t: int) -> int {
    let u = FX_ONE - t;
    FX_ONE - ((u * u / (FX_ONE as int)) * u) / (FX_ONE as int)
}

/// Cubic ease-out curve: fast start, gentle deceleration.
///
/// `t` must be in `[0, FX_ONE]`.  Returns the fixed-point value of
/// `1 - (1 - t)^3`, commonly used for camera animations and reveal effects.
pub fn ease_out_cubic(t: i64) -> (r: i64)
    requires
        0 <= t <= FX_ONE,
    ensures
        r == ease_out_cubic_spec(t as int),
        0 <= r <= FX_ONE,
{
    let u = FX_ONE - t;
    proof {
        lemma_mul_bound(u as int, u as int, FX_ONE as int, FX_ONE as int);
        lemma_mul_div_range(u as int, u as int, FX_ONE as int);
    }
    let u2 = u * u / FX_ONE;
    proof {
        lemma_mul_bound(u2 as int, u as int, FX_ONE as int, FX_ONE as int);
        lemma_mul_div_range(u2 as int, u as int, FX_ONE as int);
    }
    let u3 = u2 * u / FX_ONE;
    FX_ONE - u3
}

/// The cross product of the two edges of a triangle `(v1 - v0, v2 - v0)`,
/// as ghost arithmetic.
pub open spec fn cross_of(v0: Vec3Fx, v1: Vec3Fx, v2: Vec3Fx) -> (int, int, int) {
    let ax = v1.x - v0.x;
    let ay = v1.y - v0.y;
    let az = v1.z - v0.z;
    let bx = v2.x - v0.x;
    let by = v2.y - v0.y;
    let bz = v2.z - v0.z;
    (ay * bz - az * by, az * bx - ax * bz, ax * by - ay * bx)
}

/// The squared length of a ghost 3D vector.
pub open spec fn len_sq_of(v: (int, int, int)) -> int {
    v.0 * v.0 + v.1 * v.1 + v.2 * v.2
}

/// The face normal of a triangle, as ghost arithmetic: the cross product
/// of its edges scaled to fixed-point unit length by the integer square
/// root of its squared length, or zero for a degenerate triangle.
pub open spec fn normal_spec(v0: Vec3Fx, v1: Vec3Fx, v2: Vec3Fx) -> Vec3Fx {
    let c = cross_of(v0, v1, v2);
    if c == (0int, 0int, 0int) {
        Vec3Fx { x: 0, y: 0, z: 0 }
    } else {
        let len = sqrt_floor(len_sq_of(c));
        Vec3Fx {
            x: div_trunc(c.0 * FX_ONE, len) as i64,
            y: div_trunc(c.1 * FX_ONE, len) as i64,
            z: div_trunc(c.2 * FX_ONE, len) as i64,
        }
    }
}

/// Computes the face normal of a triangle defined by three vertices.
///
/// Uses the cross product of edges `(v1 - v0)` and `(v2 - v0)`, scaled to a
/// fixed-point unit vector by the integer square root of its squared length.
/// Returns the zero vector if the triangle is degenerate (collinear points)
/// rather than failing; callers treat a zero normal as "no reliable normal".
pub fn compute_normal(v0: Vec3Fx, v1: Vec3Fx, v2: Vec3Fx) -> (r: Vec3Fx)
    requires
        -EDGE_SPAN_MAX <= v1.x - v0.x <= EDGE_SPAN_MAX,
        -EDGE_SPAN_MAX <= v1.y - v0.y <= EDGE_SPAN_MAX,
        -EDGE_SPAN_MAX <= v1.z - v0.z <= EDGE_SPAN_MAX,
        -EDGE_SPAN_MAX <= v2.x - v0.x <= EDGE_SPAN_MAX,
        -EDGE_SPAN_MAX <= v2.y - v0.y <= EDGE_SPAN_MAX,
        -EDGE_SPAN_MAX <= v2.z - v0.z <= EDGE_SPAN_MAX,
    ensures
        cross_of(v0, v1, v2) == (0int, 0int, 0int) ==> r == (Vec3Fx { x: 0, y: 0, z: 0 }),
        cross_of(v0, v1, v2) != (0int, 0int, 0int) ==> {
            let c = cross_of(v0, v1, v2);
            let len = sqrt_floor(len_sq_of(c));
            r.x == div_trunc(c.0 * FX_ONE, len)
                && r.y == div_trunc(c.1 * FX_ONE, len)
                && r.z == div_trunc(c.2 * FX_ONE, len)
        },
        r == normal_spec(v0, v1, v2),
        -FX_ONE <= r.x <= FX_ONE,
        -FX_ONE <= r.y <= FX_ONE,
        -FX_ONE <= r.z <= FX_ONE,
{
    let ax = (v1.x - v0.x) as i128;
    let ay = (v1.y - v0.y) as i128;
    let az = (v1.z - v0.z) as i128;
    let bx = (v2.x - v0.x) as i128;
    let by = (v2.y - v0.y) as i128;
    let bz = (v2.z - v0.z) as i128;
    proof {
        lemma_mul_bound(ay as int, bz as int, EDGE_SPAN_MAX as int, EDGE_SPAN_MAX as int);
        lemma_mul_bound(az as int, by as int, EDGE_SPAN_MAX as int, EDGE_SPAN_MAX as int);
        lemma_mul_bound(az as int, bx as int, EDGE_SPAN_MAX as int, EDGE_SPAN_MAX as int);
        lemma_mul_bound(ax as int, bz as int, EDGE_SPAN_MAX as int, EDGE_SPAN_MAX as int);
        lemma_mul_bound(ax as int, by as int, EDGE_SPAN_MAX as int, EDGE_SPAN_MAX as int);
        lemma_mul_bound(ay as int, bx as int, EDGE_SPAN_MAX as int, EDGE_SPAN_MAX as int);
    }
    let cx = ay * bz - az * by;
    let cy = az * bx - ax * bz;
    let cz = ax * by - ay * bx;
    if cx == 0 && cy == 0 && cz == 0 {
        return Vec3Fx { x: 0, y: 0, z: 0 };
    }
    proof {
        let big: int = 2_000_000_000_000_000_000;
        lemma_mul_bound(cx as int, cx as int, big, big);
        lemma_mul_bound(cy as int, cy as int, big, big);
        lemma_mul_bound(cz as int, cz as int, big, big);
    }
    let len_sq = cx * cx + cy * cy + cz * cz;
    proof {
        assert(len_sq > 0) by (nonlinear_arith)
            requires
                len_sq == cx * cx + cy * cy + cz * cz,
                !(cx == 0 && cy == 0 && cz == 0);
    }
    let len_u = isqrt_u128(len_sq as u128);
    let len = len_u as i128;
    proof {
        assert(len_sq as u128 as int == len_sq as int);
        assert(is_sqrt_floor(len_sq as int, len as int));
        assert(len >= 1) by (nonlinear_arith)
            requires
                0 <= len as int,
                (len_sq as int) < ((len as int) + 1) * ((len as int) + 1),
                len_sq as int > 0;
        // Each component of a vector is bounded by the vector's length.
        assert(cx * cx <= len_sq && cy * cy <= len_sq && cz * cz <= len_sq)
            by (nonlinear_arith)
            requires
                len_sq == cx * cx + cy * cy + cz * cz;
        assert(-(len as int) <= cx <= len as int) by (nonlinear_arith)
            requires
                cx * cx <= len_sq,
                is_sqrt_floor(len_sq as int, len as int);
        assert(-(len as int) <= cy <= len as int) by (nonlinear_arith)
            requires
                cy * cy <= len_sq,
                is_sqrt_floor(len_sq as int, len as int);
        assert(-(len as int) <= cz <= len as int) by (nonlinear_arith)
            requires
                cz * cz <= len_sq,
                is_sqrt_floor(len_sq as int, len as int);
        assert(-(len * FX_ONE as int) <= cx * FX_ONE as int <= len * FX_ONE as int)
            by (nonlinear_arith)
            requires
                -len <= cx <= len,
                len >= 1;
        assert(-(len * FX_ONE as int) <= cy * FX_ONE as int <= len * FX_ONE as int)
            by (nonlinear_arith)
            requires
                -len <= cy <= len,
                len >= 1;
        assert(-(len * FX_ONE as int) <= cz * FX_ONE as int <= len * FX_ONE as int)
            by (nonlinear_arith)
            requires
                -len <= cz <= len,
                len >= 1;
        lemma_div_trunc_bound(cx as int * FX_ONE as int, len as int, FX_ONE as int);
        lemma_div_trunc_bound(cy as int * FX_ONE as int, len as int, FX_ONE as int);
        lemma_div_trunc_bound(cz as int * FX_ONE as int, len as int, FX_ONE as int);
        lemma_sqrt_floor_unique(len_sq as int, len as int, sqrt_floor(len_sq as int));
    }
    let nx = div_trunc_i128(cx * (FX_ONE as i128), len);
    let ny = div_trunc_i128(cy * (FX_ONE as i128), len);
    let nz = div_trunc_i128(cz * (FX_ONE as i128), len);
    Vec3Fx { x: nx as i64, y: ny as i64, z: nz as i64 }
}

/// The pole brightness curve, as ghost arithmetic: the clamped fraction
/// `distance / fade_distance` interpolated from `min_alpha` up to one.
pub open spec fn pole_fade_spec(distance: int, fade_distance: int, min_alpha: int) -> int {
    let t_raw = distance * FX_ONE / fade_distance;
    let t = if t_raw > FX_ONE { FX_ONE as int } else { t_raw };
    min_alpha + t * (FX_ONE - min_alpha) / (FX_ONE as int)
}

/// Brightness multiplier for height-indicator poles based on camera distance.
///
/// Returns a value in `[min_alpha, FX_ONE]`:
/// - at `distance = 0` the pole is dimmest (`min_alpha`);
/// - at `distance >= fade_distance` the pole is fully bright (`FX_ONE`).
///
/// The intent is to fade poles that are directly under the camera so they
/// do not obscure the terrain.
pub fn pole_fade_brightness(distance: i64, fade_distance: i64, min_alpha: i64) -> (r: i64)
    requires
        0 <= distance <= SCALAR_MAX,
        0 < fade_distance <= SCALAR_MAX,
        0 <= min_alpha <= FX_ONE,
    ensures
        r == pole_fade_spec(distance as int, fade_distance as int, min_alpha as int),
        min_alpha <= r <= FX_ONE,
{
    let t_raw = distance * FX_ONE / fade_distance;
    proof {
        lemma_div_bounds(distance as int * FX_ONE as int, fade_distance as int);
        assert(distance as int * FX_ONE as int >= 0) by (nonlinear_arith)
            requires
                distance as int >= 0;
        assert(distance as int * FX_ONE as int <= 0x7fff_ffff_ffff_ffff) by (nonlinear_arith)
            requires
                0 <= distance as int <= SCALAR_MAX as int;
    }
    let t = if t_raw > FX_ONE { FX_ONE } else { t_raw };
    proof {
        lemma_mul_div_range(t as int, FX_ONE as int - min_alpha as int, FX_ONE as int);
    }
    min_alpha + t * (FX_ONE - min_alpha) / FX_ONE
}

/// The clamp of `v` into `[lo, hi]`, as ghost arithmetic.
pub open spec fn clamp_spec(v: int, lo: int, hi: int) -> int {
    if v < lo {
        lo
    } else if v > hi {
        hi
    } else {
        v
    }
}

/// Clamps a pitch angle so the camera cannot flip past vertical.
///
/// `current` is the existing pitch in fixed-point radians, `delta` the
/// desired change.  The sum is clamped to
/// `[-(HALF_PI_FX - margin), HALF_PI_FX - margin]` and the *effective*
/// delta is returned (how much to actually rotate).
pub fn clamp_pitch(current: i64, delta: i64, margin: i64) -> (r: i64)
    requires
        0 <= margin <= HALF_PI_FX,
        -SCALAR_MAX <= current <= SCALAR_MAX,
        -SCALAR_MAX <= delta <= SCALAR_MAX,
    ensures
        current + r == clamp_spec(
            current + delta,
            -(HALF_PI_FX - margin) as int,
            (HALF_PI_FX - margin) as int,
        ),
{
    let limit = HALF_PI_FX - margin;
    let sum = current + delta;
    let clamped = if sum < -limit {
        -limit
    } else if sum > limit {
        limit
    } else {
        sum
    };
    clamped - current
}

/// Geometry parameters for a height-indicator pole.
#[derive(Clone, Copy, PartialEq, Eq, Structural, Debug)]
pub struct PoleGeometry {
    /// World-space radius of the cylinder, in subunits.
    pub radius: i64,
    /// Total height of the cylinder, in subunits.
    pub height: i64,
    /// Height of the cylinder centre (half the height), in subunits.
    pub y_center: i64,
}

/// Computes pole cylinder dimensions from a hex's visual radius and face
/// height.
///
/// Returns `None` exactly when the face sits at or below ground level once
/// the `gap` is subtracted (no pole needed).  `radius_factor` controls how
/// thick the pole is relative to the hex, and `gap` leaves a small space
/// between pole top and hex face.
pub fn pole_geometry(hex_radius: i64, face_height: i64, radius_factor: i64, gap: i64) -> (r:
    Option<PoleGeometry>)
    requires
        0 <= hex_radius <= SCALAR_MAX,
        -SCALAR_MAX <= face_height <= SCALAR_MAX,
        0 <= radius_factor <= FX_ONE,
        0 <= gap <= SCALAR_MAX,
    ensures
        (face_height - gap <= 0) <==> r is None,
        r matches Some(pg) ==> {
            &&& pg.height == face_height - gap
            &&& pg.radius == hex_radius * radius_factor / (FX_ONE as int)
            &&& pg.y_center == pg.height as int / 2
            &&& pg.height > 0
            &&& 0 <= pg.radius <= hex_radius
        },
{
    let pole_height = face_height - gap;
    if pole_height <= 0 {
        return None;
    }
    proof {
        lemma_mul_div_range(radius_factor as int, hex_radius as int, FX_ONE as int);
        assert(hex_radius as int * radius_factor as int == radius_factor as int
            * hex_radius as int) by (nonlinear_arith);
    }
    Some(
        PoleGeometry {
            radius: hex_radius * radius_factor / FX_ONE,
            height: pole_height,
            y_center: pole_height / 2,
        },
    )
}

} // verus!
