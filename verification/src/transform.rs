//! Scene-node transforms: translation and per-axis scale, composed the way
//! a retained scene graph composes parent and child nodes.

use vstd::prelude::*;

use crate::fixed::{FX_ONE, div_trunc, div_trunc_i128};
use crate::vec::Vec3Fx;

verus! {

/// Largest translation magnitude `mul_transform` accepts, in subunits.
pub const TRANSLATION_MAX: i64 = 60_000_000_000_000_000;

/// Largest scale magnitude `mul_transform` accepts, in fixed-point units.
pub const SCALE_FX_MAX: i64 = 100_000_000;

/// A scene-node transform: translate and scale per axis (no rotation is
/// needed for terrain nodes; edge-line rotations live in the mesh
/// descriptors).
#[derive(Clone, Copy, PartialEq, Eq, Structural, Debug)]
pub struct Transform {
    /// World-space offset, in subunits.
    pub translation: Vec3Fx,
    /// Per-axis scale, in fixed-point units (`FX_ONE` is one).
    pub scale: Vec3Fx,
}

/// One axis of transform composition: the parent's translation plus the
/// child's translation scaled by the parent.
pub open spec fn compose_translation(pt: int, ps: int, ct: int) -> int {
    pt + div_trunc(ps * ct, FX_ONE as int)
}

/// One axis of scale composition: the product of the scales.
pub open spec fn compose_scale(ps: int, cs: int) -> int {
    div_trunc(ps * cs, FX_ONE as int)
}

/// The composition of a parent and a child transform, as ghost
/// arithmetic: the transform that applies the child, then the parent.
pub open spec fn mul_transform_spec(p: Transform, c: Transform) -> Transform {
    Transform {
        translation: Vec3Fx {
            x: compose_translation(p.translation.x as int, p.scale.x as int, c.translation.x as int) as i64,
            y: compose_translation(p.translation.y as int, p.scale.y as int, c.translation.y as int) as i64,
            z: compose_translation(p.translation.z as int, p.scale.z as int, c.translation.z as int) as i64,
        },
        scale: Vec3Fx {
            x: compose_scale(p.scale.x as int, c.scale.x as int) as i64,
            y: compose_scale(p.scale.y as int, c.scale.y as int) as i64,
            z: compose_scale(p.scale.z as int, c.scale.z as int) as i64,
        },
    }
}

impl Transform {
    /// The identity transform: no offset, unit scale.
    pub fn identity() -> (r: Transform)
        ensures
            r == (Transform {
                translation: Vec3Fx { x: 0, y: 0, z: 0 },
                scale: Vec3Fx { x: FX_ONE, y: FX_ONE, z: FX_ONE },
            }),
    {
        Transform {
            translation: Vec3Fx { x: 0, y: 0, z: 0 },
            scale: Vec3Fx { x: FX_ONE, y: FX_ONE, z: FX_ONE },
        }
    }

    /// Whether all components are within the composition ranges.
    pub open spec fn in_bounds(self) -> bool {
        &&& -TRANSLATION_MAX <= self.translation.x <= TRANSLATION_MAX
        &&& -TRANSLATION_MAX <= self.translation.y <= TRANSLATION_MAX
        &&& -TRANSLATION_MAX <= self.translation.z <= TRANSLATION_MAX
        &&& -SCALE_FX_MAX <= self.scale.x <= SCALE_FX_MAX
        &&& -SCALE_FX_MAX <= self.scale.y <= SCALE_FX_MAX
        &&& -SCALE_FX_MAX <= self.scale.z <= SCALE_FX_MAX
    }

    /// Composes `self` (the parent) with `child`: the returned transform
    /// applies the child's placement inside the parent's frame.
    pub fn mul_transform(&self, child: &Transform) -> (r: Transform)
        requires
            self.in_bounds(),
            child.in_bounds(),
        ensures
            r == mul_transform_spec(*self, *child),
    {
        let tx = compose_translation_axis(self.translation.x, self.scale.x, child.translation.x);
        let ty = compose_translation_axis(self.translation.y, self.scale.y, child.translation.y);
        let tz = compose_translation_axis(self.translation.z, self.scale.z, child.translation.z);
        let sx = compose_scale_axis(self.scale.x, child.scale.x);
        let sy = compose_scale_axis(self.scale.y, child.scale.y);
        let sz = compose_scale_axis(self.scale.z, child.scale.z);
        Transform {
            translation: Vec3Fx { x: tx, y: ty, z: tz },
            scale: Vec3Fx { x: sx, y: sy, z: sz },
        }
    }
}

/// One axis of translation composition.
fn compose_translation_axis(pt: i64, ps: i64, ct: i64) -> (r: i64)
    requires
        -TRANSLATION_MAX <= pt <= TRANSLATION_MAX,
        -SCALE_FX_MAX <= ps <= SCALE_FX_MAX,
        -TRANSLATION_MAX <= ct <= TRANSLATION_MAX,
    ensures
        r == compose_translation(pt as int, ps as int, ct as int),
{
    proof {
        crate::fixed::lemma_mul_bound(ps as int, ct as int, SCALE_FX_MAX as int,
            TRANSLATION_MAX as int);
        assert(100_000_000int * 60_000_000_000_000_000int
            == 6_000_000_000_000_000_000_000_000int) by (nonlinear_arith);
        assert(1_000_000int * 6_000_000_000_000_000_000int
            == 6_000_000_000_000_000_000_000_000int) by (nonlinear_arith);
        crate::fixed::lemma_div_trunc_bound(ps as int * ct as int, FX_ONE as int,
            6_000_000_000_000_000_000int);
    }
    let scaled = div_trunc_i128((ps as i128) * (ct as i128), FX_ONE as i128);
    pt + (scaled as i64)
}

/// One axis of scale composition.
fn compose_scale_axis(ps: i64, cs: i64) -> (r: i64)
    requires
        -SCALE_FX_MAX <= ps <= SCALE_FX_MAX,
        -SCALE_FX_MAX <= cs <= SCALE_FX_MAX,
    ensures
        r == compose_scale(ps as int, cs as int),
{
    proof {
        crate::fixed::lemma_mul_bound(ps as int, cs as int, SCALE_FX_MAX as int,
            SCALE_FX_MAX as int);
        assert(100_000_000int * 100_000_000int == 10_000_000_000_000_000int)
            by (nonlinear_arith);
        assert(1_000_000int * 10_000_000_000int == 10_000_000_000_000_000int)
            by (nonlinear_arith);
        crate::fixed::lemma_div_trunc_bound(ps as int * cs as int, FX_ONE as int,
            10_000_000_000int);
    }
    let scaled = div_trunc_i128((ps as i128) * (cs as i128), FX_ONE as i128);
    scaled as i64
}

} // verus!
