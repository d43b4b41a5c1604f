//! Pure mesh construction: gap-fill quad and triangle faces, and thin
//! edge-line descriptors, from world-space vertex positions.

use vstd::prelude::*;

use crate::fixed::div_trunc;
use crate::math::{EDGE_SPAN_MAX, compute_normal, normal_spec};
use crate::vec::{Vec2Fx, Vec3Fx};

verus! {

/// Squared length below which an edge line is degenerate and skipped, in
/// squared subunits (a thousandth of a unit, squared).
pub const EDGE_MIN_LEN_SQ: i128 = 1_000_000;

/// Triangle-list mesh data: one position, normal and texture coordinate
/// per vertex, plus triangle indices.
pub struct MeshData {
    /// Vertex positions, in subunits.
    pub positions: Vec<Vec3Fx>,
    /// Per-vertex normals (all equal to the face normal), fixed point.
    pub normals: Vec<Vec3Fx>,
    /// Per-vertex texture coordinates, fixed point.
    pub uvs: Vec<Vec2Fx>,
    /// Triangle corner indices.
    pub indices: Vec<u16>,
}

/// Whether all vertices span at most the normal-computation range from the
/// first.
pub open spec fn spans_ok(v0: Vec3Fx, v1: Vec3Fx) -> bool {
    &&& -EDGE_SPAN_MAX <= v1.x - v0.x <= EDGE_SPAN_MAX
    &&& -EDGE_SPAN_MAX <= v1.y - v0.y <= EDGE_SPAN_MAX
    &&& -EDGE_SPAN_MAX <= v1.z - v0.z <= EDGE_SPAN_MAX
}

/// Builds a quad face of two triangles `(v0, v1, v2)` and `(v0, v2, v3)`,
/// sharing one flat normal computed from the first triangle, with fixed
/// corner texture coordinates.
pub fn build_quad_face(v0: Vec3Fx, v1: Vec3Fx, v2: Vec3Fx, v3: Vec3Fx) -> (r: MeshData)
    requires
        spans_ok(v0, v1),
        spans_ok(v0, v2),
    ensures
        r.positions@ == seq![v0, v1, v2, v3],
        r.normals@ == seq![
            normal_spec(v0, v1, v2),
            normal_spec(v0, v1, v2),
            normal_spec(v0, v1, v2),
            normal_spec(v0, v1, v2),
        ],
        r.uvs@ == seq![
            Vec2Fx { x: 0, y: 0 },
            Vec2Fx { x: 1_000_000, y: 0 },
            Vec2Fx { x: 1_000_000, y: 1_000_000 },
            Vec2Fx { x: 0, y: 1_000_000 },
        ],
        r.indices@ == seq![0u16, 1u16, 2u16, 0u16, 2u16, 3u16],
{
    let normal = compute_normal(v0, v1, v2);
    let mut positions: Vec<Vec3Fx> = Vec::new();
    positions.push(v0);
    positions.push(v1);
    positions.push(v2);
    positions.push(v3);
    let mut normals: Vec<Vec3Fx> = Vec::new();
    normals.push(normal);
    normals.push(normal);
    normals.push(normal);
    normals.push(normal);
    let mut uvs: Vec<Vec2Fx> = Vec::new();
    uvs.push(Vec2Fx { x: 0, y: 0 });
    uvs.push(Vec2Fx { x: 1_000_000, y: 0 });
    uvs.push(Vec2Fx { x: 1_000_000, y: 1_000_000 });
    uvs.push(Vec2Fx { x: 0, y: 1_000_000 });
    let mut indices: Vec<u16> = Vec::new();
    indices.push(0);
    indices.push(1);
    indices.push(2);
    indices.push(0);
    indices.push(2);
    indices.push(3);
    proof {
        assert(positions@ =~= seq![v0, v1, v2, v3]);
        assert(normals@ =~= seq![normal, normal, normal, normal]);
        assert(uvs@ =~= seq![
            Vec2Fx { x: 0, y: 0 },
            Vec2Fx { x: 1_000_000, y: 0 },
            Vec2Fx { x: 1_000_000, y: 1_000_000 },
            Vec2Fx { x: 0, y: 1_000_000 },
        ]);
        assert(indices@ =~= seq![0u16, 1u16, 2u16, 0u16, 2u16, 3u16]);
    }
    MeshData { positions, normals, uvs, indices }
}

/// Builds a single-triangle face with a flat normal and fixed texture
/// coordinates.
pub fn build_tri_face(v0: Vec3Fx, v1: Vec3Fx, v2: Vec3Fx) -> (r: MeshData)
    requires
        spans_ok(v0, v1),
        spans_ok(v0, v2),
    ensures
        r.positions@ == seq![v0, v1, v2],
        r.normals@ == seq![
            normal_spec(v0, v1, v2),
            normal_spec(v0, v1, v2),
            normal_spec(v0, v1, v2),
        ],
        r.uvs@ == seq![
            Vec2Fx { x: 0, y: 0 },
            Vec2Fx { x: 1_000_000, y: 0 },
            Vec2Fx { x: 500_000, y: 1_000_000 },
        ],
        r.indices@ == seq![0u16, 1u16, 2u16],
{
    let normal = compute_normal(v0, v1, v2);
    let mut positions: Vec<Vec3Fx> = Vec::new();
    positions.push(v0);
    positions.push(v1);
    positions.push(v2);
    let mut normals: Vec<Vec3Fx> = Vec::new();
    normals.push(normal);
    normals.push(normal);
    normals.push(normal);
    let mut uvs: Vec<Vec2Fx> = Vec::new();
    uvs.push(Vec2Fx { x: 0, y: 0 });
    uvs.push(Vec2Fx { x: 1_000_000, y: 0 });
    uvs.push(Vec2Fx { x: 500_000, y: 1_000_000 });
    let mut indices: Vec<u16> = Vec::new();
    indices.push(0);
    indices.push(1);
    indices.push(2);
    proof {
        assert(positions@ =~= seq![v0, v1, v2]);
        assert(normals@ =~= seq![normal, normal, normal]);
        assert(uvs@ =~= seq![
            Vec2Fx { x: 0, y: 0 },
            Vec2Fx { x: 1_000_000, y: 0 },
            Vec2Fx { x: 500_000, y: 1_000_000 },
        ]);
        assert(indices@ =~= seq![0u16, 1u16, 2u16]);
    }
    MeshData { positions, normals, uvs, indices }
}

/// A thin box stretched between two points: the renderer derives the box
/// length and the rotation mapping its long axis onto the segment from the
/// two endpoints.
#[derive(Clone, Copy, PartialEq, Eq, Structural, Debug)]
pub struct EdgeLine {
    /// Segment start, in subunits.
    pub from: Vec3Fx,
    /// Segment end, in subunits.
    pub to: Vec3Fx,
    /// Segment midpoint (componentwise, rounded toward zero), in subunits.
    pub midpoint: Vec3Fx,
    /// Box thickness on the two short axes, in subunits.
    pub thickness: i64,
}

/// The squared length of the segment between two points, as ghost
/// arithmetic.
pub open spec fn segment_len_sq(from: Vec3Fx, to: Vec3Fx) -> int {
    (to.x - from.x) * (to.x - from.x) + (to.y - from.y) * (to.y - from.y) + (to.z - from.z) * (
    to.z - from.z)
}

/// Whether a position is within the world-coordinate range of the mesh
/// builders, in subunits.
pub open spec fn coords_ok(v: Vec3Fx) -> bool {
    &&& -1_000_000_000_000_000 <= v.x <= 1_000_000_000_000_000
    &&& -1_000_000_000_000_000 <= v.y <= 1_000_000_000_000_000
    &&& -1_000_000_000_000_000 <= v.z <= 1_000_000_000_000_000
}

/// Builds the edge-line descriptor connecting two points, or `None`
/// exactly when the segment is shorter than a thousandth of a unit: a
/// zero-length edge is silently omitted, not an error.
pub fn build_edge_line(from: Vec3Fx, to: Vec3Fx, thickness: i64) -> (r: Option<EdgeLine>)
    requires
        spans_ok(from, to),
        coords_ok(from),
        coords_ok(to),
        0 < thickness,
    ensures
        r is Some <==> segment_len_sq(from, to) >= EDGE_MIN_LEN_SQ,
        r matches Some(e) ==> {
            &&& e.from == from
            &&& e.to == to
            &&& e.thickness == thickness
            &&& e.midpoint.x == div_trunc(from.x + to.x, 2)
            &&& e.midpoint.y == div_trunc(from.y + to.y, 2)
            &&& e.midpoint.z == div_trunc(from.z + to.z, 2)
        },
{
    let dx = (to.x as i128) - (from.x as i128);
    let dy = (to.y as i128) - (from.y as i128);
    let dz = (to.z as i128) - (from.z as i128);
    proof {
        crate::fixed::lemma_mul_bound(dx as int, dx as int, 1_000_000_000, 1_000_000_000);
        crate::fixed::lemma_mul_bound(dy as int, dy as int, 1_000_000_000, 1_000_000_000);
        crate::fixed::lemma_mul_bound(dz as int, dz as int, 1_000_000_000, 1_000_000_000);
    }
    let len_sq = dx * dx + dy * dy + dz * dz;
    if len_sq < EDGE_MIN_LEN_SQ {
        return None;
    }
    let mx = crate::fixed::div_trunc_i128((from.x as i128) + (to.x as i128), 2);
    let my = crate::fixed::div_trunc_i128((from.y as i128) + (to.y as i128), 2);
    let mz = crate::fixed::div_trunc_i128((from.z as i128) + (to.z as i128), 2);
    proof {
        assert(2int * 2_000_000_000_000_000 == 4_000_000_000_000_000int) by (nonlinear_arith);
        crate::fixed::lemma_div_trunc_bound(from.x as int + to.x as int, 2,
            2_000_000_000_000_000);
        crate::fixed::lemma_div_trunc_bound(from.y as int + to.y as int, 2,
            2_000_000_000_000_000);
        crate::fixed::lemma_div_trunc_bound(from.z as int + to.z as int, 2,
            2_000_000_000_000_000);
    }
    Some(
        EdgeLine {
            from,
            to,
            midpoint: Vec3Fx { x: mx as i64, y: my as i64, z: mz as i64 },
            thickness,
        },
    )
}

} // verus!
