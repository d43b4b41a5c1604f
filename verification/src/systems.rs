//! Runtime systems: viewpoint grounding and cell tracking, and the
//! progressive petal reveal around the moving viewpoint.

use vstd::prelude::*;

use crate::entities::{CameraCell, DrawnCells, HexEntities, HexGrid, QuadPetal, TriPetal};
use crate::hex::{
    GridVertex, Hex, hexagon_region, junction_coords, lemma_label_inverse,
    lemma_offset_index_bounds, lemma_offset_index_injective, lemma_region_size_bound,
    neighbor_spec, offset_index, region_cell_at, region_contains, region_size, same_junction,
};
use crate::layout::WORLD_POS_MAX;
use crate::scene::{NodeKind, SceneGraph};
use crate::terrain::{HEIGHT_LIMIT, TerrainConfig};
use crate::terrain_hex_layout::{INVERSE_RADIUS_MIN, SNAP_D2};
use crate::transform::Transform;
use crate::vec::Vec2Fx;

verus! {

/// Updates the cell tracker from the viewpoint's ground position: on a
/// transition into a new cell (or on the very first update) the previous
/// cell is recorded and the change flag raised for exactly this update;
/// otherwise the flag is lowered.
pub fn track_active_hex(grid: &HexGrid, cell: &mut CameraCell, pos: Vec2Fx)
    requires
        grid.terrain.wf(),
        -WORLD_POS_MAX <= pos.x <= WORLD_POS_MAX,
        -WORLD_POS_MAX <= pos.y <= WORLD_POS_MAX,
    ensures
        ({
            let new_hex = grid.terrain.layout_spec().world_to_hex_spec(
                pos.x as int,
                pos.y as int,
            );
            if new_hex != old(cell).current || old(cell).previous is None {
                *final(cell) == (CameraCell {
                    current: new_hex,
                    previous: Some(old(cell).current),
                    changed: true,
                })
            } else {
                *final(cell) == (CameraCell {
                    current: old(cell).current,
                    previous: old(cell).previous,
                    changed: false,
                })
            }
        }),
{
    let new_hex = grid.terrain.world_pos_to_hex(pos);
    let first_update = previous_is_none(&cell.previous);
    if new_hex.x != cell.current.x || new_hex.y != cell.current.y || first_update {
        cell.previous = Some(cell.current);
        cell.current = new_hex;
        cell.changed = true;
    } else {
        cell.changed = false;
    }
}

/// Whether an optional cell is absent.
fn previous_is_none(v: &Option<Hex>) -> (r: bool)
    ensures
        r == (*v is None),
{
    match v {
        Some(_) => false,
        None => true,
    }
}

/// Inverse-distance-weighted height interpolation from nearby hex
/// vertices (the free-function form over the grid wrapper).
pub fn interpolate_height(grid: &HexGrid, pos: Vec2Fx) -> (r: i64)
    requires
        grid.terrain.wf(),
        -WORLD_POS_MAX <= pos.x <= WORLD_POS_MAX,
        -WORLD_POS_MAX <= pos.y <= WORLD_POS_MAX,
    ensures
        grid.terrain.any_snap(pos.x as int, pos.y as int) ==> exists|t: int|
            0 <= t < 42 && #[trigger] grid.terrain.cand_valid(pos.x as int, pos.y as int, t)
                && grid.terrain.cand_d2(pos.x as int, pos.y as int, t) < SNAP_D2 && r
                == grid.terrain.cand_vertex(pos.x as int, pos.y as int, t).y,
        !grid.terrain.any_snap(pos.x as int, pos.y as int) && grid.terrain.idw_den(
            pos.x as int,
            pos.y as int,
            42,
        ) > 0 ==> r == crate::fixed::div_trunc(
            grid.terrain.idw_num(pos.x as int, pos.y as int, 42),
            grid.terrain.idw_den(pos.x as int, pos.y as int, 42),
        ),
        !grid.terrain.any_snap(pos.x as int, pos.y as int) && grid.terrain.idw_den(
            pos.x as int,
            pos.y as int,
            42,
        ) == 0 ==> r == if grid.terrain.contains_spec(
            grid.terrain.query_center(pos.x as int, pos.y as int),
        ) {
            grid.terrain.height_spec(grid.terrain.query_center(pos.x as int, pos.y as int))
        } else {
            0
        },
        -HEIGHT_LIMIT <= r <= HEIGHT_LIMIT,
        (forall|h: Hex| #[trigger] grid.terrain.contains_spec(h) ==> grid.terrain.height_spec(h)
            >= 0) ==> r >= 0,
{
    grid.terrain.interpolate_height(pos)
}

/// Sets the viewpoint's vertical position: the interpolated terrain height
/// below it plus its user-controlled altitude offset.
pub fn update_player_height(grid: &HexGrid, pos: Vec2Fx, altitude: i64) -> (r: i64)
    requires
        grid.terrain.wf(),
        -WORLD_POS_MAX <= pos.x <= WORLD_POS_MAX,
        -WORLD_POS_MAX <= pos.y <= WORLD_POS_MAX,
        -1_000_000_000_000 <= altitude <= 1_000_000_000_000,
    ensures
        grid.terrain.any_snap(pos.x as int, pos.y as int) ==> exists|t: int|
            0 <= t < 42 && #[trigger] grid.terrain.cand_valid(pos.x as int, pos.y as int, t)
                && grid.terrain.cand_d2(pos.x as int, pos.y as int, t) < SNAP_D2 && r
                == grid.terrain.cand_vertex(pos.x as int, pos.y as int, t).y + altitude,
        !grid.terrain.any_snap(pos.x as int, pos.y as int) && grid.terrain.idw_den(
            pos.x as int,
            pos.y as int,
            42,
        ) > 0 ==> r == crate::fixed::div_trunc(
            grid.terrain.idw_num(pos.x as int, pos.y as int, 42),
            grid.terrain.idw_den(pos.x as int, pos.y as int, 42),
        ) + altitude,
        !grid.terrain.any_snap(pos.x as int, pos.y as int) && grid.terrain.idw_den(
            pos.x as int,
            pos.y as int,
            42,
        ) == 0 ==> r == (if grid.terrain.contains_spec(
            grid.terrain.query_center(pos.x as int, pos.y as int),
        ) {
            grid.terrain.height_spec(grid.terrain.query_center(pos.x as int, pos.y as int))
        } else {
            0
        }) + altitude,
{
    let ground = grid.terrain.interpolate_height(pos);
    ground + altitude
}


/// Whether the grid, the cell-to-node lookup and the scene are consistent
/// for petal spawning: the lookup covers the grid's region with valid node
/// handles, and every stored cell has a non-negative height and a visual
/// radius large enough to invert.
pub open spec fn reveal_ready(grid: HexGrid, entities: HexEntities, scene: SceneGraph) -> bool {
    &&& grid.terrain.wf()
    &&& entities.wf()
    &&& grid.terrain.center_spec() == (Hex { x: 0, y: 0 })
    &&& grid.terrain.radius_spec() == entities.radius as int
    &&& scene.wf()
    &&& forall|i: int|
        0 <= i < entities.map@.len() ==> #[trigger] entities.map@[i] < scene.nodes@.len()
    &&& forall|h: Hex|
        #[trigger] grid.terrain.contains_spec(h) ==> 0 <= grid.terrain.height_spec(h)
            && INVERSE_RADIUS_MIN <= grid.terrain.radius_of_spec(h)
}

/// Whether node `p` of the scene is the quad petal of cell `hex` across
/// edge `k`: keyed by the owner and the even edge index, referencing the
/// neighbour's face node, placed by the owner's inverse transform under the
/// owner's face node.
pub open spec fn quad_petal_at(
    scene: SceneGraph,
    grid: HexGrid,
    entities: HexEntities,
    hex: Hex,
    k: u8,
    owner: usize,
    p: int,
) -> bool {
    &&& 0 <= p < scene.nodes@.len()
    &&& scene.nodes@[p].kind == NodeKind::Quad(
        QuadPetal {
            edge_index: k,
            neighbor_disc: entities.node_spec(neighbor_spec(hex, k as int)) as usize,
        },
    )
    &&& scene.nodes@[p].transform == grid.terrain.inverse_transform_spec(hex)
    &&& scene.nodes@[p].parent == Some(owner)
}

/// Whether node `p` of the scene is the triangle petal of cell `hex` at
/// corner `k`: keyed by the owner and the vertex index, referencing the
/// other two faces at the junction.
pub open spec fn tri_petal_at(
    scene: SceneGraph,
    grid: HexGrid,
    entities: HexEntities,
    hex: Hex,
    k: u8,
    owner: usize,
    p: int,
) -> bool {
    let coords = junction_coords(GridVertex { origin: hex, direction: k });
    &&& 0 <= p < scene.nodes@.len()
    &&& scene.nodes@[p].kind matches NodeKind::Tri(t) && t.vertex_index == k
        && t.neighbor_discs == (
        entities.node_spec(coords.1) as usize,
        entities.node_spec(coords.2) as usize,
    )
    &&& scene.nodes@[p].transform == grid.terrain.inverse_transform_spec(hex)
    &&& scene.nodes@[p].parent == Some(owner)
}

/// Spawns the gap quad between `hex` and its neighbour across edge
/// `edge_index`, with its two perimeter edge lines, two cross-gap edge
/// lines and one quad face as children, all parented under the owner face
/// through the owner's inverse transform.  Returns `None`, spawning
/// nothing, exactly when the neighbour cell does not exist (the
/// grid-boundary guard).
pub fn spawn_quad_leaf(
    scene: &mut SceneGraph,
    grid: &HexGrid,
    entities: &HexEntities,
    cfg: &TerrainConfig,
    hex: Hex,
    edge_index: u8,
    owner: usize,
    inverse_tf: Transform,
) -> (r: Option<usize>)
    requires
        reveal_ready(*grid, *entities, *old(scene)),
        cfg.wf(),
        grid.terrain.contains_spec(hex),
        edge_index < 6,
        owner < old(scene).nodes@.len(),
        inverse_tf == grid.terrain.inverse_transform_spec(hex),
        inverse_tf.in_bounds(),
        old(scene).nodes@.len() + 8 < usize::MAX,
    ensures
        final(scene).wf(),
        old(scene).nodes@.len() <= final(scene).nodes@.len() <= old(scene).nodes@.len() + 6,
        forall|j: int|
            0 <= j < old(scene).nodes@.len() ==> #[trigger] final(scene).nodes@[j] == old(
                scene,
            ).nodes@[j],
        r is Some <==> grid.terrain.contains_spec(neighbor_spec(hex, edge_index as int)),
        r matches Some(p) ==> old(scene).nodes@.len() <= p && quad_petal_at(
            *final(scene),
            *grid,
            *entities,
            hex,
            edge_index,
            owner,
            p as int,
        ),
        r is None ==> final(scene).nodes@ == old(scene).nodes@,
{
    proof {
        grid.terrain.lemma_contained_in_range(hex);
    }
    let neighbor = hex.neighbor(edge_index);
    let neighbor_entity = match entities.get(&grid.terrain, neighbor) {
        Some(e) => e,
        None => {
            return None;
        },
    };
    let v0_idx = edge_index;
    let v1_idx = (edge_index + 1) % 6;
    let n0_idx = (edge_index + 4) % 6;
    let n1_idx = (edge_index + 3) % 6;
    proof {
        grid.terrain.lemma_contained_in_range(neighbor);
        grid.terrain.lemma_vertex_coord_bounds(hex, v0_idx as int);
        grid.terrain.lemma_vertex_coord_bounds(hex, v1_idx as int);
        grid.terrain.lemma_vertex_coord_bounds(neighbor, n0_idx as int);
        grid.terrain.lemma_vertex_coord_bounds(neighbor, n1_idx as int);
        grid.terrain.lemma_height_bounds(hex);
        grid.terrain.lemma_height_bounds(neighbor);
        crate::layout::lemma_world_neighbor_diff(
            grid.terrain.layout_spec(),
            hex,
            edge_index as int,
        );
    }
    let va0 = match grid.terrain.vertex(hex, v0_idx) {
        Some(v) => v,
        None => {
            return None;
        },
    };
    let va1 = match grid.terrain.vertex(hex, v1_idx) {
        Some(v) => v,
        None => {
            return None;
        },
    };
    let vb0 = match grid.terrain.vertex(neighbor, n0_idx) {
        Some(v) => v,
        None => {
            return None;
        },
    };
    let vb1 = match grid.terrain.vertex(neighbor, n1_idx) {
        Some(v) => v,
        None => {
            return None;
        },
    };
    let leaf_entity = scene.spawn_node(
        NodeKind::Quad(QuadPetal { edge_index, neighbor_disc: neighbor_entity }),
        inverse_tf,
        Some(owner),
    );
    // Perimeter edges along each cell's own boundary.
    let thickness = cfg.flower.edge_thickness;
    if let Some(e) = crate::mesh::build_edge_line(va0, va1, thickness) {
        let _ = scene.spawn_node(NodeKind::Edge(e), Transform::identity(), Some(leaf_entity));
    }
    if let Some(e) = crate::mesh::build_edge_line(vb0, vb1, thickness) {
        let _ = scene.spawn_node(NodeKind::Edge(e), Transform::identity(), Some(leaf_entity));
    }
    // Cross-gap edges connecting facing vertices, and the quad face.
    if let Some(e) = crate::mesh::build_edge_line(va0, vb0, thickness) {
        let _ = scene.spawn_node(NodeKind::Edge(e), Transform::identity(), Some(leaf_entity));
    }
    if let Some(e) = crate::mesh::build_edge_line(va1, vb1, thickness) {
        let _ = scene.spawn_node(NodeKind::Edge(e), Transform::identity(), Some(leaf_entity));
    }
    let face = crate::mesh::build_quad_face(va0, va1, vb1, vb0);
    let _ = scene.spawn_node(NodeKind::Face(face), Transform::identity(), Some(leaf_entity));
    Some(leaf_entity)
}

/// Spawns the gap triangle at corner `vertex_index` of `hex`, with its
/// face as a child, parented under the owner face through the owner's
/// inverse transform.  Returns `None`, spawning nothing, exactly when one
/// of the other two cells at the junction does not exist.
pub fn spawn_tri_leaf(
    scene: &mut SceneGraph,
    grid: &HexGrid,
    entities: &HexEntities,
    cfg: &TerrainConfig,
    hex: Hex,
    vertex_index: u8,
    owner: usize,
    inverse_tf: Transform,
) -> (r: Option<usize>)
    requires
        reveal_ready(*grid, *entities, *old(scene)),
        cfg.wf(),
        grid.terrain.contains_spec(hex),
        vertex_index < 6,
        owner < old(scene).nodes@.len(),
        inverse_tf == grid.terrain.inverse_transform_spec(hex),
        inverse_tf.in_bounds(),
        old(scene).nodes@.len() + 8 < usize::MAX,
    ensures
        final(scene).wf(),
        old(scene).nodes@.len() <= final(scene).nodes@.len() <= old(scene).nodes@.len() + 2,
        forall|j: int|
            0 <= j < old(scene).nodes@.len() ==> #[trigger] final(scene).nodes@[j] == old(
                scene,
            ).nodes@[j],
        ({
            let coords = junction_coords(GridVertex { origin: hex, direction: vertex_index });
            &&& (r is Some <==> grid.terrain.contains_spec(coords.1)
                && grid.terrain.contains_spec(coords.2))
            &&& r matches Some(p) ==> old(scene).nodes@.len() <= p && tri_petal_at(
                *final(scene),
                *grid,
                *entities,
                hex,
                vertex_index,
                owner,
                p as int,
            )
        }),
        r is None ==> final(scene).nodes@ == old(scene).nodes@,
{
    proof {
        grid.terrain.lemma_contained_in_range(hex);
    }
    let grid_vertex = GridVertex { origin: hex, direction: vertex_index };
    let coords = grid_vertex.coordinates();
    let c1 = coords.1;
    let c2 = coords.2;
    let neighbor1_entity = match entities.get(&grid.terrain, c1) {
        Some(e) => e,
        None => {
            return None;
        },
    };
    let neighbor2_entity = match entities.get(&grid.terrain, c2) {
        Some(e) => e,
        None => {
            return None;
        },
    };
    proof {
        grid.terrain.lemma_contained_in_range(c1);
        grid.terrain.lemma_contained_in_range(c2);
        lemma_label_inverse(grid_vertex);
        assert(same_junction(
            GridVertex {
                origin: c1,
                direction: ((vertex_index + 2) as u8 % 6) as u8,
            },
            grid_vertex,
        )) by {
            assert(crate::hex::label_ccw(grid_vertex) == GridVertex {
                origin: c1,
                direction: ((vertex_index + 2) as u8 % 6) as u8,
            });
        }
        assert(same_junction(
            GridVertex {
                origin: c2,
                direction: ((vertex_index + 4) as u8 % 6) as u8,
            },
            grid_vertex,
        )) by {
            assert(crate::hex::label_cw(grid_vertex) == GridVertex {
                origin: c2,
                direction: ((vertex_index + 4) as u8 % 6) as u8,
            });
        }
    }
    let v0 = match grid.terrain.vertex(hex, vertex_index) {
        Some(v) => v,
        None => {
            return None;
        },
    };
    let v1 = match grid.terrain.find_equivalent_vertex(c1, &grid_vertex) {
        Some(v) => v,
        None => {
            return None;
        },
    };
    let v2 = match grid.terrain.find_equivalent_vertex(c2, &grid_vertex) {
        Some(v) => v,
        None => {
            return None;
        },
    };
    proof {
        grid.terrain.lemma_vertex_coord_bounds(hex, vertex_index as int);
        let d1 = choose|d: int|
            0 <= d < 6 && #[trigger] same_junction(
                GridVertex { origin: c1, direction: d as u8 },
                grid_vertex,
            ) && v1 == grid.terrain.vertex_spec(c1, d);
        grid.terrain.lemma_vertex_coord_bounds(c1, d1);
        let d2 = choose|d: int|
            0 <= d < 6 && #[trigger] same_junction(
                GridVertex { origin: c2, direction: d as u8 },
                grid_vertex,
            ) && v2 == grid.terrain.vertex_spec(c2, d);
        grid.terrain.lemma_vertex_coord_bounds(c2, d2);
        grid.terrain.lemma_height_bounds(hex);
        grid.terrain.lemma_height_bounds(c1);
        grid.terrain.lemma_height_bounds(c2);
        crate::layout::lemma_world_neighbor_diff(
            grid.terrain.layout_spec(),
            hex,
            ((vertex_index + 5) as u8 % 6) as int,
        );
        crate::layout::lemma_world_neighbor_diff(
            grid.terrain.layout_spec(),
            hex,
            vertex_index as int,
        );
    }
    let leaf_entity = scene.spawn_node(
        NodeKind::Tri(
            TriPetal {
                vertex_index,
                neighbor_discs: (neighbor1_entity, neighbor2_entity),
            },
        ),
        inverse_tf,
        Some(owner),
    );
    let face = crate::mesh::build_tri_face(v0, v1, v2);
    let _ = scene.spawn_node(NodeKind::Face(face), Transform::identity(), Some(leaf_entity));
    Some(leaf_entity)
}


/// Spawns the full petal set owned by one cell: gap quads across the three
/// even edges (0, 2 and 4) whose neighbour exists, and gap triangles at
/// the two owned corners (0 and 1) whose junctions are complete.  This
/// 3-quad, 2-triangle assignment per cell is the deduplication convention:
/// every seam of the tiling is owned by exactly one of its incident cells.
///
/// Returns the handles of the spawned petal nodes: one per existing
/// neighbour across an even edge, plus one per complete owned junction.
pub fn spawn_petals_for_hex(
    scene: &mut SceneGraph,
    grid: &HexGrid,
    entities: &HexEntities,
    cfg: &TerrainConfig,
    hex: Hex,
    owner: usize,
) -> (petals: Vec<usize>)
    requires
        reveal_ready(*grid, *entities, *old(scene)),
        cfg.wf(),
        grid.terrain.contains_spec(hex),
        owner < old(scene).nodes@.len(),
        old(scene).nodes@.len() + 40 < usize::MAX,
    ensures
        final(scene).wf(),
        old(scene).nodes@.len() <= final(scene).nodes@.len() <= old(scene).nodes@.len() + 22,
        forall|j: int|
            0 <= j < old(scene).nodes@.len() ==> #[trigger] final(scene).nodes@[j] == old(
                scene,
            ).nodes@[j],
        ({
            let g = grid.terrain;
            let t0 = junction_coords(GridVertex { origin: hex, direction: 0 });
            let t1 = junction_coords(GridVertex { origin: hex, direction: 1 });
            petals@.len() == (if g.contains_spec(neighbor_spec(hex, 0)) { 1int } else { 0 }) + (
            if g.contains_spec(neighbor_spec(hex, 2)) { 1int } else { 0 }) + (
            if g.contains_spec(neighbor_spec(hex, 4)) { 1int } else { 0 }) + (
            if g.contains_spec(t0.1) && g.contains_spec(t0.2) { 1int } else { 0 }) + (
            if g.contains_spec(t1.1) && g.contains_spec(t1.2) { 1int } else { 0 })
        }),
        forall|k: u8|
            (k == 0 || k == 2 || k == 4) && #[trigger] grid.terrain.contains_spec(
                neighbor_spec(hex, k as int),
            ) ==> exists|p: int|
                old(scene).nodes@.len() <= p && #[trigger] quad_petal_at(
                    *final(scene),
                    *grid,
                    *entities,
                    hex,
                    k,
                    owner,
                    p,
                ),
        forall|k: u8|
            k < 2 && (#[trigger] grid.terrain.contains_spec(
                junction_coords(GridVertex { origin: hex, direction: k }).1,
            )) && grid.terrain.contains_spec(
                junction_coords(GridVertex { origin: hex, direction: k }).2,
            ) ==> exists|p: int|
                old(scene).nodes@.len() <= p && #[trigger] tri_petal_at(
                    *final(scene),
                    *grid,
                    *entities,
                    hex,
                    k,
                    owner,
                    p,
                ),
{
    let inverse_tf = grid.terrain.inverse_transform(hex);
    let mut petals: Vec<usize> = Vec::new();
    let q0 = spawn_quad_leaf(scene, grid, entities, cfg, hex, 0, owner, inverse_tf);
    if let Some(p) = q0 {
        petals.push(p);
    }
    proof {
        reestablish(*grid, *entities, *old(scene), *scene);
    }
    let q2 = spawn_quad_leaf(scene, grid, entities, cfg, hex, 2, owner, inverse_tf);
    if let Some(p) = q2 {
        petals.push(p);
    }
    proof {
        reestablish(*grid, *entities, *old(scene), *scene);
    }
    let q4 = spawn_quad_leaf(scene, grid, entities, cfg, hex, 4, owner, inverse_tf);
    if let Some(p) = q4 {
        petals.push(p);
    }
    proof {
        reestablish(*grid, *entities, *old(scene), *scene);
    }
    let t0 = spawn_tri_leaf(scene, grid, entities, cfg, hex, 0, owner, inverse_tf);
    if let Some(p) = t0 {
        petals.push(p);
    }
    proof {
        reestablish(*grid, *entities, *old(scene), *scene);
    }
    let t1 = spawn_tri_leaf(scene, grid, entities, cfg, hex, 1, owner, inverse_tf);
    if let Some(p) = t1 {
        petals.push(p);
    }
    proof {
        if q0 is Some {
            assert(quad_petal_at(*scene, *grid, *entities, hex, 0, owner, q0->Some_0 as int));
        }
        if q2 is Some {
            assert(quad_petal_at(*scene, *grid, *entities, hex, 2, owner, q2->Some_0 as int));
        }
        if q4 is Some {
            assert(quad_petal_at(*scene, *grid, *entities, hex, 4, owner, q4->Some_0 as int));
        }
        if t0 is Some {
            assert(tri_petal_at(*scene, *grid, *entities, hex, 0, owner, t0->Some_0 as int));
        }
        if t1 is Some {
            assert(tri_petal_at(*scene, *grid, *entities, hex, 1, owner, t1->Some_0 as int));
        }
    }
    petals
}

/// Consistency of the lookup against a grown scene: node handles stay
/// valid as the scene only appends.
proof fn reestablish(
    grid: HexGrid,
    entities: HexEntities,
    scene0: SceneGraph,
    scene1: SceneGraph,
)
    requires
        reveal_ready(grid, entities, scene0),
        scene1.wf(),
        scene0.nodes@.len() <= scene1.nodes@.len(),
    ensures
        reveal_ready(grid, entities, scene1),
{
}

/// Whether the scene holds the full petal set owned by cell `h`: a quad
/// petal for each even edge whose neighbour exists, and a triangle petal
/// for each owned corner whose junction is complete, all under the cell's
/// face node.
pub open spec fn petal_set_spawned(
    scene: SceneGraph,
    grid: HexGrid,
    entities: HexEntities,
    h: Hex,
) -> bool {
    let owner = entities.node_spec(h) as usize;
    &&& forall|k: u8|
        (k == 0 || k == 2 || k == 4) && #[trigger] grid.terrain.contains_spec(
            neighbor_spec(h, k as int),
        ) ==> exists|p: int| #[trigger] quad_petal_at(scene, grid, entities, h, k, owner, p)
    &&& forall|k: u8|
        k < 2 && (#[trigger] grid.terrain.contains_spec(
            junction_coords(GridVertex { origin: h, direction: k }).1,
        )) && grid.terrain.contains_spec(
            junction_coords(GridVertex { origin: h, direction: k }).2,
        ) ==> exists|p: int| #[trigger] tri_petal_at(scene, grid, entities, h, k, owner, p)
}

/// A spawned petal set stays spawned as the scene appends nodes.
proof fn lemma_petal_set_monotone(
    grid: HexGrid,
    entities: HexEntities,
    h: Hex,
    s0: SceneGraph,
    s1: SceneGraph,
)
    requires
        petal_set_spawned(s0, grid, entities, h),
        s0.nodes@.len() <= s1.nodes@.len(),
        forall|j: int| 0 <= j < s0.nodes@.len() ==> #[trigger] s1.nodes@[j] == s0.nodes@[j],
    ensures
        petal_set_spawned(s1, grid, entities, h),
{
    let owner = entities.node_spec(h) as usize;
    assert forall|k: u8|
        (k == 0 || k == 2 || k == 4) && #[trigger] grid.terrain.contains_spec(
            neighbor_spec(h, k as int),
        ) implies exists|p: int| #[trigger] quad_petal_at(s1, grid, entities, h, k, owner,
        p) by {
        let p = choose|p: int| #[trigger] quad_petal_at(s0, grid, entities, h, k, owner, p);
        assert(quad_petal_at(s1, grid, entities, h, k, owner, p));
    }
    assert forall|k: u8|
        k < 2 && (#[trigger] grid.terrain.contains_spec(
            junction_coords(GridVertex { origin: h, direction: k }).1,
        )) && grid.terrain.contains_spec(
            junction_coords(GridVertex { origin: h, direction: k }).2,
        ) implies exists|p: int| #[trigger] tri_petal_at(s1, grid, entities, h, k, owner, p) by {
        let p = choose|p: int| #[trigger] tri_petal_at(s0, grid, entities, h, k, owner, p);
        assert(tri_petal_at(s1, grid, entities, h, k, owner, p));
    }
}

/// Progressive petal reveal: for every cell of the reveal ring around
/// `center` that exists in the grid and has not been drawn yet, marks it
/// drawn and spawns its full petal set under its face node.  Re-invoking
/// with every ring cell already drawn is a no-op: the drawn set guards
/// each cell's petals to be built at most once.
#[verifier::rlimit(100)]
pub fn spawn_petals(
    scene: &mut SceneGraph,
    grid: &HexGrid,
    entities: &HexEntities,
    cfg: &TerrainConfig,
    drawn: &mut DrawnCells,
    center: Hex,
)
    requires
        reveal_ready(*grid, *entities, *old(scene)),
        cfg.wf(),
        old(drawn).wf(),
        center.in_range(),
        old(scene).nodes@.len() + 40 * region_size(cfg.flower.reveal_radius as int) + 40
            < usize::MAX,
    ensures
        final(scene).wf(),
        final(drawn).wf(),
        forall|j: int|
            0 <= j < old(scene).nodes@.len() ==> #[trigger] final(scene).nodes@[j] == old(
                scene,
            ).nodes@[j],
        forall|h: Hex|
            #[trigger] final(drawn).contains_spec(h) <==> old(drawn).contains_spec(h) || (
            region_contains(center, cfg.flower.reveal_radius as int, h)
                && grid.terrain.contains_spec(h)),
        (forall|h: Hex|
            region_contains(center, cfg.flower.reveal_radius as int, h)
                && #[trigger] grid.terrain.contains_spec(h) ==> old(drawn).contains_spec(h))
            ==> final(scene).nodes@ == old(scene).nodes@ && final(drawn).cells@ == old(
            drawn,
        ).cells@,
        forall|h: Hex|
            region_contains(center, cfg.flower.reveal_radius as int, h)
                && #[trigger] grid.terrain.contains_spec(h) && !old(drawn).contains_spec(h)
                ==> petal_set_spawned(*final(scene), *grid, *entities, h),
{
    let rr = cfg.flower.reveal_radius;
    let cells = hexagon_region(center, rr);
    proof {
        lemma_region_size_bound(rr as int);
    }
    let n = cells.len();
    proof {
        assert forall|h: Hex|
            region_contains(center, rr as int, h) implies offset_index(
            rr as int,
            h.x - center.x,
            h.y - center.y,
        ) >= 0 by {
            lemma_offset_index_bounds(rr as int, h.x - center.x, h.y - center.y);
        }
    }
    let mut i: usize = 0;
    while i < n
        invariant
            reveal_ready(*grid, *entities, *scene),
            cfg.wf(),
            center.in_range(),
            rr == cfg.flower.reveal_radius,
            n == cells@.len(),
            cells@.len() == region_size(rr as int),
            forall|c: int|
                0 <= c < cells@.len() ==> #[trigger] region_cell_at(center, rr as int, cells@[c],
                    c),
            i <= n,
            drawn.wf(),
            old(scene).nodes@.len() <= scene.nodes@.len(),
            scene.nodes@.len() <= old(scene).nodes@.len() + 40 * i,
            old(scene).nodes@.len() + 40 * region_size(rr as int) + 40 < usize::MAX,
            forall|j: int|
                0 <= j < old(scene).nodes@.len() ==> #[trigger] scene.nodes@[j] == old(
                    scene,
                ).nodes@[j],
            forall|h: Hex|
                #[trigger] drawn.contains_spec(h) <==> old(drawn).contains_spec(h) || (
                region_contains(center, rr as int, h) && offset_index(
                    rr as int,
                    h.x - center.x,
                    h.y - center.y,
                ) < i && grid.terrain.contains_spec(h)),
            (forall|h: Hex|
                region_contains(center, rr as int, h) && #[trigger] grid.terrain.contains_spec(
                    h,
                ) ==> old(drawn).contains_spec(h)) ==> scene.nodes@ == old(scene).nodes@
                && drawn.cells@ == old(drawn).cells@,
            forall|h: Hex|
                region_contains(center, rr as int, h) && offset_index(
                    rr as int,
                    h.x - center.x,
                    h.y - center.y,
                ) < i && #[trigger] grid.terrain.contains_spec(h) && !old(
                    drawn,
                ).contains_spec(h) ==> petal_set_spawned(*scene, *grid, *entities, h),
        decreases n - i,
    {
        let hex = cells[i];
        proof {
            assert(region_cell_at(center, rr as int, cells@[i as int], i as int));
        }
        let ghost scene_entry = *scene;
        let in_grid = grid.terrain.contains(&hex);
        let already = drawn.contains(hex);
        if in_grid && !already {
            drawn.insert(hex);
            let owner = match entities.get(&grid.terrain, hex) {
                Some(o) => o,
                None => {
                    proof {
                        assert(false);
                    }
                    0
                },
            };
            proof {
                lemma_offset_index_bounds(rr as int, hex.x - center.x, hex.y - center.y);
                lemma_offset_index_bounds(entities.radius as int, hex.x as int, hex.y as int);
                assert(entities.map@[offset_index(entities.radius as int, hex.x as int,
                    hex.y as int)] < scene.nodes@.len());
            }
            let ghost pre_len = scene.nodes@.len() as int;
            let _petals = spawn_petals_for_hex(scene, grid, entities, cfg, hex, owner);
            proof {
                assert(owner == entities.node_spec(hex) as usize);
                assert forall|k: u8|
                    (k == 0 || k == 2 || k == 4) && #[trigger] grid.terrain.contains_spec(
                        neighbor_spec(hex, k as int),
                    ) implies exists|p: int| #[trigger] quad_petal_at(*scene, *grid, *entities,
                    hex, k, entities.node_spec(hex) as usize, p) by {
                    let p = choose|p: int|
                        pre_len <= p && #[trigger] quad_petal_at(*scene, *grid, *entities, hex,
                            k, owner, p);
                    assert(quad_petal_at(*scene, *grid, *entities, hex, k,
                        entities.node_spec(hex) as usize, p));
                }
                assert forall|k: u8|
                    k < 2 && (#[trigger] grid.terrain.contains_spec(
                        junction_coords(GridVertex { origin: hex, direction: k }).1,
                    )) && grid.terrain.contains_spec(
                        junction_coords(GridVertex { origin: hex, direction: k }).2,
                    ) implies exists|p: int| #[trigger] tri_petal_at(*scene, *grid, *entities,
                    hex, k, entities.node_spec(hex) as usize, p) by {
                    let p = choose|p: int|
                        pre_len <= p && #[trigger] tri_petal_at(*scene, *grid, *entities, hex,
                            k, owner, p);
                    assert(tri_petal_at(*scene, *grid, *entities, hex, k,
                        entities.node_spec(hex) as usize, p));
                }
                assert(petal_set_spawned(*scene, *grid, *entities, hex));
            }
        }
        proof {
            assert forall|h: Hex|
                region_contains(center, rr as int, h) && offset_index(
                    rr as int,
                    h.x - center.x,
                    h.y - center.y,
                ) < i + 1 && #[trigger] grid.terrain.contains_spec(h) && !old(
                    drawn,
                ).contains_spec(h) implies petal_set_spawned(*scene, *grid, *entities, h) by {
                let k = offset_index(rr as int, h.x - center.x, h.y - center.y);
                lemma_offset_index_bounds(rr as int, h.x - center.x, h.y - center.y);
                if k < i as int {
                    lemma_petal_set_monotone(*grid, *entities, h, scene_entry, *scene);
                } else {
                    assert(region_cell_at(center, rr as int, cells@[k], k));
                    lemma_offset_index_injective(rr as int, cells@[k].x - center.x,
                        cells@[k].y - center.y, h.x - center.x, h.y - center.y);
                    assert(cells@[k] == h);
                }
            }
            assert forall|h: Hex| #[trigger] drawn.contains_spec(h) <==> old(
                drawn,
            ).contains_spec(h) || (region_contains(center, rr as int, h) && offset_index(
                rr as int,
                h.x - center.x,
                h.y - center.y,
            ) < i + 1 && grid.terrain.contains_spec(h)) by {
                if region_contains(center, rr as int, h) {
                    let k = offset_index(rr as int, h.x - center.x, h.y - center.y);
                    lemma_offset_index_bounds(rr as int, h.x - center.x, h.y - center.y);
                    if k == i {
                        assert(region_cell_at(center, rr as int, cells@[k], k));
                        lemma_offset_index_injective(rr as int, cells@[k].x - center.x,
                            cells@[k].y - center.y, h.x - center.x, h.y - center.y);
                        assert(cells@[k] == h);
                    }
                }
            }
        }
        i = i + 1;
    }
    proof {
        assert forall|h: Hex| #[trigger] drawn.contains_spec(h) <==> old(drawn).contains_spec(
            h,
        ) || (region_contains(center, rr as int, h) && grid.terrain.contains_spec(h)) by {
            if region_contains(center, rr as int, h) {
                lemma_offset_index_bounds(rr as int, h.x - center.x, h.y - center.y);
            }
        }
        assert forall|h: Hex|
            region_contains(center, rr as int, h) && #[trigger] grid.terrain.contains_spec(h)
                && !old(drawn).contains_spec(h) implies petal_set_spawned(*scene, *grid,
            *entities, h) by {
            lemma_offset_index_bounds(rr as int, h.x - center.x, h.y - center.y);
        }
    }
}

} // verus!
