//! Startup grid generation: builds the terrain store from settings and
//! noise samples, spawns one face node per cell plus an optional
//! height-indicator stem, and registers the cell-to-node lookup.

use vstd::prelude::*;

use crate::entities::{HexEntities, HexGrid, HexSunDisc, Stem};
use crate::fixed::{FX_ONE, div_trunc, div_trunc_i64, lemma_div_trunc_bound, lemma_mul_bound,
    lemma_mul_div_range};
use crate::hex::{Hex, hexagon_region, lemma_offset_index_bounds, lemma_offset_index_injective,
    lemma_region_size_bound, region_cell_at, region_size};
use crate::math::pole_geometry;
use crate::scene::{NodeKind, SceneGraph};
use crate::terrain::{FlowerSettings, TerrainConfig};
use crate::terrain_hex_layout::TerrainHexLayout;
use crate::transform::Transform;
use crate::vec::Vec3Fx;

verus! {

/// The local transform of a cell's height-indicator stem, as ghost
/// arithmetic: a unit cylinder lifted to half the stem height below the
/// face (the parent sits at the cell's height) and de-scaled on the ground
/// axes by the parent's radius so its footprint is radius-independent.
pub open spec fn stem_transform_spec(
    terrain: TerrainHexLayout,
    f: FlowerSettings,
    h: Hex,
) -> Transform {
    let height = terrain.height_spec(h);
    let stem_height = height - f.stem_gap;
    let stem_radius = terrain.radius_of_spec(h) * f.stem_radius_factor / (FX_ONE as int);
    let s_xz = div_trunc(2 * stem_radius * FX_ONE, terrain.radius_of_spec(h));
    Transform {
        translation: Vec3Fx { x: 0, y: (stem_height / 2 - height) as i64, z: 0 },
        scale: Vec3Fx { x: s_xz as i64, y: stem_height as i64, z: s_xz as i64 },
    }
}

/// Whether a cell gets a height-indicator stem: its face must sit above
/// ground once the stem gap is subtracted.
pub open spec fn stem_due(terrain: TerrainHexLayout, f: FlowerSettings, h: Hex) -> bool {
    terrain.height_spec(h) - f.stem_gap > 0
}

/// Builds the terrain store from the configuration and one height-noise
/// and one radius-noise sample per region cell, spawns the grid root, one
/// face node per cell (placed at its centre and height, scaled by its
/// visual radius) and a stem under each face that sits above ground, and
/// registers the cell-to-node lookup.
pub fn generate_grid(
    cfg: &TerrainConfig,
    height_noise: &Vec<i64>,
    radius_noise: &Vec<i64>,
    scene: &mut SceneGraph,
) -> (r: (HexGrid, HexEntities))
    requires
        cfg.wf(),
        height_noise@.len() == region_size(cfg.grid.radius as int),
        radius_noise@.len() == region_size(cfg.grid.radius as int),
        forall|i: int|
            0 <= i < height_noise@.len() ==> -FX_ONE <= #[trigger] height_noise@[i] <= FX_ONE,
        forall|i: int|
            0 <= i < radius_noise@.len() ==> -FX_ONE <= #[trigger] radius_noise@[i] <= FX_ONE,
        old(scene).wf(),
        old(scene).nodes@.len() + 2 * region_size(cfg.grid.radius as int) + 1 < usize::MAX,
    ensures
        ({
            let grid = r.0;
            let entities = r.1;
            let root = old(scene).nodes@.len() as int;
            &&& grid.terrain.wf()
            &&& grid.terrain.built_from(cfg.grid, height_noise@, radius_noise@)
            &&& entities.wf()
            &&& entities.radius == cfg.grid.radius
            &&& final(scene).wf()
            &&& final(scene).nodes@.len() >= root + 1
            &&& forall|j: int|
                0 <= j < root ==> #[trigger] final(scene).nodes@[j] == old(scene).nodes@[j]
            &&& final(scene).nodes@[root].kind matches NodeKind::Grid
            &&& forall|h: Hex|
                #[trigger] grid.terrain.contains_spec(h) ==> {
                    let n = entities.node_spec(h);
                    &&& root < n < final(scene).nodes@.len()
                    &&& final(scene).nodes@[n].kind == NodeKind::Disc(HexSunDisc { hex: h })
                    &&& final(scene).nodes@[n].transform == grid.terrain.place_transform_spec(h)
                    &&& final(scene).nodes@[n].parent == Some(root as usize)
                }
            &&& forall|h: Hex|
                #[trigger] grid.terrain.contains_spec(h) && stem_due(
                    grid.terrain,
                    cfg.flower,
                    h,
                ) ==> exists|s: int|
                    root < s < final(scene).nodes@.len()
                        && ((#[trigger] final(scene).nodes@[s].kind) matches NodeKind::StemNode(
                        _,
                    )) && final(scene).nodes@[s].parent == Some(entities.node_spec(h) as usize)
                        && final(scene).nodes@[s].transform == stem_transform_spec(
                        grid.terrain,
                        cfg.flower,
                        h,
                    )
        }),
{
    let terrain = TerrainHexLayout::from_settings(&cfg.grid, height_noise, radius_noise);
    let cells = hexagon_region(Hex { x: 0, y: 0 }, cfg.grid.radius);
    proof {
        lemma_region_size_bound(cfg.grid.radius as int);
    }
    let ghost root = scene.nodes@.len() as int;
    let grid_entity = scene.spawn_node(NodeKind::Grid, Transform::identity(), None);
    let mut map: Vec<usize> = Vec::new();
    let mut i: usize = 0;
    let n = cells.len();
    while i < n
        invariant
            cfg.wf(),
            terrain.wf(),
            terrain.center_spec() == (Hex { x: 0, y: 0 }),
            terrain.radius_spec() == cfg.grid.radius as int,
            forall|h: Hex|
                #[trigger] terrain.contains_spec(h) ==> 0 <= terrain.height_spec(h)
                    <= cfg.grid.max_height && cfg.grid.min_hex_radius <= terrain.radius_of_spec(
                    h,
                ) <= cfg.grid.max_hex_radius,
            n == cells@.len(),
            cells@.len() == region_size(cfg.grid.radius as int),
            forall|c: int|
                0 <= c < cells@.len() ==> #[trigger] region_cell_at(
                    Hex { x: 0, y: 0 },
                    cfg.grid.radius as int,
                    cells@[c],
                    c,
                ),
            i <= n,
            map@.len() == i,
            scene.wf(),
            root == old(scene).nodes@.len(),
            grid_entity == root,
            root < scene.nodes@.len(),
            scene.nodes@.len() + 2 * (n - i) <= usize::MAX,
            forall|j: int| 0 <= j < root ==> #[trigger] scene.nodes@[j] == old(scene).nodes@[j],
            scene.nodes@[root].kind matches NodeKind::Grid,
            forall|c: int|
                0 <= c < i ==> root < #[trigger] map@[c] < scene.nodes@.len(),
            forall|c: int|
                0 <= c < i ==> {
                    let nd = scene.nodes@[#[trigger] map@[c] as int];
                    &&& nd.kind == NodeKind::Disc(HexSunDisc { hex: cells@[c] })
                    &&& nd.transform == terrain.place_transform_spec(cells@[c])
                    &&& nd.parent == Some(grid_entity)
                },
            forall|c: int|
                0 <= c < i && stem_due(terrain, cfg.flower, cells@[c]) ==> exists|s: int|
                    root < s < scene.nodes@.len() && ((#[trigger] scene.nodes@[s].kind) matches NodeKind::StemNode(
                        _,
                    )) && scene.nodes@[s].parent == Some(map@[c]) && scene.nodes@[s].transform
                        == stem_transform_spec(terrain, cfg.flower, cells@[c]),
        decreases n - i,
    {
        let hex = cells[i];
        proof {
            assert(region_cell_at(Hex { x: 0, y: 0 }, cfg.grid.radius as int, cells@[i as int],
                i as int));
            assert(terrain.contains_spec(hex));
        }
        let ghost nodes_entry = scene.nodes@;
        let ghost map_entry = map@;
        let place = terrain.place_transform(hex);
        let disc = scene.spawn_node(
            NodeKind::Disc(HexSunDisc { hex }),
            place,
            Some(grid_entity),
        );
        map.push(disc);
        let height = match terrain.height(&hex) {
            Some(hv) => hv,
            None => 0,
        };
        let radius = match terrain.radius(&hex) {
            Some(rv) => rv,
            None => 0,
        };
        if let Some(pg) = pole_geometry(
            radius,
            height,
            cfg.flower.stem_radius_factor,
            cfg.flower.stem_gap,
        ) {
            proof {
                lemma_mul_bound(pg.radius as int, 2 * FX_ONE as int, 100_000_000, 2_000_000);
                assert(100_000_000int * 2_000_000int == 200_000_000_000_000int)
                    by (nonlinear_arith);
                lemma_mul_div_range(cfg.flower.stem_radius_factor as int, radius as int,
                    FX_ONE as int);
                assert(radius as int * cfg.flower.stem_radius_factor as int
                    == cfg.flower.stem_radius_factor as int * radius as int)
                    by (nonlinear_arith);
                assert(2 * (pg.radius as int) * (FX_ONE as int) <= radius as int * (2
                    * FX_ONE as int)) by (nonlinear_arith)
                    requires
                        0 <= pg.radius as int <= radius as int,
                        FX_ONE == 1_000_000;
                lemma_div_trunc_bound(2 * (pg.radius as int) * (FX_ONE as int), radius as int, 2
                    * FX_ONE as int);
            }
            let s_xz = div_trunc_i64(2 * pg.radius * FX_ONE, radius);
            let stem_tf = Transform {
                translation: Vec3Fx { x: 0, y: pg.y_center - height, z: 0 },
                scale: Vec3Fx { x: s_xz, y: pg.height, z: s_xz },
            };
            proof {
                assert(stem_tf == stem_transform_spec(terrain, cfg.flower, hex));
            }
            let stem = scene.spawn_node(NodeKind::StemNode(Stem), stem_tf, Some(disc));
            proof {
                assert(root < (stem as int) && (stem as int) < scene.nodes@.len() && ((
                scene.nodes@[stem as int].kind) matches NodeKind::StemNode(_)) && scene.nodes@[
                stem as int].parent == Some(disc) && scene.nodes@[stem as int].transform
                    == stem_transform_spec(terrain, cfg.flower, hex));
            }
        } else {
            proof {
                assert(!stem_due(terrain, cfg.flower, hex));
            }
        }
        proof {
            assert forall|c: int|
                0 <= c < i && stem_due(terrain, cfg.flower, cells@[c]) implies exists|s: int|
                root < s < scene.nodes@.len() && ((#[trigger] scene.nodes@[s].kind) matches NodeKind::StemNode(
                    _,
                )) && scene.nodes@[s].parent == Some(map@[c]) && scene.nodes@[s].transform
                    == stem_transform_spec(terrain, cfg.flower, cells@[c]) by {
                let s = choose|s: int|
                    root < s < nodes_entry.len() && ((#[trigger] nodes_entry[s].kind) matches NodeKind::StemNode(
                        _,
                    )) && nodes_entry[s].parent == Some(map_entry[c]) && nodes_entry[s].transform
                        == stem_transform_spec(terrain, cfg.flower, cells@[c]);
                assert(scene.nodes@[s] == nodes_entry[s]);
                assert(map@[c] == map_entry[c]);
            }
        }
        i = i + 1;
    }
    let entities = HexEntities { radius: cfg.grid.radius, map };
    proof {
        assert forall|h: Hex| #[trigger] terrain.contains_spec(h) implies {
            let nd = entities.node_spec(h);
            &&& root < nd < scene.nodes@.len()
            &&& scene.nodes@[nd].kind == NodeKind::Disc(HexSunDisc { hex: h })
            &&& scene.nodes@[nd].transform == terrain.place_transform_spec(h)
            &&& scene.nodes@[nd].parent == Some(grid_entity)
        } by {
            lemma_offset_index_bounds(cfg.grid.radius as int, h.x as int, h.y as int);
            let k = crate::hex::offset_index(cfg.grid.radius as int, h.x as int, h.y as int);
            assert(region_cell_at(Hex { x: 0, y: 0 }, cfg.grid.radius as int, cells@[k], k));
            lemma_offset_index_injective(cfg.grid.radius as int, cells@[k].x as int,
                cells@[k].y as int, h.x as int, h.y as int);
            assert(cells@[k] == h);
        }
        assert forall|h: Hex|
            #[trigger] terrain.contains_spec(h) && stem_due(terrain, cfg.flower, h) implies exists|s: int|
            root < s < scene.nodes@.len() && ((#[trigger] scene.nodes@[s].kind) matches NodeKind::StemNode(
                _,
            )) && scene.nodes@[s].parent == Some(entities.node_spec(h) as usize)
                && scene.nodes@[s].transform == stem_transform_spec(terrain, cfg.flower, h) by {
            lemma_offset_index_bounds(cfg.grid.radius as int, h.x as int, h.y as int);
            let k = crate::hex::offset_index(cfg.grid.radius as int, h.x as int, h.y as int);
            assert(region_cell_at(Hex { x: 0, y: 0 }, cfg.grid.radius as int, cells@[k], k));
            lemma_offset_index_injective(cfg.grid.radius as int, cells@[k].x as int,
                cells@[k].y as int, h.x as int, h.y as int);
            assert(cells@[k] == h);
        }
    }
    (HexGrid { terrain }, entities)
}

} // verus!
