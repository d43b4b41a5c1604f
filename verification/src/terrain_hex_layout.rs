//! The per-cell terrain store: heights and visual radii for every hex of a
//! bounded hexagonal region, with on-demand vertex computation.
//!
//! Cells are stored densely in region-enumeration order (see
//! [`crate::hex`]), so lookups are exact index arithmetic and the whole
//! store is a pure function of the settings and the noise samples it was
//! built from.

use vstd::prelude::*;

use crate::fixed::{FX_ONE, div_trunc, div_trunc_i128, div_trunc_i64, lemma_mul_bound};
use crate::hex::{
    GridVertex, HEX_RANGE_MAX, Hex, RADIUS_MAX, same_junction, lemma_offset_index_bounds, lemma_region_size_bound,
    neighbor_spec, offset_index, region_contains, region_row_starts, region_size, row_lo,
    row_start,
};
use crate::layout::{HexLayout, WORLD_POS_MAX, unit_corner_spec, center_aligned_unit_corner};
use crate::math::map_noise_spec;
use crate::math::map_noise_to_range;
use crate::terrain::{CENTER_MAX, GridSettings, HEIGHT_LIMIT, VISUAL_RADIUS_LIMIT};
use crate::transform::{Transform, compose_scale, compose_translation, mul_transform_spec};
use crate::vec::{Vec2Fx, Vec3Fx};

verus! {

/// Encapsulates the hex layout, per-cell heights and radii, and vertex
/// computation.
///
/// Vertices are computed on demand from layout, unit corners, height and
/// radius rather than stored.
pub struct TerrainHexLayout {
    /// Hex-to-world coordinate mapping (spacing, orientation).
    pub layout: HexLayout,
    /// Centre cell of the stored region.
    pub center: Hex,
    /// Radius of the stored region, in rings.
    pub radius: u32,
    /// Per-cell heights in region-enumeration order.
    pub heights: Vec<i64>,
    /// Per-cell visual radii in region-enumeration order.
    pub radii: Vec<i64>,
}

impl TerrainHexLayout {
    /// Internal consistency: a well-formed layout, a bounded region, one
    /// height and one radius per region cell, every height and radius in
    /// range.
    pub open spec fn wf(self) -> bool {
        &&& self.layout.wf()
        &&& self.radius <= RADIUS_MAX
        &&& -CENTER_MAX <= self.center.x <= CENTER_MAX
        &&& -CENTER_MAX <= self.center.y <= CENTER_MAX
        &&& self.heights@.len() == region_size(self.radius as int)
        &&& self.radii@.len() == region_size(self.radius as int)
        &&& forall|i: int|
            0 <= i < self.heights@.len() ==> -HEIGHT_LIMIT <= #[trigger] self.heights@[i]
                <= HEIGHT_LIMIT
        &&& forall|i: int|
            0 <= i < self.radii@.len() ==> 0 <= #[trigger] self.radii@[i]
                <= VISUAL_RADIUS_LIMIT
    }

    /// The layout's scale: the distance between adjacent cell centres.
    pub open spec fn scale_spec(self) -> int {
        self.layout.scale as int
    }

    /// The region's centre cell.
    pub open spec fn center_spec(self) -> Hex {
        self.center
    }

    /// The region's radius in rings.
    pub open spec fn radius_spec(self) -> int {
        self.radius as int
    }

    /// Whether cell `h` exists in the store.
    pub open spec fn contains_spec(self, h: Hex) -> bool {
        region_contains(self.center, self.radius as int, h)
    }

    /// Dense storage index of cell `h`.
    pub open spec fn index_spec(self, h: Hex) -> int {
        offset_index(self.radius as int, h.x - self.center.x, h.y - self.center.y)
    }

    /// Stored height of cell `h` (meaningful when the store contains `h`).
    pub open spec fn height_spec(self, h: Hex) -> int {
        self.heights@[self.index_spec(h)] as int
    }

    /// Stored visual radius of cell `h` (meaningful when the store
    /// contains `h`).
    pub open spec fn radius_of_spec(self, h: Hex) -> int {
        self.radii@[self.index_spec(h)] as int
    }

    /// The heights as a map from cell to elevation.
    pub open spec fn height_map(self) -> Map<Hex, int> {
        Map::new(|h: Hex| self.contains_spec(h), |h: Hex| self.height_spec(h))
    }

    /// The visual radii as a map from cell to radius.
    pub open spec fn radius_map(self) -> Map<Hex, int> {
        Map::new(|h: Hex| self.contains_spec(h), |h: Hex| self.radius_of_spec(h))
    }

    /// Constructs the store from grid settings and one height-noise and
    /// one radius-noise sample per region cell (region-enumeration order,
    /// values in `[-FX_ONE, FX_ONE]`): each sample is remapped into the
    /// configured range exactly as [`map_noise_spec`] states.
    pub fn from_settings(g: &GridSettings, height_noise: &Vec<i64>, radius_noise: &Vec<i64>)
        -> (r: TerrainHexLayout)
        requires
            g.wf(),
            height_noise@.len() == region_size(g.radius as int),
            radius_noise@.len() == region_size(g.radius as int),
            forall|i: int|
                0 <= i < height_noise@.len() ==> -FX_ONE <= #[trigger] height_noise@[i]
                    <= FX_ONE,
            forall|i: int|
                0 <= i < radius_noise@.len() ==> -FX_ONE <= #[trigger] radius_noise@[i]
                    <= FX_ONE,
        ensures
            r.wf(),
            r.center_spec() == (Hex { x: 0, y: 0 }),
            r.radius_spec() == g.radius as int,
            r.scale_spec() == g.point_spacing as int,
            forall|i: int|
                0 <= i < r.heights_seq().len() ==> #[trigger] r.heights_seq()[i]
                    == map_noise_spec(height_noise@[i] as int, 0, g.max_height as int),
            forall|i: int|
                0 <= i < r.radii_seq().len() ==> #[trigger] r.radii_seq()[i]
                    == map_noise_spec(
                    radius_noise@[i] as int,
                    g.min_hex_radius as int,
                    g.max_hex_radius as int,
                ),
            r.built_from(*g, height_noise@, radius_noise@),
            forall|h: Hex|
                #[trigger] r.contains_spec(h) ==> 0 <= r.height_spec(h) <= g.max_height
                    && g.min_hex_radius <= r.radius_of_spec(h) <= g.max_hex_radius,
    {
        let layout = HexLayout::from_scale(g.point_spacing);
        let row_starts = region_row_starts(g.radius);
        let n = row_starts[2 * (g.radius as usize) + 1];
        proof {
            lemma_region_size_bound(g.radius as int);
        }
        let mut heights: Vec<i64> = Vec::new();
        let mut radii: Vec<i64> = Vec::new();
        let mut i: usize = 0;
        while i < n
            invariant
                g.wf(),
                n == region_size(g.radius as int),
                height_noise@.len() == n,
                radius_noise@.len() == n,
                forall|k: int|
                    0 <= k < height_noise@.len() ==> -FX_ONE <= #[trigger] height_noise@[k]
                        <= FX_ONE,
                forall|k: int|
                    0 <= k < radius_noise@.len() ==> -FX_ONE <= #[trigger] radius_noise@[k]
                        <= FX_ONE,
                i <= n,
                heights@.len() == i,
                radii@.len() == i,
                forall|k: int|
                    0 <= k < i ==> #[trigger] heights@[k] == map_noise_spec(
                        height_noise@[k] as int,
                        0,
                        g.max_height as int,
                    ),
                forall|k: int|
                    0 <= k < i ==> #[trigger] radii@[k] == map_noise_spec(
                        radius_noise@[k] as int,
                        g.min_hex_radius as int,
                        g.max_hex_radius as int,
                    ),
                forall|k: int|
                    0 <= k < i ==> 0 <= #[trigger] heights@[k] <= g.max_height,
                forall|k: int|
                    0 <= k < i ==> g.min_hex_radius <= #[trigger] radii@[k]
                        <= g.max_hex_radius,
            decreases n - i,
        {
            let h = map_noise_to_range(height_noise[i], 0, g.max_height);
            let rad = map_noise_to_range(radius_noise[i], g.min_hex_radius, g.max_hex_radius);
            heights.push(h);
            radii.push(rad);
            i = i + 1;
        }
        let r = TerrainHexLayout {
            layout,
            center: Hex { x: 0, y: 0 },
            radius: g.radius,
            heights,
            radii,
        };
        proof {
            assert forall|h: Hex| #[trigger] r.contains_spec(h) implies 0 <= r.height_spec(h)
                <= g.max_height && g.min_hex_radius <= r.radius_of_spec(h)
                <= g.max_hex_radius by {
                lemma_offset_index_bounds(r.radius as int, h.x - r.center.x, h.y - r.center.y);
            }
        }
        r
    }

    /// Minimal constructor: a single cell with explicit height and radius.
    pub fn single(hex: Hex, height: i64, radius: i64, spacing: i64) -> (r: TerrainHexLayout)
        requires
            -CENTER_MAX <= hex.x <= CENTER_MAX,
            -CENTER_MAX <= hex.y <= CENTER_MAX,
            -HEIGHT_LIMIT <= height <= HEIGHT_LIMIT,
            0 <= radius <= VISUAL_RADIUS_LIMIT,
            2 <= spacing <= crate::layout::SCALE_MAX,
            spacing % 2 == 0,
        ensures
            r.wf(),
            r.center_spec() == hex,
            r.radius_spec() == 0,
            r.scale_spec() == spacing as int,
            r.contains_spec(hex),
            r.height_spec(hex) == height,
            r.radius_of_spec(hex) == radius,
            forall|o: Hex| #[trigger] r.contains_spec(o) ==> o == hex,
    {
        let layout = HexLayout::from_scale(spacing);
        let mut heights: Vec<i64> = Vec::new();
        let mut radii: Vec<i64> = Vec::new();
        heights.push(height);
        radii.push(radius);
        let r = TerrainHexLayout { layout, center: hex, radius: 0, heights, radii };
        proof {
            assert(row_start(0int, 0int) == 0);
            assert(row_start(0int, 1int) == 1);
            assert(region_size(0) == 1);
            assert(r.contains_spec(hex));
            assert(r.index_spec(hex) == 0);
            assert forall|o: Hex| #[trigger] r.contains_spec(o) implies o == hex by {
                assert(o.x - hex.x == 0 && o.y - hex.y == 0);
            }
        }
        r
    }

    /// The stored heights in region-enumeration order.
    pub open spec fn heights_seq(self) -> Seq<int> {
        self.heights@.map_values(|v: i64| v as int)
    }

    /// The stored radii in region-enumeration order.
    pub open spec fn radii_seq(self) -> Seq<int> {
        self.radii@.map_values(|v: i64| v as int)
    }

    /// Number of cells in the store.
    pub fn cell_count(&self) -> (r: usize)
        requires
            self.wf(),
        ensures
            r == region_size(self.radius_spec()),
    {
        self.heights.len()
    }

    /// World-space ground position of a hex centre (delegates to the
    /// layout).
    pub fn hex_to_world_pos(&self, hex: Hex) -> (r: Vec2Fx)
        requires
            self.wf(),
            hex.in_range(),
        ensures
            r.x == self.layout_spec().world_x(hex),
            r.y == self.layout_spec().world_y(hex),
    {
        self.layout.hex_to_world_pos(hex)
    }

    /// Hex coordinate of a world-space ground position (delegates to the
    /// layout).
    pub fn world_pos_to_hex(&self, pos: Vec2Fx) -> (r: Hex)
        requires
            self.wf(),
            -WORLD_POS_MAX <= pos.x <= WORLD_POS_MAX,
            -WORLD_POS_MAX <= pos.y <= WORLD_POS_MAX,
        ensures
            r == self.layout_spec().world_to_hex_spec(pos.x as int, pos.y as int),
            -500_000_000_000_000 <= r.x <= 500_000_000_000_000,
            -2_000_000_000_000_000_000 <= r.y <= 2_000_000_000_000_000_000,
    {
        self.layout.world_pos_to_hex(pos)
    }

    /// The inner layout.
    pub open spec fn layout_spec(self) -> HexLayout {
        self.layout
    }

    /// Dense storage index of `hex`, when the store contains it.
    pub fn index_of_cell(&self, hex: Hex) -> (r: Option<usize>)
        requires
            self.wf(),
        ensures
            r is Some <==> self.contains_spec(hex),
            r matches Some(i) ==> i == self.index_spec(hex) && i < self.heights@.len(),
    {
        let rad = self.radius as i64;
        let dx_w = (hex.x as i128) - (self.center.x as i128);
        let dy_w = (hex.y as i128) - (self.center.y as i128);
        if dx_w < -(rad as i128) || dx_w > rad as i128 {
            return None;
        }
        let dx = dx_w as i64;
        let lo: i64 = if -dx - rad >= -rad {
            -dx - rad
        } else {
            -rad
        };
        let hi: i64 = if rad - dx <= rad {
            rad - dx
        } else {
            rad
        };
        if dy_w < lo as i128 || dy_w > hi as i128 {
            return None;
        }
        let dy = dy_w as i64;
        proof {
            lemma_offset_index_bounds(self.radius as int, dx as int, dy as int);
            lemma_region_size_bound(self.radius as int);
        }
        let row_starts_idx = (dx + rad) as usize;
        let start = self.row_start_at(row_starts_idx);
        Some(start + (dy - lo) as usize)
    }

    /// Dense index of the first cell of region row `i`, computed by
    /// walking the rows.
    fn row_start_at(&self, i: usize) -> (r: usize)
        requires
            self.wf(),
            i <= 2 * self.radius + 1,
        ensures
            r == row_start(self.radius as int, i as int),
    {
        let rad = self.radius as usize;
        proof {
            lemma_region_size_bound(self.radius as int);
        }
        let mut acc: usize = 0;
        let mut k: usize = 0;
        while k < i
            invariant
                self.wf(),
                i <= 2 * self.radius + 1,
                rad == self.radius,
                k <= i,
                acc == row_start(self.radius as int, k as int),
                acc <= region_size(self.radius as int) <= usize::MAX,
            decreases i - k,
        {
            let len: usize = if k < rad {
                rad + 1 + k
            } else {
                rad + 1 + (2 * rad - k)
            };
            proof {
                assert(len == crate::hex::row_len(self.radius as int, k - self.radius));
                crate::hex::lemma_row_start_monotone(self.radius as int, k as int + 1,
                    2 * self.radius as int + 1);
            }
            acc = acc + len;
            k = k + 1;
        }
        acc
    }

    /// Whether this hex exists in the grid.
    pub fn contains(&self, hex: &Hex) -> (r: bool)
        requires
            self.wf(),
        ensures
            r == self.contains_spec(*hex),
    {
        self.index_of_cell(*hex).is_some()
    }

    /// Noise-derived terrain height for a hex: `None` exactly when the
    /// cell is outside the stored region.
    pub fn height(&self, hex: &Hex) -> (r: Option<i64>)
        requires
            self.wf(),
        ensures
            r is Some <==> self.contains_spec(*hex),
            r matches Some(v) ==> v == self.height_spec(*hex) && -HEIGHT_LIMIT <= v
                <= HEIGHT_LIMIT,
    {
        match self.index_of_cell(*hex) {
            Some(i) => Some(self.heights[i]),
            None => None,
        }
    }

    /// Noise-derived visual radius for a hex: `None` exactly when the
    /// cell is outside the stored region.
    pub fn radius(&self, hex: &Hex) -> (r: Option<i64>)
        requires
            self.wf(),
        ensures
            r is Some <==> self.contains_spec(*hex),
            r matches Some(v) ==> v == self.radius_of_spec(*hex) && 0 <= v
                <= VISUAL_RADIUS_LIMIT,
    {
        match self.index_of_cell(*hex) {
            Some(i) => Some(self.radii[i]),
            None => None,
        }
    }

    /// Unit corner offset for a given corner index (0 to 5).
    pub fn unit_corner(&self, index: u8) -> (r: Vec2Fx)
        requires
            index < 6,
        ensures
            r == unit_corner_spec(index as int),
    {
        center_aligned_unit_corner(index)
    }

    /// World-space position of corner `k` of cell `h`, as ghost
    /// arithmetic: the cell centre displaced by the unit corner scaled by
    /// the cell's visual radius, at the cell's height.
    pub open spec fn vertex_spec(self, h: Hex, k: int) -> Vec3Fx {
        let c = unit_corner_spec(k);
        Vec3Fx {
            x: (self.layout_spec().world_x(h) + div_trunc(
                c.x * self.radius_of_spec(h),
                FX_ONE as int,
            )) as i64,
            y: self.height_spec(h) as i64,
            z: (self.layout_spec().world_y(h) + div_trunc(
                c.y * self.radius_of_spec(h),
                FX_ONE as int,
            )) as i64,
        }
    }

    /// Computed world-space vertex position for `hex` at corner `index`
    /// (0 to 5): the centre plus the unit corner scaled by the cell's
    /// radius, at the cell's height.  `None` exactly when the cell is
    /// outside the stored region.
    pub fn vertex(&self, hex: Hex, index: u8) -> (r: Option<Vec3Fx>)
        requires
            self.wf(),
            index < 6,
        ensures
            r is Some <==> self.contains_spec(hex),
            r matches Some(v) ==> v == self.vertex_spec(hex, index as int),
    {
        let height = match self.height(&hex) {
            Some(h) => h,
            None => {
                return None;
            },
        };
        let radius = match self.radius(&hex) {
            Some(rr) => rr,
            None => {
                return None;
            },
        };
        proof {
            self.lemma_contained_in_range(hex);
            lemma_mul_bound(unit_corner_spec(index as int).x as int, radius as int, 1_000_000,
                100_000_000);
            lemma_mul_bound(unit_corner_spec(index as int).y as int, radius as int, 1_000_000,
                100_000_000);
            assert(1_000_000int * 100_000_000int == 100_000_000_000_000int)
                by (nonlinear_arith);
            lemma_mul_bound(self.layout.step_x as int, hex.x as int, 150_000_000, 2_000_000);
            lemma_mul_bound(self.layout.half_s3 as int, hex.x as int, 86_602_500, 2_000_000);
            lemma_mul_bound(2 * self.layout.half_s3 as int, hex.y as int, 173_205_000,
                2_000_000);
            assert(150_000_000int * 2_000_000int == 300_000_000_000_000int)
                by (nonlinear_arith);
            assert(86_602_500int * 2_000_000int == 173_205_000_000_000int)
                by (nonlinear_arith);
            assert(173_205_000int * 2_000_000int == 346_410_000_000_000int)
                by (nonlinear_arith);
        }
        let center = self.layout.hex_to_world_pos(hex);
        let corner = center_aligned_unit_corner(index);
        let off_x = div_trunc_i64(corner.x * radius, FX_ONE);
        let off_z = div_trunc_i64(corner.y * radius, FX_ONE);
        Some(Vec3Fx { x: center.x + off_x, y: height, z: center.y + off_z })
    }

    /// Cells of the store are in coordinate range, and their centres well
    /// within the ground-position range.
    pub proof fn lemma_contained_in_range(self, h: Hex)
        requires
            self.wf(),
            self.contains_spec(h),
        ensures
            h.in_range(),
            -2_000_000 <= h.x <= 2_000_000,
            -2_000_000 <= h.y <= 2_000_000,
    {
    }
}

/// Squared-distance threshold below which a query point snaps to a vertex,
/// in squared subunits (a thousandth of a squared unit).
pub const SNAP_D2: i64 = 1_000_000_000;

/// Numerator scale of the inverse-distance weights.
pub const IDW_SCALE: i128 = 1_000_000_000_000_000_000_000_000;

/// Largest single inverse-distance weight: the scale over the snap
/// threshold.
pub const IDW_WEIGHT_MAX: i128 = 1_000_000_000_000_000;

/// Smallest visual radius for which the inverse transform is defined, in
/// subunits (a hundredth of a unit).
pub const INVERSE_RADIUS_MIN: i64 = 10_000;

/// Largest visual radius for which the inverse transform is guaranteed to
/// cancel within tolerance, in subunits (fifty units).
pub const INVERSE_RADIUS_MAX: i64 = 50_000_000;

impl TerrainHexLayout {
    /// Stored heights of contained cells are within the height limit.
    pub proof fn lemma_height_bounds(self, h: Hex)
        requires
            self.wf(),
            self.contains_spec(h),
        ensures
            -HEIGHT_LIMIT <= self.height_spec(h) <= HEIGHT_LIMIT,
            0 <= self.radius_of_spec(h) <= VISUAL_RADIUS_LIMIT,
            0 <= self.index_spec(h) < self.heights@.len(),
    {
        lemma_offset_index_bounds(
            self.radius as int,
            h.x - self.center.x,
            h.y - self.center.y,
        );
    }

    /// The hex cell under a query position.
    pub open spec fn query_center(self, px: int, py: int) -> Hex {
        self.layout.world_to_hex_spec(px, py)
    }

    /// The cell of interpolation candidate `t` (0 to 41): candidates 0 to
    /// 5 are the corners of the query cell itself, the rest the corners of
    /// its six neighbours.
    pub open spec fn cand_hex(self, px: int, py: int, t: int) -> Hex {
        if t < 6 {
            self.query_center(px, py)
        } else {
            neighbor_spec(self.query_center(px, py), t / 6 - 1)
        }
    }

    /// Whether interpolation candidate `t` exists in the store.
    pub open spec fn cand_valid(self, px: int, py: int, t: int) -> bool {
        self.contains_spec(self.cand_hex(px, py, t))
    }

    /// World position of interpolation candidate `t`.
    pub open spec fn cand_vertex(self, px: int, py: int, t: int) -> Vec3Fx {
        self.vertex_spec(self.cand_hex(px, py, t), t % 6)
    }

    /// Squared planar distance from the query position to candidate `t`.
    pub open spec fn cand_d2(self, px: int, py: int, t: int) -> int {
        let v = self.cand_vertex(px, py, t);
        (px - v.x) * (px - v.x) + (py - v.z) * (py - v.z)
    }

    /// Inverse-distance weight of candidate `t`: the weight scale over the
    /// squared distance, zero for absent or snapping candidates.
    pub open spec fn cand_weight(self, px: int, py: int, t: int) -> int {
        if self.cand_valid(px, py, t) && self.cand_d2(px, py, t) >= SNAP_D2 {
            IDW_SCALE as int / self.cand_d2(px, py, t)
        } else {
            0
        }
    }

    /// Whether some candidate vertex lies within the snap threshold of the
    /// query position.
    pub open spec fn any_snap(self, px: int, py: int) -> bool {
        exists|t: int|
            0 <= t < 42 && #[trigger] self.cand_valid(px, py, t) && self.cand_d2(px, py, t)
                < SNAP_D2
    }

    /// Weighted height sum of the first `n` interpolation candidates.
    pub open spec fn idw_num(self, px: int, py: int, n: nat) -> int
        decreases n,
    {
        if n == 0 {
            0
        } else {
            self.idw_num(px, py, (n - 1) as nat) + self.cand_vertex(px, py, n - 1).y
                * self.cand_weight(px, py, n - 1)
        }
    }

    /// Weight sum of the first `n` interpolation candidates.
    pub open spec fn idw_den(self, px: int, py: int, n: nat) -> int
        decreases n,
    {
        if n == 0 {
            0
        } else {
            self.idw_den(px, py, (n - 1) as nat) + self.cand_weight(px, py, n - 1)
        }
    }

    /// The weight sums grow by bounded non-negative weights, and the
    /// weighted sum stays within the height limit times the weight sum.
    pub proof fn lemma_idw_bounds(self, px: int, py: int, n: nat)
        requires
            self.wf(),
        ensures
            0 <= self.idw_den(px, py, n) <= n * IDW_WEIGHT_MAX,
            -(HEIGHT_LIMIT * self.idw_den(px, py, n)) <= self.idw_num(px, py, n)
                <= HEIGHT_LIMIT * self.idw_den(px, py, n),
        decreases n,
    {
        if n == 0 {
            assert(0int * IDW_WEIGHT_MAX as int == 0) by (nonlinear_arith);
            assert(HEIGHT_LIMIT as int * 0int == 0) by (nonlinear_arith);
        } else {
            let m = (n - 1) as nat;
            self.lemma_idw_bounds(px, py, m);
            let w = self.cand_weight(px, py, n - 1);
            let y = self.cand_vertex(px, py, n - 1).y as int;
            assert(0 <= w <= IDW_WEIGHT_MAX) by {
                if self.cand_valid(px, py, n - 1) && self.cand_d2(px, py, n - 1) >= SNAP_D2 {
                    crate::fixed::lemma_div_bounds(IDW_SCALE as int, self.cand_d2(px, py, n - 1));
                    assert(IDW_SCALE as int / self.cand_d2(px, py, n - 1)
                        <= IDW_WEIGHT_MAX as int) by (nonlinear_arith)
                        requires
                            self.cand_d2(px, py, n - 1) >= SNAP_D2,
                            SNAP_D2 == 1_000_000_000,
                            IDW_SCALE == 1_000_000_000_000_000_000_000_000,
                            IDW_WEIGHT_MAX == 1_000_000_000_000_000;
                }
            }
            assert(-(HEIGHT_LIMIT as int * w) <= y * w <= HEIGHT_LIMIT as int * w) by {
                if self.cand_valid(px, py, n - 1) && self.cand_d2(px, py, n - 1) >= SNAP_D2 {
                    self.lemma_height_bounds(self.cand_hex(px, py, n - 1));
                    assert(-(HEIGHT_LIMIT as int * w) <= y * w <= HEIGHT_LIMIT as int * w)
                        by (nonlinear_arith)
                        requires
                            -HEIGHT_LIMIT <= y <= HEIGHT_LIMIT,
                            0 <= w;
                } else {
                    assert(y * w == 0 && HEIGHT_LIMIT as int * w == 0) by (nonlinear_arith)
                        requires
                            w == 0;
                }
            }
            assert(HEIGHT_LIMIT as int * (self.idw_den(px, py, m) + w) == HEIGHT_LIMIT as int
                * self.idw_den(px, py, m) + HEIGHT_LIMIT as int * w) by (nonlinear_arith);
            assert((m + 1) * IDW_WEIGHT_MAX as int == m * IDW_WEIGHT_MAX as int
                + IDW_WEIGHT_MAX as int) by (nonlinear_arith);
        }
    }

    /// If every stored height is non-negative, the weighted sums are too.
    pub proof fn lemma_idw_nonneg(self, px: int, py: int, n: nat)
        requires
            self.wf(),
            forall|h: Hex| #[trigger] self.contains_spec(h) ==> self.height_spec(h) >= 0,
        ensures
            self.idw_num(px, py, n) >= 0,
        decreases n,
    {
        if n > 0 {
            let m = (n - 1) as nat;
            self.lemma_idw_nonneg(px, py, m);
            let w = self.cand_weight(px, py, n - 1);
            let y = self.cand_vertex(px, py, n - 1).y as int;
            if self.cand_valid(px, py, n - 1) && self.cand_d2(px, py, n - 1) >= SNAP_D2 {
                crate::fixed::lemma_div_bounds(IDW_SCALE as int, self.cand_d2(px, py, n - 1));
                assert(y >= 0);
                assert(y * w >= 0) by (nonlinear_arith)
                    requires
                        y >= 0,
                        w >= 0;
            } else {
                assert(y * w == 0) by (nonlinear_arith)
                    requires
                        w == 0;
            }
        }
    }

    /// The inductive step behind [`Self::lemma_interpolate_uniform`]: over
    /// the first `n` candidates, a uniform field's weighted height sum is
    /// exactly the height times the weight sum.
    proof fn lemma_idw_uniform_upto(self, px: int, py: int, hh: int, n: nat)
        requires
            self.wf(),
            forall|h: Hex| #[trigger] self.contains_spec(h) ==> self.height_spec(h) == hh,
            -HEIGHT_LIMIT <= hh <= HEIGHT_LIMIT,
        ensures
            self.idw_num(px, py, n) == hh * self.idw_den(px, py, n),
            self.idw_den(px, py, n) > 0 ==> div_trunc(
                self.idw_num(px, py, n),
                self.idw_den(px, py, n),
            ) == hh,
            forall|t: int|
                0 <= t < 42 && #[trigger] self.cand_valid(px, py, t) ==> self.cand_vertex(
                    px,
                    py,
                    t,
                ).y == hh,
        decreases n,
    {
        assert forall|t: int|
            0 <= t < 42 && #[trigger] self.cand_valid(px, py, t) implies self.cand_vertex(
            px,
            py,
            t,
        ).y == hh by {
            self.lemma_height_bounds(self.cand_hex(px, py, t));
        }
        if n == 0 {
            assert(hh * 0int == 0) by (nonlinear_arith);
        } else {
            let m = (n - 1) as nat;
            self.lemma_idw_uniform_upto(px, py, hh, m);
            let w = self.cand_weight(px, py, n - 1);
            let y = self.cand_vertex(px, py, n - 1).y as int;
            if self.cand_valid(px, py, n - 1) && self.cand_d2(px, py, n - 1) >= SNAP_D2 {
                self.lemma_height_bounds(self.cand_hex(px, py, n - 1));
                assert(y == hh);
            } else {
                assert(y * w == hh * w) by (nonlinear_arith)
                    requires
                        w == 0;
            }
            assert(hh * (self.idw_den(px, py, m) + w) == hh * self.idw_den(px, py, m) + hh * w)
                by (nonlinear_arith);
        }
        if self.idw_den(px, py, n) > 0 {
            crate::fixed::lemma_mul_div_exact(hh, self.idw_den(px, py, n));
            if hh >= 0 {
                assert(hh * self.idw_den(px, py, n) >= 0) by (nonlinear_arith)
                    requires
                        hh >= 0,
                        self.idw_den(px, py, n) > 0;
            } else {
                assert(hh * self.idw_den(px, py, n) < 0) by (nonlinear_arith)
                    requires
                        hh < 0,
                        self.idw_den(px, py, n) > 0;
                assert(-(hh * self.idw_den(px, py, n)) == (-hh) * self.idw_den(px, py, n))
                    by (nonlinear_arith);
                crate::fixed::lemma_mul_div_exact(-hh, self.idw_den(px, py, n));
            }
        }
    }

    /// Uniform-field invariance: if every stored height equals `hh`, then
    /// every interpolation outcome is `hh` wherever the query cell exists:
    /// any snapped candidate carries height `hh`, the weighted sums divide
    /// exactly to `hh`, and the fallback cell height is `hh`.  Together
    /// with the contract of [`Self::interpolate_height`], interpolation
    /// anywhere over a uniform field returns the field's height.
    pub proof fn lemma_interpolate_uniform(self, px: int, py: int, hh: int)
        requires
            self.wf(),
            forall|h: Hex| #[trigger] self.contains_spec(h) ==> self.height_spec(h) == hh,
            -HEIGHT_LIMIT <= hh <= HEIGHT_LIMIT,
        ensures
            self.idw_num(px, py, 42) == hh * self.idw_den(px, py, 42),
            self.idw_den(px, py, 42) > 0 ==> div_trunc(
                self.idw_num(px, py, 42),
                self.idw_den(px, py, 42),
            ) == hh,
            forall|t: int|
                0 <= t < 42 && #[trigger] self.cand_valid(px, py, t) ==> self.cand_vertex(
                    px,
                    py,
                    t,
                ).y == hh,
            self.contains_spec(self.query_center(px, py)) ==> self.height_spec(
                self.query_center(px, py),
            ) == hh,
    {
        self.lemma_idw_uniform_upto(px, py, hh, 42);
    }

    /// If no candidate exists, the weight sums are zero.
    pub proof fn lemma_idw_empty(self, px: int, py: int, n: nat)
        requires
            forall|t: int| 0 <= t < n ==> !#[trigger] self.cand_valid(px, py, t),
        ensures
            self.idw_num(px, py, n) == 0,
            self.idw_den(px, py, n) == 0,
        decreases n,
    {
        if n > 0 {
            let m = (n - 1) as nat;
            self.lemma_idw_empty(px, py, m);
            let w = self.cand_weight(px, py, n - 1);
            assert(w == 0);
            assert(self.cand_vertex(px, py, n - 1).y * w == 0) by (nonlinear_arith)
                requires
                    w == 0;
        }
    }

    /// Inverse-distance-weighted height interpolation from nearby hex
    /// vertices.
    ///
    /// The candidates are the six corners of the cell under `pos` and of
    /// that cell's six neighbours.  A candidate within [`SNAP_D2`] of the
    /// query returns its height directly; otherwise the candidate heights
    /// are blended with weights inverse to squared distance.  With no
    /// weight gathered (far outside the stored region) the query cell's
    /// stored height is returned, or zero if that cell is absent.
    #[verifier::rlimit(100)]
    pub fn interpolate_height(&self, pos: Vec2Fx) -> (r: i64)
        requires
            self.wf(),
            -WORLD_POS_MAX <= pos.x <= WORLD_POS_MAX,
            -WORLD_POS_MAX <= pos.y <= WORLD_POS_MAX,
        ensures
            self.any_snap(pos.x as int, pos.y as int) ==> exists|t: int|
                0 <= t < 42 && #[trigger] self.cand_valid(pos.x as int, pos.y as int, t)
                    && self.cand_d2(pos.x as int, pos.y as int, t) < SNAP_D2 && r
                    == self.cand_vertex(pos.x as int, pos.y as int, t).y,
            !self.any_snap(pos.x as int, pos.y as int) && self.idw_den(
                pos.x as int,
                pos.y as int,
                42,
            ) > 0 ==> r == div_trunc(
                self.idw_num(pos.x as int, pos.y as int, 42),
                self.idw_den(pos.x as int, pos.y as int, 42),
            ),
            !self.any_snap(pos.x as int, pos.y as int) && self.idw_den(
                pos.x as int,
                pos.y as int,
                42,
            ) == 0 ==> r == if self.contains_spec(self.query_center(pos.x as int, pos.y as int)) {
                self.height_spec(self.query_center(pos.x as int, pos.y as int))
            } else {
                0
            },
            -HEIGHT_LIMIT <= r <= HEIGHT_LIMIT,
            (forall|h: Hex| #[trigger] self.contains_spec(h) ==> self.height_spec(h) >= 0) ==> r
                >= 0,
    {
        let ghost px = pos.x as int;
        let ghost py = pos.y as int;
        let qc = self.world_pos_to_hex(pos);
        if qc.x < -HEX_RANGE_MAX + 1 || qc.x > HEX_RANGE_MAX - 1 || qc.y < -HEX_RANGE_MAX + 1
            || qc.y > HEX_RANGE_MAX - 1 {
            proof {
                assert forall|t: int| 0 <= t < 42 implies !#[trigger] self.cand_valid(
                    px,
                    py,
                    t,
                ) by {
                    if self.cand_valid(px, py, t) {
                        let ch = self.cand_hex(px, py, t);
                        self.lemma_contained_in_range(ch);
                        if t >= 6 {
                            let kk = t / 6 - 1;
                            assert(0 <= kk < 6) by (nonlinear_arith)
                                requires
                                    6 <= t < 42,
                                    kk == t / 6 - 1;
                            assert(ch == neighbor_spec(qc, kk));
                            assert(-1 <= crate::hex::neighbor_dx(kk) <= 1);
                            assert(-1 <= crate::hex::neighbor_dy(kk) <= 1);
                            assert(-500_000_000_000_001 <= qc.x + crate::hex::neighbor_dx(kk)
                                <= 500_000_000_000_001);
                            assert(-2_000_000_000_000_000_001 <= qc.y
                                + crate::hex::neighbor_dy(kk) <= 2_000_000_000_000_000_001);
                            assert(ch.x == qc.x + crate::hex::neighbor_dx(kk));
                            assert(ch.y == qc.y + crate::hex::neighbor_dy(kk));
                        } else {
                            assert(ch == qc);
                        }
                    }
                }
                self.lemma_idw_empty(px, py, 42);
            }
            return 0;
        }
        let mut num: i128 = 0;
        let mut den: i128 = 0;
        let mut j: u8 = 0;
        while j < 7
            invariant
                self.wf(),
                -WORLD_POS_MAX <= pos.x <= WORLD_POS_MAX,
                -WORLD_POS_MAX <= pos.y <= WORLD_POS_MAX,
                px == pos.x as int,
                py == pos.y as int,
                qc == self.query_center(px, py),
                -HEX_RANGE_MAX + 1 <= qc.x <= HEX_RANGE_MAX - 1,
                -HEX_RANGE_MAX + 1 <= qc.y <= HEX_RANGE_MAX - 1,
                j <= 7,
                num == self.idw_num(px, py, (6 * j) as nat),
                den == self.idw_den(px, py, (6 * j) as nat),
                0 <= den,
                den <= (6 * j) as int * IDW_WEIGHT_MAX,
                -(HEIGHT_LIMIT * den) <= num <= HEIGHT_LIMIT * den,
                forall|s: int|
                    0 <= s < 6 * j ==> !(#[trigger] self.cand_valid(px, py, s) && self.cand_d2(
                        px,
                        py,
                        s,
                    ) < SNAP_D2),
            decreases 7 - j,
        {
            let hx = if j == 0 {
                qc
            } else {
                qc.neighbor(j - 1)
            };
            proof {
                assert(forall|k: int|
                    0 <= k < 6 ==> #[trigger] self.cand_hex(px, py, 6 * j + k) == hx);
            }
            let mut k: u8 = 0;
            while k < 6
                invariant
                    self.wf(),
                    -WORLD_POS_MAX <= pos.x <= WORLD_POS_MAX,
                    -WORLD_POS_MAX <= pos.y <= WORLD_POS_MAX,
                    px == pos.x as int,
                    py == pos.y as int,
                    j < 7,
                    k <= 6,
                    forall|kk: int|
                        0 <= kk < 6 ==> #[trigger] self.cand_hex(px, py, 6 * j + kk) == hx,
                    num == self.idw_num(px, py, (6 * j + k) as nat),
                    den == self.idw_den(px, py, (6 * j + k) as nat),
                    0 <= den,
                    den <= (6 * j + k) as int * IDW_WEIGHT_MAX,
                    -(HEIGHT_LIMIT * den) <= num <= HEIGHT_LIMIT * den,
                    forall|s: int|
                        0 <= s < 6 * j + k ==> !(#[trigger] self.cand_valid(px, py, s)
                            && self.cand_d2(px, py, s) < SNAP_D2),
                decreases 6 - k,
            {
                let ghost t = 6 * j + k;
                proof {
                    assert((6 * j as int + k as int) % 6 == k as int && (6 * j as int
                        + k as int) / 6 == j as int) by (nonlinear_arith)
                        requires
                            0 <= k < 6,
                            0 <= j;
                    assert(self.cand_hex(px, py, t as int) == hx);
                    assert(self.cand_vertex(px, py, t as int) == self.vertex_spec(
                        hx,
                        k as int,
                    ));
                }
                match self.vertex(hx, k) {
                    None => {
                        proof {
                            assert(!self.cand_valid(px, py, t as int));
                            assert(self.cand_weight(px, py, t as int) == 0);
                            assert(self.cand_vertex(px, py, t as int).y * 0int == 0)
                                by (nonlinear_arith);
                            assert(t as int * IDW_WEIGHT_MAX as int <= (t as int + 1)
                                * IDW_WEIGHT_MAX as int) by (nonlinear_arith)
                                requires
                                    t as int >= 0,
                                    IDW_WEIGHT_MAX > 0;
                        }
                    },
                    Some(v) => {
                        proof {
                            self.lemma_contained_in_range(hx);
                            self.lemma_height_bounds(hx);
                            lemma_mul_bound(self.layout.step_x as int, hx.x as int,
                                150_000_000, 2_000_000);
                            lemma_mul_bound(self.layout.half_s3 as int, hx.x as int,
                                86_602_500, 2_000_000);
                            lemma_mul_bound(2 * self.layout.half_s3 as int, hx.y as int,
                                173_205_000, 2_000_000);
                            assert(150_000_000int * 2_000_000int == 300_000_000_000_000int)
                                by (nonlinear_arith);
                            assert(86_602_500int * 2_000_000int == 173_205_000_000_000int)
                                by (nonlinear_arith);
                            assert(173_205_000int * 2_000_000int == 346_410_000_000_000int)
                                by (nonlinear_arith);
                            lemma_mul_bound(unit_corner_spec(k as int).x as int,
                                self.radius_of_spec(hx), 1_000_000, 100_000_000);
                            lemma_mul_bound(unit_corner_spec(k as int).y as int,
                                self.radius_of_spec(hx), 1_000_000, 100_000_000);
                            assert(1_000_000int * 100_000_000int == 100_000_000_000_000int)
                                by (nonlinear_arith);
                            assert(1_000_000int * 100_000_000_000_000int
                                == 100_000_000_000_000_000_000int) by (nonlinear_arith);
                            crate::fixed::lemma_div_trunc_bound(
                                unit_corner_spec(k as int).x as int * self.radius_of_spec(hx),
                                1_000_000,
                                100_000_000_000_000,
                            );
                            crate::fixed::lemma_div_trunc_bound(
                                unit_corner_spec(k as int).y as int * self.radius_of_spec(hx),
                                1_000_000,
                                100_000_000_000_000,
                            );
                        }
                        let dx = (pos.x as i128) - (v.x as i128);
                        let dz = (pos.y as i128) - (v.z as i128);
                        proof {
                            let span: int = 2_000_000_000_000_000;
                            lemma_mul_bound(dx as int, dx as int, span, span);
                            lemma_mul_bound(dz as int, dz as int, span, span);
                        }
                        let d2 = dx * dx + dz * dz;
                        if d2 < SNAP_D2 as i128 {
                            proof {
                                assert(self.cand_valid(px, py, t as int));
                                assert(self.cand_d2(px, py, t as int) < SNAP_D2);
                            }
                            return v.y;
                        }
                        let w = div_trunc_i128(IDW_SCALE, d2);
                        proof {
                            crate::fixed::lemma_div_bounds(IDW_SCALE as int, d2 as int);
                            assert(IDW_SCALE as int / d2 as int <= IDW_WEIGHT_MAX as int)
                                by (nonlinear_arith)
                                requires
                                    d2 as int >= SNAP_D2 as int,
                                    SNAP_D2 == 1_000_000_000,
                                    IDW_SCALE == 1_000_000_000_000_000_000_000_000,
                                    IDW_WEIGHT_MAX == 1_000_000_000_000_000;
                            assert(w == self.cand_weight(px, py, t as int));
                            assert(-(HEIGHT_LIMIT as int * (w as int)) <= (v.y as int) * (
                            w as int) <= HEIGHT_LIMIT as int * (w as int)) by (nonlinear_arith)
                                requires
                                    -HEIGHT_LIMIT <= v.y as int <= HEIGHT_LIMIT,
                                    0 <= w as int;
                            assert(HEIGHT_LIMIT as int * (den as int + w as int)
                                == HEIGHT_LIMIT as int * den as int + HEIGHT_LIMIT as int * (
                            w as int)) by (nonlinear_arith);
                            assert((t as int + 1) * IDW_WEIGHT_MAX as int == t as int
                                * IDW_WEIGHT_MAX as int + IDW_WEIGHT_MAX as int)
                                by (nonlinear_arith);
                            assert(den as int <= 42_000_000_000_000_000int)
                                by (nonlinear_arith)
                                requires
                                    0 <= den as int,
                                    den as int <= t as int * 1_000_000_000_000_000int,
                                    0 <= t as int <= 41;
                            assert(-42_000_000_000_000_000_000_000_000int <= HEIGHT_LIMIT as int
                                * den as int <= 42_000_000_000_000_000_000_000_000int)
                                by (nonlinear_arith)
                                requires
                                    0 <= den as int <= 42_000_000_000_000_000int,
                                    HEIGHT_LIMIT == 1_000_000_000;
                            assert(HEIGHT_LIMIT as int * (w as int)
                                <= 1_000_000_000_000_000_000_000_000int) by (nonlinear_arith)
                                requires
                                    0 <= w as int <= 1_000_000_000_000_000int,
                                    HEIGHT_LIMIT == 1_000_000_000;
                        }
                        num = num + (v.y as i128) * w;
                        den = den + w;
                    },
                }
                k = k + 1;
            }
            j = j + 1;
        }
        proof {
            self.lemma_idw_bounds(px, py, 42);
            assert(42nat * IDW_WEIGHT_MAX as int == 42_000_000_000_000_000int)
                by (nonlinear_arith);
        }
        if den > 0 {
            proof {
                assert(den as int * HEIGHT_LIMIT as int == HEIGHT_LIMIT as int * den as int)
                    by (nonlinear_arith);
                crate::fixed::lemma_div_trunc_bound(num as int, den as int, HEIGHT_LIMIT as int);
                if forall|h: Hex| #[trigger] self.contains_spec(h) ==> self.height_spec(h)
                    >= 0 {
                    self.lemma_idw_nonneg(px, py, 42);
                    crate::fixed::lemma_div_bounds(num as int, den as int);
                }
            }
            let q = div_trunc_i128(num, den);
            q as i64
        } else {
            match self.height(&qc) {
                Some(hv) => {
                    proof {
                        if forall|h: Hex| #[trigger] self.contains_spec(h) ==> self.height_spec(
                            h,
                        ) >= 0 {
                            assert(self.height_spec(qc) >= 0);
                        }
                    }
                    hv
                },
                None => 0,
            }
        }
    }
}

impl TerrainHexLayout {
    /// The placement transform of a cell's face node: translate to the
    /// centre at the cell's height, scale the unit face by the visual
    /// radius on the ground axes.
    pub open spec fn place_transform_spec(self, h: Hex) -> Transform {
        Transform {
            translation: Vec3Fx {
                x: self.layout_spec().world_x(h) as i64,
                y: self.height_spec(h) as i64,
                z: self.layout_spec().world_y(h) as i64,
            },
            scale: Vec3Fx {
                x: self.radius_of_spec(h) as i64,
                y: FX_ONE,
                z: self.radius_of_spec(h) as i64,
            },
        }
    }

    /// The placement transform of a cell's face node.
    pub fn place_transform(&self, hex: Hex) -> (r: Transform)
        requires
            self.wf(),
            self.contains_spec(hex),
        ensures
            r == self.place_transform_spec(hex),
            r.in_bounds(),
    {
        proof {
            self.lemma_contained_in_range(hex);
            self.lemma_height_bounds(hex);
            lemma_mul_bound(self.layout.step_x as int, hex.x as int, 150_000_000, 2_000_000);
            lemma_mul_bound(self.layout.half_s3 as int, hex.x as int, 86_602_500, 2_000_000);
            lemma_mul_bound(2 * self.layout.half_s3 as int, hex.y as int, 173_205_000,
                2_000_000);
            assert(150_000_000int * 2_000_000int == 300_000_000_000_000int)
                by (nonlinear_arith);
            assert(86_602_500int * 2_000_000int == 173_205_000_000_000int)
                by (nonlinear_arith);
            assert(173_205_000int * 2_000_000int == 346_410_000_000_000int)
                by (nonlinear_arith);
        }
        let center = self.layout.hex_to_world_pos(hex);
        let height = match self.height(&hex) {
            Some(h) => h,
            None => 0,
        };
        let radius = match self.radius(&hex) {
            Some(r) => r,
            None => 0,
        };
        Transform {
            translation: Vec3Fx { x: center.x, y: height, z: center.y },
            scale: Vec3Fx { x: radius, y: FX_ONE, z: radius },
        }
    }

    /// The transform that cancels the cell's placement: translation and
    /// scale divided back out, so children authored in world space render
    /// correctly under the scaled, offset face node.
    pub open spec fn inverse_transform_spec(self, h: Hex) -> Transform {
        let r = self.radius_of_spec(h);
        Transform {
            translation: Vec3Fx {
                x: div_trunc(-(self.layout_spec().world_x(h) * FX_ONE), r) as i64,
                y: (-self.height_spec(h)) as i64,
                z: div_trunc(-(self.layout_spec().world_y(h) * FX_ONE), r) as i64,
            },
            scale: Vec3Fx {
                x: div_trunc(FX_ONE * (FX_ONE as int), r) as i64,
                y: FX_ONE,
                z: div_trunc(FX_ONE * (FX_ONE as int), r) as i64,
            },
        }
    }

    /// Inverse transform that cancels the parent face node's translation
    /// and scale.
    pub fn inverse_transform(&self, hex: Hex) -> (r: Transform)
        requires
            self.wf(),
            self.contains_spec(hex),
            INVERSE_RADIUS_MIN <= self.radius_of_spec(hex),
        ensures
            r == self.inverse_transform_spec(hex),
            r.in_bounds(),
    {
        proof {
            self.lemma_contained_in_range(hex);
            self.lemma_height_bounds(hex);
            lemma_mul_bound(self.layout.step_x as int, hex.x as int, 150_000_000, 2_000_000);
            lemma_mul_bound(self.layout.half_s3 as int, hex.x as int, 86_602_500, 2_000_000);
            lemma_mul_bound(2 * self.layout.half_s3 as int, hex.y as int, 173_205_000,
                2_000_000);
            assert(150_000_000int * 2_000_000int == 300_000_000_000_000int)
                by (nonlinear_arith);
            assert(86_602_500int * 2_000_000int == 173_205_000_000_000int)
                by (nonlinear_arith);
            assert(173_205_000int * 2_000_000int == 346_410_000_000_000int)
                by (nonlinear_arith);
        }
        let center = self.layout.hex_to_world_pos(hex);
        let height = match self.height(&hex) {
            Some(h) => h,
            None => 0,
        };
        let radius = match self.radius(&hex) {
            Some(r) => r,
            None => 1,
        };
        proof {
            lemma_mul_bound(center.x as int, FX_ONE as int, 600_000_000_000_000, 1_000_000);
            lemma_mul_bound(center.y as int, FX_ONE as int, 600_000_000_000_000, 1_000_000);
            assert(600_000_000_000_000int * 1_000_000int == 600_000_000_000_000_000_000int)
                by (nonlinear_arith);
            assert(10_000int * 60_000_000_000_000_000int == 600_000_000_000_000_000_000int)
                by (nonlinear_arith);
            crate::fixed::lemma_div_trunc_bound(-(center.x as int * FX_ONE as int),
                radius as int, 60_000_000_000_000_000int);
            crate::fixed::lemma_div_trunc_bound(-(center.y as int * FX_ONE as int),
                radius as int, 60_000_000_000_000_000int);
            assert(radius as int * 60_000_000_000_000_000int
                >= 600_000_000_000_000_000_000int) by (nonlinear_arith)
                requires
                    radius as int >= 10_000;
            assert(1_000_000int * 1_000_000int == 1_000_000_000_000int) by (nonlinear_arith);
            assert(10_000int * 100_000_000int == 1_000_000_000_000int) by (nonlinear_arith);
            assert(radius as int * 100_000_000int >= 1_000_000_000_000int)
                by (nonlinear_arith)
                requires
                    radius as int >= 10_000;
            crate::fixed::lemma_div_trunc_bound(FX_ONE as int * (FX_ONE as int), radius as int,
                100_000_000int);
        }
        let tx = div_trunc_i128(-((center.x as i128) * (FX_ONE as i128)), radius as i128);
        let tz = div_trunc_i128(-((center.y as i128) * (FX_ONE as i128)), radius as i128);
        let s = div_trunc_i128((FX_ONE as i128) * (FX_ONE as i128), radius as i128);
        Transform {
            translation: Vec3Fx { x: tx as i64, y: -height, z: tz as i64 },
            scale: Vec3Fx { x: s as i64, y: FX_ONE, z: s as i64 },
        }
    }

    /// Inverse-transform cancellation: composing a cell's placement
    /// transform with its inverse transform yields the identity up to a
    /// ten-thousandth of a unit: zero translation and unit scale within
    /// one hundred subunits on the ground axes, exactly on the vertical
    /// axis.
    pub proof fn lemma_inverse_transform_cancels(self, h: Hex)
        requires
            self.wf(),
            self.contains_spec(h),
            INVERSE_RADIUS_MIN <= self.radius_of_spec(h) <= INVERSE_RADIUS_MAX,
        ensures
            ({
                let m = mul_transform_spec(
                    self.place_transform_spec(h),
                    self.inverse_transform_spec(h),
                );
                &&& -100 <= m.translation.x <= 100
                &&& m.translation.y == 0
                &&& -100 <= m.translation.z <= 100
                &&& FX_ONE - 100 <= m.scale.x <= FX_ONE
                &&& m.scale.y == FX_ONE
                &&& FX_ONE - 100 <= m.scale.z <= FX_ONE
            }),
    {
        let r = self.radius_of_spec(h);
        let hh = self.height_spec(h);
        self.lemma_contained_in_range(h);
        self.lemma_height_bounds(h);
        lemma_mul_bound(self.layout.step_x as int, h.x as int, 150_000_000, 2_000_000);
        lemma_mul_bound(self.layout.half_s3 as int, h.x as int, 86_602_500, 2_000_000);
        lemma_mul_bound(2 * self.layout.half_s3 as int, h.y as int, 173_205_000, 2_000_000);
        assert(150_000_000int * 2_000_000int == 300_000_000_000_000int) by (nonlinear_arith);
        assert(86_602_500int * 2_000_000int == 173_205_000_000_000int) by (nonlinear_arith);
        assert(173_205_000int * 2_000_000int == 346_410_000_000_000int) by (nonlinear_arith);
        // Vertical axis: the scale is one, so the height cancels exactly.
        crate::fixed::lemma_div_trunc_exact(-hh, FX_ONE as int);
        assert((-hh) * FX_ONE as int == FX_ONE as int * ((-hh) as i64) as int)
            by (nonlinear_arith)
            requires
                -HEIGHT_LIMIT <= hh <= HEIGHT_LIMIT;
        crate::fixed::lemma_div_trunc_exact(FX_ONE as int, FX_ONE as int);
        self.lemma_axis_cancels(self.layout_spec().world_x(h), r);
        self.lemma_axis_cancels(self.layout_spec().world_y(h), r);
    }

    /// One ground axis of the cancellation: placing at `c` with scale `r`
    /// and then applying the inverse offset and scale lands within one
    /// hundred subunits of the identity.
    proof fn lemma_axis_cancels(self, c: int, r: int)
        requires
            -600_000_000_000_000 <= c <= 600_000_000_000_000,
            INVERSE_RADIUS_MIN <= r <= INVERSE_RADIUS_MAX,
        ensures
            ({
                let v = div_trunc(-(c * FX_ONE), r);
                -100 <= compose_translation(c, r, v as i64 as int) <= 100
            }),
            ({
                let u = div_trunc(FX_ONE * (FX_ONE as int), r);
                FX_ONE - 100 <= compose_scale(r, u as i64 as int) <= FX_ONE
            }),
    {
        lemma_mul_bound(c, FX_ONE as int, 600_000_000_000_000, 1_000_000);
        assert(600_000_000_000_000int * 1_000_000int == 600_000_000_000_000_000_000int)
            by (nonlinear_arith);
        assert(10_000int * 60_000_000_000_000_000int == 600_000_000_000_000_000_000int)
            by (nonlinear_arith);
        crate::fixed::lemma_div_trunc_bound(-(c * FX_ONE), r, 60_000_000_000_000_000int);
        assert(r * 60_000_000_000_000_000int >= 600_000_000_000_000_000_000int)
            by (nonlinear_arith)
            requires
                r >= 10_000;
        let v = div_trunc(-(c * FX_ONE), r);
        crate::fixed::lemma_div_trunc_err(-(c * FX_ONE), r);
        let d = div_trunc(r * (v as i64 as int), FX_ONE as int);
        assert(v as i64 as int == v);
        crate::fixed::lemma_div_trunc_err(r * v, FX_ONE as int);
        assert(-100 <= c + d <= 100) by (nonlinear_arith)
            requires
                -r < -(c * FX_ONE) - v * r < r,
                -FX_ONE < r * v - d * (FX_ONE as int) < FX_ONE,
                10_000 <= r <= 50_000_000,
                FX_ONE == 1_000_000,
                r * v == v * r;
        // Scale axis.
        assert(1_000_000int * 1_000_000int == 1_000_000_000_000int) by (nonlinear_arith);
        assert(10_000int * 100_000_000int == 1_000_000_000_000int) by (nonlinear_arith);
        crate::fixed::lemma_div_trunc_bound(FX_ONE * (FX_ONE as int), r, 100_000_000int);
        assert(r * 100_000_000int >= 1_000_000_000_000int) by (nonlinear_arith)
            requires
                r >= 10_000;
        let u = div_trunc(FX_ONE * (FX_ONE as int), r);
        crate::fixed::lemma_div_trunc_err(FX_ONE * (FX_ONE as int), r);
        assert(u as i64 as int == u);
        let e = div_trunc(r * (u as i64 as int), FX_ONE as int);
        crate::fixed::lemma_div_trunc_err(r * u, FX_ONE as int);
        assert(FX_ONE - 100 <= e <= FX_ONE) by (nonlinear_arith)
            requires
                0 <= FX_ONE * (FX_ONE as int) - u * r < r,
                -FX_ONE < r * u - e * (FX_ONE as int) < FX_ONE,
                10_000 <= r <= 50_000_000,
                FX_ONE == 1_000_000,
                r * u == u * r,
                FX_ONE * (FX_ONE as int) == 1_000_000_000_000int;
    }

    /// Bounds on a contained cell's vertex positions: the vertex sits
    /// within the visual-radius limit of the cell centre, at the cell's
    /// stored height, and well within the ground-position range.
    pub proof fn lemma_vertex_coord_bounds(self, h: Hex, k: int)
        requires
            self.wf(),
            self.contains_spec(h),
            0 <= k < 6,
        ensures
            ({
                let v = self.vertex_spec(h, k);
                &&& v.y == self.height_spec(h)
                &&& -100_000_000 <= v.x - self.layout_spec().world_x(h) <= 100_000_000
                &&& -100_000_000 <= v.z - self.layout_spec().world_y(h) <= 100_000_000
                &&& -700_000_000_000_000 <= v.x <= 700_000_000_000_000
                &&& -700_000_000_000_000 <= v.z <= 700_000_000_000_000
                &&& -300_000_000_000_000 <= self.layout_spec().world_x(h)
                    <= 300_000_000_000_000
                &&& -600_000_000_000_000 <= self.layout_spec().world_y(h)
                    <= 600_000_000_000_000
            }),
    {
        self.lemma_contained_in_range(h);
        self.lemma_height_bounds(h);
        lemma_mul_bound(self.layout.step_x as int, h.x as int, 150_000_000, 2_000_000);
        lemma_mul_bound(self.layout.half_s3 as int, h.x as int, 86_602_500, 2_000_000);
        lemma_mul_bound(2 * self.layout.half_s3 as int, h.y as int, 173_205_000, 2_000_000);
        assert(150_000_000int * 2_000_000int == 300_000_000_000_000int) by (nonlinear_arith);
        assert(86_602_500int * 2_000_000int == 173_205_000_000_000int) by (nonlinear_arith);
        assert(173_205_000int * 2_000_000int == 346_410_000_000_000int) by (nonlinear_arith);
        lemma_mul_bound(unit_corner_spec(k).x as int, self.radius_of_spec(h), 1_000_000,
            100_000_000);
        lemma_mul_bound(unit_corner_spec(k).y as int, self.radius_of_spec(h), 1_000_000,
            100_000_000);
        assert(1_000_000int * 100_000_000int == 100_000_000_000_000int) by (nonlinear_arith);
        assert(1_000_000int * 100_000_000_000_000int == 100_000_000_000_000_000_000int)
            by (nonlinear_arith);
        crate::fixed::lemma_div_trunc_bound(unit_corner_spec(k).x as int * self.radius_of_spec(
            h,
        ), 1_000_000, 100_000_000_000_000);
        crate::fixed::lemma_div_trunc_bound(unit_corner_spec(k).y as int * self.radius_of_spec(
            h,
        ), 1_000_000, 100_000_000_000_000);
        crate::fixed::lemma_div_trunc_bound(unit_corner_spec(k).x as int * self.radius_of_spec(
            h,
        ), FX_ONE as int, 100_000_000_000_000);
        crate::fixed::lemma_div_trunc_bound(unit_corner_spec(k).y as int * self.radius_of_spec(
            h,
        ), FX_ONE as int, 100_000_000_000_000);
        assert(-100_000_000_000_000 <= unit_corner_spec(k).x as int * self.radius_of_spec(h)
            <= 100_000_000_000_000);
        assert(-100_000_000 * (1_000_000int) <= unit_corner_spec(k).x as int
            * self.radius_of_spec(h) <= 100_000_000 * (1_000_000int)) by (nonlinear_arith)
            requires
                -100_000_000_000_000 <= unit_corner_spec(k).x as int * self.radius_of_spec(h)
                    <= 100_000_000_000_000;
        assert(-100_000_000 * (1_000_000int) <= unit_corner_spec(k).y as int
            * self.radius_of_spec(h) <= 100_000_000 * (1_000_000int)) by (nonlinear_arith)
            requires
                -100_000_000_000_000 <= unit_corner_spec(k).y as int * self.radius_of_spec(h)
                    <= 100_000_000_000_000;
        crate::fixed::lemma_div_trunc_bound(unit_corner_spec(k).x as int * self.radius_of_spec(
            h,
        ), FX_ONE as int, 100_000_000);
        crate::fixed::lemma_div_trunc_bound(unit_corner_spec(k).y as int * self.radius_of_spec(
            h,
        ), FX_ONE as int, 100_000_000);
    }

    /// Finds the vertex position on `hex` that corresponds to the same
    /// grid vertex as `target`: the corner direction of `hex` that names
    /// the same junction, if any, with its computed position.
    pub fn find_equivalent_vertex(&self, hex: Hex, target: &GridVertex) -> (r: Option<Vec3Fx>)
        requires
            self.wf(),
            hex.in_range(),
        ensures
            r is Some <==> self.contains_spec(hex) && exists|d: int|
                0 <= d < 6 && #[trigger] same_junction(
                    GridVertex { origin: hex, direction: d as u8 },
                    *target,
                ),
            r matches Some(v) ==> exists|d: int|
                0 <= d < 6 && #[trigger] same_junction(
                    GridVertex { origin: hex, direction: d as u8 },
                    *target,
                ) && v == self.vertex_spec(hex, d),
    {
        let mut d: u8 = 0;
        while d < 6
            invariant
                self.wf(),
                hex.in_range(),
                d <= 6,
                forall|e: int|
                    0 <= e < d ==> !#[trigger] same_junction(
                        GridVertex { origin: hex, direction: e as u8 },
                        *target,
                    ),
            decreases 6 - d,
        {
            let candidate = GridVertex { origin: hex, direction: d };
            if candidate.equivalent(target) {
                proof {
                    assert(0 <= (d as int) < 6 && same_junction(
                        GridVertex { origin: hex, direction: (d as int) as u8 },
                        *target,
                    ));
                }
                return self.vertex(hex, d);
            }
            d = d + 1;
        }
        None
    }

    /// Whether this store is the one grid generation builds from the given
    /// settings and noise samples.
    pub open spec fn built_from(self, g: GridSettings, hn: Seq<i64>, rn: Seq<i64>) -> bool {
        &&& self.layout.wf()
        &&& self.layout.scale == g.point_spacing
        &&& self.center == (Hex { x: 0, y: 0 })
        &&& self.radius == g.radius
        &&& self.heights@.len() == region_size(g.radius as int)
        &&& self.radii@.len() == region_size(g.radius as int)
        &&& hn.len() == region_size(g.radius as int)
        &&& rn.len() == region_size(g.radius as int)
        &&& forall|i: int|
            0 <= i < hn.len() ==> #[trigger] self.heights@[i] == map_noise_spec(
                hn[i] as int,
                0,
                g.max_height as int,
            )
        &&& forall|i: int|
            0 <= i < rn.len() ==> #[trigger] self.radii@[i] == map_noise_spec(
                rn[i] as int,
                g.min_hex_radius as int,
                g.max_hex_radius as int,
            )
    }

    /// Determinism law: two stores built from identical settings and
    /// identical noise samples agree cell for cell, so building twice from
    /// the same configuration yields identical height and radius maps.
    pub proof fn lemma_build_deterministic(
        a: TerrainHexLayout,
        b: TerrainHexLayout,
        g: GridSettings,
        hn: Seq<i64>,
        rn: Seq<i64>,
    )
        requires
            a.built_from(g, hn, rn),
            b.built_from(g, hn, rn),
        ensures
            a.layout == b.layout,
            forall|h: Hex| a.contains_spec(h) <==> b.contains_spec(h),
            forall|h: Hex| #[trigger] a.contains_spec(h) ==> a.height_spec(h) == b.height_spec(
                h,
            ) && a.radius_of_spec(h) == b.radius_of_spec(h),
            a.height_map() == b.height_map(),
            a.radius_map() == b.radius_map(),
    {
        assert(a.layout == b.layout);
        assert forall|h: Hex| #[trigger] a.contains_spec(h) implies a.height_spec(h)
            == b.height_spec(h) && a.radius_of_spec(h) == b.radius_of_spec(h) by {
            lemma_offset_index_bounds(g.radius as int, h.x - a.center.x, h.y - a.center.y);
        }
        assert(a.height_map() =~= b.height_map()) by {
            assert forall|h: Hex| a.height_map().dom().contains(h)
                <==> b.height_map().dom().contains(h) by {}
        }
        assert(a.radius_map() =~= b.radius_map()) by {
            assert forall|h: Hex| a.radius_map().dom().contains(h)
                <==> b.radius_map().dom().contains(h) by {}
        }
    }
}

} // verus!
