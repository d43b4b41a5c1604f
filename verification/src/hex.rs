//! Axial hex coordinates, neighbour tables, and hexagonal regions.
//!
//! A cell is an axial pair `(x, y)`; the six neighbour offsets and the six
//! diagonal (vertex) offsets follow the clockwise index convention in which
//! edge `k` lies between corners `k` and `k + 1`.
//!
//! A hexagonal region of radius `R` around a centre is the set of cells
//! within hex-distance `R`, enumerated row by row: offset `dx` runs from
//! `-R` to `R`, and within a row `dy` runs from `max(-R, -dx - R)` to
//! `min(R, R - dx)`.  The row-start table gives every cell of the region a
//! dense index, which the terrain store uses as its key.

use vstd::prelude::*;

verus! {

/// Largest axial coordinate magnitude the cell operations accept.
pub const HEX_RANGE_MAX: i64 = 1_000_000_000;

/// Largest region radius the enumeration accepts.
pub const RADIUS_MAX: u32 = 1000;

/// An axial hex coordinate.
#[derive(Clone, Copy, PartialEq, Eq, Structural, Debug)]
pub struct Hex {
    /// First axial coordinate.
    pub x: i64,
    /// Second axial coordinate.
    pub y: i64,
}

/// First axial component of the neighbour offset in edge direction `k`.
pub open spec fn neighbor_dx(k: int) -> int {
    if k == 0 {
        1
    } else if k == 1 {
        0
    } else if k == 2 {
        -1
    } else if k == 3 {
        -1
    } else if k == 4 {
        0
    } else {
        1
    }
}

/// Second axial component of the neighbour offset in edge direction `k`.
pub open spec fn neighbor_dy(k: int) -> int {
    if k == 0 {
        0
    } else if k == 1 {
        1
    } else if k == 2 {
        1
    } else if k == 3 {
        0
    } else if k == 4 {
        -1
    } else {
        -1
    }
}

/// The neighbour of `h` across edge direction `k`, as ghost arithmetic.
pub open spec fn neighbor_spec(h: Hex, k: int) -> Hex {
    Hex { x: (h.x + neighbor_dx(k)) as i64, y: (h.y + neighbor_dy(k)) as i64 }
}

impl Hex {
    /// The origin cell.
    pub fn zero() -> (r: Hex)
        ensures
            r == (Hex { x: 0, y: 0 }),
    {
        Hex { x: 0, y: 0 }
    }

    /// Builds a cell from axial coordinates.
    pub fn new(x: i64, y: i64) -> (r: Hex)
        ensures
            r == (Hex { x, y }),
    {
        Hex { x, y }
    }

    /// Whether this cell's coordinates are within the supported range.
    pub open spec fn in_range(self) -> bool {
        -HEX_RANGE_MAX <= self.x <= HEX_RANGE_MAX && -HEX_RANGE_MAX <= self.y <= HEX_RANGE_MAX
    }

    /// The neighbouring cell across edge direction `k` (0 to 5, clockwise).
    pub fn neighbor(self, k: u8) -> (r: Hex)
        requires
            k < 6,
            self.in_range(),
        ensures
            r == neighbor_spec(self, k as int),
    {
        if k == 0 {
            Hex { x: self.x + 1, y: self.y }
        } else if k == 1 {
            Hex { x: self.x, y: self.y + 1 }
        } else if k == 2 {
            Hex { x: self.x - 1, y: self.y + 1 }
        } else if k == 3 {
            Hex { x: self.x - 1, y: self.y }
        } else if k == 4 {
            Hex { x: self.x, y: self.y - 1 }
        } else {
            Hex { x: self.x + 1, y: self.y - 1 }
        }
    }
}

/// Smallest `dy` of the region row at offset `dx`: `max(-R, -dx - R)`.
pub open spec fn row_lo(radius: int, dx: int) -> int {
    if -dx - radius >= -radius {
        -dx - radius
    } else {
        -radius
    }
}

/// Largest `dy` of the region row at offset `dx`: `min(R, R - dx)`.
pub open spec fn row_hi(radius: int, dx: int) -> int {
    if radius - dx <= radius {
        radius - dx
    } else {
        radius
    }
}

/// Number of cells in the region row at offset `dx`.
pub open spec fn row_len(radius: int, dx: int) -> int {
    row_hi(radius, dx) - row_lo(radius, dx) + 1
}

/// Whether the offset `(dx, dy)` lies within a hexagonal region of the
/// given radius around its centre.
pub open spec fn offset_in_region(radius: int, dx: int, dy: int) -> bool {
    -radius <= dx <= radius && row_lo(radius, dx) <= dy <= row_hi(radius, dx)
}

/// Whether cell `h` lies within the hexagonal region of the given radius
/// around `center`.
pub open spec fn region_contains(center: Hex, radius: int, h: Hex) -> bool {
    offset_in_region(radius, h.x - center.x, h.y - center.y)
}

/// Dense index of the first cell of row `i` (row `i` holds offset
/// `dx = i - R`); `row_start(R, 2R + 1)` is the total cell count.
pub open spec fn row_start(radius: int, i: int) -> int
    decreases i,
{
    if i <= 0 {
        0
    } else {
        row_start(radius, i - 1) + row_len(radius, i - 1 - radius)
    }
}

/// Total number of cells in a hexagonal region of the given radius.
pub open spec fn region_size(radius: int) -> int {
    row_start(radius, 2 * radius + 1)
}

/// Dense index of the offset `(dx, dy)` in the region enumeration.
pub open spec fn offset_index(radius: int, dx: int, dy: int) -> int {
    row_start(radius, dx + radius) + dy - row_lo(radius, dx)
}

/// Row lengths are positive within the region, so row starts strictly grow.
pub proof fn lemma_row_start_monotone(radius: int, i: int, j: int)
    requires
        0 <= i <= j <= 2 * radius + 1,
    ensures
        row_start(radius, i) <= row_start(radius, j),
        i < j ==> row_start(radius, i) + row_len(radius, i - radius) <= row_start(radius, j),
    decreases j - i,
{
    if i < j {
        lemma_row_start_monotone(radius, i + 1, j);
    }
}

/// Each region row's indices stay below the start of the next row, so the
/// dense index is injective over the region.
pub proof fn lemma_offset_index_injective(
    radius: int,
    dx1: int,
    dy1: int,
    dx2: int,
    dy2: int,
)
    requires
        offset_in_region(radius, dx1, dy1),
        offset_in_region(radius, dx2, dy2),
        offset_index(radius, dx1, dy1) == offset_index(radius, dx2, dy2),
    ensures
        dx1 == dx2 && dy1 == dy2,
{
    if dx1 != dx2 {
        if dx1 < dx2 {
            lemma_row_start_monotone(radius, dx1 + radius + 1, dx2 + radius);
        } else {
            lemma_row_start_monotone(radius, dx2 + radius + 1, dx1 + radius);
        }
    }
}

/// The dense index of every region offset lies below the region size.
pub proof fn lemma_offset_index_bounds(radius: int, dx: int, dy: int)
    requires
        offset_in_region(radius, dx, dy),
    ensures
        0 <= offset_index(radius, dx, dy) < region_size(radius),
        row_start(radius, dx + radius) <= offset_index(radius, dx, dy),
        offset_index(radius, dx, dy) < row_start(radius, dx + radius + 1),
{
    lemma_row_start_monotone(radius, 0, dx + radius);
    lemma_row_start_monotone(radius, dx + radius + 1, 2 * radius + 1);
}

/// Row starts are bounded by the widest row times the row count.
pub proof fn lemma_row_start_bound(radius: int, i: int)
    requires
        0 <= radius,
        0 <= i <= 2 * radius + 1,
    ensures
        0 <= row_start(radius, i),
        row_start(radius, i) <= (2 * radius + 1) * i,
    decreases i,
{
    if i > 0 {
        lemma_row_start_bound(radius, i - 1);
        assert((2 * radius + 1) * (i - 1) + (2 * radius + 1) == (2 * radius + 1) * i)
            by (nonlinear_arith);
    } else {
        assert((2 * radius + 1) * i >= 0) by (nonlinear_arith)
            requires
                0 <= radius,
                0 <= i;
    }
}

/// A region of radius at most `RADIUS_MAX` has fewer cells than fit in a
/// `usize`.
pub proof fn lemma_region_size_bound(radius: int)
    requires
        0 <= radius <= RADIUS_MAX,
    ensures
        0 <= region_size(radius) <= 4_004_001,
{
    lemma_row_start_bound(radius, 2 * radius + 1);
    assert((2 * radius + 1) * (2 * radius + 1) <= 4_004_001) by (nonlinear_arith)
        requires
            0 <= radius <= 1000;
}

/// Builds the row-start table of a hexagonal region: entry `i` is the dense
/// index of the first cell of row `i`, and the final entry is the total
/// cell count.
pub fn region_row_starts(radius: u32) -> (r: Vec<usize>)
    requires
        radius <= RADIUS_MAX,
    ensures
        r@.len() == 2 * radius + 2,
        forall|i: int| 0 <= i < r@.len() ==> #[trigger] r@[i] == row_start(radius as int, i),
        region_size(radius as int) <= usize::MAX,
{
    let rad = radius as usize;
    let n = 2 * rad + 1;
    let mut starts: Vec<usize> = Vec::new();
    starts.push(0);
    let mut i: usize = 0;
    while i < n
        invariant
            i <= n,
            n == 2 * radius + 1,
            rad == radius,
            radius <= RADIUS_MAX,
            starts@.len() == i + 1,
            forall|k: int|
                0 <= k < starts@.len() ==> #[trigger] starts@[k] == row_start(radius as int, k),
            starts@[i as int] <= (2 * radius + 1) * (i as int),
        decreases n - i,
    {
        let dx_plus_r = i;
        // Row length 2R + 1 - |dx| computed from the row index i = dx + R.
        let len: usize = if dx_plus_r < rad {
            rad + 1 + dx_plus_r
        } else {
            rad + 1 + (2 * rad - dx_plus_r)
        };
        proof {
            assert(len == row_len(radius as int, i - radius));
            assert(starts@[i as int] + len <= (2 * radius + 1) * (i as int + 1))
                by (nonlinear_arith)
                requires
                    starts@[i as int] <= (2 * radius + 1) * (i as int),
                    len <= 2 * radius + 1,
                    0 <= i,
                    radius >= 0;
            assert((2 * radius + 1) * (i as int + 1) <= (2 * RADIUS_MAX + 1) * (2 * RADIUS_MAX
                + 1)) by (nonlinear_arith)
                requires
                    0 <= i + 1 <= 2 * radius + 1,
                    0 <= radius <= RADIUS_MAX;
            assert((2 * RADIUS_MAX as int + 1) * (2 * RADIUS_MAX as int + 1) == 4_004_001)
                by (nonlinear_arith);
        }
        let prev = starts[i];
        starts.push(prev + len);
        i = i + 1;
    }
    proof {
        assert(starts@[(2 * radius + 1) as int] == region_size(radius as int));
    }
    starts
}

/// Whether `h` is the region cell of dense index `i`: in the region, and
/// enumerated at position `i`.
pub open spec fn region_cell_at(center: Hex, radius: int, h: Hex, i: int) -> bool {
    region_contains(center, radius, h) && offset_index(radius, h.x - center.x, h.y - center.y)
        == i
}

/// Number of cells in a hexagonal region of the given radius.
pub fn region_size_of(radius: u32) -> (r: usize)
    requires
        radius <= RADIUS_MAX,
    ensures
        r == region_size(radius as int),
{
    let starts = region_row_starts(radius);
    starts[2 * (radius as usize) + 1]
}

/// Enumerates the hexagonal region of the given radius around `center`,
/// row by row; cell `i` of the result carries dense index `i`.
pub fn hexagon_region(center: Hex, radius: u32) -> (r: Vec<Hex>)
    requires
        radius <= RADIUS_MAX,
        center.in_range(),
    ensures
        r@.len() == region_size(radius as int),
        forall|i: int|
            0 <= i < r@.len() ==> #[trigger] region_cell_at(center, radius as int, r@[i], i),
        forall|h: Hex| region_contains(center, radius as int, h) ==> #[trigger] r@.contains(h),
{
    let rad = radius as i64;
    let mut cells: Vec<Hex> = Vec::new();
    let mut dx: i64 = -rad;
    proof {
        lemma_row_start_monotone(radius as int, 0, 2 * radius as int + 1);
        lemma_region_size_bound(radius as int);
    }
    while dx <= rad
        invariant
            center.in_range(),
            radius <= RADIUS_MAX,
            rad == radius,
            -rad <= dx <= rad + 1,
            cells@.len() == row_start(radius as int, dx + rad),
            cells@.len() <= region_size(radius as int) <= usize::MAX,
            forall|i: int|
                0 <= i < cells@.len() ==> #[trigger] region_cell_at(
                    center,
                    radius as int,
                    cells@[i],
                    i,
                ),
        decreases rad + 1 - dx,
    {
        let lo: i64 = if -dx - rad >= -rad {
            -dx - rad
        } else {
            -rad
        };
        let hi: i64 = if rad - dx <= rad {
            rad - dx
        } else {
            rad
        };
        let mut dy: i64 = lo;
        proof {
            lemma_row_start_monotone(radius as int, dx + rad + 1, 2 * radius as int + 1);
        }
        while dy <= hi
            invariant
                center.in_range(),
                radius <= RADIUS_MAX,
                rad == radius,
                -rad <= dx <= rad,
                lo == row_lo(radius as int, dx as int),
                hi == row_hi(radius as int, dx as int),
                lo <= dy <= hi + 1,
                cells@.len() == row_start(radius as int, dx + rad) + dy - lo,
                row_start(radius as int, dx + rad + 1) <= region_size(radius as int)
                    <= usize::MAX,
                forall|i: int|
                    0 <= i < cells@.len() ==> #[trigger] region_cell_at(
                        center,
                        radius as int,
                        cells@[i],
                        i,
                    ),
            decreases hi + 1 - dy,
        {
            let h = Hex { x: center.x + dx, y: center.y + dy };
            proof {
                assert(region_cell_at(center, radius as int, h, cells@.len() as int));
            }
            cells.push(h);
            dy = dy + 1;
        }
        dx = dx + 1;
    }
    proof {
        assert forall|h: Hex| region_contains(center, radius as int, h) implies #[trigger] cells@.contains(
            h,
        ) by {
            let dxh = h.x - center.x;
            let dyh = h.y - center.y;
            lemma_offset_index_bounds(radius as int, dxh, dyh);
            let k = offset_index(radius as int, dxh, dyh);
            assert(region_cell_at(center, radius as int, cells@[k], k));
            lemma_offset_index_injective(
                radius as int,
                cells@[k].x - center.x,
                cells@[k].y - center.y,
                dxh,
                dyh,
            );
            assert(cells@[k] == h);
        }
    }
    cells
}

/// A grid vertex: a three-cell junction named by one of its incident cells
/// (`origin`) and the corner direction (0 to 5) of that cell pointing at it.
#[derive(Clone, Copy, PartialEq, Eq, Structural, Debug)]
pub struct GridVertex {
    /// The labelling cell.
    pub origin: Hex,
    /// The corner direction on `origin`, 0 to 5.
    pub direction: u8,
}

/// The same junction named by the next incident cell clockwise: the
/// neighbour across the edge clockwise of the corner, which sees the
/// junction at its corner four steps further round.
pub open spec fn label_cw(g: GridVertex) -> GridVertex {
    GridVertex {
        origin: neighbor_spec(g.origin, g.direction as int),
        direction: (((g.direction + 4) as u8) % 6) as u8,
    }
}

/// The same junction named by the next incident cell counter-clockwise:
/// the neighbour across the edge counter-clockwise of the corner, which
/// sees the junction at its corner two steps further round.
pub open spec fn label_ccw(g: GridVertex) -> GridVertex {
    GridVertex {
        origin: neighbor_spec(g.origin, ((g.direction + 5) as u8 % 6) as int),
        direction: (((g.direction + 2) as u8) % 6) as u8,
    }
}

/// Whether `a` and `b` name the same junction: identical, or shifted to
/// either of the two other incident cells.
pub open spec fn same_junction(a: GridVertex, b: GridVertex) -> bool {
    b == a || b == label_cw(a) || b == label_ccw(a)
}

/// The three cells incident to the junction, in clockwise order starting
/// from the labelling cell.
pub open spec fn junction_coords(g: GridVertex) -> (Hex, Hex, Hex) {
    (
        g.origin,
        neighbor_spec(g.origin, ((g.direction + 5) as u8 % 6) as int),
        neighbor_spec(g.origin, g.direction as int),
    )
}

impl GridVertex {
    /// Whether the origin is in coordinate range and the direction valid.
    pub open spec fn wf(self) -> bool {
        self.origin.in_range() && self.direction < 6
    }

    /// Returns the three incident cell coordinates in clockwise order,
    /// starting with the labelling cell itself.
    pub fn coordinates(&self) -> (r: (Hex, Hex, Hex))
        requires
            self.wf(),
        ensures
            r == junction_coords(*self),
    {
        let prev = (self.direction + 5) % 6;
        (self.origin, self.origin.neighbor(prev), self.origin.neighbor(self.direction))
    }

    /// Checks whether `self` and `other` name the same junction, meaning
    /// either identical or shifted between adjacent incident cells.
    pub fn equivalent(&self, other: &GridVertex) -> (r: bool)
        requires
            self.wf(),
        ensures
            r == same_junction(*self, *other),
    {
        if self.origin.x == other.origin.x && self.origin.y == other.origin.y
            && self.direction == other.direction {
            return true;
        }
        let cw_origin = self.origin.neighbor(self.direction);
        let cw_dir = (self.direction + 4) % 6;
        if cw_origin.x == other.origin.x && cw_origin.y == other.origin.y && cw_dir
            == other.direction {
            return true;
        }
        let ccw_origin = self.origin.neighbor((self.direction + 5) % 6);
        let ccw_dir = (self.direction + 2) % 6;
        if ccw_origin.x == other.origin.x && ccw_origin.y == other.origin.y && ccw_dir
            == other.direction {
            return true;
        }
        false
    }
}

/// Whether a corner direction owns its junction: only directions 0 and 1
/// ever own, one per junction parity class.
pub open spec fn is_owner_dir(k: int) -> bool {
    k == 0 || k == 1
}

/// Every junction has exactly one owning label: of the three equivalent
/// labels of any grid vertex, exactly one has direction 0 or 1.
pub proof fn lemma_junction_owner(g: GridVertex)
    requires
        g.wf(),
    ensures
        is_owner_dir(g.direction as int) ==> !is_owner_dir(label_cw(g).direction as int)
            && !is_owner_dir(label_ccw(g).direction as int),
        !is_owner_dir(g.direction as int) ==> (is_owner_dir(label_cw(g).direction as int)
            || is_owner_dir(label_ccw(g).direction as int)),
        !(is_owner_dir(label_cw(g).direction as int) && is_owner_dir(
            label_ccw(g).direction as int,
        )),
{
}

/// Shifting a junction label to the clockwise incident cell and back (or
/// counter-clockwise and back) returns the original label, so each label
/// names the junction of its two shifted forms.
pub proof fn lemma_label_inverse(g: GridVertex)
    requires
        g.direction < 6,
        -HEX_RANGE_MAX + 2 <= g.origin.x <= HEX_RANGE_MAX - 2,
        -HEX_RANGE_MAX + 2 <= g.origin.y <= HEX_RANGE_MAX - 2,
    ensures
        label_cw(label_ccw(g)) == g,
        label_ccw(label_cw(g)) == g,
        same_junction(label_cw(g), g),
        same_junction(label_ccw(g), g),
{
}

/// Two owning labels of the same junction are the same label.
pub proof fn lemma_junction_owner_unique(a: GridVertex, b: GridVertex)
    requires
        a.wf(),
        b.wf(),
        is_owner_dir(a.direction as int),
        is_owner_dir(b.direction as int),
        same_junction(a, b),
    ensures
        a == b,
{
}

/// The neighbour across edge `k` sees the shared edge from the opposite
/// direction: stepping across edge `k` and then across edge `(k + 3) % 6`
/// returns to the start, and exactly one of the two directions is even.
pub proof fn lemma_edge_owner(h: Hex, k: int)
    requires
        h.in_range(),
        0 <= k < 6,
    ensures
        neighbor_spec(neighbor_spec(h, k), (k + 3) % 6) == h,
        (k % 2 == 0) <==> ((k + 3) % 6) % 2 != 0,
{
}

} // verus!
