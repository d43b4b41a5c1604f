//! The bijective mapping between axial hex coordinates and world-space
//! ground-plane positions.
//!
//! Flat-topped orientation: a cell `(x, y)` sits at world position
//! `(step_x * x, half_s3 * x + 2 * half_s3 * y)`, where `step_x` is
//! three halves of the scale and `half_s3` the fixed-point half of the
//! scale times the square root of three.  Both are integers stored in the
//! layout, so cell centres are exact lattice points and the nearest-cell
//! rounding of `world_pos_to_hex` inverts `hex_to_world_pos` exactly.

use vstd::prelude::*;

use crate::fixed::{
    FX_ONE, div_round, div_round_i128, lemma_div_monotone, lemma_div_round_err,
    lemma_div_round_exact, lemma_mul_bound,
};
use crate::hex::{HEX_RANGE_MAX, Hex};
use crate::vec::Vec2Fx;

verus! {

/// Largest layout scale (distance between adjacent cell centres), in
/// subunits: one hundred world units.
pub const SCALE_MAX: i64 = 100_000_000;

/// Largest ground-plane coordinate magnitude `world_pos_to_hex` accepts,
/// in subunits: a billion world units.
pub const WORLD_POS_MAX: i64 = 1_000_000_000_000_000;

/// Fixed-point value of half the square root of three.
pub const HALF_SQRT3_FX: i64 = 866_025;

/// Maps axial hex coordinates to world/ground positions and back,
/// parameterized by the distance between adjacent cell centres.
#[derive(Clone, Copy, PartialEq, Eq, Structural, Debug)]
pub struct HexLayout {
    /// Distance between adjacent cell centres, in subunits; even, so that
    /// the lattice steps below are exact integers.
    pub scale: i64,
    /// World x distance between columns: three halves of `scale`.
    pub step_x: i64,
    /// Half the world y offset of one column step: `scale` times half the
    /// square root of three, rounded down.
    pub half_s3: i64,
}

impl HexLayout {
    /// The layout's internal consistency: the lattice steps are the stated
    /// functions of the scale, within their ranges.
    pub open spec fn wf(self) -> bool {
        &&& 2 <= self.scale <= SCALE_MAX
        &&& self.scale % 2 == 0
        &&& self.step_x == 3 * (self.scale / 2)
        &&& self.half_s3 == self.scale * HALF_SQRT3_FX / (FX_ONE as int)
        &&& 3 <= self.step_x <= 150_000_000
        &&& 1 <= self.half_s3 <= 86_602_500
    }

    /// Builds a layout from the distance between adjacent cell centres.
    pub fn from_scale(scale: i64) -> (r: HexLayout)
        requires
            2 <= scale <= SCALE_MAX,
            scale % 2 == 0,
        ensures
            r.wf(),
            r.scale == scale,
    {
        let half = scale / 2;
        let step_x = 3 * half;
        proof {
            lemma_mul_bound(scale as int, HALF_SQRT3_FX as int, SCALE_MAX as int,
                HALF_SQRT3_FX as int);
            assert(scale * HALF_SQRT3_FX >= 2 * HALF_SQRT3_FX) by (nonlinear_arith)
                requires
                    scale >= 2,
                    HALF_SQRT3_FX == 866_025;
            assert(SCALE_MAX as int * HALF_SQRT3_FX as int == 86_602_500_000_000)
                by (nonlinear_arith);
            assert(scale * HALF_SQRT3_FX <= 86_602_500_000_000) by (nonlinear_arith)
                requires
                    2 <= scale <= SCALE_MAX,
                    HALF_SQRT3_FX == 866_025,
                    SCALE_MAX == 100_000_000;
            lemma_div_monotone(2 * HALF_SQRT3_FX as int, scale as int * HALF_SQRT3_FX as int,
                FX_ONE as int);
            lemma_div_monotone(scale as int * HALF_SQRT3_FX as int, 86_602_500_000_000,
                FX_ONE as int);
        }
        let half_s3 = scale * HALF_SQRT3_FX / FX_ONE;
        HexLayout { scale, step_x, half_s3 }
    }

    /// World x coordinate of the centre of cell `h`, as ghost arithmetic.
    pub open spec fn world_x(self, h: Hex) -> int {
        self.step_x * h.x
    }

    /// World y (ground-plane) coordinate of the centre of cell `h`,
    /// as ghost arithmetic.
    pub open spec fn world_y(self, h: Hex) -> int {
        self.half_s3 * h.x + 2 * self.half_s3 * h.y
    }

    /// World-space ground position of a hex centre.
    pub fn hex_to_world_pos(&self, h: Hex) -> (r: Vec2Fx)
        requires
            self.wf(),
            h.in_range(),
        ensures
            r.x == self.world_x(h),
            r.y == self.world_y(h),
    {
        proof {
            lemma_mul_bound(self.step_x as int, h.x as int, 150_000_000, HEX_RANGE_MAX as int);
            lemma_mul_bound(self.half_s3 as int, h.x as int, 86_602_500, HEX_RANGE_MAX as int);
            lemma_mul_bound(2 * self.half_s3 as int, h.y as int, 173_205_000, HEX_RANGE_MAX as int);
            assert(150_000_000int * 1_000_000_000int == 150_000_000_000_000_000int)
                by (nonlinear_arith);
            assert(86_602_500int * 1_000_000_000int == 86_602_500_000_000_000int)
                by (nonlinear_arith);
            assert(173_205_000int * 1_000_000_000int == 173_205_000_000_000_000int)
                by (nonlinear_arith);
        }
        let x = (self.step_x as i128) * (h.x as i128);
        let y = (self.half_s3 as i128) * (h.x as i128) + (2 * (self.half_s3 as i128)) * (h.y
            as i128);
        Vec2Fx { x: x as i64, y: y as i64 }
    }

    /// The nearest-cell rounding of a ground position, as ghost
    /// arithmetic: fractional axial coordinates over the common
    /// denominator `2 * half_s3 * step_x`, rounded with the larger
    /// rounding error corrected along its axis.
    pub open spec fn world_to_hex_spec(self, px: int, py: int) -> Hex {
        let den = 2 * self.half_s3 * self.step_x;
        let qn = px * (2 * self.half_s3);
        let rn = py * self.step_x - self.half_s3 * px;
        let q0 = div_round(qn, den);
        let r0 = div_round(rn, den);
        let dq = qn - q0 * den;
        let dr = rn - r0 * den;
        let abs_dq = if dq >= 0 { dq } else { -dq };
        let abs_dr = if dr >= 0 { dr } else { -dr };
        if abs_dq >= abs_dr {
            Hex { x: (q0 + div_round(2 * dq + dr, 2 * den)) as i64, y: r0 as i64 }
        } else {
            Hex { x: q0 as i64, y: (r0 + div_round(2 * dr + dq, 2 * den)) as i64 }
        }
    }

    /// Hex cell containing a world-space ground position, by nearest-cell
    /// rounding of the fractional axial coordinates.
    pub fn world_pos_to_hex(&self, pos: Vec2Fx) -> (r: Hex)
        requires
            self.wf(),
            -WORLD_POS_MAX <= pos.x <= WORLD_POS_MAX,
            -WORLD_POS_MAX <= pos.y <= WORLD_POS_MAX,
        ensures
            r == self.world_to_hex_spec(pos.x as int, pos.y as int),
            -500_000_000_000_000 <= r.x <= 500_000_000_000_000,
            -2_000_000_000_000_000_000 <= r.y <= 2_000_000_000_000_000_000,
    {
        let half_s3 = self.half_s3 as i128;
        let step_x = self.step_x as i128;
        let px = pos.x as i128;
        let py = pos.y as i128;
        proof {
            lemma_mul_bound(2 * half_s3 as int, step_x as int, 173_205_000, 150_000_000);
            lemma_mul_bound(px as int, 2 * half_s3 as int, WORLD_POS_MAX as int, 173_205_000);
            lemma_mul_bound(py as int, step_x as int, WORLD_POS_MAX as int, 150_000_000);
            lemma_mul_bound(half_s3 as int, px as int, 86_602_500, WORLD_POS_MAX as int);
            assert(173_205_000int * 150_000_000int == 25_980_750_000_000_000int)
                by (nonlinear_arith);
            assert(1_000_000_000_000_000int * 173_205_000int
                == 173_205_000_000_000_000_000_000int) by (nonlinear_arith);
            assert(1_000_000_000_000_000int * 150_000_000int
                == 150_000_000_000_000_000_000_000int) by (nonlinear_arith);
            assert(86_602_500int * 1_000_000_000_000_000int
                == 86_602_500_000_000_000_000_000int) by (nonlinear_arith);
        }
        let den = 2 * half_s3 * step_x;
        let qn = px * (2 * half_s3);
        let rn = py * step_x - half_s3 * px;
        proof {
            assert(den >= 6) by (nonlinear_arith)
                requires
                    den == 2 * half_s3 * step_x,
                    half_s3 >= 1,
                    step_x >= 3;
            lemma_div_round_err(qn as int, den as int);
            lemma_div_round_err(rn as int, den as int);
        }
        let q0 = div_round_i128(qn, den);
        let r0 = div_round_i128(rn, den);
        let dq = qn - q0 * den;
        let dr = rn - r0 * den;
        proof {
            lemma_div_round_err(2 * dq as int + dr as int, 2 * den as int);
            lemma_div_round_err(2 * dr as int + dq as int, 2 * den as int);
            // The correction term rounds a fraction below one, so it is -1,
            // 0 or 1; with it the cell coordinate stays near the quotient.
            lemma_cell_bound(qn as int, den as int, q0 as int, px as int, step_x as int,
                half_s3 as int);
            lemma_row_cell_bound(rn as int, den as int, r0 as int, px as int, py as int,
                step_x as int, half_s3 as int);
        }
        let abs_dq = if dq >= 0 { dq } else { -dq };
        let abs_dr = if dr >= 0 { dr } else { -dr };
        if abs_dq >= abs_dr {
            let corr = div_round_i128(2 * dq + dr, 2 * den);
            proof {
                lemma_corr_bound(2 * dq as int + dr as int, den as int, corr as int);
            }
            Hex { x: (q0 + corr) as i64, y: r0 as i64 }
        } else {
            let corr = div_round_i128(2 * dr + dq, 2 * den);
            proof {
                lemma_corr_bound(2 * dr as int + dq as int, den as int, corr as int);
            }
            Hex { x: q0 as i64, y: (r0 + corr) as i64 }
        }
    }
}

/// The rounded column quotient is bounded by the position over the column
/// step.
proof fn lemma_cell_bound(qn: int, den: int, q0: int, px: int, step_x: int, half_s3: int)
    requires
        den == 2 * half_s3 * step_x,
        qn == px * (2 * half_s3),
        q0 == div_round(qn, den),
        -WORLD_POS_MAX <= px <= WORLD_POS_MAX,
        3 <= step_x <= 150_000_000,
        1 <= half_s3 <= 86_602_500,
    ensures
        -400_000_000_000_000 <= q0 <= 400_000_000_000_000,
{
    assert(den >= 6) by (nonlinear_arith)
        requires
            den == 2 * half_s3 * step_x,
            half_s3 >= 1,
            step_x >= 3;
    lemma_div_round_err(qn, den);
    assert(-400_000_000_000_000 <= q0 <= 400_000_000_000_000) by (nonlinear_arith)
        requires
            -den <= 2 * (qn - q0 * den) <= den,
            den == 2 * half_s3 * step_x,
            qn == px * (2 * half_s3),
            -WORLD_POS_MAX <= px <= WORLD_POS_MAX,
            3 <= step_x,
            1 <= half_s3,
            WORLD_POS_MAX == 1_000_000_000_000_000;
}

/// The rounded row quotient is bounded by the position over the row step.
proof fn lemma_row_cell_bound(
    rn: int,
    den: int,
    r0: int,
    px: int,
    py: int,
    step_x: int,
    half_s3: int,
)
    requires
        den == 2 * half_s3 * step_x,
        rn == py * step_x - half_s3 * px,
        r0 == div_round(rn, den),
        -WORLD_POS_MAX <= px <= WORLD_POS_MAX,
        -WORLD_POS_MAX <= py <= WORLD_POS_MAX,
        3 <= step_x <= 150_000_000,
        1 <= half_s3 <= 86_602_500,
    ensures
        -1_000_000_000_000_000_000 <= r0 <= 1_000_000_000_000_000_000,
{
    assert(den >= 6) by (nonlinear_arith)
        requires
            den == 2 * half_s3 * step_x,
            half_s3 >= 1,
            step_x >= 3;
    lemma_div_round_err(rn, den);
    assert(-1_000_000_000_000_000_000 <= r0 <= 1_000_000_000_000_000_000) by (nonlinear_arith)
        requires
            -den <= 2 * (rn - r0 * den) <= den,
            den == 2 * half_s3 * step_x,
            rn == py * step_x - half_s3 * px,
            -WORLD_POS_MAX <= px <= WORLD_POS_MAX,
            -WORLD_POS_MAX <= py <= WORLD_POS_MAX,
            3 <= step_x,
            1 <= half_s3,
            WORLD_POS_MAX == 1_000_000_000_000_000;
}

/// The axis correction rounds a fraction of magnitude below one:
/// it is -1, 0 or 1.
proof fn lemma_corr_bound(num: int, den: int, corr: int)
    requires
        den >= 3,
        -2 * den <= num <= 2 * den,
        corr == div_round(num, 2 * den),
    ensures
        -1 <= corr <= 1,
{
    lemma_div_round_err(num, 2 * den);
    assert(-1 <= corr <= 1) by (nonlinear_arith)
        requires
            -2 * den <= 2 * (num - corr * (2 * den)) <= 2 * den,
            -2 * den <= num <= 2 * den,
            den >= 3;
}

/// Layout round-trip: the nearest-cell rounding of a cell centre is that
/// cell, for every cell in coordinate range.
pub proof fn lemma_world_hex_roundtrip(l: HexLayout, h: Hex)
    requires
        l.wf(),
        h.in_range(),
    ensures
        l.world_to_hex_spec(l.world_x(h), l.world_y(h)) == h,
{
    let den = 2 * l.half_s3 * l.step_x;
    let px = l.world_x(h);
    let py = l.world_y(h);
    let qn = px * (2 * l.half_s3);
    let rn = py * l.step_x - l.half_s3 * px;
    assert(den > 0) by (nonlinear_arith)
        requires
            den == 2 * l.half_s3 * l.step_x,
            l.half_s3 >= 1,
            l.step_x >= 3;
    assert(qn == h.x * den) by (nonlinear_arith)
        requires
            px == l.step_x * h.x,
            qn == px * (2 * l.half_s3),
            den == 2 * l.half_s3 * l.step_x;
    assert(rn == h.y * den) by (nonlinear_arith)
        requires
            px == l.step_x * h.x,
            py == l.half_s3 * h.x + 2 * l.half_s3 * h.y,
            rn == py * l.step_x - l.half_s3 * px,
            den == 2 * l.half_s3 * l.step_x;
    lemma_div_round_exact(h.x as int, den);
    lemma_div_round_exact(h.y as int, den);
    let q0 = div_round(qn, den);
    let r0 = div_round(rn, den);
    assert(q0 == h.x);
    assert(r0 == h.y);
    assert(qn - q0 * den == 0) by (nonlinear_arith)
        requires
            qn == h.x * den,
            q0 == h.x;
    assert(rn - r0 * den == 0) by (nonlinear_arith)
        requires
            rn == h.y * den,
            r0 == h.y;
    assert(0 * (2 * den) == 0) by (nonlinear_arith);
    lemma_div_round_exact(0, 2 * den);
    assert(div_round(0, 2 * den) == 0);
}

/// Adjacent cell centres are at most one lattice step apart on each world
/// axis.
pub proof fn lemma_world_neighbor_diff(l: HexLayout, h: Hex, k: int)
    requires
        l.wf(),
        -2_000_000 <= h.x <= 2_000_000,
        -2_000_000 <= h.y <= 2_000_000,
        0 <= k < 6,
    ensures
        ({
            let n = crate::hex::neighbor_spec(h, k);
            &&& -150_000_000 <= l.world_x(n) - l.world_x(h) <= 150_000_000
            &&& -433_012_500 <= l.world_y(n) - l.world_y(h) <= 433_012_500
        }),
{
    let n = crate::hex::neighbor_spec(h, k);
    let dx = crate::hex::neighbor_dx(k);
    let dy = crate::hex::neighbor_dy(k);
    assert(n.x == h.x + dx && n.y == h.y + dy);
    assert(l.step_x * (h.x + dx) == l.step_x * h.x + l.step_x * dx) by (nonlinear_arith);
    assert(-150_000_000 <= l.step_x * dx <= 150_000_000) by (nonlinear_arith)
        requires
            -1 <= dx <= 1,
            3 <= l.step_x <= 150_000_000;
    assert(l.half_s3 * (h.x + dx) == l.half_s3 * h.x + l.half_s3 * dx) by (nonlinear_arith);
    assert(2 * l.half_s3 * (h.y + dy) == 2 * l.half_s3 * h.y + 2 * l.half_s3 * dy)
        by (nonlinear_arith);
    assert(-86_602_500 <= l.half_s3 * dx <= 86_602_500) by (nonlinear_arith)
        requires
            -1 <= dx <= 1,
            1 <= l.half_s3 <= 86_602_500;
    assert(-346_410_000 <= 2 * l.half_s3 * dy <= 346_410_000) by (nonlinear_arith)
        requires
            -1 <= dy <= 1,
            1 <= l.half_s3 <= 86_602_500;
}

/// Unit corner offset of corner `k` of a hexagon of unit radius centred at
/// the origin: the point at angle `60 degrees * k` on the unit circle, in
/// fixed point.
pub open spec fn unit_corner_spec(k: int) -> Vec2Fx {
    if k == 0 {
        Vec2Fx { x: FX_ONE, y: 0 }
    } else if k == 1 {
        Vec2Fx { x: 500_000, y: HALF_SQRT3_FX }
    } else if k == 2 {
        Vec2Fx { x: (-500_000) as i64, y: HALF_SQRT3_FX }
    } else if k == 3 {
        Vec2Fx { x: (-FX_ONE) as i64, y: 0 }
    } else if k == 4 {
        Vec2Fx { x: (-500_000) as i64, y: (-HALF_SQRT3_FX) as i64 }
    } else {
        Vec2Fx { x: 500_000, y: (-HALF_SQRT3_FX) as i64 }
    }
}

/// Returns the corner offset of a unit-radius hexagon for corner index
/// `k` (0 to 5), shared by every hex: corner `k` sits at angle
/// `60 degrees * k`, so edge `k` runs between corners `k` and `k + 1`.
pub fn center_aligned_unit_corner(k: u8) -> (r: Vec2Fx)
    requires
        k < 6,
    ensures
        r == unit_corner_spec(k as int),
{
    if k == 0 {
        Vec2Fx { x: FX_ONE, y: 0 }
    } else if k == 1 {
        Vec2Fx { x: 500_000, y: HALF_SQRT3_FX }
    } else if k == 2 {
        Vec2Fx { x: -500_000, y: HALF_SQRT3_FX }
    } else if k == 3 {
        Vec2Fx { x: -FX_ONE, y: 0 }
    } else if k == 4 {
        Vec2Fx { x: -500_000, y: -HALF_SQRT3_FX }
    } else {
        Vec2Fx { x: 500_000, y: -HALF_SQRT3_FX }
    }
}

} // verus!
