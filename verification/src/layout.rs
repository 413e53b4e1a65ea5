use crate::coord::abs_i128;
use crate::coord::HexCoordinate;
use crate::errors::SetupError;
use vstd::arithmetic::div_mod::lemma_fundamental_div_mod;
use vstd::arithmetic::div_mod::lemma_fundamental_div_mod_converse;
use vstd::arithmetic::div_mod::lemma_mod_bound;
use vstd::math::abs;
use vstd::prelude::*;

verus! {

/// Positions on the world plane are held in fixed point: one world unit is
/// `SCALE` ticks. All layout arithmetic is exact over these ticks, which is
/// what makes the center round-trip law provable rather than approximate.
pub const SCALE: i64 = 1_000_000;

/// `3/2`, in ticks per unit.
pub const COEF_THREE_HALVES: i64 = 1_500_000;

/// `sqrt(3)` rounded to the nearest tick.
pub const COEF_SQRT3: i64 = 1_732_051;

/// `sqrt(3)/2` rounded to the nearest tick.
pub const COEF_HALF_SQRT3: i64 = 866_025;

/// Smallest accepted hex size, in ticks (one hundredth of a world unit).
pub const MIN_HEX_SIZE: i64 = 10_000;

/// Largest accepted hex size, in ticks (one thousand world units).
pub const MAX_HEX_SIZE: i64 = 1_000_000_000;

/// Largest basis-matrix entry an accepted layout can hold:
/// `MAX_HEX_SIZE * COEF_SQRT3 / SCALE`.
pub const ENTRY_MAX: i64 = 1_732_051_000;

/// Smallest diagonal basis entry an accepted layout can hold:
/// `MIN_HEX_SIZE * COEF_THREE_HALVES / SCALE`.
pub const DIAG_MIN: i64 = 15_000;

/// Lower bound on the basis determinant of an accepted layout.
pub const DET_MIN: i64 = 225_000_000;

/// Upper bound on the basis determinant of an accepted layout.
pub const DET_MAX: i64 = 3_100_000_000_000_000_000;

/// Cursor hit points handed to `world_to_hex` must lie within this many
/// ticks of the origin on each axis (a billion world units).
pub const WORLD_MAX: i64 = 1_000_000_000_000_000;

/// Coordinates accepted by `hex_to_world` on each axial axis.
pub const HEX_RANGE: i64 = 2_000_000_000;

/// Bound on each axial axis of a coordinate returned by `world_to_hex`.
pub const HEX_BOUND: i64 = 100_000_000_000_000_000;

/// A point on the 2D world plane, in fixed-point ticks.
#[derive(Clone, Copy, Debug, Hash, PartialEq, Eq, Structural)]
pub struct WorldPos {
    pub x: i64,
    pub y: i64,
}

/// Which pair of hexagon sides is horizontal; fixes the basis matrix.
#[derive(Clone, Copy, Debug, PartialEq, Eq, Structural)]
pub enum Orientation {
    FlatTop,
    PointyTop,
}

/// Bidirectional transform between axial hex coordinates and world-plane
/// positions.
///
/// The forward map is the 2x2 basis matrix `(f00 f01; f10 f11)` applied to
/// `(q, r)`; the entries are in ticks, so the map is exact integer
/// arithmetic. The inverse map divides by the determinant and rounds to the
/// nearest cell. Built once at setup and read-only afterwards.
#[derive(Clone, Copy, Debug, PartialEq, Eq, Structural)]
pub struct HexLayout {
    pub f00: i64,
    pub f01: i64,
    pub f10: i64,
    pub f11: i64,
    /// The basis determinant `f00 * f11 - f01 * f10`, kept alongside the
    /// entries so the inverse map does not recompute it.
    pub det: i64,
}

/// The basis entries `(f00, f01, f10, f11)` for a hex size of `sx` by `sy`
/// ticks: columns scale the unit q- and r-axis directions of the chosen
/// orientation.
pub open spec fn basis_entries(o: Orientation, sx: int, sy: int) -> (int, int, int, int) {
    match o {
        Orientation::FlatTop => (
            sx * COEF_THREE_HALVES / SCALE as int,
            0,
            sy * COEF_HALF_SQRT3 / SCALE as int,
            sy * COEF_SQRT3 / SCALE as int,
        ),
        Orientation::PointyTop => (
            sx * COEF_SQRT3 / SCALE as int,
            sx * COEF_HALF_SQRT3 / SCALE as int,
            0,
            sy * COEF_THREE_HALVES / SCALE as int,
        ),
    }
}

impl HexLayout {
    /// Basis determinant as a mathematical integer.
    pub open spec fn det_spec(self) -> int {
        self.f00 * self.f11 - self.f01 * self.f10
    }

    /// Well-formedness: entry ranges that every accepted configuration
    /// produces, and a stored determinant that matches the entries and is
    /// far enough from zero for the inverse map to stay in range.
    pub open spec fn wf(self) -> bool {
        &&& DIAG_MIN <= self.f00 <= ENTRY_MAX
        &&& DIAG_MIN <= self.f11 <= ENTRY_MAX
        &&& 0 <= self.f01 <= ENTRY_MAX
        &&& 0 <= self.f10 <= ENTRY_MAX
        &&& self.det == self.det_spec()
        &&& DET_MIN <= self.det <= DET_MAX
    }

    /// World-plane x of the center of cell `c`, in ticks.
    pub open spec fn world_x(self, c: HexCoordinate) -> int {
        self.f00 * c.q + self.f01 * c.r
    }

    /// World-plane y of the center of cell `c`, in ticks.
    pub open spec fn world_y(self, c: HexCoordinate) -> int {
        self.f10 * c.q + self.f11 * c.r
    }

    /// The world-plane center of cell `c`.
    pub open spec fn center(self, c: HexCoordinate) -> WorldPos {
        WorldPos { x: self.world_x(c) as i64, y: self.world_y(c) as i64 }
    }

    /// Builds the layout for the given orientation and hex size (`size_x`,
    /// `size_y` in ticks); rejects sizes outside
    /// `[MIN_HEX_SIZE, MAX_HEX_SIZE]`.
    pub fn new(orientation: Orientation, size_x: i64, size_y: i64) -> (res: Result<
        HexLayout,
        SetupError,
    >)
        ensures
            res is Ok <==> (MIN_HEX_SIZE <= size_x <= MAX_HEX_SIZE && MIN_HEX_SIZE <= size_y
                <= MAX_HEX_SIZE),
            res matches Ok(l) ==> {
                &&& l.wf()
                &&& l.f00 == basis_entries(orientation, size_x as int, size_y as int).0
                &&& l.f01 == basis_entries(orientation, size_x as int, size_y as int).1
                &&& l.f10 == basis_entries(orientation, size_x as int, size_y as int).2
                &&& l.f11 == basis_entries(orientation, size_x as int, size_y as int).3
            },
            res matches Err(e) ==> e == SetupError::Configuration,
    {
        if size_x < MIN_HEX_SIZE || size_x > MAX_HEX_SIZE || size_y < MIN_HEX_SIZE || size_y
            > MAX_HEX_SIZE {
            return Err(SetupError::Configuration);
        }
        let (f00, f01, f10, f11): (i64, i64, i64, i64) = match orientation {
            Orientation::FlatTop => (
                scaled_entry(size_x, COEF_THREE_HALVES),
                0,
                scaled_entry(size_y, COEF_HALF_SQRT3),
                scaled_entry(size_y, COEF_SQRT3),
            ),
            Orientation::PointyTop => (
                scaled_entry(size_x, COEF_SQRT3),
                scaled_entry(size_x, COEF_HALF_SQRT3),
                0,
                scaled_entry(size_y, COEF_THREE_HALVES),
            ),
        };
        proof {
            assert(DIAG_MIN * DIAG_MIN <= f00 * f11 <= ENTRY_MAX * ENTRY_MAX)
                by (nonlinear_arith)
                requires
                    15_000 <= f00 <= 1_732_051_000,
                    15_000 <= f11 <= 1_732_051_000,
            ;
        }
        let det: i64 = f00 * f11 - f01 * f10;
        Ok(HexLayout { f00, f01, f10, f11, det })
    }

    /// Exact forward transform: the world-plane center of cell `c`.
    pub fn hex_to_world(&self, c: HexCoordinate) -> (p: WorldPos)
        requires
            self.wf(),
            -HEX_RANGE <= c.q <= HEX_RANGE,
            -HEX_RANGE <= c.r <= HEX_RANGE,
        ensures
            p == self.center(c),
            p.x == self.world_x(c),
            p.y == self.world_y(c),
    {
        proof {
            assert(-4_000_000_000_000_000_000 <= self.f00 * c.q <= 4_000_000_000_000_000_000
                && -4_000_000_000_000_000_000 <= self.f01 * c.r <= 4_000_000_000_000_000_000
                && -4_000_000_000_000_000_000 <= self.f10 * c.q <= 4_000_000_000_000_000_000
                && -4_000_000_000_000_000_000 <= self.f11 * c.r <= 4_000_000_000_000_000_000)
                by (nonlinear_arith)
                requires
                    0 <= self.f00 <= 1_732_051_000,
                    0 <= self.f01 <= 1_732_051_000,
                    0 <= self.f10 <= 1_732_051_000,
                    0 <= self.f11 <= 1_732_051_000,
                    -2_000_000_000 <= c.q <= 2_000_000_000,
                    -2_000_000_000 <= c.r <= 2_000_000_000,
            ;
        }
        WorldPos { x: self.f00 * c.q + self.f01 * c.r, y: self.f10 * c.q + self.f11 * c.r }
    }
}

/// Largest numerator magnitude that the inverse transform can produce from
/// an in-window point: `2 * ENTRY_MAX * WORLD_MAX`, rounded up.
pub const NUM_MAX: i128 = 3_500_000_000_000_000_000_000_000;

/// Twice `NUM_MAX`: bound on the derived third-axis numerator.
pub const NUM2_MAX: i128 = 7_000_000_000_000_000_000_000_000;

/// Bound on one independently rounded axis: `NUM2_MAX / DET_MIN`, rounded up.
pub const ROUND_BOUND: i128 = 40_000_000_000_000_000;

/// The integer nearest to the exact quotient `n / d`, ties away from zero.
pub open spec fn round_nearest(n: int, d: int) -> int
    recommends
        1 <= d,
{
    let a = if n >= 0 {
        n
    } else {
        -n
    };
    let q0 = a / d;
    let rem = a % d;
    let m = if 2 * rem >= d {
        q0 + 1
    } else {
        q0
    };
    if n >= 0 {
        m
    } else {
        -m
    }
}

/// Axial rounding of the exact fractional coordinate `(nq/d, nr/d)`: round
/// q, r and the derived s to the nearest integers independently, then
/// recompute the axis with the largest rounding error from the other two,
/// so that the returned pair is always a valid cell. Error ties fall on the
/// s axis, then on r.
pub open spec fn axial_round(nq: int, nr: int, d: int) -> (int, int)
    recommends
        1 <= d,
{
    let ns = -nq - nr;
    let qi = round_nearest(nq, d);
    let ri = round_nearest(nr, d);
    let si = round_nearest(ns, d);
    let dq = abs(qi * d - nq);
    let dr = abs(ri * d - nr);
    let ds = abs(si * d - ns);
    if dq > dr && dq > ds {
        (-ri - si, ri)
    } else if dr > ds {
        (qi, -qi - si)
    } else {
        (qi, ri)
    }
}

/// Rounding an exact multiple of the denominator gives back the multiplier.
pub proof fn lemma_round_nearest_exact(k: int, d: int)
    requires
        1 <= d,
    ensures
        round_nearest(k * d, d) == k,
{
    let n = k * d;
    if k >= 0 {
        assert(n >= 0) by (nonlinear_arith)
            requires
                n == k * d,
                k >= 0,
                d >= 1,
        ;
        lemma_fundamental_div_mod_converse(n, d, k, 0);
        assert(round_nearest(n, d) == k);
    } else {
        assert(n <= -d) by (nonlinear_arith)
            requires
                n == k * d,
                k <= -1,
                d >= 1,
        ;
        assert(-n == (-k) * d) by (nonlinear_arith)
            requires
                n == k * d,
        ;
        lemma_fundamental_div_mod_converse(-n, d, -k, 0);
        assert(round_nearest(n, d) == k);
    }
}

/// The rounded value is within half a denominator of the exact quotient:
/// `|round_nearest(n, d) * d - n| <= d / 2`, stated two-sidedly.
pub proof fn lemma_round_nearest_close(n: int, d: int)
    requires
        1 <= d,
    ensures
        2 * (round_nearest(n, d) * d - n) <= d,
        2 * (n - round_nearest(n, d) * d) <= d,
{
    let a = if n >= 0 {
        n
    } else {
        -n
    };
    lemma_fundamental_div_mod(a, d);
    lemma_mod_bound(a, d);
    let q0 = a / d;
    let rem = a % d;
    assert(d * q0 == q0 * d) by (nonlinear_arith);
    if 2 * rem >= d {
        assert((q0 + 1) * d == q0 * d + d) by (nonlinear_arith);
        assert(2 * ((q0 + 1) * d - a) <= d);
        assert(2 * (a - (q0 + 1) * d) <= d);
    } else {
        assert(2 * (q0 * d - a) <= d);
        assert(2 * (a - q0 * d) <= d);
    }
    if n < 0 {
        let m = round_nearest(n, d);
        assert(m * d == -((-m) * d)) by (nonlinear_arith);
    }
}

/// With a determinant at least `DET_MIN` and an in-range numerator, the
/// rounded axis stays within `ROUND_BOUND`.
pub proof fn lemma_round_nearest_bound(n: int, d: int)
    requires
        DET_MIN <= d <= DET_MAX,
        -NUM2_MAX <= n <= NUM2_MAX,
    ensures
        -ROUND_BOUND <= round_nearest(n, d) <= ROUND_BOUND,
{
    lemma_round_nearest_close(n, d);
    let m = round_nearest(n, d);
    assert(-40_000_000_000_000_000 <= m <= 40_000_000_000_000_000) by (nonlinear_arith)
        requires
            2 * (m * d - n) <= d,
            2 * (n - m * d) <= d,
            225_000_000 <= d <= 3_100_000_000_000_000_000,
            -7_000_000_000_000_000_000_000_000 <= n <= 7_000_000_000_000_000_000_000_000,
    ;
}

/// Rounding correctness at cell boundaries: whatever axis the correction
/// rewrites, every axis of the returned cell — the implicit s axis
/// included — stays within one whole denominator of the exact fractional
/// coordinate, so a boundary point can only resolve to one of the cells
/// that touch it. The returned pair is a valid cell by construction: its
/// cube components `(q, r, -q - r)` always sum to zero.
pub proof fn lemma_axial_round_close(nq: int, nr: int, d: int)
    requires
        1 <= d,
    ensures
        ({
            let qr = axial_round(nq, nr, d);
            let ns = -nq - nr;
            let sv = -qr.0 - qr.1;
            &&& -d <= qr.0 * d - nq <= d
            &&& -d <= qr.1 * d - nr <= d
            &&& -d <= sv * d - ns <= d
        }),
{
    let ns = -nq - nr;
    let qi = round_nearest(nq, d);
    let ri = round_nearest(nr, d);
    let si = round_nearest(ns, d);
    lemma_round_nearest_close(nq, d);
    lemma_round_nearest_close(nr, d);
    lemma_round_nearest_close(ns, d);
    assert((-ri - si) * d == -(ri * d) - (si * d)) by (nonlinear_arith);
    assert((-qi - si) * d == -(qi * d) - (si * d)) by (nonlinear_arith);
    assert((-qi - ri) * d == -(qi * d) - (ri * d)) by (nonlinear_arith);
}

/// Executable round-to-nearest of the exact quotient `n / d`.
fn round_nearest_exec(n: i128, d: i128) -> (r: i128)
    requires
        1 <= d,
        -NUM2_MAX <= n <= NUM2_MAX,
    ensures
        r == round_nearest(n as int, d as int),
{
    let a: u128 = abs_i128(n);
    let du: u128 = d as u128;
    let q0: u128 = a / du;
    let rem: u128 = a % du;
    proof {
        lemma_fundamental_div_mod(a as int, du as int);
        lemma_mod_bound(a as int, du as int);
        assert(q0 <= a) by (nonlinear_arith)
            requires
                a == du * q0 + rem,
                rem >= 0,
                du >= 1,
                q0 >= 0,
        ;
    }
    let m: u128 = if 2 * rem >= du {
        q0 + 1
    } else {
        q0
    };
    if n >= 0 {
        m as i128
    } else {
        -(m as i128)
    }
}

/// Executable axial rounding; also bounds the returned cell so it fits the
/// coordinate type.
fn axial_round_exec(nq: i128, nr: i128, d: i128) -> (c: (i64, i64))
    requires
        DET_MIN <= d <= DET_MAX,
        -NUM_MAX <= nq <= NUM_MAX,
        -NUM_MAX <= nr <= NUM_MAX,
    ensures
        c.0 == axial_round(nq as int, nr as int, d as int).0,
        c.1 == axial_round(nq as int, nr as int, d as int).1,
        -HEX_BOUND <= c.0 <= HEX_BOUND,
        -HEX_BOUND <= c.1 <= HEX_BOUND,
{
    let ns: i128 = -nq - nr;
    let qi = round_nearest_exec(nq, d);
    let ri = round_nearest_exec(nr, d);
    let si = round_nearest_exec(ns, d);
    proof {
        lemma_round_nearest_bound(nq as int, d as int);
        lemma_round_nearest_bound(nr as int, d as int);
        lemma_round_nearest_bound(ns as int, d as int);
        assert(qi * d <= 124_000_000_000_000_000_000_000_000_000_000_000 && qi * d
            >= -124_000_000_000_000_000_000_000_000_000_000_000 && ri * d
            <= 124_000_000_000_000_000_000_000_000_000_000_000 && ri * d
            >= -124_000_000_000_000_000_000_000_000_000_000_000 && si * d
            <= 124_000_000_000_000_000_000_000_000_000_000_000 && si * d
            >= -124_000_000_000_000_000_000_000_000_000_000_000) by (nonlinear_arith)
            requires
                -40_000_000_000_000_000 <= qi <= 40_000_000_000_000_000,
                -40_000_000_000_000_000 <= ri <= 40_000_000_000_000_000,
                -40_000_000_000_000_000 <= si <= 40_000_000_000_000_000,
                0 < d <= 3_100_000_000_000_000_000,
        ;
    }
    let dq: u128 = abs_i128(qi * d - nq);
    let dr: u128 = abs_i128(ri * d - nr);
    let ds: u128 = abs_i128(si * d - ns);
    let qr: (i128, i128) = if dq > dr && dq > ds {
        (-ri - si, ri)
    } else if dr > ds {
        (qi, -qi - si)
    } else {
        (qi, ri)
    };
    (qr.0 as i64, qr.1 as i64)
}

impl HexLayout {
    /// Numerator of the exact fractional q coordinate of `p`; the
    /// denominator is the determinant.
    pub open spec fn frac_q_num(self, p: WorldPos) -> int {
        self.f11 * p.x - self.f01 * p.y
    }

    /// Numerator of the exact fractional r coordinate of `p`.
    pub open spec fn frac_r_num(self, p: WorldPos) -> int {
        self.f00 * p.y - self.f10 * p.x
    }

    /// The cell that contains the world-plane point `p`: the inverse basis
    /// transform followed by axial rounding.
    pub open spec fn hex_at(self, p: WorldPos) -> HexCoordinate {
        let qr = axial_round(self.frac_q_num(p), self.frac_r_num(p), self.det as int);
        HexCoordinate { q: qr.0 as i64, r: qr.1 as i64 }
    }

    /// Exact inverse transform: the cell containing `p`, for any point
    /// within the supported world window.
    pub fn world_to_hex(&self, p: WorldPos) -> (c: HexCoordinate)
        requires
            self.wf(),
            -WORLD_MAX <= p.x <= WORLD_MAX,
            -WORLD_MAX <= p.y <= WORLD_MAX,
        ensures
            c == self.hex_at(p),
            -HEX_BOUND <= c.q <= HEX_BOUND,
            -HEX_BOUND <= c.r <= HEX_BOUND,
    {
        proof {
            assert(-1_740_000_000_000_000_000_000_000 <= (self.f11 as int) * (p.x as int)
                <= 1_740_000_000_000_000_000_000_000 && -1_740_000_000_000_000_000_000_000 <= (
            self.f01 as int) * (p.y as int) <= 1_740_000_000_000_000_000_000_000
                && -1_740_000_000_000_000_000_000_000 <= (self.f00 as int) * (p.y as int)
                <= 1_740_000_000_000_000_000_000_000 && -1_740_000_000_000_000_000_000_000 <= (
            self.f10 as int) * (p.x as int) <= 1_740_000_000_000_000_000_000_000)
                by (nonlinear_arith)
                requires
                    0 <= self.f00 <= 1_732_051_000,
                    0 <= self.f01 <= 1_732_051_000,
                    0 <= self.f10 <= 1_732_051_000,
                    0 <= self.f11 <= 1_732_051_000,
                    -1_000_000_000_000_000 <= p.x <= 1_000_000_000_000_000,
                    -1_000_000_000_000_000 <= p.y <= 1_000_000_000_000_000,
            ;
        }
        let nq: i128 = (self.f11 as i128) * (p.x as i128) - (self.f01 as i128) * (p.y as i128);
        let nr: i128 = (self.f00 as i128) * (p.y as i128) - (self.f10 as i128) * (p.x as i128);
        let qr = axial_round_exec(nq, nr, self.det as i128);
        HexCoordinate { q: qr.0, r: qr.1 }
    }
}

/// Round trip at cell centers: a cell within the supported range whose
/// center lies in the world window is recovered exactly by the inverse
/// transform. The fractional coordinate of a center is an exact lattice
/// point, so every axis rounds with zero error.
pub proof fn lemma_center_round_trip(l: HexLayout, c: HexCoordinate)
    requires
        l.wf(),
        -HEX_RANGE <= c.q <= HEX_RANGE,
        -HEX_RANGE <= c.r <= HEX_RANGE,
        -WORLD_MAX <= l.world_x(c) <= WORLD_MAX,
        -WORLD_MAX <= l.world_y(c) <= WORLD_MAX,
    ensures
        l.hex_at(l.center(c)) == c,
{
    let f00 = l.f00 as int;
    let f01 = l.f01 as int;
    let f10 = l.f10 as int;
    let f11 = l.f11 as int;
    let q = c.q as int;
    let r = c.r as int;
    let dd = l.det as int;
    let p = l.center(c);
    assert(p.x == f00 * q + f01 * r && p.y == f10 * q + f11 * r);
    assert(l.frac_q_num(p) == dd * q) by (nonlinear_arith)
        requires
            l.frac_q_num(p) == f11 * (f00 * q + f01 * r) - f01 * (f10 * q + f11 * r),
            dd == f00 * f11 - f01 * f10,
    ;
    assert(l.frac_r_num(p) == dd * r) by (nonlinear_arith)
        requires
            l.frac_r_num(p) == f00 * (f10 * q + f11 * r) - f10 * (f00 * q + f01 * r),
            dd == f00 * f11 - f01 * f10,
    ;
    assert(-(dd * q) - (dd * r) == (-q - r) * dd) by (nonlinear_arith);
    assert(dd * q == q * dd) by (nonlinear_arith);
    assert(dd * r == r * dd) by (nonlinear_arith);
    lemma_round_nearest_exact(q, dd);
    lemma_round_nearest_exact(r, dd);
    lemma_round_nearest_exact(-q - r, dd);
    assert((-q - r) * dd - ((-q - r) * dd) == 0);
    assert(axial_round(dd * q, dd * r, dd) == (q, r));
    assert(l.hex_at(p) == c);
}

/// One basis entry: `size * coef / SCALE`, computed without overflow.
fn scaled_entry(size: i64, coef: i64) -> (e: i64)
    requires
        MIN_HEX_SIZE <= size <= MAX_HEX_SIZE,
        coef == COEF_THREE_HALVES || coef == COEF_SQRT3 || coef == COEF_HALF_SQRT3,
    ensures
        e == size * coef / SCALE as int,
        coef == COEF_THREE_HALVES ==> DIAG_MIN <= e,
        coef == COEF_SQRT3 ==> DIAG_MIN <= e,
        0 <= e <= ENTRY_MAX,
{
    let prod: u64 = (size as u64) * (coef as u64);
    (prod / 1_000_000) as i64
}

} // verus!
