use vstd::math::abs;
use vstd::prelude::*;

verus! {

/// Axial coordinate of one hexagonal cell.
///
/// The third cube component is implicit, `s = -q - r`, so the cube identity
/// `q + r + s == 0` holds of every value of this type by construction.
#[derive(Clone, Copy, Debug, Hash, PartialEq, Eq, Structural)]
pub struct HexCoordinate {
    pub q: i64,
    pub r: i64,
}

/// Hex-grid length of a coordinate: the number of steps from the origin,
/// `(|q| + |r| + |s|) / 2` with `s = -(q + r)`.
pub open spec fn hex_len(c: HexCoordinate) -> nat {
    (abs(c.q as int) + abs(c.r as int) + abs(c.q + c.r)) / 2
}

/// Hex-grid distance between two coordinates: the length of their difference.
pub open spec fn hex_dist(a: HexCoordinate, b: HexCoordinate) -> nat {
    (abs(a.q - b.q) + abs(a.r - b.r) + abs((a.q + a.r) - (b.q + b.r))) / 2
}

/// Axial offset of the neighbor in one of the six directions,
/// counted counter-clockwise from `(+q)`.
pub open spec fn neighbor_offset(direction: int) -> (int, int) {
    if direction == 0 {
        (1, 0)
    } else if direction == 1 {
        (1, -1)
    } else if direction == 2 {
        (0, -1)
    } else if direction == 3 {
        (-1, 0)
    } else if direction == 4 {
        (-1, 1)
    } else {
        (0, 1)
    }
}

/// Magnitude of an `i64`, widened so that even `i64::MIN` has one.
fn abs_i64(x: i64) -> (r: u128)
    ensures
        r == abs(x as int),
{
    if x >= 0 {
        x as u128
    } else {
        (-(x as i128)) as u128
    }
}

/// Magnitude of an `i128`; the minimum value has no `i128` negation.
pub(crate) fn abs_i128(x: i128) -> (r: u128)
    requires
        x != i128::MIN,
    ensures
        r == abs(x as int),
{
    if x >= 0 {
        x as u128
    } else {
        (-x) as u128
    }
}

impl HexCoordinate {
    pub fn new(q: i64, r: i64) -> (c: HexCoordinate)
        ensures
            c == (HexCoordinate { q, r }),
    {
        HexCoordinate { q, r }
    }

    /// The implicit third cube component, `s = -q - r`.
    pub open spec fn s(self) -> int {
        -self.q - self.r
    }

    /// Number of hex steps from the origin to this coordinate.
    pub fn length(&self) -> (n: u64)
        requires
            hex_len(*self) <= u64::MAX,
        ensures
            n == hex_len(*self),
    {
        let aq = abs_i64(self.q);
        let ar = abs_i64(self.r);
        let asum = abs_i128(self.q as i128 + self.r as i128);
        ((aq + ar + asum) / 2) as u64
    }

    /// Number of hex steps between this coordinate and `other`.
    pub fn distance(&self, other: &HexCoordinate) -> (n: u64)
        requires
            hex_dist(*self, *other) <= u64::MAX,
        ensures
            n == hex_dist(*self, *other),
    {
        let dq = abs_i128(self.q as i128 - other.q as i128);
        let dr = abs_i128(self.r as i128 - other.r as i128);
        let ds = abs_i128(
            (self.q as i128 + self.r as i128) - (other.q as i128 + other.r as i128),
        );
        ((dq + dr + ds) / 2) as u64
    }

    /// The adjacent coordinate in one of the six hex directions.
    pub fn neighbor(&self, direction: usize) -> (c: HexCoordinate)
        requires
            direction < 6,
            i64::MIN < self.q < i64::MAX,
            i64::MIN < self.r < i64::MAX,
        ensures
            c.q == self.q + neighbor_offset(direction as int).0,
            c.r == self.r + neighbor_offset(direction as int).1,
    {
        let (dq, dr): (i64, i64) = if direction == 0 {
            (1, 0)
        } else if direction == 1 {
            (1, -1)
        } else if direction == 2 {
            (0, -1)
        } else if direction == 3 {
            (-1, 0)
        } else if direction == 4 {
            (-1, 1)
        } else {
            (0, 1)
        };
        HexCoordinate { q: self.q + dq, r: self.r + dr }
    }
}

/// Every neighbor lies at hex distance exactly one from its origin.
pub proof fn lemma_neighbor_distance(c: HexCoordinate, direction: int)
    requires
        0 <= direction < 6,
        i64::MIN < c.q < i64::MAX,
        i64::MIN < c.r < i64::MAX,
    ensures
        hex_dist(
            c,
            HexCoordinate {
                q: (c.q + neighbor_offset(direction).0) as i64,
                r: (c.r + neighbor_offset(direction).1) as i64,
            },
        ) == 1,
{
}

} // verus!
