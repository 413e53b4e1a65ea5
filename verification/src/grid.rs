use crate::coord::HexCoordinate;
use crate::errors::SetupError;
use vstd::arithmetic::div_mod::lemma_fundamental_div_mod_converse;
use vstd::prelude::*;

verus! {

/// Largest number of cells a built grid may span on each axial axis.
pub const SPAN_MAX: i64 = 10_000;

/// Largest axial coordinate magnitude a grid corner may have; keeps every
/// cell of a built grid inside the range the layout transform accepts.
pub const BOUND_RANGE: i64 = 1_000_000_000;

/// Weak reference to the renderable object of one cell. The rendering
/// store owns the object; the grid only keeps the association.
#[derive(Clone, Copy, Debug, Hash, PartialEq, Eq, Structural)]
pub struct CellHandle {
    pub id: u64,
}

impl CellHandle {
    pub fn new(id: u64) -> (h: CellHandle)
        ensures
            h == (CellHandle { id }),
    {
        CellHandle { id }
    }
}

/// Inclusive rectangular region of axial coordinates: every cell with
/// `q_min <= q <= q_max` and `r_min <= r <= r_max`. This is deliberately a
/// rectangle in axial space (a parallelogram-shaped patch of hexes), not a
/// hex-shaped boundary.
#[derive(Clone, Copy, Debug, PartialEq, Eq, Structural)]
pub struct GridBounds {
    pub q_min: i64,
    pub q_max: i64,
    pub r_min: i64,
    pub r_max: i64,
}

impl GridBounds {
    /// Accepted configurations: non-empty on both axes, corners within
    /// `BOUND_RANGE`, and at most `SPAN_MAX` cells per axis.
    pub open spec fn wf(self) -> bool {
        &&& -BOUND_RANGE <= self.q_min <= self.q_max <= BOUND_RANGE
        &&& -BOUND_RANGE <= self.r_min <= self.r_max <= BOUND_RANGE
        &&& self.q_max - self.q_min < SPAN_MAX
        &&& self.r_max - self.r_min < SPAN_MAX
    }

    /// Number of q columns.
    pub open spec fn span_q(self) -> int {
        self.q_max - self.q_min + 1
    }

    /// Number of r rows.
    pub open spec fn span_r(self) -> int {
        self.r_max - self.r_min + 1
    }

    /// Number of cells in the region.
    pub open spec fn cell_count(self) -> int {
        self.span_q() * self.span_r()
    }

    /// Whether cell `c` lies in the region.
    pub open spec fn contains(self, c: HexCoordinate) -> bool {
        self.q_min <= c.q <= self.q_max && self.r_min <= c.r <= self.r_max
    }

    /// Row-major position of a contained cell in the enumeration order.
    pub open spec fn index_of(self, c: HexCoordinate) -> int {
        (c.q - self.q_min) * self.span_r() + (c.r - self.r_min)
    }

    /// The cell at row-major position `i` of the enumeration order.
    pub open spec fn coord_at(self, i: int) -> HexCoordinate {
        HexCoordinate {
            q: (self.q_min + i / self.span_r()) as i64,
            r: (self.r_min + i % self.span_r()) as i64,
        }
    }

    /// Builds the region; rejects empty, oversized or out-of-range bounds.
    pub fn new(q_min: i64, q_max: i64, r_min: i64, r_max: i64) -> (res: Result<
        GridBounds,
        SetupError,
    >)
        ensures
            res is Ok <==> (GridBounds { q_min, q_max, r_min, r_max }).wf(),
            res matches Ok(b) ==> b == (GridBounds { q_min, q_max, r_min, r_max }),
            res matches Err(e) ==> e == SetupError::Configuration,
    {
        let b = GridBounds { q_min, q_max, r_min, r_max };
        if q_min >= -BOUND_RANGE && q_min <= q_max && q_max <= BOUND_RANGE && r_min >= -BOUND_RANGE
            && r_min <= r_max && r_max <= BOUND_RANGE && q_max - q_min < SPAN_MAX && r_max - r_min
            < SPAN_MAX {
            Ok(b)
        } else {
            Err(SetupError::Configuration)
        }
    }

    /// Every cell of the region, in row-major order (`q` outer, `r` inner):
    /// position `i` holds `coord_at(i)`.
    pub fn cells(&self) -> (v: Vec<HexCoordinate>)
        requires
            self.wf(),
        ensures
            v@.len() == self.cell_count(),
            forall|i: int| 0 <= i < v@.len() ==> v@[i] == self.coord_at(i),
    {
        let mut v: Vec<HexCoordinate> = Vec::new();
        let mut qq: i64 = self.q_min;
        while qq <= self.q_max
            invariant
                self.wf(),
                self.q_min <= qq <= self.q_max + 1,
                v@.len() == (qq - self.q_min) * self.span_r(),
                forall|i: int| 0 <= i < v@.len() ==> v@[i] == self.coord_at(i),
            decreases self.q_max + 1 - qq,
        {
            let mut rr: i64 = self.r_min;
            proof {
                assert(0 <= (qq - self.q_min) * self.span_r() <= (self.q_max - self.q_min)
                    * self.span_r() <= 100_000_000) by (nonlinear_arith)
                    requires
                        0 <= qq - self.q_min <= self.q_max - self.q_min < 10_000,
                        1 <= self.span_r() <= 10_000,
                ;
            }
            while rr <= self.r_max
                invariant
                    self.wf(),
                    self.q_min <= qq <= self.q_max,
                    self.r_min <= rr <= self.r_max + 1,
                    0 <= (qq - self.q_min) * self.span_r() <= 100_000_000,
                    v@.len() == (qq - self.q_min) * self.span_r() + (rr - self.r_min),
                    forall|i: int| 0 <= i < v@.len() ==> v@[i] == self.coord_at(i),
                decreases self.r_max + 1 - rr,
            {
                proof {
                    lemma_fundamental_div_mod_converse(
                        (qq - self.q_min) * self.span_r() + (rr - self.r_min),
                        self.span_r(),
                        qq - self.q_min,
                        rr - self.r_min,
                    );
                }
                v.push(HexCoordinate { q: qq, r: rr });
                rr = rr + 1;
            }
            proof {
                assert((qq + 1 - self.q_min) * self.span_r() == (qq - self.q_min) * self.span_r()
                    + self.span_r()) by (nonlinear_arith);
            }
            qq = qq + 1;
        }
        v
    }
}

/// A contained cell's row-major position lies within the region's count.
pub proof fn lemma_index_of_range(b: GridBounds, c: HexCoordinate)
    requires
        b.wf(),
        b.contains(c),
    ensures
        0 <= b.index_of(c) < b.cell_count(),
{
    assert(0 <= (c.q - b.q_min) * b.span_r() + (c.r - b.r_min) < b.span_q() * b.span_r())
        by (nonlinear_arith)
        requires
            0 <= c.q - b.q_min <= b.span_q() - 1,
            0 <= c.r - b.r_min <= b.span_r() - 1,
            1 <= b.span_r(),
            1 <= b.span_q(),
    ;
}

/// Static mapping from every cell of a bounded region to its handle. Built
/// once at setup; read-only afterwards. Its view is the mathematical map
/// from contained coordinates to handles.
#[derive(Debug)]
pub struct GridIndex {
    pub bounds: GridBounds,
    pub handles: Vec<CellHandle>,
}

impl View for GridIndex {
    type V = Map<HexCoordinate, CellHandle>;

    open spec fn view(&self) -> Map<HexCoordinate, CellHandle> {
        Map::new(
            |c: HexCoordinate| self.bounds.contains(c),
            |c: HexCoordinate| self.handles@[self.bounds.index_of(c)],
        )
    }
}

impl GridIndex {
    /// One handle is stored for each cell of the region.
    pub open spec fn wf(self) -> bool {
        self.bounds.wf() && self.handles@.len() == self.bounds.cell_count()
    }

    /// Completes the mapping from the handles the rendering collaborator
    /// produced, one per cell in the row-major order of
    /// [`GridBounds::cells`]. A missing handle fails the whole build: a
    /// partially built grid is not a valid state.
    pub fn build(bounds: GridBounds, handles: Vec<Option<CellHandle>>) -> (res: Result<
        GridIndex,
        SetupError,
    >)
        requires
            bounds.wf(),
            handles@.len() == bounds.cell_count(),
        ensures
            res is Ok <==> (forall|i: int| 0 <= i < handles@.len() ==> handles@[i] is Some),
            res matches Ok(g) ==> {
                &&& g.wf()
                &&& g.bounds == bounds
                &&& forall|c: HexCoordinate| #[trigger]
                    bounds.contains(c) ==> g@[c] == handles@[bounds.index_of(c)].unwrap()
            },
            res matches Err(e) ==> e == SetupError::HandleCreation,
    {
        let mut out: Vec<CellHandle> = Vec::new();
        let mut i: usize = 0;
        while i < handles.len()
            invariant
                i <= handles@.len(),
                out@.len() == i,
                forall|j: int| 0 <= j < i ==> handles@[j] is Some,
                forall|j: int| 0 <= j < i ==> out@[j] == handles@[j].unwrap(),
            decreases handles@.len() - i,
        {
            match handles[i] {
                Some(h) => {
                    proof {
                        assert(handles@[i as int] is Some && handles@[i as int].unwrap() == h);
                    }
                    out.push(h);
                    proof {
                        assert(out@[i as int] == handles@[i as int].unwrap());
                    }
                },
                None => {
                    return Err(SetupError::HandleCreation);
                },
            }
            i = i + 1;
        }
        let g = GridIndex { bounds, handles: out };
        proof {
            assert forall|c: HexCoordinate| #[trigger]
                bounds.contains(c) implies g@[c] == handles@[bounds.index_of(c)].unwrap() by {
                lemma_index_of_range(bounds, c);
            }
        }
        Ok(g)
    }

    /// Number of cells the index holds.
    pub fn len(&self) -> (n: usize)
        requires
            self.wf(),
        ensures
            n == self.bounds.cell_count(),
    {
        proof {
            assert(1 <= self.bounds.span_q() * self.bounds.span_r() <= 100_000_000)
                by (nonlinear_arith)
                requires
                    1 <= self.bounds.span_q() <= 10_000,
                    1 <= self.bounds.span_r() <= 10_000,
            ;
        }
        ((self.bounds.q_max - self.bounds.q_min + 1) as usize) * ((self.bounds.r_max
            - self.bounds.r_min + 1) as usize)
    }

    /// The handle of cell `c`, or nothing when `c` lies outside the built
    /// region. Never mutates; a miss is a normal outcome, not a fault.
    pub fn lookup(&self, c: HexCoordinate) -> (res: Option<CellHandle>)
        requires
            self.wf(),
        ensures
            match res {
                Some(h) => self@.dom().contains(c) && h == self@[c],
                None => !self@.dom().contains(c),
            },
    {
        if c.q >= self.bounds.q_min && c.q <= self.bounds.q_max && c.r >= self.bounds.r_min && c.r
            <= self.bounds.r_max {
            let dq: usize = (c.q - self.bounds.q_min) as usize;
            let dr: usize = (c.r - self.bounds.r_min) as usize;
            let sr: usize = (self.bounds.r_max - self.bounds.r_min + 1) as usize;
            proof {
                lemma_index_of_range(self.bounds, c);
                assert(self.bounds.cell_count() <= 100_000_000) by (nonlinear_arith)
                    requires
                        1 <= self.bounds.span_q() <= 10_000,
                        1 <= self.bounds.span_r() <= 10_000,
                        self.bounds.cell_count() == self.bounds.span_q() * self.bounds.span_r(),
                ;
                assert(dq * sr + dr == self.bounds.index_of(c));
            }
            let idx: usize = dq * sr + dr;
            Some(self.handles[idx])
        } else {
            None
        }
    }
}

} // verus!
