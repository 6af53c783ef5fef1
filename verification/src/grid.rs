//! Axial coordinates on the hexagonal grid.
use vstd::prelude::*;

verus! {

/// A cell of the hexagonal grid in axial coordinates.
#[derive(Debug, Clone, Copy, PartialEq, Eq, Hash, Structural)]
pub struct NodeCoord {
    pub q: i32,
    pub r: i32,
}

/// Absolute value of a mathematical integer.
pub open spec fn abs(x: int) -> int {
    if x < 0 {
        -x
    } else {
        x
    }
}

/// Hexagonal distance between two axial coordinates.
pub open spec fn hex_distance(a: NodeCoord, b: NodeCoord) -> int {
    (abs(a.q - b.q) + abs(a.r - b.r) + abs((a.q + a.r) - (b.q + b.r))) / 2
}

/// The six axial offsets that lead from a cell to its neighbors, in the
/// order in which `neighbors` lists them.
pub open spec fn neighbor_offsets() -> Seq<(int, int)> {
    seq![(1, 0), (-1, 0), (0, 1), (0, -1), (1, -1), (-1, 1)]
}

/// Two cells are adjacent when their distance is exactly one.
pub open spec fn adjacent(a: NodeCoord, b: NodeCoord) -> bool {
    hex_distance(a, b) == 1
}

/// The integer under which a coordinate is stored in ordered maps.
/// It orders coordinates lexicographically by `(q, r)`.
pub open spec fn coord_key(c: NodeCoord) -> u64 {
    ((c.q + 0x8000_0000) * 0x1_0000_0000 + (c.r + 0x8000_0000)) as u64
}

/// Lexicographic order on `(q, r)`.
pub open spec fn coord_lt(a: NodeCoord, b: NodeCoord) -> bool {
    a.q < b.q || (a.q == b.q && a.r < b.r)
}

/// The coordinate that a key stands for.
pub open spec fn key_coord(k: u64) -> NodeCoord {
    NodeCoord {
        q: (k / 0x1_0000_0000 - 0x8000_0000) as i32,
        r: (k % 0x1_0000_0000 - 0x8000_0000) as i32,
    }
}

impl NodeCoord {
    /// Creates the coordinate `(q, r)`.
    pub fn new(q: i32, r: i32) -> (c: Self)
        ensures
            c == (NodeCoord { q, r }),
    {
        NodeCoord { q, r }
    }

    /// Whether all six neighbors of this cell are representable.
    pub open spec fn interior(self) -> bool {
        &&& i32::MIN < self.q < i32::MAX
        &&& i32::MIN < self.r < i32::MAX
    }

    /// The six neighbors `(q±1, r)`, `(q, r±1)`, `(q+1, r-1)`, `(q-1, r+1)`.
    pub fn neighbors(&self) -> (out: [NodeCoord; 6])
        requires
            self.interior(),
        ensures
            forall|i: int|
                0 <= i < 6 ==> (#[trigger] out[i]).q == self.q + neighbor_offsets()[i].0 && out[i].r
                    == self.r + neighbor_offsets()[i].1,
    {
        [
            NodeCoord::new(self.q + 1, self.r),
            NodeCoord::new(self.q - 1, self.r),
            NodeCoord::new(self.q, self.r + 1),
            NodeCoord::new(self.q, self.r - 1),
            NodeCoord::new(self.q + 1, self.r - 1),
            NodeCoord::new(self.q - 1, self.r + 1),
        ]
    }

    /// Whether `other` lies at distance one.
    pub fn is_adjacent(&self, other: &NodeCoord) -> (b: bool)
        ensures
            b == adjacent(*self, *other),
    {
        Self::wide_distance(self, other) == 1
    }

    /// Hexagonal distance `(|dq| + |dr| + |dq + dr|) / 2`, for two cells
    /// whose distance fits the result type.
    pub fn distance(&self, other: &NodeCoord) -> (d: u32)
        requires
            hex_distance(*self, *other) <= u32::MAX,
        ensures
            d == hex_distance(*self, *other),
    {
        Self::wide_distance(self, other) as u32
    }

    /// The distance in a type that holds it for every pair of cells.
    fn wide_distance(a: &NodeCoord, b: &NodeCoord) -> (d: i64)
        ensures
            d == hex_distance(*a, *b),
    {
        let dq: i64 = a.q as i64 - b.q as i64;
        let dr: i64 = a.r as i64 - b.r as i64;
        let ds: i64 = dq + dr;
        let aq: i64 = if dq < 0 { -dq } else { dq };
        let ar: i64 = if dr < 0 { -dr } else { dr };
        let a_s: i64 = if ds < 0 { -ds } else { ds };
        (aq + ar + a_s) / 2
    }

    /// The key under which this coordinate is stored.
    pub fn key(&self) -> (k: u64)
        ensures
            k == coord_key(*self),
    {
        let hi: u64 = (self.q as i64 + 0x8000_0000) as u64;
        let lo: u64 = (self.r as i64 + 0x8000_0000) as u64;
        hi * 0x1_0000_0000 + lo
    }

    /// The coordinate stored under `k`.
    pub fn from_key(k: u64) -> (c: NodeCoord)
        ensures
            c == key_coord(k),
            coord_key(c) == k,
    {
        let hi: i64 = (k / 0x1_0000_0000) as i64;
        let lo: i64 = (k % 0x1_0000_0000) as i64;
        NodeCoord { q: (hi - 0x8000_0000) as i32, r: (lo - 0x8000_0000) as i32 }
    }
}

/// Every neighbor of a cell lies at distance one from it, and the cell is
/// not among its own neighbors.
pub proof fn lemma_neighbors_adjacent(c: NodeCoord, i: int)
    requires
        c.interior(),
        0 <= i < 6,
    ensures
        ({
            let n = NodeCoord {
                q: (c.q + neighbor_offsets()[i].0) as i32,
                r: (c.r + neighbor_offsets()[i].1) as i32,
            };
            hex_distance(c, n) == 1 && n != c
        }),
{
}

/// A cell at distance one is one of the six neighbors.
pub proof fn lemma_adjacent_is_neighbor(c: NodeCoord, n: NodeCoord)
    requires
        adjacent(c, n),
    ensures
        exists|i: int|
            0 <= i < 6 && n.q == c.q + (#[trigger] neighbor_offsets()[i]).0 && n.r == c.r
                + neighbor_offsets()[i].1,
{
    let dq = n.q - c.q;
    let dr = n.r - c.r;
    assert(abs(-dq) + abs(-dr) + abs(-(dq + dr)) == 2 || abs(-dq) + abs(-dr) + abs(-(dq + dr))
        == 3);
    if dq == 1 && dr == 0 {
        assert(neighbor_offsets()[0] == (1int, 0int));
    } else if dq == -1 && dr == 0 {
        assert(neighbor_offsets()[1] == (-1int, 0int));
    } else if dq == 0 && dr == 1 {
        assert(neighbor_offsets()[2] == (0int, 1int));
    } else if dq == 0 && dr == -1 {
        assert(neighbor_offsets()[3] == (0int, -1int));
    } else if dq == 1 && dr == -1 {
        assert(neighbor_offsets()[4] == (1int, -1int));
    } else {
        assert(dq == -1 && dr == 1);
        assert(neighbor_offsets()[5] == (-1int, 1int));
    }
}

/// Distance is symmetric and zero exactly between a cell and itself.
pub proof fn lemma_distance_metric(a: NodeCoord, b: NodeCoord)
    ensures
        hex_distance(a, b) == hex_distance(b, a),
        hex_distance(a, b) >= 0,
        hex_distance(a, b) == 0 <==> a == b,
{
}

/// Keys identify coordinates: the key of a coordinate leads back to it,
/// and keys compare as coordinates do in `(q, r)` lexicographic order.
pub proof fn lemma_key_order(a: NodeCoord, b: NodeCoord)
    ensures
        key_coord(coord_key(a)) == a,
        coord_key(a) == coord_key(b) <==> a == b,
        coord_key(a) < coord_key(b) <==> coord_lt(a, b),
{
}

/// Every key is the key of the coordinate it stands for.
pub proof fn lemma_key_coord_roundtrip(k: u64)
    ensures
        coord_key(key_coord(k)) == k,
{
}

} // verus!
