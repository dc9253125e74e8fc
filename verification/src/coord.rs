//! Cube coordinates for a hexagonal grid and the six-way neighbor relation.
//!
//! A coordinate is a triple of signed integers `(x, y, z)` with the cube
//! constraint `x + y + z == 0`. Neighbor resolution is a pure coordinate
//! transform: it never consults any board.

use vstd::prelude::*;

verus! {

/// A cube coordinate on the hex grid. A coordinate is well formed when its
/// components sum to zero; see [`Vec3::valid`].
#[derive(Copy, Clone, PartialEq, Eq, Structural, Hash, Debug)]
pub struct Vec3 {
    pub x: i32,
    pub y: i32,
    pub z: i32,
}

/// The mathematical value of a coordinate: its components as unbounded
/// integers. Coordinate specifications are stated over such triples, so that
/// no statement depends on machine-integer truncation.
pub open spec fn cube(c: Vec3) -> (int, int, int) {
    (c.x as int, c.y as int, c.z as int)
}

/// Whether a triple satisfies the cube constraint.
pub open spec fn cube_valid(p: (int, int, int)) -> bool {
    p.0 + p.1 + p.2 == 0
}

/// The fixed offset of neighbor `i`, for `0 <= i < 6`. Index 0 is east,
/// `(+1, -1, 0)`, and the indices proceed clockwise. This order is part of
/// the public contract and is stable across calls.
pub open spec fn hex_offset(i: int) -> (int, int, int) {
    if i == 0 {
        (1, -1, 0)
    } else if i == 1 {
        (1, 0, -1)
    } else if i == 2 {
        (0, 1, -1)
    } else if i == 3 {
        (-1, 1, 0)
    } else if i == 4 {
        (-1, 0, 1)
    } else {
        (0, -1, 1)
    }
}

/// Neighbor `i` of the triple `p`: the componentwise sum of `p` and the
/// `i`-th offset.
pub open spec fn hex_neighbor(p: (int, int, int), i: int) -> (int, int, int) {
    (p.0 + hex_offset(i).0, p.1 + hex_offset(i).1, p.2 + hex_offset(i).2)
}

/// The cube distance between two triples: the largest componentwise
/// absolute difference.
pub open spec fn cube_dist(p: (int, int, int), q: (int, int, int)) -> int {
    let dx = abs_int(p.0 - q.0);
    let dy = abs_int(p.1 - q.1);
    let dz = abs_int(p.2 - q.2);
    max_int(dx, max_int(dy, dz))
}

/// The absolute value of an integer.
pub open spec fn abs_int(a: int) -> int {
    if a < 0 {
        -a
    } else {
        a
    }
}

/// The larger of two integers.
pub open spec fn max_int(a: int, b: int) -> int {
    if a < b {
        b
    } else {
        a
    }
}

impl Vec3 {
    /// Whether this coordinate satisfies the cube constraint `x + y + z == 0`.
    pub open spec fn valid(self) -> bool {
        cube_valid(cube(self))
    }

    /// Whether every component is strictly inside the `i32` range, so that
    /// each of the six neighbor coordinates is representable.
    pub open spec fn in_bounds(self) -> bool {
        &&& i32::MIN < self.x < i32::MAX
        &&& i32::MIN < self.y < i32::MAX
        &&& i32::MIN < self.z < i32::MAX
    }

    /// Validating constructor: accepts exactly the component triples that
    /// satisfy the cube constraint.
    pub fn new(x: i32, y: i32, z: i32) -> (r: Option<Vec3>)
        ensures
            match r {
                Some(c) => c == (Vec3 { x, y, z }) && c.valid(),
                None => x + y + z != 0,
            },
    {
        let sum: i64 = x as i64 + y as i64 + z as i64;
        if sum == 0 {
            Some(Vec3 { x, y, z })
        } else {
            None
        }
    }
}

/// The six neighbor coordinates of `c`, in the fixed documented offset
/// order: east first, then clockwise. A pure function of the coordinate;
/// whether any tile exists at a result is a board-level question.
pub fn neighbors(c: Vec3) -> (r: Vec<Vec3>)
    requires
        c.in_bounds(),
    ensures
        r@.len() == 6,
        forall|i: int| 0 <= i < 6 ==> cube(#[trigger] r@[i]) == hex_neighbor(cube(c), i),
{
    let mut r: Vec<Vec3> = Vec::new();
    r.push(Vec3 { x: c.x + 1, y: c.y - 1, z: c.z });
    r.push(Vec3 { x: c.x + 1, y: c.y, z: c.z - 1 });
    r.push(Vec3 { x: c.x, y: c.y + 1, z: c.z - 1 });
    r.push(Vec3 { x: c.x - 1, y: c.y + 1, z: c.z });
    r.push(Vec3 { x: c.x - 1, y: c.y, z: c.z + 1 });
    r.push(Vec3 { x: c.x, y: c.y - 1, z: c.z + 1 });
    r
}

/// Law: the six neighbors of a well-formed triple are pairwise distinct,
/// each satisfies the cube constraint, and each lies at cube distance 1.
pub proof fn lemma_neighbors_distinct_valid_adjacent(p: (int, int, int))
    requires
        cube_valid(p),
    ensures
        forall|i: int, j: int|
            0 <= i < 6 && 0 <= j < 6 && i != j ==> hex_neighbor(p, i) != hex_neighbor(p, j),
        forall|i: int| 0 <= i < 6 ==> cube_valid(#[trigger] hex_neighbor(p, i)),
        forall|i: int| 0 <= i < 6 ==> cube_dist(p, #[trigger] hex_neighbor(p, i)) == 1,
{
}

/// Law: no coordinate is its own neighbor.
pub proof fn lemma_no_self_neighbor(p: (int, int, int))
    ensures
        forall|i: int| 0 <= i < 6 ==> #[trigger] hex_neighbor(p, i) != p,
{
}

/// Law: the neighbor relation is symmetric. If `q` is neighbor `i` of `p`,
/// then `p` is a neighbor of `q`, namely the one at the opposite offset.
pub proof fn lemma_neighbor_symmetric(p: (int, int, int), i: int)
    requires
        0 <= i < 6,
    ensures
        hex_neighbor(hex_neighbor(p, i), if i < 3 { i + 3 } else { i - 3 }) == p,
{
}

} // verus!
