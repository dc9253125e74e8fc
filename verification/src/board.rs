//! The board: the authoritative, exclusively owned set of tiles, keyed by
//! identifier, with at most one tile per identifier and per cell.

use vstd::prelude::*;
use crate::coord::{Vec3, cube, hex_neighbor, neighbors};
use crate::tile::{Tile, TileView};

verus! {

/// Why a placement was refused.
#[derive(Copy, Clone, PartialEq, Eq, Structural, Debug)]
pub enum PlacementError {
    /// A tile with the same identifier is already on the board.
    DuplicateId,
    /// Another tile already occupies the target coordinate.
    CellOccupied,
}

/// Why an eviction was refused: no tile carries the given identifier.
#[derive(Copy, Clone, PartialEq, Eq, Structural, Debug)]
pub struct NotFoundError;

/// Whether some tile of `s` carries the identifier `id`.
pub open spec fn has_id(s: Seq<TileView>, id: Seq<char>) -> bool {
    exists|i: int| 0 <= i < s.len() && s[i].id == id
}

/// The index of the tile of `s` that carries `id` (meaningful when
/// `has_id(s, id)` holds and identifiers are unique).
pub open spec fn id_index(s: Seq<TileView>, id: Seq<char>) -> int {
    choose|i: int| 0 <= i < s.len() && s[i].id == id
}

/// The tile of `s` that carries `id`.
pub open spec fn tile_with_id(s: Seq<TileView>, id: Seq<char>) -> TileView {
    s[id_index(s, id)]
}

/// Whether some tile of `s` sits at the cell whose mathematical coordinate
/// is the triple `p`.
pub open spec fn occupied(s: Seq<TileView>, p: (int, int, int)) -> bool {
    exists|i: int| 0 <= i < s.len() && cube(#[trigger] s[i].loc) == p
}

/// The index of the tile of `s` at the cell `p` (meaningful when
/// `occupied(s, p)` holds and locations are unique).
pub open spec fn coord_index(s: Seq<TileView>, p: (int, int, int)) -> int {
    choose|i: int| 0 <= i < s.len() && cube(#[trigger] s[i].loc) == p
}

/// The tile of `s` at the cell `p`.
pub open spec fn tile_at(s: Seq<TileView>, p: (int, int, int)) -> TileView {
    s[coord_index(s, p)]
}

/// The board invariant: no two tiles share an identifier, and no two tiles
/// share a cell. Every operation of [`Board`] preserves it.
pub open spec fn board_wf(s: Seq<TileView>) -> bool {
    &&& forall|i: int, j: int|
        0 <= i < j < s.len() ==> #[trigger] s[i].id != #[trigger] s[j].id
    &&& forall|i: int, j: int|
        0 <= i < j < s.len() ==> cube(#[trigger] s[i].loc) != cube(#[trigger] s[j].loc)
}

/// A hex board: the sole owner of its tiles. Tiles enter through
/// [`Board::place`] and leave through [`Board::remove`]; lookups are by
/// identifier or by coordinate. Its mathematical value is the sequence of
/// tile values in placement order.
pub struct Board {
    tiles: Vec<Tile>,
}

impl View for Board {
    type V = Seq<TileView>;

    closed spec fn view(&self) -> Seq<TileView> {
        self.tiles@.map_values(|t: Tile| t@)
    }
}

impl Board {
    /// An empty board.
    pub fn new() -> (r: Board)
        ensures
            r@ == Seq::<TileView>::empty(),
            board_wf(r@),
    {
        let b = Board { tiles: Vec::new() };
        proof {
            assert(b@ =~= Seq::<TileView>::empty());
        }
        b
    }

    /// How many tiles the board holds.
    pub fn len(&self) -> (r: usize)
        ensures
            r == self@.len(),
    {
        self.tiles.len()
    }

    /// Read-only lookup by identifier; no side effects. Returns the tile
    /// carrying `id`, or `None` when no tile does.
    pub fn get(&self, id: &str) -> (r: Option<&Tile>)
        requires
            board_wf(self@),
        ensures
            match r {
                Some(t) => has_id(self@, id@) && t@ == tile_with_id(self@, id@),
                None => !has_id(self@, id@),
            },
    {
        let key: String = id.to_owned();
        let n = self.tiles.len();
        let mut i: usize = 0;
        while i < n
            invariant
                n == self.tiles.len(),
                0 <= i <= n,
                board_wf(self@),
                key@ == id@,
                forall|j: int| 0 <= j < i ==> #[trigger] self@[j].id != id@,
            decreases n - i,
        {
            if self.tiles[i].id == key {
                proof {
                    assert(self@[i as int].id == id@);
                    assert(id_index(self@, id@) == i as int);
                }
                return Some(&self.tiles[i]);
            }
            i += 1;
        }
        None
    }

    /// Read-only lookup by position; no side effects. Returns the tile at
    /// `coord`, or `None` when the cell is empty.
    pub fn get_at(&self, coord: Vec3) -> (r: Option<&Tile>)
        requires
            board_wf(self@),
        ensures
            match r {
                Some(t) => occupied(self@, cube(coord)) && t@ == tile_at(self@, cube(coord)),
                None => !occupied(self@, cube(coord)),
            },
    {
        let n = self.tiles.len();
        let mut i: usize = 0;
        while i < n
            invariant
                n == self.tiles.len(),
                0 <= i <= n,
                board_wf(self@),
                forall|j: int| 0 <= j < i ==> cube(#[trigger] self@[j].loc) != cube(coord),
            decreases n - i,
        {
            if self.tiles[i].loc == coord {
                proof {
                    assert(cube(self@[i as int].loc) == cube(coord));
                    assert(coord_index(self@, cube(coord)) == i as int);
                }
                return Some(&self.tiles[i]);
            }
            i += 1;
        }
        None
    }

    /// Insert `tile`; the board takes ownership. Fails with `DuplicateId`
    /// when a tile with the same identifier already exists (whether or not
    /// its cell also collides), and otherwise with `CellOccupied` when
    /// another tile sits at the same coordinate. On failure the board is
    /// unmodified.
    pub fn place(&mut self, tile: Tile) -> (r: Result<(), PlacementError>)
        requires
            board_wf(old(self)@),
        ensures
            board_wf(final(self)@),
            match r {
                Ok(()) => !has_id(old(self)@, tile@.id) && !occupied(old(self)@, cube(tile@.loc))
                    && final(self)@ == old(self)@.push(tile@),
                Err(PlacementError::DuplicateId) => has_id(old(self)@, tile@.id) && final(self)@
                    == old(self)@,
                Err(PlacementError::CellOccupied) => !has_id(old(self)@, tile@.id) && occupied(
                    old(self)@,
                    cube(tile@.loc),
                ) && final(self)@ == old(self)@,
            },
    {
        let n = self.tiles.len();
        let mut i: usize = 0;
        while i < n
            invariant
                n == self.tiles.len(),
                0 <= i <= n,
                self@ == old(self)@,
                board_wf(self@),
                forall|j: int| 0 <= j < i ==> #[trigger] self@[j].id != tile@.id,
            decreases n - i,
        {
            if self.tiles[i].id == tile.id {
                proof {
                    assert(self@[i as int].id == tile@.id);
                }
                return Err(PlacementError::DuplicateId);
            }
            i += 1;
        }
        let mut k: usize = 0;
        while k < n
            invariant
                n == self.tiles.len(),
                0 <= k <= n,
                self@ == old(self)@,
                board_wf(self@),
                forall|j: int| 0 <= j < n ==> #[trigger] self@[j].id != tile@.id,
                forall|j: int| 0 <= j < k ==> cube(#[trigger] self@[j].loc) != cube(tile@.loc),
            decreases n - k,
        {
            if self.tiles[k].loc == tile.loc {
                proof {
                    assert(cube(self@[k as int].loc) == cube(tile@.loc));
                    assert(!has_id(self@, tile@.id));
                }
                return Err(PlacementError::CellOccupied);
            }
            k += 1;
        }
        proof {
            assert(!has_id(self@, tile@.id));
            assert(!occupied(self@, cube(tile@.loc)));
        }
        let ghost pre = self@;
        let ghost tv = tile@;
        self.tiles.push(tile);
        proof {
            assert(self@ =~= pre.push(tv));
            assert forall|i2: int, j2: int| 0 <= i2 < j2 < self@.len() implies #[trigger] self@[i2].id
                != #[trigger] self@[j2].id by {
                if j2 < pre.len() {
                    assert(pre[i2].id != pre[j2].id);
                } else {
                    assert(self@[j2] == tv);
                    assert(pre[i2].id != tv.id);
                }
            }
            assert forall|i2: int, j2: int| 0 <= i2 < j2 < self@.len() implies cube(
                #[trigger] self@[i2].loc,
            ) != cube(#[trigger] self@[j2].loc) by {
                if j2 < pre.len() {
                    assert(cube(pre[i2].loc) != cube(pre[j2].loc));
                } else {
                    assert(self@[j2] == tv);
                    assert(cube(pre[i2].loc) != cube(tv.loc));
                }
            }
        }
        Ok(())
    }

    /// Evict the tile carrying `id` and return it; the board releases
    /// ownership. Fails with `NotFoundError` when no tile carries `id`; on
    /// failure the board is unmodified.
    pub fn remove(&mut self, id: &str) -> (r: Result<Tile, NotFoundError>)
        requires
            board_wf(old(self)@),
        ensures
            board_wf(final(self)@),
            match r {
                Ok(t) => has_id(old(self)@, id@) && t@ == tile_with_id(old(self)@, id@)
                    && final(self)@ == old(self)@.remove(id_index(old(self)@, id@)),
                Err(NotFoundError) => !has_id(old(self)@, id@) && final(self)@ == old(self)@,
            },
    {
        let key: String = id.to_owned();
        let n = self.tiles.len();
        let mut i: usize = 0;
        while i < n
            invariant
                n == self.tiles.len(),
                0 <= i <= n,
                self@ == old(self)@,
                board_wf(self@),
                key@ == id@,
                forall|j: int| 0 <= j < i ==> #[trigger] self@[j].id != id@,
            decreases n - i,
        {
            if self.tiles[i].id == key {
                proof {
                    assert(self@[i as int].id == id@);
                    assert(id_index(self@, id@) == i as int);
                }
                let ghost pre = self@;
                let t = self.tiles.remove(i);
                proof {
                    assert(self@ =~= pre.remove(i as int));
                    pre.remove_ensures(i as int);
                    assert forall|i2: int, j2: int| 0 <= i2 < j2 < self@.len() implies
                        #[trigger] self@[i2].id != #[trigger] self@[j2].id by {
                        let a = if i2 < i as int { i2 } else { i2 + 1 };
                        let b = if j2 < i as int { j2 } else { j2 + 1 };
                        assert(self@[i2] == pre[a] && self@[j2] == pre[b]);
                        assert(pre[a].id != pre[b].id);
                    }
                    assert forall|i2: int, j2: int| 0 <= i2 < j2 < self@.len() implies cube(
                        #[trigger] self@[i2].loc,
                    ) != cube(#[trigger] self@[j2].loc) by {
                        let a = if i2 < i as int { i2 } else { i2 + 1 };
                        let b = if j2 < i as int { j2 } else { j2 + 1 };
                        assert(self@[i2] == pre[a] && self@[j2] == pre[b]);
                        assert(cube(pre[a].loc) != cube(pre[b].loc));
                    }
                }
                return Ok(t);
            }
            i += 1;
        }
        Err(NotFoundError)
    }

    /// Resolve the six neighbor cells of `coord`, in the fixed offset order
    /// of [`neighbors`]. Slot `i` holds the tile at neighbor `i`, or `None`
    /// when that cell is empty — an absent neighbor is a normal boundary
    /// condition, not an error.
    pub fn neighbor_tiles<'a>(&'a self, coord: Vec3) -> (r: Vec<Option<&'a Tile>>)
        requires
            board_wf(self@),
            coord.in_bounds(),
        ensures
            r@.len() == 6,
            forall|i: int| 0 <= i < 6 ==> slot_matches(self@, cube(coord), i, #[trigger] r@[i]),
    {
        let ns = neighbors(coord);
        let mut r: Vec<Option<&Tile>> = Vec::new();
        let mut k: usize = 0;
        while k < 6
            invariant
                board_wf(self@),
                ns@.len() == 6,
                forall|i: int| 0 <= i < 6 ==> cube(#[trigger] ns@[i]) == hex_neighbor(
                    cube(coord),
                    i,
                ),
                r@.len() == k,
                0 <= k <= 6,
                forall|i: int| 0 <= i < k ==> slot_matches(self@, cube(coord), i, #[trigger] r@[i]),
            decreases 6 - k,
        {
            r.push(self.get_at(ns[k]));
            k += 1;
        }
        r
    }
}

/// What a slot of [`Board::neighbor_tiles`] holds: the tile at neighbor `i`
/// of the cell `p` when that cell is occupied, and `None` otherwise.
pub open spec fn slot_matches(
    s: Seq<TileView>,
    p: (int, int, int),
    i: int,
    slot: Option<&Tile>,
) -> bool {
    match slot {
        Some(t) => occupied(s, hex_neighbor(p, i)) && t@ == tile_at(s, hex_neighbor(p, i)),
        None => !occupied(s, hex_neighbor(p, i)),
    }
}

/// Law: a successful placement is observable. After pushing a tile whose
/// identifier and cell are both free, the board is still well formed, the
/// identifier is present, and lookup by it yields exactly the placed tile.
pub proof fn lemma_place_then_get(s: Seq<TileView>, t: TileView)
    requires
        board_wf(s),
        !has_id(s, t.id),
        !occupied(s, cube(t.loc)),
    ensures
        board_wf(s.push(t)),
        has_id(s.push(t), t.id),
        tile_with_id(s.push(t), t.id) == t,
{
    let s2 = s.push(t);
    assert(s2[s.len() as int] == t);
    assert(has_id(s2, t.id));
    assert forall|i: int, j: int| 0 <= i < j < s2.len() implies #[trigger] s2[i].id
        != #[trigger] s2[j].id by {
        if j < s.len() {
            assert(s[i].id != s[j].id);
        } else {
            assert(s2[j] == t && s2[i] == s[i]);
            if s[i].id == t.id {
                assert(has_id(s, t.id));
            }
        }
    }
    assert forall|i: int, j: int| 0 <= i < j < s2.len() implies cube(#[trigger] s2[i].loc) != cube(
        #[trigger] s2[j].loc,
    ) by {
        if j < s.len() {
            assert(cube(s[i].loc) != cube(s[j].loc));
        } else {
            assert(s2[j] == t && s2[i] == s[i]);
            if cube(s[i].loc) == cube(t.loc) {
                assert(occupied(s, cube(t.loc)));
            }
        }
    }
    let k = id_index(s2, t.id);
    assert(0 <= k < s2.len() && s2[k].id == t.id);
    if k < s.len() {
        assert(s[k].id == t.id);
        assert(has_id(s, t.id));
    }
}

/// Law: eviction is observable. After removing the tile that carries `id`
/// from a well-formed board, the board is still well formed and no tile
/// carries `id` any more — so a lookup returns empty and a second eviction
/// of the same identifier fails.
pub proof fn lemma_remove_then_get(s: Seq<TileView>, id: Seq<char>)
    requires
        board_wf(s),
        has_id(s, id),
    ensures
        board_wf(s.remove(id_index(s, id))),
        !has_id(s.remove(id_index(s, id)), id),
{
    let k = id_index(s, id);
    assert(0 <= k < s.len() && s[k].id == id);
    let s2 = s.remove(k);
    s.remove_ensures(k);
    assert forall|i: int, j: int| 0 <= i < j < s2.len() implies #[trigger] s2[i].id
        != #[trigger] s2[j].id by {
        let a = if i < k {
            i
        } else {
            i + 1
        };
        let b = if j < k {
            j
        } else {
            j + 1
        };
        assert(s2[i] == s[a] && s2[j] == s[b]);
        assert(s[a].id != s[b].id);
    }
    assert forall|i: int, j: int| 0 <= i < j < s2.len() implies cube(#[trigger] s2[i].loc) != cube(
        #[trigger] s2[j].loc,
    ) by {
        let a = if i < k {
            i
        } else {
            i + 1
        };
        let b = if j < k {
            j
        } else {
            j + 1
        };
        assert(s2[i] == s[a] && s2[j] == s[b]);
        assert(cube(s[a].loc) != cube(s[b].loc));
    }
    if has_id(s2, id) {
        let j = choose|j: int| 0 <= j < s2.len() && s2[j].id == id;
        let a = if j < k {
            j
        } else {
            j + 1
        };
        assert(s2[j] == s[a]);
        assert(s[a].id == id && a != k);
        if a < k {
            assert(s[a].id != s[k].id);
        } else {
            assert(s[k].id != s[a].id);
        }
    }
}

} // verus!
