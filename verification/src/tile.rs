//! Tiles: the cells a board owns, and the kinds of occupant a cell can hold.

use vstd::prelude::*;
use crate::coord::Vec3;

verus! {

/// The kind of occupant standing on a tile. An unoccupied tile carries
/// `None` in [`Tile::tenant`] rather than a sentinel variant.
#[derive(Copy, Clone, PartialEq, Eq, Structural, Debug)]
pub enum Tenant {
    House,
    Tower,
    Grave,
    TreePalm,
    TreePine,
    Peasant,
    Spearman,
    Knight,
    Paladin,
}

/// The team tag of a tile that no team owns yet.
pub const NEUTRAL_TEAM: i32 = 0;

/// One cell of the board.
///
/// The identifier is the primary key into the board's lookup table and
/// never changes; the location is fixed once the tile is placed.
#[derive(Clone, PartialEq, Eq, Debug)]
pub struct Tile {
    /// Unique identifier, assigned at creation.
    pub id: String,
    /// Owning team; `NEUTRAL_TEAM` on creation.
    pub team: i32,
    /// Occupant kind, or `None` for an empty cell.
    pub tenant: Option<Tenant>,
    /// Cube coordinate of the cell.
    pub loc: Vec3,
    /// Resource value; non-negative by convention.
    pub money: i32,
    /// Whether the occupant may still move.
    pub can_move: bool,
    /// Territory tag.
    pub territory: i32,
}

/// The mathematical value of a tile: every field, with the identifier as a
/// character sequence. Board contracts are stated over these values.
pub ghost struct TileView {
    pub id: Seq<char>,
    pub team: int,
    pub tenant: Option<Tenant>,
    pub loc: Vec3,
    pub money: int,
    pub can_move: bool,
    pub territory: int,
}

impl View for Tile {
    type V = TileView;

    open spec fn view(&self) -> TileView {
        TileView {
            id: self.id@,
            team: self.team as int,
            tenant: self.tenant,
            loc: self.loc,
            money: self.money as int,
            can_move: self.can_move,
            territory: self.territory as int,
        }
    }
}

impl Tile {
    /// A freshly created tile: neutral team, empty cell, zero resources,
    /// immobile, no territory.
    pub fn new(id: String, loc: Vec3) -> (r: Tile)
        ensures
            r@ == (TileView {
                id: id@,
                team: NEUTRAL_TEAM as int,
                tenant: None,
                loc,
                money: 0,
                can_move: false,
                territory: 0,
            }),
    {
        Tile { id, team: NEUTRAL_TEAM, tenant: None, loc, money: 0, can_move: false, territory: 0 }
    }
}

/// The placement cost of a tenant kind: a house costs 10, every other kind
/// is free.
pub open spec fn tenant_cost(tenant: Tenant) -> int {
    match tenant {
        Tenant::House => 10,
        _ => 0,
    }
}

/// The cost of placing `tenant`.
#[allow(non_snake_case)]
pub fn computeTenantCost(tenant: Tenant) -> (r: i32)
    ensures
        r == tenant_cost(tenant),
{
    if tenant == Tenant::House {
        return 10;
    }
    0
}

} // verus!
