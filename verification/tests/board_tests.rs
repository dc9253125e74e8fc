use hexboard::board::{Board, NotFoundError, PlacementError};
use hexboard::coord::Vec3;
use hexboard::tile::{computeTenantCost, Tenant, Tile, NEUTRAL_TEAM};

fn v(x: i32, y: i32, z: i32) -> Vec3 {
    Vec3 { x, y, z }
}

fn tile(id: &str, loc: Vec3) -> Tile {
    Tile::new(id.to_string(), loc)
}

#[test]
fn place_then_get_returns_tile_unchanged() {
    let mut b = Board::new();
    let mut t = tile("a", v(0, 0, 0));
    t.team = 3;
    t.tenant = Some(Tenant::Knight);
    t.money = 7;
    t.can_move = true;
    t.territory = 2;
    let copy = t.clone();
    assert_eq!(b.place(t), Ok(()));
    assert_eq!(b.get("a"), Some(&copy));
}

#[test]
fn duplicate_id_is_rejected_and_board_unmodified() {
    let mut b = Board::new();
    let first = tile("a", v(0, 0, 0));
    let keep = first.clone();
    assert_eq!(b.place(first), Ok(()));
    let clash = tile("a", v(1, -1, 0));
    assert_eq!(b.place(clash), Err(PlacementError::DuplicateId));
    assert_eq!(b.len(), 1);
    assert_eq!(b.get("a"), Some(&keep));
    assert_eq!(b.get_at(v(1, -1, 0)), None);
}

#[test]
fn duplicate_id_takes_precedence_over_occupied_cell() {
    let mut b = Board::new();
    assert_eq!(b.place(tile("a", v(0, 0, 0))), Ok(()));
    let both = tile("a", v(0, 0, 0));
    assert_eq!(b.place(both), Err(PlacementError::DuplicateId));
    assert_eq!(b.len(), 1);
}

#[test]
fn occupied_cell_is_rejected_and_board_unmodified() {
    let mut b = Board::new();
    assert_eq!(b.place(tile("a", v(2, -2, 0))), Ok(()));
    let clash = tile("b", v(2, -2, 0));
    assert_eq!(b.place(clash), Err(PlacementError::CellOccupied));
    assert_eq!(b.len(), 1);
    assert_eq!(b.get("b"), None);
    assert_eq!(b.get_at(v(2, -2, 0)).unwrap().id, "a");
}

#[test]
fn remove_then_get_is_empty_and_second_remove_fails() {
    let mut b = Board::new();
    let t = tile("a", v(0, 0, 0));
    let keep = t.clone();
    assert_eq!(b.place(t), Ok(()));
    assert_eq!(b.remove("a"), Ok(keep));
    assert_eq!(b.get("a"), None);
    assert_eq!(b.remove("a"), Err(NotFoundError));
}

#[test]
fn neighbor_tiles_resolves_placed_neighbor() {
    let mut b = Board::new();
    assert_eq!(b.place(tile("A", v(0, 0, 0))), Ok(()));
    let bt = tile("B", v(1, -1, 0));
    let keep = bt.clone();
    assert_eq!(b.place(bt), Ok(()));
    let slots = b.neighbor_tiles(v(0, 0, 0));
    assert_eq!(slots.len(), 6);
    assert_eq!(slots[0], Some(&keep));
    for slot in &slots[1..] {
        assert_eq!(*slot, None);
    }
}

#[test]
fn get_at_finds_by_position() {
    let mut b = Board::new();
    assert_eq!(b.place(tile("a", v(3, -1, -2))), Ok(()));
    assert_eq!(b.get_at(v(3, -1, -2)).unwrap().id, "a");
    assert_eq!(b.get_at(v(0, 0, 0)), None);
}

#[test]
fn empty_board_lookups() {
    let mut b = Board::new();
    assert_eq!(b.len(), 0);
    assert_eq!(b.get("a"), None);
    assert_eq!(b.get_at(v(0, 0, 0)), None);
    assert_eq!(b.remove("a"), Err(NotFoundError));
}

#[test]
fn tile_new_starts_neutral_and_empty() {
    let t = tile("a", v(1, 0, -1));
    assert_eq!(t.id, "a");
    assert_eq!(t.team, NEUTRAL_TEAM);
    assert_eq!(t.tenant, None);
    assert_eq!(t.loc, v(1, 0, -1));
    assert_eq!(t.money, 0);
    assert!(!t.can_move);
    assert_eq!(t.territory, 0);
}

#[test]
fn tenant_cost_is_ten_for_house_only() {
    assert_eq!(computeTenantCost(Tenant::House), 10);
    for k in [
        Tenant::Tower,
        Tenant::Grave,
        Tenant::TreePalm,
        Tenant::TreePine,
        Tenant::Peasant,
        Tenant::Spearman,
        Tenant::Knight,
        Tenant::Paladin,
    ] {
        assert_eq!(computeTenantCost(k), 0);
    }
}
