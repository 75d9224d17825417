use ashfall::item::{item_spawns, ConsumeKind, Inventory, Item, ItemKind, ItemSpawn, ItemTable};
use ashfall::item::ItemKind::{Food, Water};
use ashfall::grid::GridPos;
use ashfall::player::{apply_movement, player_start, read_movement_input, MoveCommand, Player};
use ashfall::state::{check_death, restart, GameState, Transition};
use ashfall::survival::{apply_consume, consume_one, read_consume_input, Consume};
use ashfall::world::default_world;

fn inventory_of(items: &[ItemKind]) -> Inventory {
    let mut inv = Inventory::new();
    for k in items {
        inv.pick_up(*k);
    }
    inv
}

fn full_table() -> ItemTable {
    let mut t = ItemTable::new();
    t.set(Food, ConsumeKind::Food);
    t.set(Water, ConsumeKind::Water);
    t
}

#[test]
fn item_table_entries() {
    let mut t = ItemTable::new();
    assert_eq!(t.get(Food), None);
    assert_eq!(t.get(Water), None);
    t.set(Water, ConsumeKind::Food);
    assert_eq!(t.get(Water), Some(ConsumeKind::Food));
    assert_eq!(t.get(Food), None);
    assert!(t.serves(Water, ConsumeKind::Food));
    assert!(!t.serves(Water, ConsumeKind::Water));
    assert!(!t.serves(Food, ConsumeKind::Food));
}

#[test]
fn inventory_counts_and_takes() {
    let t = full_table();
    let mut inv = inventory_of(&[Water, Food, Food]);
    assert_eq!(inv.count_kind(&t, ConsumeKind::Food), 2);
    assert_eq!(inv.count_kind(&t, ConsumeKind::Water), 1);
    let mut inv2 = inventory_of(&[Water, Food, Water, Food]);
    assert_eq!(inv2.position(&t, ConsumeKind::Food), Some(1));
    assert_eq!(inv2.take_first(&t, ConsumeKind::Food), Some(Food));
    assert_eq!(inv2.items, vec![Water, Water, Food]);
    assert_eq!(inv2.take_first(&t, ConsumeKind::Food), Some(Food));
    assert_eq!(inv2.take_first(&t, ConsumeKind::Food), None);
    assert_eq!(inv2.items, vec![Water, Water]);
    assert_eq!(inv2.position(&t, ConsumeKind::Food), None);
    assert_eq!(inv.take_first(&t, ConsumeKind::Water), Some(Water));
    assert_eq!(inv.items, vec![Food, Food]);
}

#[test]
fn items_without_entry_are_neither_counted_nor_taken() {
    let t = ItemTable::new();
    let mut inv = inventory_of(&[Food]);
    assert_eq!(inv.count_kind(&t, ConsumeKind::Food), 0);
    assert_eq!(inv.take_first(&t, ConsumeKind::Food), None);
    assert_eq!(inv.items, vec![Food]);
    assert_eq!(consume_one(&mut inv, &t, Consume::Eat), None);
    assert_eq!(inv.items, vec![Food]);
    let eaten = apply_consume(&mut inv, &t, &vec![Consume::Eat, Consume::Drink]);
    assert!(eaten.is_empty());
    assert_eq!(inv.items, vec![Food]);
}

#[test]
fn the_table_decides_the_kind() {
    // water listed as food: eating takes the water
    let mut t = ItemTable::new();
    t.set(Water, ConsumeKind::Food);
    let mut inv = inventory_of(&[Food, Water]);
    assert_eq!(inv.count_kind(&t, ConsumeKind::Food), 1);
    assert_eq!(inv.count_kind(&t, ConsumeKind::Water), 0);
    assert_eq!(consume_one(&mut inv, &t, Consume::Eat), Some(Water));
    assert_eq!(inv.items, vec![Food]);
    assert_eq!(consume_one(&mut inv, &t, Consume::Drink), None);
}

#[test]
fn pick_up_then_take_restores() {
    let t = full_table();
    let mut inv = inventory_of(&[Water, Water]);
    inv.pick_up(Food);
    assert_eq!(inv.take_first(&t, ConsumeKind::Food), Some(Food));
    assert_eq!(inv.items, vec![Water, Water]);
}

#[test]
fn consume_requests_from_keys() {
    assert_eq!(read_consume_input(false, false), vec![]);
    assert_eq!(read_consume_input(true, false), vec![Consume::Eat]);
    assert_eq!(read_consume_input(false, true), vec![Consume::Drink]);
    assert_eq!(read_consume_input(true, true), vec![Consume::Eat, Consume::Drink]);
    assert_eq!(Consume::Eat.wanted_kind(), ConsumeKind::Food);
    assert_eq!(Consume::Drink.wanted_kind(), ConsumeKind::Water);
}

#[test]
fn consuming_takes_the_first_matching_item() {
    let t = full_table();
    let mut inv = inventory_of(&[Water, Food, Food]);
    assert_eq!(consume_one(&mut inv, &t, Consume::Eat), Some(Food));
    assert_eq!(inv.items, vec![Water, Food]);
    assert_eq!(consume_one(&mut inv, &t, Consume::Drink), Some(Water));
    assert_eq!(consume_one(&mut inv, &t, Consume::Drink), None);
    assert_eq!(inv.items, vec![Food]);
}

#[test]
fn apply_consume_answers_requests_in_order() {
    let t = full_table();
    let mut inv = inventory_of(&[Food, Water, Food]);
    let eaten = apply_consume(
        &mut inv,
        &t,
        &vec![Consume::Drink, Consume::Drink, Consume::Eat, Consume::Eat, Consume::Eat],
    );
    assert_eq!(eaten, vec![Water, Food, Food]);
    assert!(inv.items.is_empty());

    let mut inv = inventory_of(&[Water]);
    let eaten = apply_consume(&mut inv, &t, &vec![Consume::Eat]);
    assert!(eaten.is_empty());
    assert_eq!(inv.items, vec![Water]);
}

#[test]
fn spawns_are_on_free_tiles() {
    let spawns = item_spawns();
    assert_eq!(spawns.len(), 4);
    assert_eq!(spawns[0], ItemSpawn { x: 7, y: 5, kind: ItemKind::Food });
    assert_eq!(spawns[3], ItemSpawn { x: 2, y: 8, kind: ItemKind::Water });
    assert_eq!(spawns[1].tile(), GridPos::new(6, 7));
    let g = default_world();
    for s in &spawns {
        assert!(!g.is_blocked(s.tile()));
    }
    assert!(!g.is_blocked(player_start()));
    assert_eq!(Item(ItemKind::Food).0, ItemKind::Food);
}

#[test]
fn death_and_restart() {
    assert_eq!(GameState::default(), GameState::Playing);
    assert!(GameState::Playing.is_playing());
    assert!(!GameState::Dead.is_playing());
    assert_eq!(check_death(GameState::Playing, false), (GameState::Playing, Transition::Stay));
    let (s, t) = check_death(GameState::Playing, true);
    assert_eq!((s, t), (GameState::Dead, Transition::Died));
    assert_eq!(check_death(GameState::Dead, true), (GameState::Dead, Transition::Stay));
    assert_eq!(restart(s, false), (GameState::Dead, Transition::Stay));
    assert_eq!(restart(s, true), (GameState::Playing, Transition::Restarted));
    assert_eq!(restart(GameState::Playing, true), (GameState::Playing, Transition::Stay));
}

#[test]
fn movement_keys() {
    assert_eq!(read_movement_input(false, false, false, false), None);
    assert_eq!(
        read_movement_input(true, false, false, false),
        Some(MoveCommand { delta: GridPos::new(0, -1) })
    );
    assert_eq!(
        read_movement_input(false, true, false, true),
        Some(MoveCommand { delta: GridPos::new(1, 1) })
    );
    assert_eq!(
        read_movement_input(true, true, true, false),
        Some(MoveCommand { delta: GridPos::new(-1, 0) })
    );
    assert_eq!(read_movement_input(true, true, true, true), None);
}

#[test]
fn moving_the_player() {
    let mut p = Player::spawn();
    assert_eq!(p.grid, GridPos::new(5, 5));
    let right = MoveCommand { delta: GridPos::new(1, 0) };
    let up = MoveCommand { delta: GridPos::new(0, -1) };
    p.apply_move(&right);
    assert_eq!(p.grid, GridPos::new(6, 5));
    apply_movement(&mut p, &vec![up, up, right]);
    assert_eq!(p.grid, GridPos::new(7, 3));
    // walls do not stop the player: (3, 3) is a wall
    let mut q = Player { grid: GridPos::new(2, 3) };
    q.apply_move(&right);
    assert_eq!(q.grid, GridPos::new(3, 3));
    let back = MoveCommand { delta: right.delta.neg() };
    q.apply_move(&back);
    assert_eq!(q.grid, GridPos::new(2, 3));
}
