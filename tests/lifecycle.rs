use minigame_combat::combat::{EndGameEvent, Fighter, PlayerGameState, Variant};
use minigame_combat::inventory::{Inventory, ItemKind, ItemStack};
use minigame_combat::knockback::Vec3i;
use minigame_combat::world::World;

fn player(y: i64, game_id: Option<u64>, team: u64) -> Fighter {
    Fighter::new(Vec3i::new(0, y, 0), 20000, PlayerGameState { game_id, team })
}

#[test]
fn combat_stage_hands_out_loadout() {
    let mut w = World::new(Variant::Health);
    w.add_player(player(64000, Some(1), 1));
    w.add_player(player(64000, Some(1), 2));
    w.inventories[0].set_slot(36, ItemStack::new(ItemKind::Other(5), 3));
    w.gamestage_change(4, &vec![0, 9]);
    assert_eq!(w.inventories[0].slot(36), ItemStack { item: ItemKind::Bow, count: 1 });
    assert_eq!(w.inventories[0].slot(44), ItemStack { item: ItemKind::Arrow, count: 10 });
    assert_eq!(w.inventories[1].slot(36), ItemStack::empty());
}

#[test]
fn other_stage_hands_out_nothing() {
    let mut w = World::new(Variant::Health);
    w.add_player(player(64000, Some(1), 1));
    w.gamestage_change(3, &vec![0]);
    assert_eq!(w.inventories[0].slot(36), ItemStack::empty());
}

#[test]
fn end_game_clears_inventories_once_and_twice_alike() {
    let mut w = World::new(Variant::Health);
    w.add_player(player(64000, Some(1), 1));
    w.add_player(player(64000, Some(2), 2));
    w.gamestage_change(4, &vec![0, 1]);
    w.inventories[0].set_slot(3, ItemStack::new(ItemKind::Other(2), 5));
    w.end_game(&vec![0]);
    let once: Vec<Vec<ItemStack>> = w.inventories.iter().map(|i| i.slots.clone()).collect();
    assert!(once[0].iter().all(|s| *s == ItemStack::empty()));
    assert_eq!(once[0].len(), 46);
    assert_eq!(w.inventories[1].slot(44).count, 10);
    w.end_game(&vec![0]);
    let twice: Vec<Vec<ItemStack>> = w.inventories.iter().map(|i| i.slots.clone()).collect();
    assert_eq!(once, twice);
}

#[test]
fn end_game_resets_hit_counters_once_and_twice_alike() {
    let mut w = World::new(Variant::HitCounter);
    w.add_player(player(64000, Some(1), 1));
    w.add_player(player(64000, Some(1), 2));
    w.add_player(player(64000, Some(2), 3));
    for i in 0..3 {
        let mut f = w.player(i);
        f.hits = 3;
        w.players[i] = f;
    }
    w.end_game(&vec![0, 1]);
    let once = w.players.clone();
    assert_eq!(once[0].hits, 0);
    assert_eq!(once[1].hits, 0);
    assert_eq!(once[2].hits, 3);
    w.end_game(&vec![0, 1]);
    assert_eq!(w.players, once);
}

#[test]
fn below_floor_player_in_match_ends_it() {
    let mut w = World::new(Variant::Health);
    w.add_player(player(-100, Some(4), 2));
    w.add_player(player(0, Some(4), 1));
    w.add_player(player(-5000, None, 3));
    w.add_player(player(-1, Some(5), 6));
    let events = w.handle_oob_clients();
    assert_eq!(
        events,
        vec![EndGameEvent { game_id: 4, loser: 2 }, EndGameEvent { game_id: 5, loser: 6 }]
    );
}

#[test]
fn player_on_floor_ends_nothing() {
    let mut w = World::new(Variant::Health);
    w.add_player(player(0, Some(4), 1));
    w.add_player(player(12, Some(4), 2));
    assert!(w.handle_oob_clients().is_empty());
    w.set_position(0, Vec3i::new(0, -100, 0));
    assert_eq!(w.handle_oob_clients(), vec![EndGameEvent { game_id: 4, loser: 1 }]);
}

#[test]
fn velocity_is_distance_moved() {
    let mut w = World::new(Variant::Health);
    w.add_player(player(64000, Some(1), 1));
    w.set_position(0, Vec3i::new(250, 63000, -400));
    w.calc_player_vel(&vec![Vec3i::new(0, 64000, 100)]);
    assert_eq!(w.player(0).velocity, Vec3i::new(250, -1000, -500));
}

#[test]
fn inventory_shot_empties_last_arrow() {
    let mut inv = Inventory::new();
    inv.set_slot(36, ItemStack::new(ItemKind::Bow, 1));
    inv.set_slot(44, ItemStack::new(ItemKind::Arrow, 1));
    assert!(inv.release_shot());
    assert_eq!(inv.slot(44), ItemStack::empty());
    assert!(!inv.release_shot());
}

#[test]
fn set_game_moves_player_between_matches() {
    let mut w = World::new(Variant::Health);
    w.add_player(player(-100, None, 1));
    assert!(w.handle_oob_clients().is_empty());
    w.set_game(0, PlayerGameState { game_id: Some(3), team: 9 });
    assert_eq!(w.handle_oob_clients(), vec![EndGameEvent { game_id: 3, loser: 9 }]);
}
