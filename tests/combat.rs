use minigame_combat::combat::{
    damage_player, resolve_attack, EndGameEvent, Fighter, Interaction, PlayerGameState, Variant,
};
use minigame_combat::knockback::{floor_sqrt_u128, knockback_impulse, Vec3i};
use minigame_combat::world::{
    CollisionEvent, HitReport, InteractEvent, PlayerAction, SprintEvent, World,
};

fn in_game(x: i64, z: i64, team: u64) -> Fighter {
    Fighter::new(Vec3i::new(x, 64000, z), 20000, PlayerGameState { game_id: Some(7), team })
}

fn duel(variant: Variant) -> World {
    let mut w = World::new(variant);
    w.add_player(in_game(0, 0, 1));
    w.add_player(in_game(3000, 4000, 2));
    w
}

fn attack(a: usize, v: usize) -> InteractEvent {
    InteractEvent { attacker: a, victim: v, interaction: Interaction::Attack }
}

#[test]
fn floor_sqrt_rounds_down() {
    assert_eq!(floor_sqrt_u128(0), 0);
    assert_eq!(floor_sqrt_u128(24), 4);
    assert_eq!(floor_sqrt_u128(25), 5);
    assert_eq!(floor_sqrt_u128(25_000_000), 5000);
}

#[test]
fn knockback_base_tier_points_at_victim() {
    let r = knockback_impulse(Vec3i::new(0, 0, 0), Vec3i::new(3000, 0, 4000), false);
    assert_eq!(r, Vec3i::new(4800, 6432, 6400));
}

#[test]
fn knockback_bonus_tier_along_axis() {
    let r = knockback_impulse(Vec3i::new(1000, 0, 0), Vec3i::new(-500, 9000, 0), true);
    assert_eq!(r, Vec3i::new(-18000, 8432, 0));
    let r = knockback_impulse(Vec3i::new(0, 0, 0), Vec3i::new(0, 0, 7), false);
    assert_eq!(r, Vec3i::new(0, 6432, 8000));
}

#[test]
fn knockback_same_spot_has_no_horizontal_part() {
    let r = knockback_impulse(Vec3i::new(5, 10, 5), Vec3i::new(5, 0, 5), true);
    assert_eq!(r, Vec3i::new(0, 8432, 0));
    let r = knockback_impulse(Vec3i::new(5, 10, 5), Vec3i::new(5, 0, 5), false);
    assert_eq!(r, Vec3i::new(0, 6432, 0));
}

#[test]
fn attack_off_cooldown_marks_victim_and_takes_melee_damage() {
    let mut a = in_game(0, 0, 1);
    let mut v = in_game(3000, 4000, 2);
    let r = resolve_attack(&mut a, &mut v, Interaction::Attack, 100, Variant::Health);
    assert_eq!(r, Some(None));
    assert_eq!(v.state.last_attacked_tick, 100);
    assert_eq!(v.health, 19000);
    assert_eq!(v.velocity, Vec3i::new(4800, 6432, 6400));
    assert_eq!(a.health, 20000);
}

#[test]
fn attack_on_cooldown_changes_nothing_of_victim() {
    let mut a = in_game(0, 0, 1);
    let mut v = in_game(3000, 4000, 2);
    resolve_attack(&mut a, &mut v, Interaction::Attack, 100, Variant::Health);
    let before = v;
    let r = resolve_attack(&mut a, &mut v, Interaction::Attack, 109, Variant::Health);
    assert_eq!(r, None);
    assert_eq!(v, before);
    let r = resolve_attack(&mut a, &mut v, Interaction::Attack, 110, Variant::Health);
    assert_eq!(r, Some(None));
    assert_eq!(v.health, 18000);
}

#[test]
fn non_attack_interaction_is_dropped() {
    let mut a = in_game(0, 0, 1);
    a.state.has_bonus_knockback = true;
    let mut v = in_game(3000, 4000, 2);
    let before = v;
    assert_eq!(resolve_attack(&mut a, &mut v, Interaction::Interact, 100, Variant::Health), None);
    assert_eq!(v, before);
    assert!(a.state.has_bonus_knockback);
}

#[test]
fn attack_across_matches_or_outside_one_is_dropped() {
    let mut a = in_game(0, 0, 1);
    let mut v = in_game(3000, 4000, 2);
    v.game.game_id = Some(8);
    assert_eq!(resolve_attack(&mut a, &mut v, Interaction::Attack, 100, Variant::Health), None);
    let mut a = in_game(0, 0, 1);
    a.game.game_id = None;
    let mut v = in_game(3000, 4000, 2);
    v.game.game_id = None;
    assert_eq!(resolve_attack(&mut a, &mut v, Interaction::Attack, 100, Variant::Health), None);
    assert_eq!(v.health, 20000);
}

#[test]
fn bonus_gives_bonus_tier_and_is_spent() {
    let mut a = in_game(0, 0, 1);
    a.state.has_bonus_knockback = true;
    let mut v = in_game(3000, 4000, 2);
    resolve_attack(&mut a, &mut v, Interaction::Attack, 100, Variant::Health);
    assert_eq!(v.velocity, Vec3i::new(10800, 8432, 14400));
    assert!(!a.state.has_bonus_knockback);
}

#[test]
fn bonus_is_spent_by_an_attack_on_cooldown() {
    let mut a = in_game(0, 0, 1);
    a.state.has_bonus_knockback = true;
    let mut v = in_game(3000, 4000, 2);
    v.state.last_attacked_tick = 95;
    let before = v;
    assert_eq!(resolve_attack(&mut a, &mut v, Interaction::Attack, 100, Variant::Health), None);
    assert!(!a.state.has_bonus_knockback);
    assert_eq!(v, before);
}

#[test]
fn knockback_adds_to_velocity() {
    let mut a = in_game(0, 0, 1);
    let mut v = in_game(3000, 4000, 2);
    v.velocity = Vec3i::new(100, -200, 300);
    resolve_attack(&mut a, &mut v, Interaction::Attack, 100, Variant::Health);
    assert_eq!(v.velocity, Vec3i::new(4900, 6232, 6700));
}

#[test]
fn velocity_saturates() {
    let mut a = in_game(0, 0, 1);
    let mut v = in_game(0, 0, 2);
    v.velocity = Vec3i::new(0, i64::MAX - 1, 0);
    damage_player(&mut a, &mut v, 0, Vec3i::new(-5, 100, 5), Variant::Health);
    assert_eq!(v.velocity, Vec3i::new(-5, i64::MAX, 5));
}

#[test]
fn lethal_hit_ends_match_and_keeps_health() {
    let mut a = in_game(0, 0, 1);
    let mut v = in_game(3000, 4000, 2);
    v.health = 1000;
    let r = resolve_attack(&mut a, &mut v, Interaction::Attack, 100, Variant::Health);
    assert_eq!(r, Some(Some(EndGameEvent { game_id: 7, loser: 2 })));
    assert_eq!(v.health, 1000);
    v.health = 1001;
    v.state.last_attacked_tick = 0;
    let r = resolve_attack(&mut a, &mut v, Interaction::Attack, 100, Variant::Health);
    assert_eq!(r, Some(None));
    assert_eq!(v.health, 1);
}

#[test]
fn fifth_hit_knocks_out() {
    let mut a = in_game(0, 0, 1);
    let mut v = in_game(3000, 4000, 2);
    for n in 1..5u8 {
        let r = resolve_attack(&mut a, &mut v, Interaction::Attack, 100 * n as i64, Variant::HitCounter);
        assert_eq!(r, Some(None));
        assert_eq!(v.hits, n);
        assert_eq!(v.health, 20000);
    }
    let r = resolve_attack(&mut a, &mut v, Interaction::Attack, 500, Variant::HitCounter);
    assert_eq!(r, Some(Some(EndGameEvent { game_id: 7, loser: 2 })));
    assert_eq!(v.hits, 5);
}

#[test]
fn hit_counter_saturates() {
    let mut a = in_game(0, 0, 1);
    let mut v = in_game(3000, 4000, 2);
    v.hits = u8::MAX;
    let r = damage_player(&mut a, &mut v, 0, Vec3i::zero(), Variant::HitCounter);
    assert_eq!(v.hits, u8::MAX);
    assert_eq!(r, Some(EndGameEvent { game_id: 7, loser: 2 }));
}

#[test]
fn sprints_apply_before_interactions() {
    let mut w = duel(Variant::Health);
    let sprints = vec![SprintEvent { client: 0, start: true }, SprintEvent { client: 9, start: true }];
    let hits = w.handle_combat_events(100, &sprints, &vec![attack(0, 1)]);
    assert_eq!(hits, vec![HitReport { attacker: 0, victim: 1, end_game: None }]);
    assert_eq!(w.player(1).velocity, Vec3i::new(10800, 8432, 14400));
    assert!(!w.player(0).state.has_bonus_knockback);
}

#[test]
fn sprint_stop_clears_bonus() {
    let mut w = duel(Variant::Health);
    let sprints = vec![SprintEvent { client: 0, start: true }, SprintEvent { client: 0, start: false }];
    w.handle_combat_events(100, &sprints, &vec![]);
    assert!(!w.player(0).state.has_bonus_knockback);
}

#[test]
fn repeated_attack_in_one_tick_lands_once() {
    let mut w = duel(Variant::Health);
    let hits = w.handle_combat_events(100, &vec![], &vec![attack(0, 1), attack(0, 1)]);
    assert_eq!(hits.len(), 1);
    assert_eq!(w.player(1).health, 19000);
}

#[test]
fn self_attack_and_unknown_handles_are_dropped() {
    let mut w = duel(Variant::Health);
    let hits = w.handle_combat_events(100, &vec![], &vec![attack(0, 0), attack(0, 5), attack(5, 1)]);
    assert!(hits.is_empty());
    assert_eq!(w.player(0).health, 20000);
    assert_eq!(w.player(1).health, 20000);
}

#[test]
fn boxing_knockout_reported_once_after_five_hits() {
    let mut w = duel(Variant::HitCounter);
    let mut ends = 0;
    for n in 1..=5i64 {
        let hits = w.handle_combat_events(n * 10, &vec![], &vec![attack(0, 1)]);
        assert_eq!(hits.len(), 1);
        if hits[0].end_game.is_some() {
            ends += 1;
            assert_eq!(n, 5);
            assert_eq!(hits[0].end_game, Some(EndGameEvent { game_id: 7, loser: 2 }));
        }
    }
    assert_eq!(ends, 1);
}

#[test]
fn shot_takes_one_ammo_and_records_owner() {
    let mut w = duel(Variant::Health);
    w.gamestage_change(4, &vec![0, 1]);
    assert_eq!(w.handle_player_action(0, PlayerAction::ReleaseUseItem), Some(0));
    assert_eq!(w.inventories[0].slot(44).count, 9);
    assert_eq!(w.projectiles, vec![0]);
    assert_eq!(w.handle_player_action(1, PlayerAction::ReleaseUseItem), Some(1));
    assert_eq!(w.projectiles, vec![0, 1]);
}

#[test]
fn shot_without_loadout_or_other_action_does_nothing() {
    let mut w = duel(Variant::Health);
    assert_eq!(w.handle_player_action(0, PlayerAction::ReleaseUseItem), None);
    w.gamestage_change(4, &vec![0]);
    assert_eq!(w.handle_player_action(0, PlayerAction::Other), None);
    assert_eq!(w.handle_player_action(7, PlayerAction::ReleaseUseItem), None);
    assert_eq!(w.inventories[0].slot(44).count, 10);
    assert!(w.projectiles.is_empty());
}

#[test]
fn projectile_round_trip_hits_target_not_shooter() {
    let mut w = duel(Variant::Health);
    w.gamestage_change(4, &vec![0, 1]);
    let mut shooter = w.player(0);
    shooter.state.has_bonus_knockback = true;
    w.players[0] = shooter;
    let p = w.handle_player_action(0, PlayerAction::ReleaseUseItem).unwrap();
    let hits = w.handle_collision_events(&vec![CollisionEvent { projectile: p, target: 1 }]);
    assert_eq!(hits, vec![HitReport { attacker: 0, victim: 1, end_game: None }]);
    assert_eq!(w.player(1).health, 14000);
    assert_eq!(w.player(1).velocity, Vec3i::zero());
    assert_eq!(w.player(0).health, 20000);
    assert!(!w.player(0).state.has_bonus_knockback);
}

#[test]
fn projectile_on_its_shooter_or_unknown_is_dropped() {
    let mut w = duel(Variant::Health);
    w.gamestage_change(4, &vec![0]);
    let p = w.handle_player_action(0, PlayerAction::ReleaseUseItem).unwrap();
    let hits = w.handle_collision_events(&vec![
        CollisionEvent { projectile: p, target: 0 },
        CollisionEvent { projectile: 3, target: 1 },
    ]);
    assert!(hits.is_empty());
    assert_eq!(w.player(0).health, 20000);
    assert_eq!(w.player(1).health, 20000);
}

#[test]
fn lethal_projectile_ends_match() {
    let mut w = duel(Variant::Health);
    w.gamestage_change(4, &vec![0]);
    let mut v = w.player(1);
    v.health = 6000;
    w.players[1] = v;
    let p = w.handle_player_action(0, PlayerAction::ReleaseUseItem).unwrap();
    let hits = w.handle_collision_events(&vec![CollisionEvent { projectile: p, target: 1 }]);
    assert_eq!(hits[0].end_game, Some(EndGameEvent { game_id: 7, loser: 2 }));
    assert_eq!(w.player(1).health, 6000);
}

#[test]
fn knockback_of_close_players_keeps_tier_magnitude() {
    let r = knockback_impulse(Vec3i::new(0, 0, 0), Vec3i::new(1, 0, 1), true);
    assert_eq!(r, Vec3i::new(12728, 8432, 12728));
    let r = knockback_impulse(Vec3i::new(0, 0, 0), Vec3i::new(1, 0, 1), false);
    assert_eq!(r, Vec3i::new(5656, 6432, 5656));
    let r = knockback_impulse(Vec3i::new(0, 0, 0), Vec3i::new(2, 0, 3), true);
    assert_eq!(r, Vec3i::new(9984, 8432, 14976));
    let r = knockback_impulse(Vec3i::new(10, 0, -10), Vec3i::new(3, 0, -5), false);
    assert_eq!(r, Vec3i::new(-6509, 6432, 4649));
    for (x, z, k) in [(12728i64, 12728i64, 18000i64), (5656, 5656, 8000), (9984, 14976, 18000), (-6509, 4649, 8000)] {
        let m = x * x + z * z;
        assert!((k - 2) * (k - 2) <= m && m <= (k + 2) * (k + 2));
    }
}

#[test]
fn set_health_replaces_health() {
    let mut w = duel(Variant::Health);
    w.set_health(1, 500);
    assert_eq!(w.player(1).health, 500);
    let hits = w.handle_combat_events(100, &vec![], &vec![attack(0, 1)]);
    assert_eq!(hits[0].end_game, Some(EndGameEvent { game_id: 7, loser: 2 }));
}
