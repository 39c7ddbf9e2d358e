//! Properties that hold of every input, stated over the contracts of the
//! combat, inventory and world functions and proved.

use vstd::prelude::*;
use crate::combat::{
    EndGameEvent, Fighter, Interaction, Variant, ATTACK_COOLDOWN, KNOCKOUT_HITS,
    PROJECTILE_DAMAGE, add_impulse_spec, attack_passes, attack_spec, bonus_spent, damaged,
    loss_of, melee_damage,
};
use crate::inventory::{AMMO_SLOT, Inventory, ItemKind, ItemStack, PLAYER_SLOTS};
use crate::knockback::{
    FINE, Vec3i, floor_sqrt, is_floor_sqrt, knockback_spec, lemma_push_magnitude, planar_len,
    scale_toward_zero, sq, tier_xz, tier_y,
};
use crate::world::{
    CollisionEvent, HitReport, WorldView, collision_step, end_game_spec, oob_spec,
};

verus! {

/// An attack that passes its gates marks the victim as attacked at the
/// current tick, later than before, and takes no more than the melee damage
/// of health, or adds one hit to the counter at most.
pub proof fn law_attack_marks_victim(
    attacker: Fighter,
    victim: Fighter,
    tick: i64,
    variant: Variant,
)
    requires
        attack_passes(attacker, victim, Interaction::Attack, tick),
    ensures
        ({
            let (a, v, r) = attack_spec(attacker, victim, Interaction::Attack, tick, variant);
            &&& r.is_some()
            &&& v.state.last_attacked_tick == tick
            &&& victim.state.last_attacked_tick < v.state.last_attacked_tick
            &&& v.health <= victim.health
            &&& victim.health - v.health <= melee_damage(variant)
            &&& victim.hits <= v.hits <= victim.hits + 1
        }),
{
}

/// An attack on a victim still cooling down changes nothing of the victim
/// and lands no hit.
pub proof fn law_cooldown_blocks(
    attacker: Fighter,
    victim: Fighter,
    interaction: Interaction,
    tick: i64,
    variant: Variant,
)
    requires
        tick - victim.state.last_attacked_tick < ATTACK_COOLDOWN,
    ensures
        attack_spec(attacker, victim, interaction, tick, variant).1 == victim,
        attack_spec(attacker, victim, interaction, tick, variant).2.is_none(),
{
}

/// A hit that lands pushes the victim by the tier that the attacker's bonus
/// selected at that moment: upward by the tier's vertical magnitude and,
/// unless both stand on one vertical line, horizontally by the tier's
/// horizontal magnitude to within two units. It leaves the attacker without
/// the bonus.
pub proof fn law_knockback_tier(attacker: Fighter, victim: Fighter, tick: i64, variant: Variant)
    requires
        attack_passes(attacker, victim, Interaction::Attack, tick),
    ensures
        ({
            let (a, v, r) = attack_spec(attacker, victim, Interaction::Attack, tick, variant);
            let bonus = attacker.state.has_bonus_knockback;
            let dx = victim.position.x - attacker.position.x;
            let dz = victim.position.z - attacker.position.z;
            &&& !a.state.has_bonus_knockback
            &&& v.velocity == add_impulse_spec(
                victim.velocity,
                knockback_spec(attacker.position, victim.position, bonus),
            )
            &&& knockback_spec(attacker.position, victim.position, bonus).1 == tier_y(bonus)
            &&& (dx != 0 || dz != 0) ==> {
                let k = knockback_spec(attacker.position, victim.position, bonus);
                sq(tier_xz(bonus) - 2) <= sq(k.0) + sq(k.2) <= sq(tier_xz(bonus) + 2)
            }
        }),
{
    let dx = victim.position.x - attacker.position.x;
    let dz = victim.position.z - attacker.position.z;
    if dx != 0 || dz != 0 {
        lemma_push_magnitude(dx, dz, attacker.state.has_bonus_knockback);
    }
}

/// Every attack, whether or not it passes the gates, spends the attacker's
/// bonus.
pub proof fn law_attack_spends_bonus(
    attacker: Fighter,
    victim: Fighter,
    tick: i64,
    variant: Variant,
)
    ensures
        !attack_spec(attacker, victim, Interaction::Attack, tick, variant).0.state.has_bonus_knockback,
{
}

proof fn lemma_sqrt_of_square(d: int)
    ensures
        floor_sqrt(d * d) == if d >= 0 {
            d
        } else {
            -d
        },
{
    let a = if d >= 0 {
        d
    } else {
        -d
    };
    assert(a * a == d * d) by (nonlinear_arith)
        requires
            a == d || a == -d,
    ;
    assert(d * d < (a + 1) * (a + 1)) by (nonlinear_arith)
        requires
            a * a == d * d,
            a >= 0,
    ;
    assert(is_floor_sqrt(d * d, a));
    let c = floor_sqrt(d * d);
    if c != a {
        if c < a {
            assert((c + 1) * (c + 1) <= a * a) by (nonlinear_arith)
                requires
                    0 <= c + 1 <= a,
            ;
        } else {
            assert((a + 1) * (a + 1) <= c * c) by (nonlinear_arith)
                requires
                    0 <= a + 1 <= c,
            ;
        }
    }
}

/// The horizontal push points from attacker to victim: with both on one
/// vertical line it is zero; along an axis it is the whole tier, signed by
/// the direction; in general each component carries the sign of the offset,
/// stays within the tier, and the push has the tier's magnitude to within
/// two units.
pub proof fn law_knockback_direction(attacker: Vec3i, victim: Vec3i, bonus: bool)
    ensures
        ({
            let k = knockback_spec(attacker, victim, bonus);
            let dx = victim.x - attacker.x;
            let dz = victim.z - attacker.z;
            &&& (dx == 0 && dz == 0) ==> k.0 == 0 && k.2 == 0
            &&& (dz == 0 && dx > 0) ==> k.0 == tier_xz(bonus) && k.2 == 0
            &&& (dz == 0 && dx < 0) ==> k.0 == -tier_xz(bonus) && k.2 == 0
            &&& (dx == 0 && dz > 0) ==> k.0 == 0 && k.2 == tier_xz(bonus)
            &&& (dx == 0 && dz < 0) ==> k.0 == 0 && k.2 == -tier_xz(bonus)
            &&& dx >= 0 ==> k.0 >= 0
            &&& dx <= 0 ==> k.0 <= 0
            &&& dz >= 0 ==> k.2 >= 0
            &&& dz <= 0 ==> k.2 <= 0
            &&& (dx != 0 || dz != 0) ==> sq(tier_xz(bonus) - 2) <= sq(k.0) + sq(k.2) <= sq(
                tier_xz(bonus) + 2,
            )
        }),
{
    let dx = victim.x - attacker.x;
    let dz = victim.z - attacker.z;
    let kx = tier_xz(bonus);
    let f = FINE as int;
    let m = kx * f;
    if dx != 0 || dz != 0 {
        lemma_push_magnitude(dx, dz, bonus);
        let n = (dx * dx + dz * dz) * (f * f);
        assert(n >= 1) by (nonlinear_arith)
            requires
                dx != 0 || dz != 0,
                n == (dx * dx + dz * dz) * (f * f),
                f >= 1,
        ;
        if dz == 0 {
            lemma_axis_push(dx, dz, kx);
        }
        if dx == 0 {
            lemma_axis_push(dz, dx, kx);
            assert(planar_len(dx, dz) == planar_len(dz, dx)) by {
                assert(dx * dx + dz * dz == dz * dz + dx * dx);
            }
        }
        let len = planar_len(dx, dz);
        crate::knockback::lemma_floor_sqrt_exists(n);
        assert(len >= 1) by (nonlinear_arith)
            requires
                is_floor_sqrt(n, len),
                n >= 1,
        ;
        assert(m >= 0);
        if dx >= 0 {
            assert(dx * m / len >= 0) by (nonlinear_arith)
                requires
                    dx >= 0,
                    m >= 0,
                    len >= 1,
            ;
        } else {
            assert((-dx) * m / len >= 0) by (nonlinear_arith)
                requires
                    dx < 0,
                    m >= 0,
                    len >= 1,
            ;
        }
        if dz >= 0 {
            assert(dz * m / len >= 0) by (nonlinear_arith)
                requires
                    dz >= 0,
                    m >= 0,
                    len >= 1,
            ;
        } else {
            assert((-dz) * m / len >= 0) by (nonlinear_arith)
                requires
                    dz < 0,
                    m >= 0,
                    len >= 1,
            ;
        }
    }
}

/// Along an axis the length is exact, and the push is the whole tier.
proof fn lemma_axis_push(d: int, zero: int, k: int)
    requires
        d != 0,
        zero == 0,
        k >= 0,
    ensures
        planar_len(d, zero) == (if d >= 0 {
            d
        } else {
            -d
        }) * FINE,
        scale_toward_zero(d, k * FINE, planar_len(d, zero)) == if d > 0 {
            k
        } else {
            -k
        },
{
    let f = FINE as int;
    let df = d * f;
    assert((d * d + zero * zero) * (f * f) == df * df) by (nonlinear_arith)
        requires
            zero == 0,
            df == d * f,
    ;
    lemma_sqrt_of_square(df);
    let a = if d >= 0 {
        d
    } else {
        -d
    };
    assert((if df >= 0 {
        df
    } else {
        -df
    }) == a * f) by (nonlinear_arith)
        requires
            df == d * f,
            f > 0,
            a == d || a == -d,
            a >= 0,
            d >= 0 ==> a == d,
            d < 0 ==> a == -d,
    ;
    assert(a * (k * f) / (a * f) == k) by (nonlinear_arith)
        requires
            a > 0,
            f > 0,
            k >= 0,
    ;
}

/// In the health variant a hit of at least the victim's health ends the
/// match with the victim's team as loser and leaves health as it was; any
/// other hit takes exactly its damage and ends nothing.
pub proof fn law_health_hit(victim: Fighter, damage: int, impulse: (int, int, int))
    requires
        damage >= 0,
    ensures
        ({
            let (v, e) = damaged(victim, damage, impulse, Variant::Health);
            &&& damage >= victim.health ==> e == Some(loss_of(victim)) && v.health == victim.health
            &&& damage < victim.health ==> e.is_none() && v.health == victim.health - damage
        }),
{
}

/// In the hit-counter variant the first four hits of a match end nothing;
/// the fifth ends it with the victim's team as loser.
pub proof fn law_fifth_hit_ends(victim: Fighter, damage: int, impulse: (int, int, int))
    requires
        victim.hits < KNOCKOUT_HITS,
    ensures
        ({
            let (v, e) = damaged(victim, damage, impulse, Variant::HitCounter);
            &&& v.hits == victim.hits + 1
            &&& victim.hits + 1 < KNOCKOUT_HITS ==> e.is_none()
            &&& victim.hits + 1 == KNOCKOUT_HITS ==> e == Some(loss_of(victim))
        }),
{
}

/// Ending a match twice leaves the world as ending it once.
pub proof fn law_end_game_idempotent(w: WorldView, members: Seq<usize>)
    ensures
        end_game_spec(end_game_spec(w, members), members) == end_game_spec(w, members),
{
    let once = end_game_spec(w, members);
    let twice = end_game_spec(once, members);
    assert(twice.players =~= once.players);
    assert(twice.inventories =~= once.inventories);
}

/// A player below the floor while in a match yields one end of that match,
/// with the player's team as loser; a player on or above the floor, or in
/// no match, yields none.
pub proof fn law_out_of_bounds_one_event(f: Fighter)
    ensures
        oob_spec(seq![f]) == if f.position.y < 0 && f.game.game_id.is_some() {
            seq![loss_of(f)]
        } else {
            Seq::<EndGameEvent>::empty()
        },
{
    assert(seq![f].drop_last() =~= Seq::<Fighter>::empty());
    assert(oob_spec(Seq::<Fighter>::empty()) == Seq::<EndGameEvent>::empty());
    assert(seq![f].last() == f);
    assert(Seq::<EndGameEvent>::empty().push(loss_of(f)) =~= seq![loss_of(f)]);
}

/// A shot takes exactly one unit of ammunition and nothing else.
pub proof fn law_shot_takes_one(s: Seq<ItemStack>)
    requires
        s.len() == PLAYER_SLOTS,
        s[AMMO_SLOT as int].item == ItemKind::Arrow,
        s[AMMO_SLOT as int].count >= 1,
    ensures
        Inventory::after_shot(s)[AMMO_SLOT as int].count == s[AMMO_SLOT as int].count - 1,
        forall|i: int|
            0 <= i < s.len() && i != AMMO_SLOT ==> #[trigger] Inventory::after_shot(s)[i] == s[i],
{
}

/// A projectile that strikes a player other than its shooter deals the
/// projectile's damage with no knockback to that player, whatever bonus the
/// shooter holds, and changes nothing of the shooter but the bonus.
pub proof fn law_projectile_hits_target(
    players: Seq<Fighter>,
    owners: Seq<usize>,
    shooter: usize,
    target: usize,
    variant: Variant,
)
    requires
        shooter < players.len(),
        target < players.len(),
        shooter != target,
        players[target as int].game.game_id.is_some(),
        owners.len() < usize::MAX,
    ensures
        ({
            let e = CollisionEvent { projectile: owners.len() as usize, target };
            let (q, h) = collision_step(players, owners.push(shooter), e, variant);
            let (v, end) = damaged(
                players[target as int],
                PROJECTILE_DAMAGE as int,
                (0, 0, 0),
                variant,
            );
            &&& q[target as int] == v
            &&& q[shooter as int] == bonus_spent(players[shooter as int])
            &&& h == Some(HitReport { attacker: shooter, victim: target, end_game: end })
        }),
{
}

} // verus!
