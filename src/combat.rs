//! Attack validation and hit application between two fighters.

use vstd::prelude::*;
use crate::knockback::{Vec3i, knockback_impulse, knockback_spec};

verus! {

/// Ticks that must pass between two melee hits on one victim.
pub const ATTACK_COOLDOWN: i64 = 10;

/// Damage of a melee hit in the health-based variant.
pub const MELEE_DAMAGE: u64 = 1000;

/// Damage of a projectile hit.
pub const PROJECTILE_DAMAGE: u64 = 6000;

/// Hits that knock a player out in the hit-counter variant.
pub const KNOCKOUT_HITS: u8 = 5;

/// Per-player combat state.
#[derive(Clone, Copy, Debug, PartialEq, Eq, Structural)]
pub struct CombatState {
    pub last_attacked_tick: i64,
    pub has_bonus_knockback: bool,
}

/// The match a player belongs to, if any, and the player's team.
#[derive(Clone, Copy, Debug, PartialEq, Eq, Structural)]
pub struct PlayerGameState {
    pub game_id: Option<u64>,
    pub team: u64,
}

/// The end of a match, naming the team that lost it.
#[derive(Clone, Copy, Debug, PartialEq, Eq, Structural)]
pub struct EndGameEvent {
    pub game_id: u64,
    pub loser: u64,
}

/// How a hit counts against its victim.
#[derive(Clone, Copy, Debug, PartialEq, Eq, Structural)]
pub enum Variant {
    /// Hits take health; a hit that would take the last of it ends the match.
    Health,
    /// Hits are counted; the fifth ends the match.
    HitCounter,
}

/// What a player did to another entity.
#[derive(Clone, Copy, Debug, PartialEq, Eq, Structural)]
pub enum Interaction {
    Interact,
    Attack,
    InteractAt,
}

/// The state of one player that combat reads and writes.
#[derive(Clone, Copy, Debug, PartialEq, Eq, Structural)]
pub struct Fighter {
    pub position: Vec3i,
    pub velocity: Vec3i,
    pub health: u64,
    pub hits: u8,
    pub state: CombatState,
    pub game: PlayerGameState,
}

impl Fighter {
    /// A player at `position` with `health`, in `game`, at rest, never
    /// attacked, without bonus and without hits.
    pub fn new(position: Vec3i, health: u64, game: PlayerGameState) -> (r: Fighter)
        ensures
            r == (Fighter {
                position,
                velocity: Vec3i { x: 0, y: 0, z: 0 },
                health,
                hits: 0,
                state: CombatState { last_attacked_tick: 0, has_bonus_knockback: false },
                game,
            }),
    {
        Fighter {
            position,
            velocity: Vec3i::zero(),
            health,
            hits: 0,
            state: CombatState { last_attacked_tick: 0, has_bonus_knockback: false },
            game,
        }
    }
}

/// `v` clamped to the range of `i64`.
pub open spec fn clamp_i64(v: int) -> int {
    if v > i64::MAX {
        i64::MAX as int
    } else if v < i64::MIN {
        i64::MIN as int
    } else {
        v
    }
}

/// Velocity `v` after the impulse `d`, each component saturating.
pub open spec fn add_impulse_spec(v: Vec3i, d: (int, int, int)) -> Vec3i {
    Vec3i {
        x: clamp_i64(v.x + d.0) as i64,
        y: clamp_i64(v.y + d.1) as i64,
        z: clamp_i64(v.z + d.2) as i64,
    }
}

/// One more hit on the counter, saturating.
pub open spec fn next_hits(h: u8) -> u8 {
    if h < u8::MAX {
        (h + 1) as u8
    } else {
        h
    }
}

/// The end of `victim`'s match with `victim`'s team as loser.
pub open spec fn loss_of(victim: Fighter) -> EndGameEvent {
    EndGameEvent { game_id: victim.game.game_id.unwrap(), loser: victim.game.team }
}

/// The victim after a hit of `damage` with knockback `impulse`, and the end
/// of the match that the hit brings, if it brings one.
pub open spec fn damaged(victim: Fighter, damage: int, impulse: (int, int, int), variant: Variant) -> (
    Fighter,
    Option<EndGameEvent>,
) {
    let pushed = Fighter { velocity: add_impulse_spec(victim.velocity, impulse), ..victim };
    match variant {
        Variant::Health => {
            if victim.health <= damage {
                (pushed, Some(loss_of(victim)))
            } else {
                (Fighter { health: (victim.health - damage) as u64, ..pushed }, None)
            }
        },
        Variant::HitCounter => {
            let h = next_hits(victim.hits);
            (Fighter { hits: h, ..pushed }, if h >= KNOCKOUT_HITS {
                Some(loss_of(victim))
            } else {
                None
            })
        },
    }
}

/// `f` with its knockback bonus spent.
pub open spec fn bonus_spent(f: Fighter) -> Fighter {
    Fighter { state: CombatState { has_bonus_knockback: false, ..f.state }, ..f }
}

/// `f` after a sprint starts (`start`) or stops.
pub open spec fn sprint_spec(f: Fighter, start: bool) -> Fighter {
    Fighter { state: CombatState { has_bonus_knockback: start, ..f.state }, ..f }
}

/// The melee attack gates: an attack, off cooldown, both in one match.
pub open spec fn attack_passes(
    attacker: Fighter,
    victim: Fighter,
    interaction: Interaction,
    tick: i64,
) -> bool {
    &&& interaction == Interaction::Attack
    &&& tick - victim.state.last_attacked_tick >= ATTACK_COOLDOWN
    &&& attacker.game.game_id.is_some()
    &&& attacker.game.game_id == victim.game.game_id
}

/// Damage a melee hit deals in `variant`.
pub open spec fn melee_damage(variant: Variant) -> int {
    match variant {
        Variant::Health => MELEE_DAMAGE as int,
        Variant::HitCounter => 0,
    }
}

/// Attacker and victim after an interaction, and, where the attack passed
/// its gates, the end of the match that it brings (if any). Any attack
/// spends the attacker's bonus, whether or not it passes the gates.
pub open spec fn attack_spec(
    attacker: Fighter,
    victim: Fighter,
    interaction: Interaction,
    tick: i64,
    variant: Variant,
) -> (Fighter, Fighter, Option<Option<EndGameEvent>>) {
    let a = if interaction == Interaction::Attack {
        bonus_spent(attacker)
    } else {
        attacker
    };
    if attack_passes(attacker, victim, interaction, tick) {
        let marked = Fighter {
            state: CombatState { last_attacked_tick: tick, ..victim.state },
            ..victim
        };
        let impulse = knockback_spec(
            attacker.position,
            victim.position,
            attacker.state.has_bonus_knockback,
        );
        let (v, e) = damaged(marked, melee_damage(variant), impulse, variant);
        (a, v, Some(e))
    } else {
        (a, victim, None)
    }
}

fn saturating_add_i64(a: i64, b: i64) -> (r: i64)
    ensures
        r == clamp_i64(a + b),
{
    let s: i128 = a as i128 + b as i128;
    if s > i64::MAX as i128 {
        i64::MAX
    } else if s < i64::MIN as i128 {
        i64::MIN
    } else {
        s as i64
    }
}

/// Velocity `v` after the impulse `d`.
pub fn add_impulse(v: Vec3i, d: Vec3i) -> (r: Vec3i)
    ensures
        r == add_impulse_spec(v, (d.x as int, d.y as int, d.z as int)),
{
    Vec3i {
        x: saturating_add_i64(v.x, d.x),
        y: saturating_add_i64(v.y, d.y),
        z: saturating_add_i64(v.z, d.z),
    }
}

/// Applies a hit of `damage` with knockback `impulse` to `victim`, and
/// spends the attacker's bonus. Returns the end of the match where the hit
/// ends it.
pub fn damage_player(
    attacker: &mut Fighter,
    victim: &mut Fighter,
    damage: u64,
    impulse: Vec3i,
    variant: Variant,
) -> (r: Option<EndGameEvent>)
    requires
        old(victim).game.game_id.is_some(),
    ensures
        *final(attacker) == bonus_spent(*old(attacker)),
        (*final(victim), r) == damaged(
            *old(victim),
            damage as int,
            (impulse.x as int, impulse.y as int, impulse.z as int),
            variant,
        ),
{
    victim.velocity = add_impulse(victim.velocity, impulse);
    attacker.state.has_bonus_knockback = false;
    let loss = EndGameEvent {
        game_id: match victim.game.game_id {
            Some(g) => g,
            None => 0,
        },
        loser: victim.game.team,
    };
    match variant {
        Variant::Health => {
            if victim.health <= damage {
                Some(loss)
            } else {
                victim.health = victim.health - damage;
                None
            }
        },
        Variant::HitCounter => {
            if victim.hits < u8::MAX {
                victim.hits = victim.hits + 1;
            }
            if victim.hits >= KNOCKOUT_HITS {
                Some(loss)
            } else {
                None
            }
        },
    }
}

/// Sets the knockback bonus of `f` as a sprint starts or stops.
pub fn apply_sprint(f: &mut Fighter, start: bool)
    ensures
        *final(f) == sprint_spec(*old(f), start),
{
    f.state.has_bonus_knockback = start;
}

/// Resolves a melee interaction of `attacker` on `victim` at `tick`.
/// Returns `None` where the interaction is dropped by the gates, else the
/// end of the match that the hit brings, if any.
pub fn resolve_attack(
    attacker: &mut Fighter,
    victim: &mut Fighter,
    interaction: Interaction,
    tick: i64,
    variant: Variant,
) -> (r: Option<Option<EndGameEvent>>)
    requires
        old(attacker).position.in_world(),
        old(victim).position.in_world(),
    ensures
        (*final(attacker), *final(victim), r) == attack_spec(
            *old(attacker),
            *old(victim),
            interaction,
            tick,
            variant,
        ),
{
    let is_attack = match interaction {
        Interaction::Attack => true,
        _ => false,
    };
    let same_game = match (attacker.game.game_id, victim.game.game_id) {
        (Some(a), Some(b)) => a == b,
        _ => false,
    };
    let cooled = (tick as i128) - (victim.state.last_attacked_tick as i128) >= ATTACK_COOLDOWN as i128;
    if !(is_attack && cooled && same_game) {
        if is_attack {
            attacker.state.has_bonus_knockback = false;
        }
        return None;
    }
    victim.state.last_attacked_tick = tick;
    let impulse = knockback_impulse(attacker.position, victim.position, attacker.state.has_bonus_knockback);
    let damage: u64 = match variant {
        Variant::Health => MELEE_DAMAGE,
        Variant::HitCounter => 0,
    };
    let e = damage_player(attacker, victim, damage, impulse, variant);
    Some(e)
}

} // verus!
