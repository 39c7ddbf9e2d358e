//! The store of players, inventories and projectiles, and the systems that
//! run over it each tick.

use vstd::prelude::*;
use crate::combat::{
    EndGameEvent, Fighter, Interaction, PlayerGameState, Variant, PROJECTILE_DAMAGE, apply_sprint,
    attack_spec, bonus_spent, damage_player, damaged, loss_of, resolve_attack, sprint_spec,
};
use crate::inventory::{Inventory, ItemStack, PLAYER_SLOTS, empty_slots};
use crate::knockback::Vec3i;

verus! {

/// A player starting or stopping a sprint.
#[derive(Clone, Copy, Debug, PartialEq, Eq, Structural)]
pub struct SprintEvent {
    pub client: usize,
    pub start: bool,
}

/// A player interacting with another player.
#[derive(Clone, Copy, Debug, PartialEq, Eq, Structural)]
pub struct InteractEvent {
    pub attacker: usize,
    pub victim: usize,
    pub interaction: Interaction,
}

/// A projectile striking a player.
#[derive(Clone, Copy, Debug, PartialEq, Eq, Structural)]
pub struct CollisionEvent {
    pub projectile: usize,
    pub target: usize,
}

/// A hit that landed: who struck whom, and the end of the match it brought.
#[derive(Clone, Copy, Debug, PartialEq, Eq, Structural)]
pub struct HitReport {
    pub attacker: usize,
    pub victim: usize,
    pub end_game: Option<EndGameEvent>,
}

/// An action a player takes with the held item.
#[derive(Clone, Copy, Debug, PartialEq, Eq, Structural)]
pub enum PlayerAction {
    ReleaseUseItem,
    Other,
}

/// Players, their inventories, and the owner of each projectile, by handle.
#[derive(Debug)]
pub struct World {
    pub variant: Variant,
    pub players: Vec<Fighter>,
    pub inventories: Vec<Inventory>,
    pub projectiles: Vec<usize>,
}

/// What a world holds, as mathematical values.
pub struct WorldView {
    pub variant: Variant,
    pub players: Seq<Fighter>,
    pub inventories: Seq<Seq<ItemStack>>,
    pub projectiles: Seq<usize>,
}

impl View for World {
    type V = WorldView;

    open spec fn view(&self) -> WorldView {
        WorldView {
            variant: self.variant,
            players: self.players@,
            inventories: self.inventories@.map_values(|i: Inventory| i.slots@),
            projectiles: self.projectiles@,
        }
    }
}

/// Players after the sprint events `ev`, in order.
pub open spec fn sprints_spec(p: Seq<Fighter>, ev: Seq<SprintEvent>) -> Seq<Fighter>
    decreases ev.len(),
{
    if ev.len() == 0 {
        p
    } else {
        let q = sprints_spec(p, ev.drop_last());
        let e = ev.last();
        if e.client < q.len() {
            q.update(e.client as int, sprint_spec(q[e.client as int], e.start))
        } else {
            q
        }
    }
}

/// Players after one interaction, and the hit that it landed, if any.
pub open spec fn interact_step(p: Seq<Fighter>, e: InteractEvent, tick: i64, variant: Variant) -> (
    Seq<Fighter>,
    Option<HitReport>,
) {
    if e.attacker < p.len() && e.victim < p.len() && e.attacker != e.victim {
        let (a, v, r) = attack_spec(
            p[e.attacker as int],
            p[e.victim as int],
            e.interaction,
            tick,
            variant,
        );
        let q = p.update(e.attacker as int, a).update(e.victim as int, v);
        match r {
            Some(end) => (q, Some(HitReport { attacker: e.attacker, victim: e.victim, end_game: end })),
            None => (q, None),
        }
    } else {
        (p, None)
    }
}

/// Players after the interactions `ev`, in order, and the hits they landed.
pub open spec fn interactions_spec(
    p: Seq<Fighter>,
    ev: Seq<InteractEvent>,
    tick: i64,
    variant: Variant,
) -> (Seq<Fighter>, Seq<HitReport>)
    decreases ev.len(),
{
    if ev.len() == 0 {
        (p, Seq::empty())
    } else {
        let (q, hits) = interactions_spec(p, ev.drop_last(), tick, variant);
        let (q2, h) = interact_step(q, ev.last(), tick, variant);
        match h {
            Some(x) => (q2, hits.push(x)),
            None => (q2, hits),
        }
    }
}

/// Players after one projectile collision, and the hit that it landed.
pub open spec fn collision_step(
    p: Seq<Fighter>,
    owners: Seq<usize>,
    e: CollisionEvent,
    variant: Variant,
) -> (Seq<Fighter>, Option<HitReport>) {
    if e.projectile < owners.len() && owners[e.projectile as int] < p.len() && e.target < p.len()
        && owners[e.projectile as int] != e.target && p[e.target as int].game.game_id.is_some() {
        let o = owners[e.projectile as int];
        let (v, end) = damaged(p[e.target as int], PROJECTILE_DAMAGE as int, (0, 0, 0), variant);
        let q = p.update(o as int, bonus_spent(p[o as int])).update(e.target as int, v);
        (q, Some(HitReport { attacker: o, victim: e.target, end_game: end }))
    } else {
        (p, None)
    }
}

/// Players after the collisions `ev`, in order, and the hits they landed.
pub open spec fn collisions_spec(
    p: Seq<Fighter>,
    owners: Seq<usize>,
    ev: Seq<CollisionEvent>,
    variant: Variant,
) -> (Seq<Fighter>, Seq<HitReport>)
    decreases ev.len(),
{
    if ev.len() == 0 {
        (p, Seq::empty())
    } else {
        let (q, hits) = collisions_spec(p, owners, ev.drop_last(), variant);
        let (q2, h) = collision_step(q, owners, ev.last(), variant);
        match h {
            Some(x) => (q2, hits.push(x)),
            None => (q2, hits),
        }
    }
}

/// Every position of `p` lies in the world.
pub open spec fn all_in_world(p: Seq<Fighter>) -> bool {
    forall|i: int| 0 <= i < p.len() ==> (#[trigger] p[i]).position.in_world()
}

/// The stage at which a match turns to combat.
pub const COMBAT_STAGE: u8 = 4;

/// `f` with its hit counter reset.
pub open spec fn hits_reset(f: Fighter) -> Fighter {
    Fighter { hits: 0, ..f }
}

/// The world after the match whose members are `members` ends: in the
/// health variant each member's inventory is emptied, in the hit-counter
/// variant each member's counter is reset.
pub open spec fn end_game_spec(w: WorldView, members: Seq<usize>) -> WorldView {
    WorldView {
        players: Seq::new(
            w.players.len(),
            |i: int|
                if members.contains(i as usize) && w.variant == Variant::HitCounter {
                    hits_reset(w.players[i])
                } else {
                    w.players[i]
                },
        ),
        inventories: Seq::new(
            w.inventories.len(),
            |i: int|
                if members.contains(i as usize) && w.variant == Variant::Health {
                    empty_slots()
                } else {
                    w.inventories[i]
                },
        ),
        ..w
    }
}

/// The world after a match whose members are `members` reaches `stage`:
/// at the combat stage each member gets the loadout.
pub open spec fn stage_change_spec(w: WorldView, stage: u8, members: Seq<usize>) -> WorldView {
    WorldView {
        inventories: Seq::new(
            w.inventories.len(),
            |i: int|
                if stage == COMBAT_STAGE && members.contains(i as usize) {
                    Inventory::with_loadout(w.inventories[i])
                } else {
                    w.inventories[i]
                },
        ),
        ..w
    }
}

/// The end of a match for each player, in order, who stands below the floor
/// while in a match.
pub open spec fn oob_spec(p: Seq<Fighter>) -> Seq<EndGameEvent>
    decreases p.len(),
{
    if p.len() == 0 {
        Seq::empty()
    } else {
        let rest = oob_spec(p.drop_last());
        let f = p.last();
        if f.position.y < 0 && f.game.game_id.is_some() {
            rest.push(loss_of(f))
        } else {
            rest
        }
    }
}

proof fn lemma_take_contains(s: Seq<usize>, k: int, x: usize)
    requires
        0 <= k < s.len(),
    ensures
        s.take(k + 1).contains(x) == (s.take(k).contains(x) || s[k] == x),
{
    let t1 = s.take(k + 1);
    let t0 = s.take(k);
    if t1.contains(x) && s[k] != x {
        let j = choose|j: int| 0 <= j < t1.len() && #[trigger] t1[j] == x;
        assert(t0[j] == x);
    }
    if t0.contains(x) {
        let j = choose|j: int| 0 <= j < t0.len() && #[trigger] t0[j] == x;
        assert(t1[j] == x);
    }
    if s[k] == x {
        assert(t1[k] == x);
    }
}

impl World {
    pub open spec fn wf(&self) -> bool {
        &&& self.players@.len() == self.inventories@.len()
        &&& all_in_world(self.players@)
        &&& forall|i: int| 0 <= i < self.inventories@.len() ==> (#[trigger] self.inventories@[i]).wf()
    }

    /// A world with no players and no projectiles.
    pub fn new(variant: Variant) -> (r: World)
        ensures
            r.wf(),
            r@.variant == variant,
            r@.players.len() == 0,
            r@.projectiles.len() == 0,
    {
        World { variant, players: Vec::new(), inventories: Vec::new(), projectiles: Vec::new() }
    }

    /// Applies this tick's sprint events, then its interactions, in order.
    /// Returns the hits that landed, in order.
    pub fn handle_combat_events(
        &mut self,
        tick: i64,
        sprints: &Vec<SprintEvent>,
        interactions: &Vec<InteractEvent>,
    ) -> (r: Vec<HitReport>)
        requires
            old(self).wf(),
        ensures
            final(self).wf(),
            (final(self)@.players, r@) == interactions_spec(
                sprints_spec(old(self)@.players, sprints@),
                interactions@,
                tick,
                old(self)@.variant,
            ),
            final(self)@.inventories == old(self)@.inventories,
            final(self)@.projectiles == old(self)@.projectiles,
            final(self)@.variant == old(self)@.variant,
    {
        let ghost p0 = self.players@;
        let mut i: usize = 0;
        while i < sprints.len()
            invariant
                self.wf(),
                i <= sprints@.len(),
                self.players@ == sprints_spec(p0, sprints@.take(i as int)),
                self@.inventories == old(self)@.inventories,
                self@.projectiles == old(self)@.projectiles,
                self@.variant == old(self)@.variant,
            decreases sprints@.len() - i,
        {
            let e = sprints[i];
            assert(sprints@.take(i as int + 1).drop_last() =~= sprints@.take(i as int));
            if e.client < self.players.len() {
                let mut f = self.players[e.client];
                apply_sprint(&mut f, e.start);
                self.players.set(e.client, f);
            }
            i = i + 1;
            assert(self@.inventories =~= old(self)@.inventories);
        }
        assert(sprints@.take(sprints@.len() as int) =~= sprints@);
        let ghost p1 = self.players@;
        let mut hits: Vec<HitReport> = Vec::new();
        let mut k: usize = 0;
        while k < interactions.len()
            invariant
                self.wf(),
                k <= interactions@.len(),
                p1 == sprints_spec(p0, sprints@),
                (self.players@, hits@) == interactions_spec(
                    p1,
                    interactions@.take(k as int),
                    tick,
                    self.variant,
                ),
                self@.inventories == old(self)@.inventories,
                self@.projectiles == old(self)@.projectiles,
                self@.variant == old(self)@.variant,
            decreases interactions@.len() - k,
        {
            let e = interactions[k];
            assert(interactions@.take(k as int + 1).drop_last() =~= interactions@.take(k as int));
            if e.attacker < self.players.len() && e.victim < self.players.len() && e.attacker
                != e.victim {
                let mut a = self.players[e.attacker];
                let mut v = self.players[e.victim];
                let r = resolve_attack(&mut a, &mut v, e.interaction, tick, self.variant);
                self.players.set(e.attacker, a);
                self.players.set(e.victim, v);
                if let Some(end) = r {
                    hits.push(HitReport { attacker: e.attacker, victim: e.victim, end_game: end });
                }
            }
            k = k + 1;
            assert(self@.inventories =~= old(self)@.inventories);
        }
        assert(interactions@.take(interactions@.len() as int) =~= interactions@);
        hits
    }

    /// Applies this tick's projectile collisions, in order: each one whose
    /// projectile has an owner other than the player struck, who plays in a
    /// match, deals the projectile's damage with no knockback. Returns the
    /// hits that landed, in order.
    pub fn handle_collision_events(&mut self, collisions: &Vec<CollisionEvent>) -> (r: Vec<
        HitReport,
    >)
        requires
            old(self).wf(),
        ensures
            final(self).wf(),
            (final(self)@.players, r@) == collisions_spec(
                old(self)@.players,
                old(self)@.projectiles,
                collisions@,
                old(self)@.variant,
            ),
            final(self)@.inventories == old(self)@.inventories,
            final(self)@.projectiles == old(self)@.projectiles,
            final(self)@.variant == old(self)@.variant,
    {
        let ghost p0 = self.players@;
        let mut hits: Vec<HitReport> = Vec::new();
        let mut k: usize = 0;
        while k < collisions.len()
            invariant
                self.wf(),
                k <= collisions@.len(),
                (self.players@, hits@) == collisions_spec(
                    p0,
                    self.projectiles@,
                    collisions@.take(k as int),
                    self.variant,
                ),
                self@.inventories == old(self)@.inventories,
                self@.projectiles == old(self)@.projectiles,
                self@.variant == old(self)@.variant,
            decreases collisions@.len() - k,
        {
            let e = collisions[k];
            assert(collisions@.take(k as int + 1).drop_last() =~= collisions@.take(k as int));
            if e.projectile < self.projectiles.len() {
                let o = self.projectiles[e.projectile];
                if o < self.players.len() && e.target < self.players.len() && o != e.target
                    && self.players[e.target].game.game_id.is_some() {
                    let mut a = self.players[o];
                    let mut v = self.players[e.target];
                    let end = damage_player(
                        &mut a,
                        &mut v,
                        PROJECTILE_DAMAGE,
                        Vec3i::zero(),
                        self.variant,
                    );
                    self.players.set(o, a);
                    self.players.set(e.target, v);
                    hits.push(HitReport { attacker: o, victim: e.target, end_game: end });
                }
            }
            k = k + 1;
            assert(self@.inventories =~= old(self)@.inventories);
        }
        assert(collisions@.take(collisions@.len() as int) =~= collisions@);
        hits
    }

    /// Handles a player's action: a release of the held item with the
    /// launcher and ammunition in their slots takes one unit of ammunition
    /// and records a new projectile owned by the shooter, whose handle it
    /// returns. Any other action changes nothing.
    pub fn handle_player_action(&mut self, shooter: usize, action: PlayerAction) -> (r: Option<
        usize,
    >)
        requires
            old(self).wf(),
        ensures
            final(self).wf(),
            r.is_some() == (shooter < old(self)@.players.len() && action
                == PlayerAction::ReleaseUseItem && old(self).inventories@[shooter as int].can_shoot()),
            r.is_some() ==> {
                &&& r == Some(old(self)@.projectiles.len() as usize)
                &&& final(self)@.projectiles == old(self)@.projectiles.push(shooter)
                &&& final(self)@.inventories == old(self)@.inventories.update(
                    shooter as int,
                    Inventory::after_shot(old(self)@.inventories[shooter as int]),
                )
            },
            r.is_none() ==> final(self)@ == old(self)@,
            final(self)@.players == old(self)@.players,
            final(self)@.variant == old(self)@.variant,
    {
        if action != PlayerAction::ReleaseUseItem || shooter >= self.inventories.len() {
            return None;
        }
        if !self.inventories[shooter].release_shot() {
            assert(self@.inventories =~= old(self)@.inventories);
            return None;
        }
        assert(self@.inventories =~= old(self)@.inventories.update(
            shooter as int,
            Inventory::after_shot(old(self)@.inventories[shooter as int]),
        ));
        let handle = self.projectiles.len();
        self.projectiles.push(shooter);
        Some(handle)
    }

    /// A match whose members are `members` reaches `stage`; at the combat
    /// stage each member gets the loadout.
    pub fn gamestage_change(&mut self, stage: u8, members: &Vec<usize>)
        requires
            old(self).wf(),
        ensures
            final(self).wf(),
            final(self)@ == stage_change_spec(old(self)@, stage, members@),
    {
        let ghost w0 = self@;
        if stage != COMBAT_STAGE {
            assert(self@.inventories =~= stage_change_spec(w0, stage, members@).inventories);
            return;
        }
        assert forall|i: int| 0 <= i < w0.inventories.len() implies (#[trigger] w0.inventories[i]).len()
            == PLAYER_SLOTS by {
            assert(old(self).inventories@[i].wf());
        }
        assert(self@.inventories =~= stage_change_spec(w0, stage, members@.take(0)).inventories);
        let mut k: usize = 0;
        while k < members.len()
            invariant
                self.wf(),
                w0 == old(self)@,
                forall|i: int|
                    0 <= i < w0.inventories.len() ==> (#[trigger] w0.inventories[i]).len()
                        == PLAYER_SLOTS,
                stage == COMBAT_STAGE,
                k <= members@.len(),
                self@ == stage_change_spec(w0, stage, members@.take(k as int)),
            decreases members@.len() - k,
        {
            let m = members[k];
            let ghost before = self@;
            if m < self.inventories.len() {
                self.inventories[m].equip_loadout();
                assert(self@.inventories =~= before.inventories.update(
                    m as int,
                    Inventory::with_loadout(before.inventories[m as int]),
                ));
            } else {
                assert(self@.inventories =~= before.inventories);
            }
            proof {
                let next = stage_change_spec(w0, stage, members@.take(k + 1));
                assert forall|i: int| 0 <= i < w0.inventories.len() implies self@.inventories[i]
                    == next.inventories[i] by {
                    lemma_take_contains(members@, k as int, i as usize);
                    if m == i as usize && members@.take(k as int).contains(i as usize) {
                        assert(w0.inventories[i].len() == PLAYER_SLOTS);
                        assert(Inventory::with_loadout(Inventory::with_loadout(w0.inventories[i]))
                            =~= Inventory::with_loadout(w0.inventories[i]));
                    }
                }
                assert(self@.inventories =~= next.inventories);
            }
            k = k + 1;
        }
        assert(members@.take(members@.len() as int) =~= members@);
    }

    /// The match whose members are `members` ends: in the health variant
    /// each member's inventory is emptied, in the hit-counter variant each
    /// member's counter is reset.
    pub fn end_game(&mut self, members: &Vec<usize>)
        requires
            old(self).wf(),
        ensures
            final(self).wf(),
            final(self)@ == end_game_spec(old(self)@, members@),
    {
        let ghost w0 = self@;
        assert(self@.players =~= end_game_spec(w0, members@.take(0)).players);
        assert(self@.inventories =~= end_game_spec(w0, members@.take(0)).inventories);
        let mut k: usize = 0;
        while k < members.len()
            invariant
                self.wf(),
                w0 == old(self)@,
                k <= members@.len(),
                self@ == end_game_spec(w0, members@.take(k as int)),
            decreases members@.len() - k,
        {
            let m = members[k];
            let ghost before = self@;
            if m < self.players.len() {
                match self.variant {
                    Variant::Health => {
                        self.inventories[m].clear();
                        assert(self@.inventories =~= before.inventories.update(
                            m as int,
                            empty_slots(),
                        ));
                    },
                    Variant::HitCounter => {
                        let mut f = self.players[m];
                        f.hits = 0;
                        self.players.set(m, f);
                        assert(self@.inventories =~= before.inventories);
                    },
                }
            } else {
                assert(self@.inventories =~= before.inventories);
            }
            proof {
                let next = end_game_spec(w0, members@.take(k + 1));
                let t1 = members@.take(k + 1);
                let t0 = members@.take(k as int);
                assert forall|x: usize| #[trigger] t1.contains(x) == (t0.contains(x) || m == x) by {
                    lemma_take_contains(members@, k as int, x);
                }
                assert(self@.players =~= next.players);
                assert(self@.inventories =~= next.inventories);
            }
            k = k + 1;
        }
        assert(members@.take(members@.len() as int) =~= members@);
    }

    /// The end of a match for each player, in order, who stands below the
    /// floor while in a match.
    pub fn handle_oob_clients(&self) -> (r: Vec<EndGameEvent>)
        ensures
            r@ == oob_spec(self@.players),
    {
        let mut out: Vec<EndGameEvent> = Vec::new();
        let mut i: usize = 0;
        while i < self.players.len()
            invariant
                i <= self.players@.len(),
                out@ == oob_spec(self.players@.take(i as int)),
            decreases self.players@.len() - i,
        {
            let f = self.players[i];
            assert(self.players@.take(i as int + 1).drop_last() =~= self.players@.take(i as int));
            if f.position.y < 0 {
                if let Some(g) = f.game.game_id {
                    out.push(EndGameEvent { game_id: g, loser: f.game.team });
                }
            }
            i = i + 1;
        }
        assert(self.players@.take(self.players@.len() as int) =~= self.players@);
        out
    }

    /// Sets each player's velocity to the distance moved since `previous`,
    /// the positions of the tick before.
    pub fn calc_player_vel(&mut self, previous: &Vec<Vec3i>)
        requires
            old(self).wf(),
            previous@.len() == old(self)@.players.len(),
            forall|i: int| 0 <= i < previous@.len() ==> (#[trigger] previous@[i]).in_world(),
        ensures
            final(self).wf(),
            final(self)@.players.len() == old(self)@.players.len(),
            forall|i: int|
                0 <= i < old(self)@.players.len() ==> #[trigger] final(self)@.players[i] == (Fighter {
                    velocity: Vec3i {
                        x: (old(self)@.players[i].position.x - previous@[i].x) as i64,
                        y: (old(self)@.players[i].position.y - previous@[i].y) as i64,
                        z: (old(self)@.players[i].position.z - previous@[i].z) as i64,
                    },
                    ..old(self)@.players[i]
                }),
            final(self)@.inventories == old(self)@.inventories,
            final(self)@.projectiles == old(self)@.projectiles,
            final(self)@.variant == old(self)@.variant,
    {
        let mut i: usize = 0;
        while i < self.players.len()
            invariant
                self.wf(),
                i <= self.players@.len(),
                previous@.len() == self.players@.len(),
                forall|j: int| 0 <= j < previous@.len() ==> (#[trigger] previous@[j]).in_world(),
                self.players@.len() == old(self)@.players.len(),
                forall|j: int|
                    0 <= j < self.players@.len() ==> #[trigger] self.players@[j] == if j < i {
                        Fighter {
                            velocity: Vec3i {
                                x: (old(self)@.players[j].position.x - previous@[j].x) as i64,
                                y: (old(self)@.players[j].position.y - previous@[j].y) as i64,
                                z: (old(self)@.players[j].position.z - previous@[j].z) as i64,
                            },
                            ..old(self)@.players[j]
                        }
                    } else {
                        old(self)@.players[j]
                    },
                self@.inventories == old(self)@.inventories,
                self@.projectiles == old(self)@.projectiles,
                self@.variant == old(self)@.variant,
            decreases self.players@.len() - i,
        {
            let mut f = self.players[i];
            let p = previous[i];
            f.velocity = Vec3i {
                x: f.position.x - p.x,
                y: f.position.y - p.y,
                z: f.position.z - p.z,
            };
            self.players.set(i, f);
            i = i + 1;
            assert(self@.inventories =~= old(self)@.inventories);
        }
    }

    /// Adds a player with an empty inventory and returns its handle.
    pub fn add_player(&mut self, f: Fighter) -> (r: usize)
        requires
            old(self).wf(),
            f.position.in_world(),
        ensures
            final(self).wf(),
            r == old(self)@.players.len(),
            final(self)@.players == old(self)@.players.push(f),
            final(self)@.inventories == old(self)@.inventories.push(empty_slots()),
            final(self)@.projectiles == old(self)@.projectiles,
            final(self)@.variant == old(self)@.variant,
    {
        let r = self.players.len();
        let inv = Inventory::new();
        self.players.push(f);
        self.inventories.push(inv);
        assert(self@.inventories =~= old(self)@.inventories.push(empty_slots()));
        r
    }

    /// The player with handle `i`.
    pub fn player(&self, i: usize) -> (r: Fighter)
        requires
            i < self@.players.len(),
        ensures
            r == self@.players[i as int],
    {
        self.players[i]
    }

    /// Moves player `i` to `position`.
    pub fn set_position(&mut self, i: usize, position: Vec3i)
        requires
            old(self).wf(),
            i < old(self)@.players.len(),
            position.in_world(),
        ensures
            final(self).wf(),
            final(self)@ == (WorldView {
                players: old(self)@.players.update(
                    i as int,
                    Fighter { position, ..old(self)@.players[i as int] },
                ),
                ..old(self)@
            }),
    {
        let mut f = self.players[i];
        f.position = position;
        self.players.set(i, f);
        assert(self@.inventories =~= old(self)@.inventories);
    }

    /// Sets the health of player `i`.
    pub fn set_health(&mut self, i: usize, health: u64)
        requires
            old(self).wf(),
            i < old(self)@.players.len(),
        ensures
            final(self).wf(),
            final(self)@ == (WorldView {
                players: old(self)@.players.update(
                    i as int,
                    Fighter { health, ..old(self)@.players[i as int] },
                ),
                ..old(self)@
            }),
    {
        let mut f = self.players[i];
        f.health = health;
        self.players.set(i, f);
        assert(self@.inventories =~= old(self)@.inventories);
    }

    /// Sets the match and team of player `i`.
    pub fn set_game(&mut self, i: usize, game: PlayerGameState)
        requires
            old(self).wf(),
            i < old(self)@.players.len(),
        ensures
            final(self).wf(),
            final(self)@ == (WorldView {
                players: old(self)@.players.update(i as int, Fighter { game, ..old(self)@.players[i as int] }),
                ..old(self)@
            }),
    {
        let mut f = self.players[i];
        f.game = game;
        self.players.set(i, f);
        assert(self@.inventories =~= old(self)@.inventories);
    }
}

} // verus!
