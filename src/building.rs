//! Which players may break and place blocks, and what that does to their
//! inventories.

use vstd::prelude::*;
use crate::inventory::{Inventory, ItemKind, PLAYER_SLOTS, picked_up, taken_one};

verus! {

/// Registry number of the air block.
pub const AIR_BLOCK: u32 = 0;

/// A player's game mode.
#[derive(Clone, Copy, Debug, PartialEq, Eq, Structural)]
pub enum GameMode {
    Survival,
    Creative,
    Adventure,
    Spectator,
}

/// The phase of a dig.
#[derive(Clone, Copy, Debug, PartialEq, Eq, Structural)]
pub enum DiggingState {
    Start,
    Abort,
    Stop,
}

/// The hand a player uses.
#[derive(Clone, Copy, Debug, PartialEq, Eq, Structural)]
pub enum Hand {
    Main,
    Off,
}

/// Game modes in which a player may change the world.
pub open spec fn may_build(mode: GameMode) -> bool {
    mode != GameMode::Adventure && mode != GameMode::Spectator
}

fn may_build_exec(mode: GameMode) -> (r: bool)
    ensures
        r == may_build(mode),
{
    match mode {
        GameMode::Adventure => false,
        GameMode::Spectator => false,
        _ => true,
    }
}

/// Lets players break the blocks of a whitelist and pick them up.
pub struct DiggingPlugin {
    /// Registry numbers of the blocks that may be broken.
    pub whitelist: Vec<u32>,
}

/// Whether a finished dig of `block` breaks it.
pub open spec fn dig_breaks(
    whitelist: Seq<u32>,
    mode: GameMode,
    state: DiggingState,
    block: Option<u32>,
) -> bool {
    &&& may_build(mode)
    &&& state == DiggingState::Stop
    &&& block.is_some()
    &&& whitelist.contains(block.unwrap())
}

impl DiggingPlugin {
    pub fn new(whitelist: Vec<u32>) -> (r: DiggingPlugin)
        ensures
            r.whitelist@ == whitelist@,
    {
        DiggingPlugin { whitelist }
    }

    /// Handles a dig by a player in `mode` of `block` (`None` where no
    /// loaded chunk holds it), whose item form is `item`. A finished dig of a
    /// whitelisted block outside adventure and spectator mode breaks it:
    /// the player picks up its item and the result is true, where the block
    /// is to become air. Else nothing changes.
    pub fn handle_digging_event(
        &self,
        mode: GameMode,
        state: DiggingState,
        block: Option<u32>,
        item: ItemKind,
        inv: &mut Inventory,
    ) -> (r: bool)
        requires
            old(inv).wf(),
        ensures
            final(inv).wf(),
            r == dig_breaks(self.whitelist@, mode, state, block),
            r ==> final(inv).slots@ == picked_up(old(inv).slots@, item),
            !r ==> final(inv).slots@ == old(inv).slots@,
    {
        if !may_build_exec(mode) || state != DiggingState::Stop {
            return false;
        }
        let kind = match block {
            Some(k) => k,
            None => {
                return false;
            },
        };
        let mut listed = false;
        let mut i: usize = 0;
        while i < self.whitelist.len()
            invariant
                i <= self.whitelist@.len(),
                listed == self.whitelist@.take(i as int).contains(kind),
            decreases self.whitelist@.len() - i,
        {
            proof {
                let t1 = self.whitelist@.take(i + 1);
                let t0 = self.whitelist@.take(i as int);
                if t1.contains(kind) && self.whitelist@[i as int] != kind {
                    let j = choose|j: int| 0 <= j < t1.len() && #[trigger] t1[j] == kind;
                    assert(t0[j] == kind);
                }
                if t0.contains(kind) {
                    let j = choose|j: int| 0 <= j < t0.len() && #[trigger] t0[j] == kind;
                    assert(t1[j] == kind);
                }
                if self.whitelist@[i as int] == kind {
                    assert(t1[i as int] == kind);
                }
            }
            if self.whitelist[i] == kind {
                listed = true;
            }
            i = i + 1;
        }
        assert(self.whitelist@.take(self.whitelist@.len() as int) =~= self.whitelist@);
        if listed {
            inv.pick_up(item);
        }
        listed
    }
}

/// Lets players place the blocks they hold.
pub struct PlacingPlugin;

/// The block that a placement puts down, if it puts one down.
pub open spec fn placed_block(
    slots: Seq<crate::inventory::ItemStack>,
    mode: GameMode,
    hand: Hand,
    held: int,
    block_of_item: Option<u32>,
    target: Option<u32>,
) -> Option<u32> {
    if may_build(mode) && hand == Hand::Main && slots[held].count > 0 && block_of_item.is_some()
        && target == Some(AIR_BLOCK) {
        block_of_item
    } else {
        None
    }
}

impl PlacingPlugin {
    /// Handles a placement by a player in `mode` with `hand`, holding slot
    /// `held`, whose item has the block form `block_of_item` (`None` where it
    /// has none), against a spot that holds `target` (`None` where no loaded
    /// chunk holds it). Outside adventure and spectator mode, with the main
    /// hand, a held item with a block form goes down on air: the result is
    /// that block, and one item leaves the held slot. Else nothing changes.
    pub fn handle_placing_event(
        &self,
        mode: GameMode,
        hand: Hand,
        held: usize,
        block_of_item: Option<u32>,
        target: Option<u32>,
        inv: &mut Inventory,
    ) -> (r: Option<u32>)
        requires
            old(inv).wf(),
            held < PLAYER_SLOTS,
        ensures
            final(inv).wf(),
            r == placed_block(old(inv).slots@, mode, hand, held as int, block_of_item, target),
            r.is_some() ==> final(inv).slots@ == taken_one(old(inv).slots@, held as int),
            r.is_none() ==> final(inv).slots@ == old(inv).slots@,
    {
        if !may_build_exec(mode) || hand != Hand::Main {
            return None;
        }
        if inv.slot(held).count == 0 {
            return None;
        }
        let block = match block_of_item {
            Some(b) => b,
            None => {
                return None;
            },
        };
        match target {
            Some(t) => {
                if t == AIR_BLOCK {
                    inv.take_one(held);
                    Some(block)
                } else {
                    None
                }
            },
            None => None,
        }
    }
}

} // verus!
