//! A player's inventory: the loadout, ammunition, and stacking rules.

use vstd::prelude::*;

verus! {

/// Slots of a player's inventory.
pub const PLAYER_SLOTS: usize = 46;

/// Slot that holds the launcher.
pub const LAUNCHER_SLOT: usize = 36;

/// Slot that holds the ammunition.
pub const AMMO_SLOT: usize = 44;

/// Ammunition handed out with the loadout.
pub const LOADOUT_AMMO: u8 = 10;

/// Largest count of one stack.
pub const MAX_STACK: u8 = 64;

/// First slot that picked-up blocks may go to when no stack takes them.
pub const STORAGE_START: usize = 9;

/// One past the last slot that picked-up blocks may go to.
pub const STORAGE_END: usize = 45;

/// An item kind: the launcher, its ammunition, nothing, or any other item by
/// its registry number.
#[derive(Clone, Copy, Debug, PartialEq, Eq, Structural)]
pub enum ItemKind {
    Air,
    Bow,
    Arrow,
    Other(u32),
}

/// Some count of one item kind.
#[derive(Clone, Copy, Debug, PartialEq, Eq, Structural)]
pub struct ItemStack {
    pub item: ItemKind,
    pub count: u8,
}

impl ItemStack {
    /// A stack is empty exactly when it holds air, and holds at most a full
    /// stack.
    pub open spec fn wf(self) -> bool {
        (self.item == ItemKind::Air) == (self.count == 0) && self.count <= MAX_STACK
    }

    pub open spec fn is_empty_spec(self) -> bool {
        self.item == ItemKind::Air
    }

    pub open spec fn empty_spec() -> ItemStack {
        ItemStack { item: ItemKind::Air, count: 0 }
    }

    pub fn empty() -> (r: ItemStack)
        ensures
            r == ItemStack::empty_spec(),
    {
        ItemStack { item: ItemKind::Air, count: 0 }
    }

    /// A stack of `count` of `item`; an empty one where either is nothing.
    pub fn new(item: ItemKind, count: u8) -> (r: ItemStack)
        requires
            count <= MAX_STACK,
        ensures
            r.wf(),
            r == (if item == ItemKind::Air || count == 0 {
                ItemStack::empty_spec()
            } else {
                ItemStack { item, count }
            }),
    {
        if count == 0 || item == ItemKind::Air {
            ItemStack::empty()
        } else {
            ItemStack { item, count }
        }
    }
}

/// The slots of a player's inventory.
#[derive(Debug)]
pub struct Inventory {
    pub slots: Vec<ItemStack>,
}

/// The slots of an inventory with nothing in it.
pub open spec fn empty_slots() -> Seq<ItemStack> {
    Seq::new(PLAYER_SLOTS as nat, |i: int| ItemStack::empty_spec())
}

/// Every slot of `s` is empty.
pub open spec fn all_empty(s: Seq<ItemStack>) -> bool {
    forall|i: int| 0 <= i < s.len() ==> #[trigger] s[i] == ItemStack::empty_spec()
}

/// The first slot of `s` that holds `item` and has room for `max` or fewer.
pub open spec fn first_with_item_spec(s: Seq<ItemStack>, item: ItemKind, max: u8) -> Option<usize> {
    if exists|i: int| 0 <= i < s.len() && s[i].item == item && s[i].count < max {
        Some(
            (choose|i: int|
                0 <= i < s.len() && s[i].item == item && s[i].count < max && forall|j: int|
                    0 <= j < i ==> !(s[j].item == item && s[j].count < max)) as usize,
        )
    } else {
        None
    }
}

/// The first empty slot of `s` from `start` up to, not including, `end`.
pub open spec fn first_empty_spec(s: Seq<ItemStack>, start: int, end: int) -> Option<usize> {
    if exists|i: int| start <= i < end && s[i].is_empty_spec() {
        Some(
            (choose|i: int|
                start <= i < end && s[i].is_empty_spec() && forall|j: int|
                    start <= j < i ==> !s[j].is_empty_spec()) as usize,
        )
    } else {
        None
    }
}

/// Slots `s` after one `item` is picked up: it joins the first stack of
/// its kind with room, else takes the first empty storage slot, else is
/// lost.
pub open spec fn picked_up(s: Seq<ItemStack>, item: ItemKind) -> Seq<ItemStack> {
    if item == ItemKind::Air {
        s
    } else {
        match first_with_item_spec(s, item, MAX_STACK) {
            Some(i) => s.update(i as int, ItemStack { item, count: (s[i as int].count + 1) as u8 }),
            None => match first_empty_spec(s, STORAGE_START as int, STORAGE_END as int) {
                Some(j) => s.update(j as int, ItemStack { item, count: 1 }),
                None => s,
            },
        }
    }
}

/// Slots `s` after one item of slot `i` is taken out.
pub open spec fn taken_one(s: Seq<ItemStack>, i: int) -> Seq<ItemStack> {
    s.update(
        i,
        if s[i].count <= 1 {
            ItemStack::empty_spec()
        } else {
            ItemStack { item: s[i].item, count: (s[i].count - 1) as u8 }
        },
    )
}

impl Inventory {
    pub open spec fn wf(&self) -> bool {
        &&& self.slots@.len() == PLAYER_SLOTS
        &&& forall|i: int| 0 <= i < self.slots@.len() ==> (#[trigger] self.slots@[i]).wf()
    }

    /// An inventory with every slot empty.
    pub fn new() -> (r: Inventory)
        ensures
            r.wf(),
            all_empty(r.slots@),
            r.slots@ == empty_slots(),
    {
        let mut slots: Vec<ItemStack> = Vec::new();
        let mut i: usize = 0;
        while i < PLAYER_SLOTS
            invariant
                i <= PLAYER_SLOTS,
                slots@.len() == i,
                all_empty(slots@),
            decreases PLAYER_SLOTS - i,
        {
            slots.push(ItemStack::empty());
            i = i + 1;
        }
        assert(slots@ =~= empty_slots());
        Inventory { slots }
    }

    pub fn slot_count(&self) -> (r: usize)
        ensures
            r == self.slots@.len(),
    {
        self.slots.len()
    }

    pub fn slot(&self, i: usize) -> (r: ItemStack)
        requires
            i < self.slots@.len(),
        ensures
            r == self.slots@[i as int],
    {
        self.slots[i]
    }

    /// Puts `stack` into slot `i`, replacing what was there.
    pub fn set_slot(&mut self, i: usize, stack: ItemStack)
        requires
            old(self).wf(),
            i < PLAYER_SLOTS,
            stack.wf(),
        ensures
            final(self).wf(),
            final(self).slots@ == old(self).slots@.update(i as int, stack),
    {
        self.slots.set(i, stack);
    }

    /// Sets the count of slot `i`; a count of zero empties the slot.
    pub fn set_slot_amount(&mut self, i: usize, count: u8)
        requires
            old(self).wf(),
            i < PLAYER_SLOTS,
            count <= MAX_STACK,
        ensures
            final(self).wf(),
            final(self).slots@ == old(self).slots@.update(
                i as int,
                if count == 0 || old(self).slots@[i as int].item == ItemKind::Air {
                    ItemStack::empty_spec()
                } else {
                    ItemStack { item: old(self).slots@[i as int].item, count }
                },
            ),
    {
        let item = self.slots[i].item;
        self.set_slot(i, ItemStack::new(item, count));
    }

    /// Empties every slot.
    pub fn clear(&mut self)
        requires
            old(self).wf(),
        ensures
            final(self).wf(),
            all_empty(final(self).slots@),
            final(self).slots@ == empty_slots(),
    {
        let mut i: usize = 0;
        while i < self.slots.len()
            invariant
                self.wf(),
                i <= self.slots@.len(),
                forall|j: int| 0 <= j < i ==> #[trigger] self.slots@[j] == ItemStack::empty_spec(),
            decreases self.slots@.len() - i,
        {
            self.set_slot(i, ItemStack::empty());
            i = i + 1;
        }
        assert(self.slots@ =~= empty_slots());
    }

    /// Puts the launcher and a stack of ammunition into their slots.
    pub fn equip_loadout(&mut self)
        requires
            old(self).wf(),
        ensures
            final(self).wf(),
            final(self).slots@ == Inventory::with_loadout(old(self).slots@),
    {
        self.set_slot(LAUNCHER_SLOT, ItemStack::new(ItemKind::Bow, 1));
        self.set_slot(AMMO_SLOT, ItemStack::new(ItemKind::Arrow, LOADOUT_AMMO));
    }

    /// Slots `s` after one shot: one unit of ammunition fewer.
    pub open spec fn after_shot(s: Seq<ItemStack>) -> Seq<ItemStack> {
        s.update(
            AMMO_SLOT as int,
            if s[AMMO_SLOT as int].count == 1 {
                ItemStack::empty_spec()
            } else {
                ItemStack { item: ItemKind::Arrow, count: (s[AMMO_SLOT as int].count - 1) as u8 }
            },
        )
    }

    /// Slots `s` with the loadout put in.
    pub open spec fn with_loadout(s: Seq<ItemStack>) -> Seq<ItemStack> {
        s.update(LAUNCHER_SLOT as int, ItemStack { item: ItemKind::Bow, count: 1 }).update(
            AMMO_SLOT as int,
            ItemStack { item: ItemKind::Arrow, count: LOADOUT_AMMO },
        )
    }

    /// The launcher and ammunition stand in their slots.
    pub open spec fn can_shoot(&self) -> bool {
        self.slots@[LAUNCHER_SLOT as int].item == ItemKind::Bow
            && self.slots@[AMMO_SLOT as int].item == ItemKind::Arrow
    }

    /// Fires one shot where the launcher and ammunition stand in their slots:
    /// takes one unit of ammunition and returns true. Else changes nothing
    /// and returns false.
    pub fn release_shot(&mut self) -> (r: bool)
        requires
            old(self).wf(),
        ensures
            final(self).wf(),
            r == old(self).can_shoot(),
            r ==> final(self).slots@ == Inventory::after_shot(old(self).slots@),
            !r ==> *final(self) == *old(self),
    {
        let launcher = self.slots[LAUNCHER_SLOT];
        let ammo = self.slots[AMMO_SLOT];
        if launcher.item == ItemKind::Bow && ammo.item == ItemKind::Arrow {
            self.set_slot_amount(AMMO_SLOT, ammo.count - 1);
            true
        } else {
            false
        }
    }

    /// The first slot that holds `item` with a count under `max`.
    pub fn first_slot_with_item(&self, item: ItemKind, max: u8) -> (r: Option<usize>)
        ensures
            r == first_with_item_spec(self.slots@, item, max),
    {
        let mut i: usize = 0;
        while i < self.slots.len()
            invariant
                i <= self.slots@.len(),
                forall|j: int|
                    0 <= j < i ==> !(#[trigger] self.slots@[j].item == item && self.slots@[j].count
                        < max),
            decreases self.slots@.len() - i,
        {
            let s = self.slots[i];
            if s.item == item && s.count < max {
                proof {
                    let s = self.slots@;
                    let c = choose|k: int|
                        0 <= k < s.len() && s[k].item == item && s[k].count < max && forall|j: int|
                            0 <= j < k ==> !(s[j].item == item && s[j].count < max);
                    if c < i {
                        assert(!(s[c].item == item && s[c].count < max));
                    } else if c > i {
                        assert(!(s[i as int].item == item && s[i as int].count < max));
                    }
                }
                return Some(i);
            }
            i = i + 1;
        }
        None
    }

    /// The first empty slot from `start` up to, not including, `end`.
    pub fn first_empty_slot_in(&self, start: usize, end: usize) -> (r: Option<usize>)
        requires
            end <= self.slots@.len(),
        ensures
            r == first_empty_spec(self.slots@, start as int, end as int),
    {
        let mut i: usize = start;
        while i < end
            invariant
                start <= i,
                end <= self.slots@.len(),
                forall|j: int| start <= j < i ==> !(#[trigger] self.slots@[j]).is_empty_spec(),
            decreases end - i,
        {
            if self.slots[i].item == ItemKind::Air {
                proof {
                    let s = self.slots@;
                    let c = choose|k: int|
                        start <= k < end && s[k].is_empty_spec() && forall|j: int|
                            start <= j < k ==> !s[j].is_empty_spec();
                    if c < i {
                        assert(!s[c].is_empty_spec());
                    } else if c > i {
                        assert(!s[i as int].is_empty_spec());
                    }
                }
                return Some(i);
            }
            i = i + 1;
        }
        None
    }

    /// Picks up one `item`: it joins the first stack of its kind with room,
    /// else takes the first empty storage slot, else is lost.
    pub fn pick_up(&mut self, item: ItemKind)
        requires
            old(self).wf(),
        ensures
            final(self).wf(),
            final(self).slots@ == picked_up(old(self).slots@, item),
    {
        if item == ItemKind::Air {
            return;
        }
        match self.first_slot_with_item(item, MAX_STACK) {
            Some(i) => {
                let count = self.slots[i].count + 1;
                self.set_slot_amount(i, count);
            },
            None => match self.first_empty_slot_in(STORAGE_START, STORAGE_END) {
                Some(j) => {
                    self.set_slot(j, ItemStack::new(item, 1));
                },
                None => {},
            },
        }
    }

    /// Takes one item out of slot `i`; the slot empties with its last item.
    pub fn take_one(&mut self, i: usize)
        requires
            old(self).wf(),
            i < PLAYER_SLOTS,
        ensures
            final(self).wf(),
            final(self).slots@ == taken_one(old(self).slots@, i as int),
    {
        let count = self.slots[i].count;
        if count <= 1 {
            self.set_slot(i, ItemStack::empty());
        } else {
            self.set_slot_amount(i, count - 1);
        }
    }
}

} // verus!
