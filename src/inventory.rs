//! Items, stacks of items and the player's inventory of numbered slots.
use vstd::prelude::*;
use std::collections::HashMap;

verus! {

broadcast use vstd::std_specs::hash::group_hash_axioms;

/// Number of slots that [`Inventory::add_item`] fills.
pub const INVENTORY_SLOTS: u32 = 10;

/// Durability of a tool when it is first made.
pub const TOOL_DURABILITY: i16 = 100;

/// Type of body piece.
#[derive(Clone, Copy, Debug, PartialEq, Eq, Structural)]
pub enum BodyPartType {
    Head,
    Torso,
    Leg,
    Arm,
}

/// Type of item.
#[derive(Clone, Copy, Debug, PartialEq, Eq, Structural)]
pub enum ItemType {
    Generic,
    BodyPart(BodyPartType),
    Tool { durability: i16 },
}

/// What an item is.
#[derive(Clone, Copy, Debug, PartialEq, Eq, Structural, Hash)]
pub enum ItemId {
    Fist,
    Sword,
    Cloner,
    Head,
    Torso,
    Leg,
    Arm,
    Apple,
}

/// The type an item of kind `id` has by default.
pub open spec fn default_type(id: ItemId) -> ItemType {
    match id {
        ItemId::Fist | ItemId::Sword | ItemId::Cloner => ItemType::Tool {
            durability: TOOL_DURABILITY,
        },
        ItemId::Head => ItemType::BodyPart(BodyPartType::Head),
        ItemId::Torso => ItemType::BodyPart(BodyPartType::Torso),
        ItemId::Leg => ItemType::BodyPart(BodyPartType::Leg),
        ItemId::Arm => ItemType::BodyPart(BodyPartType::Arm),
        ItemId::Apple => ItemType::Generic,
    }
}

impl ItemId {
    /// The type an item of this kind has unless something says otherwise.
    pub fn get_default_type(&self) -> (r: ItemType)
        ensures
            r == default_type(*self),
    {
        match *self {
            ItemId::Fist | ItemId::Sword | ItemId::Cloner => ItemType::Tool {
                durability: TOOL_DURABILITY,
            },
            ItemId::Head => ItemType::BodyPart(BodyPartType::Head),
            ItemId::Torso => ItemType::BodyPart(BodyPartType::Torso),
            ItemId::Leg => ItemType::BodyPart(BodyPartType::Leg),
            ItemId::Arm => ItemType::BodyPart(BodyPartType::Arm),
            ItemId::Apple => ItemType::Generic,
        }
    }
}

/// A number of items of one kind.
#[derive(Clone, Copy, Debug, PartialEq, Eq, Structural)]
pub struct ItemStack {
    pub item_id: ItemId,
    pub item_type: ItemType,
    pub num: u32,
}

impl ItemStack {
    /// A stack of two legs.
    pub fn test() -> (r: ItemStack)
        ensures
            r == (ItemStack {
                item_id: ItemId::Leg,
                item_type: ItemType::BodyPart(BodyPartType::Leg),
                num: 2,
            }),
    {
        ItemStack { item_id: ItemId::Leg, item_type: ItemId::Leg.get_default_type(), num: 2 }
    }
}

/// The first slot from `from` on, below `INVENTORY_SLOTS`, that is empty
/// or holds items of kind `id`.
pub open spec fn first_fit(m: Map<u32, ItemStack>, id: ItemId, from: u32) -> Option<u32>
    decreases INVENTORY_SLOTS - from,
{
    if from >= INVENTORY_SLOTS {
        None
    } else if !m.contains_key(from) || m[from].item_id == id {
        Some(from)
    } else {
        first_fit(m, id, (from + 1) as u32)
    }
}

/// The count after putting `n` more items on slot `slot`, at most `u32::MAX`.
pub open spec fn merged_count(m: Map<u32, ItemStack>, slot: u32, n: u32) -> u32 {
    if m.contains_key(slot) {
        if n + m[slot].num > u32::MAX {
            u32::MAX
        } else {
            (n + m[slot].num) as u32
        }
    } else {
        n
    }
}

/// The slots after adding `stack`.
pub open spec fn with_item(m: Map<u32, ItemStack>, stack: ItemStack) -> Map<u32, ItemStack> {
    match first_fit(m, stack.item_id, 0) {
        Some(k) => m.insert(k, ItemStack { num: merged_count(m, k, stack.num), ..stack }),
        None => m,
    }
}

/// Numbered slots, each holding a stack.
pub struct Inventory {
    pub map: HashMap<u32, ItemStack>,
}

impl Inventory {
    /// An inventory with every slot empty.
    pub fn new() -> (r: Inventory)
        ensures
            r.map@ == Map::<u32, ItemStack>::empty(),
    {
        Inventory { map: HashMap::new() }
    }

    /// Puts `stack` on the first slot that is empty or already holds its
    /// kind, adding the counts in the second case; does nothing when all
    /// `INVENTORY_SLOTS` slots hold other kinds.
    pub fn add_item(&mut self, stack: ItemStack)
        ensures
            final(self).map@ == with_item(old(self).map@, stack),
    {
        let mut i: u32 = 0;
        while i < INVENTORY_SLOTS
            invariant
                self.map@ == old(self).map@,
                i <= INVENTORY_SLOTS,
                first_fit(self.map@, stack.item_id, 0) == first_fit(self.map@, stack.item_id, i),
            decreases INVENTORY_SLOTS - i,
        {
            let mut num = stack.num;
            match self.map.get(&i) {
                Some(slot_stack) => {
                    if slot_stack.item_id != stack.item_id {
                        i = i + 1;
                        continue;
                    }
                    num = num.saturating_add(slot_stack.num);
                },
                None => {},
            }
            let ins = ItemStack { item_id: stack.item_id, item_type: stack.item_type, num };
            self.map.insert(i, ins);
            assert(ins == ItemStack { num: merged_count(old(self).map@, i, stack.num), ..stack });
            return ;
        }
    }

    /// The stack on slot `slot`, if any.
    pub fn slot(&self, slot: u32) -> (r: Option<ItemStack>)
        ensures
            r == (if self.map@.contains_key(slot) {
                Some(self.map@[slot])
            } else {
                None
            }),
    {
        match self.map.get(&slot) {
            Some(s) => Some(*s),
            None => None,
        }
    }

    /// The kind of item on slot `slot`; a bare fist where the slot is empty.
    pub fn selected_tool(&self, slot: u32) -> (r: ItemId)
        ensures
            r == (if self.map@.contains_key(slot) {
                self.map@[slot].item_id
            } else {
                ItemId::Fist
            }),
    {
        match self.map.get(&slot) {
            Some(s) => s.item_id,
            None => ItemId::Fist,
        }
    }
}

} // verus!
