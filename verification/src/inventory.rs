//! Player inventories. The inventory itself is valence's; this module states
//! what the rules rely on when they read and fill its slots.

use vstd::prelude::*;
use valence::inventory::Inventory;
use valence::{ItemKind, ItemStack};

verus! {

/// The items that the game modes hand out.
#[derive(Clone, Copy, PartialEq, Eq, Structural, Debug)]
pub enum Item {
    IronSword,
    WoodenSword,
    IronIngot,
    GoldIngot,
    Diamond,
    Emerald,
}

/// Raw id of "no item".
pub const AIR: u16 = 0;

/// Smallest and largest number of items that one stack holds.
pub const STACK_MIN: u8 = 1;

pub const STACK_MAX: u8 = 127;

impl Item {
    /// The raw id under which the game knows the item.
    pub open spec fn raw_id(self) -> u16 {
        match self {
            Item::IronSword => 792,
            Item::WoodenSword => 777,
            Item::IronIngot => 770,
            Item::GoldIngot => 774,
            Item::Diamond => 764,
            Item::Emerald => 765,
        }
    }

    pub fn id(self) -> (id: u16)
        ensures
            id == self.raw_id(),
    {
        match self {
            Item::IronSword => 792,
            Item::WoodenSword => 777,
            Item::IronIngot => 770,
            Item::GoldIngot => 774,
            Item::Diamond => 764,
            Item::Emerald => 765,
        }
    }
}

/// What a filled slot holds: the raw id of the item and how many of it.
#[derive(Clone, Copy, PartialEq, Eq, Structural, Debug)]
pub struct Stack {
    pub kind: u16,
    pub count: u8,
}

/// A number of items brought into the range that one stack holds.
pub open spec fn stack_size(count: u8) -> u8 {
    if count < STACK_MIN {
        STACK_MIN
    } else if count > STACK_MAX {
        STACK_MAX
    } else {
        count
    }
}

/// What a slot holds after `content` was put there: nothing for `None`, else
/// a stack of the item whose size is `count` brought into range.
pub open spec fn stocked(content: Option<(Item, u8)>) -> Option<Stack> {
    match content {
        Some((item, count)) => Some(Stack { kind: item.raw_id(), count: stack_size(count) }),
        None => None,
    }
}

#[verifier::external_type_specification]
#[verifier::external_body]
pub struct ExInventory(Inventory);

/// The slots of an inventory in order, each empty (`None`) or holding a stack.
pub uninterp spec fn inventory_slots(inventory: Inventory) -> Seq<Option<Stack>>;

/// `Inventory::slot_count` of valence: the number of slots.
#[verifier::external_body]
pub(crate) fn slot_count(inventory: &Inventory) -> (count: u16)
    ensures
        count == inventory_slots(*inventory).len(),
{
    inventory.slot_count()
}

/// `Inventory::slot` of valence, with the stack it finds reduced to the raw id
/// of its item (`ItemKind::to_raw`) and its size (`ItemStack::count`). The
/// index has to name a slot: valence panics otherwise.
#[verifier::external_body]
pub(crate) fn slot(inventory: &Inventory, idx: u16) -> (content: Option<Stack>)
    requires
        idx < inventory_slots(*inventory).len(),
    ensures
        content == inventory_slots(*inventory)[idx as int],
{
    match inventory.slot(idx) {
        Some(stack) => Some(Stack { kind: stack.item.to_raw(), count: stack.count() }),
        None => None,
    }
}

/// `Inventory::set_slot` of valence, handed either nothing or a stack made by
/// `ItemStack::new` without extra data. The named slot then holds that, every
/// other slot what it held. `ItemStack::new` brings the size into the range
/// of one stack. The index has to name a slot: valence panics otherwise.
#[verifier::external_body]
pub(crate) fn set_slot(inventory: &mut Inventory, idx: u16, content: Option<(Item, u8)>)
    requires
        idx < inventory_slots(*old(inventory)).len(),
    ensures
        inventory_slots(*final(inventory)) == inventory_slots(*old(inventory)).update(
            idx as int,
            stocked(content),
        ),
{
    let stack = match content {
        Some((Item::IronSword, count)) => Some(ItemStack::new(ItemKind::IronSword, count, None)),
        Some((Item::WoodenSword, count)) => Some(ItemStack::new(ItemKind::WoodenSword, count, None)),
        Some((Item::IronIngot, count)) => Some(ItemStack::new(ItemKind::IronIngot, count, None)),
        Some((Item::GoldIngot, count)) => Some(ItemStack::new(ItemKind::GoldIngot, count, None)),
        Some((Item::Diamond, count)) => Some(ItemStack::new(ItemKind::Diamond, count, None)),
        Some((Item::Emerald, count)) => Some(ItemStack::new(ItemKind::Emerald, count, None)),
        None => None,
    };
    inventory.set_slot(idx, stack);
}

/// The slots of an inventory of `len` slots that holds nothing.
pub open spec fn empty_slots(len: nat) -> Seq<Option<Stack>> {
    Seq::new(len, |i: int| None::<Stack>)
}

/// Empties every slot of the inventory.
pub fn clear(inventory: &mut Inventory)
    ensures
        inventory_slots(*final(inventory)) == empty_slots(inventory_slots(*old(inventory)).len()),
{
    let count = slot_count(inventory);
    let mut idx: u16 = 0;
    while idx < count
        invariant
            0 <= idx <= count,
            count == inventory_slots(*old(inventory)).len(),
            inventory_slots(*inventory).len() == count,
            forall|i: int| 0 <= i < idx ==> (#[trigger] inventory_slots(*inventory)[i]) is None,
        decreases count - idx,
    {
        set_slot(inventory, idx, None);
        idx += 1;
    }
    assert(inventory_slots(*inventory) =~= empty_slots(inventory_slots(*old(inventory)).len()));
}

} // verus!
