//! Box mix: players click boxes scattered over the arena to earn coins and
//! resources, and spend the coins in a shop.

use vstd::prelude::*;
use valence::inventory::Inventory;
use crate::inventory::{
    clear, empty_slots, inventory_slots, set_slot, slot, slot_count, stocked, Item, Stack, AIR,
};
use crate::model::PlayerGameState;

verus! {

/// Coins earned by opening a box.
pub const BOX_REWARD: u32 = 10;

/// Coins that the sword in the shop costs.
pub const SWORD_PRICE: u32 = 50;

/// The hotbar: slots `HOTBAR_START` up to, not including, `HOTBAR_END`.
pub const HOTBAR_START: u16 = 36;

pub const HOTBAR_END: u16 = 45;

/// The slot that holds a player's weapon: the first slot of the hotbar.
pub const WEAPON_SLOT: u16 = 36;

/// A stack of resources is topped up only while it is smaller than this.
pub const STACK_LIMIT: u8 = 64;

/// Position of a block in the world.
#[derive(Clone, Copy, PartialEq, Eq, Structural, Debug)]
pub struct BlockPos {
    pub x: i32,
    pub y: i32,
    pub z: i32,
}

/// The per-player counters of the mode.
#[derive(Clone, Copy, PartialEq, Eq, Structural, Debug)]
pub struct BoxMixState {
    pub coins: u32,
    pub boxes_opened: u32,
}

impl BoxMixState {
    /// The counters of a player that starts a match.
    pub open spec fn fresh() -> BoxMixState {
        BoxMixState { coins: 0, boxes_opened: 0 }
    }

    pub fn new() -> (state: BoxMixState)
        ensures
            state == BoxMixState::fresh(),
    {
        BoxMixState { coins: 0, boxes_opened: 0 }
    }
}

impl Default for BoxMixState {
    fn default() -> (state: BoxMixState)
        ensures
            state == BoxMixState::fresh(),
    {
        BoxMixState::new()
    }
}

/// Where the boxes and the shops of the arena stand.
pub struct BoxLocations {
    pub boxes: Vec<BlockPos>,
    pub shop_locations: Vec<BlockPos>,
}

/// The boxes of the standard arena: the four corners of a square.
pub open spec fn standard_boxes() -> Seq<BlockPos> {
    seq![
        BlockPos { x: 5, y: 10, z: 5 },
        BlockPos { x: -5i32, y: 10, z: 5 },
        BlockPos { x: 5, y: 10, z: -5i32 },
        BlockPos { x: -5i32, y: 10, z: -5i32 },
    ]
}

/// The shop of the standard arena: the centre of that square.
pub open spec fn standard_shops() -> Seq<BlockPos> {
    seq![BlockPos { x: 0, y: 10, z: 0 }]
}

impl Default for BoxLocations {
    fn default() -> (locations: BoxLocations)
        ensures
            locations.boxes@ == standard_boxes(),
            locations.shop_locations@ == standard_shops(),
    {
        let mut boxes: Vec<BlockPos> = Vec::new();
        boxes.push(BlockPos { x: 5, y: 10, z: 5 });
        boxes.push(BlockPos { x: -5, y: 10, z: 5 });
        boxes.push(BlockPos { x: 5, y: 10, z: -5 });
        boxes.push(BlockPos { x: -5, y: 10, z: -5 });
        let mut shop_locations: Vec<BlockPos> = Vec::new();
        shop_locations.push(BlockPos { x: 0, y: 10, z: 0 });
        assert(boxes@ =~= standard_boxes());
        assert(shop_locations@ =~= standard_shops());
        BoxLocations { boxes, shop_locations }
    }
}

/// What a click on a block means to the mode.
#[derive(Clone, Copy, PartialEq, Eq, Structural, Debug)]
pub enum Click {
    /// The player is in no match, or the block is neither box nor shop.
    Nothing,
    /// The block is a box.
    OpenBox,
    /// The block is a shop and no box.
    Shop,
}

/// The meaning of a click by a player with the given membership.
pub open spec fn click_on(
    game: PlayerGameState,
    position: BlockPos,
    boxes: Seq<BlockPos>,
    shop_locations: Seq<BlockPos>,
) -> Click {
    if game.match_id is None {
        Click::Nothing
    } else if boxes.contains(position) {
        Click::OpenBox
    } else if shop_locations.contains(position) {
        Click::Shop
    } else {
        Click::Nothing
    }
}

fn lists(places: &Vec<BlockPos>, position: BlockPos) -> (listed: bool)
    ensures
        listed == places@.contains(position),
{
    let mut i: usize = 0;
    while i < places.len()
        invariant
            0 <= i <= places@.len(),
            forall|j: int| 0 <= j < i ==> places@[j] != position,
        decreases places@.len() - i,
    {
        let place = places[i];
        if place.x == position.x && place.y == position.y && place.z == position.z {
            return true;
        }
        i += 1;
    }
    false
}

/// Works out what a click on a block means.
pub fn classify_click(
    game: &PlayerGameState,
    position: BlockPos,
    locations: &BoxLocations,
) -> (click: Click)
    ensures
        click == click_on(*game, position, locations.boxes@, locations.shop_locations@),
{
    if game.match_id.is_none() {
        Click::Nothing
    } else if lists(&locations.boxes, position) {
        Click::OpenBox
    } else if lists(&locations.shop_locations, position) {
        Click::Shop
    } else {
        Click::Nothing
    }
}

/// The resource that the box with the given running number yields. The four
/// resources take turns.
pub open spec fn reward_for(boxes_opened: u32) -> Item {
    if boxes_opened % 4 == 0 {
        Item::IronIngot
    } else if boxes_opened % 4 == 1 {
        Item::GoldIngot
    } else if boxes_opened % 4 == 2 {
        Item::Diamond
    } else {
        Item::Emerald
    }
}

/// The resource that the box with the given running number yields.
pub fn reward(boxes_opened: u32) -> (item: Item)
    ensures
        item == reward_for(boxes_opened),
{
    let turn = boxes_opened % 4;
    if turn == 0 {
        Item::IronIngot
    } else if turn == 1 {
        Item::GoldIngot
    } else if turn == 2 {
        Item::Diamond
    } else {
        Item::Emerald
    }
}

/// A slot has room for one more `item`: it is empty, or it holds a stack of
/// that item below the limit.
pub open spec fn takes(content: Option<Stack>, item: Item) -> bool {
    match content {
        None => true,
        Some(stack) => stack.kind == AIR || (stack.kind == item.raw_id() && stack.count
            < STACK_LIMIT),
    }
}

/// What goes into a slot with room when one `item` is added to it.
pub open spec fn topped_up(content: Option<Stack>, item: Item) -> Option<(Item, u8)> {
    match content {
        None => Some((item, 1u8)),
        Some(stack) => if stack.kind == AIR {
            Some((item, 1u8))
        } else {
            Some((item, (stack.count + 1) as u8))
        },
    }
}

/// The first slot from `from` up to, not including, `to` that has room for
/// one more `item`.
pub open spec fn first_fit(slots: Seq<Option<Stack>>, item: Item, from: int, to: int) -> Option<
    int,
>
    decreases to - from,
{
    if from >= to {
        None
    } else if takes(slots[from], item) {
        Some(from)
    } else {
        first_fit(slots, item, from + 1, to)
    }
}

/// The slots after one `item` went into the first hotbar slot with room for
/// it. With no room in the hotbar the item is lost.
pub open spec fn stored(slots: Seq<Option<Stack>>, item: Item) -> Seq<Option<Stack>> {
    match first_fit(slots, item, HOTBAR_START as int, HOTBAR_END as int) {
        Some(place) => slots.update(place, stocked(topped_up(slots[place], item))),
        None => slots,
    }
}

/// `first_fit` finds the least slot of the range that has room: the slot it
/// names lies in the range and has room, no slot of the range before it has,
/// and it names none only if no slot of the range has room.
pub proof fn lemma_first_fit_is_least(
    slots: Seq<Option<Stack>>,
    item: Item,
    from: int,
    to: int,
)
    ensures
        match first_fit(slots, item, from, to) {
            Some(place) => {
                &&& from <= place < to
                &&& takes(slots[place], item)
                &&& forall|i: int| from <= i < place ==> !takes(#[trigger] slots[i], item)
            },
            None => forall|i: int| from <= i < to ==> !takes(#[trigger] slots[i], item),
        },
    decreases to - from,
{
    if from < to && !takes(slots[from], item) {
        lemma_first_fit_is_least(slots, item, from + 1, to);
    }
}

/// In an inventory that has a hotbar, a reward changes at most one slot, and
/// that one lies in the hotbar. The number of slots stays.
pub proof fn lemma_reward_stays_in_hotbar(slots: Seq<Option<Stack>>, item: Item)
    requires
        slots.len() >= HOTBAR_END,
    ensures
        stored(slots, item).len() == slots.len(),
        forall|i: int|
            0 <= i < slots.len() && !(HOTBAR_START <= i < HOTBAR_END) ==> #[trigger] stored(
                slots,
                item,
            )[i] == slots[i],
{
    lemma_first_fit_is_least(slots, item, HOTBAR_START as int, HOTBAR_END as int);
}

fn store(inventory: &mut Inventory, item: Item)
    requires
        inventory_slots(*old(inventory)).len() >= HOTBAR_END,
    ensures
        inventory_slots(*final(inventory)) == stored(inventory_slots(*old(inventory)), item),
{
    let id = item.id();
    let mut idx: u16 = HOTBAR_START;
    while idx < HOTBAR_END
        invariant
            HOTBAR_START <= idx <= HOTBAR_END,
            id == item.raw_id(),
            inventory_slots(*inventory) == inventory_slots(*old(inventory)),
            inventory_slots(*inventory).len() >= HOTBAR_END,
            first_fit(
                inventory_slots(*old(inventory)),
                item,
                HOTBAR_START as int,
                HOTBAR_END as int,
            ) == first_fit(inventory_slots(*old(inventory)), item, idx as int, HOTBAR_END as int),
        decreases HOTBAR_END - idx,
    {
        match slot(inventory, idx) {
            None => {
                set_slot(inventory, idx, Some((item, 1)));
                return ;
            },
            Some(stack) => {
                if stack.kind == AIR {
                    set_slot(inventory, idx, Some((item, 1)));
                    return ;
                } else if stack.kind == id && stack.count < STACK_LIMIT {
                    set_slot(inventory, idx, Some((item, stack.count + 1)));
                    return ;
                }
            },
        }
        idx += 1;
    }
}

/// What came of a click.
#[derive(Clone, Copy, PartialEq, Eq, Structural, Debug)]
pub enum BlockOutcome {
    /// The click meant nothing.
    Ignored,
    /// A box was opened. `total` is the player's coins after the reward.
    BoxOpened { total: u32 },
    /// The sword was bought. `remaining` is what the player has left.
    Purchased { remaining: u32 },
    /// The player cannot pay for the sword with the `have` coins it has.
    NotEnoughCoins { have: u32 },
}

/// Why a click could not be carried out.
#[derive(Clone, Copy, PartialEq, Eq, Structural, Debug)]
pub enum Refusal {
    /// The inventory lacks a slot that the click would fill.
    InventoryTooSmall,
    /// A counter of the player cannot count any further.
    CounterFull,
}

/// The counters after a click.
pub open spec fn state_after(click: Click, state: BoxMixState) -> BoxMixState {
    match click {
        Click::Nothing => state,
        Click::OpenBox => BoxMixState {
            coins: (state.coins + BOX_REWARD) as u32,
            boxes_opened: (state.boxes_opened + 1) as u32,
        },
        Click::Shop => if state.coins >= SWORD_PRICE {
            BoxMixState {
                coins: (state.coins - SWORD_PRICE) as u32,
                boxes_opened: state.boxes_opened,
            }
        } else {
            state
        },
    }
}

/// The slots after a click: a box yields its resource, a sale puts an iron
/// sword into the weapon slot.
pub open spec fn slots_after(
    click: Click,
    state: BoxMixState,
    slots: Seq<Option<Stack>>,
) -> Seq<Option<Stack>> {
    match click {
        Click::Nothing => slots,
        Click::OpenBox => stored(slots, reward_for((state.boxes_opened + 1) as u32)),
        Click::Shop => if state.coins >= SWORD_PRICE {
            slots.update(WEAPON_SLOT as int, stocked(Some((Item::IronSword, 1u8))))
        } else {
            slots
        },
    }
}

/// What the player is told after a click.
pub open spec fn outcome_of(click: Click, state: BoxMixState) -> BlockOutcome {
    match click {
        Click::Nothing => BlockOutcome::Ignored,
        Click::OpenBox => BlockOutcome::BoxOpened { total: (state.coins + BOX_REWARD) as u32 },
        Click::Shop => if state.coins >= SWORD_PRICE {
            BlockOutcome::Purchased { remaining: (state.coins - SWORD_PRICE) as u32 }
        } else {
            BlockOutcome::NotEnoughCoins { have: state.coins }
        },
    }
}

/// Why a click cannot be carried out, if it cannot.
pub open spec fn refusal_of(click: Click, state: BoxMixState, slots: nat) -> Option<Refusal> {
    match click {
        Click::Nothing => None,
        Click::OpenBox => if state.coins + BOX_REWARD > u32::MAX || state.boxes_opened + 1
            > u32::MAX {
            Some(Refusal::CounterFull)
        } else if slots < HOTBAR_END {
            Some(Refusal::InventoryTooSmall)
        } else {
            None
        },
        Click::Shop => if state.coins >= SWORD_PRICE && slots <= WEAPON_SLOT {
            Some(Refusal::InventoryTooSmall)
        } else {
            None
        },
    }
}

/// Carries out a click whose meaning is known. A click that cannot be carried
/// out changes nothing and is answered by the reason.
pub fn apply_click(click: Click, state: &mut BoxMixState, inventory: &mut Inventory) -> (result:
    Result<BlockOutcome, Refusal>)
    ensures
        match refusal_of(click, *old(state), inventory_slots(*old(inventory)).len()) {
            Some(refusal) => {
                &&& result == Err::<BlockOutcome, Refusal>(refusal)
                &&& *final(state) == *old(state)
                &&& inventory_slots(*final(inventory)) == inventory_slots(*old(inventory))
            },
            None => {
                &&& result == Ok::<BlockOutcome, Refusal>(outcome_of(click, *old(state)))
                &&& *final(state) == state_after(click, *old(state))
                &&& inventory_slots(*final(inventory)) == slots_after(
                    click,
                    *old(state),
                    inventory_slots(*old(inventory)),
                )
            },
        },
{
    match click {
        Click::Nothing => Ok(BlockOutcome::Ignored),
        Click::OpenBox => {
            if state.coins > u32::MAX - BOX_REWARD || state.boxes_opened == u32::MAX {
                return Err(Refusal::CounterFull);
            }
            if slot_count(inventory) < HOTBAR_END {
                return Err(Refusal::InventoryTooSmall);
            }
            state.boxes_opened += 1;
            state.coins += BOX_REWARD;
            store(inventory, reward(state.boxes_opened));
            Ok(BlockOutcome::BoxOpened { total: state.coins })
        },
        Click::Shop => {
            if state.coins >= SWORD_PRICE {
                if slot_count(inventory) <= WEAPON_SLOT {
                    return Err(Refusal::InventoryTooSmall);
                }
                state.coins -= SWORD_PRICE;
                set_slot(inventory, WEAPON_SLOT, Some((Item::IronSword, 1)));
                Ok(BlockOutcome::Purchased { remaining: state.coins })
            } else {
                Ok(BlockOutcome::NotEnoughCoins { have: state.coins })
            }
        },
    }
}

/// Handles one click of a player on a block.
pub fn handle_block_interaction(
    state: &mut BoxMixState,
    inventory: &mut Inventory,
    game: &PlayerGameState,
    position: BlockPos,
    locations: &BoxLocations,
) -> (result: Result<BlockOutcome, Refusal>)
    ensures
        match refusal_of(
            click_on(*game, position, locations.boxes@, locations.shop_locations@),
            *old(state),
            inventory_slots(*old(inventory)).len(),
        ) {
            Some(refusal) => {
                &&& result == Err::<BlockOutcome, Refusal>(refusal)
                &&& *final(state) == *old(state)
                &&& inventory_slots(*final(inventory)) == inventory_slots(*old(inventory))
            },
            None => {
                &&& result == Ok::<BlockOutcome, Refusal>(
                    outcome_of(
                        click_on(*game, position, locations.boxes@, locations.shop_locations@),
                        *old(state),
                    ),
                )
                &&& *final(state) == state_after(
                    click_on(*game, position, locations.boxes@, locations.shop_locations@),
                    *old(state),
                )
                &&& inventory_slots(*final(inventory)) == slots_after(
                    click_on(*game, position, locations.boxes@, locations.shop_locations@),
                    *old(state),
                    inventory_slots(*old(inventory)),
                )
            },
        },
{
    let click = classify_click(game, position, locations);
    apply_click(click, state, inventory)
}

/// Prepares a member of a match that starts: the counters go to zero, the
/// inventory is emptied, and a wooden sword goes into the weapon slot. With an
/// inventory that lacks that slot nothing is done, and the answer is `false`.
pub fn start_game(inventory: &mut Inventory, state: &mut BoxMixState) -> (started: bool)
    ensures
        started == (inventory_slots(*old(inventory)).len() > WEAPON_SLOT),
        started ==> *final(state) == BoxMixState::fresh(),
        started ==> inventory_slots(*final(inventory)) == empty_slots(
            inventory_slots(*old(inventory)).len(),
        ).update(WEAPON_SLOT as int, stocked(Some((Item::WoodenSword, 1u8)))),
        !started ==> *final(state) == *old(state),
        !started ==> inventory_slots(*final(inventory)) == inventory_slots(*old(inventory)),
{
    if slot_count(inventory) <= WEAPON_SLOT {
        return false;
    }
    state.coins = 0;
    state.boxes_opened = 0;
    clear(inventory);
    set_slot(inventory, WEAPON_SLOT, Some((Item::WoodenSword, 1)));
    true
}

} // verus!
