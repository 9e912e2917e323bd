use minibit::boxmix::{
    self, classify_click, handle_block_interaction, reward, BlockOutcome, BlockPos,
    BoxLocations, BoxMixState, Click, Refusal,
};
use minibit::classic;
use minibit::inventory::{clear, Item, AIR, STACK_MAX, STACK_MIN};
use minibit::model::{MatchId, PlayerGameState};
use valence::inventory::{Inventory, InventoryKind};
use valence::{ItemKind, ItemStack};

fn player() -> Inventory {
    Inventory::new(InventoryKind::Player)
}

fn playing() -> PlayerGameState {
    PlayerGameState { match_id: Some(MatchId(1)), team: 0 }
}

fn held(inventory: &Inventory, idx: u16) -> Option<(ItemKind, u8)> {
    inventory.slot(idx).map(|stack| (stack.item, stack.count()))
}

const BOX: BlockPos = BlockPos { x: 5, y: 10, z: 5 };
const SHOP: BlockPos = BlockPos { x: 0, y: 10, z: 0 };

#[test]
fn item_ids_are_those_of_the_game() {
    assert_eq!(Item::IronSword.id(), ItemKind::IronSword.to_raw());
    assert_eq!(Item::WoodenSword.id(), ItemKind::WoodenSword.to_raw());
    assert_eq!(Item::IronIngot.id(), ItemKind::IronIngot.to_raw());
    assert_eq!(Item::GoldIngot.id(), ItemKind::GoldIngot.to_raw());
    assert_eq!(Item::Diamond.id(), ItemKind::Diamond.to_raw());
    assert_eq!(Item::Emerald.id(), ItemKind::Emerald.to_raw());
    assert_eq!(AIR, ItemKind::Air.to_raw());
    assert_eq!(STACK_MIN, ItemStack::STACK_MIN);
    assert_eq!(STACK_MAX, ItemStack::STACK_MAX);
}

#[test]
fn classic_start_arms_the_player() {
    let mut inventory = player();
    inventory.set_slot(35, ItemStack::new(ItemKind::Diamond, 3, None));
    inventory.set_slot(36, ItemStack::new(ItemKind::Emerald, 9, None));
    assert!(classic::start_game(&mut inventory));
    assert_eq!(held(&inventory, 36), Some((ItemKind::IronSword, 1)));
    assert_eq!(held(&inventory, 35), Some((ItemKind::Diamond, 3)));
    assert_eq!(held(&inventory, 37), None);
    assert_eq!(inventory.slot_count(), 46);
}

#[test]
fn classic_start_leaves_a_small_inventory_alone() {
    let mut inventory = Inventory::new(InventoryKind::Generic9x4);
    assert_eq!(inventory.slot_count(), 36);
    inventory.set_slot(0, ItemStack::new(ItemKind::Diamond, 3, None));
    assert!(!classic::start_game(&mut inventory));
    assert_eq!(held(&inventory, 0), Some((ItemKind::Diamond, 3)));
    for idx in 1..36 {
        assert_eq!(held(&inventory, idx), None);
    }
}

#[test]
fn clear_empties_every_slot() {
    let mut inventory = player();
    for idx in 0..46u16 {
        inventory.set_slot(idx, ItemStack::new(ItemKind::Emerald, 2, None));
    }
    clear(&mut inventory);
    assert_eq!(inventory.slot_count(), 46);
    for idx in 0..46u16 {
        assert_eq!(held(&inventory, idx), None);
    }
    let mut none = Inventory::new(InventoryKind::Beacon);
    clear(&mut none);
    assert_eq!(held(&none, 0), None);
}

#[test]
fn boxmix_start_resets_everything() {
    let mut inventory = player();
    inventory.set_slot(0, ItemStack::new(ItemKind::Diamond, 3, None));
    inventory.set_slot(40, ItemStack::new(ItemKind::Emerald, 9, None));
    let mut state = BoxMixState { coins: 70, boxes_opened: 7 };
    assert!(boxmix::start_game(&mut inventory, &mut state));
    assert_eq!(state, BoxMixState { coins: 0, boxes_opened: 0 });
    for idx in 0..46u16 {
        if idx == 36 {
            assert_eq!(held(&inventory, idx), Some((ItemKind::WoodenSword, 1)));
        } else {
            assert_eq!(held(&inventory, idx), None);
        }
    }
}

#[test]
fn boxmix_start_needs_the_weapon_slot() {
    let mut inventory = Inventory::new(InventoryKind::Generic9x1);
    inventory.set_slot(0, ItemStack::new(ItemKind::Diamond, 3, None));
    let mut state = BoxMixState { coins: 70, boxes_opened: 7 };
    assert!(!boxmix::start_game(&mut inventory, &mut state));
    assert_eq!(state, BoxMixState { coins: 70, boxes_opened: 7 });
    assert_eq!(held(&inventory, 0), Some((ItemKind::Diamond, 3)));
}

#[test]
fn standard_arena_has_four_boxes_and_a_shop() {
    let locations = BoxLocations::default();
    assert_eq!(
        locations.boxes,
        vec![
            BlockPos { x: 5, y: 10, z: 5 },
            BlockPos { x: -5, y: 10, z: 5 },
            BlockPos { x: 5, y: 10, z: -5 },
            BlockPos { x: -5, y: 10, z: -5 },
        ]
    );
    assert_eq!(locations.shop_locations, vec![BlockPos { x: 0, y: 10, z: 0 }]);
    assert_eq!(BoxMixState::default(), BoxMixState { coins: 0, boxes_opened: 0 });
    assert_eq!(BoxMixState::new(), BoxMixState::default());
}

#[test]
fn clicks_are_classified() {
    let locations = BoxLocations::default();
    let lobby = PlayerGameState { match_id: None, team: 0 };
    assert_eq!(classify_click(&playing(), BOX, &locations), Click::OpenBox);
    assert_eq!(
        classify_click(&playing(), BlockPos { x: -5, y: 10, z: -5 }, &locations),
        Click::OpenBox
    );
    assert_eq!(classify_click(&playing(), SHOP, &locations), Click::Shop);
    assert_eq!(
        classify_click(&playing(), BlockPos { x: 5, y: 11, z: 5 }, &locations),
        Click::Nothing
    );
    assert_eq!(classify_click(&lobby, BOX, &locations), Click::Nothing);
    assert_eq!(classify_click(&lobby, SHOP, &locations), Click::Nothing);
    let both = BoxLocations { boxes: vec![SHOP], shop_locations: vec![SHOP] };
    assert_eq!(classify_click(&playing(), SHOP, &both), Click::OpenBox);
}

#[test]
fn resources_take_turns() {
    assert_eq!(reward(0), Item::IronIngot);
    assert_eq!(reward(1), Item::GoldIngot);
    assert_eq!(reward(2), Item::Diamond);
    assert_eq!(reward(3), Item::Emerald);
    assert_eq!(reward(4), Item::IronIngot);
    assert_eq!(reward(u32::MAX), Item::Emerald);
}

#[test]
fn opening_a_box_pays_coins_and_a_resource() {
    let locations = BoxLocations::default();
    let mut inventory = player();
    let mut state = BoxMixState::new();
    assert!(boxmix::start_game(&mut inventory, &mut state));
    let result = handle_block_interaction(&mut state, &mut inventory, &playing(), BOX, &locations);
    assert_eq!(result, Ok(BlockOutcome::BoxOpened { total: 10 }));
    assert_eq!(state, BoxMixState { coins: 10, boxes_opened: 1 });
    assert_eq!(held(&inventory, 36), Some((ItemKind::WoodenSword, 1)));
    assert_eq!(held(&inventory, 37), Some((ItemKind::GoldIngot, 1)));
    assert_eq!(held(&inventory, 38), None);
}

#[test]
fn resources_stack_in_the_first_slot_with_room() {
    let locations = BoxLocations::default();
    let mut inventory = player();
    let mut state = BoxMixState::new();
    for _ in 0..5 {
        let result =
            handle_block_interaction(&mut state, &mut inventory, &playing(), BOX, &locations);
        assert!(result.is_ok());
    }
    assert_eq!(state, BoxMixState { coins: 50, boxes_opened: 5 });
    assert_eq!(held(&inventory, 36), Some((ItemKind::GoldIngot, 2)));
    assert_eq!(held(&inventory, 37), Some((ItemKind::Diamond, 1)));
    assert_eq!(held(&inventory, 38), Some((ItemKind::Emerald, 1)));
    assert_eq!(held(&inventory, 39), Some((ItemKind::IronIngot, 1)));
    assert_eq!(held(&inventory, 40), None);
}

#[test]
fn a_full_stack_is_passed_over() {
    let locations = BoxLocations::default();
    let mut inventory = player();
    inventory.set_slot(36, ItemStack::new(ItemKind::GoldIngot, 64, None));
    inventory.set_slot(37, ItemStack::new(ItemKind::GoldIngot, 63, None));
    inventory.set_slot(38, ItemStack::new(ItemKind::Air, 1, None));
    let mut state = BoxMixState::new();
    let result = handle_block_interaction(&mut state, &mut inventory, &playing(), BOX, &locations);
    assert_eq!(result, Ok(BlockOutcome::BoxOpened { total: 10 }));
    assert_eq!(held(&inventory, 36), Some((ItemKind::GoldIngot, 64)));
    assert_eq!(held(&inventory, 37), Some((ItemKind::GoldIngot, 64)));
    assert_eq!(held(&inventory, 38), Some((ItemKind::Air, 1)));
}

#[test]
fn a_slot_of_air_counts_as_empty() {
    let locations = BoxLocations::default();
    let mut inventory = player();
    inventory.set_slot(36, ItemStack::new(ItemKind::Air, 5, None));
    let mut state = BoxMixState::new();
    let result = handle_block_interaction(&mut state, &mut inventory, &playing(), BOX, &locations);
    assert_eq!(result, Ok(BlockOutcome::BoxOpened { total: 10 }));
    assert_eq!(held(&inventory, 36), Some((ItemKind::GoldIngot, 1)));
}

#[test]
fn a_full_hotbar_loses_the_resource_but_not_the_coins() {
    let locations = BoxLocations::default();
    let mut inventory = player();
    for idx in 36..45u16 {
        inventory.set_slot(idx, ItemStack::new(ItemKind::IronSword, 1, None));
    }
    let mut state = BoxMixState::new();
    let result = handle_block_interaction(&mut state, &mut inventory, &playing(), BOX, &locations);
    assert_eq!(result, Ok(BlockOutcome::BoxOpened { total: 10 }));
    assert_eq!(state, BoxMixState { coins: 10, boxes_opened: 1 });
    for idx in 36..45u16 {
        assert_eq!(held(&inventory, idx), Some((ItemKind::IronSword, 1)));
    }
    assert_eq!(held(&inventory, 45), None);
    assert_eq!(held(&inventory, 35), None);
}

#[test]
fn the_shop_sells_a_sword_for_fifty_coins() {
    let locations = BoxLocations::default();
    let mut inventory = player();
    let mut state = BoxMixState { coins: 49, boxes_opened: 4 };
    let result =
        handle_block_interaction(&mut state, &mut inventory, &playing(), SHOP, &locations);
    assert_eq!(result, Ok(BlockOutcome::NotEnoughCoins { have: 49 }));
    assert_eq!(state, BoxMixState { coins: 49, boxes_opened: 4 });
    assert_eq!(held(&inventory, 36), None);

    state.coins = 50;
    inventory.set_slot(36, ItemStack::new(ItemKind::WoodenSword, 1, None));
    let result =
        handle_block_interaction(&mut state, &mut inventory, &playing(), SHOP, &locations);
    assert_eq!(result, Ok(BlockOutcome::Purchased { remaining: 0 }));
    assert_eq!(state, BoxMixState { coins: 0, boxes_opened: 4 });
    assert_eq!(held(&inventory, 36), Some((ItemKind::IronSword, 1)));

    state.coins = 120;
    let result =
        handle_block_interaction(&mut state, &mut inventory, &playing(), SHOP, &locations);
    assert_eq!(result, Ok(BlockOutcome::Purchased { remaining: 70 }));
}

#[test]
fn clicks_outside_a_match_or_on_plain_blocks_are_ignored() {
    let locations = BoxLocations::default();
    let mut inventory = player();
    let mut state = BoxMixState { coins: 60, boxes_opened: 2 };
    let lobby = PlayerGameState { match_id: None, team: 0 };
    for position in [BOX, SHOP] {
        let result =
            handle_block_interaction(&mut state, &mut inventory, &lobby, position, &locations);
        assert_eq!(result, Ok(BlockOutcome::Ignored));
    }
    let plain = BlockPos { x: 1, y: 2, z: 3 };
    let result =
        handle_block_interaction(&mut state, &mut inventory, &playing(), plain, &locations);
    assert_eq!(result, Ok(BlockOutcome::Ignored));
    assert_eq!(state, BoxMixState { coins: 60, boxes_opened: 2 });
    for idx in 0..46u16 {
        assert_eq!(held(&inventory, idx), None);
    }
}

#[test]
fn full_counters_refuse_the_box() {
    let locations = BoxLocations::default();
    let mut inventory = player();
    let mut state = BoxMixState { coins: u32::MAX - 9, boxes_opened: 0 };
    let result = handle_block_interaction(&mut state, &mut inventory, &playing(), BOX, &locations);
    assert_eq!(result, Err(Refusal::CounterFull));
    assert_eq!(state, BoxMixState { coins: u32::MAX - 9, boxes_opened: 0 });
    assert_eq!(held(&inventory, 36), None);

    let mut state = BoxMixState { coins: 0, boxes_opened: u32::MAX };
    let result = handle_block_interaction(&mut state, &mut inventory, &playing(), BOX, &locations);
    assert_eq!(result, Err(Refusal::CounterFull));

    let mut state = BoxMixState { coins: u32::MAX - 10, boxes_opened: u32::MAX - 1 };
    let result = handle_block_interaction(&mut state, &mut inventory, &playing(), BOX, &locations);
    assert_eq!(result, Ok(BlockOutcome::BoxOpened { total: u32::MAX }));
    assert_eq!(state, BoxMixState { coins: u32::MAX, boxes_opened: u32::MAX });
    assert_eq!(held(&inventory, 36), Some((ItemKind::Emerald, 1)));
}

#[test]
fn small_inventories_refuse_what_they_cannot_hold() {
    let locations = BoxLocations::default();
    let mut chest = Inventory::new(InventoryKind::Generic9x4);
    let mut state = BoxMixState { coins: 60, boxes_opened: 0 };
    let result = handle_block_interaction(&mut state, &mut chest, &playing(), BOX, &locations);
    assert_eq!(result, Err(Refusal::InventoryTooSmall));
    let result = handle_block_interaction(&mut state, &mut chest, &playing(), SHOP, &locations);
    assert_eq!(result, Err(Refusal::InventoryTooSmall));
    assert_eq!(state, BoxMixState { coins: 60, boxes_opened: 0 });
    state.coins = 10;
    let result = handle_block_interaction(&mut state, &mut chest, &playing(), SHOP, &locations);
    assert_eq!(result, Ok(BlockOutcome::NotEnoughCoins { have: 10 }));
    let lobby = PlayerGameState { match_id: None, team: 0 };
    let result = handle_block_interaction(&mut state, &mut chest, &lobby, BOX, &locations);
    assert_eq!(result, Ok(BlockOutcome::Ignored));
}
