use actor_core::geometry::{add_clamped, level_direction, Dir3, Vec3i};
use actor_core::hotbar::{scroll_selection, scroll_step, tool_model_for, tool_model_visible, ToolModel};
use actor_core::inventory::{BodyPartType, Inventory, ItemId, ItemStack, ItemType, TOOL_DURABILITY};
use actor_core::names::{ends_with, same_text, starts_with};
use actor_core::population::{scatter_population, MAX_START_SPEED, MIN_START_SPEED, POPULATION, SCATTER_HALF_EXTENT};

fn stack(item_id: ItemId, num: u32) -> ItemStack {
    ItemStack { item_id, item_type: item_id.get_default_type(), num }
}

#[test]
fn default_types() {
    assert_eq!(ItemId::Head.get_default_type(), ItemType::BodyPart(BodyPartType::Head));
    assert_eq!(ItemId::Arm.get_default_type(), ItemType::BodyPart(BodyPartType::Arm));
    assert_eq!(ItemId::Apple.get_default_type(), ItemType::Generic);
    assert_eq!(ItemId::Sword.get_default_type(), ItemType::Tool { durability: TOOL_DURABILITY });
    let t = ItemStack::test();
    assert_eq!(t.item_id, ItemId::Leg);
    assert_eq!(t.num, 2);
}

#[test]
fn add_item_fills_and_merges() {
    let mut inv = Inventory::new();
    inv.add_item(stack(ItemId::Fist, 1));
    inv.add_item(stack(ItemId::Sword, 1));
    inv.add_item(stack(ItemId::Leg, 2));
    inv.add_item(stack(ItemId::Leg, 3));
    assert_eq!(inv.slot(0).unwrap().item_id, ItemId::Fist);
    assert_eq!(inv.slot(1).unwrap().item_id, ItemId::Sword);
    assert_eq!(inv.slot(2).unwrap().num, 5);
    assert_eq!(inv.slot(3), None);
    assert_eq!(inv.selected_tool(1), ItemId::Sword);
    assert_eq!(inv.selected_tool(4), ItemId::Fist);
    inv.add_item(stack(ItemId::Leg, u32::MAX));
    assert_eq!(inv.slot(2).unwrap().num, u32::MAX);
}

#[test]
fn full_inventory_takes_nothing_new() {
    let mut inv = Inventory::new();
    for k in 0..10u32 {
        inv.map.insert(k, stack(ItemId::Apple, k + 1));
    }
    inv.add_item(stack(ItemId::Leg, 1));
    assert_eq!(inv.map.len(), 10);
    assert!(inv.map.values().all(|s| s.item_id == ItemId::Apple));
    inv.add_item(stack(ItemId::Apple, 4));
    assert_eq!(inv.slot(0).unwrap().num, 5);
}

#[test]
fn hotbar_scrolls_and_wraps() {
    assert_eq!(scroll_selection(0, 1), 1);
    assert_eq!(scroll_selection(4, 1), 0);
    assert_eq!(scroll_selection(0, -1), 4);
    assert_eq!(scroll_selection(3, -1), 2);
    assert_eq!(scroll_selection(2, 0), 2);
    assert_eq!(scroll_step(&vec![]), 0);
    assert_eq!(scroll_step(&vec![3, -2]), 1);
    assert_eq!(scroll_step(&vec![-2, 5]), -1);
    assert_eq!(scroll_step(&vec![i32::MIN]), 1);
}

#[test]
fn tool_models_follow_the_selection() {
    assert_eq!(tool_model_for("Hand"), Some(ToolModel::Hand));
    assert_eq!(tool_model_for("Cleaver.001"), Some(ToolModel::Cleaver));
    assert_eq!(tool_model_for("Gun"), Some(ToolModel::Gun));
    assert_eq!(tool_model_for("Gu"), None);
    assert!(tool_model_visible(ToolModel::Hand, 0));
    assert!(!tool_model_visible(ToolModel::Hand, 1));
    assert!(!tool_model_visible(ToolModel::Hand, 2));
    assert!(tool_model_visible(ToolModel::Cleaver, 1));
    assert!(!tool_model_visible(ToolModel::Cleaver, 2));
    assert!(tool_model_visible(ToolModel::Gun, 2));
    assert!(tool_model_visible(ToolModel::Hand, 4));
}

#[test]
fn name_comparisons() {
    assert!(same_text("héllo", "héllo"));
    assert!(!same_text("hello", "hell"));
    assert!(ends_with("ArmMesh", "Mesh"));
    assert!(ends_with("Mesh", ""));
    assert!(!ends_with("esh", "Mesh"));
    assert!(starts_with("Cleaver", "Cle"));
    assert!(!starts_with("Cl", "Cle"));
}

#[test]
fn clamped_addition() {
    assert_eq!(add_clamped(i64::MAX, 1), i64::MAX);
    assert_eq!(add_clamped(i64::MIN, -1), i64::MIN);
    assert_eq!(add_clamped(-5, 3), -2);
    let v = Vec3i::new(i64::MAX, 0, -1).saturating_add(Vec3i::new(1, 2, -3));
    assert_eq!(v, Vec3i::new(i64::MAX, 2, -4));
}

#[test]
fn population_is_scattered_within_bounds() {
    let reqs = scatter_population(POPULATION);
    assert_eq!(reqs.len(), POPULATION);
    for r in &reqs {
        assert!(-SCATTER_HALF_EXTENT <= r.position.x && r.position.x < SCATTER_HALF_EXTENT);
        assert!(-SCATTER_HALF_EXTENT <= r.position.z && r.position.z < SCATTER_HALF_EXTENT);
        assert_eq!(r.position.y, 0);
        assert!(MIN_START_SPEED <= r.speed as i64 && (r.speed as i64) < MAX_START_SPEED);
        let Dir3 { x, y, z } = r.facing;
        assert_eq!(y, 0);
        let len2 = x * x + z * z;
        assert!((994_000..=1_000_000).contains(&len2), "facing {:?} is not of unit length", r.facing);
        assert_eq!(r.target, None);
    }
    assert!(reqs.iter().any(|r| r.position.x != -SCATTER_HALF_EXTENT));
    assert!(reqs.iter().any(|r| r.position.x != reqs[0].position.x));
}

#[test]
fn level_directions_have_unit_length() {
    assert_eq!(level_direction(3, 4), Dir3 { x: 600, y: 0, z: 800 });
    assert_eq!(level_direction(-3, -4), Dir3 { x: -600, y: 0, z: -800 });
    assert_eq!(level_direction(0, -1), Dir3 { x: 0, y: 0, z: -1000 });
    assert_eq!(level_direction(1000, 0), Dir3 { x: 1000, y: 0, z: 0 });
    for (dx, dz) in [(1, 1), (-1000, -1000), (999, -1), (7, 13)] {
        let d = level_direction(dx, dz);
        let len2 = d.x * d.x + d.z * d.z;
        assert!((994_000..=1_000_000).contains(&len2));
    }
}
