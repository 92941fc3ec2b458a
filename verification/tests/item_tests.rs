use deepgrid_studio::character::StatKind;
use deepgrid_studio::item::{EquipSlot, Inventory, ItemCatalog, ItemDef, ItemInstance, ItemKind, SlotRef, StatEffect};

fn blank(id: &str) -> ItemDef {
    ItemDef {
        id: id.to_string(),
        name: id.to_string(),
        kind: ItemKind::General,
        sharpness: 0,
        hardness: 0,
        weight: 0,
        temperature: 0,
        nutrition: 0,
        entropy_max: 0,
        anti_magic: 0,
        anti_appraisal: 0,
        anti_impact: 0,
        important: false,
        throwability: 0,
        grip: 0,
        capacity: 0,
        equip_slots: vec![],
        effects: vec![],
        model: String::new(),
        teaches: None,
    }
}

fn catalog() -> ItemCatalog {
    let sword = ItemDef {
        id: "sword".to_string(),
        name: "つるぎ".to_string(),
        kind: ItemKind::General,
        weight: 30,
        equip_slots: vec![EquipSlot::Arm],
        effects: vec![StatEffect { stat: StatKind::Attack, delta: 5, duration_cycles: 0 }],
        ..blank("sword")
    };
    let helm = ItemDef {
        id: "helm".to_string(),
        name: "かぶと".to_string(),
        weight: 20,
        equip_slots: vec![EquipSlot::Head],
        ..blank("helm")
    };
    ItemCatalog::from_defs(vec![sword, helm], "test").unwrap()
}

#[test]
fn pickup_fills_hands_then_pouch() {
    let mut inv = Inventory::new(1, 0);
    assert_eq!(inv.pickup(ItemInstance::new("a".to_string())), Ok(SlotRef::Hand(0)));
    assert_eq!(inv.pickup(ItemInstance::new("b".to_string())), Ok(SlotRef::Hand(1)));
    assert_eq!(inv.pickup(ItemInstance::new("c".to_string())), Ok(SlotRef::Pouch(0)));
    // Full now.
    assert!(inv.pickup(ItemInstance::new("d".to_string())).is_err());
}

#[test]
fn weight_sums_all_slots() {
    let cat = catalog();
    let mut inv = Inventory::new(3, 3);
    inv.pickup(ItemInstance::new("sword".to_string())).unwrap();
    inv.pickup(ItemInstance::new("helm".to_string())).unwrap();
    assert_eq!(inv.total_weight(&cat), 50);
}

#[test]
fn equip_then_unequip_round_trips() {
    let cat = catalog();
    let mut inv = Inventory::new(3, 3);
    inv.pickup(ItemInstance::new("sword".to_string())).unwrap();
    inv.equip(SlotRef::Hand(0), &cat).unwrap();
    assert!(inv.get(SlotRef::Equip(EquipSlot::Arm)).is_some());
    assert_eq!(inv.equipment_effects(&cat), vec![(StatKind::Attack, 5)]);
    inv.unequip(EquipSlot::Arm).unwrap();
    assert!(inv.get(SlotRef::Equip(EquipSlot::Arm)).is_none());
    assert!(inv.equipment_effects(&cat).is_empty());
}

#[test]
fn take_then_put_restores_the_slot() {
    let mut inv = Inventory::new(2, 0);
    inv.pickup(ItemInstance::new("a".to_string())).unwrap();
    let it = inv.take(SlotRef::Hand(0)).unwrap();
    assert!(inv.get(SlotRef::Hand(0)).is_none());
    assert!(inv.put(SlotRef::Hand(0), it).is_ok());
    assert_eq!(inv.get(SlotRef::Hand(0)).map(|i| i.def_id.clone()), Some("a".to_string()));
}

#[test]
fn duplicate_item_ids_are_refused() {
    let r = ItemCatalog::from_defs(vec![blank("x"), blank("x")], "items.ron");
    assert_eq!(r.err(), Some("items.ron: duplicate item id 'x'".to_string()));
}

#[test]
fn equipping_a_non_equippable_item_fails() {
    let cat = ItemCatalog::from_defs(vec![blank("rock")], "t").unwrap();
    let mut inv = Inventory::new(1, 0);
    inv.pickup(ItemInstance::new("rock".to_string())).unwrap();
    assert!(inv.equip(SlotRef::Hand(0), &cat).is_err());
    assert!(inv.get(SlotRef::Hand(0)).is_some());
}
