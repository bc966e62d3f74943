use roguelike::damage::{apply_damage, delete_the_dead, Combatant};
use roguelike::inventory::{
    equip_item, heal, item_consumed, item_used, items_to_unequip, use_item, EquipmentSlot, EquippedItem, ItemEffects, ItemUse,
};

#[test]
fn damage_is_summed_and_subtracted() {
    assert_eq!(apply_damage(30, &vec![]), 30);
    assert_eq!(apply_damage(30, &vec![4, 5, 6]), 15);
    assert_eq!(apply_damage(3, &vec![10]), -7);
}

#[test]
fn damage_batches_add_up() {
    let a = vec![3, 8];
    let b = vec![1, 2, 9];
    let mut ab = a.clone();
    ab.extend(b.iter());
    assert_eq!(apply_damage(100, &ab), apply_damage(apply_damage(100, &a), &b));
}

#[test]
fn the_dead_are_removed_but_not_the_player() {
    let cs = vec![
        Combatant { entity: 1, hit_points: 10, is_player: false },
        Combatant { entity: 2, hit_points: 0, is_player: false },
        Combatant { entity: 3, hit_points: -4, is_player: false },
        Combatant { entity: 4, hit_points: 1, is_player: true },
    ];
    let report = delete_the_dead(&cs);
    assert_eq!(report.dead, vec![2, 3]);
    assert!(!report.game_over);
}

#[test]
fn a_dead_player_ends_the_game() {
    let cs = vec![
        Combatant { entity: 4, hit_points: 0, is_player: true },
        Combatant { entity: 5, hit_points: -1, is_player: false },
    ];
    let report = delete_the_dead(&cs);
    assert_eq!(report.dead, vec![5]);
    assert!(report.game_over);
}

#[test]
fn healing_stops_at_the_maximum() {
    assert_eq!(heal(10, 30, 8), 18);
    assert_eq!(heal(25, 30, 8), 30);
    assert_eq!(heal(30, 30, 8), 30);
    assert_eq!(heal(35, 30, 0), 30);
}

#[test]
fn unequip_takes_off_what_is_in_the_slot() {
    let eq = vec![
        EquippedItem { item: 10, owner: 1, slot: EquipmentSlot::Melee },
        EquippedItem { item: 11, owner: 1, slot: EquipmentSlot::Shield },
        EquippedItem { item: 12, owner: 2, slot: EquipmentSlot::Melee },
        EquippedItem { item: 13, owner: 1, slot: EquipmentSlot::Melee },
    ];
    assert_eq!(items_to_unequip(&eq, 1, EquipmentSlot::Melee), vec![10, 13]);
    assert_eq!(items_to_unequip(&eq, 2, EquipmentSlot::Shield), Vec::<u32>::new());
}

#[test]
fn use_counts_only_when_effects_find_targets() {
    let potion = ItemEffects { consumable: true, heals: true, damages: false, confuses: false };
    let food = ItemEffects { consumable: true, heals: false, damages: false, confuses: false };
    assert!(item_used(potion, 1));
    assert!(!item_used(potion, 0));
    assert!(item_used(food, 0));
    assert!(item_consumed(potion, 2));
    assert!(!item_consumed(potion, 0));
    let sword = ItemEffects { consumable: false, heals: false, damages: false, confuses: false };
    assert!(!item_consumed(sword, 1));
}

#[test]
fn using_a_fireball_scroll_hits_every_target() {
    let scroll = ItemUse {
        item: 50,
        equip_slot: None,
        food: false,
        heal_amount: None,
        damage: Some(20),
        confusion_turns: None,
        consumable: true,
    };
    let r = use_item(scroll, &vec![3, 4], &vec![]);
    assert_eq!(r.damage, vec![(3, 20), (4, 20)]);
    assert!(r.heal.is_empty());
    assert!(r.confuse.is_empty());
    assert!(r.equip.is_none());
    assert!(r.consumed);
    let missed = use_item(scroll, &vec![], &vec![]);
    assert!(missed.damage.is_empty());
    assert!(!missed.consumed);
}

#[test]
fn equipping_replaces_the_slot() {
    let eq = vec![EquippedItem { item: 10, owner: 1, slot: EquipmentSlot::Melee }];
    let sword = ItemUse {
        item: 60,
        equip_slot: Some(EquipmentSlot::Melee),
        food: false,
        heal_amount: None,
        damage: None,
        confusion_turns: None,
        consumable: false,
    };
    let r = use_item(sword, &vec![1], &eq);
    assert_eq!(r.unequip, vec![10]);
    assert_eq!(r.equip, Some((1, EquipmentSlot::Melee)));
    assert!(!r.consumed);
}

#[test]
fn potions_heal_and_rations_feed() {
    let potion = ItemUse {
        item: 70,
        equip_slot: None,
        food: false,
        heal_amount: Some(8),
        damage: None,
        confusion_turns: None,
        consumable: true,
    };
    let r = use_item(potion, &vec![1], &vec![]);
    assert_eq!(r.heal, vec![1]);
    assert!(r.consumed);
    let ration = ItemUse { heal_amount: None, food: true, item: 71, ..potion };
    let r = use_item(ration, &vec![1], &vec![]);
    assert_eq!(r.feed, Some(1));
    assert!(r.heal.is_empty());
    assert!(r.consumed);
    let confusion = ItemUse { heal_amount: None, confusion_turns: Some(4), item: 72, ..potion };
    let r = use_item(confusion, &vec![5, 6], &vec![]);
    assert_eq!(r.confuse, vec![(5, 4), (6, 4)]);
}

#[test]
fn equipping_leaves_exactly_one_item_in_the_slot() {
    let mut eq = vec![
        EquippedItem { item: 10, owner: 1, slot: EquipmentSlot::Melee },
        EquippedItem { item: 11, owner: 1, slot: EquipmentSlot::Shield },
        EquippedItem { item: 12, owner: 2, slot: EquipmentSlot::Melee },
        EquippedItem { item: 13, owner: 1, slot: EquipmentSlot::Melee },
    ];
    let mut pack = vec![(20, 1), (14, 1), (30, 2)];
    equip_item(&mut eq, &mut pack, 14, 1, EquipmentSlot::Melee);
    assert_eq!(
        eq,
        vec![
            EquippedItem { item: 11, owner: 1, slot: EquipmentSlot::Shield },
            EquippedItem { item: 12, owner: 2, slot: EquipmentSlot::Melee },
            EquippedItem { item: 14, owner: 1, slot: EquipmentSlot::Melee },
        ]
    );
    assert_eq!(pack, vec![(20, 1), (30, 2), (10, 1), (13, 1)]);
    assert_eq!(items_to_unequip(&eq, 1, EquipmentSlot::Melee), vec![14]);
}

#[test]
fn re_equipping_a_worn_item_keeps_it_on() {
    let mut eq = vec![EquippedItem { item: 10, owner: 1, slot: EquipmentSlot::Head }];
    let mut pack = vec![];
    equip_item(&mut eq, &mut pack, 10, 1, EquipmentSlot::Head);
    assert_eq!(eq, vec![EquippedItem { item: 10, owner: 1, slot: EquipmentSlot::Head }]);
    assert_eq!(pack, Vec::<(u32, u32)>::new());
}
