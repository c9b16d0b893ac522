use l1j_rust::data::beginner_item_table::{BeginnerItem, BeginnerItemTable};
use l1j_rust::data::droplist::{resolve_drop, DropItem, DropTable};
use l1j_rust::data::item::ItemTable;
use l1j_rust::db::char_create::chrono_free_birthday;
use l1j_rust::models::item::{Inventory, ItemTemplate, OnlineItem};

#[test]
fn knights_start_with_sword_and_potions() {
    let t = BeginnerItemTable::new();
    let items = t.get_items_for_class(1).unwrap();
    assert_eq!(
        *items,
        vec![
            BeginnerItem { item_id: 40001, count: 1, enchant: 0 },
            BeginnerItem { item_id: 40010, count: 10, enchant: 0 },
        ]
    );
    assert!(t.get_items_for_class(0).is_none());
}

#[test]
fn drop_lists_group_by_monster() {
    let mut t = DropTable::new();
    assert!(t.get_drops(1).is_none());
    let a = DropItem { mob_id: 1, item_id: 10, min_count: 1, max_count: 1, chance: 5 };
    let b = DropItem { mob_id: 2, item_id: 20, min_count: 1, max_count: 1, chance: 5 };
    let c = DropItem { mob_id: 1, item_id: 30, min_count: 1, max_count: 1, chance: 5 };
    t.insert_drop(a);
    t.insert_drop(b);
    t.insert_drop(c);
    assert_eq!(*t.get_drops(1).unwrap(), vec![a, c]);
    assert_eq!(*t.get_drops(2).unwrap(), vec![b]);
}

#[test]
fn certain_and_impossible_drops() {
    let mut t = DropTable::new();
    t.insert_drop(DropItem { mob_id: 1, item_id: 10, min_count: 3, max_count: 3, chance: 1_000_000 });
    t.insert_drop(DropItem { mob_id: 1, item_id: 11, min_count: 1, max_count: 4, chance: 1_000_000 });
    t.insert_drop(DropItem { mob_id: 1, item_id: 12, min_count: 1, max_count: 1, chance: 0 });
    for _ in 0..20 {
        let got = t.calculate_drops(1);
        assert_eq!(got.len(), 2);
        assert_eq!(got[0], (10, 3));
        assert_eq!(got[1].0, 11);
        assert!(1 <= got[1].1 && got[1].1 <= 4);
    }
    assert!(t.calculate_drops(2).is_empty());
}

#[test]
fn hopeless_drop_with_empty_range_is_skipped() {
    let mut t = DropTable::new();
    t.insert_drop(DropItem { mob_id: 1, item_id: 12, min_count: 5, max_count: 2, chance: 0 });
    t.insert_drop(DropItem { mob_id: 1, item_id: 10, min_count: 3, max_count: 3, chance: 1_000_000 });
    for _ in 0..20 {
        assert_eq!(t.calculate_drops(1), vec![(10, 3)]);
    }
}

#[test]
fn drops_grouped_from_rows() {
    let a = DropItem { mob_id: 1, item_id: 10, min_count: 1, max_count: 1, chance: 5 };
    let b = DropItem { mob_id: 2, item_id: 20, min_count: 1, max_count: 2, chance: 6 };
    let c = DropItem { mob_id: 1, item_id: 11, min_count: 2, max_count: 3, chance: 7 };
    let t = DropTable::from_drops(vec![a, b, c]);
    assert_eq!(t.data.len(), 2);
    assert_eq!(*t.get_drops(1).unwrap(), vec![a, c]);
    assert_eq!(*t.get_drops(2).unwrap(), vec![b]);
    assert!(t.get_drops(3).is_none());
    assert!(DropTable::from_drops(Vec::new()).data.is_empty());
}

#[test]
fn item_table_from_templates_keeps_the_later() {
    let etc = ItemTemplate { item_id: 40001, name: "torch".to_string(), ground_gfx: 5, weight: 10, stackable: true };
    let armor = ItemTemplate { item_id: 20001, name: "helm".to_string(), ground_gfx: 7, weight: 0, stackable: false };
    let again = ItemTemplate { item_id: 40001, name: "lamp".to_string(), ground_gfx: 6, weight: 0, stackable: false };
    let t = ItemTable::from_templates(vec![etc, armor, again]);
    assert_eq!(t.templates.len(), 2);
    assert_eq!(t.get(40001).unwrap().name, "lamp");
    assert_eq!(t.get(20001).unwrap().ground_gfx, 7);
    assert!(t.get(1).is_none());
    let u = l1j_rust::data::item_table::ItemTable::from_templates(Vec::new());
    assert!(u.templates.is_empty());
}

#[test]
fn resolving_one_drop() {
    let fixed = DropItem { mob_id: 1, item_id: 10, min_count: 3, max_count: 3, chance: 500 };
    let ranged = DropItem { mob_id: 1, item_id: 11, min_count: 1, max_count: 4, chance: 500 };
    assert_eq!(resolve_drop(&fixed, 500, 9), Some((10, 3)));
    assert_eq!(resolve_drop(&fixed, 501, 9), None);
    assert_eq!(resolve_drop(&ranged, 1, 4), Some((11, 4)));
}

#[test]
fn item_table_lookup() {
    let mut t = ItemTable::new();
    assert!(t.get(40001).is_none());
    t.templates.insert(40001, ItemTemplate { item_id: 40001, name: "sword".to_string(), ground_gfx: 1, weight: 2, stackable: false });
    assert_eq!(t.get(40001).unwrap().name, "sword");
}

#[test]
fn defaults_and_constructors() {
    let t = ItemTemplate::default();
    assert_eq!((t.item_id, t.name.as_str(), t.ground_gfx, t.weight, t.stackable), (0, "", 0, 0, false));
    let i = OnlineItem::new(3, 40001);
    assert_eq!(i, OnlineItem { object_id: 3, item_id: 40001, count: 1, x: 0, y: 0, map_id: 0, is_equipped: false });
    let inv = Inventory::new();
    assert!(inv.items.is_empty());
    assert_eq!((inv.max_size, inv.max_weight), (180, 300_000));
}

#[test]
fn birthday_stamp() {
    assert_eq!(chrono_free_birthday(0), 19700101);
    // 30-day months: day 40 is the eleventh day of the second month.
    assert_eq!(chrono_free_birthday(40 * 86400), 19700211);
    // 365-day years: day 366 is the second day of the next year.
    assert_eq!(chrono_free_birthday(366 * 86400), 19710102);
    // Day 359 ends the twelfth month; the five days after it are 31 December.
    assert_eq!(chrono_free_birthday(359 * 86400), 19701230);
    assert_eq!(chrono_free_birthday(360 * 86400), 19701231);
    assert_eq!(chrono_free_birthday(364 * 86400 + 86399), 19701231);
    assert_eq!(chrono_free_birthday(1_000_000_000), 20010920);
}
