use l1j_rust::data::droplist::{DropItem, DropTable};
use l1j_rust::data::item::{process_npc_death, scatter_drops, ItemTable};
use l1j_rust::handler::item_handler::{spawn_goblin_squad, use_item, GOBLIN_TEMPLATE_ID};
use l1j_rust::models::item::{Inventory, ItemTemplate, OnlineItem};
use l1j_rust::models::npc::NpcTemplate;
use l1j_rust::models::player::OnlinePlayer;
use l1j_rust::network::shared_state::WorldState;
use l1j_rust::protocol::server::combat::build_drop_item;

fn player(id: i32, x: i32, y: i32, map_id: i16) -> OnlinePlayer {
    OnlinePlayer {
        object_id: id,
        name: format!("p{}", id),
        x,
        y,
        map_id,
        level: 1,
        hp: 10,
        mp: 5,
        move_speed: 0,
        heading: 0,
        lawful: 0,
        sex: 0,
        title: String::new(),
        gfx_id: 1,
        char_type: 1,
        clan_name: String::new(),
        online: true,
        inventory: Inventory::new(),
    }
}

fn template(npc_id: i32, hp: i32) -> NpcTemplate {
    NpcTemplate {
        npc_id,
        name: "goblin".to_string(),
        nameid: "$goblin".to_string(),
        note: Some("note".to_string()),
        level: 2,
        hp,
        mp: 0,
        ac: 0,
        str: 0,
        con: 0,
        dex: 0,
        int: 0,
        wis: 0,
        cha: 0,
        gfxid: 10,
        light_size: 0,
        exp: 3,
        lawful: 0,
    }
}

#[test]
fn ids_start_after_one_and_increase() {
    let mut w = WorldState::new();
    assert_eq!(w.next_npc_id, 1);
    assert_eq!(w.generate_next_id(), 2);
    assert_eq!(w.generate_next_id(), 3);
    assert_eq!(w.next_npc_id, 3);
}

#[test]
fn add_update_remove_player() {
    let mut w = WorldState::new();
    w.add_player(player(5, 100, 100, 4));
    w.update_position(5, 101, 99, 2);
    let p = w.players.get(&5).unwrap();
    assert_eq!((p.x, p.y, p.heading), (101, 99, 2));
    w.update_position(6, 1, 1, 1);
    assert_eq!(w.players.len(), 1);
    w.remove_player(5);
    assert!(w.players.is_empty());
}

#[test]
fn nearby_players_within_twenty_cells() {
    let mut w = WorldState::new();
    w.add_player(player(1, 100, 100, 4));
    w.add_player(player(2, 120, 80, 4));
    w.add_player(player(3, 121, 100, 4));
    w.add_player(player(4, 100, 100, 5));
    let mut ids: Vec<i32> = w.get_nearby_players(4, 100, 100).iter().map(|p| p.object_id).collect();
    ids.sort();
    assert_eq!(ids, vec![1, 2]);
}

#[test]
fn broadcast_reaches_eighteen_cells() {
    let mut w = WorldState::new();
    w.add_player(player(1, 100, 100, 4));
    w.add_player(player(2, 118, 82, 4));
    w.add_player(player(3, 119, 100, 4));
    w.add_player(player(4, 100, 100, 5));
    let mut ids = w.broadcast_nearby(4, 100, 100);
    ids.sort();
    assert_eq!(ids, vec![1, 2]);
}

#[test]
fn spawn_needs_a_template() {
    let mut w = WorldState::new();
    w.spawn_to_battlefield(45001, 1, 2, 4);
    assert!(w.npcs.is_empty());
    assert_eq!(w.next_npc_id, 1);
    w.npc_templates.insert(45001, template(45001, 30));
    w.spawn_to_battlefield(45001, 1, 2, 4);
    let npc = w.npcs.get(&2).unwrap();
    assert_eq!((npc.object_id, npc.template_id, npc.x, npc.y, npc.map_id, npc.cur_hp), (2, 45001, 1, 2, 4, 30));
}

#[test]
fn death_returns_the_spawned_npc() {
    let mut w = WorldState::new();
    w.npc_templates.insert(45001, template(45001, 30));
    w.spawn_to_battlefield(45001, 7, 8, 4);
    let dead = w.handle_npc_death(2).unwrap();
    assert_eq!((dead.object_id, dead.x, dead.y), (2, 7, 8));
    assert!(w.handle_npc_death(2).is_none());
}

#[test]
fn item_on_ground_gets_fresh_id() {
    let mut w = WorldState::new();
    let id = w.spawn_item_on_ground(40010, 3, 5, 6, 4);
    assert_eq!(id, 2);
    assert_eq!(
        *w.items.get(&2).unwrap(),
        OnlineItem { object_id: 2, item_id: 40010, count: 3, x: 5, y: 6, map_id: 4, is_equipped: false }
    );
}

#[test]
fn npc_moves_one_step() {
    let mut w = WorldState::new();
    w.npc_templates.insert(45001, template(45001, 30));
    w.spawn_to_battlefield(45001, 10, 10, 4);
    let (pkt, map, x, y) = w.move_npc(2, 3).unwrap();
    assert_eq!((map, x, y), (4, 11, 11));
    assert_eq!(pkt, l1j_rust::protocol::server::movement::build_move_char(2, 11, 11, 3));
    assert_eq!(w.npcs.get(&2).unwrap().heading, 3);
    assert!(w.move_npc(99, 1).is_none());
}

#[test]
fn npcs_wander_in_turn() {
    let mut w = WorldState::new();
    w.npc_templates.insert(45001, template(45001, 30));
    w.spawn_to_battlefield(45001, 10, 10, 4);
    w.spawn_to_battlefield(45001, 20, 20, 4);
    // NPC 2 steps east then south; 99 is not there; NPC 3 steps north-west.
    let out = w.wander_npcs(&vec![(2, 2), (99, 0), (2, 4), (3, 7)]);
    assert_eq!(out.len(), 3);
    assert_eq!((out[0].1, out[0].2, out[0].3), (4, 11, 10));
    assert_eq!((out[1].1, out[1].2, out[1].3), (4, 11, 11));
    assert_eq!(out[1].0, l1j_rust::protocol::server::movement::build_move_char(2, 11, 11, 4));
    assert_eq!((out[2].1, out[2].2, out[2].3), (4, 19, 19));
    let n2 = w.npcs.get(&2).unwrap();
    assert_eq!((n2.x, n2.y, n2.heading), (11, 11, 4));
    assert!(w.wander_npcs(&Vec::new()).is_empty());
}

#[test]
fn chosen_npcs_wander_one_step() {
    let mut w = WorldState::new();
    w.npc_templates.insert(45001, template(45001, 30));
    w.spawn_to_battlefield(45001, 10, 10, 4);
    w.spawn_to_battlefield(45001, 20, 20, 4);
    w.spawn_to_battlefield(45001, 30, 30, 4);
    for _ in 0..20 {
        let before: Vec<(i32, i32)> = (2..5).map(|id| (w.npcs[&id].x, w.npcs[&id].y)).collect();
        let out = w.wander_chosen(&vec![4, 2, 77]);
        assert_eq!(out.len(), 2);
        for (k, id) in [(0usize, 4), (1, 2)] {
            let n = &w.npcs[&id];
            let (bx, by) = before[(id - 2) as usize];
            assert!(0 <= n.heading && n.heading < 8);
            assert_eq!((n.x - bx, n.y - by), l1j_rust::protocol::server::movement::heading_delta(n.heading));
            assert_eq!((out[k].1, out[k].2, out[k].3), (4, n.x, n.y));
        }
        assert_eq!((w.npcs[&3].x, w.npcs[&3].y), before[1]);
    }
}

#[test]
fn goblin_squad_lines_up_behind_player() {
    let mut w = WorldState::new();
    w.npc_templates.insert(GOBLIN_TEMPLATE_ID, template(GOBLIN_TEMPLATE_ID, 30));
    let p = player(1, 100, 200, 4);
    spawn_goblin_squad(&mut w, &p);
    assert_eq!(w.npcs.len(), 5);
    for (k, dx) in (2..7).zip(-2..3) {
        let g = w.npcs.get(&k).unwrap();
        assert_eq!((g.x, g.y, g.map_id), (100 + dx, 199, 4));
    }
}

#[test]
fn pine_wand_summons_other_items_do_not() {
    let mut w = WorldState::new();
    w.npc_templates.insert(GOBLIN_TEMPLATE_ID, template(GOBLIN_TEMPLATE_ID, 30));
    let p = player(1, 100, 200, 4);
    use_item(&p, &OnlineItem::new(9, 40001), &mut w);
    assert!(w.npcs.is_empty());
    assert_eq!(w.next_npc_id, 1);
    use_item(&p, &OnlineItem::new(9, 40006), &mut w);
    // Three goblins, one cell south of the player, from west to east.
    assert_eq!(w.npcs.len(), 3);
    assert_eq!(w.next_npc_id, 4);
    for (id, x) in [(2, 99), (3, 100), (4, 101)] {
        let g = w.npcs.get(&id).unwrap();
        assert_eq!((g.x, g.y, g.map_id, g.cur_hp, g.template_id), (x, 201, 4, 30, GOBLIN_TEMPLATE_ID));
    }
}

#[test]
fn pine_wand_without_goblins_still_draws_ids() {
    let mut w = WorldState::new();
    let p = player(1, 100, 200, 4);
    use_item(&p, &OnlineItem::new(9, 40006), &mut w);
    assert!(w.npcs.is_empty());
    assert_eq!(w.next_npc_id, 4);
}

#[test]
fn npc_death_drops_certain_items() {
    let mut w = WorldState::new();
    w.npc_templates.insert(45001, template(45001, 30));
    w.add_player(player(1, 12, 12, 4));
    w.add_player(player(2, 50, 50, 4));
    w.spawn_to_battlefield(45001, 10, 10, 4);
    let mut drops = DropTable::new();
    drops.insert_drop(DropItem { mob_id: 45001, item_id: 40010, min_count: 2, max_count: 2, chance: 1_000_000 });
    drops.insert_drop(DropItem { mob_id: 45001, item_id: 40308, min_count: 1, max_count: 9, chance: 1_000_000 });
    drops.insert_drop(DropItem { mob_id: 45001, item_id: 40001, min_count: 1, max_count: 1, chance: 0 });
    let mut items = ItemTable::new();
    items.templates.insert(40010, ItemTemplate { item_id: 40010, name: "potion".to_string(), ground_gfx: 77, weight: 1, stackable: true });
    let sent = process_npc_death(&mut w, &drops, &items, 2);
    assert!(w.npcs.is_empty());
    // Only the potion has a template, so only it reaches the ground.
    assert_eq!(sent.len(), 1);
    assert_eq!(sent[0].recipients, vec![1]);
    assert_eq!(sent[0].packet, build_drop_item(3, 10, 10, 77, 2));
    assert_eq!(w.items.get(&3).unwrap().count, 2);
    assert!(process_npc_death(&mut w, &drops, &items, 2).is_empty());
}

#[test]
fn scatter_places_known_drops_in_order() {
    let mut w = WorldState::new();
    let mut items = ItemTable::new();
    items.templates.insert(1, ItemTemplate { item_id: 1, name: "a".to_string(), ground_gfx: 11, weight: 0, stackable: false });
    items.templates.insert(2, ItemTemplate { item_id: 2, name: "b".to_string(), ground_gfx: 22, weight: 0, stackable: false });
    let npc = {
        w.npc_templates.insert(7, template(7, 1));
        w.spawn_to_battlefield(7, 3, 4, 0);
        w.handle_npc_death(2).unwrap()
    };
    let sent = scatter_drops(&mut w, &items, &npc, &vec![(2, 5), (9, 1), (1, 6)]);
    assert_eq!(sent.len(), 2);
    assert_eq!(sent[0].packet, build_drop_item(3, 3, 4, 22, 5));
    assert_eq!(sent[1].packet, build_drop_item(4, 3, 4, 11, 6));
    assert_eq!(w.next_npc_id, 4);
}
