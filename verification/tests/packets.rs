use l1j_rust::config::Item;
use l1j_rust::models::npc::NpcTemplate;
use l1j_rust::protocol::opcodes::{
    S_OPCODE_ATTACKPACKET, S_OPCODE_CHARPACK, S_OPCODE_DROPITEM, S_OPCODE_HPMETER,
    S_OPCODE_INVLIST, S_OPCODE_MOVEOBJECT, S_OPCODE_REMOVE_OBJECT,
};
use l1j_rust::protocol::packet::PacketBuilder;
use l1j_rust::protocol::server::combat::{build_attack_packet, build_drop_item, build_hp_meter};
use l1j_rust::protocol::server::inventory::build_inv_item;
use l1j_rust::protocol::server::movement::{build_move_char, heading_delta};
use l1j_rust::protocol::server::npc_pack::{build_npc_pack, build_remove_object, NpcPosition};

#[test]
fn builder_writes_little_endian_and_pads() {
    let out = PacketBuilder::new(0x10)
        .write_c(0x1FF)
        .write_h(0x1234)
        .write_d(-2)
        .build();
    assert_eq!(out, vec![0x10, 0xFF, 0x34, 0x12, 0xFE, 0xFF, 0xFF, 0xFF]);
}

#[test]
fn builder_pads_to_four_bytes() {
    assert_eq!(PacketBuilder::new(1).build(), vec![1, 0, 0, 0]);
    assert_eq!(PacketBuilder::new(1).write_c(2).write_c(3).write_c(4).build(), vec![1, 2, 3, 4]);
    assert_eq!(
        PacketBuilder::new(1).write_c(2).write_c(3).write_c(4).write_c(5).build(),
        vec![1, 2, 3, 4, 5, 0, 0, 0]
    );
}

#[test]
fn builder_writes_strings_with_terminator() {
    let out = PacketBuilder::new(9).write_s(Some("ab")).write_s(None).build();
    assert_eq!(out, vec![9, b'a', b'b', 0, 0, 0, 0, 0]);
}

#[test]
fn remove_object_packet() {
    assert_eq!(
        build_remove_object(0x01020304),
        vec![S_OPCODE_REMOVE_OBJECT, 4, 3, 2, 1, 0, 0, 0]
    );
}

#[test]
fn attack_packet_layout() {
    let out = build_attack_packet(1, 2, 1, 300, 5, 0);
    assert_eq!(
        out,
        vec![
            S_OPCODE_ATTACKPACKET, 1, 1, 0, 0, 0, 2, 0, 0, 0, 0x2C, 0x01, 5, 0, 0, 0, 0, 0, 0, 0
        ]
    );
    assert_eq!(out.len() % 4, 0);
}

#[test]
fn hp_meter_ratio() {
    assert_eq!(build_hp_meter(7, 50, 200), vec![S_OPCODE_HPMETER, 7, 0, 0, 0, 25, 0, 0]);
    assert_eq!(build_hp_meter(7, 500, 200), vec![S_OPCODE_HPMETER, 7, 0, 0, 0, 100, 0, 0]);
    assert_eq!(build_hp_meter(7, -50, 200), vec![S_OPCODE_HPMETER, 7, 0, 0, 0, 0, 0, 0]);
    assert_eq!(build_hp_meter(7, 50, 0), vec![S_OPCODE_HPMETER, 7, 0, 0, 0, 0, 0, 0]);
    assert_eq!(build_hp_meter(7, 1, 3), vec![S_OPCODE_HPMETER, 7, 0, 0, 0, 33, 0, 0]);
}

#[test]
fn drop_item_packet_layout() {
    let out = build_drop_item(0x100, 32768, 32769, 60, 3);
    assert_eq!(
        out,
        vec![
            S_OPCODE_DROPITEM, 0x00, 0x80, 0x01, 0x80, 0x00, 0x01, 0x00, 0x00, 60, 0, 0, 0, 3, 0,
            0, 0, 0, 0, 0
        ]
    );
}

#[test]
fn move_packet_layout() {
    assert_eq!(
        build_move_char(5, 10, 20, 3),
        vec![S_OPCODE_MOVEOBJECT, 5, 0, 0, 0, 10, 0, 20, 0, 3, 0, 0]
    );
}

#[test]
fn headings_step_one_cell() {
    assert_eq!(heading_delta(0), (0, -1));
    assert_eq!(heading_delta(1), (1, -1));
    assert_eq!(heading_delta(2), (1, 0));
    assert_eq!(heading_delta(3), (1, 1));
    assert_eq!(heading_delta(4), (0, 1));
    assert_eq!(heading_delta(5), (-1, 1));
    assert_eq!(heading_delta(6), (-1, 0));
    assert_eq!(heading_delta(7), (-1, -1));
    assert_eq!(heading_delta(8), (0, 0));
    assert_eq!(heading_delta(-1), (0, 0));
}

#[test]
fn inventory_item_packet_layout() {
    let item = Item { item_id: 40010, gfx_id: None, count: 10, enchant_level: 2 };
    assert_eq!(
        build_inv_item(77, &item),
        vec![S_OPCODE_INVLIST, 77, 0, 0, 0, 0x4A, 0x9C, 0, 10, 0, 0, 0, 2, 0, 0, 0]
    );
}

#[test]
fn npc_pack_layout() {
    let template = NpcTemplate {
        npc_id: 45001,
        name: "goblin".to_string(),
        nameid: "$1".to_string(),
        note: None,
        level: 3,
        hp: 20,
        mp: 0,
        ac: 10,
        str: 10,
        con: 10,
        dex: 10,
        int: 10,
        wis: 10,
        cha: 10,
        gfxid: 0x0102,
        light_size: 0,
        exp: 5,
        lawful: -1,
    };
    let pos = NpcPosition { x: 1, y: 2, heading: 4 };
    let out = build_npc_pack(9, &pos, &template, 255, 0);
    let expected: Vec<u8> = vec![
        S_OPCODE_CHARPACK, 1, 0, 2, 0, 9, 0, 0, 0, 0x02, 0x01, 0, 4, 0, 0, 5, 0, 0, 0, 0xFF, 0xFF,
        b'$', b'1', 0, 0, 0, 0, 0, 0, 0, 0, 0, 0, 255, 0, 3, 0xFF, 0xFF, 0, 0,
    ];
    assert_eq!(out, expected);
}
