//! Packets that make NPCs appear on and vanish from a client's screen.
use crate::models::npc::NpcTemplate;
use crate::protocol::opcodes::{S_OPCODE_CHARPACK, S_OPCODE_REMOVE_OBJECT};
use crate::protocol::packet::{c8, d32, h16, pad4, s_bytes, PacketBuilder};
use vstd::prelude::*;
use vstd::utf8::encode_utf8;

verus! {

/// Where an NPC stands and which way it faces.
pub struct NpcPosition {
    pub x: i32,
    pub y: i32,
    pub heading: i32,
}

/// The appearance packet of NPC `object_id` of kind `template`, standing at
/// `pos`, with health bar `hp_bar` (0 to 255) and status flags `status_flags`.
pub fn build_npc_pack(
    object_id: i32,
    pos: &NpcPosition,
    template: &NpcTemplate,
    hp_bar: i32,
    status_flags: i32,
) -> (out: Vec<u8>)
    ensures
        out@ == pad4(
            seq![S_OPCODE_CHARPACK] + h16(pos.x) + h16(pos.y) + d32(object_id) + h16(template.gfxid)
                + c8(0) + c8(pos.heading) + c8(template.light_size) + c8(0) + d32(template.exp)
                + h16(template.lawful) + s_bytes(Some(encode_utf8(template.nameid@)))
                + s_bytes(Some(Seq::<u8>::empty())) + c8(status_flags) + d32(0) + s_bytes(None)
                + s_bytes(None) + c8(0) + c8(hp_bar) + c8(0) + c8(template.level) + c8(0xFF) + c8(
                0xFF,
            ) + c8(0),
        ),
{
    proof {
        reveal_strlit("");
    }
    PacketBuilder::new(S_OPCODE_CHARPACK).write_h(pos.x).write_h(pos.y).write_d(object_id).write_h(
        template.gfxid,
    ).write_c(0).write_c(pos.heading).write_c(template.light_size).write_c(0).write_d(
        template.exp,
    ).write_h(template.lawful).write_s(Some(template.nameid.as_str())).write_s(Some("")).write_c(
        status_flags,
    ).write_d(0).write_s(None).write_s(None).write_c(0).write_c(hp_bar).write_c(0).write_c(
        template.level,
    ).write_c(0xFF).write_c(0xFF).write_c(0).build()
}

/// The packet that removes object `object_id` from the screen.
pub fn build_remove_object(object_id: i32) -> (out: Vec<u8>)
    ensures
        out@ == pad4(seq![S_OPCODE_REMOVE_OBJECT] + d32(object_id)),
{
    PacketBuilder::new(S_OPCODE_REMOVE_OBJECT).write_d(object_id).build()
}

} // verus!
