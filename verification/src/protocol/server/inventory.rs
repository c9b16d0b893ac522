//! Inventory packets.
use crate::config::Item;
use crate::protocol::opcodes::S_OPCODE_INVLIST;
use crate::protocol::packet::{c8, d32, h16, pad4, PacketBuilder};
use vstd::prelude::*;

verus! {

/// The packet that puts `item`, stored under object id `object_id`, into
/// the client's inventory: object id, item id, an unidentified flag, count
/// and enchant level.
pub fn build_inv_item(object_id: i32, item: &Item) -> (out: Vec<u8>)
    ensures
        out@ == pad4(
            seq![S_OPCODE_INVLIST] + d32(object_id) + h16(item.item_id) + c8(0) + d32(
                item.count as i32,
            ) + c8(item.enchant_level as i32),
        ),
{
    PacketBuilder::new(S_OPCODE_INVLIST).write_d(object_id).write_h(item.item_id).write_c(
        0,
    ).write_d(item.count as i32).write_c(item.enchant_level as i32).build()
}

} // verus!
