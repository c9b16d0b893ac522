//! Combat packets.
use crate::protocol::opcodes::{S_OPCODE_ATTACKPACKET, S_OPCODE_DROPITEM, S_OPCODE_HPMETER};
use crate::protocol::packet::{c8, d32, h16, pad4, PacketBuilder};
use vstd::prelude::*;

verus! {

/// Action code: standing.
pub const ACTION_IDLE: i32 = 0;
/// Action code: attacking.
pub const ACTION_ATTACK: i32 = 1;
/// Action code: taking damage.
pub const ACTION_DAMAGE: i32 = 2;
/// Action code: dying.
pub const ACTION_DIE: i32 = 8;
/// Action code: picking an item up.
pub const ACTION_PICKUP: i32 = 15;

/// An attack by `attacker_id` on `target_id`.
pub fn build_attack_packet(
    attacker_id: i32,
    target_id: i32,
    action_id: i32,
    damage: i32,
    heading: i32,
    effect: i32,
) -> (out: Vec<u8>)
    ensures
        out@ == pad4(
            seq![S_OPCODE_ATTACKPACKET] + c8(action_id) + d32(attacker_id) + d32(target_id) + h16(
                damage,
            ) + c8(heading) + d32(0) + c8(effect),
        ),
{
    PacketBuilder::new(S_OPCODE_ATTACKPACKET).write_c(action_id).write_d(attacker_id).write_d(
        target_id,
    ).write_h(damage).write_c(heading).write_d(0).write_c(effect).build()
}

/// `a / b` rounded toward zero, as Rust's integer division rounds.
pub open spec fn trunc_div(a: int, b: int) -> int {
    if a >= 0 {
        a / b
    } else {
        -((-a) / b)
    }
}

/// The health bar of an object in percent: `100 * cur_hp / max_hp` rounded
/// toward zero and clamped to `0..=100`; zero when `max_hp` is not positive.
pub open spec fn hp_ratio(cur_hp: i32, max_hp: i32) -> int {
    if max_hp > 0 {
        let q = trunc_div(100 * cur_hp, max_hp as int);
        if q < 0 {
            0
        } else if q > 100 {
            100
        } else {
            q
        }
    } else {
        0
    }
}

/// The health bar of `object_id`.
pub fn build_hp_meter(object_id: i32, cur_hp: i32, max_hp: i32) -> (out: Vec<u8>)
    requires
        max_hp > 0 ==> i32::MIN <= 100 * cur_hp <= i32::MAX,
    ensures
        0 <= hp_ratio(cur_hp, max_hp) <= 100,
        out@ == pad4(seq![S_OPCODE_HPMETER] + d32(object_id) + h16(hp_ratio(cur_hp, max_hp) as i32)),
{
    let ratio: i32 = if max_hp > 0 && cur_hp > 0 {
        let q = (100 * cur_hp) / max_hp;
        if q > 100 {
            100
        } else {
            q
        }
    } else {
        0
    };
    assert(ratio == hp_ratio(cur_hp, max_hp)) by {
        if max_hp > 0 && cur_hp <= 0 {
            assert(-(100 * cur_hp) >= 0);
            assert((-(100 * cur_hp)) / (max_hp as int) >= 0) by (nonlinear_arith)
                requires
                    -(100 * cur_hp) >= 0,
                    max_hp > 0,
            ;
        }
    }
    PacketBuilder::new(S_OPCODE_HPMETER).write_d(object_id).write_h(ratio).build()
}

/// The bytes of the packet that shows `count` of an item with ground
/// graphic `gfx_id`, object `object_id`, lying at `(x, y)`.
pub open spec fn drop_item_packet(object_id: i32, x: i32, y: i32, gfx_id: i32, count: i32) -> Seq<u8> {
    pad4(
        seq![S_OPCODE_DROPITEM] + h16(x) + h16(y) + d32(object_id) + h16(gfx_id) + c8(0) + c8(0)
            + d32(count) + c8(0),
    )
}

/// An item lying on the ground at `(x, y)`.
pub fn build_drop_item(object_id: i32, x: i32, y: i32, gfx_id: i32, count: i32) -> (out: Vec<u8>)
    ensures
        out@ == drop_item_packet(object_id, x, y, gfx_id, count),
{
    PacketBuilder::new(S_OPCODE_DROPITEM).write_h(x).write_h(y).write_d(object_id).write_h(
        gfx_id,
    ).write_c(0).write_c(0).write_d(count).write_c(0).build()
}

} // verus!
