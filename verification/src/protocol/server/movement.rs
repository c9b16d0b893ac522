//! Movement packets and headings.
use crate::protocol::opcodes::S_OPCODE_MOVEOBJECT;
use crate::protocol::packet::{c8, d32, h16, pad4, PacketBuilder};
use vstd::prelude::*;

verus! {

/// The cell offset of one step in direction `heading`: 0 is north (up) and
/// the directions turn clockwise in steps of 45 degrees; any other value
/// does not move.
pub open spec fn step(heading: i32) -> (i32, i32) {
    if heading == 0 {
        (0i32, -1i32)
    } else if heading == 1 {
        (1i32, -1i32)
    } else if heading == 2 {
        (1i32, 0i32)
    } else if heading == 3 {
        (1i32, 1i32)
    } else if heading == 4 {
        (0i32, 1i32)
    } else if heading == 5 {
        (-1i32, 1i32)
    } else if heading == 6 {
        (-1i32, 0i32)
    } else if heading == 7 {
        (-1i32, -1i32)
    } else {
        (0i32, 0i32)
    }
}

/// An object `id` moving to `(x, y)` facing `heading`.
pub fn build_move_char(id: i32, x: i32, y: i32, heading: u8) -> (out: Vec<u8>)
    ensures
        out@ == pad4(seq![S_OPCODE_MOVEOBJECT] + d32(id) + h16(x) + h16(y) + c8(heading as i32)),
{
    PacketBuilder::new(S_OPCODE_MOVEOBJECT).write_d(id).write_h(x).write_h(y).write_c(
        heading as i32,
    ).build()
}

/// The cell offset of one step in direction `heading`.
pub fn heading_delta(heading: i32) -> (d: (i32, i32))
    ensures
        d == step(heading),
        -1 <= d.0 <= 1 && -1 <= d.1 <= 1,
        (0 <= heading < 8) <==> d != (0i32, 0i32),
{
    match heading {
        0 => (0, -1),
        1 => (1, -1),
        2 => (1, 0),
        3 => (1, 1),
        4 => (0, 1),
        5 => (-1, 1),
        6 => (-1, 0),
        7 => (-1, -1),
        _ => (0, 0),
    }
}

} // verus!
