//! Opcodes of the packets the server sends.
use vstd::prelude::*;

verus! {

/// First packet of a connection: carries the cipher seed, in the clear.
pub const S_OPCODE_INITPACKET: u8 = 0x33;
/// Answer to the client's version check.
pub const S_OPCODE_SERVERVERSION: u8 = 0x8c;
/// Result of a login attempt.
pub const S_OPCODE_LOGINRESULT: u8 = 0x27;
/// Number of characters of an account and of its character slots.
pub const S_OPCODE_CHARAMOUNT: u8 = 0x1b;
/// One entry of the character selection list.
pub const S_OPCODE_CHARLIST: u8 = 184;
/// An attack and the damage it did.
pub const S_OPCODE_ATTACKPACKET: u8 = 30;
/// Health bar of an object, in percent.
pub const S_OPCODE_HPMETER: u8 = 104;
/// An item lying on the ground.
pub const S_OPCODE_DROPITEM: u8 = 3;
/// An object moving one cell.
pub const S_OPCODE_MOVEOBJECT: u8 = 122;
/// Appearance of a character or NPC.
pub const S_OPCODE_CHARPACK: u8 = 3;
/// An object leaving the screen.
pub const S_OPCODE_REMOVE_OBJECT: u8 = 185;
/// An item added to the inventory.
pub const S_OPCODE_INVLIST: u8 = 180;

} // verus!
