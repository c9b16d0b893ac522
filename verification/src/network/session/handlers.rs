//! What a connection answers to each packet, state by state.
use crate::network::cipher::{seed_bytes, Cipher};
use crate::network::session::{framed, key_after, rolled, sent, views, Session, SessionState};
use crate::protocol::opcodes::{
    S_OPCODE_CHARAMOUNT, S_OPCODE_CHARLIST, S_OPCODE_INITPACKET, S_OPCODE_LOGINRESULT,
    S_OPCODE_SERVERVERSION,
};
use crate::protocol::packet::{c8, d32, pad4, PacketBuilder};
use vstd::prelude::*;

verus! {

/// Opcode of the client's version check.
pub const C_OPCODE_CLIENTVERSION: u8 = 0x9d;
/// Opcode of the client's login request.
pub const C_OPCODE_LOGINPACKET: u8 = 0x07;
/// The cipher seed every connection starts from.
pub const HANDSHAKE_SEED: i32 = 0x12345678;
/// The version stamp sent with the version check's answer.
pub const SERVER_TIMESTAMP: i32 = 0x52213791;

/// The first packet of a connection: the cipher seed, then 1 and 0.
pub open spec fn init_packet() -> Seq<u8> {
    pad4(seq![S_OPCODE_INITPACKET] + d32(HANDSHAKE_SEED) + d32(1) + d32(0))
}

/// The answer to the version check: success, any version, a fixed stamp.
pub open spec fn version_ok_packet() -> Seq<u8> {
    pad4(seq![S_OPCODE_SERVERVERSION] + c8(0) + d32(-1i32) + d32(SERVER_TIMESTAMP) + c8(0))
}

/// A successful login.
pub open spec fn login_ok_packet() -> Seq<u8> {
    pad4(seq![S_OPCODE_LOGINRESULT] + c8(0))
}

/// No characters, eight character slots.
pub open spec fn char_amount_packet() -> Seq<u8> {
    pad4(seq![S_OPCODE_CHARAMOUNT] + c8(0) + c8(8))
}

/// An empty character list.
pub open spec fn char_list_packet() -> Seq<u8> {
    pad4(seq![S_OPCODE_CHARLIST] + c8(0) + c8(0))
}

/// What the version-check handler does, in any state: the version check
/// is answered and moves the connection to `VersionVerified`; anything else
/// changes nothing and is not answered.
pub open spec fn version_reply(state: SessionState, opcode: u8) -> (SessionState, Seq<Seq<u8>>) {
    if opcode == C_OPCODE_CLIENTVERSION {
        (SessionState::VersionVerified, seq![version_ok_packet()])
    } else {
        (state, Seq::empty())
    }
}

/// What the login handler does, in any state: the login is answered with a
/// successful result, the character count and the character list, and moves
/// the connection to `Authenticated`; anything else changes nothing and is
/// not answered.
pub open spec fn login_reply(state: SessionState, opcode: u8) -> (SessionState, Seq<Seq<u8>>) {
    if opcode == C_OPCODE_LOGINPACKET {
        (
            SessionState::Authenticated,
            seq![login_ok_packet(), char_amount_packet(), char_list_packet()],
        )
    } else {
        (state, Seq::empty())
    }
}

/// The state a connection in state `state` moves to on a packet with
/// `opcode`, and the packets it answers with: the handshake goes to the
/// version-check handler, a verified version to the login handler; once
/// authenticated nothing is answered yet.
pub open spec fn replies(state: SessionState, opcode: u8) -> (SessionState, Seq<Seq<u8>>) {
    match state {
        SessionState::Handshake => version_reply(state, opcode),
        SessionState::VersionVerified => login_reply(state, opcode),
        _ => (state, Seq::empty()),
    }
}

/// Sending one packet gives its frame and rolls the key once.
proof fn lemma_sent_one(wk: Option<Seq<u8>>, a: Seq<u8>)
    ensures
        sent(wk, seq![a]) == seq![framed(wk, a)],
        key_after(wk, seq![a]) == rolled(wk, a),
{
    let pkts = seq![a];
    assert(pkts.drop_first() =~= Seq::<Seq<u8>>::empty());
    assert(sent(rolled(wk, a), Seq::<Seq<u8>>::empty()) == Seq::<Seq<u8>>::empty());
    assert(key_after(rolled(wk, a), Seq::<Seq<u8>>::empty()) == rolled(wk, a));
    assert(sent(wk, pkts) =~= seq![framed(wk, a)]);
}

/// Sending three packets gives their frames, each under the key that the
/// packets before it left.
proof fn lemma_sent_three(wk: Option<Seq<u8>>, a: Seq<u8>, b: Seq<u8>, c: Seq<u8>)
    ensures
        sent(wk, seq![a, b, c]) == seq![
            framed(wk, a),
            framed(rolled(wk, a), b),
            framed(rolled(rolled(wk, a), b), c),
        ],
        key_after(wk, seq![a, b, c]) == rolled(rolled(rolled(wk, a), b), c),
{
    let wk1 = rolled(wk, a);
    let wk2 = rolled(wk1, b);
    lemma_sent_one(wk2, c);
    let two = seq![b, c];
    assert(two.drop_first() =~= seq![c]);
    assert(sent(wk1, two) =~= seq![framed(wk1, b), framed(wk2, c)]);
    let three = seq![a, b, c];
    assert(three.drop_first() =~= two);
    assert(sent(wk, three) =~= seq![framed(wk, a), framed(wk1, b), framed(wk2, c)]);
    assert(three[0] == a && two[0] == b);
    assert(key_after(wk1, two) == key_after(wk2, seq![c]));
    assert(key_after(wk, three) == key_after(wk1, two));
}

/// Starts a connection: returns the frame of the seed packet, sent in the
/// clear, and sets up the cipher from that seed.
pub fn send_handshake(session: &mut Session) -> (out: Vec<u8>)
    ensures
        out@ == framed(None, init_packet()),
        final(session).read_key() == Some(seed_bytes(HANDSHAKE_SEED)),
        final(session).write_key() == Some(seed_bytes(HANDSHAKE_SEED)),
        final(session).state == old(session).state,
{
    let key: i32 = HANDSHAKE_SEED;
    let pkt = PacketBuilder::new(S_OPCODE_INITPACKET).write_d(key).write_d(0x01).write_d(
        0x00,
    ).build();
    let mut plain = Session { cipher: None, state: session.state };
    let out = plain.frame_packet(pkt.as_slice());
    session.cipher = Some(Cipher::new(key));
    out
}

/// Answers the version check and moves on to `VersionVerified`, whatever
/// the state; ignores anything else.
pub fn handle_connected(session: &mut Session, opcode: u8, _data: &[u8]) -> (out: Vec<Vec<u8>>)
    ensures
        views(out@) == sent(old(session).write_key(), version_reply(old(session).state, opcode).1),
        final(session).state == version_reply(old(session).state, opcode).0,
        final(session).write_key() == key_after(
            old(session).write_key(),
            version_reply(old(session).state, opcode).1,
        ),
        final(session).read_key() == old(session).read_key(),
        final(session).cipher is Some <==> old(session).cipher is Some,
{
    let mut out: Vec<Vec<u8>> = Vec::new();
    if opcode == C_OPCODE_CLIENTVERSION {
        let pkt = PacketBuilder::new(S_OPCODE_SERVERVERSION).write_c(0x00).write_d(-1).write_d(
            SERVER_TIMESTAMP,
        ).write_c(0x00).build();
        let ghost wk = session.write_key();
        let frame = session.frame_packet(pkt.as_slice());
        out.push(frame);
        session.state = SessionState::VersionVerified;
        proof {
            lemma_sent_one(wk, version_ok_packet());
            assert(views(out@) =~= seq![framed(wk, version_ok_packet())]);
        }
    } else {
        assert(views(out@) =~= Seq::<Seq<u8>>::empty());
    }
    out
}

/// Answers the login with a successful result, the character count and
/// the (empty) character list, and moves on to `Authenticated`, whatever
/// the state; ignores anything else.
pub fn handle_login_process(session: &mut Session, opcode: u8, _data: &[u8]) -> (out: Vec<
    Vec<u8>,
>)
    ensures
        views(out@) == sent(old(session).write_key(), login_reply(old(session).state, opcode).1),
        final(session).state == login_reply(old(session).state, opcode).0,
        final(session).write_key() == key_after(
            old(session).write_key(),
            login_reply(old(session).state, opcode).1,
        ),
        final(session).read_key() == old(session).read_key(),
        final(session).cipher is Some <==> old(session).cipher is Some,
{
    let mut out: Vec<Vec<u8>> = Vec::new();
    if opcode == C_OPCODE_LOGINPACKET {
        let ghost wk0 = session.write_key();
        let login_ok = PacketBuilder::new(S_OPCODE_LOGINRESULT).write_c(0x00).build();
        let f1 = session.frame_packet(login_ok.as_slice());
        out.push(f1);
        let char_amount = PacketBuilder::new(S_OPCODE_CHARAMOUNT).write_c(0x00).write_c(
            0x08,
        ).build();
        let f2 = session.frame_packet(char_amount.as_slice());
        out.push(f2);
        let f3 = send_char_list(session);
        out.push(f3);
        session.state = SessionState::Authenticated;
        proof {
            lemma_sent_three(wk0, login_ok_packet(), char_amount_packet(), char_list_packet());
            let wk1 = rolled(wk0, login_ok_packet());
            let wk2 = rolled(wk1, char_amount_packet());
            assert(views(out@) =~= seq![
                framed(wk0, login_ok_packet()),
                framed(wk1, char_amount_packet()),
                framed(wk2, char_list_packet()),
            ]);
        }
    } else {
        assert(views(out@) =~= Seq::<Seq<u8>>::empty());
    }
    out
}

/// Once authenticated: nothing is answered yet, in any state.
pub fn handle_authenticated(session: &mut Session, opcode: u8, _data: &[u8]) -> (out: Vec<
    Vec<u8>,
>)
    ensures
        out@.len() == 0,
        *final(session) == *old(session),
{
    Vec::new()
}

/// In the game: nothing is answered yet, in any state.
pub fn handle_in_game(session: &mut Session, opcode: u8, _data: &[u8]) -> (out: Vec<Vec<u8>>)
    ensures
        out@.len() == 0,
        *final(session) == *old(session),
{
    Vec::new()
}

/// The frame of the (empty) character list.
fn send_char_list(session: &mut Session) -> (out: Vec<u8>)
    ensures
        out@ == framed(old(session).write_key(), char_list_packet()),
        final(session).write_key() == rolled(old(session).write_key(), char_list_packet()),
        final(session).read_key() == old(session).read_key(),
        final(session).cipher is Some <==> old(session).cipher is Some,
        final(session).state == old(session).state,
{
    let pkt = PacketBuilder::new(S_OPCODE_CHARLIST).write_c(0x00).write_c(0x00).build();
    session.frame_packet(pkt.as_slice())
}

} // verus!
