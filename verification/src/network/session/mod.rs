//! One client connection: its cipher, where it is in the login sequence, and
//! how its packets are framed on the wire.
//!
//! A frame is a two-byte little-endian length, counting itself, followed by
//! the packet; once the handshake has set up the cipher, packets travel
//! encrypted and the length stays in the clear.
pub mod handlers;

use crate::network::cipher::{
    decrypt_bytes, decrypt_stream, encrypt_bytes, encrypt_stream, lemma_stream_roundtrip, roll_key,
    Cipher,
};
use crate::network::session::handlers::{
    handle_authenticated, handle_connected, handle_in_game, handle_login_process, replies,
};
use vstd::prelude::*;

verus! {

/// Where a connection is in the login sequence.
#[derive(Debug, Clone, Copy, PartialEq, Eq, Hash, Structural)]
pub enum SessionState {
    Handshake,
    VersionVerified,
    Authenticated,
    InGame,
}

/// The position of a state in the login sequence.
pub open spec fn rank(s: SessionState) -> int {
    match s {
        SessionState::Handshake => 0,
        SessionState::VersionVerified => 1,
        SessionState::Authenticated => 2,
        SessionState::InGame => 3,
    }
}

/// The largest frame length a client may announce.
pub const MAX_PACKET_LEN: usize = 2048;

/// The length header of a frame that carries `n` bytes: `n + 2` as a
/// little-endian `u16`.
pub open spec fn length_header(n: int) -> Seq<u8> {
    let t = (n + 2) as u16;
    seq![t as u8, (t >> 8u16) as u8]
}

/// The frame that carries packet `p` from a session whose write key is
/// `wk` (none before the handshake).
pub open spec fn framed(wk: Option<Seq<u8>>, p: Seq<u8>) -> Seq<u8> {
    match wk {
        Some(k) => length_header(p.len() as int) + encrypt_bytes(k, p),
        None => length_header(p.len() as int) + p,
    }
}

/// The write key after packet `p` has been sent with `wk`.
pub open spec fn rolled(wk: Option<Seq<u8>>, p: Seq<u8>) -> Option<Seq<u8>> {
    match wk {
        Some(k) => Some(roll_key(k, p)),
        None => None,
    }
}

/// The frames that carry the packets `pkts`, sent one after another from
/// write key `wk`.
pub open spec fn sent(wk: Option<Seq<u8>>, pkts: Seq<Seq<u8>>) -> Seq<Seq<u8>>
    decreases pkts.len(),
{
    if pkts.len() == 0 {
        Seq::empty()
    } else {
        seq![framed(wk, pkts[0])] + sent(rolled(wk, pkts[0]), pkts.drop_first())
    }
}

/// The write key after the packets `pkts` have been sent one after another
/// from write key `wk`.
pub open spec fn key_after(wk: Option<Seq<u8>>, pkts: Seq<Seq<u8>>) -> Option<Seq<u8>>
    decreases pkts.len(),
{
    if pkts.len() == 0 {
        wk
    } else {
        key_after(rolled(wk, pkts[0]), pkts.drop_first())
    }
}

/// The byte views of a list of byte vectors.
pub open spec fn views(v: Seq<Vec<u8>>) -> Seq<Seq<u8>> {
    v.map_values(|b: Vec<u8>| b@)
}

/// One client connection, without its socket.
pub struct Session {
    pub cipher: Option<Cipher>,
    pub state: SessionState,
}

impl Session {
    /// The read key, once the handshake has set up the cipher.
    pub open spec fn read_key(&self) -> Option<Seq<u8>> {
        match self.cipher {
            Some(c) => Some(c.read_state()),
            None => None,
        }
    }

    /// The write key, once the handshake has set up the cipher.
    pub open spec fn write_key(&self) -> Option<Seq<u8>> {
        match self.cipher {
            Some(c) => Some(c.write_state()),
            None => None,
        }
    }

    /// A connection that has not shaken hands yet: no cipher.
    pub fn new() -> (s: Self)
        ensures
            s.cipher is None,
            s.state == SessionState::Handshake,
    {
        Self { cipher: None, state: SessionState::Handshake }
    }

    /// The frame that carries `data`: encrypted with the write key when the
    /// cipher is set up (which rolls the write key), then prefixed with its
    /// length.
    pub fn frame_packet(&mut self, data: &[u8]) -> (out: Vec<u8>)
        requires
            old(self).cipher is Some ==> data@.len() >= 4,
            data@.len() + 2 <= usize::MAX,
        ensures
            out@ == framed(old(self).write_key(), data@),
            final(self).write_key() == rolled(old(self).write_key(), data@),
            final(self).read_key() == old(self).read_key(),
            final(self).cipher is Some <==> old(self).cipher is Some,
            final(self).state == old(self).state,
    {
        let mut payload = vstd::slice::slice_to_vec(data);
        match &mut self.cipher {
            Some(cipher) => {
                cipher.encrypt(payload.as_mut_slice());
            },
            None => {},
        }
        let total_len = (payload.len() + 2) as u16;
        let mut out: Vec<u8> = Vec::new();
        out.push(total_len as u8);
        out.push((total_len >> 8u16) as u8);
        let ghost head = out@;
        let n = payload.len();
        let mut i: usize = 0;
        while i < n
            invariant
                i <= n,
                n == payload@.len(),
                out@ == head + payload@.take(i as int),
            decreases n - i,
        {
            out.push(payload[i]);
            i = i + 1;
            assert(out@ =~= head + payload@.take(i as int));
        }
        assert(payload@.take(n as int) =~= payload@);
        assert(out@ =~= framed(old(self).write_key(), data@));
        out
    }

    /// Handles one packet body received from the client: decrypts it when
    /// the cipher is set up (which rolls the read key), and hands its opcode
    /// and the rest to the handler of the current state. Returns the frames
    /// to send back, in order.
    pub fn handle_incoming(&mut self, data: Vec<u8>) -> (out: Vec<Vec<u8>>)
        requires
            old(self).cipher is Some ==> data@.len() >= 4,
        ensures
            ({
                let plain = match old(self).read_key() {
                    Some(k) => decrypt_bytes(k, data@),
                    None => data@,
                };
                &&& final(self).read_key() == rolled(old(self).read_key(), plain)
                &&& final(self).cipher is Some <==> old(self).cipher is Some
                &&& plain.len() == 0 ==> {
                    &&& out@.len() == 0
                    &&& final(self).state == old(self).state
                    &&& final(self).write_key() == old(self).write_key()
                }
                &&& plain.len() > 0 ==> {
                    let (next, pkts) = replies(old(self).state, plain[0]);
                    &&& views(out@) == sent(old(self).write_key(), pkts)
                    &&& final(self).state == next
                    &&& final(self).write_key() == key_after(old(self).write_key(), pkts)
                }
            }),
    {
        let mut data = data;
        match &mut self.cipher {
            Some(cipher) => {
                cipher.decrypt(data.as_mut_slice());
            },
            None => {},
        }
        if data.len() == 0 {
            return Vec::new();
        }
        let opcode = data[0];
        let payload = vstd::slice::slice_subrange(data.as_slice(), 1, data.len());
        match self.state {
            SessionState::Handshake => handle_connected(self, opcode, payload),
            SessionState::VersionVerified => handle_login_process(self, opcode, payload),
            SessionState::Authenticated => handle_authenticated(self, opcode, payload),
            SessionState::InGame => handle_in_game(self, opcode, payload),
        }
    }
}

/// The packet bodies of a list of frames: each frame without its header.
pub open spec fn bodies(frames: Seq<Seq<u8>>) -> Seq<Seq<u8>> {
    frames.map_values(|f: Seq<u8>| f.skip(2))
}

/// Once the cipher is set up, the bodies of the frames of a series of
/// packets are their encryptions, one after another, from the write key.
pub proof fn lemma_sent_bodies(k: Seq<u8>, pkts: Seq<Seq<u8>>)
    ensures
        bodies(sent(Some(k), pkts)) == encrypt_stream(k, pkts),
    decreases pkts.len(),
{
    if pkts.len() > 0 {
        lemma_sent_bodies(roll_key(k, pkts[0]), pkts.drop_first());
        let f = framed(Some(k), pkts[0]);
        assert(f.skip(2) =~= encrypt_bytes(k, pkts[0]));
        assert(bodies(sent(Some(k), pkts)) =~= seq![encrypt_bytes(k, pkts[0])] + bodies(
            sent(Some(roll_key(k, pkts[0])), pkts.drop_first()),
        ));
    }
}

/// A client whose read key equals the session's write key gets back, frame
/// by frame, every packet the session sends: its read key rolls in step
/// with the session's write key.
pub proof fn lemma_client_reads_replies(k: Seq<u8>, pkts: Seq<Seq<u8>>)
    requires
        k.len() == 4,
    ensures
        decrypt_stream(k, bodies(sent(Some(k), pkts))) == pkts,
{
    lemma_sent_bodies(k, pkts);
    lemma_stream_roundtrip(k, pkts);
}

/// A connection never goes back in the login sequence, and goes forward at
/// most one step per packet.
pub proof fn lemma_state_only_advances(state: SessionState, opcode: u8)
    ensures
        rank(state) <= rank(replies(state, opcode).0) <= rank(state) + 1,
{
}

/// The length of the packet body that follows a frame header `head`: the
/// announced length minus the header, when the announced length lies in
/// `2..=MAX_PACKET_LEN`; `None` means the frame is skipped.
pub fn body_length(head: [u8; 2]) -> (r: Option<usize>)
    ensures
        ({
            let len = head@[0] as int + 256 * head@[1] as int;
            &&& (2 <= len <= MAX_PACKET_LEN) ==> r == Some((len - 2) as usize)
            &&& !(2 <= len <= MAX_PACKET_LEN) ==> r is None
        }),
{
    let packet_len: usize = head[0] as usize + 256 * head[1] as usize;
    if packet_len < 2 || packet_len > MAX_PACKET_LEN {
        None
    } else {
        Some(packet_len - 2)
    }
}

} // verus!
