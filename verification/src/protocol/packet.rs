//! Byte layout of server packets: an opcode followed by little-endian
//! fields, zero-padded to a multiple of four bytes.
use vstd::prelude::*;
use vstd::utf8::encode_utf8;

verus! {

/// A field written by `write_c`: the low byte of `v`.
pub open spec fn c8(v: i32) -> Seq<u8> {
    seq![v as u8]
}

/// A field written by `write_h`: the two low bytes of `v`, little-endian.
pub open spec fn h16(v: i32) -> Seq<u8> {
    seq![v as u8, (v >> 8) as u8]
}

/// A field written by `write_d`: the four bytes of `v`, little-endian.
pub open spec fn d32(v: i32) -> Seq<u8> {
    seq![v as u8, (v >> 8) as u8, (v >> 16) as u8, (v >> 24) as u8]
}

/// A field written by `write_s`: the string's bytes and a terminating zero;
/// an absent string is the zero alone.
pub open spec fn s_bytes(s: Option<Seq<u8>>) -> Seq<u8> {
    match s {
        Some(b) => b.push(0u8),
        None => seq![0u8],
    }
}

/// `b` followed by as many zero bytes as bring its length to a multiple of four.
pub open spec fn pad4(b: Seq<u8>) -> Seq<u8> {
    b + Seq::new(((4 - b.len() % 4) % 4) as nat, |i: int| 0u8)
}

/// A finished packet is the written bytes followed by fewer than four zero
/// bytes, and its length is a multiple of four.
pub proof fn lemma_pad4_aligned(b: Seq<u8>)
    ensures
        pad4(b).len() % 4 == 0,
        pad4(b).len() < b.len() + 4,
        pad4(b).take(b.len() as int) == b,
        forall|i: int| b.len() <= i < pad4(b).len() ==> #[trigger] pad4(b)[i] == 0u8,
{
    assert(pad4(b).take(b.len() as int) =~= b);
}

/// Assembles one server packet.
pub struct PacketBuilder {
    buf: Vec<u8>,
}

impl PacketBuilder {
    /// The bytes written so far.
    pub closed spec fn bytes(&self) -> Seq<u8> {
        self.buf@
    }

    /// A packet that starts with `opcode`.
    pub fn new(opcode: u8) -> (b: Self)
        ensures
            b.bytes() == seq![opcode],
    {
        let mut buf: Vec<u8> = Vec::new();
        buf.push(opcode);
        let b = PacketBuilder { buf };
        assert(b.bytes() =~= seq![opcode]);
        b
    }

    /// Appends one byte.
    pub fn write_c(self, v: i32) -> (b: Self)
        ensures
            b.bytes() == self.bytes() + c8(v),
    {
        let mut buf = self.buf;
        buf.push(v as u8);
        let b = PacketBuilder { buf };
        assert(b.bytes() =~= self.bytes() + c8(v));
        b
    }

    /// Appends a 16-bit little-endian value.
    pub fn write_h(self, v: i32) -> (b: Self)
        ensures
            b.bytes() == self.bytes() + h16(v),
    {
        let mut buf = self.buf;
        buf.push(v as u8);
        buf.push((v >> 8) as u8);
        let b = PacketBuilder { buf };
        assert(b.bytes() =~= self.bytes() + h16(v));
        b
    }

    /// Appends a 32-bit little-endian value.
    pub fn write_d(self, v: i32) -> (b: Self)
        ensures
            b.bytes() == self.bytes() + d32(v),
    {
        let mut buf = self.buf;
        buf.push(v as u8);
        buf.push((v >> 8) as u8);
        buf.push((v >> 16) as u8);
        buf.push((v >> 24) as u8);
        let b = PacketBuilder { buf };
        assert(b.bytes() =~= self.bytes() + d32(v));
        b
    }

    /// Appends a zero-terminated string; `None` appends the terminator alone.
    pub fn write_s(self, s: Option<&str>) -> (b: Self)
        ensures
            b.bytes() == self.bytes() + s_bytes(
                match s {
                    Some(t) => Some(encode_utf8(t@)),
                    None => None,
                },
            ),
    {
        let mut buf = self.buf;
        let ghost start = buf@;
        match s {
            Some(t) => {
                let bytes = t.as_bytes();
                let n = bytes.len();
                let mut i: usize = 0;
                while i < n
                    invariant
                        i <= n,
                        n == bytes@.len(),
                        buf@ == start + bytes@.take(i as int),
                    decreases n - i,
                {
                    buf.push(bytes[i]);
                    i = i + 1;
                    assert(buf@ =~= start + bytes@.take(i as int));
                }
                assert(bytes@.take(n as int) =~= bytes@);
            },
            None => {},
        }
        buf.push(0u8);
        let b = PacketBuilder { buf };
        assert(b.bytes() =~= self.bytes() + s_bytes(
            match s {
                Some(t) => Some(encode_utf8(t@)),
                None => None,
            },
        ));
        b
    }

    /// The finished packet, zero-padded to a multiple of four bytes.
    pub fn build(self) -> (out: Vec<u8>)
        ensures
            out@ == pad4(self.bytes()),
    {
        let mut buf = self.buf;
        let ghost start = buf@;
        let pad: usize = (4 - buf.len() % 4) % 4;
        let mut i: usize = 0;
        while i < pad
            invariant
                i <= pad,
                pad == (4 - start.len() % 4) % 4,
                buf@ == start + Seq::new(i as nat, |j: int| 0u8),
            decreases pad - i,
        {
            buf.push(0u8);
            i = i + 1;
            assert(buf@ =~= start + Seq::new(i as nat, |j: int| 0u8));
        }
        buf
    }
}

} // verus!
