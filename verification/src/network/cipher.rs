//! XOR-based packet cipher of the Lineage 1 (3.80c TW) protocol.
//!
//! Each session owns one `Cipher` with two independent key states: the read
//! key, used to decrypt what the peer sends, and the write key, used to
//! encrypt what is sent to the peer. After every packet the key that was used
//! is rolled forward from the packet's first four plaintext bytes (the top bit
//! of the fourth left out), so that the two ends of a connection, started
//! from the same seed, stay in step.
use vstd::prelude::*;

verus! {

/// Multiplier of the key schedule.
pub const C1: u32 = 0x9c30d539;
/// Increment of the key schedule.
pub const C2: u32 = 0x930fd7e2;
/// First XOR mask of the key schedule.
pub const C3: u32 = 0x7c72e993;
/// Second XOR mask of the key schedule.
pub const C4: u32 = 0x287effc3;

/// The four key bytes that a seed gives: its little-endian bytes.
pub open spec fn seed_bytes(seed: i32) -> Seq<u8> {
    seq![seed as u8, (seed >> 8) as u8, (seed >> 16) as u8, (seed >> 24) as u8]
}

/// The little-endian 32-bit word held by the first four bytes of `b`.
pub open spec fn le_word(b: Seq<u8>) -> u32 {
    (b[0] as u32) | ((b[1] as u32) << 8u32) | ((b[2] as u32) << 16u32) | ((b[3] as u32) << 24u32)
}

/// The little-endian bytes of a 32-bit word.
pub open spec fn word_bytes(w: u32) -> Seq<u8> {
    seq![w as u8, (w >> 8u32) as u8, (w >> 16u32) as u8, (w >> 24u32) as u8]
}

/// The mixing step of the key schedule: `((w * C1) + C2) ^ C3 ^ C4`, modulo 2^32.
pub open spec fn mix(w: u32) -> u32 {
    vstd::wrapping::u32_specs::wrapping_add(vstd::wrapping::u32_specs::wrapping_mul(w, C1), C2) ^ C3
        ^ C4
}

/// The key that follows `key` once a packet whose plaintext starts with
/// `block` has gone through it: the first four plaintext bytes, as a
/// little-endian word with its top bit cleared, are mixed into the key.
pub open spec fn roll_key(key: Seq<u8>, block: Seq<u8>) -> Seq<u8> {
    word_bytes(mix(le_word(key) ^ (le_word(block) & 0x7fff_ffffu32)))
}

/// Byte `i` of the encryption of `plain` under `key`: every byte is XORed
/// with a key byte and with the previous byte of ciphertext.
pub open spec fn enc_byte(key: Seq<u8>, plain: Seq<u8>, i: int) -> u8
    decreases i,
{
    if i <= 0 {
        plain[0] ^ key[0]
    } else {
        plain[i] ^ (enc_byte(key, plain, i - 1) ^ key[i % 4])
    }
}

/// The encryption of `plain` under `key`.
pub open spec fn encrypt_bytes(key: Seq<u8>, plain: Seq<u8>) -> Seq<u8> {
    Seq::new(plain.len(), |i: int| enc_byte(key, plain, i))
}

/// The decryption of `cipher` under `key`.
pub open spec fn decrypt_bytes(key: Seq<u8>, cipher: Seq<u8>) -> Seq<u8> {
    Seq::new(
        cipher.len(),
        |i: int|
            if i == 0 {
                cipher[0] ^ key[0]
            } else {
                cipher[i] ^ (key[i % 4] ^ cipher[i - 1])
            },
    )
}

/// Packet cipher of one session.
pub struct Cipher {
    read_key: [u8; 4],
    write_key: [u8; 4],
}

impl Cipher {
    /// The key that decrypts the next packet received.
    pub closed spec fn read_state(&self) -> Seq<u8> {
        self.read_key@
    }

    /// The key that encrypts the next packet sent.
    pub closed spec fn write_state(&self) -> Seq<u8> {
        self.write_key@
    }

    /// A cipher whose read and write keys both start as the bytes of `seed`.
    pub fn new(seed: i32) -> (c: Self)
        ensures
            c.read_state() == seed_bytes(seed),
            c.write_state() == seed_bytes(seed),
    {
        let key: [u8; 4] = [seed as u8, (seed >> 8) as u8, (seed >> 16) as u8, (seed >> 24) as u8];
        let c = Cipher { read_key: key, write_key: key };
        assert(c.read_key@ =~= seed_bytes(seed));
        c
    }

    /// Decrypts a received packet in place with the read key, then rolls the
    /// read key forward from the recovered plaintext.
    pub fn decrypt(&mut self, data: &mut [u8])
        requires
            old(data)@.len() >= 4,
        ensures
            final(data)@ == decrypt_bytes(old(self).read_state(), old(data)@),
            final(self).read_state() == roll_key(old(self).read_state(), final(data)@),
            final(self).write_state() == old(self).write_state(),
    {
        let ghost key = self.read_key@;
        let ghost cipher = data@;
        let mut prev: u8 = data[0];
        data[0] = data[0] ^ self.read_key[0];
        let n = data.len();
        let mut i: usize = 1;
        while i < n
            invariant
                1 <= i <= n,
                n == data@.len(),
                n == cipher.len(),
                key == self.read_key@,
                key.len() == 4,
                prev == cipher[i - 1],
                forall|j: int| 0 <= j < i ==> data@[j] == #[trigger] decrypt_bytes(key, cipher)[j],
                forall|j: int| i <= j < n ==> data@[j] == cipher[j],
            decreases n - i,
        {
            let cur = data[i];
            data[i] = cur ^ (self.read_key[i % 4] ^ prev);
            prev = cur;
            i = i + 1;
        }
        assert(data@ =~= decrypt_bytes(key, cipher));
        self.update_read_key(data);
    }

    /// Encrypts a packet in place with the write key, then rolls the write
    /// key forward from the packet's plaintext.
    pub fn encrypt(&mut self, data: &mut [u8])
        requires
            old(data)@.len() >= 4,
        ensures
            final(data)@ == encrypt_bytes(old(self).write_state(), old(data)@),
            final(self).write_state() == roll_key(old(self).write_state(), old(data)@),
            final(self).read_state() == old(self).read_state(),
    {
        let ghost key = self.write_key@;
        let ghost plain = data@;
        let head: [u8; 4] = [data[0], data[1], data[2], data[3]];
        data[0] = data[0] ^ self.write_key[0];
        let n = data.len();
        let mut i: usize = 1;
        while i < n
            invariant
                1 <= i <= n,
                n == data@.len(),
                n == plain.len(),
                key == self.write_key@,
                key.len() == 4,
                forall|j: int| 0 <= j < i ==> data@[j] == #[trigger] enc_byte(key, plain, j),
                forall|j: int| i <= j < n ==> data@[j] == plain[j],
            decreases n - i,
        {
            assert(data@[i - 1] == enc_byte(key, plain, i - 1));
            data[i] = data[i] ^ (data[i - 1] ^ self.write_key[i % 4]);
            assert(data@[i as int] == enc_byte(key, plain, i as int));
            i = i + 1;
        }
        assert(data@ =~= encrypt_bytes(key, plain));
        self.update_write_key(&head);
        proof {
            assert(head@.take(4) =~= plain.take(4));
            lemma_roll_reads_first_word(key, head@, plain);
        }
    }

    /// Rolls the read key forward from the first four plaintext bytes of
    /// `data`.
    pub fn update_read_key(&mut self, data: &[u8])
        requires
            data@.len() >= 4,
        ensures
            final(self).read_state() == roll_key(old(self).read_state(), data@),
            final(self).write_state() == old(self).write_state(),
    {
        self.read_key = rolled_key(self.read_key, data[0], data[1], data[2], data[3]);
    }

    /// Rolls the write key forward from the first four plaintext bytes of
    /// `data`, by the same step that rolls the read key.
    pub fn update_write_key(&mut self, data: &[u8])
        requires
            data@.len() >= 4,
        ensures
            final(self).write_state() == roll_key(old(self).write_state(), data@),
            final(self).read_state() == old(self).read_state(),
    {
        self.write_key = rolled_key(self.write_key, data[0], data[1], data[2], data[3]);
    }
}

/// One step of the key schedule over the four plaintext bytes `b0..b3`.
fn rolled_key(key: [u8; 4], b0: u8, b1: u8, b2: u8, b3: u8) -> (r: [u8; 4])
    ensures
        forall|block: Seq<u8>|
            block.len() >= 4 && block[0] == b0 && block[1] == b1 && block[2] == b2 && block[3]
                == b3 ==> r@ == #[trigger] roll_key(key@, block),
{
    let k: u32 = (key[0] as u32) | ((key[1] as u32) << 8u32) | ((key[2] as u32) << 16u32) | ((
    key[3] as u32) << 24u32);
    let t: u32 = ((b0 as u32) | ((b1 as u32) << 8u32) | ((b2 as u32) << 16u32) | ((b3 as u32)
        << 24u32)) & 0x7fff_ffffu32;
    let w: u32 = (k ^ t).wrapping_mul(C1).wrapping_add(C2) ^ C3 ^ C4;
    let r: [u8; 4] = [w as u8, (w >> 8u32) as u8, (w >> 16u32) as u8, (w >> 24u32) as u8];
    assert(r@ =~= word_bytes(w));
    r
}

/// Decryption with a key undoes encryption with the same key.
pub proof fn lemma_decrypt_inverts_encrypt(key: Seq<u8>, plain: Seq<u8>)
    requires
        key.len() == 4,
    ensures
        decrypt_bytes(key, encrypt_bytes(key, plain)) == plain,
{
    let c = encrypt_bytes(key, plain);
    assert forall|i: int| 0 <= i < plain.len() implies #[trigger] decrypt_bytes(key, c)[i]
        == plain[i] by {
        if i == 0 {
            let p = plain[0];
            let k = key[0];
            assert((p ^ k) ^ k == p) by (bit_vector);
        } else {
            let p = plain[i];
            let a = enc_byte(key, plain, i - 1);
            let k = key[i % 4];
            assert((p ^ (a ^ k)) ^ (k ^ a) == p) by (bit_vector);
        }
    }
    assert(decrypt_bytes(key, c) =~= plain);
}

/// The ciphertexts of a series of packets encrypted one after another, the
/// key rolling forward after each of them as `Cipher::encrypt` rolls it.
pub open spec fn encrypt_stream(key: Seq<u8>, packets: Seq<Seq<u8>>) -> Seq<Seq<u8>>
    decreases packets.len(),
{
    if packets.len() == 0 {
        Seq::empty()
    } else {
        seq![encrypt_bytes(key, packets[0])] + encrypt_stream(
            roll_key(key, packets[0]),
            packets.drop_first(),
        )
    }
}

/// The plaintexts of a series of packets decrypted one after another, the
/// key rolling forward after each of them as `Cipher::decrypt` rolls it.
pub open spec fn decrypt_stream(key: Seq<u8>, wire: Seq<Seq<u8>>) -> Seq<Seq<u8>>
    decreases wire.len(),
{
    if wire.len() == 0 {
        Seq::empty()
    } else {
        let plain = decrypt_bytes(key, wire[0]);
        seq![plain] + decrypt_stream(roll_key(key, plain), wire.drop_first())
    }
}

/// A receiver whose read key equals the sender's write key recovers every
/// packet of a series, in order: the two keys roll forward in step.
pub proof fn lemma_stream_roundtrip(key: Seq<u8>, packets: Seq<Seq<u8>>)
    requires
        key.len() == 4,
    ensures
        decrypt_stream(key, encrypt_stream(key, packets)) == packets,
    decreases packets.len(),
{
    if packets.len() > 0 {
        let wire = encrypt_stream(key, packets);
        lemma_decrypt_inverts_encrypt(key, packets[0]);
        let next = roll_key(key, packets[0]);
        assert(next.len() == 4);
        lemma_stream_roundtrip(next, packets.drop_first());
        assert(wire[0] == encrypt_bytes(key, packets[0]));
        assert(wire.drop_first() =~= encrypt_stream(next, packets.drop_first()));
        assert(decrypt_stream(key, wire) =~= seq![packets[0]] + packets.drop_first());
        assert(seq![packets[0]] + packets.drop_first() =~= packets);
    }
}

/// Both keys of a cipher are four bytes long.
pub proof fn lemma_keys_four_bytes(c: Cipher)
    ensures
        c.read_state().len() == 4,
        c.write_state().len() == 4,
{
}

/// The little-endian word of four bytes is their positional value, and
/// without its top bit it drops the top bit of the fourth byte.
proof fn lemma_word_value(b: Seq<u8>)
    requires
        b.len() >= 4,
    ensures
        le_word(b) as int == b[0] + 256 * b[1] + 65536 * b[2] + 16777216 * b[3],
        (le_word(b) & 0x7fff_ffffu32) as int == b[0] + 256 * b[1] + 65536 * b[2] + 16777216 * (b[3]
            % 128),
{
    let (b0, b1, b2, b3) = (b[0], b[1], b[2], b[3]);
    assert((b0 as u32) | ((b1 as u32) << 8u32) | ((b2 as u32) << 16u32) | ((b3 as u32) << 24u32)
        == (b0 as u32) + 256 * (b1 as u32) + 65536 * (b2 as u32) + 16777216 * (b3 as u32))
        by (bit_vector);
    assert(((b0 as u32) | ((b1 as u32) << 8u32) | ((b2 as u32) << 16u32) | ((b3 as u32) << 24u32))
        & 0x7fff_ffffu32 == (b0 as u32) + 256 * (b1 as u32) + 65536 * (b2 as u32) + 16777216 * ((
    b3 as u32) % 128)) by (bit_vector);
}

/// The mixing step is multiply-then-add modulo 2^32, then the two masks.
proof fn lemma_mix_value(v: u32)
    ensures
        mix(v) == (((v as int * 0x9c30d539int + 0x930fd7e2int) % 0x1_0000_0000int) as u32)
            ^ 0x7c72e993u32 ^ 0x287effc3u32,
{
    let m: int = 0x1_0000_0000;
    let p: int = v as int * 0x9c30d539int;
    let c: int = 0x930fd7e2int;
    let wm = vstd::wrapping::u32_specs::wrapping_mul(v, C1);
    let wa = vstd::wrapping::u32_specs::wrapping_add(wm, C2);
    assert(wm as int == p % m);
    vstd::arithmetic::div_mod::lemma_add_mod_noop(p, c, m);
    vstd::arithmetic::div_mod::lemma_small_mod(c as nat, m as nat);
    if wm + c >= m {
        vstd::arithmetic::div_mod::lemma_small_mod((wm + c - m) as nat, m as nat);
        vstd::arithmetic::div_mod::lemma_mod_add_multiples_vanish(wm + c - m, m);
        assert((wm + c) % m == wm + c - m);
    } else {
        vstd::arithmetic::div_mod::lemma_small_mod((wm + c) as nat, m as nat);
    }
    assert(wa as int == (p + c) % m);
}

/// The little-endian bytes of a word are its base-256 digits.
proof fn lemma_bytes_value(w: u32)
    ensures
        word_bytes(w) == seq![
            (w % 256) as u8,
            ((w / 256) % 256) as u8,
            ((w / 65536) % 256) as u8,
            (w / 16777216) as u8,
        ],
{
    assert(w as u8 == (w % 256) as u8 && (w >> 8u32) as u8 == ((w / 256) % 256) as u8 && (w
        >> 16u32) as u8 == ((w / 65536) % 256) as u8 && (w >> 24u32) as u8 == (w / 16777216) as u8)
        by (bit_vector);
}

/// The key schedule, by value: with the key `k` and the plaintext's first
/// four bytes `b` read as little-endian numbers, and `b` without its top
/// bit, the next key is the little-endian bytes of
/// `((k ^ b) * 0x9c30d539 + 0x930fd7e2) mod 2^32`, XORed with `0x7c72e993`
/// and with `0x287effc3`.
pub proof fn lemma_key_schedule(key: Seq<u8>, block: Seq<u8>)
    requires
        key.len() == 4,
        block.len() >= 4,
    ensures
        ({
            let k: int = key[0] + 256 * key[1] + 65536 * key[2] + 16777216 * key[3];
            let b: int = block[0] + 256 * block[1] + 65536 * block[2] + 16777216 * (block[3] % 128);
            let v: u32 = (k as u32) ^ (b as u32);
            let w: u32 = (((v as int * 0x9c30d539int + 0x930fd7e2int) % 0x1_0000_0000int) as u32)
                ^ 0x7c72e993u32 ^ 0x287effc3u32;
            roll_key(key, block) == seq![
                (w % 256) as u8,
                ((w / 256) % 256) as u8,
                ((w / 65536) % 256) as u8,
                (w / 16777216) as u8,
            ]
        }),
{
    lemma_word_value(key);
    lemma_word_value(block);
    let v = le_word(key) ^ (le_word(block) & 0x7fff_ffffu32);
    lemma_mix_value(v);
    lemma_bytes_value(mix(v));
}

/// A key roll reads only the first four bytes of the plaintext: two packets
/// that start alike roll a key alike.
pub proof fn lemma_roll_reads_first_word(key: Seq<u8>, a: Seq<u8>, b: Seq<u8>)
    requires
        a.len() >= 4,
        b.len() >= 4,
        a.take(4) == b.take(4),
    ensures
        roll_key(key, a) == roll_key(key, b),
{
    assert(a[0] == a.take(4)[0] && a[1] == a.take(4)[1] && a[2] == a.take(4)[2] && a[3] == a.take(
        4,
    )[3]);
    assert(b[0] == b.take(4)[0] && b[1] == b.take(4)[1] && b[2] == b.take(4)[2] && b[3] == b.take(
        4,
    )[3]);
}

/// Two ciphers whose sending and receiving keys agree stay in sync over one
/// packet: what `e.encrypt` makes of `p`, `d.decrypt` turns back into `p`,
/// and the write key that `e.encrypt` leaves equals the read key that
/// `d.decrypt` leaves, so the next packet again meets agreeing keys.
pub proof fn lemma_cipher_pair_in_sync(e: Cipher, d: Cipher, p: Seq<u8>)
    requires
        e.write_state() == d.read_state(),
    ensures
        decrypt_bytes(d.read_state(), encrypt_bytes(e.write_state(), p)) == p,
        roll_key(d.read_state(), decrypt_bytes(d.read_state(), encrypt_bytes(e.write_state(), p)))
            == roll_key(e.write_state(), p),
{
    lemma_decrypt_inverts_encrypt(e.write_state(), p);
}

/// Two ciphers made from the same seed, one sending and one receiving, stay
/// in sync over any number of packets: the receiver recovers each packet
/// of the series in order.
pub proof fn lemma_cipher_series_in_sync(e: Cipher, d: Cipher, packets: Seq<Seq<u8>>)
    requires
        e.write_state() == d.read_state(),
    ensures
        decrypt_stream(d.read_state(), encrypt_stream(e.write_state(), packets)) == packets,
{
    lemma_stream_roundtrip(e.write_state(), packets);
}

} // verus!
