use l1j_rust::network::cipher::Cipher;

#[test]
fn test_cipher_init_deterministic() {
    let _c1 = Cipher::new(0x12345678);
    let _c2 = Cipher::new(0x12345678);
}

#[test]
fn test_encrypt_decrypt_roundtrip() {
    // Server encrypts, client decrypts using same key
    let mut server_cipher = Cipher::new(0xDEADBEEFu32 as i32);
    let mut client_cipher = Cipher::new(0xDEADBEEFu32 as i32);

    let original = b"Hello, Lineage!".to_vec();

    // Pad to 4-byte alignment
    let mut data = original.clone();
    while data.len() % 4 != 0 {
        data.push(0);
    }

    let plaintext_copy = data.clone();

    // Server encrypts
    server_cipher.encrypt(&mut data);
    assert_ne!(
        data, plaintext_copy,
        "Encrypted data should differ from plaintext"
    );

    // Client decrypts (same initial key state)
    client_cipher.decrypt(&mut data);
    assert_eq!(data, plaintext_copy, "Decrypted data should match original");
}

#[test]
fn test_multiple_packets_stay_in_sync() {
    let mut server = Cipher::new(0xCAFEBABEu32 as i32);
    let mut client = Cipher::new(0xCAFEBABEu32 as i32);

    for i in 0..10 {
        let mut data = vec![i as u8; 8 + (i * 4)]; // Varying sizes, 4-byte aligned
        let original = data.clone();

        server.encrypt(&mut data);
        client.decrypt(&mut data);

        assert_eq!(data, original, "Packet {} roundtrip failed", i);
    }
}

#[test]
fn test_minimum_4_byte_packet() {
    let mut enc = Cipher::new(0x11111111);
    let mut dec = Cipher::new(0x11111111);

    let mut data = vec![0xAA, 0xBB, 0xCC, 0xDD];
    let original = data.clone();

    enc.encrypt(&mut data);
    dec.decrypt(&mut data);
    assert_eq!(data, original);
}

#[test]
fn test_key_diverges_without_sync() {
    let mut enc = Cipher::new(0x99999999u32 as i32);
    let mut dec = Cipher::new(0x99999999u32 as i32);

    // Encrypt two packets on server side
    let mut pkt1 = vec![1, 2, 3, 4, 5, 6, 7, 8];
    let mut pkt2 = vec![10, 20, 30, 40];

    enc.encrypt(&mut pkt1);
    enc.encrypt(&mut pkt2);

    // Client only decrypts first packet
    dec.decrypt(&mut pkt1);
    // Decrypting pkt2 now works because keys are in sync
    let pkt2_orig = vec![10, 20, 30, 40];
    dec.decrypt(&mut pkt2);
    assert_eq!(pkt2, pkt2_orig, "Sequential decrypt should stay in sync");
}

#[test]
fn first_encrypted_byte_is_xored_with_seed_low_byte() {
    // Seed 0x11223344: write key bytes 44 33 22 11.
    let mut enc = Cipher::new(0x11223344);
    let mut data = vec![0x00, 0x00, 0x00, 0x00, 0x00];
    enc.encrypt(&mut data);
    // c0 = 0 ^ 44, c1 = 0 ^ c0 ^ 33, c2 = c1 ^ 22, c3 = c2 ^ 11, c4 = c3 ^ 44
    assert_eq!(data, vec![0x44, 0x77, 0x55, 0x44, 0x00]);
}

#[test]
fn high_bit_in_fourth_byte_keeps_peers_in_sync() {
    let mut server = Cipher::new(0x0BADF00D);
    let mut client = Cipher::new(0x0BADF00D);
    for round in 0..5u8 {
        let mut data = vec![0xFF, 0x80 | round, 0xFE, 0x80, 0x01, 0x02, 0x03, 0x04];
        let original = data.clone();
        server.encrypt(&mut data);
        client.decrypt(&mut data);
        assert_eq!(data, original);
    }
}

#[test]
fn key_rolls_after_each_packet() {
    let mut a = Cipher::new(7);
    let mut first = vec![1, 2, 3, 4];
    let mut second = vec![1, 2, 3, 4];
    a.encrypt(&mut first);
    a.encrypt(&mut second);
    assert_ne!(first, second);
}

#[test]
fn top_bit_of_fourth_byte_does_not_move_the_key() {
    // Two packets that differ only in the top bit of their fourth byte roll
    // the key alike: the next packet encrypts the same under both.
    let mut a = Cipher::new(0x01020304);
    let mut b = Cipher::new(0x01020304);
    let mut p = vec![1, 2, 3, 0x04, 9, 9, 9, 9];
    let mut q = vec![1, 2, 3, 0x84, 9, 9, 9, 9];
    a.encrypt(&mut p);
    b.encrypt(&mut q);
    let mut next_a = vec![5, 6, 7, 8];
    let mut next_b = vec![5, 6, 7, 8];
    a.encrypt(&mut next_a);
    b.encrypt(&mut next_b);
    assert_eq!(next_a, next_b);
    // A change below the top bit does move it.
    let mut c = Cipher::new(0x01020304);
    let mut r = vec![1, 2, 3, 0x05, 9, 9, 9, 9];
    c.encrypt(&mut r);
    let mut next_c = vec![5, 6, 7, 8];
    c.encrypt(&mut next_c);
    assert_ne!(next_a, next_c);
}

#[test]
fn read_and_write_key_steps_agree() {
    let mut sender = Cipher::new(0x55AA1234);
    let mut receiver = Cipher::new(0x55AA1234);
    let block = [0x10, 0x20, 0x30, 0xC0, 0x99];
    sender.update_write_key(&block);
    receiver.update_read_key(&block);
    let mut p = vec![1, 2, 3, 4, 5, 6, 7, 8];
    let original = p.clone();
    sender.encrypt(&mut p);
    receiver.decrypt(&mut p);
    assert_eq!(p, original);
    // The read-key step left the write key alone: a cipher still on the
    // seed's write key encrypts differently from the rolled sender.
    let mut fresh = Cipher::new(0x55AA1234);
    let mut q = vec![1, 2, 3, 4];
    let mut r = vec![1, 2, 3, 4];
    fresh.encrypt(&mut q);
    receiver.encrypt(&mut r);
    assert_eq!(q, r);
}
