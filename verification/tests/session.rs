use l1j_rust::network::cipher::Cipher;
use l1j_rust::network::session::handlers::{
    handle_authenticated, handle_connected, handle_in_game, handle_login_process, send_handshake,
};
use l1j_rust::network::session::{body_length, Session, SessionState};

fn body(frame: &[u8]) -> Vec<u8> {
    let len = frame[0] as usize + 256 * frame[1] as usize;
    assert_eq!(len, frame.len());
    frame[2..].to_vec()
}

#[test]
fn handshake_is_sent_in_the_clear() {
    let mut s = Session::new();
    let frame = send_handshake(&mut s);
    assert_eq!(
        frame,
        vec![18, 0, 0x33, 0x78, 0x56, 0x34, 0x12, 1, 0, 0, 0, 0, 0, 0, 0, 0, 0, 0]
    );
    assert!(s.cipher.is_some());
    assert_eq!(s.state, SessionState::Handshake);
}

#[test]
fn login_sequence() {
    let mut server = Session::new();
    send_handshake(&mut server);
    let mut client = Cipher::new(0x12345678);

    // Version check.
    let mut pkt = vec![0x9D, 1, 2, 3];
    client.encrypt(&mut pkt);
    let mut client_rx = Cipher::new(0x12345678);
    let mut client_tx = client;
    let out = server.handle_incoming(pkt);
    assert_eq!(server.state, SessionState::VersionVerified);
    assert_eq!(out.len(), 1);
    let mut b = body(&out[0]);
    client_rx.decrypt(&mut b);
    assert_eq!(b, vec![0x8C, 0, 0xFF, 0xFF, 0xFF, 0xFF, 0x91, 0x37, 0x21, 0x52, 0, 0]);

    // Anything else during this state is ignored.
    let mut other = vec![0x55, 0, 0, 0];
    client_tx.encrypt(&mut other);
    assert!(server.handle_incoming(other).is_empty());
    assert_eq!(server.state, SessionState::VersionVerified);

    // Login.
    let mut login = vec![0x07, b'a', b'b', 0, 0, 0, 0, 0];
    client_tx.encrypt(&mut login);
    let out = server.handle_incoming(login);
    assert_eq!(server.state, SessionState::Authenticated);
    assert_eq!(out.len(), 3);
    let expected = [vec![0x27, 0, 0, 0], vec![0x1B, 0, 8, 0], vec![184, 0, 0, 0]];
    for (frame, want) in out.iter().zip(expected.iter()) {
        let mut b = body(frame);
        client_rx.decrypt(&mut b);
        assert_eq!(&b, want);
    }

    // Authenticated: nothing answered.
    let mut more = vec![0x07, 0, 0, 0];
    client_tx.encrypt(&mut more);
    assert!(server.handle_incoming(more).is_empty());
    assert_eq!(server.state, SessionState::Authenticated);
}

#[test]
fn plain_session_frames_without_cipher() {
    let mut s = Session::new();
    assert_eq!(s.frame_packet(&[1, 2, 3]), vec![5, 0, 1, 2, 3]);
    assert!(s.handle_incoming(vec![]).is_empty());
    assert_eq!(s.handle_incoming(vec![0x9D]).len(), 1);
    assert_eq!(s.state, SessionState::VersionVerified);
}

#[test]
fn body_length_bounds() {
    assert_eq!(body_length([1, 0]), None);
    assert_eq!(body_length([2, 0]), Some(0));
    assert_eq!(body_length([0x00, 0x08]), Some(2046));
    assert_eq!(body_length([0x01, 0x08]), None);
}

#[test]
fn handlers_answer_in_any_state() {
    // The login handler answers a login whatever the state.
    let mut s = Session::new();
    let out = handle_login_process(&mut s, 0x07, &[]);
    assert_eq!(out.len(), 3);
    assert_eq!(body(&out[0]), vec![0x27, 0, 0, 0]);
    assert_eq!(s.state, SessionState::Authenticated);
    // The version handler answers a version check from the game state too.
    s.state = SessionState::InGame;
    let out = handle_connected(&mut s, 0x9D, &[]);
    assert_eq!(out.len(), 1);
    assert_eq!(s.state, SessionState::VersionVerified);
    // Other opcodes leave the session alone.
    assert!(handle_connected(&mut s, 0x07, &[]).is_empty());
    assert!(handle_login_process(&mut s, 0x9D, &[]).is_empty());
    assert_eq!(s.state, SessionState::VersionVerified);
    assert!(handle_authenticated(&mut s, 0x07, &[]).is_empty());
    assert!(handle_in_game(&mut s, 0x9D, &[]).is_empty());
    assert_eq!(s.state, SessionState::VersionVerified);
}
