use ws_server::{
    on_input, respond, Action, ConnectionState, Frame, FrameError, HandshakeError, Opcode,
    SessionError, ECHO_DELAY_SECS,
};

fn client_frame(opcode: Opcode, payload: &[u8]) -> Vec<u8> {
    Frame {
        fin: true,
        rsv1: false,
        rsv2: false,
        rsv3: false,
        opcode,
        mask: true,
        payload_len: payload.len(),
        masking_key: Some([0x37, 0xfa, 0x21, 0x3d]),
        payload: payload.to_vec(),
    }
    .to_bytes()
}

#[test]
fn text_frame_is_echoed_twice() {
    let step = on_input(ConnectionState::Open, &client_frame(Opcode::Text, b"hello")).unwrap();
    let reply = Frame::new(Opcode::Text, Some(b"hello (echoed)".to_vec())).to_bytes();
    let mut expected = vec![0x81u8, 14];
    expected.extend_from_slice(b"hello (echoed)");
    assert_eq!(reply, expected);
    assert_eq!(step.next, ConnectionState::Open);
    assert_eq!(
        step.actions,
        vec![Action::Send(reply.clone()), Action::Pause(ECHO_DELAY_SECS), Action::Send(reply)]
    );
    assert_eq!(ECHO_DELAY_SECS, 3);
}

#[test]
fn close_frame_ends_session() {
    let step = on_input(ConnectionState::Open, &client_frame(Opcode::Close, b"")).unwrap();
    assert_eq!(step.next, ConnectionState::Closed);
    assert_eq!(step.actions, vec![Action::Send(vec![0x88, 0x00])]);
    let after = on_input(ConnectionState::Closed, &client_frame(Opcode::Text, b"more")).unwrap();
    assert_eq!(after.next, ConnectionState::Closed);
    assert!(after.actions.is_empty());
}

#[test]
fn ping_is_answered_by_pong() {
    let step = on_input(ConnectionState::Open, &client_frame(Opcode::Ping, b"abc")).unwrap();
    assert_eq!(step.next, ConnectionState::Open);
    assert_eq!(step.actions, vec![Action::Send(vec![0x8A, 0x03, b'a', b'b', b'c'])]);
}

#[test]
fn pong_is_ignored() {
    let step = on_input(ConnectionState::Open, &client_frame(Opcode::Pong, b"x")).unwrap();
    assert_eq!(step.next, ConnectionState::Open);
    assert!(step.actions.is_empty());
}

#[test]
fn unhandled_frame_types_are_errors() {
    assert_eq!(
        on_input(ConnectionState::Open, &client_frame(Opcode::Binary, b"x")).unwrap_err(),
        SessionError::UnsupportedOpcode(Opcode::Binary)
    );
    assert_eq!(
        respond(Frame::new(Opcode::Continuation, None)).unwrap_err(),
        SessionError::UnsupportedOpcode(Opcode::Continuation)
    );
}

#[test]
fn malformed_opcode_ends_session() {
    assert_eq!(
        on_input(ConnectionState::Open, &[0x83, 0x80, 0, 0, 0, 0]).unwrap_err(),
        SessionError::Frame(FrameError::InvalidOpcode(3))
    );
}

#[test]
fn handshake_opens_session() {
    let req = b"GET / HTTP/1.1\r\nSec-WebSocket-Key: dGhlIHNhbXBsZSBub25jZQ==\r\n\r\n";
    let step = on_input(ConnectionState::AwaitingHandshake, req).unwrap();
    assert_eq!(step.next, ConnectionState::Open);
    assert_eq!(
        step.actions,
        vec![Action::Send(
            b"HTTP/1.1 101 OK\r\nUpgrade: websocket\r\nConnection: Upgrade\r\nSec-WebSocket-Accept: s3pPLMBiTxaQ9kYGzzhZRbK+xOo=\r\n\r\n".to_vec()
        )]
    );
    assert_eq!(
        on_input(ConnectionState::AwaitingHandshake, b"GET / HTTP/1.1\r\n\r\n").unwrap_err(),
        SessionError::Handshake(HandshakeError::MissingKey)
    );
}
