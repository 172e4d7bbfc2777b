use ws_server::{apply_mask, echo, Frame, FrameError, Opcode};

fn masked(opcode: Opcode, payload: Vec<u8>, key: [u8; 4]) -> Frame {
    Frame {
        fin: true,
        rsv1: false,
        rsv2: false,
        rsv3: false,
        opcode,
        mask: true,
        payload_len: payload.len(),
        masking_key: Some(key),
        payload,
    }
}

fn assert_same(a: &Frame, b: &Frame) {
    assert_eq!(a.fin, b.fin);
    assert_eq!(a.rsv1, b.rsv1);
    assert_eq!(a.rsv2, b.rsv2);
    assert_eq!(a.rsv3, b.rsv3);
    assert_eq!(a.opcode, b.opcode);
    assert_eq!(a.mask, b.mask);
    assert_eq!(a.payload_len, b.payload_len);
    assert_eq!(a.masking_key, b.masking_key);
    assert_eq!(a.payload, b.payload);
}

#[test]
fn round_trip_unmasked_frames() {
    for len in [0usize, 1, 125, 126, 65535, 65536] {
        let payload: Vec<u8> = (0..len).map(|i| (i % 251) as u8).collect();
        let f = Frame::new(Opcode::Binary, Some(payload));
        let bytes = f.clone().to_bytes();
        let back = Frame::from_bytes(&bytes).unwrap();
        assert_same(&f, &back);
    }
}

#[test]
fn round_trip_masked_frames_with_flags() {
    for len in [0usize, 3, 125, 126, 70000] {
        let payload: Vec<u8> = (0..len).map(|i| (i % 7) as u8).collect();
        let mut f = masked(Opcode::Text, payload, [0xde, 0xad, 0xbe, 0xef]);
        f.fin = false;
        f.rsv2 = true;
        let bytes = f.clone().to_bytes();
        let back = Frame::from_bytes(&bytes).unwrap();
        assert_same(&f, &back);
    }
}

#[test]
fn length_field_widths_at_boundaries() {
    let cases: [(usize, u8, usize); 4] = [(125, 125, 2), (126, 126, 4), (65535, 126, 4), (65536, 127, 10)];
    for (len, selector, header) in cases {
        let bytes = Frame::new(Opcode::Binary, Some(vec![0u8; len])).to_bytes();
        assert_eq!(bytes[0], 0x82);
        assert_eq!(bytes[1], selector);
        assert_eq!(bytes.len(), header + len);
    }
    let b = Frame::new(Opcode::Binary, Some(vec![0u8; 65535])).to_bytes();
    assert_eq!(&b[..4], &[0x82, 126, 0xff, 0xff]);
    let b = Frame::new(Opcode::Binary, Some(vec![0u8; 65536])).to_bytes();
    assert_eq!(&b[..10], &[0x82, 127, 0, 0, 0, 0, 0, 1, 0, 0]);
}

#[test]
fn masking_example_and_its_inverse() {
    let key = [0x01, 0x02, 0x03, 0x04];
    let m = apply_mask(&[0x10, 0x20], key);
    assert_eq!(m, vec![0x11, 0x22]);
    assert_eq!(apply_mask(&m, key), vec![0x10, 0x20]);
}

#[test]
fn masked_frame_wire_bytes() {
    let f = masked(Opcode::Text, vec![0x10, 0x20], [0x01, 0x02, 0x03, 0x04]);
    assert_eq!(f.to_bytes(), vec![0x81, 0x82, 0x01, 0x02, 0x03, 0x04, 0x11, 0x22]);
}

#[test]
fn opcode_mapping_is_total_and_distinct() {
    let all = [
        (Opcode::Continuation, 0x0u8),
        (Opcode::Text, 0x1),
        (Opcode::Binary, 0x2),
        (Opcode::Close, 0x8),
        (Opcode::Ping, 0x9),
        (Opcode::Pong, 0xA),
    ];
    for (op, v) in all {
        assert_eq!(u8::from(op), v);
        assert_eq!(op.value(), v);
        assert_eq!(Opcode::from_nibble(v), Ok(op));
    }
    for n in [3u8, 4, 5, 6, 7, 0xB, 0xC, 0xD, 0xE, 0xF] {
        assert_eq!(Opcode::from_nibble(n), Err(FrameError::InvalidOpcode(n)));
    }
}

#[test]
fn reserved_opcode_is_rejected() {
    assert_eq!(
        Frame::from_bytes(&[0x83, 0x00]).unwrap_err(),
        FrameError::InvalidOpcode(3)
    );
}

#[test]
fn truncated_buffers_are_rejected() {
    assert_eq!(Frame::from_bytes(&[]).unwrap_err(), FrameError::Truncated);
    assert_eq!(Frame::from_bytes(&[0x81]).unwrap_err(), FrameError::Truncated);
    assert_eq!(Frame::from_bytes(&[0x81, 0x05, b'a']).unwrap_err(), FrameError::Truncated);
    assert_eq!(Frame::from_bytes(&[0x81, 126, 0x01]).unwrap_err(), FrameError::Truncated);
    assert_eq!(Frame::from_bytes(&[0x81, 0x81, 1, 2, 3]).unwrap_err(), FrameError::Truncated);
}

#[test]
fn decode_ignores_trailing_bytes() {
    let f = Frame::from_bytes(&[0x81, 0x02, b'h', b'i', 0, 0, 0]).unwrap();
    assert_eq!(f.opcode, Opcode::Text);
    assert_eq!(f.payload, b"hi".to_vec());
    assert!(!f.mask);
    assert_eq!(f.masking_key, None);
}

#[test]
fn new_frame_defaults() {
    let f = Frame::new(Opcode::Close, None);
    assert!(f.fin && !f.rsv1 && !f.rsv2 && !f.rsv3 && !f.mask);
    assert_eq!(f.payload_len, 0);
    assert!(f.payload.is_empty());
    assert_eq!(f.to_bytes(), vec![0x88, 0x00]);
}

#[test]
fn echo_appends_marker() {
    assert_eq!(echo(b"hello"), b"hello (echoed)".to_vec());
    assert_eq!(echo(b""), b" (echoed)".to_vec());
}
