use mpc_lanes::error::TransportError;
use mpc_lanes::wire::{decode_frame, decode_handshake, encode_frame, encode_handshake, frame_length, Handshake, StreamRole};

fn round_trip(len: usize) {
    let payload: Vec<u8> = (0..len).map(|i| (i * 7 + 3) as u8).collect();
    let framed = encode_frame(&payload);
    assert_eq!(framed.len(), 4 + len);
    assert_eq!(frame_length(&framed), Ok(len));
    let (back, used) = decode_frame(&framed).unwrap();
    assert_eq!(back, payload);
    assert_eq!(used, 4 + len);
}

#[test]
fn frame_round_trip_empty() {
    round_trip(0);
}

#[test]
fn frame_round_trip_one_byte() {
    round_trip(1);
}

#[test]
fn frame_round_trip_one_mebibyte() {
    round_trip(1 << 20);
}

#[test]
fn frame_prefix_is_big_endian() {
    let framed = encode_frame(&[9u8; 258]);
    assert_eq!(&framed[..4], &[0, 0, 1, 2]);
    assert_eq!(framed[4], 9);
}

#[test]
fn frame_followed_by_more_bytes() {
    let mut bytes = encode_frame(&[1, 2, 3]);
    bytes.extend_from_slice(&[0xff, 0xee]);
    assert_eq!(decode_frame(&bytes), Ok((vec![1, 2, 3], 7)));
}

#[test]
fn short_frames_are_rejected() {
    assert_eq!(decode_frame(&[0, 0, 0]), Err(TransportError::ShortRead));
    assert_eq!(decode_frame(&[0, 0, 0, 2, 5]), Err(TransportError::ShortRead));
    assert_eq!(frame_length(&[1, 2]), Err(TransportError::ShortRead));
}

#[test]
fn handshake_bytes_plain() {
    let h = Handshake { lane: 3, origin: 0x0102, role: None };
    let b = encode_handshake(&h);
    assert_eq!(b, vec![0, 0, 0, 0, 0, 0, 0, 3, 0, 0, 0, 0, 0, 0, 1, 2]);
    assert_eq!(decode_handshake(&b, false), Ok(h));
}

#[test]
fn handshake_with_role_round_trip() {
    for role in [StreamRole::LowToHigh, StreamRole::HighToLow] {
        let h = Handshake { lane: u64::MAX, origin: 7, role: Some(role) };
        let b = encode_handshake(&h);
        assert_eq!(b.len(), 17);
        assert_eq!(decode_handshake(&b, true), Ok(h));
    }
    let h = Handshake { lane: 1, origin: 2, role: Some(StreamRole::HighToLow) };
    assert_eq!(encode_handshake(&h)[16], 1);
}

#[test]
fn handshake_errors() {
    assert_eq!(decode_handshake(&[0; 15], false), Err(TransportError::ShortRead));
    assert_eq!(decode_handshake(&[0; 16], true), Err(TransportError::ShortRead));
    let mut b = vec![0u8; 16];
    b.push(2);
    assert_eq!(decode_handshake(&b, true), Err(TransportError::HandshakeFailed));
}
