use rustor::codec::{
    deserialize_next, deserialize_tor_message, serialize_next, serialize_tor_message,
};
use rustor::error::TorError;
use rustor::length_prefixed_io::{encode_frame, frame_len, take_frame};
use rustor::node_io::node_write_bytes;
use rustor::tor_message::{Addr, Next, TorMessage};

#[test]
fn not_for_you_wire_bytes_are_exact() {
    let m = TorMessage::NotForYou { data: vec![0xaa, 0xbb] };
    let bytes = serialize_tor_message(&m);
    assert_eq!(
        bytes,
        vec![0, 0, 0, 0, 2, 0, 0, 0, 0, 0, 0, 0, 0xaa, 0xbb]
    );
    assert_eq!(deserialize_tor_message(&bytes).unwrap(), m);
}

#[test]
fn next_node_wire_bytes_are_exact() {
    let m = TorMessage::NextNode { next_encrypted: vec![9] };
    let bytes = serialize_tor_message(&m);
    assert_eq!(bytes, vec![1, 0, 0, 0, 1, 0, 0, 0, 0, 0, 0, 0, 9]);
    assert_eq!(deserialize_tor_message(&bytes).unwrap(), m);
}

#[test]
fn handshake_wire_bytes_are_exact() {
    let pk = [7u8; 32];
    let m = TorMessage::HandShake(pk);
    let bytes = serialize_tor_message(&m);
    assert_eq!(bytes.len(), 36);
    assert_eq!(&bytes[0..4], &[2, 0, 0, 0]);
    assert_eq!(&bytes[4..], &[7u8; 32]);
    assert_eq!(deserialize_tor_message(&bytes).unwrap(), m);
}

#[test]
fn next_wire_bytes_are_exact() {
    let n = Next::Node(Addr::V4 { ip: [1, 2, 3, 4], port: 0x1234 });
    let bytes = serialize_next(&n);
    assert_eq!(bytes, vec![0, 0, 0, 0, 0, 0, 0, 0, 1, 2, 3, 4, 0x34, 0x12]);
    assert_eq!(deserialize_next(&bytes).unwrap(), n);

    let s = Next::Server(Addr::V6 { ip: [9u8; 16], port: 80 });
    let bytes = serialize_next(&s);
    assert_eq!(bytes[0..4], [1, 0, 0, 0]);
    assert_eq!(bytes[4..8], [1, 0, 0, 0]);
    assert_eq!(bytes.len(), 4 + 4 + 16 + 2);
    assert_eq!(deserialize_next(&bytes).unwrap(), s);
}

#[test]
fn decode_rejects_malformed_input() {
    // Too short for a tag.
    assert_eq!(deserialize_tor_message(&[1, 0]), Err(TorError::DecodeError));
    // Unknown tag.
    assert_eq!(
        deserialize_tor_message(&[9, 0, 0, 0, 0, 0, 0, 0, 0, 0, 0, 0]),
        Err(TorError::DecodeError)
    );
    // Length field does not match the payload.
    assert_eq!(
        deserialize_tor_message(&[0, 0, 0, 0, 5, 0, 0, 0, 0, 0, 0, 0, 1]),
        Err(TorError::DecodeError)
    );
    // Trailing bytes after a handshake.
    let mut hs = serialize_tor_message(&TorMessage::HandShake([0u8; 32]));
    hs.push(0);
    assert_eq!(deserialize_tor_message(&hs), Err(TorError::DecodeError));
    // A successor with a bad variant.
    assert_eq!(
        deserialize_next(&[2, 0, 0, 0, 0, 0, 0, 0, 1, 2, 3, 4, 0, 0]),
        Err(TorError::DecodeError)
    );
}

#[test]
fn frames_round_trip() {
    let framed = encode_frame(&[1, 2, 3]).unwrap();
    assert_eq!(framed, vec![3, 0, 0, 0, 1, 2, 3]);
    assert_eq!(frame_len(&framed), 3);

    let (payload, consumed) = take_frame(&framed).unwrap();
    assert_eq!(payload, vec![1, 2, 3]);
    assert_eq!(consumed, 7);

    // A frame followed by more bytes: only the frame is consumed.
    let mut stream = framed.clone();
    stream.extend_from_slice(&[0xff, 0xee]);
    let (payload, consumed) = take_frame(&stream).unwrap();
    assert_eq!(payload, vec![1, 2, 3]);
    assert_eq!(consumed, 7);

    // Incomplete header, incomplete payload.
    assert!(take_frame(&[3, 0]).is_none());
    assert!(take_frame(&[3, 0, 0, 0, 1]).is_none());
}

#[test]
fn node_write_bytes_is_one_framed_message() {
    let m = TorMessage::NotForYou { data: vec![5, 6] };
    let bytes = node_write_bytes(&m).unwrap();
    let (payload, consumed) = take_frame(&bytes).unwrap();
    assert_eq!(consumed, bytes.len());
    assert_eq!(deserialize_tor_message(&payload).unwrap(), m);
}
