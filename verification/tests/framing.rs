use appflow::framing::{decode_frame, encode_frame};

#[test]
fn frame_prefixes_the_length_big_endian() {
    let frame = encode_frame(&vec![1u8, 2, 3]);
    assert_eq!(frame, vec![0u8, 0, 0, 3, 1, 2, 3]);

    let empty = encode_frame(&Vec::new());
    assert_eq!(empty, vec![0u8, 0, 0, 0]);

    let long = encode_frame(&vec![7u8; 300]);
    assert_eq!(&long[..4], &[0u8, 0, 1, 44]);
    assert_eq!(long.len(), 304);
}

#[test]
fn decode_returns_the_payload_and_consumed_count() {
    let frame = encode_frame(&vec![9u8, 8, 7, 6]);
    let (payload, consumed) = decode_frame(&frame).unwrap();
    assert_eq!(payload, vec![9u8, 8, 7, 6]);
    assert_eq!(consumed, 8);
}

#[test]
fn decode_leaves_trailing_bytes_for_the_next_frame() {
    let mut stream = encode_frame(&vec![1u8, 2]);
    let mut second = encode_frame(&vec![3u8]);
    stream.append(&mut second);

    let (payload, consumed) = decode_frame(&stream).unwrap();
    assert_eq!(payload, vec![1u8, 2]);
    assert_eq!(consumed, 6);

    let rest: Vec<u8> = stream[consumed..].to_vec();
    let (payload2, consumed2) = decode_frame(&rest).unwrap();
    assert_eq!(payload2, vec![3u8]);
    assert_eq!(consumed2, 5);
}

#[test]
fn decode_waits_for_a_complete_frame() {
    assert!(decode_frame(&Vec::new()).is_none());
    assert!(decode_frame(&vec![0u8, 0]).is_none());
    // Header promises five payload bytes; only one has arrived.
    assert!(decode_frame(&vec![0u8, 0, 0, 5, 1]).is_none());
}

#[test]
fn empty_payload_round_trips() {
    let frame = encode_frame(&Vec::new());
    let (payload, consumed) = decode_frame(&frame).unwrap();
    assert_eq!(payload, Vec::<u8>::new());
    assert_eq!(consumed, 4);
}
