use beammp_client::framing::{
    decode_frame, decode_header, encode_frame, encode_header, frame_len_within, FrameError,
    MAX_FRAME_LEN,
};

#[test]
fn header_is_little_endian() {
    assert_eq!(encode_header(5), [5, 0, 0, 0]);
    assert_eq!(encode_header(0x0403_0201), [1, 2, 3, 4]);
    assert_eq!(decode_header([1, 2, 3, 4]), 0x0403_0201);
    assert_eq!(decode_header([0xff, 0xff, 0xff, 0xff]), u32::MAX);
}

#[test]
fn frame_of_version_token() {
    assert_eq!(encode_frame(b"VC2.0"), vec![5, 0, 0, 0, b'V', b'C', b'2', b'.', b'0']);
}

#[test]
fn frame_round_trip() {
    let payloads: Vec<Vec<u8>> = vec![vec![], vec![0], b"hello".to_vec(), (0..=255u8).collect()];
    for p in payloads {
        let mut wire = encode_frame(&p);
        wire.extend_from_slice(b"rest");
        let (back, used) = decode_frame(&wire).unwrap();
        assert_eq!(back, p);
        assert_eq!(used, p.len() + 4);
    }
}

#[test]
fn large_frame_round_trip() {
    let p: Vec<u8> = (0..70000u32).map(|i| (i % 251) as u8).collect();
    let wire = encode_frame(&p);
    assert_eq!(&wire[..4], &[0x70, 0x11, 0x01, 0x00]);
    assert_eq!(decode_frame(&wire).unwrap(), (p, 70004));
}

#[test]
fn frame_truncated_anywhere_fails() {
    let wire = encode_frame(b"abc");
    for k in 0..wire.len() {
        assert_eq!(decode_frame(&wire[..k]), Err(FrameError::Truncated));
    }
}

#[test]
fn claimed_length_beyond_buffer_fails() {
    assert_eq!(decode_frame(&[10, 0, 0, 0, 1, 2, 3]), Err(FrameError::Truncated));
    assert_eq!(decode_frame(&[]), Err(FrameError::Truncated));
}

#[test]
fn empty_frame_decodes() {
    assert_eq!(decode_frame(&[0, 0, 0, 0]), Ok((vec![], 4)));
}

#[test]
fn length_limit() {
    assert_eq!(frame_len_within([3, 0, 0, 0], 3), Ok(3));
    assert_eq!(frame_len_within([4, 0, 0, 0], 3), Err(FrameError::TooLarge));
    assert_eq!(frame_len_within([0, 0, 0, 1], MAX_FRAME_LEN), Ok(16777216));
    assert_eq!(frame_len_within([1, 0, 0, 1], MAX_FRAME_LEN), Err(FrameError::TooLarge));
}
