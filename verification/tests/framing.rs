use stream_bench::framing::{
    decode, decode_stream, encode, length_prefix, peek, prefix_value, sentinel, Decoded, Frame,
    FrameError, StreamTotals, PREFIX_LEN,
};

#[test]
fn prefix_is_eight_bytes_big_endian() {
    assert_eq!(PREFIX_LEN, 8);
    assert_eq!(length_prefix(1024), [0, 0, 0, 0, 0, 0, 4, 0]);
    assert_eq!(length_prefix(0), [0u8; 8]);
    assert_eq!(length_prefix(0x0102_0304_0506_0708), [1, 2, 3, 4, 5, 6, 7, 8]);
    assert_eq!(length_prefix(u64::MAX), [0xff; 8]);
}

#[test]
fn prefix_agrees_with_std() {
    for n in [0u64, 1, 255, 256, 65535, 1 << 20, 1 << 32, u64::MAX - 1, u64::MAX] {
        assert_eq!(length_prefix(n), n.to_be_bytes());
        assert_eq!(prefix_value(&n.to_be_bytes()), n);
    }
}

#[test]
fn prefix_value_reads_only_the_front() {
    assert_eq!(prefix_value(&[0, 0, 0, 0, 0, 0, 4, 0, 9, 9, 9]), 1024);
    assert_eq!(prefix_value(&[1, 2, 3, 4, 5, 6, 7, 8]), 0x0102_0304_0506_0708);
}

#[test]
fn encode_puts_length_before_payload() {
    let frame = encode(&[10, 20, 30], 16).unwrap();
    assert_eq!(frame, vec![0, 0, 0, 0, 0, 0, 0, 3, 10, 20, 30]);
}

#[test]
fn encode_accepts_a_full_bucket() {
    let payload = vec![7u8; 16];
    let frame = encode(&payload, 16).unwrap();
    assert_eq!(frame.len(), 24);
    assert_eq!(&frame[..8], &[0, 0, 0, 0, 0, 0, 0, 16]);
    assert_eq!(&frame[8..], &payload[..]);
}

#[test]
fn encode_refuses_empty_payload() {
    assert_eq!(encode(&[], 16), Err(FrameError::EmptyPayload));
    assert_eq!(encode(&[], 0), Err(FrameError::EmptyPayload));
}

#[test]
fn encode_refuses_oversized_payload() {
    assert_eq!(encode(&[1, 2, 3], 2), Err(FrameError::Oversized));
    assert_eq!(encode(&[1], 0), Err(FrameError::Oversized));
}

#[test]
fn sentinel_is_a_zero_prefix() {
    assert_eq!(sentinel(), vec![0u8; 8]);
}

#[test]
fn decode_gives_back_what_encode_took() {
    for len in [1usize, 2, 7, 8, 9, 100, 1024] {
        let payload: Vec<u8> = (0..len).map(|i| (i % 251) as u8).collect();
        let wire = encode(&payload, 1024).unwrap();
        let decoded = decode(&wire, 1024).unwrap();
        assert_eq!(decoded, Decoded { frame: Frame::Payload(payload), consumed: 8 + len });
    }
}

#[test]
fn decode_leaves_following_bytes_alone() {
    let mut wire = encode(&[1, 2, 3], 8).unwrap();
    wire.extend_from_slice(&[0xaa, 0xbb]);
    let decoded = decode(&wire, 8).unwrap();
    assert_eq!(decoded.frame, Frame::Payload(vec![1, 2, 3]));
    assert_eq!(decoded.consumed, 11);
}

#[test]
fn decode_of_sentinel_is_end_of_stream_and_takes_no_payload() {
    let mut wire = sentinel();
    wire.extend_from_slice(&[5, 5, 5, 5]);
    let decoded = decode(&wire, 1024).unwrap();
    assert_eq!(decoded, Decoded { frame: Frame::EndOfStream, consumed: 8 });
    assert_eq!(decode(&sentinel(), 0).unwrap().frame, Frame::EndOfStream);
}

#[test]
fn decode_reports_a_truncated_prefix() {
    assert_eq!(decode(&[], 8), Err(FrameError::TruncatedPrefix));
    assert_eq!(decode(&[0, 0, 0, 0, 0, 0, 0], 8), Err(FrameError::TruncatedPrefix));
}

#[test]
fn decode_reports_a_truncated_payload() {
    assert_eq!(decode(&[0, 0, 0, 0, 0, 0, 0, 3, 1, 2], 8), Err(FrameError::TruncatedPayload));
    assert_eq!(decode(&[0, 0, 0, 0, 0, 0, 0, 1], 8), Err(FrameError::TruncatedPayload));
}

#[test]
fn decode_refuses_a_frame_above_the_bucket() {
    assert_eq!(decode(&[0, 0, 0, 0, 0, 0, 0, 9, 1, 2], 8), Err(FrameError::Oversized));
    assert_eq!(decode(&[0xff; 8], usize::MAX - 1), Err(FrameError::Oversized));
}

#[test]
fn peek_gives_the_payload_length() {
    assert_eq!(peek(&[0, 0, 0, 0, 0, 0, 0, 2, 1, 2, 3], 8), Ok(2));
    assert_eq!(peek(&[0; 8], 8), Ok(0));
    assert_eq!(peek(&[0; 3], 8), Err(FrameError::TruncatedPrefix));
    assert_eq!(peek(&[0, 0, 0, 0, 0, 0, 0, 2, 1], 8), Err(FrameError::TruncatedPayload));
    assert_eq!(peek(&[0, 0, 0, 0, 0, 0, 0, 9, 1], 8), Err(FrameError::Oversized));
}

#[test]
fn decode_stream_counts_frames_up_to_the_sentinel() {
    let mut wire = Vec::new();
    wire.extend(encode(&[1, 2, 3], 4).unwrap());
    wire.extend(encode(&[4], 4).unwrap());
    wire.extend(encode(&[5, 6, 7, 8], 4).unwrap());
    wire.extend(sentinel());
    let len = wire.len();
    wire.extend_from_slice(&[9, 9, 9]);
    assert_eq!(
        decode_stream(&wire, 4),
        Ok(StreamTotals { frames: 3, bytes: 8, consumed: len, sentinel: true })
    );
}

#[test]
fn decode_stream_of_nothing_is_an_orderly_end() {
    assert_eq!(
        decode_stream(&[], 4),
        Ok(StreamTotals { frames: 0, bytes: 0, consumed: 0, sentinel: false })
    );
    let wire = encode(&[1, 2], 4).unwrap();
    assert_eq!(
        decode_stream(&wire, 4),
        Ok(StreamTotals { frames: 1, bytes: 2, consumed: 10, sentinel: false })
    );
}

#[test]
fn decode_stream_reports_a_cut_inside_a_frame() {
    let mut wire = encode(&[1, 2], 4).unwrap();
    wire.extend_from_slice(&[0, 0, 0]);
    assert_eq!(decode_stream(&wire, 4), Err(FrameError::TruncatedPrefix));
    let mut wire = encode(&[1, 2], 4).unwrap();
    wire.extend_from_slice(&[0, 0, 0, 0, 0, 0, 0, 2, 1]);
    assert_eq!(decode_stream(&wire, 4), Err(FrameError::TruncatedPayload));
    let mut wire = encode(&[1, 2], 4).unwrap();
    wire.extend_from_slice(&[0, 0, 0, 0, 0, 0, 0, 5, 1, 2, 3, 4, 5]);
    assert_eq!(decode_stream(&wire, 4), Err(FrameError::Oversized));
}

#[test]
fn sender_stream_reads_back_as_repeat_times_bucket() {
    let bucket = vec![0u8; 32];
    let repeat = 10usize;
    let mut wire = Vec::new();
    for _ in 0..repeat {
        wire.extend(encode(&bucket, 32).unwrap());
    }
    wire.extend(sentinel());
    let totals = decode_stream(&wire, 64).unwrap();
    assert_eq!(totals.frames, 10);
    assert_eq!(totals.bytes, 320);
    assert_eq!(totals.consumed, 10 * 40 + 8);
    assert!(totals.sentinel);
}
