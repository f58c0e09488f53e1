use liveview::codec::{
    encode_keepalive, encode_latency_stats, parse_error, parse_frame, Frame, FrameParse,
    FRAME_TYPE_KEEPALIVE, FRAME_TYPE_LATENCY, FRAME_TYPE_VIDEO, MAX_FRAME_PAYLOAD,
};
use liveview::LiveError;

#[test]
fn keepalive_wire_bytes() {
    let bytes = encode_keepalive(0x01020304);
    assert_eq!(bytes, vec![0x0A, 1, 2, 3, 4, 0, 0, 0, 0]);
}

#[test]
fn keepalive_round_trip() {
    let bytes = encode_keepalive(7);
    match parse_frame(&bytes) {
        FrameParse::Done { frame: Frame { tag, payload } } => {
            assert_eq!(tag, FRAME_TYPE_KEEPALIVE);
            assert!(payload.is_empty());
        }
        _ => panic!("keepalive bytes must parse as a complete frame"),
    }
    // The sequence field reads back as encoded.
    assert_eq!(&bytes[1..5], &[0, 0, 0, 7]);
}

#[test]
fn latency_stats_wire_bytes() {
    let bytes = encode_latency_stats();
    assert_eq!(bytes.len(), 33);
    assert_eq!(bytes[0], FRAME_TYPE_LATENCY);
    assert_eq!(&bytes[1..5], &[0, 0, 0x03, 0xE8]); // sequence 1000
    assert_eq!(&bytes[5..9], &[0, 0, 0, 24]);
    assert!(bytes[9..].iter().all(|b| *b == 0));
}

#[test]
fn latency_stats_round_trip() {
    match parse_frame(&encode_latency_stats()) {
        FrameParse::Done { frame } => {
            assert_eq!(frame.tag, FRAME_TYPE_LATENCY);
            assert_eq!(frame.payload, vec![0u8; 24]);
        }
        _ => panic!("latency stats bytes must parse as a complete frame"),
    }
}

#[test]
fn oversized_header_rejected_from_header_alone() {
    // Header claims MAX_FRAME_PAYLOAD + 1 bytes; only the 9 header
    // bytes exist, and the parse must reject without wanting more.
    let over = MAX_FRAME_PAYLOAD + 1;
    let mut header = vec![FRAME_TYPE_VIDEO, 0, 0, 0, 0];
    header.extend_from_slice(&over.to_be_bytes());
    let parsed = parse_frame(&header);
    assert!(matches!(parsed, FrameParse::TooLarge));
    assert_eq!(parse_error(&parsed), Some(LiveError::FrameTooLarge));
}

#[test]
fn payload_at_bound_is_accepted() {
    let mut header = vec![FRAME_TYPE_VIDEO, 0, 0, 0, 0];
    header.extend_from_slice(&MAX_FRAME_PAYLOAD.to_be_bytes());
    match parse_frame(&header) {
        FrameParse::NeedMore { total } => {
            assert_eq!(total, 9 + MAX_FRAME_PAYLOAD as usize);
        }
        _ => panic!("a 1 MiB payload is within the bound"),
    }
}

#[test]
fn short_buffer_needs_header() {
    match parse_frame(&[0x12, 0, 0]) {
        FrameParse::NeedMore { total } => assert_eq!(total, 9),
        _ => panic!("three bytes are less than a header"),
    }
}

#[test]
fn video_frame_parses_whole_payload() {
    let mut bytes = vec![FRAME_TYPE_VIDEO, 0, 0, 0, 0, 0, 0, 0, 3];
    bytes.extend_from_slice(&[0x47, 0xAB, 0xCD]);
    match parse_frame(&bytes) {
        FrameParse::Done { frame } => {
            assert_eq!(frame.tag, FRAME_TYPE_VIDEO);
            assert_eq!(frame.payload, vec![0x47, 0xAB, 0xCD]);
        }
        _ => panic!("a complete frame must parse"),
    }
}

#[test]
fn empty_payload_parses_empty() {
    let bytes = vec![FRAME_TYPE_VIDEO, 0, 0, 0, 9, 0, 0, 0, 0];
    match parse_frame(&bytes) {
        FrameParse::Done { frame } => assert!(frame.payload.is_empty()),
        _ => panic!("zero length means an empty payload"),
    }
}
