use cluster_runtime::network::messages::{Message, PROTOCOL_VERSION};
use cluster_runtime::network::transport::{
    encode_frame, frame_length, FrameDecoder, FrameError, FrameStep, TransportConfig,
    DEFAULT_MAX_MESSAGE_SIZE,
};

fn frame_of(step: FrameStep) -> Vec<u8> {
    match step {
        FrameStep::Frame(v) => v,
        other => panic!("expected a frame, got {:?}", other),
    }
}

#[test]
fn transport_config_defaults() {
    let c = TransportConfig::default();
    assert_eq!(c.connection_timeout_secs, 10);
    assert_eq!(c.read_timeout_secs, 30);
    assert_eq!(c.write_timeout_secs, 10);
    assert_eq!(c.max_message_size, 10 * 1024 * 1024);
    assert_eq!(DEFAULT_MAX_MESSAGE_SIZE, 10 * 1024 * 1024);
}

#[test]
fn frame_has_big_endian_length_prefix() {
    let framed = encode_frame(&[7, 8, 9], 100).unwrap();
    assert_eq!(framed, vec![0, 0, 0, 3, 7, 8, 9]);
    let payload = vec![0u8; 300];
    let framed = encode_frame(&payload, 1000).unwrap();
    assert_eq!(&framed[..4], &[0, 0, 1, 44]);
    assert_eq!(framed.len(), 304);
}

#[test]
fn empty_payload_frames_to_zero_header() {
    assert_eq!(encode_frame(&[], 0).unwrap(), vec![0, 0, 0, 0]);
}

#[test]
fn oversized_payload_is_refused() {
    let r = encode_frame(&[1, 2, 3, 4, 5], 4);
    assert_eq!(r, Err(FrameError::TooLarge { len: 5, max: 4 }));
    assert!(encode_frame(&[1, 2, 3, 4], 4).is_ok());
}

#[test]
fn header_length_reads_big_endian() {
    assert_eq!(frame_length(&[0, 0, 0, 3]), 3);
    assert_eq!(frame_length(&[1, 2, 3, 4, 99]), 0x01020304);
    assert_eq!(frame_length(&[255, 255, 255, 255]), u32::MAX);
}

#[test]
fn decoder_gives_back_framed_payloads_in_order() {
    let mut bytes = encode_frame(b"first", 64).unwrap();
    bytes.extend(encode_frame(b"second message", 64).unwrap());
    let mut d = FrameDecoder::new();
    // Arrives in two uneven pieces.
    d.feed(&bytes[..3]);
    assert!(matches!(d.next_frame(64), FrameStep::Incomplete));
    d.feed(&bytes[3..12]);
    assert_eq!(frame_of(d.next_frame(64)), b"first".to_vec());
    assert!(matches!(d.next_frame(64), FrameStep::Incomplete));
    d.feed(&bytes[12..]);
    assert_eq!(frame_of(d.next_frame(64)), b"second message".to_vec());
    assert!(matches!(d.next_frame(64), FrameStep::Incomplete));
}

#[test]
fn decoder_refuses_oversized_header() {
    let mut d = FrameDecoder::new();
    d.feed(&[0, 0, 1, 0, 1, 2]);
    match d.next_frame(255) {
        FrameStep::TooLarge(n) => assert_eq!(n, 256),
        other => panic!("expected TooLarge, got {:?}", other),
    }
    // The header is gone; the two bytes after it start the next header.
    assert!(matches!(d.next_frame(255), FrameStep::Incomplete));
    d.feed(&[0, 0]);
    match d.next_frame(255) {
        FrameStep::TooLarge(n) => assert_eq!(n, 0x0102_0000),
        other => panic!("expected TooLarge, got {:?}", other),
    }
}

#[test]
fn message_type_names_each_variant() {
    let hello = Message::hello("n1".into(), "node".into(), "key".into());
    assert_eq!(hello.message_type(), "Hello");
    match &hello {
        Message::Hello(h) => {
            assert_eq!(h.node_id, "n1");
            assert_eq!(h.node_name, "node");
            assert_eq!(h.public_key, "key");
            assert_eq!(h.protocol_version, PROTOCOL_VERSION);
        }
        _ => panic!("expected Hello"),
    }
    let ping = Message::ping("test-node".into());
    assert_eq!(ping.message_type(), "Ping");
    let pong = Message::pong("server-node".into(), 42);
    assert_eq!(pong.message_type(), "Pong");
    match pong {
        Message::Pong(p) => {
            assert_eq!(p.node_id, "server-node");
            assert_eq!(p.original_timestamp, 42);
        }
        _ => panic!("expected Pong"),
    }
    let hb = Message::heartbeat("n".into(), 0.5f32.to_bits(), 1, 2, 3, 4, "ok".into());
    assert_eq!(hb.message_type(), "Heartbeat");
}
