use synkmusic_rpc::frame::{
    decode_reply, encode_frame, reply_payload_len, FrameError, MAX_REPLY_LEN, OP_CLOSE,
    OP_FRAME, OP_HANDSHAKE,
};

#[test]
fn opcodes_are_discord_ones() {
    assert_eq!(OP_HANDSHAKE, 0);
    assert_eq!(OP_FRAME, 1);
    assert_eq!(OP_CLOSE, 2);
    assert_eq!(MAX_REPLY_LEN, 64 * 1024);
}

#[test]
fn encode_frame_layout() {
    let f = encode_frame(1, b"{}");
    assert_eq!(f, vec![1, 0, 0, 0, 2, 0, 0, 0, b'{', b'}']);
}

#[test]
fn encode_frame_little_endian_fields() {
    let payload = vec![b'a'; 0x0102];
    let f = encode_frame(0x0A0B0C0D, &payload);
    assert_eq!(&f[0..8], &[0x0D, 0x0C, 0x0B, 0x0A, 0x02, 0x01, 0, 0]);
    assert_eq!(&f[8..], &payload[..]);
}

#[test]
fn frame_header_reads_back() {
    let payload = br#"{"cmd":"DISPATCH"}"#;
    let f = encode_frame(OP_FRAME, payload);
    let mut header = [0u8; 8];
    header.copy_from_slice(&f[0..8]);
    match reply_payload_len(&header) {
        Ok(n) => assert_eq!(n, payload.len()),
        Err(_) => panic!("header rejected"),
    }
}

#[test]
fn reply_length_limit() {
    let at_limit = [0, 0, 0, 0, 0x00, 0x00, 0x01, 0x00];
    match reply_payload_len(&at_limit) {
        Ok(n) => assert_eq!(n, 65536),
        Err(_) => panic!("65536 bytes must be accepted"),
    }
    let over = [0, 0, 0, 0, 0x01, 0x00, 0x01, 0x00];
    match reply_payload_len(&over) {
        Err(FrameError::TooLarge(n)) => assert_eq!(n, 65537),
        _ => panic!("65537 bytes must be refused"),
    }
    let huge = [1, 2, 3, 4, 0xff, 0xff, 0xff, 0xff];
    match reply_payload_len(&huge) {
        Err(FrameError::TooLarge(n)) => assert_eq!(n, u32::MAX as usize),
        _ => panic!("must be refused"),
    }
}

#[test]
fn decode_reply_accepts_json() {
    let v = decode_reply(br#" {"evt":"READY","data":{"v":1}} "#);
    match v {
        Ok(value) => assert_eq!(value["evt"], "READY"),
        Err(_) => panic!("valid JSON refused"),
    }
    assert!(decode_reply(b"null").is_ok());
}

#[test]
fn decode_reply_refuses_non_json() {
    assert!(matches!(decode_reply(b"{\"evt\":"), Err(FrameError::InvalidJson(_))));
    assert!(matches!(decode_reply(b""), Err(FrameError::InvalidJson(_))));
    assert!(matches!(decode_reply(b"{} {}"), Err(FrameError::InvalidJson(_))));
}
