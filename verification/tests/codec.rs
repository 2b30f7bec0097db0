use turn_relay::addr::PeerAddr;
use turn_relay::attrs::{get_attr, get_error_code, get_lifetime, get_xor_peer_address,
    make_bytes_attr, make_channel_number_attr, make_u32_attr, make_xor_addr_attr,
    parse_xor_addr};
use turn_relay::auth::{check_fingerprint, check_integrity, encode_with_auth,
    encode_with_fingerprint, fingerprint_value, validate_message};
use turn_relay::chandata::{decode_channel_data, encode_channel_data, is_channel_data,
    is_stun_message};
use turn_relay::errors::TurnError;
use turn_relay::stun::{decode_message, encode_message, msg_class, msg_method, msg_type, RawAttr,
    StunMessage, ATTR_DATA, ATTR_ERROR_CODE, ATTR_FINGERPRINT, ATTR_LIFETIME,
    ATTR_MESSAGE_INTEGRITY, ATTR_NONCE, ATTR_REALM, ATTR_USERNAME, ATTR_XOR_PEER_ADDRESS,
    CLASS_ERROR_RESPONSE, CLASS_INDICATION, CLASS_REQUEST, CLASS_SUCCESS_RESPONSE,
    METHOD_CHANNEL_BIND, METHOD_CREATE_PERMISSION, METHOD_REFRESH, METHOD_SEND};

fn tid12() -> Vec<u8> {
    vec![1, 2, 3, 4, 5, 6, 7, 8, 9, 10, 11, 12]
}

#[test]
fn test_channel_data_exact_bytes() {
    let frame = encode_channel_data(0x4000, b"world");
    assert_eq!(frame, vec![0x40, 0x00, 0x00, 0x05, 0x77, 0x6f, 0x72, 0x6c, 0x64, 0x00, 0x00,
        0x00]);
}

#[test]
fn test_channel_data_empty_payload() {
    let frame = encode_channel_data(0x7FFF, b"");
    assert_eq!(frame, vec![0x7F, 0xFF, 0x00, 0x00]);
    let (num, payload) = decode_channel_data(&frame).unwrap();
    assert_eq!(num, 0x7FFF);
    assert!(payload.is_empty());
}

#[test]
fn test_stun_message_without_attributes() {
    let m = StunMessage { typ: 0x0008, tid: tid12(), attrs: vec![] };
    let bytes = encode_message(&m);
    assert_eq!(bytes.len(), 20);
    assert_eq!(&bytes[..2], &[0x00, 0x08]);
    assert_eq!(&bytes[2..4], &[0x00, 0x00]);
    assert_eq!(&bytes[4..8], &[0x21, 0x12, 0xA4, 0x42]);
    let d = decode_message(&bytes).unwrap();
    assert!(d.attrs.is_empty());
}

#[test]
fn test_channel_data_roundtrip() {
    let frame = encode_channel_data(0x4123, &[9, 8, 7, 6, 5, 4, 3, 2]);
    let (num, payload) = decode_channel_data(&frame).unwrap();
    assert_eq!(num, 0x4123);
    assert_eq!(payload, vec![9, 8, 7, 6, 5, 4, 3, 2]);
}

#[test]
fn test_channel_data_rejects() {
    // channel number out of range
    assert_eq!(decode_channel_data(&[0x3f, 0x00, 0x00, 0x00]), Err(TurnError::Format));
    // truncated
    assert_eq!(decode_channel_data(&[0x40, 0x00, 0x00]), Err(TurnError::Format));
    // declared length disagrees with the buffer
    assert_eq!(decode_channel_data(&[0x40, 0x00, 0x00, 0x05, 1, 2, 3, 4, 5]),
        Err(TurnError::Format));
    // nonzero padding
    assert_eq!(decode_channel_data(&[0x40, 0x00, 0x00, 0x01, 1, 0, 0, 0xff]),
        Err(TurnError::Format));
}

#[test]
fn test_demux_discriminator() {
    assert!(is_channel_data(&[0x40, 0, 0, 0]));
    assert!(is_channel_data(&[0x7f]));
    assert!(!is_channel_data(&[0x80]));
    assert!(!is_channel_data(&[0x00, 1]));
    assert!(is_stun_message(&[0x00, 1]));
    assert!(!is_stun_message(&[0x40]));
    assert!(!is_stun_message(&[]));
}

#[test]
fn test_message_types() {
    assert_eq!(msg_type(METHOD_CREATE_PERMISSION, CLASS_REQUEST), 0x0008);
    assert_eq!(msg_type(METHOD_SEND, CLASS_INDICATION), 0x0016);
    assert_eq!(msg_type(METHOD_REFRESH, CLASS_REQUEST), 0x0004);
    assert_eq!(msg_type(METHOD_CHANNEL_BIND, CLASS_SUCCESS_RESPONSE), 0x0109);
    let t = msg_type(METHOD_CREATE_PERMISSION, CLASS_ERROR_RESPONSE);
    assert_eq!(t, 0x0118);
    assert_eq!(msg_class(t), CLASS_ERROR_RESPONSE);
    assert_eq!(msg_method(t), METHOD_CREATE_PERMISSION);
}

#[test]
fn test_stun_roundtrip() {
    let m = StunMessage {
        typ: msg_type(METHOD_SEND, CLASS_INDICATION),
        tid: tid12(),
        attrs: vec![
            RawAttr { typ: ATTR_DATA, value: vec![1, 2, 3] },
            RawAttr { typ: ATTR_NONCE, value: vec![b'n'; 9] },
        ],
    };
    let bytes = encode_message(&m);
    // 20-byte header, data attr (4 + 3 + 1 pad), nonce attr (4 + 9 + 3 pad)
    assert_eq!(bytes.len(), 20 + 8 + 16);
    let d = decode_message(&bytes).unwrap();
    assert_eq!(d.typ, m.typ);
    assert_eq!(d.tid, m.tid);
    assert_eq!(d.attrs.len(), 2);
    assert_eq!(d.attrs[0].typ, ATTR_DATA);
    assert_eq!(d.attrs[0].value, vec![1, 2, 3]);
    assert_eq!(d.attrs[1].typ, ATTR_NONCE);
    // encode(decode(bytes)) gives back the same bytes
    assert_eq!(encode_message(&d), bytes);
}

#[test]
fn test_stun_decode_rejects() {
    // too short
    assert_eq!(decode_message(&[0u8; 19]).err(), Some(TurnError::Format));
    // high bits of the type set
    let mut buf = vec![0u8; 20];
    buf[0] = 0x40;
    buf[4] = 0x21;
    buf[5] = 0x12;
    buf[6] = 0xa4;
    buf[7] = 0x42;
    assert_eq!(decode_message(&buf).err(), Some(TurnError::Format));
    // bad magic cookie
    let m = StunMessage { typ: 0x0008, tid: tid12(), attrs: vec![] };
    let mut bytes = encode_message(&m);
    bytes[4] ^= 0xff;
    assert_eq!(decode_message(&bytes).err(), Some(TurnError::Format));
    // declared length disagrees with the buffer
    let mut bytes = encode_message(&m);
    bytes[3] = 8;
    assert_eq!(decode_message(&bytes).err(), Some(TurnError::Format));
    // nonzero attribute padding
    let m2 = StunMessage {
        typ: 0x0008,
        tid: tid12(),
        attrs: vec![RawAttr { typ: ATTR_DATA, value: vec![7] }],
    };
    let mut bytes = encode_message(&m2);
    let n = bytes.len();
    bytes[n - 1] = 0xaa;
    assert_eq!(decode_message(&bytes).err(), Some(TurnError::Format));
}

#[test]
fn test_fingerprint_known_value() {
    // the standard CRC-32 check value, XORed with the STUN constant
    assert_eq!(fingerprint_value(b"123456789"), 0xCBF43926u32 ^ 0x5354554E);
}

#[test]
fn test_fingerprint_roundtrip_and_corruption() {
    let attrs = vec![make_bytes_attr(ATTR_DATA, b"payload")];
    let tid = tid12();
    let bytes = encode_with_fingerprint(msg_type(METHOD_SEND, CLASS_INDICATION), &tid, &attrs);
    assert!(check_fingerprint(&bytes));
    let m = decode_message(&bytes).unwrap();
    assert_eq!(m.attrs.last().unwrap().typ, ATTR_FINGERPRINT);
    let mut corrupted = bytes.clone();
    corrupted[24] ^= 1;
    assert!(!check_fingerprint(&corrupted));
}

#[test]
fn test_integrity_depends_on_key_and_message() {
    let attrs = vec![make_bytes_attr(ATTR_USERNAME, b"user")];
    let tid = tid12();
    let typ = msg_type(METHOD_REFRESH, CLASS_REQUEST);
    let with_key_a = encode_with_auth(typ, &tid, &attrs, b"key-a");
    let with_key_b = encode_with_auth(typ, &tid, &attrs, b"key-b");
    // the digest must depend on the key
    assert_ne!(with_key_a, with_key_b);
    assert!(check_integrity(&with_key_a, b"key-a"));
    assert!(!check_integrity(&with_key_a, b"key-b"));
    assert!(check_fingerprint(&with_key_a));
    // MESSAGE-INTEGRITY then FINGERPRINT close the message, in that order
    let m = decode_message(&with_key_a).unwrap();
    let n = m.attrs.len();
    assert_eq!(m.attrs[n - 2].typ, ATTR_MESSAGE_INTEGRITY);
    assert_eq!(m.attrs[n - 2].value.len(), 20);
    assert_eq!(m.attrs[n - 1].typ, ATTR_FINGERPRINT);
    // a different message under the same key carries a different digest
    let attrs2 = vec![make_bytes_attr(ATTR_USERNAME, b"resu")];
    let other = encode_with_auth(typ, &tid, &attrs2, b"key-a");
    let m2 = decode_message(&other).unwrap();
    assert_ne!(m.attrs[n - 2].value, m2.attrs[m2.attrs.len() - 2].value);
}

#[test]
fn test_validate_message() {
    let attrs = vec![make_bytes_attr(ATTR_USERNAME, b"user")];
    let tid = tid12();
    let typ = msg_type(METHOD_REFRESH, CLASS_REQUEST);
    let bytes = encode_with_auth(typ, &tid, &attrs, b"key-a");
    // intact: accepted with or without the key
    assert!(validate_message(&bytes, Some(b"key-a")).is_ok());
    assert!(validate_message(&bytes, None).is_ok());
    // wrong key: the integrity check fails
    assert_eq!(validate_message(&bytes, Some(b"key-b")).err(), Some(TurnError::Integrity));
    // a corrupted fingerprint is a format error
    let n = bytes.len();
    let mut bad_fp = bytes.clone();
    bad_fp[n - 1] ^= 1;
    assert_eq!(validate_message(&bad_fp, None).err(), Some(TurnError::Format));
    // garbage is a format error
    assert_eq!(validate_message(&[1, 2, 3], None).err(), Some(TurnError::Format));
    // a message without integrity or fingerprint is not rejected for it
    let plain = encode_message(&StunMessage { typ, tid: tid12(), attrs: vec![] });
    assert!(validate_message(&plain, Some(b"key-a")).is_ok());
}

#[test]
fn test_xor_peer_address() {
    // 203.0.113.7:9000
    let peer = PeerAddr { ip: 0xCB007107, port: 9000 };
    let attr = make_xor_addr_attr(ATTR_XOR_PEER_ADDRESS, peer);
    assert_eq!(attr.value, vec![0x00, 0x01, 0x02, 0x3A, 0xEA, 0x12, 0xD5, 0x45]);
    let back = parse_xor_addr(&attr.value).unwrap();
    assert_eq!(back, peer);
    assert!(parse_xor_addr(&vec![0, 1, 2]).is_none());
    assert!(parse_xor_addr(&vec![0, 2, 0, 0, 0, 0, 0, 0]).is_none());
}

#[test]
fn test_typed_getters() {
    let peer = PeerAddr { ip: 0x01020304, port: 7 };
    let m = StunMessage {
        typ: msg_type(METHOD_CREATE_PERMISSION, CLASS_ERROR_RESPONSE),
        tid: tid12(),
        attrs: vec![
            make_xor_addr_attr(ATTR_XOR_PEER_ADDRESS, peer),
            make_u32_attr(ATTR_LIFETIME, 600),
            make_channel_number_attr(0x4001),
            RawAttr { typ: ATTR_ERROR_CODE, value: vec![0, 0, 4, 38, b'S', b'N'] },
            make_bytes_attr(ATTR_REALM, b"realm"),
        ],
    };
    assert_eq!(get_xor_peer_address(&m), Some(peer));
    assert_eq!(get_lifetime(&m), Some(600));
    // 4 * 100 + 38 = 438 (STALE_NONCE)
    assert_eq!(get_error_code(&m), Some(438));
    assert_eq!(get_attr(&m, ATTR_REALM), Some(b"realm".to_vec()));
    assert_eq!(get_attr(&m, ATTR_DATA), None);
}
