use turn_relay::addr::PeerAddr;
use turn_relay::attrs::{get_attr, get_lifetime, get_xor_peer_address, make_bytes_attr,
    make_u32_attr, make_xor_addr_attr};
use turn_relay::binding::{Binding, BindingManager, BindingState};
use turn_relay::chandata::decode_channel_data;
use turn_relay::errors::TurnError;
use turn_relay::relay::{refresh_interval_secs, InboundOutcome, RelayConn, BINDING_REFRESH_MS,
    MAX_RETRY_ATTEMPTS};
use turn_relay::stun::{decode_message, encode_message, msg_type, RawAttr, StunMessage,
    ATTR_CHANNEL_NUMBER, ATTR_DATA, ATTR_ERROR_CODE, ATTR_LIFETIME, ATTR_NONCE,
    ATTR_XOR_PEER_ADDRESS, CLASS_ERROR_RESPONSE, CLASS_INDICATION, CLASS_REQUEST,
    CLASS_SUCCESS_RESPONSE, METHOD_CHANNEL_BIND, METHOD_CREATE_PERMISSION, METHOD_DATA,
    METHOD_REFRESH, METHOD_SEND};

fn tid(seed: u8) -> Vec<u8> {
    vec![seed; 12]
}

fn peer() -> PeerAddr {
    // 203.0.113.7:9000
    PeerAddr { ip: 0xCB007107, port: 9000 }
}

fn fresh_conn() -> RelayConn {
    RelayConn::new(PeerAddr { ip: 0x0A000001, port: 3478 }, b"user".to_vec(), b"realm".to_vec(),
        b"nonce-1".to_vec(), b"integrity-key".to_vec(), 600)
}

fn success_response(method: u16) -> StunMessage {
    StunMessage { typ: msg_type(method, CLASS_SUCCESS_RESPONSE), tid: tid(9), attrs: vec![] }
}

fn stale_nonce_response(method: u16, new_nonce: &[u8]) -> StunMessage {
    StunMessage {
        typ: msg_type(method, CLASS_ERROR_RESPONSE),
        tid: tid(9),
        attrs: vec![
            RawAttr { typ: ATTR_ERROR_CODE, value: vec![0, 0, 4, 38] },
            make_bytes_attr(ATTR_NONCE, new_nonce),
        ],
    }
}

fn error_response(method: u16, class_byte: u8, number: u8) -> StunMessage {
    StunMessage {
        typ: msg_type(method, CLASS_ERROR_RESPONSE),
        tid: tid(9),
        attrs: vec![RawAttr { typ: ATTR_ERROR_CODE, value: vec![0, 0, class_byte, number] }],
    }
}

#[test]
fn test_cold_send_wire_sequence() {
    let mut conn = fresh_conn();
    // permission gate: the first send drives one CreatePermission
    let req = conn.send_to_prepare(peer(), &tid(1)).unwrap().expect("request expected");
    let m = decode_message(&req).unwrap();
    assert_eq!(m.typ, msg_type(METHOD_CREATE_PERMISSION, CLASS_REQUEST));
    assert_eq!(get_xor_peer_address(&m), Some(peer()));
    assert!(get_attr(&m, ATTR_NONCE).is_some());
    conn.on_permission_response(peer(), &success_response(METHOD_CREATE_PERMISSION)).unwrap();

    // dispatch: Send indication plus a spawned ChannelBind on 0x4000
    let d = conn.send_to_dispatch(b"hello", peer(), 1_000, &tid(2), &tid(3)).unwrap();
    let ind = decode_message(&d.datagram).unwrap();
    assert_eq!(ind.typ, msg_type(METHOD_SEND, CLASS_INDICATION));
    assert_eq!(get_attr(&ind, ATTR_DATA), Some(b"hello".to_vec()));
    assert_eq!(get_xor_peer_address(&ind), Some(peer()));
    let bind = decode_message(&d.bind_request.expect("bind expected")).unwrap();
    assert_eq!(bind.typ, msg_type(METHOD_CHANNEL_BIND, CLASS_REQUEST));
    assert_eq!(get_attr(&bind, ATTR_CHANNEL_NUMBER).unwrap(), vec![0x40, 0x00, 0x00, 0x00]);
    assert_eq!(conn.bindings.find_by_addr(peer()).unwrap().state, BindingState::Request);

    // while the bind is in flight, sends still go out as indications
    let d2 = conn.send_to_dispatch(b"again", peer(), 1_001, &tid(4), &tid(5)).unwrap();
    assert!(d2.bind_request.is_none());
    let ind2 = decode_message(&d2.datagram).unwrap();
    assert_eq!(ind2.typ, msg_type(METHOD_SEND, CLASS_INDICATION));

    // after the bind succeeds, the next send upgrades to ChannelData
    conn.on_bind_response(peer(), &success_response(METHOD_CHANNEL_BIND), 1_002).unwrap();
    assert_eq!(conn.bindings.find_by_addr(peer()).unwrap().state, BindingState::Ready);
    let d3 = conn.send_to_dispatch(b"world", peer(), 1_003, &tid(6), &tid(7)).unwrap();
    assert!(d3.bind_request.is_none());
    assert_eq!(d3.datagram, vec![0x40, 0x00, 0x00, 0x05, 0x77, 0x6f, 0x72, 0x6c, 0x64, 0x00,
        0x00, 0x00]);
}

#[test]
fn test_channel_numbers_unique_and_in_range() {
    let mut conn = fresh_conn();
    let peers = [
        PeerAddr { ip: 1, port: 1 },
        PeerAddr { ip: 1, port: 2 },
        PeerAddr { ip: 2, port: 1 },
    ];
    let mut numbers = Vec::new();
    for p in peers.iter() {
        conn.send_to_dispatch(b"x", *p, 0, &tid(1), &tid(2)).unwrap();
        let b = conn.bindings.find_by_addr(*p).unwrap();
        assert!((0x4000..=0x7FFF).contains(&b.number));
        assert!(!numbers.contains(&b.number));
        numbers.push(b.number);
    }
    assert_eq!(numbers, vec![0x4000, 0x4001, 0x4002]);
}

#[test]
fn test_permission_is_keyed_by_ip() {
    let mut conn = fresh_conn();
    let p1 = PeerAddr { ip: 0xCB007107, port: 9000 };
    let p2 = PeerAddr { ip: 0xCB007107, port: 9001 };
    let req = conn.send_to_prepare(p1, &tid(1)).unwrap();
    assert!(req.is_some());
    conn.on_permission_response(p1, &success_response(METHOD_CREATE_PERMISSION)).unwrap();
    // same IP, other port: no second CreatePermission
    assert_eq!(conn.send_to_prepare(p2, &tid(2)).unwrap(), None);
    // another IP still needs one
    let p3 = PeerAddr { ip: 0xCB007108, port: 9000 };
    assert!(conn.send_to_prepare(p3, &tid(3)).unwrap().is_some());
}

#[test]
fn test_stale_nonce_retry() {
    let mut conn = fresh_conn();
    let req1 = conn.send_to_prepare(peer(), &tid(1)).unwrap().unwrap();
    let m1 = decode_message(&req1).unwrap();
    assert_eq!(get_attr(&m1, ATTR_NONCE), Some(b"nonce-1".to_vec()));

    // the server rejects with 438 and a fresh nonce
    let r = conn.on_permission_response(peer(),
        &stale_nonce_response(METHOD_CREATE_PERMISSION, b"nonce-2"));
    assert_eq!(r, Err(TurnError::TryAgain));
    assert_eq!(conn.nonce, b"nonce-2".to_vec());

    // the retry carries the new nonce within the same send_to
    let req2 = conn.send_to_prepare(peer(), &tid(2)).unwrap().unwrap();
    let m2 = decode_message(&req2).unwrap();
    assert_eq!(get_attr(&m2, ATTR_NONCE), Some(b"nonce-2".to_vec()));
    conn.on_permission_response(peer(), &success_response(METHOD_CREATE_PERMISSION)).unwrap();
    assert_eq!(conn.send_to_prepare(peer(), &tid(3)).unwrap(), None);
    assert!(MAX_RETRY_ATTEMPTS >= 2);
}

#[test]
fn test_permission_rejected_clears_entry() {
    let mut conn = fresh_conn();
    conn.send_to_prepare(peer(), &tid(1)).unwrap().unwrap();
    // 441 Wrong Credentials: delete the permission and propagate
    let r = conn.on_permission_response(peer(), &error_response(METHOD_CREATE_PERMISSION, 4, 41));
    assert_eq!(r, Err(TurnError::Rejected));
    // the next send drives a fresh CreatePermission
    assert!(conn.send_to_prepare(peer(), &tid(2)).unwrap().is_some());
}

#[test]
fn test_permission_failure_clears_entry() {
    let mut conn = fresh_conn();
    conn.send_to_prepare(peer(), &tid(1)).unwrap().unwrap();
    // the CreatePermission transaction timed out: forget the entry
    conn.on_permission_failure(peer());
    // the next send drives a fresh CreatePermission
    assert!(conn.send_to_prepare(peer(), &tid(2)).unwrap().is_some());
}

#[test]
fn test_binding_refresh_keeps_fast_path() {
    let mut conn = fresh_conn();
    conn.send_to_dispatch(b"x", peer(), 1_000, &tid(1), &tid(2)).unwrap();
    conn.on_bind_response(peer(), &success_response(METHOD_CHANNEL_BIND), 1_000).unwrap();

    // five minutes and a second later, the dispatch re-binds in the
    // background and still emits ChannelData
    let later = 1_000 + BINDING_REFRESH_MS + 1;
    let d = conn.send_to_dispatch(b"fast", peer(), later, &tid(3), &tid(4)).unwrap();
    assert!(d.bind_request.is_some());
    let (num, payload) = decode_channel_data(&d.datagram).unwrap();
    assert_eq!(num, 0x4000);
    assert_eq!(payload, b"fast".to_vec());
    assert_eq!(conn.bindings.find_by_addr(peer()).unwrap().state, BindingState::Refresh);

    // while the refresh is in flight the fast path is not blocked
    let d2 = conn.send_to_dispatch(b"more", peer(), later + 1, &tid(5), &tid(6)).unwrap();
    assert!(d2.bind_request.is_none());
    assert_eq!(decode_channel_data(&d2.datagram).unwrap().1, b"more".to_vec());

    // the refresh response re-arms the stamp
    conn.on_bind_response(peer(), &success_response(METHOD_CHANNEL_BIND), later + 2).unwrap();
    let b = conn.bindings.find_by_addr(peer()).unwrap();
    assert_eq!(b.state, BindingState::Ready);
    assert_eq!(b.refreshed_at, later + 2);
}

#[test]
fn test_unexpected_bind_response_marks_failed() {
    let mut conn = fresh_conn();
    conn.send_to_dispatch(b"x", peer(), 0, &tid(1), &tid(2)).unwrap();
    let r = conn.on_bind_response(peer(), &success_response(METHOD_REFRESH), 5);
    assert_eq!(r, Err(TurnError::UnexpectedResponse));
    assert_eq!(conn.bindings.find_by_addr(peer()).unwrap().state, BindingState::Failed);
    // a Failed binding keeps sending via indications and does not re-bind
    let d = conn.send_to_dispatch(b"y", peer(), 6, &tid(3), &tid(4)).unwrap();
    assert!(d.bind_request.is_none());
    let m = decode_message(&d.datagram).unwrap();
    assert_eq!(m.typ, msg_type(METHOD_SEND, CLASS_INDICATION));
}

#[test]
fn test_bind_failure_deletes_binding() {
    let mut conn = fresh_conn();
    conn.send_to_dispatch(b"x", peer(), 0, &tid(1), &tid(2)).unwrap();
    conn.on_bind_failure(peer());
    assert!(conn.bindings.find_by_addr(peer()).is_none());
    // the next send retries from scratch
    let d = conn.send_to_dispatch(b"y", peer(), 1, &tid(3), &tid(4)).unwrap();
    assert!(d.bind_request.is_some());
}

#[test]
fn test_close_idempotence() {
    let mut conn = fresh_conn();
    let teardown = conn.close(&tid(1)).expect("first close sends a refresh");
    let m = decode_message(&teardown).unwrap();
    assert_eq!(m.typ, msg_type(METHOD_REFRESH, CLASS_REQUEST));
    assert_eq!(get_lifetime(&m), Some(0));
    // a second close emits nothing
    assert!(conn.close(&tid(2)).is_none());
    // nothing outbound after close, and recv_from resolves at once
    assert_eq!(conn.send_to_prepare(peer(), &tid(3)), Err(TurnError::AlreadyClosed));
    assert_eq!(conn.send_to_dispatch(b"x", peer(), 0, &tid(4), &tid(5)).err(),
        Some(TurnError::AlreadyClosed));
    assert_eq!(conn.refresh_allocation_request(600, &tid(6)).err(),
        Some(TurnError::AlreadyClosed));
    let mut buf = vec![0u8; 64];
    assert_eq!(conn.recv_from(&mut buf), Err(TurnError::AlreadyClosed));
    // inbound datagrams are dropped after close
    let frame = turn_relay::chandata::encode_channel_data(0x4000, b"late");
    assert!(matches!(conn.handle_inbound(&frame), InboundOutcome::Dropped));
}

#[test]
fn test_short_receive_buffer_not_consumed() {
    let mut conn = fresh_conn();
    conn.send_to_dispatch(b"x", peer(), 0, &tid(1), &tid(2)).unwrap();
    let payload = vec![0xabu8; 1200];
    let frame = turn_relay::chandata::encode_channel_data(0x4000, &payload);
    assert!(matches!(conn.handle_inbound(&frame), InboundOutcome::Delivered));

    let mut small = vec![0u8; 256];
    assert_eq!(conn.recv_from(&mut small), Err(TurnError::ShortBuffer));
    // the datagram was not consumed: a larger buffer still receives it
    let mut large = vec![0u8; 1500];
    let (n, from) = conn.recv_from(&mut large).unwrap().expect("datagram expected");
    assert_eq!(n, 1200);
    assert_eq!(from, peer());
    assert_eq!(&large[..n], &payload[..]);
    // the queue is drained now
    assert_eq!(conn.recv_from(&mut large), Ok(None));
}

#[test]
fn test_inbound_data_indication() {
    let mut conn = fresh_conn();
    let from = PeerAddr { ip: 0x7F000001, port: 4242 };
    let ind = StunMessage {
        typ: msg_type(METHOD_DATA, CLASS_INDICATION),
        tid: tid(8),
        attrs: vec![
            make_xor_addr_attr(ATTR_XOR_PEER_ADDRESS, from),
            make_bytes_attr(ATTR_DATA, b"from afar"),
        ],
    };
    let bytes = encode_message(&ind);
    assert!(matches!(conn.handle_inbound(&bytes), InboundOutcome::Delivered));
    let mut buf = vec![0u8; 32];
    let (n, src) = conn.recv_from(&mut buf).unwrap().unwrap();
    assert_eq!(&buf[..n], b"from afar");
    assert_eq!(src, from);
}

#[test]
fn test_inbound_demux() {
    let mut conn = fresh_conn();
    // a ChannelData frame on an unknown channel is dropped
    let frame = turn_relay::chandata::encode_channel_data(0x4567, b"nobody");
    assert!(matches!(conn.handle_inbound(&frame), InboundOutcome::Dropped));
    // a response is handed to the transaction engine
    let rsp = encode_message(&success_response(METHOD_CREATE_PERMISSION));
    match conn.handle_inbound(&rsp) {
        InboundOutcome::StunResponse(m) => {
            assert_eq!(m.typ, msg_type(METHOD_CREATE_PERMISSION, CLASS_SUCCESS_RESPONSE));
        },
        _ => panic!("response expected"),
    }
    // garbage is dropped
    assert!(matches!(conn.handle_inbound(&[0x00, 0x01, 0x02]), InboundOutcome::Dropped));
    assert!(matches!(conn.handle_inbound(&[0xff, 0x01, 0x02]), InboundOutcome::Dropped));
}

#[test]
fn test_refresh_allocation_responses() {
    let mut conn = fresh_conn();
    let req = conn.refresh_allocation_request(600, &tid(1)).unwrap();
    let m = decode_message(&req).unwrap();
    assert_eq!(m.typ, msg_type(METHOD_REFRESH, CLASS_REQUEST));
    assert_eq!(get_lifetime(&m), Some(600));

    // success adopts the granted lifetime
    let granted = StunMessage {
        typ: msg_type(METHOD_REFRESH, CLASS_SUCCESS_RESPONSE),
        tid: tid(9),
        attrs: vec![make_u32_attr(ATTR_LIFETIME, 480)],
    };
    conn.on_refresh_response(&granted).unwrap();
    assert_eq!(conn.lifetime_secs, 480);

    // STALE_NONCE rotates the nonce and asks the timer to retry
    let r = conn.on_refresh_response(&stale_nonce_response(METHOD_REFRESH, b"nonce-9"));
    assert_eq!(r, Err(TurnError::TryAgain));
    assert_eq!(conn.nonce, b"nonce-9".to_vec());

    // other errors are tolerated: the allocation may live on
    assert_eq!(conn.on_refresh_response(&error_response(METHOD_REFRESH, 4, 41)), Ok(()));
    assert_eq!(conn.lifetime_secs, 480);
}

#[test]
fn test_permission_refresh() {
    let mut conn = fresh_conn();
    conn.send_to_prepare(peer(), &tid(1)).unwrap();
    conn.on_permission_response(peer(), &success_response(METHOD_CREATE_PERMISSION)).unwrap();
    let addrs = conn.permitted_addrs();
    assert_eq!(addrs.len(), 1);
    assert_eq!(addrs[0].ip, peer().ip);
    assert_eq!(addrs[0].port, 0);

    // an error other than STALE_NONCE clears every permission
    let r = conn.on_permission_refresh_response(&error_response(METHOD_CREATE_PERMISSION, 4, 41));
    assert_eq!(r, Err(TurnError::Rejected));
    assert!(conn.permitted_addrs().is_empty());
    // so the next send reinstalls lazily
    assert!(conn.send_to_prepare(peer(), &tid(2)).unwrap().is_some());
}

#[test]
fn test_channel_space_exhaustion() {
    let mut mgr = BindingManager::new();
    for num in 0x4000u16..=0x7FFFu16 {
        mgr.bindings.push(Binding {
            number: num,
            addr: PeerAddr { ip: num as u32, port: 1 },
            state: BindingState::Ready,
            refreshed_at: 0,
        });
    }
    // every channel number is taken: no binding can be created
    assert_eq!(mgr.create(PeerAddr { ip: 0xFFFF_FFFF, port: 2 }, 0), None);
    let mut conn = fresh_conn();
    conn.bindings = mgr;
    let r = conn.send_to_dispatch(b"x", PeerAddr { ip: 0xFFFF_FFFF, port: 2 }, 0, &tid(1),
        &tid(2));
    assert_eq!(r.err(), Some(TurnError::AddrNotFound));
}

#[test]
fn test_refresh_interval() {
    assert_eq!(refresh_interval_secs(600), 540);
    assert_eq!(refresh_interval_secs(90), 30);
    assert_eq!(refresh_interval_secs(0), 30);
}
