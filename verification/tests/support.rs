use turn_relay::engine::SettingEngine;
use turn_relay::errors::TurnError;
use turn_relay::ice::{CandidateConfig, CandidateInfo, RTCIceCandidate, RTCIceCandidateType,
    RTCIceProtocol, RelatedAddr, rtc_ice_candidates_from_ice_candidates};
use turn_relay::keying::{KeyingMaterialExporter, KeyingMaterialExporterError};
use turn_relay::session::get_session_response;
use turn_relay::transaction::{TickAction, Transaction, TransactionMap, MAX_TRANSMISSIONS,
    RTO_MS};

fn host_info() -> CandidateInfo {
    CandidateInfo {
        stats_id: "cand-1".to_string(),
        foundation: "f1".to_string(),
        priority: 123456,
        address: "192.0.2.4".to_string(),
        protocol: RTCIceProtocol::Udp,
        port: 5000,
        component: 1,
        related_address: None,
        tcp_type: "".to_string(),
        candidate_type: RTCIceCandidateType::Host,
    }
}

#[test]
fn test_candidate_conversion() {
    let mut srflx = host_info();
    srflx.candidate_type = RTCIceCandidateType::Srflx;
    srflx.related_address = Some(RelatedAddr { address: "10.0.0.9".to_string(), port: 6000 });
    let out = rtc_ice_candidates_from_ice_candidates(&vec![host_info(), srflx]);
    assert_eq!(out.len(), 2);
    assert_eq!(out[0].stats_id, "cand-1");
    assert_eq!(out[0].priority, 123456);
    assert_eq!(out[0].typ, RTCIceCandidateType::Host);
    // a missing related address becomes an empty string and port zero
    assert_eq!(out[0].related_address, "");
    assert_eq!(out[0].related_port, 0);
    assert_eq!(out[1].typ, RTCIceCandidateType::Srflx);
    assert_eq!(out[1].related_address, "10.0.0.9");
    assert_eq!(out[1].related_port, 6000);
}

#[test]
fn test_to_ice_chooses_the_variant() {
    let host = RTCIceCandidate::from_info(&host_info());
    match host.to_ice().unwrap() {
        CandidateConfig::Host { base } => {
            assert_eq!(base.address, "192.0.2.4");
            assert_eq!(base.port, 5000);
            assert_eq!(base.network, RTCIceProtocol::Udp);
        },
        _ => panic!("host config expected"),
    }
    let mut relay_info = host_info();
    relay_info.candidate_type = RTCIceCandidateType::Relay;
    relay_info.related_address = Some(RelatedAddr { address: "198.51.100.1".to_string(),
        port: 3478 });
    let relay = RTCIceCandidate::from_info(&relay_info);
    match relay.to_ice().unwrap() {
        CandidateConfig::Relay { rel_addr, rel_port, .. } => {
            assert_eq!(rel_addr, "198.51.100.1");
            assert_eq!(rel_port, 3478);
        },
        _ => panic!("relay config expected"),
    }
    let mut unknown = host_info();
    unknown.candidate_type = RTCIceCandidateType::Unspecified;
    let c = RTCIceCandidate::from_info(&unknown);
    assert_eq!(c.to_ice().err(), Some(TurnError::Rejected));
}

#[test]
fn test_setting_engine_defaults() {
    let engine = SettingEngine::new();
    assert!(!engine.candidates.ice_lite);
    assert!(engine.candidates.nat_1to1_ips.is_empty());
    assert_eq!(engine.candidates.nat_1to1_ip_candidate_type, RTCIceCandidateType::Unspecified);
    assert_eq!(engine.candidates.username_fragment, "");
    assert_eq!(engine.candidates.password, "");
}

#[test]
fn test_session_response_parsing() {
    let body = r#"{"answer":{"sdp":"v=0 o=-"},"candidate":{"candidate":"candidate:abc123"}}"#;
    let resp = get_session_response(body).expect("both fields present");
    assert_eq!(resp.answer.sdp, "v=0 o=-");
    assert_eq!(resp.candidate.candidate, "candidate:abc123");

    assert!(get_session_response("not json").is_none());
    assert!(get_session_response(r#"{"answer":{"sdp":"x"}}"#).is_none());
    assert!(get_session_response(r#"{"answer":{"sdp":7},"candidate":{"candidate":"c"}}"#)
        .is_none());
}

#[test]
fn test_transaction_backoff_and_timeout() {
    let mut tx = Transaction::start(vec![1; 12], vec![0xab; 40], 0);
    assert_eq!(tx.next_at_ms, RTO_MS);
    assert_eq!(tx.tick(RTO_MS - 1), TickAction::NotDue);
    // the interval doubles: 500, then 1000, 2000, 4000, 8000, capped
    let mut now = RTO_MS;
    let mut expected = RTO_MS;
    for _ in 0..(MAX_TRANSMISSIONS - 1) {
        assert_eq!(tx.tick(now), TickAction::Retransmit);
        expected = if 2 * expected <= 8000 { 2 * expected } else { 8000 };
        assert_eq!(tx.interval_ms, expected);
        now = tx.next_at_ms;
    }
    // out of attempts: the engine gives up
    assert_eq!(tx.tick(now), TickAction::TimedOut);
}

#[test]
fn test_transaction_map_one_live_per_id() {
    let mut map = TransactionMap::new();
    assert!(map.insert(Transaction::start(vec![1; 12], vec![1], 0)));
    assert!(map.insert(Transaction::start(vec![2; 12], vec![2], 0)));
    // at most one live transaction per id
    assert!(!map.insert(Transaction::start(vec![1; 12], vec![3], 0)));
    assert_eq!(map.len(), 2);

    let got = map.remove(&vec![1; 12]).expect("live transaction");
    assert_eq!(got.raw, vec![1]);
    assert!(map.remove(&vec![1; 12]).is_none());

    let tids = map.abort_all();
    assert_eq!(tids, vec![vec![2; 12]]);
    assert_eq!(map.len(), 0);
}

struct FixedExporter;

impl KeyingMaterialExporter for FixedExporter {
    fn export_keying_material(&self, label: &str, _context: &[u8], length: usize)
        -> Result<Vec<u8>, KeyingMaterialExporterError> {
        if label.starts_with("EXPORTER") {
            Ok(vec![0x5a; length])
        } else {
            Err(KeyingMaterialExporterError::ReservedExportKeyingMaterial)
        }
    }
}

#[test]
fn test_keying_material_exporter() {
    let e = FixedExporter;
    assert_eq!(e.export_keying_material("EXPORTER-label", b"", 4).unwrap(), vec![0x5a; 4]);
    let err = e.export_keying_material("reserved", b"", 4).unwrap_err();
    assert_eq!(err, KeyingMaterialExporterError::ReservedExportKeyingMaterial);
    assert_eq!(err.as_str(), "export_keying_material can not be used with a reserved label");
}
