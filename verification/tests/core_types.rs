use zenoh_proto::congestion::CongestionControl;
use zenoh_proto::encoding::Encoding;
use zenoh_proto::key::ResKey;
use zenoh_proto::peer_id::PeerId;
use zenoh_proto::query::{ConsolidationMode, QueryConsolidation, QueryTarget, QueryableInfo, Target};
use zenoh_proto::queryable;
use zenoh_proto::sub::{Reliability, SubInfo, SubMode};
use zenoh_proto::whatami;
use zenoh_proto::zerror::ZError;

#[test]
fn reskey_normalization_id_with_suffix_zero_rid() {
    let k = ResKey::from_parts(0, String::from("x")).unwrap();
    assert!(matches!(k, ResKey::RName(ref s) if s == "x"));
}

#[test]
fn reskey_normalization_empty_suffix() {
    let k = ResKey::from_parts(7, String::new()).unwrap();
    assert!(matches!(k, ResKey::RId(7)));
    assert!(k.is_numerical());
    assert_eq!(k.rid(), 7);
}

#[test]
fn reskey_zero_id_rejected() {
    assert!(ResKey::from_parts(0, String::new()).is_none());
}

#[test]
fn reskey_accessors() {
    let k = ResKey::RIdWithSuffix(9, String::from("/tail"));
    assert_eq!(k.rid(), 9);
    assert!(!k.is_numerical());
    let o = k.to_owned();
    assert!(matches!(o, ResKey::RIdWithSuffix(9, ref s) if s == "/tail"));
    let n = ResKey::RName(String::from("/a/b"));
    assert_eq!(n.rid(), 0);
}

#[test]
fn reskey_textual_form() {
    assert_eq!(ResKey::RName(String::from("/a/b")).to_string(), "/a/b");
    assert_eq!(ResKey::RId(42).to_string(), "42");
    assert_eq!(ResKey::RIdWithSuffix(7, String::from("/tail")).to_string(), "7, /tail");
}

#[test]
fn encoding_string_form() {
    let e = Encoding { prefix: 5, suffix: String::new() };
    assert_eq!(e.to_string(), "application/json");
}

#[test]
fn encoding_from_known_mime() {
    let e = Encoding::from_string(String::from("application/json"));
    assert_eq!(e, Encoding { prefix: 5, suffix: String::new() });
}

#[test]
fn encoding_from_mime_with_params() {
    let e = Encoding::from_string(String::from("application/json;charset=utf-8"));
    assert_eq!(e, Encoding { prefix: 5, suffix: String::from(";charset=utf-8") });
}

#[test]
fn encoding_from_unknown_mime() {
    let e = Encoding::from_string(String::from("weird/thing"));
    assert_eq!(e, Encoding { prefix: 0, suffix: String::from("weird/thing") });
}

#[test]
fn encoding_with_suffix_and_starts_with() {
    let e = Encoding::from_prefix(3).with_suffix(String::from(";charset=utf-8"));
    assert_eq!(e.to_string(), "text/plain;charset=utf-8");
    assert!(e.starts_with(&Encoding::from_prefix(3)));
    assert!(!e.starts_with(&Encoding::from_prefix(5)));
}

#[test]
fn encoding_default_is_empty() {
    let e = Encoding::default();
    assert_eq!(e.prefix, 0);
    assert_eq!(e.suffix, "");
}

#[test]
fn encoding_to_mime_known_prefix() {
    let e = Encoding { prefix: 5, suffix: String::new() };
    let m = e.to_mime().unwrap();
    assert_eq!(m.essence(), "application/json");
}

#[test]
fn encoding_to_mime_raw_suffix() {
    let e = Encoding { prefix: 0, suffix: String::from("text/csv") };
    assert!(e.to_mime().is_ok());
}

#[test]
fn encoding_to_mime_unknown_prefix() {
    let e = Encoding { prefix: 25, suffix: String::new() };
    let err = e.to_mime().unwrap_err();
    assert!(matches!(err, ZError::Other(_)));
}

#[test]
fn peer_id_equality_by_active_prefix() {
    let mut a = [0u8; 16];
    let mut b = [0u8; 16];
    a[0] = 1;
    b[0] = 1;
    b[8] = 0xFF;
    let pa = PeerId::new(4, a);
    let pb = PeerId::new(4, b);
    assert_eq!(pa.size(), 4);
    assert_eq!(pa.as_slice(), &[1, 0, 0, 0]);
    assert!(pa == pb);
    let pc = PeerId::new(5, b);
    assert!(pa != pc);
}

#[test]
fn peer_id_hex_display() {
    let mut id = [0u8; 16];
    id[0] = 0xAB;
    id[1] = 0x01;
    id[2] = 0xCD;
    let p = PeerId::new(3, id);
    assert_eq!(p.to_string(), "AB01CD");
}

#[test]
fn peer_id_from_uuid() {
    let u = uuid::Uuid::from_bytes([7u8; 16]);
    let p = PeerId::from_uuid(&u);
    assert_eq!(p.size(), 16);
    assert_eq!(p.as_slice(), &[7u8; 16]);
}

#[test]
fn whatami_names() {
    assert_eq!(whatami::to_string(whatami::ROUTER), "Router");
    assert_eq!(whatami::to_string(whatami::PEER), "Peer");
    assert_eq!(whatami::to_string(whatami::CLIENT), "Client");
    assert_eq!(whatami::to_string(42), "42");
    assert_eq!(whatami::to_string(0), "0");
}

#[test]
fn congestion_control_parse() {
    assert_eq!(CongestionControl::from_str("block").unwrap(), CongestionControl::Block);
    assert_eq!(CongestionControl::from_str("drop").unwrap(), CongestionControl::Drop);
    assert_eq!(CongestionControl::from_str("BLOCK").unwrap(), CongestionControl::Block);
    assert_eq!(CongestionControl::from_str("Drop").unwrap(), CongestionControl::Drop);
    let err = CongestionControl::from_str("neither").unwrap_err();
    assert!(matches!(err, ZError::Other(_)));
}

#[test]
fn congestion_control_default_is_drop() {
    assert_eq!(CongestionControl::default(), CongestionControl::Drop);
}

#[test]
fn sub_info_defaults() {
    let s = SubInfo::default();
    assert_eq!(s.reliability, Reliability::Reliable);
    assert_eq!(s.mode, SubMode::Push);
    assert!(s.period.is_none());
}

#[test]
fn queryable_info_defaults() {
    let q = QueryableInfo::default();
    assert_eq!(q.complete, 1);
    assert_eq!(q.distance, 0);
}

#[test]
fn query_consolidation_defaults_and_none() {
    let d = QueryConsolidation::default();
    assert_eq!(d.first_routers, ConsolidationMode::Lazy);
    assert_eq!(d.last_router, ConsolidationMode::Lazy);
    assert_eq!(d.reception, ConsolidationMode::Full);
    let n = QueryConsolidation::none();
    assert_eq!(n.first_routers, ConsolidationMode::Off);
    assert_eq!(n.last_router, ConsolidationMode::Off);
    assert_eq!(n.reception, ConsolidationMode::Off);
}

#[test]
fn query_target_defaults() {
    let t = QueryTarget::default();
    assert_eq!(t.kind, queryable::ALL_KINDS);
    assert_eq!(t.target, Target::BestMatching);
    assert_eq!(Target::default(), Target::BestMatching);
}

#[test]
fn zerror_descriptions() {
    assert_eq!(ZError::Timeout.describe(), "timeout");
    assert_eq!(ZError::Other(String::from("boom")).describe(), "boom");
}
