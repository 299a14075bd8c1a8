use zenoh_proto::acknack::{
    decode_keep_alive, frame_keep_alive, AckNack, AckNackExts, ACKNACK_ID, FLAG_Z,
};
use zenoh_proto::zerror::ZError;
use zenoh_proto::io::{WBuf, ZBuf};
use zenoh_proto::strfmt::dec_string;
use zenoh_proto::ZINT_MAX_BYTES;

fn round_trip(v: u64) {
    let mut w = WBuf::new(32);
    assert!(w.write_zint(v));
    let bytes = w.as_slice().to_vec();
    assert!(bytes.len() <= ZINT_MAX_BYTES);
    let mut z = ZBuf::new(bytes);
    assert_eq!(z.read_zint(), Some(v));
    assert_eq!(z.remaining_len(), 0);
}

#[test]
fn zint_round_trip_corpus() {
    round_trip(0);
    round_trip(1);
    round_trip(127);
    round_trip(128);
    round_trip(16383);
    round_trip(16384);
    round_trip(u32::MAX as u64);
    round_trip(u64::MAX);
}

#[test]
fn zint_encoding_bytes() {
    let mut w = WBuf::new(8);
    assert!(w.write_zint(300));
    assert_eq!(w.as_slice(), &[0xAC, 0x02]);
}

#[test]
fn zint_read_rejects_cut_input() {
    let mut z = ZBuf::new(vec![0x80]);
    assert_eq!(z.read_zint(), None);
}

#[test]
fn zint_read_rejects_overlong_input() {
    let mut z = ZBuf::new(vec![0x80; 11]);
    assert_eq!(z.read_zint(), None);
}

#[test]
fn write_fails_when_full() {
    let mut w = WBuf::new(1);
    assert!(w.write(0x41));
    assert!(!w.write(0x42));
    assert_eq!(w.as_slice(), &[0x41]);
    let mut small = WBuf::new(1);
    assert!(!small.write_zint(u64::MAX));
}

#[test]
fn bytes_round_trip() {
    let mut w = WBuf::new(64);
    assert!(w.write_bytes(&[9, 8, 7]));
    let mut z = ZBuf::new(w.as_slice().to_vec());
    assert_eq!(z.read_bytes(), Some(vec![9, 8, 7]));
    assert_eq!(z.remaining_len(), 0);
}

#[test]
fn string_written_as_length_prefixed_bytes() {
    let mut w = WBuf::new(64);
    assert!(w.write_string("hi"));
    assert_eq!(w.as_slice(), &[2, b'h', b'i']);
}

#[test]
fn read_bytes_rejects_short_payload() {
    let mut z = ZBuf::new(vec![5, 1, 2]);
    assert_eq!(z.read_bytes(), None);
}

#[test]
fn acknack_write_is_bare_header() {
    let m = AckNack::new();
    assert!(m.exts.is_empty());
    let mut w = WBuf::new(8);
    assert!(m.write(&mut w));
    assert_eq!(w.as_slice(), &[ACKNACK_ID]);
}

#[test]
fn acknack_write_fails_on_full_buffer() {
    let m = AckNack::new();
    let mut w = WBuf::new(0);
    assert!(!m.write(&mut w));
}

#[test]
fn acknack_read_without_extensions() {
    let mut z = ZBuf::new(vec![0xEE, 0xFF]);
    let m = AckNack::read(&mut z, ACKNACK_ID).unwrap();
    assert_eq!(m, AckNack::new());
    // nothing consumed: the body is empty
    assert_eq!(z.remaining_len(), 2);
}

#[test]
fn acknack_read_skips_unknown_extensions() {
    // ext 1: header with the more-flag, two-byte body; ext 2: final header,
    // empty body; then unrelated trailing bytes.
    let frame = vec![0x81, 2, 0xAA, 0xBB, 0x01, 0, 0xCC];
    let mut z = ZBuf::new(frame);
    let m = AckNack::read(&mut z, ACKNACK_ID | FLAG_Z).unwrap();
    assert_eq!(m.exts, AckNackExts);
    assert_eq!(z.remaining_len(), 1);
}

#[test]
fn acknack_read_rejects_cut_extension_chain() {
    let mut z = ZBuf::new(vec![0x81, 5, 0xAA]);
    assert!(AckNack::read(&mut z, ACKNACK_ID | FLAG_Z).is_none());
}

#[test]
fn keep_alive_framing_overflow() {
    let m = AckNack::new();
    let mut w = WBuf::new(1);
    assert!(frame_keep_alive(&m, &mut w).is_ok());
    let err = frame_keep_alive(&m, &mut w).unwrap_err();
    assert!(matches!(err, ZError::BufferOverflow));
    assert_eq!(w.as_slice(), &[ACKNACK_ID]);
}

#[test]
fn keep_alive_decode_parse_failure() {
    let mut z = ZBuf::new(vec![0x81, 5, 0xAA]);
    let err = decode_keep_alive(&mut z, ACKNACK_ID | FLAG_Z).unwrap_err();
    assert!(matches!(err, ZError::Parse));
    let mut ok = ZBuf::new(Vec::new());
    assert!(decode_keep_alive(&mut ok, ACKNACK_ID).is_ok());
}

#[test]
fn decimal_rendering() {
    assert_eq!(dec_string(0), "0");
    assert_eq!(dec_string(7), "7");
    assert_eq!(dec_string(1234567890), "1234567890");
    assert_eq!(dec_string(u64::MAX), "18446744073709551615");
}
