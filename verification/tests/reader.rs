use gw2ei::parse::error::EvtcError;
use gw2ei::parse::reader::Reader;

#[test]
fn reads_little_endian_fields() {
    let mut bytes = Vec::new();
    bytes.extend_from_slice(&1u8.to_le_bytes());
    bytes.extend_from_slice(&0x1234u16.to_le_bytes());
    bytes.extend_from_slice(&(-2i32).to_le_bytes());
    bytes.extend_from_slice(&0xdeadbeefu32.to_le_bytes());
    bytes.extend_from_slice(&(-9i64).to_le_bytes());
    bytes.extend_from_slice(&0x1122334455667788u64.to_le_bytes());
    let mut r = Reader::new(&bytes);
    assert_eq!(r.read_u8().expect("synthetic test bytes must parse"), 1);
    assert_eq!(r.read_u16().expect("synthetic test bytes must parse"), 0x1234);
    assert_eq!(r.read_i32().expect("synthetic test bytes must parse"), -2);
    assert_eq!(r.read_u32().expect("synthetic test bytes must parse"), 0xdeadbeef);
    assert_eq!(r.read_i64().expect("synthetic test bytes must parse"), -9);
    assert_eq!(r.read_u64().expect("synthetic test bytes must parse"), 0x1122334455667788);
    assert_eq!(r.remaining(), 0);
}

#[test]
fn unexpected_end_reports_position() {
    let mut r = Reader::new(&[0u8; 3]);
    let err = r.read_u64().expect_err("synthetic bytes must fail");
    match err {
        EvtcError::UnexpectedEnd {
            position,
            required,
            remaining,
        } => {
            assert_eq!(position, 0);
            assert_eq!(required, 8);
            assert_eq!(remaining, 3);
        }
        other => panic!("unexpected error: {other:?}"),
    }
    let mut r = Reader::new(&[0u8; 5]);
    let _ = r.read_u32().expect("synthetic test bytes must parse");
    assert!(r.read_u16().is_err());
}
