use wcm::value::DecodeError;
use wcm::value::RawValue;
use wcm::value::RegItemValue;
use wcm::value::RegType;
use wcm::value::parse_dword;
use wcm::value::parse_qword;
use wcm::utf16::utf16_decode;
use wcm::utf16::utf16_encode;

fn round_trip(v: RegItemValue) -> RegItemValue {
    let raw = v.encode();
    RegItemValue::decode(&raw).expect("round trip must decode")
}

#[test]
fn text_round_trip() {
    match round_trip(RegItemValue::SZ(String::from("Open With Test"))) {
        RegItemValue::SZ(s) => assert_eq!(s, "Open With Test"),
        _ => panic!("wrong variant"),
    }
}

#[test]
fn text_round_trip_beyond_ascii() {
    // A supplementary-plane character exercises the surrogate pairs.
    let input = "héllo €𝄞 \u{1F600}";
    match round_trip(RegItemValue::SZ(String::from(input))) {
        RegItemValue::SZ(s) => assert_eq!(s, input),
        _ => panic!("wrong variant"),
    }
}

#[test]
fn text_round_trip_interior_nul() {
    let input = "a\u{0}b";
    match round_trip(RegItemValue::SZ(String::from(input))) {
        RegItemValue::SZ(s) => assert_eq!(s, input),
        _ => panic!("wrong variant"),
    }
}

#[test]
fn multi_text_round_trip() {
    match round_trip(RegItemValue::MultiSz(String::from("one\u{0}two"))) {
        RegItemValue::MultiSz(s) => assert_eq!(s, "one\u{0}two"),
        _ => panic!("wrong variant"),
    }
}

#[test]
fn dword_round_trip() {
    let raw = RegItemValue::DWORD(0x12345678).encode();
    assert_eq!(raw.vtype, RegType::RegDword);
    assert_eq!(raw.bytes, vec![0x78, 0x56, 0x34, 0x12]);
    match RegItemValue::decode(&raw).unwrap() {
        RegItemValue::DWORD(v) => assert_eq!(v, 0x12345678),
        _ => panic!("wrong variant"),
    }
}

#[test]
fn qword_round_trip() {
    let raw = RegItemValue::QWORD(0x1122334455667788).encode();
    assert_eq!(raw.vtype, RegType::RegQword);
    assert_eq!(raw.bytes, vec![0x88, 0x77, 0x66, 0x55, 0x44, 0x33, 0x22, 0x11]);
    match RegItemValue::decode(&raw).unwrap() {
        RegItemValue::QWORD(v) => assert_eq!(v, 0x1122334455667788),
        _ => panic!("wrong variant"),
    }
}

#[test]
fn binary_round_trip() {
    let bytes = vec![0u8, 1, 2, 254, 255];
    match round_trip(RegItemValue::BINARY(bytes.clone())) {
        RegItemValue::BINARY(b) => assert_eq!(b, bytes),
        _ => panic!("wrong variant"),
    }
}

#[test]
fn untyped_round_trip() {
    let bytes = vec![9u8, 8, 7];
    match round_trip(RegItemValue::Raw(bytes.clone())) {
        RegItemValue::Raw(b) => assert_eq!(b, bytes),
        _ => panic!("wrong variant"),
    }
}

#[test]
fn expandable_round_trips_at_byte_level() {
    // Whatever bytes go in come back out, including ones that are not
    // well-formed UTF-16.
    let bytes = vec![0x41u8, 0x00, 0x00, 0xD8, 0x01];
    let raw = RegItemValue::ExpandSz(bytes.clone()).encode();
    assert_eq!(raw.vtype, RegType::RegExpandSz);
    assert_eq!(raw.bytes, bytes);
    match RegItemValue::decode(&raw).unwrap() {
        RegItemValue::ExpandSz(b) => assert_eq!(b, bytes),
        _ => panic!("wrong variant"),
    }
}

#[test]
fn dword_with_wrong_length_is_malformed() {
    let raw = RawValue { vtype: RegType::RegDword, bytes: vec![1, 2, 3] };
    assert_eq!(RegItemValue::decode(&raw).unwrap_err(), DecodeError::Malformed);
    let raw = RawValue { vtype: RegType::RegQword, bytes: vec![1, 2, 3, 4] };
    assert_eq!(RegItemValue::decode(&raw).unwrap_err(), DecodeError::Malformed);
}

#[test]
fn odd_length_text_is_malformed() {
    let raw = RawValue { vtype: RegType::RegSz, bytes: vec![0x41, 0x00, 0x42] };
    assert_eq!(RegItemValue::decode(&raw).unwrap_err(), DecodeError::Malformed);
}

#[test]
fn unpaired_surrogate_text_is_malformed() {
    let raw = RawValue { vtype: RegType::RegSz, bytes: vec![0x00, 0xD8, 0x41, 0x00] };
    assert_eq!(RegItemValue::decode(&raw).unwrap_err(), DecodeError::Malformed);
}

#[test]
fn unmodeled_types_are_unsupported() {
    for t in [
        RegType::RegDwordBigEndian,
        RegType::RegLink,
        RegType::RegResourceList,
        RegType::RegFullResourceDescriptor,
        RegType::RegResourceRequirementsList,
    ] {
        let raw = RawValue { vtype: t, bytes: vec![] };
        assert_eq!(RegItemValue::decode(&raw).unwrap_err(), DecodeError::Unsupported);
    }
}

#[test]
fn parse_dword_reads_little_endian() {
    let raw = RawValue { vtype: RegType::RegDword, bytes: vec![0x78, 0x56, 0x34, 0x12] };
    assert_eq!(parse_dword(&raw), Some(0x12345678));
    let raw = RawValue { vtype: RegType::RegSz, bytes: vec![0x78, 0x56, 0x34, 0x12] };
    assert_eq!(parse_dword(&raw), None);
}

#[test]
fn parse_qword_reads_little_endian() {
    let raw = RawValue {
        vtype: RegType::RegQword,
        bytes: vec![0x88, 0x77, 0x66, 0x55, 0x44, 0x33, 0x22, 0x11],
    };
    assert_eq!(parse_qword(&raw), Some(0x1122334455667788));
    let raw = RawValue { vtype: RegType::RegQword, bytes: vec![0x88, 0x77] };
    assert_eq!(parse_qword(&raw), None);
}

#[test]
fn utf16_encoding_is_little_endian() {
    let bytes = utf16_encode("A€");
    assert_eq!(bytes, vec![0x41, 0x00, 0xAC, 0x20]);
    let back = utf16_decode(&bytes).unwrap();
    assert_eq!(back, "A€");
}

#[test]
fn utf16_decode_rejects_odd_and_unpaired() {
    assert!(utf16_decode(&vec![0x41]).is_none());
    assert!(utf16_decode(&vec![0x00, 0xD8]).is_none());
}

#[test]
fn display_strings() {
    assert_eq!(RegItemValue::DWORD(10).display_string(), "10");
    assert_eq!(RegItemValue::DWORD(0).display_string(), "0");
    assert_eq!(RegItemValue::QWORD(9876543210).display_string(), "9876543210");
    assert_eq!(RegItemValue::SZ(String::from("x")).display_string(), "x");
    assert_eq!(RegItemValue::Raw(vec![1]).display_string(), "REG_NONE");
    assert_eq!(RegItemValue::BINARY(vec![0xAB, 0xCD]).display_string(), "0xabcd");
    // The expandable form decodes up to its terminator.
    let bytes = vec![0x48, 0x00, 0x69, 0x00, 0x00, 0x00, 0x58, 0x00];
    assert_eq!(RegItemValue::ExpandSz(bytes).display_string(), "Hi");
}
