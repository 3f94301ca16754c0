use android_hprof::{parse_subtag, Error, HprofHeader, HprofResult, JavaType, JavaValue, Slice, SubTag};

#[test]
fn cursor_endianness_per_field_kind() {
    let bytes = vec![
        0x12, 0x34, // u16, big-endian
        0x01, 0x02, 0x03, 0x04, // u32, big-endian
        0xAA, 0xBB, 0xCC, 0xDD, // id at width 4, little-endian
        0x00, 0x00, 0xC0, 0x3F, // f32 bit pattern, little-endian
    ];
    let mut s = Slice::new(bytes, 4);
    assert_eq!(s.remain(), 14);
    assert_eq!(s.id_size(), 4);
    assert_eq!(s.read_u16(), Ok(0x1234));
    assert_eq!(s.read_u32(), Ok(0x01020304));
    assert_eq!(s.read_id(), Ok(0xDDCCBBAA));
    assert_eq!(s.read_f32_bits(), Ok(1.5f32.to_bits()));
    assert_eq!(s.remain(), 0);
}

#[test]
fn cursor_failing_read_leaves_position() {
    let mut s = Slice::new(vec![0x7F, 0x01], 4);
    assert_eq!(s.read_u8(), Ok(0x7F));
    // the failing read reports the exact shortfall and consumes nothing
    assert_eq!(
        s.read_u32(),
        Err(Error::OutOfBounds { requested: 4, remaining: 1 })
    );
    assert_eq!(s.remain(), 1);
    assert_eq!(s.read_i8(), Ok(1));
}

#[test]
fn cursor_signed_reads_reinterpret() {
    let mut s = Slice::new(vec![0xFF, 0xFF, 0xFE, 0xFF, 0xFF, 0xFF, 0xFF], 4);
    assert_eq!(s.read_i8(), Ok(-1));
    assert_eq!(s.read_i16(), Ok(-2));
    assert_eq!(s.read_i32(), Ok(-1));
}

#[test]
fn cursor_unsupported_id_width() {
    let mut s = Slice::new(vec![1, 2, 3, 4, 5, 6], 6);
    assert_eq!(s.read_id(), Err(Error::MalformedHeader));
}

#[test]
fn cursor_check_and_skip() {
    let mut s = Slice::new(vec![0; 5], 4);
    assert_eq!(s.check(5), Ok(()));
    assert_eq!(
        s.check(6),
        Err(Error::OutOfBounds { requested: 6, remaining: 5 })
    );
    assert_eq!(s.skip(3), Ok(()));
    assert_eq!(s.remain(), 2);
    assert_eq!(
        s.skip(3),
        Err(Error::OutOfBounds { requested: 3, remaining: 2 })
    );
    assert_eq!(s.remain(), 2);
}

#[test]
fn header_parse_standalone() {
    let mut buf = Vec::new();
    buf.extend_from_slice(b"JAVA PROFILE 1.0.3\0");
    buf.extend_from_slice(&4u32.to_be_bytes());
    buf.extend_from_slice(&[9u8; 8]);
    let h = HprofHeader::parse(&buf).unwrap();
    assert_eq!(h.version, "JAVA PROFILE 1.0.3");
    assert_eq!(h.id_size, 4);
    assert_eq!(h.size, buf.len());
}

#[test]
fn subtag_parse_reports_consumed_size() {
    let mut bytes = vec![0x05];
    bytes.extend_from_slice(&0x11u32.to_le_bytes());
    bytes.push(0xEE); // trailing byte the sub-record must not touch
    let mut s = Slice::new(bytes, 4);
    let (st, size) = parse_subtag(&mut s).unwrap();
    assert_eq!(st, SubTag::RootStickyClass(0x11));
    assert_eq!(size, 5);
    assert_eq!(s.remain(), 1);
}

#[test]
fn subtag_parse_static_field_boolean() {
    let mut bytes = vec![0x20];
    bytes.extend_from_slice(&1u32.to_le_bytes());
    bytes.extend_from_slice(&0u32.to_be_bytes());
    bytes.extend_from_slice(&0u32.to_le_bytes());
    bytes.extend_from_slice(&0u32.to_le_bytes());
    bytes.extend_from_slice(&0u32.to_le_bytes());
    bytes.extend_from_slice(&0u32.to_le_bytes());
    bytes.extend_from_slice(&8u32.to_be_bytes());
    bytes.extend_from_slice(&0u16.to_be_bytes()); // no constants
    bytes.extend_from_slice(&1u16.to_be_bytes()); // one static field
    bytes.extend_from_slice(&0x33u32.to_le_bytes());
    bytes.push(4); // Boolean
    bytes.push(0);
    bytes.extend_from_slice(&0u16.to_be_bytes()); // no instance fields
    let mut s = Slice::new(bytes, 4);
    let (st, _) = parse_subtag(&mut s).unwrap();
    match st {
        SubTag::ClassDump { static_fields, .. } => {
            assert_eq!(static_fields[0].java_value, JavaValue::Boolean(false));
        }
        other => panic!("expected ClassDump, got {:?}", other),
    }
}

#[test]
fn java_type_widths_and_tags() {
    assert_eq!(JavaType::Object.width(), 4);
    assert_eq!(JavaType::Double.width(), 8);
    assert_eq!(JavaType::Char.tag(), 5);
    assert_eq!(JavaType::Long.tag(), 11);
}

#[test]
fn empty_tables_resolve_nothing() {
    let tables = HprofResult::default();
    assert_eq!(tables.string_by_id(1), None);
    assert_eq!(tables.class_name_by_object_id(1), None);
    assert_eq!(tables.class_name_by_serial(1), None);
}

#[test]
fn error_descriptions() {
    assert_eq!(
        Error::OutOfBounds { requested: 4, remaining: 0 }.describe(),
        "the remaining data is not enough"
    );
    assert_eq!(Error::LengthMismatch.describe(), "length mismatch");
    assert_eq!(
        android_hprof::UnknownTagError { tag: 9 }.describe(),
        "unknown tag"
    );
}
