use android_hprof::{Error, JavaType, JavaValue, Record, Snapshot, SubTag};

fn header(id_width: u32) -> Vec<u8> {
    let mut b = Vec::new();
    b.extend_from_slice(b"JAVA PROFILE 1.0.1\0");
    b.extend_from_slice(&id_width.to_be_bytes());
    b.extend_from_slice(&[0u8; 8]);
    b
}

fn record(tag: u8, body: &[u8]) -> Vec<u8> {
    let mut b = vec![tag];
    b.extend_from_slice(&[0u8; 4]);
    b.extend_from_slice(&(body.len() as u32).to_be_bytes());
    b.extend_from_slice(body);
    b
}

fn open_and_parse(buf: Vec<u8>) -> Result<Snapshot, Error> {
    let mut snapshot = Snapshot::new(buf)?;
    snapshot.parse_records()?;
    Ok(snapshot)
}

#[test]
fn header_and_string_record() {
    let mut buf = header(8);
    let mut body = Vec::new();
    body.extend_from_slice(&1u64.to_le_bytes());
    body.extend_from_slice(b"hello");
    buf.extend_from_slice(&record(0x01, &body));

    let snapshot = open_and_parse(buf).unwrap();
    assert_eq!(snapshot.header().version, "JAVA PROFILE 1.0.1");
    assert_eq!(snapshot.header().id_size, 8);
    assert_eq!(snapshot.header().size, 19 + 12);
    assert_eq!(
        snapshot.records(),
        &vec![Record::StringConst { id: 1, content: "hello".to_string() }]
    );
    assert_eq!(snapshot.result().string_by_id(1), Some(&"hello".to_string()));
}

#[test]
fn string_record_non_ascii_text() {
    let mut buf = header(4);
    let mut body = Vec::new();
    body.extend_from_slice(&9u32.to_le_bytes());
    body.extend_from_slice("héllo".as_bytes());
    buf.extend_from_slice(&record(0x01, &body));

    let snapshot = open_and_parse(buf).unwrap();
    assert_eq!(snapshot.result().string_by_id(9), Some(&"héllo".to_string()));
}

#[test]
fn string_record_invalid_utf8() {
    let mut buf = header(4);
    let mut body = Vec::new();
    body.extend_from_slice(&9u32.to_le_bytes());
    body.extend_from_slice(&[0xFF, 0xFE]);
    buf.extend_from_slice(&record(0x01, &body));

    let mut snapshot = Snapshot::new(buf).unwrap();
    assert_eq!(snapshot.parse_records(), Err(Error::InvalidUtf8));
}

#[test]
fn string_record_shorter_than_id() {
    let mut buf = header(8);
    // declared length 4 cannot even hold the 8-byte id
    buf.extend_from_slice(&[0x01, 0, 0, 0, 0, 0, 0, 0, 4]);
    buf.extend_from_slice(&[1, 2, 3, 4, 5, 6, 7, 8]);

    let mut snapshot = Snapshot::new(buf).unwrap();
    assert_eq!(snapshot.parse_records(), Err(Error::LengthMismatch));
}

#[test]
fn load_class_resolves_interned_name() {
    let mut buf = header(4);
    let mut sbody = Vec::new();
    sbody.extend_from_slice(&42u32.to_le_bytes());
    sbody.extend_from_slice(b"com/example/Foo");
    buf.extend_from_slice(&record(0x01, &sbody));
    let mut cbody = Vec::new();
    cbody.extend_from_slice(&7u32.to_be_bytes()); // class serial number
    cbody.extend_from_slice(&0xABCDu32.to_le_bytes()); // class object id
    cbody.extend_from_slice(&3u32.to_be_bytes()); // stack trace serial
    cbody.extend_from_slice(&42u32.to_le_bytes()); // class name string id
    buf.extend_from_slice(&record(0x02, &cbody));

    let snapshot = open_and_parse(buf).unwrap();
    assert_eq!(
        snapshot.result().class_name_by_object_id(0xABCD),
        Some(&"com/example/Foo".to_string())
    );
    assert_eq!(
        snapshot.result().class_name_by_serial(7),
        Some(&"com/example/Foo".to_string())
    );
    assert_eq!(
        snapshot.records().get(1),
        Some(&Record::LoadClass {
            serial_number: 7,
            object_id: 0xABCD,
            stack_trace_serial_number: 3,
            class_name_id: 42,
        })
    );
}

#[test]
fn load_class_unknown_name_uses_sentinel() {
    let mut buf = header(4);
    let mut cbody = Vec::new();
    cbody.extend_from_slice(&7u32.to_be_bytes());
    cbody.extend_from_slice(&0xABCDu32.to_le_bytes());
    cbody.extend_from_slice(&3u32.to_be_bytes());
    cbody.extend_from_slice(&42u32.to_le_bytes()); // never interned
    buf.extend_from_slice(&record(0x02, &cbody));

    let snapshot = open_and_parse(buf).unwrap();
    assert_eq!(
        snapshot.result().class_name_by_object_id(0xABCD),
        Some(&"unknown".to_string())
    );
    assert_eq!(snapshot.result().class_name_by_serial(7), Some(&"unknown".to_string()));
}

#[test]
fn unload_class_record() {
    let mut buf = header(4);
    buf.extend_from_slice(&record(0x03, &55u32.to_be_bytes()));
    let snapshot = open_and_parse(buf).unwrap();
    assert_eq!(snapshot.records(), &vec![Record::UnLoadClass(55)]);
}

#[test]
fn stack_frame_record() {
    let mut buf = header(4);
    let mut body = Vec::new();
    body.extend_from_slice(&1u32.to_le_bytes());
    body.extend_from_slice(&2u32.to_le_bytes());
    body.extend_from_slice(&3u32.to_le_bytes());
    body.extend_from_slice(&4u32.to_le_bytes());
    body.extend_from_slice(&9u32.to_be_bytes());
    body.extend_from_slice(&(-5i32).to_be_bytes());
    buf.extend_from_slice(&record(0x04, &body));

    let snapshot = open_and_parse(buf).unwrap();
    assert_eq!(
        snapshot.records(),
        &vec![Record::StackFrame {
            id: 1,
            method_name_id: 2,
            method_signature_id: 3,
            source_file_name_id: 4,
            class_serial_number: 9,
            line_no: -5,
        }]
    );
}

#[test]
fn stack_trace_record_reads_frame_ids() {
    let mut buf = header(4);
    let mut body = Vec::new();
    body.extend_from_slice(&11u32.to_be_bytes());
    body.extend_from_slice(&22u32.to_be_bytes());
    body.extend_from_slice(&2u32.to_be_bytes());
    body.extend_from_slice(&0xAAu32.to_le_bytes());
    body.extend_from_slice(&0xBBu32.to_le_bytes());
    buf.extend_from_slice(&record(0x05, &body));

    let snapshot = open_and_parse(buf).unwrap();
    assert_eq!(
        snapshot.records(),
        &vec![Record::StackTrace {
            serial_number: 11,
            thread_serial_number: 22,
            stack_frame_ids: vec![0xAA, 0xBB],
        }]
    );
}

#[test]
fn unknown_tag_passthrough() {
    let mut buf = header(4);
    buf.extend_from_slice(&record(0x99, &[0xDE, 0xAD, 0xBE, 0xEF]));
    // the loop continues to the next record unaffected
    buf.extend_from_slice(&record(0x03, &8u32.to_be_bytes()));

    let snapshot = open_and_parse(buf).unwrap();
    assert_eq!(
        snapshot.records(),
        &vec![
            Record::Unknown { tag: 0x99, content: vec![0xDE, 0xAD, 0xBE, 0xEF] },
            Record::UnLoadClass(8),
        ]
    );
}

#[test]
fn truncated_record_exact_out_of_bounds() {
    let mut buf = header(4);
    // a LoadClass record whose body is cut after the serial number and
    // two bytes of the object id: the id read wants 4, finds 2
    buf.extend_from_slice(&[0x02, 0, 0, 0, 0, 0, 0, 0, 16]);
    buf.extend_from_slice(&1u32.to_be_bytes());
    buf.extend_from_slice(&[0x01, 0x02]);

    let mut snapshot = Snapshot::new(buf).unwrap();
    assert_eq!(
        snapshot.parse_records(),
        Err(Error::OutOfBounds { requested: 4, remaining: 2 })
    );
}

#[test]
fn heap_dump_length_one_byte_short() {
    let mut buf = header(4);
    // the root sub-record needs 5 bytes; the region declares 4
    buf.extend_from_slice(&[0x0C, 0, 0, 0, 0, 0, 0, 0, 4]);
    buf.extend_from_slice(&[0xFF]);
    buf.extend_from_slice(&0x1234u32.to_le_bytes());

    let mut snapshot = Snapshot::new(buf).unwrap();
    assert_eq!(snapshot.parse_records(), Err(Error::LengthMismatch));
}

#[test]
fn heap_dump_roots() {
    let mut buf = header(4);
    let mut body = Vec::new();
    body.push(0xFF);
    body.extend_from_slice(&1u32.to_le_bytes());
    body.push(0x01);
    body.extend_from_slice(&2u32.to_le_bytes());
    body.extend_from_slice(&3u32.to_le_bytes());
    body.push(0x02);
    body.extend_from_slice(&4u32.to_le_bytes());
    body.extend_from_slice(&5u32.to_be_bytes());
    body.extend_from_slice(&(-1i32).to_be_bytes());
    body.push(0x04);
    body.extend_from_slice(&6u32.to_le_bytes());
    body.extend_from_slice(&7u32.to_be_bytes());
    body.push(0x89);
    body.extend_from_slice(&8u32.to_le_bytes());
    body.push(0x90);
    body.extend_from_slice(&9u32.to_le_bytes());
    buf.extend_from_slice(&record(0x0C, &body));

    let snapshot = open_and_parse(buf).unwrap();
    assert_eq!(snapshot.records().len(), 1);
    match &snapshot.records()[0] {
        Record::HeapDump(subtags) => {
            assert_eq!(subtags.len(), 6);
            assert!(matches!(subtags[0], SubTag::RootUnknown(1)));
            assert!(matches!(
                subtags[1],
                SubTag::RootJniGlobal { object_id: 2, jni_global_ref_id: 3 }
            ));
            match &subtags[2] {
                SubTag::RootJniLocal(o) => {
                    assert_eq!(o.object_id, 4);
                    assert_eq!(o.thread_serial_number, 5);
                    assert_eq!(o.frame_number_in_stack_trace, -1);
                }
                other => panic!("expected RootJniLocal, got {:?}", other),
            }
            match &subtags[3] {
                SubTag::RootNativeStack(o) => {
                    assert_eq!(o.object_id, 6);
                    assert_eq!(o.thread_serial_number, 7);
                }
                other => panic!("expected RootNativeStack, got {:?}", other),
            }
            assert!(matches!(subtags[4], SubTag::RootInternedString(8)));
            assert!(matches!(subtags[5], SubTag::HeapUnreachable(9)));
        }
        other => panic!("expected HeapDump, got {:?}", other),
    }
}

#[test]
fn primitive_array_of_bytes() {
    let mut buf = header(4);
    let mut body = Vec::new();
    body.push(0x23);
    body.extend_from_slice(&0x10u32.to_le_bytes()); // array object id
    body.extend_from_slice(&2u32.to_be_bytes()); // stack trace serial
    body.extend_from_slice(&3u32.to_be_bytes()); // element count
    body.push(8); // Byte
    body.extend_from_slice(&[0x01, 0x02, 0xFF]);
    buf.extend_from_slice(&record(0x1C, &body));

    let snapshot = open_and_parse(buf).unwrap();
    match &snapshot.records()[0] {
        Record::HeapDump(subtags) => {
            assert_eq!(
                subtags,
                &vec![SubTag::PrimitiveArrayDump {
                    array_object_id: 0x10,
                    stack_trace_serial_number: 2,
                    element_type: JavaType::Byte,
                    elements: vec![
                        JavaValue::Byte(1),
                        JavaValue::Byte(2),
                        JavaValue::Byte(-1)
                    ],
                }]
            );
        }
        other => panic!("expected HeapDump, got {:?}", other),
    }
}

#[test]
fn primitive_array_of_floats_keeps_bits() {
    let mut buf = header(4);
    let mut body = Vec::new();
    body.push(0x23);
    body.extend_from_slice(&0x10u32.to_le_bytes());
    body.extend_from_slice(&2u32.to_be_bytes());
    body.extend_from_slice(&1u32.to_be_bytes());
    body.push(6); // Float
    body.extend_from_slice(&1.5f32.to_bits().to_le_bytes());
    buf.extend_from_slice(&record(0x0C, &body));

    let snapshot = open_and_parse(buf).unwrap();
    match &snapshot.records()[0] {
        Record::HeapDump(subtags) => match &subtags[0] {
            SubTag::PrimitiveArrayDump { elements, .. } => {
                assert_eq!(elements, &vec![JavaValue::Float(1.5f32.to_bits())]);
            }
            other => panic!("expected PrimitiveArrayDump, got {:?}", other),
        },
        other => panic!("expected HeapDump, got {:?}", other),
    }
}

#[test]
fn object_array_dump() {
    let mut buf = header(4);
    let mut body = Vec::new();
    body.push(0x22);
    body.extend_from_slice(&0x20u32.to_le_bytes());
    body.extend_from_slice(&1u32.to_be_bytes());
    body.extend_from_slice(&2u32.to_be_bytes()); // element count
    body.extend_from_slice(&0x30u32.to_le_bytes()); // array class id
    body.extend_from_slice(&0x41u32.to_le_bytes());
    body.extend_from_slice(&0x42u32.to_le_bytes());
    buf.extend_from_slice(&record(0x0C, &body));

    let snapshot = open_and_parse(buf).unwrap();
    match &snapshot.records()[0] {
        Record::HeapDump(subtags) => {
            assert_eq!(
                subtags,
                &vec![SubTag::ObjectArrayDump {
                    array_object_id: 0x20,
                    stack_trace_serial_number: 1,
                    array_class_object_id: 0x30,
                    elements: vec![0x41, 0x42],
                }]
            );
        }
        other => panic!("expected HeapDump, got {:?}", other),
    }
}

#[test]
fn instance_dump_keeps_raw_bytes() {
    let mut buf = header(4);
    let mut body = Vec::new();
    body.push(0x21);
    body.extend_from_slice(&0x50u32.to_le_bytes());
    body.extend_from_slice(&1u32.to_be_bytes());
    body.extend_from_slice(&0x60u32.to_le_bytes());
    body.extend_from_slice(&3u32.to_be_bytes());
    body.extend_from_slice(&[0xAA, 0xBB, 0xCC]);
    buf.extend_from_slice(&record(0x0C, &body));

    let snapshot = open_and_parse(buf).unwrap();
    match &snapshot.records()[0] {
        Record::HeapDump(subtags) => {
            assert_eq!(
                subtags,
                &vec![SubTag::InstanceDump {
                    object_id: 0x50,
                    stack_trace_serial_number: 1,
                    class_object_id: 0x60,
                    instance_field_values: vec![0xAA, 0xBB, 0xCC],
                }]
            );
        }
        other => panic!("expected HeapDump, got {:?}", other),
    }
}

#[test]
fn class_dump_pools_and_fields() {
    let mut buf = header(4);
    let mut body = Vec::new();
    body.push(0x20);
    body.extend_from_slice(&0x100u32.to_le_bytes()); // class object id
    body.extend_from_slice(&1u32.to_be_bytes()); // stack trace serial
    body.extend_from_slice(&0x101u32.to_le_bytes()); // superclass
    body.extend_from_slice(&0x102u32.to_le_bytes()); // classloader
    body.extend_from_slice(&0x103u32.to_le_bytes()); // signers
    body.extend_from_slice(&0x104u32.to_le_bytes()); // protection domain
    body.extend_from_slice(&24u32.to_be_bytes()); // instance size
    body.extend_from_slice(&1u16.to_be_bytes()); // constant pool count
    body.extend_from_slice(&7u16.to_be_bytes()); // pool index
    body.push(10); // Int
    body.extend_from_slice(&(-2i32).to_be_bytes());
    body.extend_from_slice(&1u16.to_be_bytes()); // static field count
    body.extend_from_slice(&0x200u32.to_le_bytes()); // name id
    body.push(4); // Boolean
    body.push(1);
    body.extend_from_slice(&1u16.to_be_bytes()); // instance field count
    body.extend_from_slice(&0x201u32.to_le_bytes()); // name id
    body.push(11); // Long
    buf.extend_from_slice(&record(0x0C, &body));

    let snapshot = open_and_parse(buf).unwrap();
    match &snapshot.records()[0] {
        Record::HeapDump(subtags) => match &subtags[0] {
            SubTag::ClassDump {
                class_object_id,
                instance_size,
                constants,
                static_fields,
                instant_fields,
                ..
            } => {
                assert_eq!(*class_object_id, 0x100);
                assert_eq!(*instance_size, 24);
                assert_eq!(constants.len(), 1);
                assert_eq!(constants[0].constant_pool_index, 7);
                assert_eq!(constants[0].java_value, JavaValue::Int(-2));
                assert_eq!(static_fields.len(), 1);
                assert_eq!(static_fields[0].name_string_id, 0x200);
                assert_eq!(static_fields[0].java_value, JavaValue::Boolean(true));
                assert_eq!(instant_fields.len(), 1);
                assert_eq!(instant_fields[0].name_string_id, 0x201);
                assert_eq!(instant_fields[0].java_type, JavaType::Long);
            }
            other => panic!("expected ClassDump, got {:?}", other),
        },
        other => panic!("expected HeapDump, got {:?}", other),
    }
}

#[test]
fn unknown_subtag_is_an_error_not_a_skip() {
    let mut buf = header(4);
    let mut body = Vec::new();
    body.push(0x50);
    body.extend_from_slice(&[0, 0, 0, 0]);
    buf.extend_from_slice(&record(0x0C, &body));

    let mut snapshot = Snapshot::new(buf).unwrap();
    assert_eq!(snapshot.parse_records(), Err(Error::UnknownSubTag(0x50)));
}

#[test]
fn unknown_java_type_in_primitive_array() {
    let mut buf = header(4);
    let mut body = Vec::new();
    body.push(0x23);
    body.extend_from_slice(&0x10u32.to_le_bytes());
    body.extend_from_slice(&2u32.to_be_bytes());
    body.extend_from_slice(&1u32.to_be_bytes());
    body.push(3); // no such field type
    body.push(0);
    buf.extend_from_slice(&record(0x0C, &body));

    let mut snapshot = Snapshot::new(buf).unwrap();
    assert_eq!(snapshot.parse_records(), Err(Error::UnknownJavaType(3)));
}

#[test]
fn load_class_length_mismatch() {
    let mut buf = header(4);
    let mut cbody = Vec::new();
    cbody.extend_from_slice(&7u32.to_be_bytes());
    cbody.extend_from_slice(&1u32.to_le_bytes());
    cbody.extend_from_slice(&3u32.to_be_bytes());
    cbody.extend_from_slice(&42u32.to_le_bytes());
    cbody.push(0); // one stray byte beyond the fixed layout
    buf.extend_from_slice(&record(0x02, &cbody));

    let mut snapshot = Snapshot::new(buf).unwrap();
    assert_eq!(snapshot.parse_records(), Err(Error::LengthMismatch));
}

#[test]
fn header_without_nul_is_malformed() {
    let buf = b"JAVA PROFILE 1.0.1".to_vec();
    assert!(matches!(Snapshot::new(buf), Err(Error::MalformedHeader)));
}

#[test]
fn header_with_bad_id_width_is_malformed() {
    let mut buf = Vec::new();
    buf.extend_from_slice(b"JAVA PROFILE 1.0.1\0");
    buf.extend_from_slice(&5u32.to_be_bytes());
    buf.extend_from_slice(&[0u8; 8]);
    assert!(matches!(Snapshot::new(buf), Err(Error::MalformedHeader)));
}

#[test]
fn header_truncated_before_width() {
    let mut buf = Vec::new();
    buf.extend_from_slice(b"V\0");
    buf.extend_from_slice(&[0, 0]);
    assert_eq!(
        Snapshot::new(buf).err(),
        Some(Error::OutOfBounds { requested: 4, remaining: 2 })
    );
}

#[test]
fn empty_record_stream() {
    let buf = header(4);
    let snapshot = open_and_parse(buf).unwrap();
    assert!(snapshot.records().is_empty());
}

#[test]
fn get_type_size_widths() {
    assert_eq!(android_hprof::get_type_size(2), Ok(4));
    assert_eq!(android_hprof::get_type_size(4), Ok(1));
    assert_eq!(android_hprof::get_type_size(5), Ok(2));
    assert_eq!(android_hprof::get_type_size(6), Ok(4));
    assert_eq!(android_hprof::get_type_size(7), Ok(8));
    assert_eq!(android_hprof::get_type_size(8), Ok(1));
    assert_eq!(android_hprof::get_type_size(9), Ok(2));
    assert_eq!(android_hprof::get_type_size(10), Ok(4));
    assert_eq!(android_hprof::get_type_size(11), Ok(8));
    assert_eq!(
        android_hprof::get_type_size(12),
        Err(android_hprof::UnknownTagError { tag: 12 })
    );
}

#[test]
fn java_type_from_unknown_tag() {
    assert_eq!(JavaType::from_tag(0), Err(Error::UnknownJavaType(0)));
    assert_eq!(JavaType::from_tag(5), Ok(JavaType::Char));
}

#[test]
fn wide_ids_use_little_endian() {
    let mut buf = header(8);
    let mut body = Vec::new();
    body.push(0xFF);
    body.extend_from_slice(&0x1122334455667788u64.to_le_bytes());
    buf.extend_from_slice(&record(0x0C, &body));

    let snapshot = open_and_parse(buf).unwrap();
    match &snapshot.records()[0] {
        Record::HeapDump(subtags) => {
            assert!(matches!(subtags[0], SubTag::RootUnknown(0x1122334455667788)));
        }
        other => panic!("expected HeapDump, got {:?}", other),
    }
}
