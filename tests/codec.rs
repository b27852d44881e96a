use pe::{
    decode, encode, is_wf, read_payload, tag_to_str, write_payload, DecodeError, Entry, Tag,
    TypeMismatch,
};

fn storage_version_doc() -> Vec<u8> {
    let mut b = vec![10u8, 0, 0, 3, 14, 0];
    b.extend_from_slice(b"StorageVersion");
    b.extend_from_slice(&[3, 0, 0, 0, 0]);
    b
}

fn every_kind() -> Entry {
    let children = vec![
        Entry { name: b"b".to_vec(), value: Tag::Byte(-5) },
        Entry { name: b"s".to_vec(), value: Tag::Short(-300) },
        Entry { name: b"i".to_vec(), value: Tag::Int(-70000) },
        Entry { name: b"l".to_vec(), value: Tag::Long(-5_000_000_000) },
        Entry { name: b"f".to_vec(), value: Tag::Float(1.5f32.to_bits()) },
        Entry { name: b"d".to_vec(), value: Tag::Double((-2.25f64).to_bits()) },
        Entry { name: b"ba".to_vec(), value: Tag::ByteArray(vec![1, -1, 127, -128]) },
        Entry { name: b"str".to_vec(), value: Tag::Str(b"hello".to_vec()) },
        Entry {
            name: b"list".to_vec(),
            value: Tag::List(3, vec![Tag::Int(1), Tag::Int(-2), Tag::Int(i32::MAX)]),
        },
        Entry { name: b"empty".to_vec(), value: Tag::List(0, vec![]) },
        Entry { name: b"ia".to_vec(), value: Tag::IntArray(vec![i32::MIN, 0, 7]) },
        Entry { name: b"la".to_vec(), value: Tag::LongArray(vec![i64::MIN, 1, i64::MAX]) },
        Entry {
            name: b"inner".to_vec(),
            value: Tag::Compound(vec![Entry { name: b"x".to_vec(), value: Tag::Byte(1) }]),
        },
    ];
    Entry { name: b"root".to_vec(), value: Tag::Compound(children) }
}

#[test]
fn storage_version_document_decodes_and_reencodes() {
    let b = storage_version_doc();
    assert_eq!(b.len(), 25);
    let (root, used) = decode(&b).unwrap();
    assert_eq!(used, 25);
    assert!(root.name.is_empty());
    assert_eq!(
        root.value,
        Tag::Compound(vec![Entry { name: b"StorageVersion".to_vec(), value: Tag::Int(3) }])
    );
    assert_eq!(encode(&root), b);
}

#[test]
fn decode_of_encode_gives_the_tree_back() {
    let doc = every_kind();
    assert!(is_wf(&doc.value));
    let bytes = encode(&doc);
    let (back, used) = decode(&bytes).unwrap();
    assert_eq!(used, bytes.len());
    assert_eq!(back, doc);
}

#[test]
fn encoding_twice_gives_the_same_bytes() {
    let doc = every_kind();
    let first = encode(&doc);
    let second = encode(&doc);
    assert_eq!(first, second);
    let (back, _) = decode(&first).unwrap();
    assert_eq!(encode(&back), first);
}

#[test]
fn little_endian_values() {
    let doc = Entry { name: vec![], value: Tag::Int(0x0102_0304) };
    assert_eq!(encode(&doc), vec![3, 0, 0, 4, 3, 2, 1]);
    let doc = Entry { name: vec![], value: Tag::Short(-2) };
    assert_eq!(encode(&doc), vec![2, 0, 0, 0xfe, 0xff]);
    let doc = Entry { name: b"ab".to_vec(), value: Tag::Long(1) };
    assert_eq!(encode(&doc), vec![4, 2, 0, b'a', b'b', 1, 0, 0, 0, 0, 0, 0, 0]);
}

#[test]
fn empty_list_keeps_its_kind() {
    for k in [1u8, 3, 8, 10] {
        let b = vec![k, 0, 0, 0, 0];
        let (t, used) = read_payload(&b, 0, 9).unwrap();
        assert_eq!(used, 5);
        assert_eq!(t, Tag::List(k, vec![]));
        let mut out = Vec::new();
        write_payload(&t, &mut out);
        assert_eq!(out, b);
    }
}

#[test]
fn array_longer_than_input_is_truncated() {
    let b = vec![7u8, 0, 0, 10, 0, 0, 0, 1, 2, 3];
    assert_eq!(decode(&b), Err(DecodeError::TruncatedInput(7)));
    let b = vec![11u8, 0, 0, 2, 0, 0, 0, 1, 0, 0, 0];
    assert_eq!(decode(&b), Err(DecodeError::TruncatedInput(7)));
}

#[test]
fn short_reads_report_their_offset() {
    assert_eq!(decode(&[]), Err(DecodeError::TruncatedInput(0)));
    assert_eq!(decode(&[3, 0]), Err(DecodeError::TruncatedInput(1)));
    assert_eq!(decode(&[3, 5, 0, b'a']), Err(DecodeError::TruncatedInput(3)));
    assert_eq!(decode(&[3, 0, 0, 1, 2]), Err(DecodeError::TruncatedInput(3)));
    assert_eq!(decode(&[10, 0, 0, 1, 0, 0, 5]), Err(DecodeError::TruncatedInput(7)));
    let mut b = storage_version_doc();
    b.pop();
    assert_eq!(decode(&b), Err(DecodeError::TruncatedInput(24)));
}

#[test]
fn unknown_tag_ids_are_rejected() {
    assert_eq!(decode(&[13, 0, 0]), Err(DecodeError::UnknownTagId(13)));
    assert_eq!(decode(&[0]), Err(DecodeError::UnknownTagId(0)));
    assert_eq!(decode(&[9, 0, 0, 200, 0, 0, 0, 0]), Err(DecodeError::UnknownTagId(200)));
    assert_eq!(decode(&[9, 0, 0, 0, 1, 0, 0, 0]), Err(DecodeError::UnknownTagId(0)));
    assert_eq!(decode(&[10, 0, 0, 99, 0, 0]), Err(DecodeError::UnknownTagId(99)));
}

#[test]
fn decode_stops_at_the_end_of_the_root() {
    let mut b = storage_version_doc();
    b.extend_from_slice(&[1, 2, 3]);
    let (_, used) = decode(&b).unwrap();
    assert_eq!(used, 25);
}

#[test]
fn well_formedness_check() {
    assert!(is_wf(&Tag::List(3, vec![Tag::Int(1)])));
    assert!(!is_wf(&Tag::List(3, vec![Tag::Byte(1)])));
    assert!(!is_wf(&Tag::List(0, vec![Tag::Byte(1)])));
    assert!(!is_wf(&Tag::List(13, vec![])));
    assert!(!is_wf(&Tag::Str(vec![0; 70000])));
    assert!(is_wf(&Tag::Str(vec![0; 65535])));
}

#[test]
fn type_labels() {
    assert_eq!(tag_to_str(&Tag::Byte(0)), "i8");
    assert_eq!(tag_to_str(&Tag::Double(0)), "f64");
    assert_eq!(tag_to_str(&Tag::IntArray(vec![])), "[i32]");
    assert_eq!(tag_to_str(&Tag::List(0, vec![])), "List");
    assert_eq!(tag_to_str(&Tag::Compound(vec![])), "{}");
}

#[test]
fn accessors_check_the_kind() {
    assert_eq!(Tag::Int(7).as_int(), Ok(7));
    assert_eq!(Tag::Int(7).as_long(), Err(TypeMismatch { found: 3 }));
    assert_eq!(Tag::Byte(-1).as_byte(), Ok(-1));
    assert_eq!(Tag::Short(5).as_byte(), Err(TypeMismatch { found: 2 }));
    assert_eq!(Tag::Float(1.0f32.to_bits()).as_float_bits(), Ok(0x3f80_0000));
    assert_eq!(Tag::Str(b"x".to_vec()).as_str_bytes(), Ok(&b"x".to_vec()));
    assert_eq!(Tag::Byte(0).as_list(), Err(TypeMismatch { found: 1 }));
    let doc = every_kind();
    let children = doc.value.as_compound().unwrap();
    let names: Vec<&[u8]> = children.iter().map(|e| e.name.as_slice()).collect();
    assert_eq!(names[0], b"b");
    assert_eq!(names[12], b"inner");
    assert_eq!(children[8].value.as_list().unwrap().len(), 3);
}
