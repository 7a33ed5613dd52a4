use safecheckpoint::{DType, Error, Writer};

#[test]
fn test_writer_rejects_reserved_metadata_tensor_name() {
    let mut writer = Writer::new();
    let result = writer.add_tensor("__metadata__", DType::F32, vec![1], vec![0; 4]);
    assert!(
        matches!(result, Err(Error::ReservedTensorName { ref name }) if name == "__metadata__"),
        "Expected ReservedTensorName error for '__metadata__', got: {:?}",
        result
    );
}

fn names(writer: &Writer) -> Vec<String> {
    (0..writer.tensor_count()).map(|i| writer.tensor_at(i).0.clone()).collect()
}

#[test]
fn reserved_name_leaves_writer_unchanged() {
    let mut writer = Writer::new();
    writer.add_tensor("w", DType::U8, vec![1], vec![9]).unwrap();
    assert!(writer.add_tensor("__metadata__", DType::U8, vec![1], vec![1]).is_err());
    assert_eq!(names(&writer), vec!["w".to_string()]);
}

#[test]
fn tensors_are_listed_in_byte_order_of_names() {
    let mut writer = Writer::new();
    writer.add_tensor("z_tensor", DType::F64, vec![1], vec![1; 8]).unwrap();
    writer.add_tensor("a_tensor", DType::U8, vec![2], vec![2, 3]).unwrap();
    writer.add_tensor("M", DType::U8, vec![1], vec![4]).unwrap();
    writer.add_tensor("é", DType::U8, vec![1], vec![5]).unwrap();
    assert_eq!(names(&writer), vec!["M", "a_tensor", "z_tensor", "é"]);
}

#[test]
fn adding_a_name_again_replaces_the_tensor() {
    let mut writer = Writer::new();
    writer.add_tensor("w", DType::U8, vec![2], vec![1, 2]).unwrap();
    writer.add_tensor("w", DType::I16, vec![1], vec![7, 7]).unwrap();
    assert_eq!(writer.tensor_count(), 1);
    let (name, entry) = writer.tensor_at(0);
    assert_eq!(name, "w");
    assert_eq!(entry.0, DType::I16);
    assert_eq!(entry.2, vec![7, 7]);
}

#[test]
fn add_tensor_returns_the_writer_for_chaining() {
    let mut writer = Writer::new();
    writer
        .add_tensor("a", DType::U8, vec![1], vec![1])
        .unwrap()
        .add_tensor("b", DType::U8, vec![1], vec![2])
        .unwrap()
        .add_metadata("k", "v");
    assert_eq!(names(&writer), vec!["a", "b"]);
}

#[test]
fn add_tensors_later_entries_win_and_reserved_name_is_not_checked() {
    let mut writer = Writer::new();
    writer.add_tensors(vec![
        ("bulk1".to_string(), (DType::BOOL, vec![1], vec![0])),
        ("bulk2".to_string(), (DType::I32, vec![1], vec![0, 0, 0, 0])),
        ("bulk1".to_string(), (DType::U8, vec![2], vec![1, 1])),
        ("__metadata__".to_string(), (DType::U8, vec![1], vec![3])),
    ]);
    assert_eq!(names(&writer), vec!["__metadata__", "bulk1", "bulk2"]);
    assert_eq!(writer.tensor_at(1).1 .0, DType::U8);
}

#[test]
fn metadata_is_kept_sorted_and_replaced() {
    let mut writer = Writer::new();
    writer.add_metadata("key1", "val1").add_metadata("", "").add_metadata("key1", "val2");
    let table = writer.metadata_table();
    assert_eq!(table.len(), 2);
    assert_eq!(table.get("key1").map(|s| s.as_str()), Some("val2"));
    assert_eq!(table.get("").map(|s| s.as_str()), Some(""));
    assert_eq!(table.keys(), vec!["".to_string(), "key1".to_string()]);
}

#[test]
fn build_header_lays_tensors_out_in_name_order() {
    let mut writer = Writer::new();
    writer.add_tensor("beta", DType::I64, vec![4], vec![0xBB; 32]).unwrap();
    writer.add_tensor("alpha", DType::F32, vec![2, 2], vec![0xAA; 16]).unwrap();
    writer.add_metadata("creator", "suite");
    let (header, total) = writer.build_header().unwrap();
    assert_eq!(total, 48);
    assert_eq!(header.schema_version, 1);
    let alpha = header.tensors.get("alpha").unwrap();
    assert_eq!(alpha.data_offsets, [0, 16]);
    assert_eq!(alpha.shape, vec![2, 2]);
    assert_eq!(alpha.checksum, Some(crc32fast::hash(&[0xAA; 16])));
    let beta = header.tensors.get("beta").unwrap();
    assert_eq!(beta.data_offsets, [16, 48]);
    assert_eq!(beta.dtype, DType::I64);
    assert_eq!(beta.checksum, Some(crc32fast::hash(&[0xBB; 32])));
    assert_eq!(header.metadata.get("creator").map(|s| s.as_str()), Some("suite"));
}

#[test]
fn build_header_rejects_shape_size_mismatch() {
    let mut writer = Writer::new();
    writer.add_tensor("w1", DType::F32, vec![2, 2], vec![0; 4]).unwrap();
    let result = writer.build_header();
    assert!(
        matches!(
            result,
            Err(Error::SizeMismatch { ref tensor_name, expected: 16, actual: 4 }) if tensor_name == "w1"
        ),
        "Expected SizeMismatch error, got: {:?}",
        result.err()
    );
}

#[test]
fn build_header_reports_first_bad_tensor_in_name_order() {
    let mut writer = Writer::new();
    writer.add_tensor("b", DType::U8, vec![3], vec![0; 2]).unwrap();
    writer.add_tensor("a", DType::U8, vec![usize::MAX, 2], vec![0; 1]).unwrap();
    match writer.build_header() {
        Err(Error::InvalidFormat { offset, message }) => {
            assert_eq!(offset, 0);
            assert_eq!(message, "tensor 'a' shape size computation overflowed");
        }
        other => panic!("expected InvalidFormat for 'a', got {:?}", other.err()),
    }
}

#[test]
fn empty_writer_has_empty_header() {
    let writer = Writer::new();
    let (header, total) = writer.build_header().unwrap();
    assert_eq!(total, 0);
    assert!(header.tensors.is_empty());
    assert!(header.metadata.is_empty());
}

#[test]
fn encode_lays_out_prefix_header_digest_and_data() {
    let mut writer = Writer::new();
    writer.add_tensor("w", DType::U8, vec![3], vec![1, 2, 3]).unwrap();
    writer.add_tensor("v", DType::U8, vec![2], vec![9, 8]).unwrap();
    let json = b"{\"schema_version\":1}";
    let bytes = writer.encode_checkpoint(json).unwrap();
    assert_eq!(bytes.len(), 8 + json.len() + 32 + 5);
    assert_eq!(&bytes[0..8], &(json.len() as u64).to_le_bytes());
    assert_eq!(&bytes[8..8 + json.len()], json);
    let mut hasher = blake3::Hasher::new();
    hasher.update(&(json.len() as u64).to_le_bytes());
    hasher.update(json);
    assert_eq!(&bytes[8 + json.len()..8 + json.len() + 32], hasher.finalize().as_bytes());
    // "v" sorts before "w".
    assert_eq!(&bytes[8 + json.len() + 32..], &[9, 8, 1, 2, 3]);
}

#[test]
fn encode_range_takes_only_the_given_tensors() {
    let mut writer = Writer::new();
    for (i, name) in ["t1", "t2", "t3"].iter().enumerate() {
        writer.add_tensor(name, DType::U8, vec![1], vec![i as u8]).unwrap();
    }
    let (header, total) = writer.build_header_range(1, 3).unwrap();
    assert_eq!(total, 2);
    assert_eq!(header.tensors.keys(), vec!["t2".to_string(), "t3".to_string()]);
    assert_eq!(header.tensors.get("t3").unwrap().data_offsets, [1, 2]);
    let bytes = writer.encode_checkpoint_range(b"{}", 1, 3).unwrap();
    assert_eq!(&bytes[8 + 2 + 32..], &[1, 2]);
}

#[test]
fn insertion_order_does_not_change_the_file() {
    let mut first = Writer::new();
    first.add_tensor("b", DType::U8, vec![2], vec![3, 4]).unwrap();
    first.add_tensor("a", DType::U8, vec![1], vec![1]).unwrap();
    first.add_tensor("c", DType::I16, vec![1], vec![5, 6]).unwrap();
    let mut second = Writer::new();
    second.add_tensor("c", DType::I16, vec![1], vec![5, 6]).unwrap();
    second.add_tensor("a", DType::U8, vec![1], vec![1]).unwrap();
    second.add_tensor("b", DType::U8, vec![2], vec![3, 4]).unwrap();
    assert_eq!(names(&first), names(&second));
    let (h1, t1) = first.build_header().unwrap();
    let (h2, t2) = second.build_header().unwrap();
    assert_eq!(t1, t2);
    assert_eq!(h1.tensors.keys(), h2.tensors.keys());
    assert_eq!(
        first.encode_checkpoint(b"{\"x\":1}").unwrap(),
        second.encode_checkpoint(b"{\"x\":1}").unwrap()
    );
}

#[test]
fn layout_places_each_tensor_where_encode_puts_it() {
    let mut writer = Writer::new();
    writer.add_tensor("b", DType::U8, vec![2], vec![3, 4]).unwrap();
    writer.add_tensor("a", DType::U8, vec![1], vec![1]).unwrap();
    writer.add_tensor("c", DType::I16, vec![1], vec![5, 6]).unwrap();
    let json = b"{\"k\":0}";
    let (frame, offsets) = writer.layout_range(json, 0, 3).unwrap();
    assert_eq!(frame.len(), 8 + json.len() + 32);
    assert_eq!(offsets, vec![frame.len(), frame.len() + 1, frame.len() + 3, frame.len() + 5]);
    let mut file = vec![0u8; offsets[3]];
    file[..frame.len()].copy_from_slice(&frame);
    for i in 0..3 {
        let (_, entry) = writer.tensor_at(i);
        file[offsets[i]..offsets[i + 1]].copy_from_slice(&entry.2);
    }
    assert_eq!(file, writer.encode_checkpoint_range(json, 0, 3).unwrap());
    let (frame, offsets) = writer.layout_range(json, 1, 3).unwrap();
    assert_eq!(offsets, vec![frame.len(), frame.len() + 2, frame.len() + 4]);
}

#[test]
fn recorded_checksum_is_the_standard_crc32() {
    let mut writer = Writer::new();
    writer.add_tensor("digits", DType::U8, vec![9], b"123456789".to_vec()).unwrap();
    let (header, _) = writer.build_header().unwrap();
    assert_eq!(header.tensors.get("digits").unwrap().checksum, Some(0xCBF4_3926));
}
