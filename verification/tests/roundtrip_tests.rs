use safecheckpoint::paths::reject_parent_dir;
use safecheckpoint::reader::{locate_header, Checkpoint};
use safecheckpoint::{CheckpointHeader, DType, Error, Writer};
use serde_json::{Map as JsonMap, Value};

/// The header in the on-disk JSON layout: tensor entries at the top level
/// beside `schema_version`, global metadata under `__metadata__`.
fn header_json(header: &CheckpointHeader) -> Vec<u8> {
    let mut obj = JsonMap::new();
    obj.insert("schema_version".to_string(), Value::from(header.schema_version));
    for i in 0..header.tensors.len() {
        let (name, meta) = header.tensors.entry(i);
        let mut t = JsonMap::new();
        t.insert("dtype".to_string(), Value::from(format!("{:?}", meta.dtype)));
        t.insert("shape".to_string(), Value::from(meta.shape.clone()));
        t.insert("data_offsets".to_string(), Value::from(meta.data_offsets.to_vec()));
        if let Some(c) = meta.checksum {
            t.insert("checksum".to_string(), Value::from(c));
        }
        obj.insert(name.clone(), Value::Object(t));
    }
    if !header.metadata.is_empty() {
        let mut m = JsonMap::new();
        for i in 0..header.metadata.len() {
            let (k, v) = header.metadata.entry(i);
            m.insert(k.clone(), Value::from(v.clone()));
        }
        obj.insert("__metadata__".to_string(), Value::Object(m));
    }
    serde_json::to_vec(&Value::Object(obj)).unwrap()
}

/// Lays the writer's tensors out as a checkpoint file and opens it again:
/// the bytes a save writes, and the checkpoint a read of them yields.
fn save_and_open(writer: &Writer) -> Result<(Vec<u8>, Checkpoint), Error> {
    let (header, _) = writer.build_header()?;
    let bytes = writer.encode_checkpoint(&header_json(&header))?;
    let frame = locate_header(&bytes)?;
    let checkpoint = Checkpoint::new(header, frame, bytes.len())?;
    Ok((bytes, checkpoint))
}

#[test]
fn test_path_traversal_in_tensor_name() -> Result<(), Error> {
    let mut writer = Writer::new();
    // Path traversal in tensor name (should just be treated as a weird string)
    writer.add_tensor("../w1", DType::F32, vec![1], vec![0; 4])?;
    let (bytes, reader) = save_and_open(&writer)?;
    let tensor = reader.get_tensor(&bytes, "../w1")?;
    assert_eq!(tensor.metadata.dtype, DType::F32);
    Ok(())
}

#[test]
fn test_path_traversal_in_save() -> Result<(), Error> {
    let dir = std::path::PathBuf::from("/srv/checkpoints");
    let path = dir.join("legit_dir").join("../malicious.safetensors");

    let mut writer = Writer::new();
    writer.add_tensor("w1", DType::F32, vec![1], vec![0; 4])?;

    let res = reject_parent_dir(path.to_str().unwrap());
    assert!(res.is_err());
    match res.unwrap_err() {
        Error::PathTraversal { reason, .. } => assert!(!reason.is_empty()),
        other => panic!("Expected PathTraversal error, got {other:?}"),
    }

    let legit = dir.join("../legit");
    let res = Writer::validate_shard_args(legit.to_str().unwrap(), "model", 2);
    assert!(res.is_err());
    match res.unwrap_err() {
        Error::PathTraversal { reason, .. } => assert!(reason.contains("'..'")),
        other => panic!("Expected PathTraversal error, got {other:?}"),
    }

    let res = Writer::validate_shard_args(dir.to_str().unwrap(), "../model", 2);
    assert!(res.is_err());
    match res.unwrap_err() {
        Error::PathTraversal { reason, .. } => assert!(!reason.is_empty()),
        other => panic!("Expected PathTraversal error, got {other:?}"),
    }
    Ok(())
}

#[test]
fn test_null_bytes_and_unicode() -> Result<(), Error> {
    let mut writer = Writer::new();
    writer.add_tensor("w1\0null", DType::F32, vec![1], vec![0; 4])?;
    writer.add_tensor("w2🌟", DType::F32, vec![1], vec![0; 4])?;
    writer.add_metadata("key\0", "val\0");
    writer.add_metadata("key🌟", "val🌟");

    let (bytes, reader) = save_and_open(&writer)?;
    assert!(reader.get_tensor(&bytes, "w1\0null").is_ok());
    assert!(reader.get_tensor(&bytes, "w2🌟").is_ok());

    let meta = reader.metadata();
    assert_eq!(meta.get("key\0").map(|s| s.as_str()), Some("val\0"));
    assert_eq!(meta.get("key🌟").map(|s| s.as_str()), Some("val🌟"));
    Ok(())
}

#[test]
fn test_empty_and_huge_inputs() -> Result<(), Error> {
    let mut writer = Writer::new();
    writer.add_tensor("empty", DType::U8, vec![0], vec![])?;
    writer.add_tensor("0xff", DType::U8, vec![1024], vec![0xFF; 1024])?;
    let huge_data = vec![0x42; 2 * 1024 * 1024];
    writer.add_tensor("huge", DType::U8, vec![2 * 1024 * 1024], huge_data.clone())?;

    let (bytes, reader) = save_and_open(&writer)?;
    let t_empty = reader.get_tensor(&bytes, "empty")?;
    assert_eq!(t_empty.data.len(), 0);

    let t_ff = reader.get_tensor(&bytes, "0xff")?;
    assert_eq!(t_ff.data, vec![0xFF; 1024].as_slice());

    let t_huge = reader.get_tensor(&bytes, "huge")?;
    assert_eq!(t_huge.data.len(), 2 * 1024 * 1024);
    assert_eq!(t_huge.data[0], 0x42);
    Ok(())
}

#[test]
fn test_extreme_boundary_tensors() {
    let mut writer = Writer::new();
    writer.add_tensor("t_empty", DType::U8, vec![0], vec![]).unwrap();
    writer.add_tensor("t_single", DType::U8, vec![1], vec![0x42]).unwrap();
    writer.add_tensor("t_zeros", DType::U8, vec![1024], vec![0x00; 1024]).unwrap();
    writer.add_tensor("t_ffs", DType::U8, vec![1024], vec![0xFF; 1024]).unwrap();
    let mut alternating = vec![0; 1024];
    for (i, byte) in alternating.iter_mut().enumerate() {
        *byte = if i % 2 == 0 { 0xAA } else { 0x55 };
    }
    writer.add_tensor("t_alt", DType::U8, vec![1024], alternating.clone()).unwrap();
    writer.add_tensor("t_1mb", DType::U8, vec![1024 * 1024], vec![0x11; 1024 * 1024]).unwrap();

    let (bytes, reader) = save_and_open(&writer).expect("Engine failed to open boundaries file");

    let empty_data: &[u8] = &[];
    let single_data: &[u8] = &[0x42];
    let get = |name: &str| reader.get_tensor(&bytes, name);
    assert_eq!(get("t_empty").expect("Failed to get t_empty").data, empty_data, "Empty tensor data mismatch");
    assert_eq!(get("t_single").expect("Failed to get t_single").data, single_data, "Single byte tensor data mismatch");
    assert_eq!(get("t_zeros").expect("Failed to get t_zeros").data, vec![0x00; 1024].as_slice(), "All zeros tensor data mismatch");
    assert_eq!(get("t_ffs").expect("Failed to get t_ffs").data, vec![0xFF; 1024].as_slice(), "All 0xFF tensor data mismatch");
    assert_eq!(get("t_alt").expect("Failed to get t_alt").data, alternating.as_slice(), "Alternating pattern tensor data mismatch");
    assert_eq!(get("t_1mb").expect("Failed to get t_1mb").data.len(), 1024 * 1024, "1MB tensor size mismatch");
}

#[test]
fn test_hash_collision_maximization() {
    let mut writer = Writer::new();
    for i in 0..10_000 {
        let key = format!("tensor_{:08x}_{}", i, "A".repeat(i % 100));
        writer.add_tensor(&key, DType::U8, vec![1], vec![0]).unwrap();
    }

    let res = save_and_open(&writer);
    assert!(res.is_ok(), "Engine failed to handle large number of keys");
    let (bytes, reader) = res.unwrap();
    let first_key = format!("tensor_{:08x}_{}", 0, "A".repeat(0));
    let last_key = format!("tensor_{:08x}_{}", 9999, "A".repeat(9999 % 100));
    assert!(reader.get_tensor(&bytes, &first_key).is_ok(), "Engine failed to retrieve first tensor from large map");
    assert!(reader.get_tensor(&bytes, &last_key).is_ok(), "Engine failed to retrieve last tensor from large map");
}

#[test]
fn test_metadata_boundaries() {
    let mut writer = Writer::new();
    writer.add_tensor("t1", DType::U8, vec![1], vec![0]).unwrap();
    writer.add_metadata("empty_key", "");
    writer.add_metadata("", "empty_val");
    writer.add_metadata(&"A".repeat(100_000), &"B".repeat(100_000));
    writer.add_metadata("escape\"\n\t\r\\", "val\"\n\t\r\\");
    writer.add_metadata("unicode_\u{1F980}", "val_\u{1F980}");

    let (_, reader) = save_and_open(&writer).expect("Engine failed to save metadata boundaries");
    let meta = reader.metadata();
    assert_eq!(meta.get("empty_key").map(|s| s.as_str()), Some(""), "Engine failed to store empty metadata value");
    assert_eq!(meta.get("").map(|s| s.as_str()), Some("empty_val"), "Engine failed to store empty metadata key");
    assert_eq!(meta.get("escape\"\n\t\r\\").map(|s| s.as_str()), Some("val\"\n\t\r\\"), "Engine failed to store escaped metadata strings");
    assert_eq!(meta.get("unicode_\u{1F980}").map(|s| s.as_str()), Some("val_\u{1F980}"), "Engine failed to store unicode metadata");
    assert_eq!(meta.get(&"A".repeat(100_000)).expect("Failed to get large metadata").len(), 100_000, "Engine failed to store large metadata length");
}

#[test]
fn test_integer_overflow_shape_size() {
    let mut writer = Writer::new();
    writer.add_tensor("w1", DType::F32, vec![1024, 1024, 1024, 1024], vec![0; 4]).unwrap();
    match save_and_open(&writer) {
        // Rejected before anything is written.
        Err(_) => {}
        Ok((bytes, reader)) => {
            let t = reader.get_tensor(&bytes, "w1");
            assert!(t.is_err(), "Engine failed to catch shape size mismatch");
        }
    }
}

#[test]
fn test_gap_empty_checkpoint_write_read() {
    let writer = Writer::new();
    let (_, reader) = save_and_open(&writer).expect("opening empty checkpoint should succeed");
    assert!(reader.tensor_names().is_empty(), "empty checkpoint must contain no tensor names");
}

#[test]
fn test_save_load_single_file() {
    let mut writer = Writer::new();
    let data = vec![1, 2, 3, 4, 5, 6, 7, 8, 9, 10, 11, 12, 13, 14, 15, 16];
    writer.add_tensor("w1", DType::F32, vec![2, 2], data.clone()).unwrap();
    writer.add_metadata("author", "santh");
    let (bytes, reader) = save_and_open(&writer).expect("failed to open");
    let tensor = reader.get_tensor(&bytes, "w1").expect("failed to get tensor");

    assert_eq!(tensor.metadata.dtype, DType::F32);
    assert_eq!(tensor.metadata.shape, vec![2, 2]);
    assert_eq!(tensor.data, &data);
    assert_eq!(reader.metadata().get("author").unwrap(), "santh");
}

#[test]
fn test_zero_byte_tensor() {
    let mut writer = Writer::new();
    writer.add_tensor("empty", DType::U8, vec![0], vec![]).unwrap();
    let (bytes, reader) = save_and_open(&writer).unwrap();
    let tensor = reader.get_tensor(&bytes, "empty").unwrap();
    assert_eq!(tensor.data.len(), 0);
}

#[test]
fn test_integration_full_workflow() {
    let mut writer = Writer::new();
    writer.add_tensor("w1", DType::F32, vec![2, 2], vec![0; 16]).unwrap();
    writer.add_tensor("w2", DType::I32, vec![1, 1], vec![1; 4]).unwrap();
    writer.add_metadata("type", "test_integration");
    let (bytes, reader) = save_and_open(&writer).unwrap();
    assert_eq!(reader.metadata().get("type").unwrap(), "test_integration");

    let t1 = reader.get_tensor(&bytes, "w1").unwrap();
    assert_eq!(t1.metadata.dtype, DType::F32);
    assert_eq!(t1.data.len(), 16);

    let t2 = reader.get_tensor(&bytes, "w2").unwrap();
    assert_eq!(t2.metadata.dtype, DType::I32);
    assert_eq!(t2.data.len(), 4);
    assert_eq!(t2.data[0], 1);
}

#[test]
fn test_writer_new_empty_save_and_load() -> Result<(), Error> {
    let writer = Writer::new();
    let (_, reader) = save_and_open(&writer)?;
    assert_eq!(reader.tensor_names().len(), 0);
    assert_eq!(reader.metadata().len(), 0);
    Ok(())
}

#[test]
fn test_writer_add_tensor_mix_and_order() -> Result<(), Error> {
    let mut writer = Writer::new();
    writer.add_tensor("z_tensor", DType::F64, vec![1], vec![1; 8])?;
    writer.add_tensor("a_tensor", DType::U8, vec![2], vec![2, 3])?;
    let (bytes, reader) = save_and_open(&writer)?;

    let mut names = reader.tensor_names();
    names.sort();
    assert_eq!(names, vec!["a_tensor", "z_tensor"]);

    let t_a = reader.get_tensor(&bytes, "a_tensor")?;
    assert_eq!(t_a.data, &[2, 3]);
    assert_eq!(t_a.metadata.dtype, DType::U8);

    let t_z = reader.get_tensor(&bytes, "z_tensor")?;
    assert_eq!(t_z.data, &[1; 8]);
    assert_eq!(t_z.metadata.dtype, DType::F64);
    Ok(())
}

#[test]
fn test_writer_add_tensors_and_metadata() -> Result<(), Error> {
    let mut writer = Writer::new();
    let bulk = vec![
        ("bulk1".to_string(), (DType::BOOL, vec![1], vec![0])),
        ("bulk2".to_string(), (DType::I32, vec![1], vec![0, 0, 0, 0])),
    ];
    writer.add_tensors(bulk);
    writer.add_metadata("key1", "val1");
    writer.add_metadata("", "");

    let (_, reader) = save_and_open(&writer)?;
    assert_eq!(reader.tensor_names().len(), 2);
    let meta = reader.metadata();
    assert_eq!(meta.get("key1").map(|s| s.as_str()), Some("val1"));
    assert_eq!(meta.get("").map(|s| s.as_str()), Some(""));
    Ok(())
}

#[test]
fn test_reader_edge_cases() -> Result<(), Error> {
    let mut writer = Writer::new();
    writer.add_tensor("w1", DType::F32, vec![1], vec![0; 4])?;
    let (bytes, reader) = save_and_open(&writer)?;
    let res = reader.get_tensor(&bytes, "missing_tensor");
    assert!(res.is_err());
    match res.unwrap_err() {
        Error::TensorNotFound(name) => assert_eq!(name, "missing_tensor"),
        _ => panic!("Expected TensorNotFound error"),
    }
    Ok(())
}

#[test]
fn test_reader_invalid_tensor_name() {
    let mut writer = Writer::new();
    writer.add_tensor("w1", DType::F32, vec![1], vec![0, 0, 0, 0]).unwrap();
    let (bytes, reader) = save_and_open(&writer).unwrap();
    let res = reader.get_tensor(&bytes, "w2");
    assert!(res.is_err());
    match res.unwrap_err() {
        Error::TensorNotFound(name) => assert_eq!(name, "w2"),
        other => panic!("Expected TensorNotFound error, got: {:?}", other),
    }
}

#[test]
fn test_save_sharded_zero_shards_errors_not_panics() {
    let dir = std::path::PathBuf::from("/srv/checkpoints");
    let err = Writer::validate_shard_args(dir.to_str().unwrap(), "model", 0)
        .expect_err("num_shards=0 must be rejected, not panic");
    match err {
        Error::InvalidArgument { parameter, .. } => assert_eq!(parameter, "num_shards"),
        other => panic!("expected InvalidArgument, got {other:?}"),
    }
}

#[test]
fn test_is_shard_valid_invalidated_by_metadata_or_shape_mismatch() {
    let mut writer1 = Writer::new();
    writer1.add_tensor("t1", DType::F32, vec![1], vec![1, 0, 0, 0]).unwrap();
    writer1.add_metadata("version", "1");
    let (old_bytes, old_shard) = save_and_open(&writer1).unwrap();

    let mut writer2 = Writer::new();
    writer2.add_tensor("t1", DType::F32, vec![1], vec![2, 0, 0, 0]).unwrap();
    writer2.add_metadata("version", "2");

    // The existing shard holds other data and metadata than writer2's, so it is rewritten.
    assert!(!writer2.shard_is_current(0, 1, &old_shard, &old_bytes));
    let (bytes, reader) = save_and_open(&writer2).unwrap();
    assert_eq!(
        reader.metadata().get("version").unwrap(),
        "2",
        "shard must have been rewritten with updated metadata"
    );
    let tensor = reader.get_tensor(&bytes, "t1").unwrap();
    assert_eq!(tensor.data, vec![2, 0, 0, 0]);
}

#[test]
fn test_writer_basic_save_and_load() {
    let mut writer = Writer::new();
    writer
        .add_tensor(
            "w1",
            DType::F32,
            vec![2, 2],
            vec![0, 1, 2, 3, 4, 5, 6, 7, 8, 9, 10, 11, 12, 13, 14, 15],
        )
        .unwrap();
    writer.add_metadata("format", "pt");
    let (bytes, reader) = save_and_open(&writer).unwrap();
    assert_eq!(reader.tensor_names(), vec!["w1".to_string()]);

    let t1 = reader.get_tensor(&bytes, "w1").unwrap();
    assert_eq!(t1.metadata.shape, vec![2, 2]);
    assert_eq!(t1.metadata.dtype, DType::F32);
    assert_eq!(t1.data, vec![0, 1, 2, 3, 4, 5, 6, 7, 8, 9, 10, 11, 12, 13, 14, 15]);
    assert_eq!(reader.metadata().get("format").unwrap(), "pt");
}

#[test]
fn test_writer_rejects_shape_size_mismatch() {
    let mut writer = Writer::new();
    // Claim shape [2,2] (16 bytes for F32) but provide only 4 bytes
    writer.add_tensor("w1", DType::F32, vec![2, 2], vec![0; 4]).unwrap();
    let result = save_and_open(&writer).map(|_| ());
    assert!(
        matches!(
            result,
            Err(Error::SizeMismatch { ref tensor_name, expected: 16, actual: 4 }) if tensor_name == "w1"
        ),
        "Expected SizeMismatch error, got: {:?}",
        result
    );
}

#[test]
fn test_writer_rejects_path_traversal() {
    let path = std::path::PathBuf::from("/srv/checkpoints").join("..").join("escape.safetensors");
    let result = reject_parent_dir(path.to_str().unwrap());
    assert!(
        matches!(result, Err(Error::PathTraversal { .. })),
        "Expected PathTraversal error, got: {:?}",
        result
    );
}
