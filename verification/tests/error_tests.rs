use safecheckpoint::Error;

#[test]
fn tensor_not_found_message_names_the_tensor() {
    let e = Error::TensorNotFound("w1".to_string());
    assert_eq!(e.to_message(), "tensor 'w1' not found in checkpoint");
}

#[test]
fn invalid_format_message_gives_offset_in_decimal() {
    let e = Error::InvalidFormat { offset: 1024, message: "bad header".to_string() };
    assert_eq!(e.to_message(), "invalid checkpoint format at offset 1024: bad header");
}

#[test]
fn size_mismatch_message() {
    let e = Error::SizeMismatch { tensor_name: "w".to_string(), expected: 16, actual: 0 };
    assert_eq!(e.to_message(), "tensor 'w' size mismatch: expected 16, found 0");
}

#[test]
fn offset_overflow_message() {
    let e = Error::OffsetOverflow { tensor_name: "w".to_string(), offset: usize::MAX };
    assert_eq!(
        e.to_message(),
        format!("tensor 'w' offset overflow: offset {} exceeds addressable range", usize::MAX)
    );
}

#[test]
fn checksum_message() {
    let e = Error::Checksum { tensor_name: "w".to_string(), expected: 4294967295, actual: 7 };
    assert_eq!(
        e.to_message(),
        "checksum validation failed for 'w': expected 4294967295, found 7"
    );
}

#[test]
fn shard_verification_message_wraps_the_inner_message() {
    let e = Error::ShardVerification {
        shard: "m-00001-of-00002.safetensors".to_string(),
        source: Box::new(Error::TensorNotFound("t2".to_string())),
    };
    assert_eq!(
        e.to_message(),
        "shard verification failed for 'm-00001-of-00002.safetensors': tensor 't2' not found in checkpoint"
    );
}

#[test]
fn unsupported_version_message() {
    let e = Error::UnsupportedVersion { found: 2, supported: 1 };
    assert_eq!(e.to_message(), "unsupported checkpoint schema version 2 (supported: 1)");
}

#[test]
fn path_reserved_header_and_argument_messages() {
    let e = Error::PathTraversal { path: "../x".to_string(), reason: "directory contains '..'".to_string() };
    assert_eq!(e.to_message(), "path traversal blocked for '../x': directory contains '..'");
    let e = Error::ReservedTensorName { name: "__metadata__".to_string() };
    assert_eq!(e.to_message(), "reserved tensor name '__metadata__' is not allowed");
    let e = Error::HeaderChecksum { expected: "ab".to_string(), actual: "cd".to_string() };
    assert_eq!(e.to_message(), "header checksum mismatch: expected ab, found cd");
    let e = Error::InvalidArgument { parameter: "num_shards".to_string(), reason: "zero".to_string() };
    assert_eq!(e.to_message(), "invalid argument 'num_shards': zero");
}

#[test]
fn wrapped_io_and_json_errors_keep_their_text() {
    let io = std::io::Error::new(std::io::ErrorKind::Other, "disk on fire");
    assert_eq!(Error::from(io).to_message(), "i/o error: disk on fire");
    let json = serde_json::from_str::<serde_json::Value>("{").unwrap_err();
    let text = json.to_string();
    assert_eq!(Error::from(json).to_message(), format!("json error: {text}"));
    let io = std::io::Error::new(std::io::ErrorKind::Other, "busy");
    assert_eq!(Error::AtomicRename(io).to_message(), "atomic save (rename) failed: busy");
    let io = std::io::Error::new(std::io::ErrorKind::Other, "gone");
    assert_eq!(Error::AtomicCleanup(io).to_message(), "atomic save (cleanup) failed: gone");
}
