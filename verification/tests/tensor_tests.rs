use safecheckpoint::error::Error;
use safecheckpoint::tensor::{default_schema_version, DType, TensorMetadata, CURRENT_SCHEMA_VERSION};

#[test]
fn test_tensor_test_dtype_size_in_bytes() {
    assert_eq!(DType::F64.size_in_bytes(), 8);
    assert_eq!(DType::I64.size_in_bytes(), 8);
    assert_eq!(DType::U64.size_in_bytes(), 8);
    assert_eq!(DType::F32.size_in_bytes(), 4);
    assert_eq!(DType::I32.size_in_bytes(), 4);
    assert_eq!(DType::U32.size_in_bytes(), 4);
    assert_eq!(DType::F16.size_in_bytes(), 2);
    assert_eq!(DType::BF16.size_in_bytes(), 2);
    assert_eq!(DType::I16.size_in_bytes(), 2);
    assert_eq!(DType::U16.size_in_bytes(), 2);
    assert_eq!(DType::I8.size_in_bytes(), 1);
    assert_eq!(DType::U8.size_in_bytes(), 1);
    assert_eq!(DType::BOOL.size_in_bytes(), 1);
}

#[test]
fn test_depth_unit_test_dtype_size_in_bytes() -> std::result::Result<(), Box<dyn std::error::Error>> {
    assert_eq!(DType::F64.size_in_bytes(), 8);
    assert_eq!(DType::F32.size_in_bytes(), 4);
    assert_eq!(DType::F16.size_in_bytes(), 2);
    assert_eq!(DType::BF16.size_in_bytes(), 2);
    assert_eq!(DType::I64.size_in_bytes(), 8);
    assert_eq!(DType::I32.size_in_bytes(), 4);
    assert_eq!(DType::I16.size_in_bytes(), 2);
    assert_eq!(DType::I8.size_in_bytes(), 1);
    assert_eq!(DType::U64.size_in_bytes(), 8);
    assert_eq!(DType::U32.size_in_bytes(), 4);
    assert_eq!(DType::U16.size_in_bytes(), 2);
    assert_eq!(DType::U8.size_in_bytes(), 1);
    assert_eq!(DType::BOOL.size_in_bytes(), 1);
    Ok(())
}

#[test]
fn test_tensor_metadata_validate_valid() {
    let metadata = TensorMetadata {
        dtype: DType::F32,
        shape: vec![2, 2],
        data_offsets: [0, 16],
        checksum: None,
    };
    assert!(metadata.validate().is_ok());
}

#[test]
fn test_tensor_metadata_validate_invalid_offsets() {
    let metadata = TensorMetadata {
        dtype: DType::F32,
        shape: vec![2, 2],
        data_offsets: [16, 0],
        checksum: None,
    };
    let result = metadata.validate();
    assert!(result.is_err());
    match result {
        Err(Error::InvalidFormat { offset, message }) => {
            assert_eq!(offset, 16);
            assert_eq!(message, "data_offsets start is greater than end");
        }
        other => panic!("Expected InvalidFormat error, got: {:?}", other),
    }
}

#[test]
fn test_tensor_metadata_validate_size_mismatch() {
    let metadata = TensorMetadata {
        dtype: DType::F32,
        shape: vec![2, 2],
        data_offsets: [0, 4],
        checksum: None,
    };
    let result = metadata.validate();
    assert!(
        matches!(
            result,
            Err(Error::SizeMismatch { expected: 16, actual: 4, .. })
        ),
        "Expected SizeMismatch for data length mismatch, got: {:?}",
        result
    );
}

#[test]
fn test_tensor_metadata_validate() -> std::result::Result<(), Box<dyn std::error::Error>> {
    // Valid cases
    let valid_meta = TensorMetadata {
        dtype: DType::F32,
        shape: vec![1, 2],
        data_offsets: [0, 8],
        checksum: None,
    };
    assert!(valid_meta.validate().is_ok());

    let empty_meta = TensorMetadata {
        dtype: DType::F32,
        shape: vec![0],
        data_offsets: [0, 0],
        checksum: None,
    };
    assert!(empty_meta.validate().is_ok());

    // Invalid cases
    let invalid_meta = TensorMetadata {
        dtype: DType::F32,
        shape: vec![1, 2],
        data_offsets: [8, 0], // start > end
        checksum: None,
    };
    let res = invalid_meta.validate();
    assert!(res.is_err());
    match res.unwrap_err() {
        Error::InvalidFormat { offset, .. } => assert_eq!(offset, 8),
        _ => panic!("Expected InvalidFormat error"),
    }

    Ok(())
}

#[test]
fn validate_reports_overflowing_shape() {
    let metadata = TensorMetadata {
        dtype: DType::F64,
        shape: vec![usize::MAX, 2, 0],
        data_offsets: [3, 3],
        checksum: None,
    };
    match metadata.validate() {
        Err(Error::InvalidFormat { offset, message }) => {
            assert_eq!(offset, 3);
            assert_eq!(message, "tensor shape size computation overflowed");
        }
        other => panic!("expected InvalidFormat, got {other:?}"),
    }
}

#[test]
fn validate_reports_overflow_in_final_multiplication_by_width() {
    // The element count fits, but multiplying by the 8-byte width does not.
    let metadata = TensorMetadata {
        dtype: DType::U64,
        shape: vec![usize::MAX / 4],
        data_offsets: [0, 0],
        checksum: None,
    };
    assert!(matches!(metadata.validate(), Err(Error::InvalidFormat { .. })));
}

#[test]
fn validate_size_mismatch_names_validation() {
    let metadata = TensorMetadata {
        dtype: DType::BF16,
        shape: vec![3],
        data_offsets: [10, 15],
        checksum: Some(7),
    };
    match metadata.validate() {
        Err(Error::SizeMismatch { tensor_name, expected, actual }) => {
            assert_eq!(tensor_name, "(validation)");
            assert_eq!(expected, 6);
            assert_eq!(actual, 5);
        }
        other => panic!("expected SizeMismatch, got {other:?}"),
    }
}

#[test]
fn scalar_shape_is_one_element() {
    let metadata = TensorMetadata {
        dtype: DType::I32,
        shape: vec![],
        data_offsets: [4, 8],
        checksum: None,
    };
    assert!(metadata.validate().is_ok());
}

#[test]
fn schema_version_default_is_current() {
    assert_eq!(default_schema_version(), CURRENT_SCHEMA_VERSION);
    assert_eq!(CURRENT_SCHEMA_VERSION, 1);
}

#[test]
fn metadata_clone_keeps_every_field() {
    let metadata = TensorMetadata {
        dtype: DType::U16,
        shape: vec![2, 3],
        data_offsets: [12, 24],
        checksum: Some(0xdead_beef),
    };
    let copy = metadata.clone();
    assert_eq!(copy.dtype, DType::U16);
    assert_eq!(copy.shape, vec![2, 3]);
    assert_eq!(copy.data_offsets, [12, 24]);
    assert_eq!(copy.checksum, Some(0xdead_beef));
}
