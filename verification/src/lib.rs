//! `safecheckpoint`: a checkpoint format for ML model weights.
//!
//! The verified core of the library: tensor metadata validation, the
//! in-memory writer, header construction, the on-disk frame (length prefix,
//! header, header checksum, tensor data), tensor lookup with bounds and
//! checksum validation, and the planning and checking of sharded saves.
#![allow(unused_imports)]

pub mod codec;
pub mod digest;
pub mod error;
pub mod laws;
pub mod name_map;
pub mod paths;
pub mod reader;
pub mod shard;
pub mod tensor;
pub mod writer;

pub use error::Error;
pub use tensor::{CheckpointHeader, DType, Tensor, TensorMetadata, CURRENT_SCHEMA_VERSION};
pub use writer::Writer;

