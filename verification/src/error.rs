//! Error types for safecheckpoint.
//!
//! Every error names what went wrong and where, so that callers can act on it.
use vstd::prelude::*;
use serde_json::Error as JsonError;
use crate::codec::{decimal, push_decimal};
use vstd::string::*;

verus! {

/// `std::io::Error`, carried unchanged inside [`Error::Io`] and the atomic-save variants.
#[verifier::external_type_specification]
#[verifier::external_body]
pub struct ExIoError(std::io::Error);

/// `serde_json::Error`, carried unchanged inside [`Error::Json`].
#[verifier::external_type_specification]
#[verifier::external_body]
pub struct ExJsonError(JsonError);

/// The primary error type for all safecheckpoint operations.
#[derive(Debug)]
#[non_exhaustive]
pub enum Error {
    /// Error during I/O operations.
    Io(std::io::Error),
    /// Error during JSON serialization or deserialization.
    Json(JsonError),
    /// Error when a tensor is not found.
    TensorNotFound(String),
    /// Error when the checkpoint format is invalid.
    InvalidFormat {
        /// Offset where the error occurred, or 0 if unknown.
        offset: usize,
        /// Contextual message.
        message: String,
    },
    /// Error when a tensor's metadata and data are inconsistent.
    SizeMismatch {
        /// The name of the tensor.
        tensor_name: String,
        /// The expected size in bytes.
        expected: usize,
        /// The actual size found in the data block.
        actual: usize,
    },
    /// Error when an offset computation overflows.
    OffsetOverflow {
        /// The name of the tensor.
        tensor_name: String,
        /// The offending offset value.
        offset: usize,
    },
    /// Error when sharding or shard verification fails.
    ShardVerification {
        /// The shard file name.
        shard: String,
        /// The underlying error.
        source: Box<Error>,
    },
    /// Error when a checksum validation fails.
    Checksum {
        /// The tensor name.
        tensor_name: String,
        /// The expected checksum.
        expected: u32,
        /// The actual checksum.
        actual: u32,
    },
    /// Error when an atomic save (rename) fails.
    AtomicRename(std::io::Error),
    /// Error when an atomic save (cleanup) fails.
    AtomicCleanup(std::io::Error),
    /// Error when a checkpoint schema version is unsupported.
    UnsupportedVersion {
        /// The version found in the file.
        found: u64,
        /// The maximum supported version.
        supported: u64,
    },
    /// Error when a path traversal attempt is detected.
    PathTraversal {
        /// The path that was rejected.
        path: String,
        /// The reason for rejection.
        reason: String,
    },
    /// Error when a reserved tensor name is used.
    ReservedTensorName {
        /// The reserved name that was used.
        name: String,
    },
    /// Error when a header checksum validation fails.
    HeaderChecksum {
        /// The expected checksum.
        expected: String,
        /// The actual checksum.
        actual: String,
    },
    /// Error when a caller-supplied argument is invalid.
    InvalidArgument {
        /// The name of the offending parameter.
        parameter: String,
        /// Why the value was rejected and how to fix it.
        reason: String,
    },
}

impl vstd::std_specs::convert::FromSpecImpl<std::io::Error> for Error {
    open spec fn obeys_from_spec() -> bool {
        true
    }

    open spec fn from_spec(v: std::io::Error) -> Self {
        Error::Io(v)
    }
}

impl vstd::std_specs::convert::FromSpecImpl<JsonError> for Error {
    open spec fn obeys_from_spec() -> bool {
        true
    }

    open spec fn from_spec(v: JsonError) -> Self {
        Error::Json(v)
    }
}

impl From<std::io::Error> for Error {
    fn from(err: std::io::Error) -> (e: Self)
        ensures
            e == Error::Io(err),
    {
        Error::Io(err)
    }
}

impl From<JsonError> for Error {
    fn from(err: JsonError) -> (e: Self)
        ensures
            e == Error::Json(err),
    {
        Error::Json(err)
    }
}

/// Formats `std::io::Error` with its `Display` impl. Nothing is claimed of
/// the text: it comes from the operating system.
#[verifier::external_body]
fn io_error_text(e: &std::io::Error) -> String {
    format!("{e}")
}

/// Formats `serde_json::Error` with its `Display` impl. Nothing is claimed
/// of the text beyond its being a string.
#[verifier::external_body]
fn json_error_text(e: &JsonError) -> String {
    format!("{e}")
}

fn push_str(out: &mut String, s: &str)
    ensures
        final(out)@ == old(out)@ + s@,
{
    out.append(s);
}

/// `text` begins with `head`.
pub open spec fn has_prefix(text: Seq<char>, head: Seq<char>) -> bool {
    head.len() <= text.len() && text.take(head.len() as int) == head
}

/// A new string holding `prefix`.
fn starting_with(prefix: &str) -> (r: String)
    ensures
        r@ == prefix@,
{
    let mut s = String::new();
    push_str(&mut s, prefix);
    assert(s@ =~= prefix@);
    s
}

impl Error {
    /// `text` is the message that describes this error: the variant's
    /// sentence with the error's fields filled in (numbers in decimal).
    /// For errors that wrap an I/O or JSON error, the wrapped error's own
    /// text follows the sentence's fixed prefix.
    pub open spec fn describes(self, text: Seq<char>) -> bool
        decreases self,
    {
        match self {
            Error::Io(_) => has_prefix(text, "i/o error: "@),
            Error::Json(_) => has_prefix(text, "json error: "@),
            Error::TensorNotFound(name) => text == "tensor '"@ + name@ + "' not found in checkpoint"@,
            Error::InvalidFormat { offset, message } => text == "invalid checkpoint format at offset "@
                + decimal(offset as nat) + ": "@ + message@,
            Error::SizeMismatch { tensor_name, expected, actual } => text == "tensor '"@ + tensor_name@
                + "' size mismatch: expected "@ + decimal(expected as nat) + ", found "@ + decimal(
                actual as nat,
            ),
            Error::OffsetOverflow { tensor_name, offset } => text == "tensor '"@ + tensor_name@
                + "' offset overflow: offset "@ + decimal(offset as nat)
                + " exceeds addressable range"@,
            Error::ShardVerification { shard, source } => {
                let head = "shard verification failed for '"@ + shard@ + "': "@;
                has_prefix(text, head) && (*source).describes(text.skip(head.len() as int))
            },
            Error::Checksum { tensor_name, expected, actual } => text == "checksum validation failed for '"@
                + tensor_name@ + "': expected "@ + decimal(expected as nat) + ", found "@ + decimal(
                actual as nat,
            ),
            Error::AtomicRename(_) => has_prefix(text, "atomic save (rename) failed: "@),
            Error::AtomicCleanup(_) => has_prefix(text, "atomic save (cleanup) failed: "@),
            Error::UnsupportedVersion { found, supported } => text == "unsupported checkpoint schema version "@
                + decimal(found as nat) + " (supported: "@ + decimal(supported as nat) + ")"@,
            Error::PathTraversal { path, reason } => text == "path traversal blocked for '"@ + path@
                + "': "@ + reason@,
            Error::ReservedTensorName { name } => text == "reserved tensor name '"@ + name@
                + "' is not allowed"@,
            Error::HeaderChecksum { expected, actual } => text == "header checksum mismatch: expected "@
                + expected@ + ", found "@ + actual@,
            Error::InvalidArgument { parameter, reason } => text == "invalid argument '"@ + parameter@
                + "': "@ + reason@,
        }
    }

    /// The human-readable message for this error (what its `Display` would print).
    pub fn to_message(&self) -> (r: String)
        ensures
            self.describes(r@),
        decreases self,
    {
        let s = match self {
            Error::Io(e) => {
                let mut s = starting_with("i/o error: ");
                let t = io_error_text(e);
                push_str(&mut s, t.as_str());
                assert(s@.take("i/o error: "@.len() as int) =~= "i/o error: "@);
                assert(self.describes(s@));
                s
            },
            Error::Json(e) => {
                let mut s = starting_with("json error: ");
                let t = json_error_text(e);
                push_str(&mut s, t.as_str());
                assert(s@.take("json error: "@.len() as int) =~= "json error: "@);
                assert(self.describes(s@));
                s
            },
            Error::TensorNotFound(name) => {
                let mut s = starting_with("tensor '");
                push_str(&mut s, name.as_str());
                push_str(&mut s, "' not found in checkpoint");
                assert(self.describes(s@));
                s
            },
            Error::InvalidFormat { offset, message } => {
                let mut s = starting_with("invalid checkpoint format at offset ");
                push_decimal(&mut s, *offset as u64);
                push_str(&mut s, ": ");
                push_str(&mut s, message.as_str());
                assert(self.describes(s@));
                s
            },
            Error::SizeMismatch { tensor_name, expected, actual } => {
                let mut s = starting_with("tensor '");
                push_str(&mut s, tensor_name.as_str());
                push_str(&mut s, "' size mismatch: expected ");
                push_decimal(&mut s, *expected as u64);
                push_str(&mut s, ", found ");
                push_decimal(&mut s, *actual as u64);
                assert(self.describes(s@));
                s
            },
            Error::OffsetOverflow { tensor_name, offset } => {
                let mut s = starting_with("tensor '");
                push_str(&mut s, tensor_name.as_str());
                push_str(&mut s, "' offset overflow: offset ");
                push_decimal(&mut s, *offset as u64);
                push_str(&mut s, " exceeds addressable range");
                assert(self.describes(s@));
                s
            },
            Error::ShardVerification { shard, source } => {
                let mut s = starting_with("shard verification failed for '");
                push_str(&mut s, shard.as_str());
                push_str(&mut s, "': ");
                let ghost head = s@;
                let inner: &Error = source;
                let t = inner.to_message();
                push_str(&mut s, t.as_str());
                assert(s@.take(head.len() as int) =~= head);
                assert(s@.skip(head.len() as int) =~= t@);
                assert(self.describes(s@));
                s
            },
            Error::Checksum { tensor_name, expected, actual } => {
                let mut s = starting_with("checksum validation failed for '");
                push_str(&mut s, tensor_name.as_str());
                push_str(&mut s, "': expected ");
                push_decimal(&mut s, *expected as u64);
                push_str(&mut s, ", found ");
                push_decimal(&mut s, *actual as u64);
                assert(self.describes(s@));
                s
            },
            Error::AtomicRename(e) => {
                let mut s = starting_with("atomic save (rename) failed: ");
                let t = io_error_text(e);
                push_str(&mut s, t.as_str());
                assert(s@.take("atomic save (rename) failed: "@.len() as int) =~= "atomic save (rename) failed: "@);
                assert(self.describes(s@));
                s
            },
            Error::AtomicCleanup(e) => {
                let mut s = starting_with("atomic save (cleanup) failed: ");
                let t = io_error_text(e);
                push_str(&mut s, t.as_str());
                assert(s@.take("atomic save (cleanup) failed: "@.len() as int) =~= "atomic save (cleanup) failed: "@);
                assert(self.describes(s@));
                s
            },
            Error::UnsupportedVersion { found, supported } => {
                let mut s = starting_with("unsupported checkpoint schema version ");
                push_decimal(&mut s, *found);
                push_str(&mut s, " (supported: ");
                push_decimal(&mut s, *supported);
                push_str(&mut s, ")");
                assert(self.describes(s@));
                s
            },
            Error::PathTraversal { path, reason } => {
                let mut s = starting_with("path traversal blocked for '");
                push_str(&mut s, path.as_str());
                push_str(&mut s, "': ");
                push_str(&mut s, reason.as_str());
                assert(self.describes(s@));
                s
            },
            Error::ReservedTensorName { name } => {
                let mut s = starting_with("reserved tensor name '");
                push_str(&mut s, name.as_str());
                push_str(&mut s, "' is not allowed");
                assert(self.describes(s@));
                s
            },
            Error::HeaderChecksum { expected, actual } => {
                let mut s = starting_with("header checksum mismatch: expected ");
                push_str(&mut s, expected.as_str());
                push_str(&mut s, ", found ");
                push_str(&mut s, actual.as_str());
                assert(self.describes(s@));
                s
            },
            Error::InvalidArgument { parameter, reason } => {
                let mut s = starting_with("invalid argument '");
                push_str(&mut s, parameter.as_str());
                push_str(&mut s, "': ");
                push_str(&mut s, reason.as_str());
                assert(self.describes(s@));
                s
            },
        };
        s
    }
}

} // verus!
