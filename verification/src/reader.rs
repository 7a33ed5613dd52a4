//! Reading a checkpoint: locating and checking the header frame, gating
//! the schema version, and looking tensors up with bounds and checksum
//! validation. The file's bytes come from the caller (a memory map).
use vstd::prelude::*;
use crate::codec::{hex_of, hex_string, le_value, read_le_u64};
use crate::digest::{blake3_digest, blake3_of, crc32, crc32_of};
use crate::error::Error;
use crate::tensor::{expected_byte_len, CheckpointHeader, Tensor, TensorMetadata, CURRENT_SCHEMA_VERSION};

verus! {

/// The largest header a reader accepts: 100 MiB, which is generous for any
/// real model and keeps a forged length from exhausting memory.
pub const MAX_HEADER_LEN: u64 = 104857600;

/// Where the parts of a checkpoint file lie.
#[derive(Debug, Clone, Copy, PartialEq, Eq, Structural)]
pub struct HeaderFrame {
    /// The length of the serialized header, which starts at byte 8.
    pub header_len: usize,
    /// Where the data block starts: after the length prefix, the header and
    /// its 32-byte digest.
    pub data_offset: usize,
}

/// The header length a file's first eight bytes declare.
pub open spec fn declared_header_len(bytes: Seq<u8>) -> u64 {
    le_value(bytes)
}

/// The frame of `bytes` is intact: the declared header length is within the
/// limit, the file holds the header and its digest, and the stored digest is
/// the BLAKE3 digest of the length prefix and header.
pub open spec fn frame_ok(bytes: Seq<u8>) -> bool {
    let hl = declared_header_len(bytes) as int;
    &&& bytes.len() >= 8
    &&& hl <= MAX_HEADER_LEN
    &&& bytes.len() >= 8 + hl + 32
    &&& blake3_of(bytes.subrange(0, 8 + hl)) == bytes.subrange(8 + hl, 8 + hl + 32)
}

/// `e` is the error [`locate_header`] reports for `bytes` when its frame is not intact.
pub open spec fn frame_error(bytes: Seq<u8>, e: Error) -> bool {
    let hl = declared_header_len(bytes) as int;
    if bytes.len() < 8 {
        e matches Error::InvalidFormat { offset, message } && offset == 0 && message@
            == "file too short to contain header length"@
    } else if hl > usize::MAX {
        e matches Error::InvalidFormat { offset, message } && offset == 0 && message@
            == "header length too large for this platform"@
    } else if hl > MAX_HEADER_LEN {
        e matches Error::InvalidFormat { offset, message } && offset == 0 && message@
            == "header length exceeds 100MB limit (potential DOS)"@
    } else if bytes.len() < 8 + hl + 32 {
        e matches Error::InvalidFormat { offset, message } && offset == 8 && message@
            == "file too short to contain full header and checksum"@
    } else {
        e matches Error::HeaderChecksum { expected, actual } && expected@ == hex_of(
            blake3_of(bytes.subrange(0, 8 + hl)),
        ) && actual@ == hex_of(bytes.subrange(8 + hl, 8 + hl + 32))
    }
}

/// Checks the size a file reports before it is mapped.
///
/// # Errors
///
/// `InvalidFormat` at offset 0 when the size does not fit in a `usize` or
/// is below the eight bytes of the length prefix.
pub fn check_file_size(file_size: u64) -> (r: Result<usize, Error>)
    ensures
        match r {
            Ok(n) => n == file_size && file_size >= 8,
            Err(e) => if file_size > usize::MAX {
                e matches Error::InvalidFormat { offset, message } && offset == 0 && message@
                    == "file size does not fit in this platform's address space"@
            } else {
                file_size < 8 && (e matches Error::InvalidFormat { offset, message } && offset == 0
                    && message@ == "file too short to contain header length"@)
            },
        },
{
    if file_size > usize::MAX as u64 {
        return Err(Error::InvalidFormat {
            offset: 0,
            message: "file size does not fit in this platform's address space".to_owned(),
        });
    }
    if file_size < 8 {
        return Err(Error::InvalidFormat {
            offset: 0,
            message: "file too short to contain header length".to_owned(),
        });
    }
    Ok(file_size as usize)
}

/// Locates the header in a checkpoint file's bytes and checks its digest.
///
/// # Errors
///
/// `InvalidFormat` when the file is too short for the length prefix, the
/// declared length exceeds the limit, or the file is too short for the
/// header and its digest; `HeaderChecksum` when the stored digest differs.
pub fn locate_header(bytes: &[u8]) -> (r: Result<HeaderFrame, Error>)
    ensures
        r is Ok <==> frame_ok(bytes@),
        r matches Ok(f) ==> f.header_len == declared_header_len(bytes@) && f.data_offset == 8
            + f.header_len + 32,
        r matches Err(e) ==> frame_error(bytes@, e),
{
    if bytes.len() < 8 {
        return Err(Error::InvalidFormat {
            offset: 0,
            message: "file too short to contain header length".to_owned(),
        });
    }
    let declared = read_le_u64(bytes);
    if declared > usize::MAX as u64 {
        return Err(Error::InvalidFormat {
            offset: 0,
            message: "header length too large for this platform".to_owned(),
        });
    }
    if declared > MAX_HEADER_LEN {
        return Err(Error::InvalidFormat {
            offset: 0,
            message: "header length exceeds 100MB limit (potential DOS)".to_owned(),
        });
    }
    let header_len = declared as usize;
    if bytes.len() < 8 + header_len + 32 {
        return Err(Error::InvalidFormat {
            offset: 8,
            message: "file too short to contain full header and checksum".to_owned(),
        });
    }
    let framed = vstd::slice::slice_subrange(bytes, 0, 8 + header_len);
    let expected = blake3_digest(framed);
    let actual = vstd::slice::slice_subrange(bytes, 8 + header_len, 8 + header_len + 32);
    let mut k: usize = 0;
    #[verifier::loop_isolation(false)]
    while k < 32
        invariant
            k <= 32,
            expected@.len() == 32,
            actual@.len() == 32,
            forall|j: int| 0 <= j < k ==> expected@[j] == actual@[j],
        decreases 32 - k,
    {
        if expected[k] != actual[k] {
            assert(expected@ != actual@);
            return Err(Error::HeaderChecksum {
                expected: hex_string(&expected),
                actual: hex_string(actual),
            });
        }
        k += 1;
    }
    assert(expected@ =~= actual@);
    Ok(HeaderFrame { header_len, data_offset: 8 + header_len + 32 })
}

/// A checkpoint whose frame has been checked and whose header has been read
/// and accepted: the state a reader keeps next to the file's bytes.
#[derive(Debug)]
pub struct Checkpoint {
    header: CheckpointHeader,
    data_offset: usize,
    file_size: usize,
}

/// The span `[start, end)` of the file that tensor metadata `m` points at,
/// for a data block starting at `d`.
pub open spec fn file_span(d: int, m: TensorMetadata) -> (int, int) {
    (d + m.start(), d + m.end())
}

/// Reading the tensor with metadata `m`, named `name`, from a file of
/// `bytes` whose recorded size is `file_size` and whose data block starts at
/// `d`, succeeds: the metadata is valid, its span lies within the file, and
/// the bytes there match any recorded CRC32.
pub open spec fn read_ok(d: int, file_size: int, bytes: Seq<u8>, m: TensorMetadata) -> bool {
    let (start, end) = file_span(d, m);
    &&& m.is_valid()
    &&& end <= usize::MAX
    &&& end <= file_size
    &&& end <= bytes.len()
    &&& (m.checksum matches Some(c) ==> crc32_of(bytes.subrange(start, end)) == c)
}

/// `e` is the error a read of tensor `name` with metadata `m` reports when
/// [`read_ok`] does not hold.
pub open spec fn read_error(
    d: int,
    file_size: int,
    bytes: Seq<u8>,
    name: Seq<char>,
    m: TensorMetadata,
    e: Error,
) -> bool {
    let (start, end) = file_span(d, m);
    if !m.is_valid() {
        if m.start() <= m.end() && expected_byte_len(m.dtype, m.shape@) is Some {
            // Spans that do not match the shape are reported under the tensor's name.
            e matches Error::SizeMismatch { tensor_name, expected, actual } && tensor_name@ == name
                && Some(expected as nat) == expected_byte_len(m.dtype, m.shape@) && actual == m.end()
                - m.start()
        } else {
            m.validation_error(e)
        }
    } else if start > usize::MAX {
        e matches Error::OffsetOverflow { tensor_name, offset } && tensor_name@ == name && offset
            == m.start()
    } else if end > usize::MAX {
        e matches Error::OffsetOverflow { tensor_name, offset } && tensor_name@ == name && offset
            == m.end()
    } else if end > file_size {
        e matches Error::SizeMismatch { tensor_name, expected, actual } && tensor_name@ == name
            && expected == m.end() - m.start() && actual == (if file_size > start {
            file_size - start
        } else {
            0
        })
    } else if end > bytes.len() {
        e matches Error::SizeMismatch { tensor_name, expected, actual } && tensor_name@ == name
            && expected == m.end() - m.start() && actual == (if bytes.len() > start {
            bytes.len() - start
        } else {
            0
        })
    } else {
        e matches Error::Checksum { tensor_name, expected, actual } && tensor_name@ == name && m.checksum
            == Some(expected) && actual == crc32_of(bytes.subrange(start, end))
    }
}

/// Checkpoint `c` holds a tensor `name`, and reading it from the file's
/// `bytes` succeeds.
pub open spec fn tensor_readable(c: Checkpoint, bytes: Seq<u8>, name: Seq<char>) -> bool {
    let h = c.header_spec();
    &&& h.tensors@.contains_key(name)
    &&& read_ok(c.data_start() as int, c.recorded_size() as int, bytes, h.tensors@[name])
}

/// `t` is what reading tensor `name` of checkpoint `c` returns: its metadata,
/// and exactly the bytes of its span of the file.
pub open spec fn tensor_read_result(c: Checkpoint, bytes: Seq<u8>, name: Seq<char>, t: Tensor) -> bool {
    let m = c.header_spec().tensors@[name];
    let (start, end) = file_span(c.data_start() as int, m);
    &&& t.metadata.dtype == m.dtype
    &&& t.metadata.shape@ == m.shape@
    &&& t.metadata.data_offsets == m.data_offsets
    &&& t.metadata.checksum == m.checksum
    &&& t.data@ == bytes.subrange(start, end)
}

/// `e` is the error reading tensor `name` of checkpoint `c` reports when
/// the read does not succeed.
pub open spec fn tensor_read_error(c: Checkpoint, bytes: Seq<u8>, name: Seq<char>, e: Error) -> bool {
    let h = c.header_spec();
    if !h.tensors@.contains_key(name) {
        e matches Error::TensorNotFound(n) && n@ == name
    } else {
        read_error(c.data_start() as int, c.recorded_size() as int, bytes, name, h.tensors@[name], e)
    }
}

impl Checkpoint {
    /// The accepted header.
    pub closed spec fn header_spec(self) -> CheckpointHeader {
        self.header
    }

    /// Where the data block starts in the file.
    pub closed spec fn data_start(self) -> usize {
        self.data_offset
    }

    /// The file size recorded when the checkpoint was opened.
    pub closed spec fn recorded_size(self) -> usize {
        self.file_size
    }

    /// Accepts a header read from the frame `frame` of a file of
    /// `file_size` bytes.
    ///
    /// # Errors
    ///
    /// `UnsupportedVersion` when the header's schema version is newer than
    /// [`CURRENT_SCHEMA_VERSION`].
    pub fn new(header: CheckpointHeader, frame: HeaderFrame, file_size: usize) -> (r: Result<Self, Error>)
        ensures
            r is Ok <==> header.schema_version <= CURRENT_SCHEMA_VERSION,
            r matches Ok(c) ==> c.header_spec() == header && c.data_start() == frame.data_offset
                && c.recorded_size() == file_size && c.header_spec().wf(),
            r matches Err(e) ==> (e matches Error::UnsupportedVersion { found, supported } && found
                == header.schema_version && supported == CURRENT_SCHEMA_VERSION),
    {
        proof {
            use_type_invariant(&header.tensors);
            use_type_invariant(&header.metadata);
        }
        if header.schema_version > CURRENT_SCHEMA_VERSION {
            return Err(Error::UnsupportedVersion {
                found: header.schema_version,
                supported: CURRENT_SCHEMA_VERSION,
            });
        }
        Ok(Checkpoint { header, data_offset: frame.data_offset, file_size })
    }

    /// Returns the metadata for all tensors in the checkpoint.
    pub fn header(&self) -> (h: &CheckpointHeader)
        ensures
            *h == self.header_spec(),
    {
        &self.header
    }

    /// Returns the names of all tensors in the checkpoint, in byte order.
    pub fn tensor_names(&self) -> (r: Vec<String>)
        ensures
            r@.len() == self.header_spec().tensors.entries().len(),
            forall|i: int| 0 <= i < r@.len() ==> #[trigger] r@[i]@ == self.header_spec().tensors.entries()[i].0,
    {
        self.header.tensors.keys()
    }

    /// Returns the global metadata for the checkpoint.
    pub fn metadata(&self) -> (m: &crate::name_map::NameMap<String>)
        ensures
            *m == self.header_spec().metadata,
    {
        &self.header.metadata
    }

    /// Returns the tensor `name`, whose data is borrowed from `bytes`, the
    /// file's contents.
    ///
    /// # Errors
    ///
    /// `TensorNotFound` when the header has no such tensor; the errors of
    /// [`TensorMetadata::validate`] for inconsistent metadata, a
    /// `SizeMismatch` carrying this tensor's name;
    /// `OffsetOverflow` when an offset into the file overflows;
    /// `SizeMismatch` when the data extends past the recorded file size or
    /// past `bytes`; `Checksum` when the data does not match its CRC32.
    pub fn get_tensor<'a>(&self, bytes: &'a [u8], name: &str) -> (r: Result<Tensor<'a>, Error>)
        ensures
            tensor_readable(*self, bytes@, name@) ==> (r matches Ok(t) && tensor_read_result(*self, bytes@, name@, t)),
            !tensor_readable(*self, bytes@, name@) ==> (r matches Err(e) && tensor_read_error(*self, bytes@, name@, e)),
            ({
                let m = self.header_spec().tensors@[name@];
                self.header_spec().tensors@.contains_key(name@) && m.checksum is None && m.is_valid()
                    && self.data_start() + m.end() <= self.recorded_size() && self.data_start() + m.end()
                    <= bytes@.len() ==> (r matches Ok(t) && t.data@ == bytes@.subrange(
                    self.data_start() + m.start(),
                    self.data_start() + m.end(),
                ))
            }),
    {
        proof {
            use_type_invariant(&self.header.tensors);
            use_type_invariant(&self.header.metadata);
        }
        let metadata = match self.header.tensors.get(name) {
            Some(m) => m,
            None => {
                return Err(Error::TensorNotFound(name.to_owned()));
            },
        };
        match metadata.validate() {
            Ok(()) => {},
            Err(Error::SizeMismatch { expected, actual, .. }) => {
                return Err(Error::SizeMismatch { tensor_name: name.to_owned(), expected, actual });
            },
            Err(e) => {
                return Err(e);
            },
        }
        let start = match self.data_offset.checked_add(metadata.data_offsets[0]) {
            Some(v) => v,
            None => {
                return Err(Error::OffsetOverflow {
                    tensor_name: name.to_owned(),
                    offset: metadata.data_offsets[0],
                });
            },
        };
        let end = match self.data_offset.checked_add(metadata.data_offsets[1]) {
            Some(v) => v,
            None => {
                return Err(Error::OffsetOverflow {
                    tensor_name: name.to_owned(),
                    offset: metadata.data_offsets[1],
                });
            },
        };
        if end > self.file_size {
            return Err(Error::SizeMismatch {
                tensor_name: name.to_owned(),
                expected: metadata.data_offsets[1] - metadata.data_offsets[0],
                actual: self.file_size.saturating_sub(start),
            });
        }
        if end > bytes.len() {
            return Err(Error::SizeMismatch {
                tensor_name: name.to_owned(),
                expected: metadata.data_offsets[1] - metadata.data_offsets[0],
                actual: bytes.len().saturating_sub(start),
            });
        }
        let data = vstd::slice::slice_subrange(bytes, start, end);
        if let Some(expected_checksum) = metadata.checksum {
            let actual_checksum = crc32(data);
            if actual_checksum != expected_checksum {
                return Err(Error::Checksum {
                    tensor_name: name.to_owned(),
                    expected: expected_checksum,
                    actual: actual_checksum,
                });
            }
        }
        Ok(Tensor { metadata: metadata.clone(), data })
    }
}

} // verus!
