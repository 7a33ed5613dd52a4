//! Tensor metadata and data handling.
use vstd::prelude::*;
use crate::error::Error;
use crate::name_map::NameMap;

verus! {

/// Supported data types for tensors, as named by the `safetensors` format.
#[derive(Debug, Clone, Copy, PartialEq, Eq, Structural)]
#[non_exhaustive]
#[allow(clippy::upper_case_acronyms)]
pub enum DType {
    /// 64-bit floating point.
    F64,
    /// 32-bit floating point.
    F32,
    /// 16-bit floating point (half-precision).
    F16,
    /// Brain floating point (bfloat16).
    BF16,
    /// 64-bit signed integer.
    I64,
    /// 32-bit signed integer.
    I32,
    /// 16-bit signed integer.
    I16,
    /// 8-bit signed integer.
    I8,
    /// 64-bit unsigned integer.
    U64,
    /// 32-bit unsigned integer.
    U32,
    /// 16-bit unsigned integer.
    U16,
    /// 8-bit unsigned integer.
    U8,
    /// Boolean.
    BOOL,
}

impl DType {
    /// The number of bytes one element of this type occupies.
    pub open spec fn width(self) -> nat {
        match self {
            DType::F64 | DType::I64 | DType::U64 => 8,
            DType::F32 | DType::I32 | DType::U32 => 4,
            DType::F16 | DType::BF16 | DType::I16 | DType::U16 => 2,
            DType::I8 | DType::U8 | DType::BOOL => 1,
        }
    }

    /// Returns the number of bytes per element for the given data type.
    pub fn size_in_bytes(self) -> (n: usize)
        ensures
            n == self.width(),
    {
        match self {
            DType::F64 | DType::I64 | DType::U64 => 8,
            DType::F32 | DType::I32 | DType::U32 => 4,
            DType::F16 | DType::BF16 | DType::I16 | DType::U16 => 2,
            DType::I8 | DType::U8 | DType::BOOL => 1,
        }
    }
}


/// The product of the dimensions of `shape`, multiplied from the left, or
/// `None` as soon as a partial product no longer fits in a `usize`.
pub open spec fn checked_product(shape: Seq<usize>) -> Option<nat>
    decreases shape.len(),
{
    if shape.len() == 0 {
        Some(1)
    } else {
        match checked_product(shape.drop_last()) {
            Some(p) => if p * shape.last() <= usize::MAX {
                Some((p * shape.last()) as nat)
            } else {
                None
            },
            None => None,
        }
    }
}

/// The number of data bytes a tensor of `dtype` and `shape` occupies, or
/// `None` when that number (or an intermediate product) overflows a `usize`.
pub open spec fn expected_byte_len(dtype: DType, shape: Seq<usize>) -> Option<nat> {
    match checked_product(shape) {
        Some(elements) => if elements * dtype.width() <= usize::MAX {
            Some(elements * dtype.width())
        } else {
            None
        },
        None => None,
    }
}

/// Computes the byte length of a tensor of `dtype` and `shape` with checked
/// arithmetic: `None` exactly when [`expected_byte_len`] is `None`.
pub fn checked_byte_len(dtype: DType, shape: &[usize]) -> (r: Option<usize>)
    ensures
        r matches Some(n) ==> expected_byte_len(dtype, shape@) == Some(n as nat),
        r is None ==> expected_byte_len(dtype, shape@) is None,
{
    let mut acc: usize = 1;
    let mut i: usize = 0;
    while i < shape.len()
        invariant
            i <= shape.len(),
            checked_product(shape@.subrange(0, i as int)) == Some(acc as nat),
        decreases shape.len() - i,
    {
        assert(shape@.subrange(0, i + 1).drop_last() =~= shape@.subrange(0, i as int));
        match acc.checked_mul(shape[i]) {
            Some(next) => {
                acc = next;
            },
            None => {
                proof {
                    lemma_checked_product_none_extends(shape@, i as int + 1);
                    assert(shape@.subrange(0, shape@.len() as int) =~= shape@);
                }
                return None;
            },
        }
        i += 1;
    }
    assert(shape@.subrange(0, shape@.len() as int) =~= shape@);
    acc.checked_mul(dtype.size_in_bytes())
}

/// Once a prefix product overflows, every longer prefix overflows too.
pub proof fn lemma_checked_product_none_extends(shape: Seq<usize>, k: int)
    requires
        0 <= k <= shape.len(),
        checked_product(shape.subrange(0, k)) is None,
    ensures
        checked_product(shape) is None,
    decreases shape.len() - k,
{
    if k == shape.len() {
        assert(shape.subrange(0, k) =~= shape);
    } else {
        assert(shape.subrange(0, k + 1).drop_last() =~= shape.subrange(0, k));
        lemma_checked_product_none_extends(shape, k + 1);
    }
}

/// Metadata for a single tensor within a checkpoint.
#[derive(Debug)]
pub struct TensorMetadata {
    /// The data type of the tensor.
    pub dtype: DType,
    /// The shape of the tensor.
    pub shape: Vec<usize>,
    /// The offsets of the tensor's data in the data block (inclusive, exclusive).
    pub data_offsets: [usize; 2],
    /// Optional CRC32 checksum of the tensor's data.
    pub checksum: Option<u32>,
}

impl Clone for TensorMetadata {
    fn clone(&self) -> (r: Self)
        ensures
            r.dtype == self.dtype,
            r.shape@ == self.shape@,
            r.data_offsets == self.data_offsets,
            r.checksum == self.checksum,
    {
        TensorMetadata {
            dtype: self.dtype,
            shape: self.shape.clone(),
            data_offsets: self.data_offsets,
            checksum: self.checksum,
        }
    }
}

impl TensorMetadata {
    /// `self` and `other` agree in every field.
    pub open spec fn same_as(self, other: TensorMetadata) -> bool {
        &&& self.dtype == other.dtype
        &&& self.shape@ == other.shape@
        &&& self.data_offsets == other.data_offsets
        &&& self.checksum == other.checksum
    }

    /// Start of the tensor's bytes in the data block.
    pub open spec fn start(self) -> int {
        self.data_offsets@[0] as int
    }

    /// End (exclusive) of the tensor's bytes in the data block.
    pub open spec fn end(self) -> int {
        self.data_offsets@[1] as int
    }

    /// The metadata is consistent: its offsets are ordered and span exactly
    /// as many bytes as its shape and data type call for.
    pub open spec fn is_valid(self) -> bool {
        &&& self.start() <= self.end()
        &&& expected_byte_len(self.dtype, self.shape@) == Some((self.end() - self.start()) as nat)
    }

    /// `e` is the error [`TensorMetadata::validate`] reports for this
    /// metadata when it is not valid.
    pub open spec fn validation_error(self, e: Error) -> bool {
        if self.start() > self.end() {
            e matches Error::InvalidFormat { offset, message } && offset == self.start()
                && message@ == "data_offsets start is greater than end"@
        } else {
            match expected_byte_len(self.dtype, self.shape@) {
                None => e matches Error::InvalidFormat { offset, message } && offset
                    == self.start() && message@ == "tensor shape size computation overflowed"@,
                Some(n) => e matches Error::SizeMismatch { tensor_name, expected, actual }
                    && tensor_name@ == "(validation)"@ && expected == n && actual == self.end()
                    - self.start(),
            }
        }
    }

    /// Validates the tensor metadata.
    ///
    /// # Errors
    /// `InvalidFormat` when the offsets are inverted or the shape's byte size
    /// overflows; `SizeMismatch` when the offsets do not span the shape's byte size.
    pub fn validate(&self) -> (r: Result<(), Error>)
        ensures
            r is Ok <==> self.is_valid(),
            r matches Err(e) ==> self.validation_error(e),
    {
        proof {
            reveal_strlit("data_offsets start is greater than end");
            reveal_strlit("tensor shape size computation overflowed");
            reveal_strlit("(validation)");
        }
        if self.data_offsets[0] > self.data_offsets[1] {
            return Err(Error::InvalidFormat {
                offset: self.data_offsets[0],
                message: "data_offsets start is greater than end".to_owned(),
            });
        }
        let expected_data_len = match checked_byte_len(self.dtype, self.shape.as_slice()) {
            Some(n) => n,
            None => {
                return Err(Error::InvalidFormat {
                    offset: self.data_offsets[0],
                    message: "tensor shape size computation overflowed".to_owned(),
                });
            },
        };
        let actual_data_len = self.data_offsets[1] - self.data_offsets[0];
        if expected_data_len != actual_data_len {
            return Err(Error::SizeMismatch {
                tensor_name: "(validation)".to_owned(),
                expected: expected_data_len,
                actual: actual_data_len,
            });
        }
        Ok(())
    }
}

/// A tensor with data and metadata.
#[derive(Debug, Clone)]
pub struct Tensor<'a> {
    /// The metadata for the tensor.
    pub metadata: TensorMetadata,
    /// The actual data of the tensor.
    pub data: &'a [u8],
}

/// The current schema version for checkpoint headers.
pub const CURRENT_SCHEMA_VERSION: u64 = 1;

/// The schema version assumed for a header that names none.
pub fn default_schema_version() -> (v: u64)
    ensures
        v == CURRENT_SCHEMA_VERSION,
{
    CURRENT_SCHEMA_VERSION
}

/// The header of a checkpoint, containing metadata for all tensors.
#[derive(Debug)]
pub struct CheckpointHeader {
    /// Schema version of the checkpoint format.
    pub schema_version: u64,
    /// Metadata for each tensor, indexed by name.
    pub tensors: NameMap<TensorMetadata>,
    /// Optional metadata about the checkpoint.
    pub metadata: NameMap<String>,
}

impl Default for CheckpointHeader {
    fn default() -> (h: Self)
        ensures
            h.schema_version == 0,
            h.tensors.wf(),
            h.tensors@ == Map::<Seq<char>, TensorMetadata>::empty(),
            h.tensors.entries().len() == 0,
            h.metadata.wf(),
            h.metadata@ == Map::<Seq<char>, String>::empty(),
            h.metadata.entries().len() == 0,
    {
        CheckpointHeader { schema_version: 0, tensors: NameMap::new(), metadata: NameMap::new() }
    }
}

impl Clone for CheckpointHeader {
    fn clone(&self) -> (r: Self)
        ensures
            r.schema_version == self.schema_version,
            r.metadata.entries() == self.metadata.entries(),
            r.tensors.entries().len() == self.tensors.entries().len(),
            forall|i: int| 0 <= i < r.tensors.entries().len() ==> #[trigger] r.tensors.entries()[i].0
                == self.tensors.entries()[i].0 && r.tensors.entries()[i].1.same_as(self.tensors.entries()[i].1),
    {
        CheckpointHeader {
            schema_version: self.schema_version,
            tensors: self.tensors.clone(),
            metadata: self.metadata.clone(),
        }
    }
}

impl CheckpointHeader {
    /// Both tables of the header are well formed.
    pub open spec fn wf(self) -> bool {
        self.tensors.wf() && self.metadata.wf()
    }
}

} // verus!
