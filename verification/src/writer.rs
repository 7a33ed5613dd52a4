//! The in-memory checkpoint writer and the construction of its header.
use vstd::prelude::*;
use crate::error::Error;
use crate::name_map::{NameMap, listing_to_map, name_lt, sorted_by_name};
use crate::codec::{le_bytes, le_u64_bytes};
use crate::digest::{blake3_digest, blake3_of, crc32, crc32_of};
use crate::tensor::{
    checked_byte_len, expected_byte_len, CheckpointHeader, DType, TensorMetadata,
    CURRENT_SCHEMA_VERSION,
};
use vstd::string::*;

verus! {

/// What the writer holds for one tensor: its data type, shape and bytes.
pub type TensorEntry = (DType, Vec<usize>, Vec<u8>);

/// Inserts the entries of `s`, from first to last, into `m`; a later entry
/// for a name replaces an earlier one.
pub open spec fn insert_all<V>(m: Map<Seq<char>, V>, s: Seq<(String, V)>) -> Map<Seq<char>, V>
    decreases s.len(),
{
    if s.len() == 0 {
        m
    } else {
        insert_all(m, s.drop_last()).insert(s.last().0@, s.last().1)
    }
}

/// The name that a writer refuses for a tensor, since the header keeps its
/// global metadata under it.
pub open spec fn reserved_name() -> Seq<char> {
    "__metadata__"@
}

/// The number of data bytes taken by the first `i` entries of a listing.
pub open spec fn prefix_len(es: Seq<(Seq<char>, TensorEntry)>, i: int) -> nat
    decreases i,
{
    if i <= 0 {
        0
    } else {
        prefix_len(es, i - 1) + es[i - 1].1.2@.len()
    }
}

/// Entry `i` can be laid out: its end offset fits in a `usize` and its byte
/// count is what its shape and data type call for.
pub open spec fn entry_fits(es: Seq<(Seq<char>, TensorEntry)>, i: int) -> bool {
    &&& prefix_len(es, i) + es[i].1.2@.len() <= usize::MAX
    &&& expected_byte_len(es[i].1.0, es[i].1.1@) == Some(es[i].1.2@.len())
}

/// `m` is the header entry planned for entry `i`: same type and shape, the
/// next free span of the data block, and the CRC32 of the bytes.
pub open spec fn planned_metadata(es: Seq<(Seq<char>, TensorEntry)>, i: int, m: TensorMetadata) -> bool {
    &&& m.dtype == es[i].1.0
    &&& m.shape@ == es[i].1.1@
    &&& m.start() == prefix_len(es, i)
    &&& m.end() == prefix_len(es, i + 1)
    &&& m.checksum == Some(crc32_of(es[i].1.2@))
}

/// `e` is the error reported for entry `i`, the first that cannot be laid out.
pub open spec fn header_error(es: Seq<(Seq<char>, TensorEntry)>, i: int, e: Error) -> bool {
    let name = es[i].0;
    let len = es[i].1.2@.len();
    if prefix_len(es, i) + len > usize::MAX {
        e matches Error::OffsetOverflow { tensor_name, offset } && tensor_name@ == name && offset
            == prefix_len(es, i)
    } else {
        match expected_byte_len(es[i].1.0, es[i].1.1@) {
            None => e matches Error::InvalidFormat { offset, message } && offset == prefix_len(
                es,
                i,
            ) && message@ == "tensor '"@ + name + "' shape size computation overflowed"@,
            Some(n) => e matches Error::SizeMismatch { tensor_name, expected, actual }
                && tensor_name@ == name && expected == n && actual == len,
        }
    }
}

/// `h` is the header planned for the listing `es` and metadata `meta`.
pub open spec fn planned_header(
    es: Seq<(Seq<char>, TensorEntry)>,
    meta: Seq<(Seq<char>, String)>,
    h: CheckpointHeader,
) -> bool {
    &&& h.schema_version == CURRENT_SCHEMA_VERSION
    &&& h.wf()
    &&& h.tensors.entries().len() == es.len()
    &&& forall|i: int| 0 <= i < es.len() ==> #[trigger] h.tensors.entries()[i].0 == es[i].0
    &&& forall|i: int| 0 <= i < es.len() ==> planned_metadata(es, i, #[trigger] h.tensors.entries()[i].1)
    &&& h.metadata.entries() == meta
}

/// The data block: the bytes of the first `i` entries, one after the other.
pub open spec fn data_block(es: Seq<(Seq<char>, TensorEntry)>, i: int) -> Seq<u8>
    decreases i,
{
    if i <= 0 {
        Seq::empty()
    } else {
        data_block(es, i - 1) + es[i - 1].1.2@
    }
}

/// The header frame that precedes the data block: the header's length as
/// eight little-endian bytes, the header, and the BLAKE3 digest of both.
pub open spec fn header_frame(json: Seq<u8>) -> Seq<u8> {
    let prefix = le_bytes(json.len() as u64) + json;
    prefix + blake3_of(prefix)
}

/// The data block of the first `i` entries spans `prefix_len(es, i)` bytes.
pub proof fn lemma_data_block_len(es: Seq<(Seq<char>, TensorEntry)>, i: int)
    requires
        0 <= i <= es.len(),
    ensures
        data_block(es, i).len() == prefix_len(es, i),
    decreases i,
{
    if i > 0 {
        lemma_data_block_len(es, i - 1);
    }
}

/// A writer for `safetensors` compatible checkpoints.
#[derive(Debug)]
pub struct Writer {
    /// Tensors to be written, keyed by name.
    pub(crate) tensors: NameMap<TensorEntry>,
    /// Metadata about the checkpoint.
    pub(crate) metadata: NameMap<String>,
}

impl Writer {
    /// The writer's tables are well formed.
    pub closed spec fn wf(self) -> bool {
        self.tensors.wf() && self.metadata.wf()
    }

    /// The tensors held, by name.
    pub closed spec fn tensor_map(self) -> Map<Seq<char>, TensorEntry> {
        self.tensors@
    }

    /// The tensors held, listed in the byte order of their names.
    pub closed spec fn tensor_entries(self) -> Seq<(Seq<char>, TensorEntry)> {
        self.tensors.entries()
    }

    /// The metadata held, by key.
    pub closed spec fn metadata_map(self) -> Map<Seq<char>, Seq<char>> {
        self.metadata@.map_values(|v: String| v@)
    }

    /// The metadata held, listed in the byte order of the keys.
    pub closed spec fn metadata_entries(self) -> Seq<(Seq<char>, String)> {
        self.metadata.entries()
    }

    /// In a well-formed writer both listings are sorted by name and
    /// describe the maps.
    pub proof fn lemma_wf_listings(self)
        requires
            self.wf(),
        ensures
            sorted_by_name(self.tensor_entries()),
            self.tensor_map() == listing_to_map(self.tensor_entries()),
            sorted_by_name(self.metadata_entries()),
            self.metadata_map() == listing_to_map(self.metadata_entries()).map_values(|v: String| v@),
    {
    }

    /// The number of tensors held.
    pub fn tensor_count(&self) -> (n: usize)
        ensures
            n == self.tensor_entries().len(),
    {
        self.tensors.len()
    }

    /// The tensor at position `i` of the listing (in the byte order of names).
    pub fn tensor_at(&self, i: usize) -> (r: (&String, &TensorEntry))
        requires
            i < self.tensor_entries().len(),
        ensures
            r.0@ == self.tensor_entries()[i as int].0,
            *r.1 == self.tensor_entries()[i as int].1,
    {
        self.tensors.entry(i)
    }

    /// The metadata table.
    pub fn metadata_table(&self) -> (m: &NameMap<String>)
        ensures
            m.entries() == self.metadata_entries(),
    {
        &self.metadata
    }

    /// Creates a new, empty writer.
    pub fn new() -> (w: Self)
        ensures
            w.wf(),
            w.tensor_map() == Map::<Seq<char>, TensorEntry>::empty(),
            w.tensor_entries() == Seq::<(Seq<char>, TensorEntry)>::empty(),
            w.metadata_map() == Map::<Seq<char>, Seq<char>>::empty(),
            w.metadata_entries() == Seq::<(Seq<char>, String)>::empty(),
    {
        let w = Writer { tensors: NameMap::new(), metadata: NameMap::new() };
        assert(w.metadata_map() =~= Map::<Seq<char>, Seq<char>>::empty());
        w
    }

    /// Adds a tensor to the writer, replacing any tensor of the same name.
    ///
    /// # Errors
    ///
    /// `ReservedTensorName` if the name is `__metadata__`; the writer is then unchanged.
    pub fn add_tensor(&mut self, name: &str, dtype: DType, shape: Vec<usize>, data: Vec<u8>) -> (r:
        Result<&mut Self, Error>)
        ensures
            name@ == reserved_name() ==> (r matches Err(Error::ReservedTensorName { name: n })
                && n@ == name@ && *final(self) == *old(self)),
            name@ != reserved_name() ==> (r matches Ok(w) && w.wf() && w.tensor_map()
                == old(self).tensor_map().insert(name@, (dtype, shape, data)) && w.metadata_entries()
                == old(self).metadata_entries() && *final(self) == *final(w)),
    {
        proof {
            use_type_invariant(&self.tensors);
            use_type_invariant(&self.metadata);
        }
        let reserved = "__metadata__".to_owned();
        let owned = name.to_owned();
        proof {
            reveal_strlit("__metadata__");
        }
        if owned == reserved {
            return Err(Error::ReservedTensorName { name: owned });
        }
        self.tensors.insert(owned, (dtype, shape, data));
        Ok(self)
    }

    /// Adds several tensors to the writer, in the order given; a tensor of
    /// a name already present replaces it. No name is refused here.
    pub fn add_tensors(&mut self, tensors: Vec<(String, TensorEntry)>) -> (r: &mut Self)
        ensures
            r.wf(),
            r.tensor_map() == insert_all(old(self).tensor_map(), tensors@),
            r.metadata_entries() == old(self).metadata_entries(),
            *final(self) == *final(r),
    {
        proof {
            use_type_invariant(&self.tensors);
            use_type_invariant(&self.metadata);
        }
        let ghost given = tensors@;
        let mut i: usize = 0;
        for item in it: tensors.into_iter()
            invariant
                self.wf(),
                it.seq() == given,
                self.tensor_map() == insert_all(old(self).tensor_map(), given.subrange(0, it.index() as int)),
                self.metadata_entries() == old(self).metadata_entries(),
        {
            let ghost k = it.index();
            assert(given.subrange(0, k + 1).drop_last() =~= given.subrange(0, k as int));
            let (name, entry) = item;
            self.tensors.insert(name, entry);
        }
        assert(given.subrange(0, given.len() as int) =~= given);
        self
    }

    /// Adds a metadata entry, replacing any value already stored under `key`.
    pub fn add_metadata(&mut self, key: &str, value: &str) -> (r: &mut Self)
        ensures
            r.wf(),
            r.metadata_map() == old(self).metadata_map().insert(key@, value@),
            r.tensor_entries() == old(self).tensor_entries(),
            *final(self) == *final(r),
    {
        proof {
            use_type_invariant(&self.tensors);
            use_type_invariant(&self.metadata);
        }
        let v = value.to_owned();
        self.metadata.insert(key.to_owned(), v);
        assert(self.metadata_map() =~= old(self).metadata_map().insert(key@, value@));
        self
    }

    /// Prepares the header: lays the tensors out one after the other in the
    /// byte order of their names, records the CRC32 of each, and returns the
    /// header with the total size of the data block.
    ///
    /// # Errors
    ///
    /// For the first tensor that cannot be laid out: `OffsetOverflow` when
    /// its end offset overflows, `InvalidFormat` when its shape's byte size
    /// overflows, `SizeMismatch` when its bytes do not match its shape.
    pub fn build_header(&self) -> (r: Result<(CheckpointHeader, usize), Error>)
        ensures
            match r {
                Ok((h, total)) => {
                    &&& forall|i: int| 0 <= i < self.tensor_entries().len() ==> entry_fits(self.tensor_entries(), i)
                    &&& total == prefix_len(self.tensor_entries(), self.tensor_entries().len() as int)
                    &&& planned_header(self.tensor_entries(), self.metadata_entries(), h)
                },
                Err(e) => exists|f: int| {
                    &&& 0 <= f < self.tensor_entries().len()
                    &&& (forall|j: int| 0 <= j < f ==> entry_fits(self.tensor_entries(), j))
                    &&& !entry_fits(self.tensor_entries(), f)
                    &&& header_error(self.tensor_entries(), f, e)
                },
            },
    {
        proof {
            use_type_invariant(&self.tensors);
            use_type_invariant(&self.metadata);
        }
        assert(self.tensor_entries().subrange(0, self.tensor_entries().len() as int) =~= self.tensor_entries());
        self.build_header_range(0, self.tensors.len())
    }

    /// Prepares the header of the tensors at positions `start..end` of the
    /// listing: lays them out one after the other in the byte order of their names, records the CRC32 of each, and returns the
    /// header with the total size of the data block.
    ///
    /// # Errors
    ///
    /// For the first tensor that cannot be laid out: `OffsetOverflow` when
    /// its end offset overflows, `InvalidFormat` when its shape's byte size
    /// overflows, `SizeMismatch` when its bytes do not match its shape.
    pub fn build_header_range(&self, start: usize, end: usize) -> (r: Result<(CheckpointHeader, usize), Error>)
        requires
            start <= end <= self.tensor_entries().len(),
        ensures
            match r {
                Ok((h, total)) => {
                    &&& forall|i: int| 0 <= i < self.tensor_entries().subrange(start as int, end as int).len() ==> entry_fits(self.tensor_entries().subrange(start as int, end as int), i)
                    &&& total == prefix_len(self.tensor_entries().subrange(start as int, end as int), self.tensor_entries().subrange(start as int, end as int).len() as int)
                    &&& planned_header(self.tensor_entries().subrange(start as int, end as int), self.metadata_entries(), h)
                },
                Err(e) => exists|f: int| {
                    &&& 0 <= f < self.tensor_entries().subrange(start as int, end as int).len()
                    &&& (forall|j: int| 0 <= j < f ==> entry_fits(self.tensor_entries().subrange(start as int, end as int), j))
                    &&& !entry_fits(self.tensor_entries().subrange(start as int, end as int), f)
                    &&& header_error(self.tensor_entries().subrange(start as int, end as int), f, e)
                },
            },
    {
        proof {
            use_type_invariant(&self.tensors);
            use_type_invariant(&self.metadata);
        }
        let ghost es = self.tensor_entries().subrange(start as int, end as int);
        proof {
            assert forall|a: int, b: int| 0 <= a < b < es.len() implies name_lt(#[trigger] es[a].0, #[trigger] es[b].0) by {
                assert(name_lt(self.tensor_entries()[start + a].0, self.tensor_entries()[start + b].0));
            }
        }
        let mut header = CheckpointHeader {
            schema_version: CURRENT_SCHEMA_VERSION,
            tensors: NameMap::new(),
            metadata: self.metadata.clone(),
        };
        let mut current_offset: usize = 0;
        let n = end - start;
        let mut i: usize = 0;
        while i < n
            invariant
                n == es.len(),
                es == self.tensor_entries().subrange(start as int, end as int),
                start <= end <= self.tensor_entries().len(),
                sorted_by_name(es),
                i <= n,
                current_offset == prefix_len(es, i as int),
                forall|j: int| 0 <= j < i ==> entry_fits(es, j),
                header.schema_version == CURRENT_SCHEMA_VERSION,
                header.wf(),
                header.metadata.entries() == self.metadata_entries(),
                header.tensors.entries().len() == i,
                forall|j: int| 0 <= j < i ==> #[trigger] header.tensors.entries()[j].0 == es[j].0,
                forall|j: int| 0 <= j < i ==> planned_metadata(es, j, #[trigger] header.tensors.entries()[j].1),
            decreases n - i,
        {
            let (name, entry) = self.tensors.entry(start + i);
            let dtype = entry.0;
            let shape = &entry.1;
            let data = &entry.2;
            let start = current_offset;
            let end = match current_offset.checked_add(data.len()) {
                Some(end) => end,
                None => {
                    let e = Error::OffsetOverflow { tensor_name: name.clone(), offset: current_offset };
                    proof {
                        assert(!entry_fits(es, i as int));
                        assert(header_error(es, i as int, e));
                    }
                    return Err(e);
                },
            };
            let checksum = crc32(data.as_slice());
            let expected_data_len = match checked_byte_len(dtype, shape.as_slice()) {
                Some(len) => len,
                None => {
                    let mut message = "tensor '".to_owned();
                    message.append(name.as_str());
                    message.append("' shape size computation overflowed");
                    let e = Error::InvalidFormat { offset: start, message };
                    proof {
                        assert(!entry_fits(es, i as int));
                        assert(header_error(es, i as int, e));
                    }
                    return Err(e);
                },
            };
            if expected_data_len != data.len() {
                let e = Error::SizeMismatch {
                    tensor_name: name.clone(),
                    expected: expected_data_len,
                    actual: data.len(),
                };
                proof {
                    assert(!entry_fits(es, i as int));
                    assert(header_error(es, i as int, e));
                }
                return Err(e);
            }
            let metadata = TensorMetadata {
                dtype,
                shape: shape.clone(),
                data_offsets: [start, end],
                checksum: Some(checksum),
            };
            proof {
                assert(metadata.data_offsets@ =~= seq![start, end]);
                if i > 0 {
                    assert(name_lt(es[i - 1].0, es[i as int].0));
                }
                assert forall|j: int| 0 <= j < header.tensors.entries().len() implies name_lt(
                    #[trigger] header.tensors.entries()[j].0,
                    name@,
                ) by {
                    assert(name_lt(es[j].0, es[i as int].0));
                }
            }
            header.tensors.insert(name.clone(), metadata);
            current_offset = end;
            i += 1;
        }
        Ok((header, current_offset))
    }

    /// Lays out the checkpoint file: the header frame for `header_json`
    /// (length prefix, header, BLAKE3 digest of both) followed by the tensor
    /// data in the byte order of the tensor names, where `header_json` is the
    /// serialized header that [`Writer::build_header`] returned.
    ///
    /// # Errors
    ///
    /// `OffsetOverflow` (named `<file total>`) when the file size overflows a `u64`.
    pub fn encode_checkpoint(&self, header_json: &[u8]) -> (r: Result<Vec<u8>, Error>)
        requires
            prefix_len(self.tensor_entries(), self.tensor_entries().len() as int) <= usize::MAX,
        ensures
            ({
                let es = self.tensor_entries();
                let data_len = prefix_len(es, es.len() as int);
                match r {
                    Ok(bytes) => 8 + header_json@.len() + data_len + 32 <= u64::MAX && bytes@
                        == header_frame(header_json@) + data_block(es, es.len() as int) && blake3_of(
                        le_bytes(header_json@.len() as u64) + header_json@,
                    ).len() == 32,
                    Err(e) => 8 + header_json@.len() + data_len + 32 > u64::MAX && (e matches Error::OffsetOverflow { tensor_name, offset }
                        && tensor_name@ == "<file total>"@ && offset == data_len),
                }
            }),
    {
        proof {
            use_type_invariant(&self.tensors);
            use_type_invariant(&self.metadata);
        }
        assert(self.tensor_entries().subrange(0, self.tensor_entries().len() as int) =~= self.tensor_entries());
        self.encode_checkpoint_range(header_json, 0, self.tensors.len())
    }

    /// Plans the checkpoint file of the tensors at positions `start..end`
    /// of the listing without copying their data: returns the header frame
    /// for `header_json` (length prefix, header, BLAKE3 digest of both), and
    /// the file offsets `o` at which the tensors go, tensor `i` (counted from
    /// `start`) at `o[i]..o[i + 1]`, the last offset being the file's size.
    /// Writing the frame and then each tensor's bytes at its offsets yields
    /// exactly the file [`Writer::encode_checkpoint_range`] lays out.
    ///
    /// # Errors
    ///
    /// `OffsetOverflow` (named `<file total>`) when the file size overflows a `usize`.
    pub fn layout_range(&self, header_json: &[u8], start: usize, end: usize) -> (r: Result<(Vec<u8>, Vec<usize>), Error>)
        requires
            start <= end <= self.tensor_entries().len(),
            prefix_len(self.tensor_entries().subrange(start as int, end as int), end - start) <= usize::MAX,
        ensures
            ({
                let es = self.tensor_entries().subrange(start as int, end as int);
                let n = es.len() as int;
                let data_len = prefix_len(es, n);
                match r {
                    Ok((frame, offsets)) => {
                        &&& 8 + header_json@.len() + 32 + data_len <= usize::MAX
                        &&& frame@ == header_frame(header_json@)
                        &&& blake3_of(le_bytes(header_json@.len() as u64) + header_json@).len() == 32
                        &&& offsets@.len() == n + 1
                        &&& forall|i: int| 0 <= i <= n ==> #[trigger] offsets@[i] == frame@.len() + prefix_len(es, i)
                        &&& forall|i: int| 0 <= i < n ==> (frame@ + data_block(es, n)).subrange(
                            #[trigger] offsets@[i] as int,
                            offsets@[i + 1] as int,
                        ) == es[i].1.2@
                    },
                    Err(e) => 8 + header_json@.len() + 32 + data_len > usize::MAX && (e matches Error::OffsetOverflow { tensor_name, offset }
                        && tensor_name@ == "<file total>"@ && offset == data_len),
                }
            }),
    {
        let ghost es = self.tensor_entries().subrange(start as int, end as int);
        let n = end - start;
        let mut data_len: usize = 0;
        let mut i: usize = 0;
        while i < n
            invariant
                n == es.len(),
                es == self.tensor_entries().subrange(start as int, end as int),
                start <= end <= self.tensor_entries().len(),
                i <= n,
                data_len == prefix_len(es, i as int),
                prefix_len(es, n as int) <= usize::MAX,
            decreases n - i,
        {
            proof {
                lemma_prefix_len_monotone(es, i as int + 1, n as int);
            }
            let (_, entry) = self.tensors.entry(start + i);
            data_len = data_len + entry.2.len();
            i += 1;
        }
        let header_len = header_json.len();
        if header_len > usize::MAX - 40 || data_len > usize::MAX - 40 - header_len {
            let tensor_name = "<file total>".to_owned();
            return Err(Error::OffsetOverflow { tensor_name, offset: data_len });
        }
        let prefix = le_u64_bytes(header_len as u64);
        let mut frame: Vec<u8> = Vec::new();
        frame.extend_from_slice(&prefix);
        frame.extend_from_slice(header_json);
        assert(frame@ =~= le_bytes(header_len as u64) + header_json@);
        let checksum = blake3_digest(frame.as_slice());
        frame.extend_from_slice(&checksum);
        assert(frame@ =~= header_frame(header_json@));
        let frame_len = frame.len();
        let mut offsets: Vec<usize> = Vec::new();
        let mut at: usize = frame_len;
        offsets.push(at);
        let mut i: usize = 0;
        while i < n
            invariant
                n == es.len(),
                es == self.tensor_entries().subrange(start as int, end as int),
                start <= end <= self.tensor_entries().len(),
                i <= n,
                frame_len + prefix_len(es, n as int) <= usize::MAX,
                at == frame_len + prefix_len(es, i as int),
                offsets@.len() == i + 1,
                forall|j: int| 0 <= j <= i ==> #[trigger] offsets@[j] == frame_len + prefix_len(es, j),
            decreases n - i,
        {
            proof {
                lemma_prefix_len_monotone(es, i as int + 1, n as int);
            }
            let (_, entry) = self.tensors.entry(start + i);
            at = at + entry.2.len();
            offsets.push(at);
            i += 1;
        }
        proof {
            let block = data_block(es, n as int);
            let file = frame@ + block;
            lemma_data_block_len(es, n as int);
            assert forall|j: int| 0 <= j < n implies file.subrange(#[trigger] offsets@[j] as int, offsets@[j + 1] as int)
                == es[j].1.2@ by {
                crate::laws::lemma_data_block_slice(es, j, n as int);
                lemma_prefix_len_monotone(es, j, j + 1);
                assert(file.subrange(offsets@[j] as int, offsets@[j + 1] as int) =~= block.subrange(
                    prefix_len(es, j) as int,
                    prefix_len(es, j + 1) as int,
                ));
            }
        }
        Ok((frame, offsets))
    }

    /// Lays out the checkpoint file of the tensors at positions `start..end`
    /// of the listing: the header frame for `header_json` (length prefix,
    /// header, BLAKE3 digest of both) followed by their data in the byte
    /// order of their names, where `header_json` is the serialized header
    /// that [`Writer::build_header_range`] returned for the same range.
    ///
    /// # Errors
    ///
    /// `OffsetOverflow` (named `<file total>`) when the file size overflows a `u64`.
    pub fn encode_checkpoint_range(&self, header_json: &[u8], start: usize, end: usize) -> (r: Result<Vec<u8>, Error>)
        requires
            start <= end <= self.tensor_entries().len(),
            prefix_len(self.tensor_entries().subrange(start as int, end as int), self.tensor_entries().subrange(start as int, end as int).len() as int) <= usize::MAX,
        ensures
            ({
                let es = self.tensor_entries().subrange(start as int, end as int);
                let data_len = prefix_len(es, es.len() as int);
                match r {
                    Ok(bytes) => 8 + header_json@.len() + data_len + 32 <= u64::MAX && bytes@
                        == header_frame(header_json@) + data_block(es, es.len() as int) && blake3_of(
                        le_bytes(header_json@.len() as u64) + header_json@,
                    ).len() == 32,
                    Err(e) => 8 + header_json@.len() + data_len + 32 > u64::MAX && (e matches Error::OffsetOverflow { tensor_name, offset }
                        && tensor_name@ == "<file total>"@ && offset == data_len),
                }
            }),
    {
        proof {
            use_type_invariant(&self.tensors);
            use_type_invariant(&self.metadata);
        }
        let ghost es = self.tensor_entries().subrange(start as int, end as int);
        let n = end - start;
        let mut data_len: usize = 0;
        let mut i: usize = 0;
        while i < n
            invariant
                n == es.len(),
                es == self.tensor_entries().subrange(start as int, end as int),
                start <= end <= self.tensor_entries().len(),
                i <= n,
                data_len == prefix_len(es, i as int),
                prefix_len(es, n as int) <= usize::MAX,
            decreases n - i,
        {
            proof {
                lemma_prefix_len_monotone(es, i as int + 1, n as int);
            }
            let (_, entry) = self.tensors.entry(start + i);
            data_len = data_len + entry.2.len();
            i += 1;
        }
        let header_len = header_json.len() as u64;
        if header_len > u64::MAX - 8 || header_len + 8 > u64::MAX - (data_len as u64) || header_len + 8
            + (data_len as u64) > u64::MAX - 32 {
            let tensor_name = "<file total>".to_owned();
            return Err(Error::OffsetOverflow { tensor_name, offset: data_len });
        }
        let prefix = le_u64_bytes(header_len);
        let mut out: Vec<u8> = Vec::new();
        out.extend_from_slice(&prefix);
        out.extend_from_slice(header_json);
        assert(out@ =~= le_bytes(header_len) + header_json@);
        let checksum = blake3_digest(out.as_slice());
        out.extend_from_slice(&checksum);
        assert(out@ =~= header_frame(header_json@));
        let ghost frame = out@;
        let mut i: usize = 0;
        while i < n
            invariant
                n == es.len(),
                es == self.tensor_entries().subrange(start as int, end as int),
                start <= end <= self.tensor_entries().len(),
                i <= n,
                out@ == frame + data_block(es, i as int),
            decreases n - i,
        {
            let (_, entry) = self.tensors.entry(start + i);
            out.extend_from_slice(entry.2.as_slice());
            assert(out@ =~= frame + data_block(es, i as int + 1));
            i += 1;
        }
        Ok(out)
    }
}

/// Byte totals only grow along the listing.
pub proof fn lemma_prefix_len_monotone(es: Seq<(Seq<char>, TensorEntry)>, i: int, j: int)
    requires
        0 <= i <= j <= es.len(),
    ensures
        prefix_len(es, i) <= prefix_len(es, j),
    decreases j - i,
{
    if i < j {
        lemma_prefix_len_monotone(es, i, j - 1);
    }
}

} // verus!
