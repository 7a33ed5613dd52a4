//! Sharded checkpoints: argument checks, the partition of the tensor
//! listing into shards, shard and index file names, and the checks that
//! decide whether an existing shard can be kept and whether a written shard
//! holds what it should.
use vstd::prelude::*;
use crate::codec::{decimal_padded, push_decimal_padded};
use crate::digest::{crc32, crc32_of};
use crate::error::Error;
use crate::name_map::{name_bytes, NameMap};
use crate::paths::{has_parent_component, has_parent_dir};
use crate::reader::{tensor_read_error, tensor_readable, Checkpoint};
use crate::writer::{TensorEntry, Writer};
use vstd::string::*;

verus! {

/// The index file for sharded checkpoints.
#[derive(Debug)]
pub struct ShardIndex {
    /// Mapping of tensor names to their respective shard files.
    pub weight_map: NameMap<String>,
    /// Optional metadata about the sharded checkpoint.
    pub metadata: Option<NameMap<String>>,
}

impl Default for ShardIndex {
    fn default() -> (r: Self)
        ensures
            r.weight_map.wf(),
            r.weight_map.entries().len() == 0,
            r.metadata is None,
    {
        ShardIndex { weight_map: NameMap::new(), metadata: None }
    }
}

/// The path `b` holds a directory separator (`/` or `\`).
pub open spec fn has_separator(b: Seq<u8>) -> bool {
    exists|i: int| 0 <= i < b.len() && (b[i] == 47 || b[i] == 92)
}

fn contains_separator(s: &str) -> (r: bool)
    ensures
        r == has_separator(name_bytes(s@)),
{
    let b = s.as_bytes();
    let mut i: usize = 0;
    while i < b.len()
        invariant
            b@ == name_bytes(s@),
            i <= b@.len(),
            forall|j: int| 0 <= j < i ==> !(b@[j] == 47 || b@[j] == 92),
        decreases b.len() - i,
    {
        if b[i] == 47 || b[i] == 92 {
            return true;
        }
        i += 1;
    }
    false
}

/// The number of tensors each shard takes: the listing's length divided by
/// the number of shards, rounded up.
pub open spec fn tensors_per_shard(n: nat, k: nat) -> nat {
    if n % k == 0 {
        n / k
    } else {
        n / k + 1
    }
}

/// Where shard `i` of `k` starts in a listing of `n` tensors.
pub open spec fn shard_start(n: nat, k: nat, i: nat) -> nat {
    let per = tensors_per_shard(n, k);
    if i * per <= n {
        i * per
    } else {
        n
    }
}

/// Where shard `i` of `k` ends (exclusive) in a listing of `n` tensors.
pub open spec fn shard_end(n: nat, k: nat, i: nat) -> nat {
    let per = tensors_per_shard(n, k);
    if i * per + per <= n {
        i * per + per
    } else {
        n
    }
}

/// The positions `start..end` of the listing that shard `i` of
/// `num_shards` takes; the shard is empty, and is not written, when
/// `start >= end`.
pub fn shard_bounds(n: usize, num_shards: usize, i: usize) -> (r: (usize, usize))
    requires
        num_shards > 0,
    ensures
        r.0 == shard_start(n as nat, num_shards as nat, i as nat),
        r.1 == shard_end(n as nat, num_shards as nat, i as nat),
{
    proof {
        if n % num_shards != 0 {
            if num_shards == 1 {
                assert(n % 1 == 0) by (nonlinear_arith);
            }
            assert(n / num_shards < usize::MAX) by (nonlinear_arith)
                requires
                    num_shards >= 2,
                    n <= usize::MAX,
            ;
        }
    }
    let per = if n % num_shards == 0 {
        n / num_shards
    } else {
        n / num_shards + 1
    };
    assert(per == tensors_per_shard(n as nat, num_shards as nat));
    match i.checked_mul(per) {
        None => {
            assert(i * per + per > n) by (nonlinear_arith)
                requires
                    i * per > usize::MAX,
                    n <= usize::MAX,
            ;
            (n, n)
        },
        Some(p) => {
            if p > n {
                (n, n)
            } else if per <= n - p {
                (p, p + per)
            } else {
                (p, n)
            }
        },
    }
}

/// Appends `s` to `out`.
fn push_str(out: &mut String, s: &str)
    ensures
        final(out)@ == old(out)@ + s@,
{
    out.append(s);
}

/// The file name of shard `index` (counted from 0) of `num_shards`:
/// `{prefix}-{index + 1}-of-{num_shards}.safetensors`, with both numbers
/// zero-padded to five digits.
pub open spec fn shard_file_name_spec(prefix: Seq<char>, index: nat, num_shards: nat) -> Seq<char> {
    prefix + "-"@ + decimal_padded(index + 1, 5) + "-of-"@ + decimal_padded(num_shards, 5)
        + ".safetensors"@
}

/// Names the file of shard `index` (counted from 0) of `num_shards`.
pub fn shard_file_name(prefix: &str, index: usize, num_shards: usize) -> (r: String)
    requires
        index < num_shards,
    ensures
        r@ == shard_file_name_spec(prefix@, index as nat, num_shards as nat),
{
    let mut name = prefix.to_owned();
    push_str(&mut name, "-");
    push_decimal_padded(&mut name, index + 1, 5);
    push_str(&mut name, "-of-");
    push_decimal_padded(&mut name, num_shards, 5);
    push_str(&mut name, ".safetensors");
    name
}

/// Names the index file of a sharded checkpoint: `{prefix}.safetensors.index.json`.
pub fn index_file_name(prefix: &str) -> (r: String)
    ensures
        r@ == prefix@ + ".safetensors.index.json"@,
{
    let mut name = prefix.to_owned();
    push_str(&mut name, ".safetensors.index.json");
    name
}

/// The tensor at position `k` of listing `es` is stored intact in the
/// opened shard `c`: it can be read, and the shard records the CRC32 of the
/// bytes the writer holds for it.
pub open spec fn tensor_verified(
    es: Seq<(Seq<char>, TensorEntry)>,
    k: int,
    c: Checkpoint,
    bytes: Seq<u8>,
) -> bool {
    &&& tensor_readable(c, bytes, es[k].0)
    &&& c.header_spec().tensors@[es[k].0].checksum == Some(crc32_of(es[k].1.2@))
}

/// A table of names and strings, as names and texts.
pub open spec fn table_text(t: Seq<(Seq<char>, String)>) -> Seq<(Seq<char>, Seq<char>)> {
    t.map_values(|e: (Seq<char>, String)| (e.0, e.1@))
}

/// The opened shard `c` is what a save of the tensors at positions
/// `start..end` of listing `es`, with global metadata `meta`, would write:
/// it holds exactly those tensors (the same names, in the same order), each
/// with the same data type and shape and each intact, and its metadata
/// table is `meta`.
pub open spec fn shard_current(
    es: Seq<(Seq<char>, TensorEntry)>,
    meta: Seq<(Seq<char>, String)>,
    start: int,
    end: int,
    c: Checkpoint,
    bytes: Seq<u8>,
) -> bool {
    let hs = c.header_spec().tensors.entries();
    &&& hs.len() == end - start
    &&& forall|k: int| 0 <= k < hs.len() ==> #[trigger] hs[k].0 == es[start + k].0
    &&& forall|k: int| 0 <= k < hs.len() ==> (#[trigger] hs[k].1).dtype == es[start + k].1.0
    &&& forall|k: int| 0 <= k < hs.len() ==> (#[trigger] hs[k].1).shape@ == es[start + k].1.1@
    &&& table_text(c.header_spec().metadata.entries()) == table_text(meta)
    &&& forall|k: int| start <= k < end ==> tensor_verified(es, k, c, bytes)
}

/// Whether two shapes are the same.
fn same_shape(a: &Vec<usize>, b: &Vec<usize>) -> (r: bool)
    ensures
        r == (a@ == b@),
{
    if a.len() != b.len() {
        return false;
    }
    let mut i: usize = 0;
    while i < a.len()
        invariant
            a@.len() == b@.len(),
            i <= a@.len(),
            forall|j: int| 0 <= j < i ==> a@[j] == b@[j],
        decreases a.len() - i,
    {
        if a[i] != b[i] {
            return false;
        }
        i += 1;
    }
    assert(a@ =~= b@);
    true
}

/// Whether two string tables hold the same names and texts, in the same order.
fn same_table(a: &NameMap<String>, b: &NameMap<String>) -> (r: bool)
    ensures
        r == (table_text(a.entries()) == table_text(b.entries())),
{
    if a.len() != b.len() {
        proof {
            if table_text(a.entries()) == table_text(b.entries()) {
                assert(table_text(a.entries()).len() == table_text(b.entries()).len());
            }
        }
        return false;
    }
    let mut i: usize = 0;
    while i < a.len()
        invariant
            a.entries().len() == b.entries().len(),
            i <= a.entries().len(),
            forall|j: int| 0 <= j < i ==> #[trigger] table_text(a.entries())[j] == table_text(b.entries())[j],
        decreases a.entries().len() - i,
    {
        let (ka, va) = a.entry(i);
        let (kb, vb) = b.entry(i);
        if *ka != *kb || *va != *vb {
            proof {
                if table_text(a.entries()) == table_text(b.entries()) {
                    assert(table_text(a.entries())[i as int] == table_text(b.entries())[i as int]);
                }
            }
            return false;
        }
        i += 1;
    }
    assert(table_text(a.entries()) =~= table_text(b.entries()));
    true
}

/// Records every name of `s` in `m` under the value `v`, from first to last.
pub open spec fn assign_all(m: Map<Seq<char>, Seq<char>>, s: Seq<(Seq<char>, TensorEntry)>, v: Seq<char>) -> Map<
    Seq<char>,
    Seq<char>,
>
    decreases s.len(),
{
    if s.len() == 0 {
        m
    } else {
        assign_all(m, s.drop_last(), v).insert(s.last().0, v)
    }
}

/// The index built by recording shards `0..i` of `k`, in order, as
/// [`Writer::verify_shard`] records each: every tensor of a shard's range
/// is mapped to that shard's file name. Empty shards record nothing.
pub open spec fn index_after(es: Seq<(Seq<char>, TensorEntry)>, k: nat, prefix: Seq<char>, i: nat) -> Map<
    Seq<char>,
    Seq<char>,
>
    decreases i,
{
    if i == 0 {
        Map::empty()
    } else {
        let n = es.len();
        let s = (i - 1) as nat;
        assign_all(
            index_after(es, k, prefix, s),
            es.subrange(shard_start(n, k, s) as int, shard_end(n, k, s) as int),
            shard_file_name_spec(prefix, s, k),
        )
    }
}

/// `e` is the error [`Writer::verify_shard`] reports for the tensor at
/// position `k`, the first that is not stored intact in shard `shard_name`.
pub open spec fn verification_error(
    es: Seq<(Seq<char>, TensorEntry)>,
    k: int,
    c: Checkpoint,
    bytes: Seq<u8>,
    shard_name: Seq<char>,
    e: Error,
) -> bool {
    e matches Error::ShardVerification { shard, source } && shard@ == shard_name && if !tensor_readable(
        c,
        bytes,
        es[k].0,
    ) {
        tensor_read_error(c, bytes, es[k].0, *source)
    } else {
        *source matches Error::Checksum { tensor_name, expected, actual } && tensor_name@ == es[k].0
            && expected == crc32_of(es[k].1.2@) && actual == match c.header_spec().tensors@[es[k].0].checksum {
            Some(x) => x,
            None => 0,
        }
    }
}

impl Writer {
    /// Validates the sharded-save arguments: `num_shards` must be non-zero,
    /// and neither `directory` nor `prefix` may leave the target directory.
    ///
    /// # Errors
    ///
    /// `InvalidArgument` when `num_shards` is zero; `PathTraversal` when the
    /// directory or the prefix has a `..` component, or the prefix holds a
    /// directory separator.
    pub fn validate_shard_args(directory: &str, prefix: &str, num_shards: usize) -> (r: Result<(), Error>)
        ensures
            if num_shards == 0 {
                r matches Err(Error::InvalidArgument { parameter, reason }) && parameter@ == "num_shards"@
                    && reason@ == "must be at least 1; got 0 (division by zero when partitioning tensors)"@
            } else if has_parent_component(name_bytes(directory@)) {
                r matches Err(Error::PathTraversal { path, reason }) && path@ == directory@ && reason@
                    == "directory contains '..'"@
            } else if has_parent_component(name_bytes(prefix@)) {
                r matches Err(Error::PathTraversal { path, reason }) && path@ == prefix@ && reason@
                    == "prefix contains '..'"@
            } else if has_separator(name_bytes(prefix@)) {
                r matches Err(Error::PathTraversal { path, reason }) && path@ == prefix@ && reason@
                    == "prefix contains directory separators"@
            } else {
                r is Ok
            },
    {
        if num_shards == 0 {
            return Err(Error::InvalidArgument {
                parameter: "num_shards".to_owned(),
                reason: "must be at least 1; got 0 (division by zero when partitioning tensors)".to_owned(),
            });
        }
        if has_parent_dir(directory) {
            return Err(Error::PathTraversal {
                path: directory.to_owned(),
                reason: "directory contains '..'".to_owned(),
            });
        }
        if has_parent_dir(prefix) {
            return Err(Error::PathTraversal {
                path: prefix.to_owned(),
                reason: "prefix contains '..'".to_owned(),
            });
        }
        if contains_separator(prefix) {
            return Err(Error::PathTraversal {
                path: prefix.to_owned(),
                reason: "prefix contains directory separators".to_owned(),
            });
        }
        Ok(())
    }

    /// Whether an existing shard, opened as `shard` over the file's
    /// `bytes`, is what a save of the tensors at positions `start..end` of
    /// the listing would write, so that it can be kept: the same tensors, in
    /// order, with the same data types and shapes, intact, and the same
    /// metadata.
    pub fn shard_is_current(&self, start: usize, end: usize, shard: &Checkpoint, bytes: &[u8]) -> (r: bool)
        requires
            start <= end <= self.tensor_entries().len(),
        ensures
            r == shard_current(self.tensor_entries(), self.metadata_entries(), start as int, end as int, *shard, bytes@),
    {
        let shard_header = shard.header();
        proof {
            use_type_invariant(&self.tensors);
            use_type_invariant(&self.metadata);
            use_type_invariant(&shard_header.tensors);
            use_type_invariant(&shard_header.metadata);
        }
        let ghost es = self.tensor_entries();
        let names = &shard.header().tensors;
        if names.len() != end - start {
            return false;
        }
        let mut k: usize = 0;
        while k < end - start
            invariant
                start <= end <= es.len(),
                es == self.tensor_entries(),
                *names == shard.header_spec().tensors,
                names.entries().len() == end - start,
                k <= end - start,
                forall|j: int| 0 <= j < k ==> #[trigger] names.entries()[j].0 == es[start + j].0,
                forall|j: int| 0 <= j < k ==> (#[trigger] names.entries()[j].1).dtype == es[start + j].1.0,
                forall|j: int| 0 <= j < k ==> (#[trigger] names.entries()[j].1).shape@ == es[start + j].1.1@,
            decreases end - start - k,
        {
            let (here, meta) = names.entry(k);
            let (want, entry) = self.tensor_at(start + k);
            if *here != *want || meta.dtype != entry.0 || !same_shape(&meta.shape, &entry.1) {
                return false;
            }
            k += 1;
        }
        if !same_table(&shard.header().metadata, self.metadata_table()) {
            return false;
        }
        let mut k: usize = start;
        while k < end
            invariant
                start <= k <= end <= es.len(),
                es == self.tensor_entries(),
                shard.header_spec().wf(),
                forall|j: int| start <= j < k ==> tensor_verified(es, j, *shard, bytes@),
            decreases end - k,
        {
            let (name, entry) = self.tensor_at(k);
            match shard.get_tensor(bytes, name.as_str()) {
                Err(_) => {
                    assert(!tensor_verified(es, k as int, *shard, bytes@));
                    return false;
                },
                Ok(t) => match t.metadata.checksum {
                    Some(file_checksum) => {
                        if file_checksum != crc32(entry.2.as_slice()) {
                            assert(!tensor_verified(es, k as int, *shard, bytes@));
                            return false;
                        }
                    },
                    None => {
                        assert(!tensor_verified(es, k as int, *shard, bytes@));
                        return false;
                    },
                },
            }
            k += 1;
        }
        true
    }

    /// Checks a freshly written shard, opened as `shard` over the file's
    /// `bytes`, against the tensors at positions `start..end` of the
    /// listing, and records in `weight_map` that each of them lives in the
    /// file `shard_name`.
    ///
    /// # Errors
    ///
    /// `ShardVerification` for `shard_name` wrapping, for the first tensor
    /// not stored intact, the error reading it gave, or a `Checksum` error
    /// when the CRC32 the shard records differs from that of the writer's bytes.
    pub fn verify_shard(
        &self,
        start: usize,
        end: usize,
        shard_name: &str,
        shard: &Checkpoint,
        bytes: &[u8],
        weight_map: &mut NameMap<String>,
    ) -> (r: Result<(), Error>)
        requires
            start <= end <= self.tensor_entries().len(),
        ensures
            final(weight_map).wf(),
            r is Ok <==> forall|k: int| start <= k < end ==> tensor_verified(self.tensor_entries(), k, *shard, bytes@),
            r is Ok ==> final(weight_map)@.map_values(|v: String| v@) == assign_all(
                old(weight_map)@.map_values(|v: String| v@),
                self.tensor_entries().subrange(start as int, end as int),
                shard_name@,
            ),
            r matches Err(e) ==> exists|f: int| {
                &&& start <= f < end
                &&& (forall|j: int| start <= j < f ==> tensor_verified(self.tensor_entries(), j, *shard, bytes@))
                &&& !tensor_verified(self.tensor_entries(), f, *shard, bytes@)
                &&& verification_error(self.tensor_entries(), f, *shard, bytes@, shard_name@, e)
            },
    {
        let shard_header = shard.header();
        proof {
            use_type_invariant(&self.tensors);
            use_type_invariant(&self.metadata);
            use_type_invariant(&shard_header.tensors);
            use_type_invariant(&shard_header.metadata);
            use_type_invariant(&*weight_map);
        }
        let ghost es = self.tensor_entries();
        let ghost start_map = weight_map@.map_values(|v: String| v@);
        let mut k: usize = start;
        while k < end
            invariant
                start <= k <= end <= es.len(),
                es == self.tensor_entries(),
                shard.header_spec().wf(),
                weight_map.wf(),
                forall|j: int| start <= j < k ==> tensor_verified(es, j, *shard, bytes@),
                weight_map@.map_values(|v: String| v@) == assign_all(
                    start_map,
                    es.subrange(start as int, k as int),
                    shard_name@,
                ),
            decreases end - k,
        {
            let (name, entry) = self.tensor_at(k);
            let tensor = match shard.get_tensor(bytes, name.as_str()) {
                Ok(t) => t,
                Err(e) => {
                    assert(!tensor_readable(*shard, bytes@, es[k as int].0));
                    assert(!tensor_verified(es, k as int, *shard, bytes@));
                    let err = Error::ShardVerification { shard: shard_name.to_owned(), source: Box::new(e) };
                    assert(verification_error(es, k as int, *shard, bytes@, shard_name@, err));
                    return Err(err);
                },
            };
            let expected_checksum = crc32(entry.2.as_slice());
            let matches = match tensor.metadata.checksum {
                Some(c) => c == expected_checksum,
                None => false,
            };
            assert(tensor_readable(*shard, bytes@, es[k as int].0));
            if !matches {
                assert(!tensor_verified(es, k as int, *shard, bytes@));
                let actual = match tensor.metadata.checksum {
                    Some(c) => c,
                    None => 0,
                };
                let err = Error::ShardVerification {
                    shard: shard_name.to_owned(),
                    source: Box::new(Error::Checksum {
                        tensor_name: name.clone(),
                        expected: expected_checksum,
                        actual,
                    }),
                };
                assert(verification_error(es, k as int, *shard, bytes@, shard_name@, err));
                return Err(err);
            }
            let ghost before = weight_map@;
            weight_map.insert(name.clone(), shard_name.to_owned());
            proof {
                assert(es.subrange(start as int, k + 1).drop_last() =~= es.subrange(start as int, k as int));
                assert(weight_map@.map_values(|v: String| v@) =~= before.map_values(|v: String| v@).insert(
                    name@,
                    shard_name@,
                ));
            }
            k += 1;
        }
        Ok(())
    }

    /// The index of a sharded checkpoint: where each tensor lives, and the
    /// writer's metadata.
    pub fn shard_index(&self, weight_map: NameMap<String>) -> (r: ShardIndex)
        ensures
            r.weight_map == weight_map,
            r.metadata matches Some(m) && m.entries() == self.metadata_entries(),
    {
        ShardIndex { weight_map, metadata: Some(self.metadata_table().clone()) }
    }
}

} // verus!
