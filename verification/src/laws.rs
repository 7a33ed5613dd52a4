//! Properties of the library as a whole, relating several of its functions.
use vstd::prelude::*;
use crate::codec::{le_bytes, lemma_le_roundtrip};
use crate::digest::{blake3_of, crc32_of, lemma_crc32_detects_one_byte};
use crate::error::Error;
use crate::name_map::{
    lemma_bytes_lt_asymmetric, lemma_listing_entry, lemma_listing_unique, listing_has,
    listing_index, listing_to_map, name_bytes, name_lt, sorted_by_name,
};
use crate::reader::{
    declared_header_len, file_span, frame_ok, read_ok, tensor_read_error, tensor_read_result,
    tensor_readable, Checkpoint,
    MAX_HEADER_LEN,
};
use crate::shard::{
    assign_all, index_after, shard_current, table_text, shard_end, shard_file_name_spec, shard_start,
    tensor_verified, tensors_per_shard,
};
use crate::paths::{has_parent_component, parent_component_at};
use crate::tensor::{checked_product, expected_byte_len, CheckpointHeader, DType, Tensor};
use crate::writer::{
    data_block, entry_fits, header_frame, insert_all, lemma_data_block_len, lemma_prefix_len_monotone,
    planned_header, planned_metadata, prefix_len, TensorEntry, Writer,
};

verus! {

/// The bytes of entry `i` sit at `[prefix_len(i), prefix_len(i + 1))` of the data block.
pub proof fn lemma_data_block_slice(es: Seq<(Seq<char>, TensorEntry)>, i: int, n: int)
    requires
        0 <= i < n <= es.len(),
    ensures
        prefix_len(es, i + 1) <= prefix_len(es, n),
        data_block(es, n).subrange(prefix_len(es, i) as int, prefix_len(es, i + 1) as int)
            == es[i].1.2@,
    decreases n,
{
    lemma_data_block_len(es, n - 1);
    lemma_data_block_len(es, i);
    if n == i + 1 {
        assert(data_block(es, n).subrange(prefix_len(es, i) as int, prefix_len(es, i + 1) as int)
            =~= es[i].1.2@);
    } else {
        lemma_data_block_slice(es, i, n - 1);
        lemma_prefix_len_monotone(es, i + 1, n - 1);
        assert(data_block(es, n).subrange(prefix_len(es, i) as int, prefix_len(es, i + 1) as int)
            =~= data_block(es, n - 1).subrange(prefix_len(es, i) as int, prefix_len(es, i + 1) as int));
    }
}

/// The frame a writer lays out is intact: for the file made of the header
/// frame around a serialized header `json` followed by any data block, the
/// declared length is that of `json`, `json` follows it, and the stored
/// digest matches.
pub proof fn lemma_frame_intact(json: Seq<u8>, block: Seq<u8>)
    requires
        json.len() <= MAX_HEADER_LEN,
        blake3_of(le_bytes(json.len() as u64) + json).len() == 32,
    ensures
        ({
            let bytes = header_frame(json) + block;
            &&& header_frame(json).len() == 8 + json.len() + 32
            &&& frame_ok(bytes)
            &&& declared_header_len(bytes) == json.len()
            &&& bytes.subrange(8, 8 + json.len() as int) == json
        }),
{
    let len_bytes = le_bytes(json.len() as u64);
    let prefix = len_bytes + json;
    let frame = header_frame(json);
    let bytes = frame + block;
    let d = (8 + json.len() + 32) as int;
    lemma_le_roundtrip(json.len() as u64);
    assert(frame.len() == d);
    assert(bytes.subrange(0, 8) =~= len_bytes);
    assert(declared_header_len(bytes) == json.len()) by {
        assert(bytes[0] == len_bytes[0] && bytes[1] == len_bytes[1] && bytes[2] == len_bytes[2]);
        assert(bytes[3] == len_bytes[3] && bytes[4] == len_bytes[4] && bytes[5] == len_bytes[5]);
        assert(bytes[6] == len_bytes[6] && bytes[7] == len_bytes[7]);
    }
    assert(bytes.subrange(0, 8 + json.len() as int) =~= prefix);
    assert(bytes.subrange(8 + json.len() as int, d as int) =~= blake3_of(prefix));
    assert(bytes.subrange(8, 8 + json.len() as int) =~= json);
}

/// Reading back a laid-out listing: take a listing `es` whose header was
/// planned as `h`, and the file made of the header frame around a
/// serialized header `json` followed by the data block of `es`. Then the
/// `i`-th tensor of the listing reads back from the file, through its entry
/// in `h`, as exactly its bytes, with their CRC32 recorded beside it.
pub proof fn lemma_read_back_listing(
    es: Seq<(Seq<char>, TensorEntry)>,
    meta: Seq<(Seq<char>, String)>,
    h: CheckpointHeader,
    json: Seq<u8>,
    i: int,
)
    requires
        forall|j: int| 0 <= j < es.len() ==> entry_fits(es, j),
        planned_header(es, meta, h),
        json.len() <= MAX_HEADER_LEN,
        blake3_of(le_bytes(json.len() as u64) + json).len() == 32,
        8 + json.len() + 32 + prefix_len(es, es.len() as int) <= usize::MAX,
        0 <= i < es.len(),
    ensures
        ({
            let bytes = header_frame(json) + data_block(es, es.len() as int);
            let d = (8 + json.len() + 32) as int;
            let m = h.tensors@[es[i].0];
            &&& h.tensors@.contains_key(es[i].0)
            &&& m == h.tensors.entries()[i].1
            &&& read_ok(d, bytes.len() as int, bytes, m)
            &&& bytes.subrange(file_span(d, m).0, file_span(d, m).1) == es[i].1.2@
            &&& m.checksum == Some(crc32_of(es[i].1.2@))
        }),
{
    let n = es.len() as int;
    let frame = header_frame(json);
    let block = data_block(es, n);
    let bytes = frame + block;
    let d = (8 + json.len() + 32) as int;
    lemma_frame_intact(json, block);
    lemma_data_block_len(es, n);
    let hs = h.tensors.entries();
    assert(hs[i].0 == es[i].0);
    lemma_listing_entry(hs, i);
    let m = hs[i].1;
    assert(h.tensors@[es[i].0] == m);
    assert(planned_metadata(es, i, m));
    assert(entry_fits(es, i));
    lemma_data_block_slice(es, i, n);
    assert(m.is_valid());
    let (start, end) = file_span(d, m);
    assert(bytes.subrange(start, end) =~= block.subrange(prefix_len(es, i) as int, prefix_len(es, i + 1) as int));
    assert(read_ok(d, bytes.len() as int, bytes, m));
}

/// Reading back what was written: take a writer whose header
/// [`Writer::build_header`] planned as `h`, and the file
/// [`Writer::encode_checkpoint`] laid out around a serialized header
/// `json` that reads back as `h`. Then the file's frame is intact
/// ([`crate::reader::locate_header`] accepts it and finds `json`), and for
/// every tensor the writer holds, reading it through `h`
/// ([`crate::reader::Checkpoint::get_tensor`]) succeeds and returns exactly
/// the bytes that were added for it.
pub proof fn law_read_back_written_tensor(w: Writer, h: CheckpointHeader, json: Seq<u8>, name: Seq<char>)
    requires
        w.wf(),
        forall|i: int| 0 <= i < w.tensor_entries().len() ==> entry_fits(w.tensor_entries(), i),
        planned_header(w.tensor_entries(), w.metadata_entries(), h),
        json.len() <= MAX_HEADER_LEN,
        blake3_of(le_bytes(json.len() as u64) + json).len() == 32,
        8 + json.len() + 32 + prefix_len(w.tensor_entries(), w.tensor_entries().len() as int)
            <= usize::MAX,
        w.tensor_map().contains_key(name),
    ensures
        ({
            let es = w.tensor_entries();
            let bytes = header_frame(json) + data_block(es, es.len() as int);
            let d = (8 + json.len() + 32) as int;
            &&& frame_ok(bytes)
            &&& declared_header_len(bytes) == json.len()
            &&& bytes.subrange(8, 8 + json.len() as int) == json
            &&& h.tensors@.contains_key(name)
            &&& read_ok(d, bytes.len() as int, bytes, h.tensors@[name])
            &&& bytes.subrange(file_span(d, h.tensors@[name]).0, file_span(d, h.tensors@[name]).1)
                == w.tensor_map()[name].2@
        }),
{
    let es = w.tensor_entries();
    w.lemma_wf_listings();
    let i = listing_index(es, name);
    assert(0 <= i < es.len() && es[i].0 == name);
    lemma_listing_entry(es, i);
    lemma_frame_intact(json, data_block(es, es.len() as int));
    lemma_read_back_listing(es, w.metadata_entries(), h, json, i);
}

/// A shard written by a sharded save is kept when the save is resumed and
/// passes the check that follows the writes: take the tensors at positions
/// `start..end` of a writer's listing, the header
/// [`Writer::build_header_range`] planned for them as `h`, and the file
/// [`Writer::encode_checkpoint_range`] laid out around a serialized header
/// `json`. A checkpoint opened over that file with the header `h` (the
/// frame's data block starting after the header's digest) holds exactly
/// those tensors, in order, with their data types and shapes, each readable
/// and recorded with the CRC32 of the writer's bytes, and it holds the
/// writer's metadata: that is what [`Writer::shard_is_current`] accepts,
/// and every tensor passes what [`Writer::verify_shard`] requires.
pub proof fn law_written_shard_is_current(
    w: Writer,
    start: int,
    end: int,
    h: CheckpointHeader,
    json: Seq<u8>,
    c: Checkpoint,
    bytes: Seq<u8>,
)
    requires
        w.wf(),
        0 <= start <= end <= w.tensor_entries().len(),
        forall|i: int| 0 <= i < end - start ==> entry_fits(w.tensor_entries().subrange(start, end), i),
        planned_header(w.tensor_entries().subrange(start, end), w.metadata_entries(), h),
        json.len() <= MAX_HEADER_LEN,
        blake3_of(le_bytes(json.len() as u64) + json).len() == 32,
        8 + json.len() + 32 + prefix_len(w.tensor_entries().subrange(start, end), end - start)
            <= usize::MAX,
        bytes == header_frame(json) + data_block(w.tensor_entries().subrange(start, end), end - start),
        c.header_spec() == h,
        c.data_start() == 8 + json.len() + 32,
        c.recorded_size() == bytes.len(),
    ensures
        frame_ok(bytes),
        shard_current(w.tensor_entries(), w.metadata_entries(), start, end, c, bytes),
        forall|k: int| start <= k < end ==> tensor_verified(w.tensor_entries(), k, c, bytes),
{
    let es = w.tensor_entries();
    let sub = es.subrange(start, end);
    assert(sub.len() == end - start);
    lemma_frame_intact(json, data_block(sub, end - start));
    assert forall|k: int| start <= k < end implies tensor_verified(es, k, c, bytes) by {
        lemma_read_back_listing(sub, w.metadata_entries(), h, json, k - start);
        assert(sub[k - start] == es[k]);
    }
    let hs = c.header_spec().tensors.entries();
    assert forall|k: int| 0 <= k < hs.len() implies #[trigger] hs[k].0 == es[start + k].0 by {
        assert(sub[k] == es[start + k]);
    }
    assert forall|k: int| 0 <= k < hs.len() implies (#[trigger] hs[k].1).dtype == es[start + k].1.0
        && hs[k].1.shape@ == es[start + k].1.1@ by {
        assert(sub[k] == es[start + k]);
        assert(planned_metadata(sub, k, hs[k].1));
    }
}

/// A stale shard is never kept: when an existing shard's metadata differs
/// from the writer's, or one of its tensors has another data type or shape
/// than the writer's tensor at that position, [`Writer::shard_is_current`]
/// rejects it, so a resumed sharded save writes it again.
pub proof fn law_stale_shard_is_not_kept(
    es: Seq<(Seq<char>, TensorEntry)>,
    meta: Seq<(Seq<char>, String)>,
    start: int,
    end: int,
    c: Checkpoint,
    bytes: Seq<u8>,
    k: int,
)
    requires
        table_text(c.header_spec().metadata.entries()) != table_text(meta) || (0 <= k
            < c.header_spec().tensors.entries().len() && (c.header_spec().tensors.entries()[k].1.dtype
            != es[start + k].1.0 || c.header_spec().tensors.entries()[k].1.shape@ != es[start + k].1.1@)),
    ensures
        !shard_current(es, meta, start, end, c, bytes),
{
}

/// A shard that is kept on resumption passes the check that follows the
/// writes: whatever [`Writer::shard_is_current`] accepts, every tensor of
/// its range is stored intact, so [`Writer::verify_shard`] succeeds on it.
pub proof fn law_kept_shard_verifies(
    es: Seq<(Seq<char>, TensorEntry)>,
    meta: Seq<(Seq<char>, String)>,
    start: int,
    end: int,
    c: Checkpoint,
    bytes: Seq<u8>,
)
    requires
        shard_current(es, meta, start, end, c, bytes),
    ensures
        forall|k: int| start <= k < end ==> tensor_verified(es, k, c, bytes),
{
}

/// Whatever order tensors were added in, a writer lists them the same way:
/// two well-formed writers that hold the same tensors have the same
/// listing, hence the same header and the same file.
pub proof fn law_listing_is_canonical(w1: Writer, w2: Writer)
    requires
        w1.wf(),
        w2.wf(),
        w1.tensor_map() == w2.tensor_map(),
    ensures
        w1.tensor_entries() == w2.tensor_entries(),
{
    w1.lemma_wf_listings();
    w2.lemma_wf_listings();
    lemma_sorted_listing_determined(w1.tensor_entries(), w2.tensor_entries());
}

/// A sorted listing is determined by the map it describes.
#[verifier::spinoff_prover]
#[verifier::rlimit(40)]
pub proof fn lemma_sorted_listing_determined<V>(s1: Seq<(Seq<char>, V)>, s2: Seq<(Seq<char>, V)>)
    requires
        sorted_by_name(s1),
        sorted_by_name(s2),
        listing_to_map(s1) == listing_to_map(s2),
    ensures
        s1 == s2,
    decreases s1.len() + s2.len(),
{
    let m = listing_to_map(s1);
    if s1.len() == 0 {
        if s2.len() > 0 {
            lemma_listing_entry(s2, 0);
        }
        assert(s1 =~= s2);
    } else if s2.len() == 0 {
        lemma_listing_entry(s1, 0);
    } else {
        let l1 = s1.len() - 1;
        let l2 = s2.len() - 1;
        let k1 = s1[l1].0;
        let k2 = s2[l2].0;
        lemma_listing_entry(s1, l1);
        lemma_listing_entry(s2, l2);
        // The last names agree: each is the largest name of the map.
        let j1 = listing_index(s2, k1);
        let j2 = listing_index(s1, k2);
        assert(listing_has(s2, k1));
        assert(listing_has(s1, k2));
        if k1 != k2 {
            assert(0 <= j1 <= l2 && s2[j1].0 == k1);
            assert(0 <= j2 <= l1 && s1[j2].0 == k2);
            if j1 == l2 {
                assert(false);
            }
            if j2 == l1 {
                assert(false);
            }
            assert(name_lt(s2[j1].0, s2[l2].0));
            assert(name_lt(s1[j2].0, s1[l1].0));
            lemma_bytes_lt_asymmetric(name_bytes(k1), name_bytes(k2));
        }
        assert(s1[l1] == s2[l2]);
        // The rest describe the same map without that name.
        let r1 = s1.drop_last();
        let r2 = s2.drop_last();
        assert(sorted_by_name(r1));
        assert(sorted_by_name(r2));
        assert forall|k: Seq<char>| #[trigger] listing_has(r1, k) <==> listing_has(r2, k) by {
            if listing_has(r1, k) {
                let a = listing_index(r1, k);
                assert(s1[a].0 == k);
                lemma_listing_entry(s1, a);
                let b = listing_index(s2, k);
                assert(listing_has(s2, k));
                if b == l2 {
                    lemma_listing_unique(s1, a, l1);
                }
                assert(r2[b].0 == k);
            }
            if listing_has(r2, k) {
                let b = listing_index(r2, k);
                assert(s2[b].0 == k);
                lemma_listing_entry(s2, b);
                let a = listing_index(s1, k);
                assert(listing_has(s1, k));
                if a == l1 {
                    lemma_listing_unique(s2, b, l2);
                }
                assert(r1[a].0 == k);
            }
        }
        assert forall|k: Seq<char>| #[trigger] listing_to_map(r1).contains_key(k) implies listing_to_map(
            r1,
        )[k] == listing_to_map(r2)[k] by {
            let a = listing_index(r1, k);
            let b = listing_index(r2, k);
            assert(listing_has(r2, k));
            lemma_listing_entry(r1, a);
            lemma_listing_entry(r2, b);
            lemma_listing_entry(s1, a);
            lemma_listing_entry(s2, b);
        }
        assert(listing_to_map(r1) =~= listing_to_map(r2));
        lemma_sorted_listing_determined(r1, r2);
        assert(s1 =~= r1.push(s1[l1]));
        assert(s2 =~= r2.push(s2[l2]));
    }
}

/// Rounding the quotient up covers the whole listing: `k` shards of
/// `tensors_per_shard(n, k)` tensors hold at least `n` tensors.
pub proof fn lemma_shards_cover(n: nat, k: nat)
    requires
        k > 0,
    ensures
        k * tensors_per_shard(n, k) >= n,
{
    let q = n / k;
    let r = n % k;
    assert(n == k * q + r && r < k) by (nonlinear_arith)
        requires
            k > 0,
            q == n / k,
            r == n % k,
    ;
    if r == 0 {
        assert(k * tensors_per_shard(n, k) == k * q);
    } else {
        assert(k * (q + 1) == k * q + k) by (nonlinear_arith);
        assert(k * tensors_per_shard(n, k) == k * (q + 1));
    }
}

/// The shards of a sharded save tile the tensor listing: shard 0 starts at
/// the first tensor, each shard ends where the next one starts, the last
/// ends after the last tensor, and no shard takes more than
/// `tensors_per_shard(n, k)` tensors. Every tensor is written to exactly
/// one shard, in listing order.
pub proof fn law_shards_tile_listing(n: nat, k: nat)
    requires
        k > 0,
    ensures
        shard_start(n, k, 0) == 0,
        forall|i: nat| i + 1 < k ==> #[trigger] shard_end(n, k, i) == shard_start(n, k, i + 1),
        shard_end(n, k, (k - 1) as nat) == n,
        forall|i: nat| shard_start(n, k, i) <= #[trigger] shard_end(n, k, i) <= n,
        forall|i: nat| #[trigger] shard_end(n, k, i) - shard_start(n, k, i) <= tensors_per_shard(n, k),
{
    let per = tensors_per_shard(n, k);
    assert(0 * per == 0) by (nonlinear_arith);
    assert forall|i: nat| i + 1 < k implies #[trigger] shard_end(n, k, i) == shard_start(n, k, i + 1) by {
        assert((i + 1) * per == i * per + per) by (nonlinear_arith);
    }
    lemma_shards_cover(n, k);
    assert(((k - 1) as nat) * per + per == k * per) by (nonlinear_arith)
        requires
            k > 0,
    ;
}

/// Recording the names of `s` under `v` adds exactly those names, maps
/// each of them to `v`, and leaves every other name as it was.
pub proof fn lemma_assign_all(m: Map<Seq<char>, Seq<char>>, s: Seq<(Seq<char>, TensorEntry)>, v: Seq<char>)
    ensures
        forall|x: Seq<char>| #[trigger] assign_all(m, s, v).contains_key(x) <==> (m.contains_key(x)
            || listing_has(s, x)),
        forall|x: Seq<char>| listing_has(s, x) ==> #[trigger] assign_all(m, s, v)[x] == v,
        forall|x: Seq<char>| !listing_has(s, x) && m.contains_key(x) ==> #[trigger] assign_all(m, s, v)[x]
            == m[x],
    decreases s.len(),
{
    if s.len() > 0 {
        let r = s.drop_last();
        lemma_assign_all(m, r, v);
        assert(assign_all(m, s, v) == assign_all(m, r, v).insert(s.last().0, v));
        assert forall|x: Seq<char>| #[trigger] listing_has(s, x) <==> (listing_has(r, x) || x == s.last().0) by {
            if listing_has(s, x) {
                let j = choose|j: int| 0 <= j < s.len() && s[j].0 == x;
                if j < r.len() {
                    assert(r[j].0 == x);
                }
            }
            if listing_has(r, x) {
                let j = choose|j: int| 0 <= j < r.len() && r[j].0 == x;
                assert(s[j].0 == x);
            }
            if x == s.last().0 {
                assert(s[s.len() - 1].0 == x);
            }
        }
    }
}

/// Every tensor lies in the shard its position divided by
/// `tensors_per_shard` names: position `j` of a listing of `n` tensors cut
/// into `k` shards lies in shard `j / tensors_per_shard(n, k)`, which is one
/// of the `k`.
pub proof fn lemma_position_shard(n: nat, k: nat, j: nat)
    requires
        k > 0,
        j < n,
    ensures
        tensors_per_shard(n, k) > 0,
        j / tensors_per_shard(n, k) < k,
        shard_start(n, k, j / tensors_per_shard(n, k)) <= j < shard_end(n, k, j / tensors_per_shard(n, k)),
{
    let per = tensors_per_shard(n, k);
    lemma_shards_cover(n, k);
    if per == 0 {
        assert(k * per == 0) by (nonlinear_arith)
            requires
                per == 0,
        ;
    }
    let q = j / per;
    let r = j % per;
    vstd::arithmetic::div_mod::lemma_fundamental_div_mod(j as int, per as int);
    assert(0 <= r < per) by {
        vstd::arithmetic::div_mod::lemma_mod_bound(j as int, per as int);
    }
    assert(q * per <= j < q * per + per);
    if q >= k {
        assert(q * per >= k * per) by (nonlinear_arith)
            requires
                q >= k,
                per > 0,
        ;
    }
}

/// After shards `0..i` are recorded, the index holds exactly the tensors
/// before shard `i`'s start, each mapped to its own shard's file.
pub proof fn lemma_index_after(es: Seq<(Seq<char>, TensorEntry)>, k: nat, prefix: Seq<char>, i: nat)
    requires
        sorted_by_name(es),
        k > 0,
        i <= k,
    ensures
        forall|x: Seq<char>| #[trigger] index_after(es, k, prefix, i).contains_key(x) <==> listing_has(
            es.take(shard_start(es.len(), k, i) as int),
            x,
        ),
        forall|j: int| 0 <= j < shard_start(es.len(), k, i) ==> #[trigger] index_after(es, k, prefix, i)[es[j].0]
            == shard_file_name_spec(prefix, (j / tensors_per_shard(es.len(), k) as int) as nat, k),
    decreases i,
{
    let n = es.len();
    let per = tensors_per_shard(n, k);
    if i == 0 {
        assert(0 * per == 0) by (nonlinear_arith);
        assert forall|x: Seq<char>| !listing_has(es.take(0), x) by {}
    } else {
        let s = (i - 1) as nat;
        lemma_index_after(es, k, prefix, s);
        law_shards_tile_listing(n, k);
        let a = shard_start(n, k, s);
        let b = shard_end(n, k, s);
        assert(b == shard_start(n, k, i)) by {
            assert(s * per + per == i * per) by (nonlinear_arith)
                requires
                    s + 1 == i,
            ;
        }
        let prev = index_after(es, k, prefix, s);
        let sub = es.subrange(a as int, b as int);
        let file = shard_file_name_spec(prefix, s, k);
        lemma_assign_all(prev, sub, file);
        assert(index_after(es, k, prefix, i) == assign_all(prev, sub, file));
        // Names of the shard, and names before it.
        assert forall|j: int| a <= j < b implies #[trigger] listing_has(sub, es[j].0) by {
            assert(sub[j - a] == es[j]);
        }
        assert forall|j: int| 0 <= j < a implies !#[trigger] listing_has(sub, es[j].0) by {
            if listing_has(sub, es[j].0) {
                let t = choose|t: int| 0 <= t < sub.len() && sub[t].0 == es[j].0;
                assert(sub[t] == es[a + t]);
                lemma_listing_unique(es, j, a + t);
            }
        }
        assert forall|x: Seq<char>| #[trigger] index_after(es, k, prefix, i).contains_key(x) <==> listing_has(
            es.take(b as int),
            x,
        ) by {
            if listing_has(es.take(b as int), x) {
                let j = choose|j: int| 0 <= j < b && es.take(b as int)[j].0 == x;
                if j < a {
                    assert(es.take(a as int)[j].0 == x);
                } else {
                    assert(listing_has(sub, es[j].0));
                }
            }
            if listing_has(es.take(a as int), x) {
                let j = choose|j: int| 0 <= j < a && es.take(a as int)[j].0 == x;
                assert(es.take(b as int)[j].0 == x);
            }
            if listing_has(sub, x) {
                let t = choose|t: int| 0 <= t < sub.len() && sub[t].0 == x;
                assert(es.take(b as int)[a + t].0 == x);
            }
        }
        assert forall|j: int| 0 <= j < b implies #[trigger] index_after(es, k, prefix, i)[es[j].0]
            == shard_file_name_spec(prefix, (j / per as int) as nat, k) by {
            if j < a {
                assert(!listing_has(sub, es[j].0));
                assert(es.take(a as int)[j].0 == es[j].0);
                assert(prev.contains_key(es[j].0));
            } else {
                assert(listing_has(sub, es[j].0));
                assert(a == s * per);
                assert(s * per <= j < s * per + per);
                vstd::arithmetic::div_mod::lemma_fundamental_div_mod_converse(j, per as int, s as int, j - s * per);
            }
        }
    }
}

/// The index of a sharded checkpoint maps every tensor, and nothing else,
/// to the file of the shard that holds it: once all `k` shards are
/// recorded, tensor `j` of the listing is mapped to the file of shard
/// `j / tensors_per_shard(n, k)`.
pub proof fn law_index_maps_each_tensor_to_its_shard(es: Seq<(Seq<char>, TensorEntry)>, k: nat, prefix: Seq<char>)
    requires
        sorted_by_name(es),
        k > 0,
    ensures
        forall|x: Seq<char>| #[trigger] index_after(es, k, prefix, k).contains_key(x) <==> listing_has(es, x),
        forall|j: int| 0 <= j < es.len() ==> #[trigger] index_after(es, k, prefix, k)[es[j].0]
            == shard_file_name_spec(prefix, (j / tensors_per_shard(es.len(), k) as int) as nat, k),
        forall|j: int| 0 <= j < es.len() ==> #[trigger] (j / tensors_per_shard(es.len(), k) as int) < k,
{
    let n = es.len();
    lemma_index_after(es, k, prefix, k);
    lemma_shards_cover(n, k);
    assert(shard_start(n, k, k) == n);
    assert(es.take(n as int) =~= es);
    assert forall|j: int| 0 <= j < es.len() implies #[trigger] (j / tensors_per_shard(es.len(), k) as int) < k by {
        lemma_position_shard(n, k, j as nat);
    }
}

/// Damage outside a tensor's span does not reach it: for two files of the
/// same length that agree on the span that checkpoint `c` records for
/// tensor `name`, reading that tensor succeeds on one exactly when it does
/// on the other, and gives the same bytes.
pub proof fn law_tensor_read_isolated(c: Checkpoint, b1: Seq<u8>, b2: Seq<u8>, name: Seq<char>)
    requires
        b1.len() == b2.len(),
        forall|i: int|
            file_span(c.data_start() as int, c.header_spec().tensors@[name]).0 <= i
                < file_span(c.data_start() as int, c.header_spec().tensors@[name]).1 && 0 <= i < b1.len()
                ==> b1[i] == b2[i],
    ensures
        tensor_readable(c, b1, name) == tensor_readable(c, b2, name),
        tensor_readable(c, b1, name) ==> ({
            let (start, end) = file_span(c.data_start() as int, c.header_spec().tensors@[name]);
            b1.subrange(start, end) == b2.subrange(start, end)
        }),
{
    let m = c.header_spec().tensors@[name];
    let (start, end) = file_span(c.data_start() as int, m);
    if 0 <= start <= end <= b1.len() {
        assert(b1.subrange(start, end) =~= b2.subrange(start, end));
    }
}

/// A changed byte inside a tensor's span is caught: when reading tensor
/// `name` of checkpoint `c` from `b1` succeeds and its CRC32 is recorded,
/// then in a file `b2` that differs from `b1` at one position of that span
/// and nowhere else, the read fails with a `Checksum` error for `name`.
pub proof fn law_flipped_byte_detected(c: Checkpoint, b1: Seq<u8>, b2: Seq<u8>, name: Seq<char>, pos: int)
    requires
        tensor_readable(c, b1, name),
        c.header_spec().tensors@[name].checksum is Some,
        b1.len() == b2.len(),
        file_span(c.data_start() as int, c.header_spec().tensors@[name]).0 <= pos
            < file_span(c.data_start() as int, c.header_spec().tensors@[name]).1,
        b1[pos] != b2[pos],
        forall|i: int| 0 <= i < b1.len() && i != pos ==> b1[i] == b2[i],
    ensures
        !tensor_readable(c, b2, name),
        forall|e: Error| #[trigger] tensor_read_error(c, b2, name, e) ==> (e matches Error::Checksum {
            tensor_name,
            ..
        } && tensor_name@ == name),
{
    let m = c.header_spec().tensors@[name];
    let (start, end) = file_span(c.data_start() as int, m);
    let s1 = b1.subrange(start, end);
    let s2 = b2.subrange(start, end);
    assert forall|i: int| 0 <= i < s1.len() && i != pos - start implies s1[i] == s2[i] by {
        assert(s1[i] == b1[start + i]);
        assert(s2[i] == b2[start + i]);
    }
    lemma_crc32_detects_one_byte(s1, s2, pos - start);
}

/// A position of a data block of `n` entries lies in the span of one of them.
pub proof fn lemma_position_in_some_entry(es: Seq<(Seq<char>, TensorEntry)>, n: int, q: int)
    requires
        0 <= n <= es.len(),
        0 <= q < prefix_len(es, n),
    ensures
        exists|i: int| 0 <= i < n && prefix_len(es, i) <= q < #[trigger] prefix_len(es, i + 1),
    decreases n,
{
    if q >= prefix_len(es, n - 1) {
        assert(prefix_len(es, (n - 1) + 1) == prefix_len(es, n));
    } else {
        lemma_position_in_some_entry(es, n - 1, q);
    }
}

/// Every changed byte of the data block of a written checkpoint is caught:
/// take the file a writer laid out for its tensors (as in
/// [`law_read_back_written_tensor`]), opened as `c` with the header `h` it
/// planned, and a file `b2` that differs from it at one position `pos` of
/// the data block and nowhere else. Then some tensor of the checkpoint can
/// no longer be read from `b2`, and reading it fails with a `Checksum`
/// error for it.
pub proof fn law_written_file_flip_detected(
    w: Writer,
    h: CheckpointHeader,
    json: Seq<u8>,
    c: Checkpoint,
    b2: Seq<u8>,
    pos: int,
)
    requires
        w.wf(),
        forall|i: int| 0 <= i < w.tensor_entries().len() ==> entry_fits(w.tensor_entries(), i),
        planned_header(w.tensor_entries(), w.metadata_entries(), h),
        json.len() <= MAX_HEADER_LEN,
        blake3_of(le_bytes(json.len() as u64) + json).len() == 32,
        8 + json.len() + 32 + prefix_len(w.tensor_entries(), w.tensor_entries().len() as int)
            <= usize::MAX,
        c.header_spec() == h,
        c.data_start() == 8 + json.len() + 32,
        c.recorded_size() == (header_frame(json) + data_block(w.tensor_entries(), w.tensor_entries().len() as int)).len(),
        b2.len() == (header_frame(json) + data_block(w.tensor_entries(), w.tensor_entries().len() as int)).len(),
        8 + json.len() + 32 <= pos < b2.len(),
        b2[pos] != (header_frame(json) + data_block(w.tensor_entries(), w.tensor_entries().len() as int))[pos],
        forall|i: int| 0 <= i < b2.len() && i != pos ==> b2[i] == (header_frame(json) + data_block(
            w.tensor_entries(),
            w.tensor_entries().len() as int,
        ))[i],
    ensures
        exists|name: Seq<char>| {
            &&& h.tensors@.contains_key(name)
            &&& !tensor_readable(c, b2, name)
            &&& forall|e: Error| #[trigger] tensor_read_error(c, b2, name, e) ==> (e matches Error::Checksum {
                tensor_name,
                ..
            } && tensor_name@ == name)
        },
{
    let es = w.tensor_entries();
    let n = es.len() as int;
    let b1 = header_frame(json) + data_block(es, n);
    let d = (8 + json.len() + 32) as int;
    lemma_frame_intact(json, data_block(es, n));
    lemma_data_block_len(es, n);
    lemma_position_in_some_entry(es, n, pos - d);
    let i = choose|i: int| 0 <= i < n && prefix_len(es, i) <= pos - d < #[trigger] prefix_len(es, i + 1);
    lemma_read_back_listing(es, w.metadata_entries(), h, json, i);
    let name = es[i].0;
    let m = h.tensors@[name];
    assert(m == h.tensors.entries()[i].1);
    assert(planned_metadata(es, i, m));
    assert(tensor_readable(c, b1, name));
    law_flipped_byte_detected(c, b1, b2, name, pos);
}

/// A tensor that records no checksum is read without one: when its
/// metadata is valid and its span lies within the file (by the recorded
/// size and by the bytes at hand), reading it succeeds, and what is read is
/// exactly the bytes of its span, whatever they are.
pub proof fn law_tensor_without_checksum_reads_its_span(c: Checkpoint, bytes: Seq<u8>, name: Seq<char>)
    requires
        c.header_spec().tensors@.contains_key(name),
        c.header_spec().tensors@[name].checksum is None,
        c.header_spec().tensors@[name].is_valid(),
        c.data_start() + c.header_spec().tensors@[name].end() <= c.recorded_size(),
        c.data_start() + c.header_spec().tensors@[name].end() <= bytes.len(),
    ensures
        tensor_readable(c, bytes, name),
        forall|t: Tensor| #[trigger] tensor_read_result(c, bytes, name, t) ==> t.data@ == bytes.subrange(
            c.data_start() + c.header_spec().tensors@[name].start(),
            c.data_start() + c.header_spec().tensors@[name].end(),
        ),
{
}

/// The element count of a shape is the product of all its dimensions: the
/// empty shape has one element, and appending a dimension `d` multiplies
/// the count by `d` whenever the product fits in a `usize` (and the count
/// is known only then).
pub proof fn law_element_count_multiplies(s: Seq<usize>, d: usize)
    ensures
        checked_product(Seq::<usize>::empty()) == Some(1nat),
        match checked_product(s) {
            Some(p) => p * d <= usize::MAX ==> checked_product(s.push(d)) == Some((p * d) as nat),
            None => checked_product(s.push(d)) is None,
        },
        checked_product(s.push(d)) matches Some(q) ==> (checked_product(s) matches Some(p) && q == p * d),
{
    assert(s.push(d).drop_last() =~= s);
}

/// The byte length of a tensor is its element count times the width of its
/// data type, known exactly when that product fits in a `usize`.
pub proof fn law_byte_len_is_count_times_width(dtype: DType, s: Seq<usize>)
    ensures
        expected_byte_len(dtype, s) matches Some(n) ==> (checked_product(s) matches Some(p) && n == p
            * dtype.width()),
        match checked_product(s) {
            Some(p) => p * dtype.width() <= usize::MAX ==> expected_byte_len(dtype, s) == Some(p * dtype.width()),
            None => expected_byte_len(dtype, s) is None,
        },
{
}

/// Adding tensors in a batch: a name of the batch ends up with the value of
/// its last occurrence in the batch, whether or not it was held before; a
/// name outside the batch keeps what it had (or stays absent).
pub proof fn law_batch_last_occurrence_wins<V>(m: Map<Seq<char>, V>, s: Seq<(String, V)>, k: Seq<char>)
    ensures
        (exists|i: int| 0 <= i < s.len() && #[trigger] s[i].0@ == k) ==> insert_all(m, s).contains_key(k)
            && exists|i: int|
            0 <= i < s.len() && #[trigger] s[i].0@ == k && (forall|j: int| i < j < s.len() ==> s[j].0@ != k)
                && insert_all(m, s)[k] == s[i].1,
        (forall|i: int| 0 <= i < s.len() ==> #[trigger] s[i].0@ != k) ==> (insert_all(m, s).contains_key(k)
            == m.contains_key(k) && (m.contains_key(k) ==> insert_all(m, s)[k] == m[k])),
    decreases s.len(),
{
    if s.len() > 0 {
        let r = s.drop_last();
        law_batch_last_occurrence_wins(m, r, k);
        let l = s.len() - 1;
        if s[l].0@ == k {
            assert(s[l].0@ == k);
        } else {
            if exists|i: int| 0 <= i < s.len() && #[trigger] s[i].0@ == k {
                let i0 = choose|i: int| 0 <= i < s.len() && #[trigger] s[i].0@ == k;
                assert(r[i0].0@ == k);
                let i1 = choose|i: int|
                    0 <= i < r.len() && #[trigger] r[i].0@ == k && (forall|j: int| i < j < r.len() ==> r[j].0@ != k)
                        && insert_all(m, r)[k] == r[i].1;
                assert(s[i1].0@ == k);
                assert forall|j: int| i1 < j < s.len() implies s[j].0@ != k by {
                    if j < l {
                        assert(r[j] == s[j]);
                    }
                }
            }
            if forall|i: int| 0 <= i < s.len() ==> #[trigger] s[i].0@ != k {
                assert forall|i: int| 0 <= i < r.len() implies #[trigger] r[i].0@ != k by {
                    assert(s[i] == r[i]);
                }
            }
        }
    }
}

/// A path is refused for `..` only if it holds two consecutive dots: a path
/// without them, such as `./checkpoints` or `sub/model.safetensors`, has no
/// parent-directory component.
pub proof fn law_paths_without_two_dots_pass(b: Seq<u8>)
    requires
        forall|i: int| 0 <= i && i + 1 < b.len() ==> !(b[i] == 46 && #[trigger] b[i + 1] == 46),
    ensures
        !has_parent_component(b),
{
    if has_parent_component(b) {
        let i = choose|i: int| parent_component_at(b, i);
        assert(b[i + 1] == 46);
    }
}

/// A `..` component is refused wherever it stands: alone or first in the
/// path, or after a separator, and followed by the end of the path or by a
/// separator.
pub proof fn law_parent_component_is_refused(a: Seq<u8>, c: Seq<u8>)
    requires
        c.len() == 0 || c[0] == 47,
    ensures
        has_parent_component(seq![46u8, 46u8] + c),
        has_parent_component(a + seq![47u8, 46u8, 46u8] + c),
{
    let p = seq![46u8, 46u8] + c;
    assert(parent_component_at(p, 0));
    let q = a + seq![47u8, 46u8, 46u8] + c;
    assert(q[a.len() as int] == 47);
    assert(q[a.len() as int + 1] == 46);
    assert(q[a.len() as int + 2] == 46);
    if c.len() > 0 {
        assert(q[a.len() as int + 3] == c[0]);
    }
    assert(parent_component_at(q, a.len() as int + 1));
}

/// A path is refused for `..` only where a component is exactly the two
/// bytes `..`: bounded by the start of the path or a separator before, and
/// by the end of the path or a separator after.
pub proof fn law_refused_paths_hold_a_dot_dot_component(b: Seq<u8>)
    requires
        has_parent_component(b),
    ensures
        exists|i: int|
            0 <= i && i + 2 <= b.len() && #[trigger] b.subrange(i, i + 2) == seq![46u8, 46u8] && (i == 0
                || b[i - 1] == 47) && (i + 2 == b.len() || b[i + 2] == 47),
{
    let i = choose|i: int| parent_component_at(b, i);
    assert(b.subrange(i, i + 2) =~= seq![46u8, 46u8]);
}

} // verus!
