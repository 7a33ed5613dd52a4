//! The checksums a checkpoint carries: CRC32 over each tensor's bytes and
//! BLAKE3 over the header frame. Both are computed by their crates.
use vstd::prelude::*;

verus! {

/// One bit step of the reflected CRC-32 (IEEE) register: shift right,
/// folding in the polynomial `0xEDB88320` when the bit shifted out is set.
pub open spec fn crc32_bit(r: u32) -> u32 {
    if r & 1 == 1 {
        (r >> 1) ^ 0xEDB88320u32
    } else {
        r >> 1
    }
}

/// The register after feeding it the byte `b`: eight bit steps of the
/// register with `b` folded into its low byte.
pub open spec fn crc32_byte(r: u32, b: u8) -> u32 {
    let x = r ^ (b as u32);
    crc32_bit(crc32_bit(crc32_bit(crc32_bit(crc32_bit(crc32_bit(crc32_bit(crc32_bit(x))))))))
}

/// The register after feeding it `data`, starting from all ones.
pub open spec fn crc32_register(data: Seq<u8>) -> u32
    decreases data.len(),
{
    if data.len() == 0 {
        0xFFFFFFFFu32
    } else {
        crc32_byte(crc32_register(data.drop_last()), data.last())
    }
}

/// The CRC-32 (IEEE) checksum of `data`: the final register, inverted.
pub open spec fn crc32_of(data: Seq<u8>) -> u32 {
    crc32_register(data) ^ 0xFFFFFFFFu32
}

/// Distinct registers stay distinct through a bit step.
proof fn lemma_crc32_bit_injective(x: u32, y: u32)
    by (bit_vector)
    requires
        x != y,
    ensures
        crc32_bit(x) != crc32_bit(y),
{
}

/// Feeding two registers bytes that leave them different keeps them different.
pub proof fn lemma_crc32_byte_injective(r1: u32, b1: u8, r2: u32, b2: u8)
    requires
        r1 ^ (b1 as u32) != r2 ^ (b2 as u32),
    ensures
        crc32_byte(r1, b1) != crc32_byte(r2, b2),
{
    let x0 = r1 ^ (b1 as u32);
    let y0 = r2 ^ (b2 as u32);
    lemma_crc32_bit_injective(x0, y0);
    let (x1, y1) = (crc32_bit(x0), crc32_bit(y0));
    lemma_crc32_bit_injective(x1, y1);
    let (x2, y2) = (crc32_bit(x1), crc32_bit(y1));
    lemma_crc32_bit_injective(x2, y2);
    let (x3, y3) = (crc32_bit(x2), crc32_bit(y2));
    lemma_crc32_bit_injective(x3, y3);
    let (x4, y4) = (crc32_bit(x3), crc32_bit(y3));
    lemma_crc32_bit_injective(x4, y4);
    let (x5, y5) = (crc32_bit(x4), crc32_bit(y4));
    lemma_crc32_bit_injective(x5, y5);
    let (x6, y6) = (crc32_bit(x5), crc32_bit(y5));
    lemma_crc32_bit_injective(x6, y6);
    let (x7, y7) = (crc32_bit(x6), crc32_bit(y6));
    lemma_crc32_bit_injective(x7, y7);
}

/// A change to one byte changes the CRC-32: two byte strings of the same
/// length that differ at position `p` and nowhere else have different
/// checksums.
pub proof fn lemma_crc32_detects_one_byte(a: Seq<u8>, b: Seq<u8>, p: int)
    requires
        a.len() == b.len(),
        0 <= p < a.len(),
        a[p] != b[p],
        forall|i: int| 0 <= i < a.len() && i != p ==> a[i] == b[i],
    ensures
        crc32_of(a) != crc32_of(b),
{
    lemma_crc32_register_differs(a, b, p);
    let ra = crc32_register(a);
    let rb = crc32_register(b);
    assert(ra != rb ==> ra ^ 0xFFFFFFFFu32 != rb ^ 0xFFFFFFFFu32) by (bit_vector);
}

/// The registers of two byte strings that differ at exactly one position differ.
proof fn lemma_crc32_register_differs(a: Seq<u8>, b: Seq<u8>, p: int)
    requires
        a.len() == b.len(),
        0 <= p < a.len(),
        a[p] != b[p],
        forall|i: int| 0 <= i < a.len() && i != p ==> a[i] == b[i],
    ensures
        crc32_register(a) != crc32_register(b),
    decreases a.len(),
{
    let n = a.len() - 1;
    let ra = crc32_register(a.drop_last());
    let rb = crc32_register(b.drop_last());
    if p == n {
        assert(a.drop_last() =~= b.drop_last());
        let ca = a.last();
        let cb = b.last();
        assert(ca != cb ==> ra ^ (ca as u32) != ra ^ (cb as u32)) by (bit_vector);
        lemma_crc32_byte_injective(ra, ca, rb, cb);
    } else {
        lemma_crc32_register_differs(a.drop_last(), b.drop_last(), p);
        let c = a.last();
        assert(b.last() == c);
        assert(ra != rb ==> ra ^ (c as u32) != rb ^ (c as u32)) by (bit_vector);
        lemma_crc32_byte_injective(ra, c, rb, c);
    }
}

/// The 32-byte BLAKE3 digest of `data`, as `blake3::hash` computes it.
pub uninterp spec fn blake3_of(data: Seq<u8>) -> Seq<u8>;

/// Calls `crc32fast::hash`. Trusted: the result is the CRC-32 (IEEE) checksum
/// of exactly the bytes given, as [`crc32_of`] defines it: the reflected
/// polynomial `0xEDB88320`, a register starting from all ones, and the
/// final register inverted (crc32fast's table and its `!` on entry and exit).
#[verifier::external_body]
pub(crate) fn crc32(data: &[u8]) -> (r: u32)
    ensures
        r == crc32_of(data@),
{
    crc32fast::hash(data)
}

/// Calls `blake3::hash` and returns the digest's 32 bytes. Trusted: the
/// result is the BLAKE3 digest of exactly the bytes given, a function of
/// those bytes alone (named `blake3_of`); hashing a concatenation equals
/// feeding its parts to one `blake3::Hasher`, as the crate documents.
#[verifier::external_body]
pub(crate) fn blake3_digest(data: &[u8]) -> (r: [u8; 32])
    ensures
        r@ == blake3_of(data@),
{
    *blake3::hash(data).as_bytes()
}

} // verus!
