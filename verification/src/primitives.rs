//! Byte-level primitives: SCALE encoding, BLAKE2 hashing and UTF-8 validation.

use vstd::prelude::*;
use parity_scale_codec::Encode;

verus! {

/// The 32-byte BLAKE2b-256 digest of a byte string.
pub uninterp spec fn blake2_256_digest(data: Seq<u8>) -> Seq<u8>;

/// Calls `sp_io::hashing::blake2_256`, which hashes with BLAKE2b to 32 bytes. Its result
/// is the named digest of exactly the bytes handed in.
#[verifier::external_body]
pub(crate) fn blake2_256(data: &[u8]) -> (r: [u8; 32])
    ensures
        r@ == blake2_256_digest(data@),
{
    sp_io::hashing::blake2_256(data)
}

/// The four little-endian bytes of `n`: how SCALE encodes a `u32`.
pub open spec fn u32_le_bytes(n: u32) -> Seq<u8> {
    seq![
        (n % 256) as u8,
        ((n / 256) % 256) as u8,
        ((n / 65536) % 256) as u8,
        ((n / 16777216) % 256) as u8,
    ]
}

/// Calls `<u32 as parity_scale_codec::Encode>::encode`, which writes `n.to_le_bytes()`.
#[verifier::external_body]
pub(crate) fn scale_encode_u32(n: u32) -> (r: Vec<u8>)
    ensures
        r@ == u32_le_bytes(n),
{
    n.encode()
}

/// Calls `<([u8; 32], u32) as parity_scale_codec::Encode>::encode`: SCALE writes the
/// fields of a tuple one after the other, a fixed-size byte array as its raw bytes and
/// a `u32` as its little-endian bytes.
#[verifier::external_body]
pub(crate) fn scale_encode_hash_and_u32(hash: &[u8; 32], n: u32) -> (r: Vec<u8>)
    ensures
        r@ == hash@ + u32_le_bytes(n),
{
    (*hash, n).encode()
}

/// Calls `core::str::from_utf8` and reports whether it accepted the bytes, that is,
/// whether they are well-formed UTF-8.
#[verifier::external_body]
pub(crate) fn is_utf8(bytes: &[u8]) -> (r: bool)
    ensures
        r == vstd::utf8::valid_utf8(bytes@),
{
    core::str::from_utf8(bytes).is_ok()
}

} // verus!

verus! {

/// A copy of a byte vector.
pub fn clone_bytes(v: &Vec<u8>) -> (r: Vec<u8>)
    ensures
        r@ == v@,
{
    let r = v.clone();
    assert(r@ =~= v@);
    r
}

/// Appends the bytes of `src` to `dst`.
pub fn append_bytes(dst: &mut Vec<u8>, src: &Vec<u8>)
    ensures
        final(dst)@ == old(dst)@ + src@,
{
    let ghost start = dst@;
    let mut i: usize = 0;
    while i < src.len()
        invariant
            i <= src.len(),
            dst@ == start + src@.take(i as int),
        decreases src.len() - i,
    {
        dst.push(src[i]);
        i = i + 1;
        assert(dst@ =~= start + src@.take(i as int));
    }
    assert(src@.take(src.len() as int) =~= src@);
}

/// Whether two 32-byte identifiers are equal.
pub fn same_identifier(a: &[u8; 32], b: &[u8; 32]) -> (r: bool)
    ensures
        r == (a@ == b@),
{
    let mut i: usize = 0;
    while i < 32
        invariant
            i <= 32,
            a@.len() == 32,
            b@.len() == 32,
            forall|j: int| 0 <= j < i ==> a@[j] == b@[j],
        decreases 32 - i,
    {
        if a[i] != b[i] {
            return false;
        }
        i = i + 1;
    }
    assert(a@ =~= b@);
    true
}

} // verus!
