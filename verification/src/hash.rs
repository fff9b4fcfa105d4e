//! Dependency-free, deterministic string hashing.

use vstd::prelude::*;
use vstd::string::StringSliceAdditionalSpecFns;

verus! {

/// FNV-1a offset basis for 32-bit hashes.
pub const FNV_OFFSET_BASIS: u32 = 2_166_136_261;

/// FNV-1a prime for 32-bit hashes.
pub const FNV_PRIME: u32 = 16_777_619;

/// FNV-1a over a byte sequence: start from the offset basis; for each byte,
/// xor it in, then multiply by the prime modulo 2^32.
pub open spec fn fnv1a(bytes: Seq<u8>) -> u32
    decreases bytes.len(),
{
    if bytes.len() == 0 {
        FNV_OFFSET_BASIS
    } else {
        (fnv1a(bytes.drop_last()) ^ (bytes.last() as u32)).wrapping_mul(FNV_PRIME)
    }
}

/// FNV-1a 32-bit hash of the UTF-8 bytes of `s`: deterministic across runs
/// and platforms.
pub fn fnv1a_32(s: &str) -> (h: u32)
    ensures
        h == fnv1a(s.spec_bytes()),
{
    let bytes = s.as_bytes();
    let mut h: u32 = FNV_OFFSET_BASIS;
    let mut i: usize = 0;
    while i < bytes.len()
        invariant
            i <= bytes.len(),
            bytes@ == s.spec_bytes(),
            h == fnv1a(bytes@.take(i as int)),
        decreases bytes.len() - i,
    {
        assert(bytes@.take(i + 1).drop_last() =~= bytes@.take(i as int));
        h = h ^ (bytes[i] as u32);
        h = h.wrapping_mul(FNV_PRIME);
        i = i + 1;
    }
    assert(bytes@.take(i as int) =~= bytes@);
    h
}

/// The empty string hashes to the offset basis.
pub proof fn lemma_fnv1a_empty()
    ensures
        fnv1a(Seq::empty()) == FNV_OFFSET_BASIS,
{
}

} // verus!
