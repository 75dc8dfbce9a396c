//! The 64-bit FNV-1a hash that turns topic paths into topic identifiers.

use vstd::prelude::*;
use vstd::string::StringSliceAdditionalSpecFns;

verus! {

/// FNV prime for 64-bit hashes.
pub const FNV_PRIME: u64 = 1099511628211;

/// FNV offset basis for 64-bit hashes.
pub const FNV_OFFSET: u64 = 14695981039346656037;

/// FNV-1a hash of `bytes`: starting from the offset basis, each byte is
/// XORed into the hash, which is then multiplied by the prime modulo 2^64.
pub open spec fn fnv1a(bytes: Seq<u8>) -> u64
    decreases bytes.len(),
{
    if bytes.len() == 0 {
        FNV_OFFSET
    } else {
        vstd::wrapping::u64_specs::wrapping_mul(
            fnv1a(bytes.drop_last()) ^ (bytes.last() as u64),
            FNV_PRIME,
        )
    }
}

/// Hashes the UTF-8 bytes of `string` into a topic identifier.
pub fn custom_string_hash(string: &str) -> (r: u64)
    ensures
        r == fnv1a(string.spec_bytes()),
{
    let bytes = string.as_bytes();
    let mut hash = FNV_OFFSET;
    let mut i: usize = 0;
    while i < bytes.len()
        invariant
            i <= bytes@.len(),
            hash == fnv1a(bytes@.subrange(0, i as int)),
        decreases bytes.len() - i,
    {
        hash ^= bytes[i] as u64;
        hash = hash.wrapping_mul(FNV_PRIME);
        assert(bytes@.subrange(0, i + 1).drop_last() =~= bytes@.subrange(0, i as int));
        i = i + 1;
    }
    assert(bytes@.subrange(0, bytes@.len() as int) =~= bytes@);
    hash
}

} // verus!
