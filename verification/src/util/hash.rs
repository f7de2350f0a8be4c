//! Deterministic hashing (cache-file naming).

use vstd::prelude::*;

verus! {

/// The FNV-1a offset basis.
pub const OFFSET_BASIS: u64 = 0xcbf29ce484222325;

/// The FNV-1a prime.
pub const PRIME: u64 = 0x100000001b3;

/// FNV-1a of `bytes`: from the offset basis, each byte is xored in and the
/// result multiplied by the prime, modulo 2^64.
pub open spec fn fnv1a(bytes: Seq<u8>) -> u64
    decreases bytes.len(),
{
    if bytes.len() == 0 {
        OFFSET_BASIS
    } else {
        (((fnv1a(bytes.drop_last()) ^ (bytes.last() as u64)) * PRIME) % 0x1_0000_0000_0000_0000) as u64
    }
}

/// FNV-1a 64-bit: stable across processes and releases.
pub fn fnv1a64(bytes: &[u8]) -> (r: u64)
    ensures
        r == fnv1a(bytes@),
{
    let mut hash: u64 = OFFSET_BASIS;
    let mut i: usize = 0;
    while i < bytes.len()
        invariant
            i <= bytes.len(),
            hash == fnv1a(bytes@.take(i as int)),
        decreases bytes.len() - i,
    {
        assert(bytes@.take(i + 1).drop_last() == bytes@.take(i as int));
        hash = (hash ^ (bytes[i] as u64)).wrapping_mul(PRIME);
        i = i + 1;
    }
    assert(bytes@.take(bytes@.len() as int) == bytes@);
    hash
}

} // verus!
