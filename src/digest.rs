//! Content fingerprints: BLAKE-256 of the bytes, cut to its first 128 bits
//! read big-endian.
use vstd::prelude::*;

verus! {

/// The 32-byte BLAKE-256 digest of `data`.
pub uninterp spec fn blake256_of(data: Seq<u8>) -> Seq<u8>;

/// Relies on `blake_hash::Blake256` through `digest::Digest::digest`: the
/// BLAKE-256 digest of `data`, whose output type holds 32 bytes.
#[verifier::external_body]
fn blake256(data: &[u8]) -> (r: Vec<u8>)
    ensures
        r@ == blake256_of(data@),
        r@.len() == 32,
{
    <blake_hash::Blake256 as blake_hash::Digest>::digest(data).to_vec()
}

/// The unsigned integer that `s` holds big-endian.
pub open spec fn be_value(s: Seq<u8>) -> nat
    decreases s.len(),
{
    if s.len() == 0 {
        0
    } else {
        be_value(s.drop_last()) * 256 + s.last() as nat
    }
}

/// The fingerprint of `data`: the first 16 bytes of its digest, big-endian.
pub open spec fn spec_digest(data: Seq<u8>) -> u128 {
    be_value(blake256_of(data).subrange(0, 16)) as u128
}

/// `256` to the power `n`.
pub open spec fn pow256(n: nat) -> nat
    decreases n,
{
    if n == 0 {
        1
    } else {
        256 * pow256((n - 1) as nat)
    }
}

proof fn lemma_be_value_bound(s: Seq<u8>)
    ensures
        be_value(s) < pow256(s.len()),
    decreases s.len(),
{
    if s.len() > 0 {
        lemma_be_value_bound(s.drop_last());
        let a = be_value(s.drop_last());
        let q = pow256((s.len() - 1) as nat);
        assert(a * 256 + s.last() < q * 256) by (nonlinear_arith)
            requires a < q, s.last() < 256;
    }
}

proof fn lemma_pow256_le_15(n: nat)
    requires
        n <= 15,
    ensures
        pow256(n) <= 0x1000000000000000000000000000000,
    decreases 15 - n,
{
    if n < 15 {
        lemma_pow256_le_15(n + 1);
        assert(pow256(n + 1) == 256 * pow256(n));
    } else {
        assert(pow256(1) == 256) by {
            reveal_with_fuel(pow256, 2);
        }
        assert(pow256(3) == 0x100_0000) by {
            reveal_with_fuel(pow256, 3);
        }
        assert(pow256(6) == 0x1_0000_0000_0000) by {
            reveal_with_fuel(pow256, 4);
        }
        assert(pow256(9) == 0x1000000000000000000) by {
            reveal_with_fuel(pow256, 4);
        }
        assert(pow256(12) == 0x1000000000000000000000000) by {
            reveal_with_fuel(pow256, 4);
        }
        assert(pow256(15) == 0x1000000000000000000000000000000) by {
            reveal_with_fuel(pow256, 4);
        }
    }
}

/// The first 16 bytes of `hash` read as a big-endian integer.
pub fn truncate_digest(hash: &[u8]) -> (r: u128)
    requires
        hash@.len() >= 16,
    ensures
        r as nat == be_value(hash@.subrange(0, 16)),
{
    let mut r: u128 = 0;
    let mut i: usize = 0;
    while i < 16
        invariant
            i <= 16,
            hash@.len() >= 16,
            r as nat == be_value(hash@.subrange(0, i as int)),
        decreases 16 - i,
    {
        proof {
            lemma_be_value_bound(hash@.subrange(0, i as int));
            lemma_pow256_le_15(i as nat);
            assert(hash@.subrange(0, i + 1).drop_last() =~= hash@.subrange(0, i as int));
        }
        r = r * 256 + hash[i] as u128;
        i = i + 1;
    }
    r
}

/// The fingerprint of `data`, as embedded in and checked against a header.
pub fn get_file_hash(data: &[u8]) -> (r: u128)
    ensures
        r == spec_digest(data@),
{
    let hash = blake256(data);
    truncate_digest(hash.as_slice())
}

} // verus!
