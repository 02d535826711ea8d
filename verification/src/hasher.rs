//! Hash strategies: how a logical key becomes the key that the raw store sees.

use vstd::prelude::*;
use vstd::slice::slice_to_vec;

verus! {

/// The 64-bit XX digest of `data`, as `sp_io::hashing::twox_64` computes it.
pub uninterp spec fn twox_64_digest(data: Seq<u8>) -> [u8; 8];

/// The 128-bit XX digest of `data`, as `sp_io::hashing::twox_128` computes it.
pub uninterp spec fn twox_128_digest(data: Seq<u8>) -> [u8; 16];

/// The 256-bit XX digest of `data`, as `sp_io::hashing::twox_256` computes it.
pub uninterp spec fn twox_256_digest(data: Seq<u8>) -> [u8; 32];

/// The 128-bit Blake2 digest of `data`, as `sp_io::hashing::blake2_128`
/// computes it.
pub uninterp spec fn blake2_128_digest(data: Seq<u8>) -> [u8; 16];

/// The 256-bit Blake2 digest of `data`, as `sp_io::hashing::blake2_256`
/// computes it.
pub uninterp spec fn blake2_256_digest(data: Seq<u8>) -> [u8; 32];

/// `sp_io::hashing::twox_64`: a function of the bytes alone (one XX hash
/// with seed 0, written little-endian). The contract only names the result.
#[verifier::external_body]
fn twox_64(data: &[u8]) -> (r: [u8; 8])
    ensures
        r == twox_64_digest(data@),
{
    sp_io::hashing::twox_64(data)
}

/// `sp_io::hashing::twox_128`: a function of the bytes alone (two XX hashes
/// with seeds 0 and 1). The contract only names the result.
#[verifier::external_body]
fn twox_128(data: &[u8]) -> (r: [u8; 16])
    ensures
        r == twox_128_digest(data@),
{
    sp_io::hashing::twox_128(data)
}

/// `sp_io::hashing::twox_256`: a function of the bytes alone (four XX hashes
/// with seeds 0 to 3). The contract only names the result.
#[verifier::external_body]
fn twox_256(data: &[u8]) -> (r: [u8; 32])
    ensures
        r == twox_256_digest(data@),
{
    sp_io::hashing::twox_256(data)
}

/// `sp_io::hashing::blake2_128`: a function of the bytes alone. The contract
/// only names the result.
#[verifier::external_body]
fn blake2_128(data: &[u8]) -> (r: [u8; 16])
    ensures
        r == blake2_128_digest(data@),
{
    sp_io::hashing::blake2_128(data)
}

/// `sp_io::hashing::blake2_256`: a function of the bytes alone. The contract
/// only names the result.
#[verifier::external_body]
fn blake2_256(data: &[u8]) -> (r: [u8; 32])
    ensures
        r == blake2_256_digest(data@),
{
    sp_io::hashing::blake2_256(data)
}

/// A hash strategy: a total, deterministic function from logical keys to
/// hashed keys.
pub trait StorageHasher {
    /// The hashed key of the logical key `x`.
    spec fn spec_hash(x: Seq<u8>) -> Seq<u8>;

    /// Computes the hashed key of `x`.
    fn hash(x: &[u8]) -> (r: Vec<u8>)
        ensures
            r@ == Self::spec_hash(x@),
    ;
}

/// Puts the eight bytes of a short digest in front of the key they were
/// computed from. The key stays whole and at the tail.
pub fn digest_then_key(digest: &[u8; 8], key: &[u8]) -> (r: Vec<u8>)
    ensures
        r@ == digest@ + key@,
{
    let mut r = slice_to_vec(digest.as_slice());
    r.extend_from_slice(key);
    r
}

/// Hashed key = the 64-bit XX digest of the key, then the key itself.
pub struct Twox64Concat;

/// Hashed key = the 128-bit Blake2 digest of the key.
pub struct Blake2_128;

/// Hashed key = the 256-bit Blake2 digest of the key.
pub struct Blake2_256;

/// Hashed key = the 128-bit XX digest of the key.
pub struct Twox128;

/// Hashed key = the 256-bit XX digest of the key.
pub struct Twox256;

impl StorageHasher for Twox64Concat {
    open spec fn spec_hash(x: Seq<u8>) -> Seq<u8> {
        twox_64_digest(x)@ + x
    }

    fn hash(x: &[u8]) -> (r: Vec<u8>)
        ensures
            r@.len() == 8 + x@.len(),
            r@.take(8) == twox_64_digest(x@)@,
            r@.skip(8) == x@,
    {
        let digest = twox_64(x);
        proof {
            lemma_concat_layout(x@);
        }
        digest_then_key(&digest, x)
    }
}

impl StorageHasher for Blake2_128 {
    open spec fn spec_hash(x: Seq<u8>) -> Seq<u8> {
        blake2_128_digest(x)@
    }

    fn hash(x: &[u8]) -> (r: Vec<u8>)
        ensures
            r@.len() == 16,
    {
        let digest = blake2_128(x);
        slice_to_vec(digest.as_slice())
    }
}

impl StorageHasher for Blake2_256 {
    open spec fn spec_hash(x: Seq<u8>) -> Seq<u8> {
        blake2_256_digest(x)@
    }

    fn hash(x: &[u8]) -> (r: Vec<u8>)
        ensures
            r@.len() == 32,
    {
        let digest = blake2_256(x);
        slice_to_vec(digest.as_slice())
    }
}

impl StorageHasher for Twox128 {
    open spec fn spec_hash(x: Seq<u8>) -> Seq<u8> {
        twox_128_digest(x)@
    }

    fn hash(x: &[u8]) -> (r: Vec<u8>)
        ensures
            r@.len() == 16,
    {
        let digest = twox_128(x);
        slice_to_vec(digest.as_slice())
    }
}

impl StorageHasher for Twox256 {
    open spec fn spec_hash(x: Seq<u8>) -> Seq<u8> {
        twox_256_digest(x)@
    }

    fn hash(x: &[u8]) -> (r: Vec<u8>)
        ensures
            r@.len() == 32,
    {
        let digest = twox_256(x);
        slice_to_vec(digest.as_slice())
    }
}

/// The short-concat strategy keeps the logical key: its output is eight
/// digest bytes followed by the key, unmodified, so the key can be read back
/// from the hashed key.
pub proof fn lemma_concat_layout(x: Seq<u8>)
    ensures
        Twox64Concat::spec_hash(x).len() == 8 + x.len(),
        Twox64Concat::spec_hash(x).take(8) == twox_64_digest(x)@,
        Twox64Concat::spec_hash(x).skip(8) == x,
{
}

/// Each digest strategy has a fixed output width: 16 bytes for the narrow
/// ones, 32 bytes for the wide ones.
pub proof fn lemma_digest_widths(x: Seq<u8>)
    ensures
        Blake2_128::spec_hash(x).len() == 16,
        Twox128::spec_hash(x).len() == 16,
        Blake2_256::spec_hash(x).len() == 32,
        Twox256::spec_hash(x).len() == 32,
{
}

/// The short-concat strategy is injective: distinct logical keys have
/// distinct hashed keys.
pub proof fn lemma_concat_injective(x: Seq<u8>, y: Seq<u8>)
    requires
        Twox64Concat::spec_hash(x) == Twox64Concat::spec_hash(y),
    ensures
        x == y,
{
    lemma_concat_layout(x);
    lemma_concat_layout(y);
}

/// Strategies of different output width never give the same hashed key: a
/// narrow digest differs from a wide one on every key, and the short-concat
/// output differs from a digest of width `w` unless the key has `w - 8`
/// bytes.
pub proof fn lemma_widths_keep_strategies_apart(x: Seq<u8>)
    ensures
        Blake2_128::spec_hash(x) != Blake2_256::spec_hash(x),
        Blake2_128::spec_hash(x) != Twox256::spec_hash(x),
        Twox128::spec_hash(x) != Blake2_256::spec_hash(x),
        Twox128::spec_hash(x) != Twox256::spec_hash(x),
        x.len() != 8 ==> Twox64Concat::spec_hash(x) != Blake2_128::spec_hash(x),
        x.len() != 8 ==> Twox64Concat::spec_hash(x) != Twox128::spec_hash(x),
        x.len() != 24 ==> Twox64Concat::spec_hash(x) != Blake2_256::spec_hash(x),
        x.len() != 24 ==> Twox64Concat::spec_hash(x) != Twox256::spec_hash(x),
{
    lemma_digest_widths(x);
    lemma_concat_layout(x);
}

} // verus!
