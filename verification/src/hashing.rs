//! Keccak-256 hashing of leaves and interior nodes.
//!
//! The digest itself comes from the `sha3` crate; its value is abstracted
//! by the uninterpreted `keccak256` function, and everything the library
//! proves about proofs and roots is stated over that name.

use vstd::prelude::*;
use crate::bytes32::lex_le;
use crate::bytes32::le_bytes32;

verus! {

/// The Keccak-256 digest of a byte sequence, as a 32-byte sequence.
/// The digest is a function of the input bytes alone; nothing further is
/// assumed about its value.
pub uninterp spec fn keccak256(data: Seq<u8>) -> Seq<u8>;

/// Relies on `sha3::Keccak256` through the `Digest` trait: updating with `a`
/// and then `b` and finalizing yields the Keccak-256 digest of their
/// concatenation, 32 bytes long, determined by the input bytes alone.
#[verifier::external_body]
fn keccak256_pair(a: &[u8], b: &[u8]) -> (r: [u8; 32])
    ensures
        r@ == keccak256(a@ + b@),
{
    let mut h = <sha3::Keccak256 as sha3::Digest>::new();
    sha3::Digest::update(&mut h, a);
    sha3::Digest::update(&mut h, b);
    let out = sha3::Digest::finalize(h);
    let mut r = [0u8; 32];
    r.copy_from_slice(&out);
    r
}

/// The hash of a (claimer, amount) allocation: Keccak-256 of the 32 claimer
/// identity bytes followed by the amount in 8 little-endian bytes.
pub open spec fn leaf_hash(claimer: Seq<u8>, amount: u64) -> Seq<u8> {
    keccak256(claimer + vstd::bytes::spec_u64_to_le_bytes(amount))
}

/// The hash of an interior node: Keccak-256 of the two children in
/// lexicographic order, so that siblings need no left/right tag.
pub open spec fn node_hash(a: Seq<u8>, b: Seq<u8>) -> Seq<u8> {
    if lex_le(a, b) {
        keccak256(a + b)
    } else {
        keccak256(b + a)
    }
}

/// Computes the leaf hash for a (claimer, amount) allocation.
pub fn hash_leaf(claimer: &[u8; 32], amount: u64) -> (r: [u8; 32])
    ensures
        r@ == leaf_hash(claimer@, amount),
{
    let amount_bytes = vstd::bytes::u64_to_le_bytes(amount);
    keccak256_pair(claimer.as_slice(), amount_bytes.as_slice())
}

/// Computes the interior-node hash of two child hashes, smaller child first.
pub fn hash_node(a: &[u8; 32], b: &[u8; 32]) -> (r: [u8; 32])
    ensures
        r@ == node_hash(a@, b@),
{
    if le_bytes32(a, b) {
        keccak256_pair(a.as_slice(), b.as_slice())
    } else {
        keccak256_pair(b.as_slice(), a.as_slice())
    }
}

} // verus!
