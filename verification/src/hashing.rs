//! The hash primitive, the batch chaining hash, and the derivation of the
//! storage-slot keys that hold the bridge message counters.

use vstd::prelude::*;
use crate::bytes::{extend_bytes, u64_to_word32, u64_word32_spec};

verus! {

/// What `alloy_primitives::keccak256` returns on the given input bytes.
pub uninterp spec fn keccak_spec(data: Seq<u8>) -> Seq<u8>;

/// Relies on `alloy_primitives::keccak256`: the 32-byte Keccak-256 digest of
/// the input, a function of the input bytes alone.
#[verifier::external_body]
pub fn keccak(data: &Vec<u8>) -> (r: Vec<u8>)
    ensures
        r@ == keccak_spec(data@),
        r@.len() == 32,
{
    alloy_primitives::keccak256(data.as_slice()).to_vec()
}

/// The hash chaining a batch's Merkle root to the previous batch's hash:
/// the digest of their concatenation.
pub open spec fn chain_spec(root: Seq<u8>, prev: Seq<u8>) -> Seq<u8> {
    keccak_spec(root + prev)
}

/// Combines the batch's Merkle root with the previous batch's hash by
/// concatenation and hashing, linking the batch sequence into a hash chain.
pub fn compute_batch_hash(root: &Vec<u8>, prev: &Vec<u8>) -> (r: Vec<u8>)
    ensures
        r@ == chain_spec(root@, prev@),
        r@.len() == 32,
{
    let mut buf: Vec<u8> = Vec::new();
    extend_bytes(&mut buf, root);
    extend_bytes(&mut buf, prev);
    assert(buf@ =~= root@ + prev@);
    keccak(&buf)
}

/// A collision of the chaining hash on distinct previous-batch hashes is a
/// collision of the hash primitive itself: with the root fixed, distinct
/// previous hashes of equal width give distinct preimages.
pub proof fn lemma_chain_preimage_injective_prev(root: Seq<u8>, prev1: Seq<u8>, prev2: Seq<u8>)
    requires
        prev1.len() == prev2.len(),
        prev1 != prev2,
    ensures
        root + prev1 != root + prev2,
{
    if root + prev1 == root + prev2 {
        assert forall|i: int| 0 <= i < prev1.len() implies prev1[i] == prev2[i] by {
            assert((root + prev1)[root.len() + i] == prev1[i]);
            assert((root + prev2)[root.len() + i] == prev2[i]);
        }
        assert(prev1 =~= prev2);
    }
}

/// The mirror image: with the previous hash fixed, distinct roots of equal
/// width give the chaining hash distinct preimages.
pub proof fn lemma_chain_preimage_injective_root(root1: Seq<u8>, root2: Seq<u8>, prev: Seq<u8>)
    requires
        root1.len() == root2.len(),
        root1 != root2,
    ensures
        root1 + prev != root2 + prev,
{
    if root1 + prev == root2 + prev {
        assert forall|i: int| 0 <= i < root1.len() implies root1[i] == root2[i] by {
            assert((root1 + prev)[i] == root1[i]);
            assert((root2 + prev)[i] == root2[i]);
        }
        assert(root1 =~= root2);
    }
}

/// The slot index of the one-level mapping that stores the counters.
pub const COUNTER_MAPPING_SLOT: u64 = 2;

/// The mapping key the deployment assigns to the ethereum-side counter.
pub const ETHEREUM_COUNTER_MAPPING_KEY: u64 = 17000;

/// The mapping key the deployment assigns to the solana-side counter.
pub const SOLANA_COUNTER_MAPPING_KEY: u64 = 900;

/// The 32-byte big-endian image of the counters' mapping slot index.
pub open spec fn mapping_slot_word() -> Seq<u8> {
    u64_word32_spec(COUNTER_MAPPING_SLOT)
}

/// The storage-slot key of entry `inner_key` in a one-level Solidity mapping
/// at the counters' slot index: the digest of the 32-byte mapping key
/// followed by the 32-byte slot index.
pub fn calculate_one_level_mapping_slot(inner_key: &Vec<u8>) -> (r: Vec<u8>)
    requires
        inner_key@.len() == 32,
    ensures
        r@ == keccak_spec(inner_key@ + mapping_slot_word()),
        r@.len() == 32,
{
    let mut buf: Vec<u8> = Vec::new();
    extend_bytes(&mut buf, inner_key);
    let slot = u64_to_word32(COUNTER_MAPPING_SLOT);
    extend_bytes(&mut buf, &slot);
    assert(buf@ =~= inner_key@ + mapping_slot_word());
    keccak(&buf)
}

/// The two fixed storage-slot keys holding the bridge counters, ethereum
/// side first: the slot of each deployment-assigned mapping key. These are
/// the keys a proof bundle is requested for, in the positional order the
/// counter extraction expects.
pub fn counter_slot_keys() -> (r: (Vec<u8>, Vec<u8>))
    ensures
        r.0@ == keccak_spec(u64_word32_spec(ETHEREUM_COUNTER_MAPPING_KEY) + mapping_slot_word()),
        r.1@ == keccak_spec(u64_word32_spec(SOLANA_COUNTER_MAPPING_KEY) + mapping_slot_word()),
{
    let eth_key = u64_to_word32(ETHEREUM_COUNTER_MAPPING_KEY);
    let sol_key = u64_to_word32(SOLANA_COUNTER_MAPPING_KEY);
    let eth_slot = calculate_one_level_mapping_slot(&eth_key);
    let sol_slot = calculate_one_level_mapping_slot(&sol_key);
    (eth_slot, sol_slot)
}

} // verus!
