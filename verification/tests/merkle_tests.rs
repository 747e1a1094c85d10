use batch_core::hashing::{calculate_one_level_mapping_slot, compute_batch_hash};
use batch_core::merkle::merkle_root;

fn keccak(data: &[u8]) -> Vec<u8> {
    alloy_primitives::keccak256(data).to_vec()
}

fn concat(a: &[u8], b: &[u8]) -> Vec<u8> {
    let mut v = a.to_vec();
    v.extend_from_slice(b);
    v
}

#[test]
fn merkle_root_of_no_leaves_is_zero() {
    let root = merkle_root(&Vec::new());
    assert_eq!(root, vec![0u8; 32]);
}

#[test]
fn merkle_root_of_one_leaf_is_the_leaf() {
    let leaf = vec![0xabu8; 32];
    let root = merkle_root(&vec![leaf.clone()]);
    assert_eq!(root, leaf);
}

#[test]
fn merkle_root_of_two_leaves_hashes_their_concatenation() {
    let a = vec![0x01u8; 32];
    let b = vec![0x02u8; 32];
    let root = merkle_root(&vec![a.clone(), b.clone()]);
    assert_eq!(root, keccak(&concat(&a, &b)));
}

#[test]
fn merkle_root_of_three_leaves_duplicates_the_last() {
    let a = vec![0x01u8; 32];
    let b = vec![0x02u8; 32];
    let c = vec![0x03u8; 32];
    let root = merkle_root(&vec![a.clone(), b.clone(), c.clone()]);
    let hab = keccak(&concat(&a, &b));
    let hcc = keccak(&concat(&c, &c));
    assert_eq!(root, keccak(&concat(&hab, &hcc)));
    // The duplicate-last padding, not a promotion of the odd leaf.
    let wrong = keccak(&concat(&hab, &c));
    assert_ne!(root, wrong);
}

#[test]
fn merkle_root_of_four_leaves() {
    let a = vec![0x01u8; 32];
    let b = vec![0x02u8; 32];
    let c = vec![0x03u8; 32];
    let d = vec![0x04u8; 32];
    let root = merkle_root(&vec![a.clone(), b.clone(), c.clone(), d.clone()]);
    let hab = keccak(&concat(&a, &b));
    let hcd = keccak(&concat(&c, &d));
    assert_eq!(root, keccak(&concat(&hab, &hcd)));
}

#[test]
fn changing_one_leaf_changes_the_root() {
    let a = vec![0x01u8; 32];
    let b = vec![0x02u8; 32];
    let c = vec![0x03u8; 32];
    let mut b2 = b.clone();
    b2[31] ^= 1;
    let root1 = merkle_root(&vec![a.clone(), b, c.clone()]);
    let root2 = merkle_root(&vec![a, b2, c]);
    assert_ne!(root1, root2);
}

#[test]
fn chain_hashes_root_then_previous() {
    let root = vec![0x10u8; 32];
    let prev = vec![0x20u8; 32];
    let chained = compute_batch_hash(&root, &prev);
    assert_eq!(chained, keccak(&concat(&root, &prev)));
}

#[test]
fn chain_distinguishes_previous_hashes() {
    let root = vec![0x10u8; 32];
    let prev1 = vec![0x20u8; 32];
    let mut prev2 = prev1.clone();
    prev2[0] ^= 0x80;
    assert_ne!(
        compute_batch_hash(&root, &prev1),
        compute_batch_hash(&root, &prev2)
    );
}

#[test]
fn chain_distinguishes_roots() {
    let root1 = vec![0x10u8; 32];
    let mut root2 = root1.clone();
    root2[31] ^= 1;
    let prev = vec![0x20u8; 32];
    assert_ne!(
        compute_batch_hash(&root1, &prev),
        compute_batch_hash(&root2, &prev)
    );
}

#[test]
fn counter_slot_keys_use_the_fixed_mapping_keys() {
    let (eth, sol) = batch_core::hashing::counter_slot_keys();
    let mut eth_pre = vec![0u8; 32];
    eth_pre[30] = 0x42;
    eth_pre[31] = 0x68; // 17000
    let mut sol_pre = vec![0u8; 32];
    sol_pre[30] = 0x03;
    sol_pre[31] = 0x84; // 900
    let mut index_word = vec![0u8; 32];
    index_word[31] = 2;
    eth_pre.extend_from_slice(&index_word);
    sol_pre.extend_from_slice(&index_word);
    assert_eq!(eth, keccak(&eth_pre));
    assert_eq!(sol, keccak(&sol_pre));
}

#[test]
fn mapping_slot_key_matches_solidity_derivation() {
    // key = keccak(pad32(mapping key) ‖ pad32(slot index)), slot index 2.
    let mut inner_key = vec![0u8; 32];
    inner_key[30] = 0x42;
    inner_key[31] = 0x68; // 17000
    let slot = calculate_one_level_mapping_slot(&inner_key);
    let mut preimage = inner_key.clone();
    let mut index_word = vec![0u8; 32];
    index_word[31] = 2;
    preimage.extend_from_slice(&index_word);
    assert_eq!(slot, keccak(&preimage));
}
