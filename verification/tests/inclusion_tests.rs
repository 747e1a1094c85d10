use batch_core::executor::ExecutedHeader;
use batch_core::inclusion::{extract_counters, word_to_u64, AccountProof, ProofError,
    StorageSlotProof};
use batch_core::orchestrator::{evaluate_batch, BatchError, ChainingInput};
use batch_core::rlp::account_rlp;

fn keccak(data: &[u8]) -> Vec<u8> {
    alloy_primitives::keccak256(data).to_vec()
}

/// RLP of a byte string (short and one-length-byte long forms).
fn rlp_str(b: &[u8]) -> Vec<u8> {
    if b.len() == 1 && b[0] < 0x80 {
        return b.to_vec();
    }
    if b.len() <= 55 {
        let mut v = vec![0x80 + b.len() as u8];
        v.extend_from_slice(b);
        v
    } else {
        assert!(b.len() <= 255);
        let mut v = vec![0xb8, b.len() as u8];
        v.extend_from_slice(b);
        v
    }
}

/// RLP list header over an already-encoded payload.
fn rlp_list(payload: &[u8]) -> Vec<u8> {
    let mut v = if payload.len() <= 55 {
        vec![0xc0 + payload.len() as u8]
    } else {
        assert!(payload.len() <= 255);
        vec![0xf8, payload.len() as u8]
    };
    v.extend_from_slice(payload);
    v
}

/// A leaf node holding `value` at the full 64-nibble path `key_hash`.
fn leaf_node(key_hash: &[u8], value: &[u8]) -> Vec<u8> {
    let mut path = vec![0x20u8];
    path.extend_from_slice(key_hash);
    let mut payload = rlp_str(&path);
    payload.extend_from_slice(&rlp_str(value));
    rlp_list(&payload)
}

/// A one-account, one-slot state: returns the proof bundle and the state
/// root it verifies against.
fn sample_bundle() -> (AccountProof, Vec<u8>) {
    let address = vec![0x11u8; 20];
    let slot_key = vec![0x22u8; 32];
    let mut slot_value = vec![0u8; 32];
    slot_value[31] = 5;

    let storage_leaf = leaf_node(&keccak(&slot_key), &[0x05]);
    let storage_root = keccak(&storage_leaf);

    let balance = vec![0u8; 32];
    let code_hash = vec![0x33u8; 32];
    let account_value = account_rlp(1, &balance, &storage_root, &code_hash);
    let account_leaf = leaf_node(&keccak(&address), &account_value);
    let state_root = keccak(&account_leaf);

    let bundle = AccountProof {
        address,
        nonce: 1,
        balance,
        storage_root,
        code_hash,
        nodes: vec![account_leaf],
        storage_proofs: vec![StorageSlotProof {
            key: slot_key,
            value: slot_value,
            nodes: vec![storage_leaf],
        }],
    };
    (bundle, state_root)
}

#[test]
fn a_valid_bundle_verifies() {
    let (bundle, state_root) = sample_bundle();
    assert!(bundle.verify(&state_root).is_ok());
}

#[test]
fn a_mutated_account_node_fails() {
    let (mut bundle, state_root) = sample_bundle();
    bundle.nodes[0][40] ^= 1;
    assert_eq!(bundle.verify(&state_root), Err(ProofError::Account));
}

#[test]
fn a_mutated_state_root_fails() {
    let (bundle, mut state_root) = sample_bundle();
    state_root[0] ^= 1;
    assert_eq!(bundle.verify(&state_root), Err(ProofError::Account));
}

#[test]
fn a_wrong_account_field_fails() {
    let (mut bundle, state_root) = sample_bundle();
    bundle.nonce = 2;
    assert_eq!(bundle.verify(&state_root), Err(ProofError::Account));
}

#[test]
fn a_wrong_slot_value_fails() {
    let (mut bundle, state_root) = sample_bundle();
    bundle.storage_proofs[0].value[31] = 6;
    assert_eq!(bundle.verify(&state_root), Err(ProofError::Storage));
}

#[test]
fn a_mutated_storage_node_fails() {
    let (mut bundle, state_root) = sample_bundle();
    bundle.storage_proofs[0].nodes[0][10] ^= 1;
    assert_eq!(bundle.verify(&state_root), Err(ProofError::Storage));
}

#[test]
fn a_zero_value_at_an_absent_slot_verifies_by_exclusion() {
    let (mut bundle, state_root) = sample_bundle();
    // A different slot key whose path diverges from the only leaf: the trie
    // holds nothing there, so a zero value is proven by exclusion.
    bundle.storage_proofs[0].key = vec![0x77u8; 32];
    bundle.storage_proofs[0].value = vec![0u8; 32];
    assert!(bundle.verify(&state_root).is_ok());
}

#[test]
fn a_verified_bundle_feeds_the_batch_commitment() {
    let (bundle, state_root) = sample_bundle();
    let headers = vec![ExecutedHeader {
        number: 12,
        parent_hash: vec![0u8; 32],
        state_root,
        transactions_root: vec![0u8; 32],
        receipts_root: vec![0u8; 32],
    }];
    let chaining = ChainingInput::Present {
        prev_batch_hash: vec![0x44u8; 32],
        proof: bundle,
    };
    let c = evaluate_batch(&headers, &chaining).expect("evaluate");
    assert_eq!(c.prev_batch_hash, vec![0x44u8; 32]);
    assert_eq!(c.ethereum_message_count, 5);
    assert_eq!(c.solana_message_count, 0);
}

#[test]
fn a_bundle_against_the_wrong_state_root_aborts_the_batch() {
    let (bundle, _) = sample_bundle();
    let headers = vec![ExecutedHeader {
        number: 12,
        parent_hash: vec![0u8; 32],
        state_root: vec![0x99u8; 32],
        transactions_root: vec![0u8; 32],
        receipts_root: vec![0u8; 32],
    }];
    let chaining = ChainingInput::Present {
        prev_batch_hash: vec![0x44u8; 32],
        proof: bundle,
    };
    assert_eq!(
        evaluate_batch(&headers, &chaining).err(),
        Some(BatchError::ProofVerification)
    );
}

#[test]
fn a_verified_but_overwide_counter_aborts_the_batch() {
    // A one-slot state whose slot value does not fit 64 bits: the proof
    // verifies, but the counter is range-checked rather than truncated.
    let address = vec![0x11u8; 20];
    let slot_key = vec![0x22u8; 32];
    let wide_value = vec![0x01u8; 32];

    // The committed form of the slot value: the RLP string of its minimal
    // big-endian bytes, here all thirty-two of them.
    let mut leaf_value = vec![0xa0u8];
    leaf_value.extend_from_slice(&wide_value);
    let storage_leaf = leaf_node(&keccak(&slot_key), &leaf_value);
    let storage_root = keccak(&storage_leaf);

    let balance = vec![0u8; 32];
    let code_hash = vec![0x33u8; 32];
    let account_value = account_rlp(1, &balance, &storage_root, &code_hash);
    let account_leaf = leaf_node(&keccak(&address), &account_value);
    let state_root = keccak(&account_leaf);

    let bundle = AccountProof {
        address,
        nonce: 1,
        balance,
        storage_root,
        code_hash,
        nodes: vec![account_leaf],
        storage_proofs: vec![StorageSlotProof {
            key: slot_key,
            value: wide_value,
            nodes: vec![storage_leaf],
        }],
    };
    assert!(bundle.verify(&state_root).is_ok());

    let headers = vec![ExecutedHeader {
        number: 1,
        parent_hash: vec![0u8; 32],
        state_root,
        transactions_root: vec![0u8; 32],
        receipts_root: vec![0u8; 32],
    }];
    let chaining = ChainingInput::Present {
        prev_batch_hash: vec![0u8; 32],
        proof: bundle,
    };
    assert_eq!(
        evaluate_batch(&headers, &chaining).err(),
        Some(BatchError::CounterOverflow)
    );
}

#[test]
fn word_to_u64_reads_the_low_eight_bytes() {
    let mut word = vec![0u8; 32];
    word[24] = 0x01;
    word[31] = 0xff;
    assert_eq!(word_to_u64(&word), Some(0x01000000000000ff));
}

#[test]
fn word_to_u64_rejects_wide_values() {
    let mut word = vec![0u8; 32];
    word[23] = 1;
    assert_eq!(word_to_u64(&word), None);
}

#[test]
fn counters_default_to_zero_without_slots() {
    assert_eq!(extract_counters(&Vec::new()), Some((0, 0)));
}

#[test]
fn counters_come_from_the_first_two_slots_in_order() {
    let mut v0 = vec![0u8; 32];
    v0[31] = 7;
    let mut v1 = vec![0u8; 32];
    v1[31] = 9;
    let proofs = vec![
        StorageSlotProof { key: vec![0u8; 32], value: v0, nodes: vec![] },
        StorageSlotProof { key: vec![0u8; 32], value: v1, nodes: vec![] },
        // A third slot is ignored.
        StorageSlotProof { key: vec![0u8; 32], value: vec![0xffu8; 32], nodes: vec![] },
    ];
    assert_eq!(extract_counters(&proofs), Some((7, 9)));
}

#[test]
fn a_single_slot_leaves_the_second_counter_zero() {
    let mut v0 = vec![0u8; 32];
    v0[31] = 7;
    let proofs = vec![StorageSlotProof { key: vec![0u8; 32], value: v0, nodes: vec![] }];
    assert_eq!(extract_counters(&proofs), Some((7, 0)));
}

#[test]
fn an_overwide_counter_is_rejected() {
    let proofs = vec![StorageSlotProof {
        key: vec![0u8; 32],
        value: vec![1u8; 32],
        nodes: vec![],
    }];
    assert_eq!(extract_counters(&proofs), None);
}

/// The in-place nesting no honest trie contains: an extension node whose
/// child is an inline leaf, sitting as a branch child.
fn crafted_branch_with_inline_extension_leaf(address: &[u8]) -> Vec<u8> {
    // Inline leaf: list [0x3a, 0x64] — odd-leaf key nibble 0xa, value 0x64.
    let inline_leaf = vec![0xc2u8, 0x3a, 0x64];
    // Inline extension: list [0x11, leaf] — odd-extension key nibble 0x1.
    let mut inline_ext = vec![0xc4u8, 0x11];
    inline_ext.extend_from_slice(&inline_leaf);
    // The walk enters the branch child at the first nibble of the hashed
    // address, so the crafted child sits there; a 33-byte hash child pads
    // the node above 32 bytes so it can stand as the root node.
    let k = (keccak(address)[0] >> 4) as usize;
    let j = (k + 1) % 16;
    let mut payload: Vec<Vec<u8>> = vec![vec![0x80u8]; 17];
    payload[k] = inline_ext;
    let mut hash_child = vec![0xa0u8];
    hash_child.extend_from_slice(&[0x77u8; 32]);
    payload[j] = hash_child;
    let flat: Vec<u8> = payload.concat();
    rlp_list(&flat)
}

#[test]
fn a_crafted_inline_nesting_fails_instead_of_aborting() {
    let address = vec![0x11u8; 20];
    let node = crafted_branch_with_inline_extension_leaf(&address);
    assert!(node.len() >= 32);
    let state_root = keccak(&node);
    let bundle = AccountProof {
        address,
        nonce: 1,
        balance: vec![0u8; 32],
        storage_root: vec![0u8; 32],
        code_hash: vec![0u8; 32],
        nodes: vec![node],
        storage_proofs: Vec::new(),
    };
    assert_eq!(bundle.verify(&state_root), Err(ProofError::Account));
}

#[test]
fn the_same_crafted_nesting_in_a_storage_proof_fails() {
    let (mut bundle, state_root) = sample_bundle();
    let slot_key = bundle.storage_proofs[0].key.clone();
    let crafted = crafted_branch_with_inline_extension_leaf(&slot_key);
    bundle.storage_proofs[0].nodes = vec![crafted];
    assert_eq!(bundle.verify(&state_root), Err(ProofError::Storage));
}

/// A bundle whose single node is `node`, as an account proof for `address`.
fn bundle_of_node(address: Vec<u8>, node: Vec<u8>) -> (AccountProof, Vec<u8>) {
    let state_root = keccak(&node);
    let bundle = AccountProof {
        address,
        nonce: 1,
        balance: vec![0u8; 32],
        storage_root: vec![0u8; 32],
        code_hash: vec![0u8; 32],
        nodes: vec![node],
        storage_proofs: Vec::new(),
    };
    (bundle, state_root)
}

#[test]
fn an_overlong_key_fails_instead_of_aborting() {
    // A leaf whose key payload is 34 bytes: one past what the verifier's
    // nibble unpacking accepts.
    let mut key = vec![0x20u8];
    key.extend_from_slice(&[0x44u8; 33]);
    let mut payload = rlp_str(&key);
    payload.push(0x07);
    let node = rlp_list(&payload);
    assert!(node.len() >= 32);
    let (bundle, state_root) = bundle_of_node(vec![0x11u8; 20], node);
    assert_eq!(bundle.verify(&state_root), Err(ProofError::Account));
}

#[test]
fn a_sixty_five_nibble_key_fails_instead_of_aborting() {
    // An odd-flag leaf key with a 33-byte payload: 1 + 64 nibbles, one past
    // a hashed key.
    let mut key = vec![0x31u8];
    key.extend_from_slice(&[0x44u8; 32]);
    let mut payload = rlp_str(&key);
    payload.push(0x07);
    let node = rlp_list(&payload);
    assert!(node.len() >= 32);
    let (bundle, state_root) = bundle_of_node(vec![0x11u8; 20], node);
    assert_eq!(bundle.verify(&state_root), Err(ProofError::Account));
}

#[test]
fn an_overgrown_walk_fails_instead_of_aborting() {
    // A full 64-nibble extension followed by a leaf with one more nibble:
    // each node is fine alone, but the walked path would outgrow the key.
    let leaf_key = vec![0x3au8];
    let mut leaf_payload = rlp_str(&leaf_key);
    leaf_payload.extend_from_slice(&rlp_str(&[0x55u8; 32]));
    let leaf = rlp_list(&leaf_payload);
    assert!(leaf.len() >= 32);

    let mut ext_key = vec![0x00u8];
    ext_key.extend_from_slice(&[0x44u8; 32]);
    let mut ext_payload = rlp_str(&ext_key);
    ext_payload.push(0xa0);
    ext_payload.extend_from_slice(&keccak(&leaf));
    let ext = rlp_list(&ext_payload);
    assert!(ext.len() >= 32);

    let state_root = keccak(&ext);
    let bundle = AccountProof {
        address: vec![0x11u8; 20],
        nonce: 1,
        balance: vec![0u8; 32],
        storage_root: vec![0u8; 32],
        code_hash: vec![0u8; 32],
        nodes: vec![ext, leaf],
        storage_proofs: Vec::new(),
    };
    assert_eq!(bundle.verify(&state_root), Err(ProofError::Account));
}
