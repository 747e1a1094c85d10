use batch_core::codec::PublicCommitment;
use batch_core::executor::{CustomEvmFactory, ExecutedHeader, TwineEvmFactory};
use batch_core::merkle::merkle_root;
use batch_core::hashing::compute_batch_hash;
use batch_core::inclusion::AccountProof;
use batch_core::orchestrator::{batch_block_range, build_batch_metadata, check_batch_continuity,
    evaluate_and_encode, evaluate_batch, previous_batch_index, BatchError, ChainingInput};

fn header(number: u64, state_root_byte: u8) -> ExecutedHeader {
    ExecutedHeader {
        number,
        parent_hash: vec![0u8; 32],
        state_root: vec![state_root_byte; 32],
        transactions_root: vec![0u8; 32],
        receipts_root: vec![0u8; 32],
    }
}

#[test]
fn an_empty_batch_is_rejected_before_anything_else() {
    let r = evaluate_batch(&Vec::new(), &ChainingInput::Absent);
    assert_eq!(r.err(), Some(BatchError::EmptyRange));
}

#[test]
fn absent_chaining_defaults_to_zero_hash_and_zero_counters() {
    let headers = vec![header(5, 0xaa)];
    let c = evaluate_batch(&headers, &ChainingInput::Absent).expect("evaluate");
    assert_eq!(c.prev_batch_hash, vec![0u8; 32]);
    assert_eq!(c.ethereum_message_count, 0);
    assert_eq!(c.solana_message_count, 0);
}

#[test]
fn three_blocks_without_chaining_give_the_chained_merkle_root() {
    let headers = vec![header(1, 0x01), header(2, 0x02), header(3, 0x03)];
    let c = evaluate_batch(&headers, &ChainingInput::Absent).expect("evaluate");
    let leaves = vec![vec![0x01u8; 32], vec![0x02u8; 32], vec![0x03u8; 32]];
    let root = merkle_root(&leaves);
    let expected = compute_batch_hash(&root, &vec![0u8; 32]);
    assert_eq!(c.batch_hash, expected);

    // The encoded commitment decodes back to the same values.
    let bytes = evaluate_and_encode(&headers, &ChainingInput::Absent).expect("encode");
    let back = PublicCommitment::abi_decode_packed(bytes).expect("decode");
    assert_eq!(back.prev_batch_hash, vec![0u8; 32]);
    assert_eq!(back.batch_hash, expected);
    assert_eq!(back.ethereum_message_count, 0);
    assert_eq!(back.solana_message_count, 0);

    // First and last block numbers come from the first and last headers.
    assert_eq!(batch_block_range(&headers), Some((1, 3)));
}

#[test]
fn a_batch_of_one_block_chains_its_own_state_root() {
    let headers = vec![header(9, 0x5c)];
    let c = evaluate_batch(&headers, &ChainingInput::Absent).expect("evaluate");
    // A single leaf is its own Merkle root.
    let expected = compute_batch_hash(&vec![0x5cu8; 32], &vec![0u8; 32]);
    assert_eq!(c.batch_hash, expected);
}

#[test]
fn a_bad_chaining_proof_is_fatal() {
    let headers = vec![header(1, 0x01)];
    let chaining = ChainingInput::Present {
        prev_batch_hash: vec![0x07u8; 32],
        proof: batch_core::inclusion::AccountProof {
            address: vec![0u8; 20],
            nonce: 0,
            balance: vec![0u8; 32],
            storage_root: vec![0u8; 32],
            code_hash: vec![0u8; 32],
            nodes: vec![vec![0x01, 0x02]],
            storage_proofs: Vec::new(),
        },
    };
    let r = evaluate_batch(&headers, &chaining);
    assert_eq!(r.err(), Some(BatchError::ProofVerification));
}

#[test]
fn range_endpoints_must_resolve_to_one_batch() {
    assert!(check_batch_continuity(4, 4).is_ok());
    assert_eq!(check_batch_continuity(4, 5).err(), Some(BatchError::RangeMismatch));
}

#[test]
fn the_first_batch_has_no_predecessor() {
    assert_eq!(previous_batch_index(0), None);
    assert_eq!(previous_batch_index(1), Some(0));
    assert_eq!(previous_batch_index(17), Some(16));
}

#[test]
fn an_empty_batch_has_no_block_range() {
    assert_eq!(batch_block_range(&Vec::new()), None);
}

fn empty_proof() -> AccountProof {
    AccountProof {
        address: vec![0u8; 20],
        nonce: 0,
        balance: vec![0u8; 32],
        storage_root: vec![0u8; 32],
        code_hash: vec![0u8; 32],
        nodes: Vec::new(),
        storage_proofs: Vec::new(),
    }
}

#[test]
fn metadata_for_the_first_batch_chains_to_the_zero_word() {
    let c = build_batch_metadata(0, 0, None, empty_proof()).expect("metadata");
    match c {
        ChainingInput::Present { prev_batch_hash, .. } => {
            assert_eq!(prev_batch_hash, vec![0u8; 32]);
        }
        ChainingInput::Absent => panic!("metadata must carry the proof"),
    }
}

#[test]
fn metadata_for_a_later_batch_uses_the_fetched_hash() {
    let fetched = vec![0x5au8; 32];
    let c = build_batch_metadata(3, 3, Some(fetched.clone()), empty_proof()).expect("metadata");
    match c {
        ChainingInput::Present { prev_batch_hash, .. } => {
            assert_eq!(prev_batch_hash, fetched);
        }
        ChainingInput::Absent => panic!("metadata must carry the proof"),
    }
}

#[test]
fn metadata_fails_before_execution_when_the_range_spans_batches() {
    assert_eq!(
        build_batch_metadata(3, 4, Some(vec![0u8; 32]), empty_proof()).err(),
        Some(BatchError::RangeMismatch)
    );
}

#[test]
fn metadata_for_a_later_batch_needs_the_fetched_hash() {
    assert_eq!(
        build_batch_metadata(3, 3, None, empty_proof()).err(),
        Some(BatchError::MissingPreviousHash)
    );
}

#[test]
fn the_beneficiary_override_replaces_the_block_beneficiary() {
    let with_override = CustomEvmFactory::new(Some(vec![0xeeu8; 20]), Vec::new());
    assert_eq!(
        with_override.effective_beneficiary(vec![0x11u8; 20]),
        vec![0xeeu8; 20]
    );
    let without = CustomEvmFactory::new(None, Vec::new());
    assert_eq!(
        without.effective_beneficiary(vec![0x11u8; 20]),
        vec![0x11u8; 20]
    );
}

#[test]
fn the_host_factory_is_a_fixed_configuration() {
    let f = TwineEvmFactory::new();
    assert_eq!(f, TwineEvmFactory::default());
}

#[test]
fn evaluating_the_same_batch_twice_gives_identical_bytes() {
    let headers = vec![header(1, 0x01), header(2, 0x02)];
    let a = evaluate_and_encode(&headers, &ChainingInput::Absent).expect("first");
    let b = evaluate_and_encode(&headers, &ChainingInput::Absent).expect("second");
    assert_eq!(a, b);
}
