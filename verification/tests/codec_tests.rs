use batch_core::codec::{parse_hash_hex, BlockInfo, PublicCommitment};

fn sample_commitment() -> PublicCommitment {
    PublicCommitment {
        prev_batch_hash: (0u8..32).collect(),
        batch_hash: (32u8..64).collect(),
        ethereum_message_count: 0x0102030405060708,
        solana_message_count: 42,
    }
}

#[test]
fn encode_produces_the_packed_layout() {
    let c = sample_commitment();
    let bytes = c.abi_encode_packed();
    assert_eq!(bytes.len(), 80);
    assert_eq!(&bytes[0..32], (0u8..32).collect::<Vec<u8>>().as_slice());
    assert_eq!(&bytes[32..64], (32u8..64).collect::<Vec<u8>>().as_slice());
    assert_eq!(&bytes[64..72], &[1, 2, 3, 4, 5, 6, 7, 8]);
    assert_eq!(&bytes[72..80], &[0, 0, 0, 0, 0, 0, 0, 42]);
}

#[test]
fn decode_recovers_every_field() {
    let c = sample_commitment();
    let bytes = c.abi_encode_packed();
    let back = PublicCommitment::abi_decode_packed(bytes).expect("decode");
    assert_eq!(back.prev_batch_hash, c.prev_batch_hash);
    assert_eq!(back.batch_hash, c.batch_hash);
    assert_eq!(back.ethereum_message_count, c.ethereum_message_count);
    assert_eq!(back.solana_message_count, c.solana_message_count);
}

#[test]
fn decode_rejects_every_other_length() {
    for len in [0usize, 1, 63, 79, 81, 160] {
        let r = PublicCommitment::abi_decode_packed(vec![0u8; len]);
        assert!(r.is_err(), "length {} must be rejected", len);
    }
}

#[test]
fn the_rejection_message_names_the_received_length() {
    let r = PublicCommitment::abi_decode_packed(vec![0u8; 5]);
    assert_eq!(r.err().as_deref(), Some("expected 80 bytes, got 5"));
    let r = PublicCommitment::abi_decode_packed(vec![0u8; 160]);
    assert_eq!(r.err().as_deref(), Some("expected 80 bytes, got 160"));
    let r = PublicCommitment::abi_decode_packed(Vec::new());
    assert_eq!(r.err().as_deref(), Some("expected 80 bytes, got 0"));
}

#[test]
fn decode_of_eighty_zero_bytes_gives_the_zero_commitment() {
    let c = PublicCommitment::abi_decode_packed(vec![0u8; 80]).expect("decode");
    assert_eq!(c.prev_batch_hash, vec![0u8; 32]);
    assert_eq!(c.batch_hash, vec![0u8; 32]);
    assert_eq!(c.ethereum_message_count, 0);
    assert_eq!(c.solana_message_count, 0);
}

#[test]
fn block_info_packs_its_four_words() {
    let info = BlockInfo {
        previous_block: vec![1u8; 32],
        block_hash: vec![2u8; 32],
        transaction_root: vec![3u8; 32],
        receipt_root: vec![4u8; 32],
    };
    let bytes = info.abi_encode_packed();
    assert_eq!(bytes.len(), 128);
    assert_eq!(&bytes[0..32], &[1u8; 32]);
    assert_eq!(&bytes[32..64], &[2u8; 32]);
    assert_eq!(&bytes[64..96], &[3u8; 32]);
    assert_eq!(&bytes[96..128], &[4u8; 32]);
}

#[test]
fn parse_hash_hex_accepts_a_prefixed_hash() {
    let s = format!("0x{}", "ab".repeat(32));
    let v = parse_hash_hex(&s.into_bytes()).expect("parse");
    assert_eq!(v, vec![0xabu8; 32]);
}

#[test]
fn parse_hash_hex_accepts_a_bare_hash() {
    let s = "0123456789abcdefABCDEF0123456789abcdefABCDEF0123456789abcdef0123";
    let v = parse_hash_hex(&s.as_bytes().to_vec()).expect("parse");
    assert_eq!(v.len(), 32);
    assert_eq!(v[0], 0x01);
    assert_eq!(v[9], 0xcd);
    assert_eq!(v[31], 0x23);
}

#[test]
fn parse_hash_hex_strips_repeated_prefixes() {
    let s = format!("0x0x{}", "11".repeat(32));
    let v = parse_hash_hex(&s.into_bytes()).expect("parse");
    assert_eq!(v, vec![0x11u8; 32]);
}

#[test]
fn parse_hash_hex_rejects_bad_input() {
    // Wrong lengths.
    assert!(parse_hash_hex(&b"".to_vec()).is_none());
    assert!(parse_hash_hex(&"ab".repeat(31).into_bytes()).is_none());
    assert!(parse_hash_hex(&"ab".repeat(33).into_bytes()).is_none());
    // A non-hex character.
    let mut s = "ab".repeat(32).into_bytes();
    s[10] = b'g';
    assert!(parse_hash_hex(&s).is_none());
}
