use batch_core::executor::CustomEvmFactory;
use batch_core::registry::{address_from_u64, CustomPrecompiles, PrecompileKind,
    TwineCustomPrecompile, TwinePrecompiles};

#[test]
fn addresses_put_the_integer_in_the_last_bytes() {
    let a = address_from_u64(0x1001);
    assert_eq!(a.len(), 20);
    assert_eq!(&a[0..18], &[0u8; 18]);
    assert_eq!(a[18], 0x10);
    assert_eq!(a[19], 0x01);
}

#[test]
fn twine_precompiles_contains_exactly_its_three_addresses() {
    let t = TwinePrecompiles::default();
    assert!(t.contains(&t.transaction_precompile.clone()));
    assert!(t.contains(&t.consensus_precompile.clone()));
    assert!(t.contains(&t.zstd_precompile.clone()));
    assert!(!t.contains(&address_from_u64(1)));
    assert!(!t.contains(&address_from_u64(0x9999)));
}

#[test]
fn resolution_dispatches_custom_addresses_exclusively() {
    let reg = CustomPrecompiles::new(Vec::new());
    let t = &reg.twine_precompiles;
    assert_eq!(
        reg.resolve(&t.consensus_precompile.clone()),
        Some(PrecompileKind::ConsensusVerifier)
    );
    assert_eq!(
        reg.resolve(&t.transaction_precompile.clone()),
        Some(PrecompileKind::TransactionIngest)
    );
    assert_eq!(
        reg.resolve(&t.zstd_precompile.clone()),
        Some(PrecompileKind::Decompression)
    );
}

#[test]
fn resolution_finds_the_ten_standard_addresses() {
    let reg = CustomPrecompiles::new(Vec::new());
    for k in 1..=10u64 {
        assert_eq!(
            reg.resolve(&address_from_u64(k)),
            Some(PrecompileKind::Standard),
            "address {} must be standard",
            k
        );
    }
}

#[test]
fn resolution_returns_none_elsewhere() {
    let reg = CustomPrecompiles::new(Vec::new());
    assert_eq!(reg.resolve(&address_from_u64(0)), None);
    assert_eq!(reg.resolve(&address_from_u64(11)), None);
    assert_eq!(reg.resolve(&address_from_u64(0x4242)), None);
    assert_eq!(reg.resolve(&vec![1u8; 19]), None);
    assert_eq!(reg.resolve(&vec![1u8; 21]), None);
}

#[test]
fn contains_agrees_with_resolution() {
    let reg = CustomPrecompiles::new(Vec::new());
    for k in 0..=12u64 {
        let a = address_from_u64(k);
        assert_eq!(reg.contains(&a), reg.resolve(&a).is_some());
    }
    let t = reg.twine_precompiles.zstd_precompile.clone();
    assert!(reg.contains(&t));
}

#[test]
fn warm_addresses_cover_standard_and_custom() {
    let reg = CustomPrecompiles::new(Vec::new());
    let warm = reg.warm_addresses();
    assert_eq!(warm.len(), 13);
    for k in 1..=10u64 {
        assert!(warm.contains(&address_from_u64(k)));
    }
    assert!(warm.contains(&reg.twine_precompiles.consensus_precompile));
    assert!(warm.contains(&reg.twine_precompiles.transaction_precompile));
    assert!(warm.contains(&reg.twine_precompiles.zstd_precompile));
}

#[test]
fn host_registry_resolves_its_two_custom_addresses_first() {
    let p = TwineCustomPrecompile::default();
    assert_eq!(
        p.resolve(&p.l1_transaction.clone()),
        Some(PrecompileKind::TransactionIngest)
    );
    assert_eq!(
        p.resolve(&p.l1_consensus.clone()),
        Some(PrecompileKind::ConsensusVerifier)
    );
    assert_eq!(p.resolve(&address_from_u64(4)), Some(PrecompileKind::Standard));
    assert_eq!(p.resolve(&address_from_u64(0x7777)), None);
}

#[test]
fn host_registry_contains_and_warmth_are_consistent() {
    let p = TwineCustomPrecompile::default();
    assert!(p.contains(&p.l1_consensus.clone()));
    assert!(p.contains(&p.l1_transaction.clone()));
    assert!(p.contains(&address_from_u64(9)));
    assert!(!p.contains(&address_from_u64(0x7777)));
    let warm = p.warm_addresses();
    assert_eq!(warm.len(), 12);
    assert!(warm.contains(&p.l1_consensus));
    assert!(warm.contains(&p.l1_transaction));
    for k in 1..=10u64 {
        assert!(warm.contains(&address_from_u64(k)));
    }
}

#[test]
fn set_spec_repins_the_fixed_table() {
    let mut p = TwineCustomPrecompile::default();
    p.l1_consensus = vec![0u8; 20];
    assert!(p.set_spec());
    let fresh = TwineCustomPrecompile::default();
    assert_eq!(p.l1_consensus, fresh.l1_consensus);
    assert_eq!(p.l1_transaction, fresh.l1_transaction);
}

#[test]
fn registry_keeps_its_validator_sets() {
    let sets = vec![("sepolia".to_string(), "validators-payload".to_string())];
    let reg = CustomPrecompiles::new(sets.clone());
    assert_eq!(reg.validator_sets, sets);
}

#[test]
fn the_factory_threads_its_validator_sets_into_the_registry() {
    let sets = vec![
        ("sepolia".to_string(), "payload-a".to_string()),
        ("holesky".to_string(), "payload-b".to_string()),
    ];
    let factory = CustomEvmFactory::new(None, sets.clone());
    let reg = factory.registry();
    assert_eq!(reg.validator_sets, sets);
}
