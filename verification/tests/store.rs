use veritasor::{
    Address, AttestationContract, AttestationRecord, AuthContext, DataKey, FeeConfig,
    MultisigConfig, Proposal, ProposalAction, ProposalStatus, Store, StoreValue, VolumeBrackets,
    PROPOSAL_TTL_SECONDS,
};

fn addr(name: &str) -> Address {
    Address::from_str(name)
}

fn small(v: Option<&StoreValue>) -> Option<u32> {
    match v {
        Some(StoreValue::Small(n)) => Some(*n),
        _ => None,
    }
}

#[test]
fn store_keeps_one_value_for_each_key() {
    let mut s = Store::new();
    assert_eq!(s.len(), 0);
    assert!(!s.has(&DataKey::Paused));
    assert!(s.get(&DataKey::Paused).is_none());

    s.set(DataKey::Role(addr("a")), StoreValue::Small(1));
    s.set(DataKey::Role(addr("b")), StoreValue::Small(2));
    s.set(DataKey::BusinessTier(addr("a")), StoreValue::Small(3));
    assert_eq!(s.len(), 3);
    assert_eq!(small(s.get(&DataKey::Role(addr("a")))), Some(1));
    assert_eq!(small(s.get(&DataKey::Role(addr("b")))), Some(2));
    assert_eq!(small(s.get(&DataKey::BusinessTier(addr("a")))), Some(3));
    assert_eq!(small(s.get(&DataKey::BusinessTier(addr("b")))), None);

    s.set(DataKey::Role(addr("a")), StoreValue::Small(9));
    assert_eq!(s.len(), 3);
    assert_eq!(small(s.get(&DataKey::Role(addr("a")))), Some(9));
    assert_eq!(small(s.get(&DataKey::Role(addr("b")))), Some(2));

    let (k, v) = s.entry_at(1);
    assert!(k.same(&DataKey::Role(addr("b"))));
    assert_eq!(small(Some(v)), Some(2));
}

#[test]
fn keys_of_different_kinds_never_meet() {
    let a = addr("a");
    let p = String::from("p");
    let keys = vec![
        DataKey::Admin,
        DataKey::Role(a.clone()),
        DataKey::Paused,
        DataKey::FeeConfig,
        DataKey::TierDiscount(1),
        DataKey::BusinessTier(a.clone()),
        DataKey::VolumeBrackets,
        DataKey::BusinessCount(a.clone()),
        DataKey::Attestation(a.clone(), p.clone()),
        DataKey::Revoked(a.clone(), p.clone()),
        DataKey::Metadata(a.clone(), p.clone()),
        DataKey::MultisigConfig,
        DataKey::NextProposalId,
        DataKey::Proposal(1),
        DataKey::CoreAttestation,
        DataKey::RevenueMetrics(a.clone(), p.clone()),
        DataKey::Dispute(a.clone(), p.clone()),
        DataKey::LatestIndexedPeriod(a.clone()),
    ];
    for (i, x) in keys.iter().enumerate() {
        for (j, y) in keys.iter().enumerate() {
            assert_eq!(x.same(y), i == j);
        }
        assert!(x.same(&x.clone()));
    }
    assert!(!DataKey::TierDiscount(1).same(&DataKey::TierDiscount(2)));
    assert!(!DataKey::Proposal(1).same(&DataKey::Proposal(2)));
    assert!(!DataKey::Attestation(addr("a"), String::from("p"))
        .same(&DataKey::Attestation(addr("a"), String::from("q"))));
    assert!(!DataKey::Attestation(addr("a"), String::from("p"))
        .same(&DataKey::Attestation(addr("b"), String::from("p"))));
    assert!(DataKey::Attestation(addr("a"), String::from("p"))
        .same(&DataKey::Attestation(addr("a"), String::from("p"))));

    let mut s = Store::new();
    for (i, k) in keys.iter().enumerate() {
        s.set(k.clone(), StoreValue::Count(i as u64));
    }
    assert_eq!(s.len(), keys.len());
    for (i, k) in keys.iter().enumerate() {
        match s.get(k) {
            Some(StoreValue::Count(n)) => assert_eq!(*n, i as u64),
            other => panic!("unexpected value {:?}", other),
        }
    }
}

#[test]
fn store_entries_round_trip() {
    let mut s = Store::new();
    s.set(DataKey::Paused, StoreValue::Flag(true));
    s.set(DataKey::TierDiscount(3), StoreValue::Small(7));
    s.set(DataKey::Paused, StoreValue::Flag(false));
    let entries = s.entries();
    assert_eq!(entries.len(), 2);
    assert!(entries[0].0.same(&DataKey::Paused));
    assert!(matches!(entries[0].1, StoreValue::Flag(false)));
    assert!(entries[1].0.same(&DataKey::TierDiscount(3)));

    let back = Store::from_entries(entries).unwrap();
    assert_eq!(back.len(), 2);
    assert_eq!(small(back.get(&DataKey::TierDiscount(3))), Some(7));

    let twice = vec![
        (DataKey::Paused, StoreValue::Flag(true)),
        (DataKey::Admin, StoreValue::Principal(addr("a"))),
        (DataKey::Paused, StoreValue::Flag(false)),
    ];
    assert!(Store::from_entries(twice).is_none());
    assert_eq!(Store::from_entries(Vec::new()).unwrap().len(), 0);
}

fn proposal(id: u64) -> Proposal {
    Proposal {
        id,
        action: ProposalAction::Pause,
        proposer: addr("o1"),
        approvals: vec![addr("o1")],
        status: ProposalStatus::Pending,
        created_at: 10,
        expires_at: 10 + PROPOSAL_TTL_SECONDS,
    }
}

fn record() -> AttestationRecord {
    AttestationRecord { merkle_root: [0u8; 32], timestamp: 1, version: 1, fee_paid: 0 }
}

#[test]
fn restore_takes_what_is_in_order() {
    assert!(AttestationContract::restore(Vec::new()).is_some());
    let entries = vec![
        (DataKey::Admin, StoreValue::Principal(addr("admin"))),
        (DataKey::Role(addr("admin")), StoreValue::Small(1)),
        (
            DataKey::MultisigConfig,
            StoreValue::Multisig(MultisigConfig { owners: vec![addr("o1"), addr("o2")], threshold: 2 }),
        ),
        (DataKey::Proposal(0), StoreValue::Proposal(proposal(0))),
        (DataKey::NextProposalId, StoreValue::Count(1)),
        (DataKey::Attestation(addr("b"), String::from("p")), StoreValue::Attestation(record())),
        (DataKey::BusinessCount(addr("b")), StoreValue::Count(1)),
        (DataKey::TierDiscount(1), StoreValue::Small(10_000)),
        (
            DataKey::VolumeBrackets,
            StoreValue::Brackets(VolumeBrackets { thresholds: vec![1, 2], discounts: vec![5, 6] }),
        ),
        (
            DataKey::FeeConfig,
            StoreValue::FeeConfig(FeeConfig {
                token: addr("t"),
                collector: addr("c"),
                base_fee: 0,
                enabled: true,
            }),
        ),
    ];
    let c = AttestationContract::restore(entries).unwrap();
    assert_eq!(c.get_business_count(&addr("b")), Some(1));
    assert_eq!(c.get_approval_count(0), 1);
    assert_eq!(c.get_multisig_threshold(), 2);
    assert_eq!(c.export().len(), 10);
}

#[test]
fn restore_refuses_what_is_out_of_order() {
    let bad: Vec<Vec<(DataKey, StoreValue)>> = vec![
        // A key twice.
        vec![(DataKey::Paused, StoreValue::Flag(true)), (DataKey::Paused, StoreValue::Flag(true))],
        // A value of the wrong shape.
        vec![(DataKey::Paused, StoreValue::Small(1))],
        vec![(DataKey::Role(addr("a")), StoreValue::Flag(true))],
        vec![(DataKey::Admin, StoreValue::Text(String::from("admin")))],
        // A discount above one hundred percent.
        vec![(DataKey::TierDiscount(1), StoreValue::Small(10_001))],
        // A negative base fee.
        vec![(
            DataKey::FeeConfig,
            StoreValue::FeeConfig(FeeConfig {
                token: addr("t"),
                collector: addr("c"),
                base_fee: -1,
                enabled: true,
            }),
        )],
        // Thresholds that do not ascend.
        vec![(
            DataKey::VolumeBrackets,
            StoreValue::Brackets(VolumeBrackets { thresholds: vec![2, 2], discounts: vec![5, 6] }),
        )],
        // A threshold above the number of owners, an owner twice, no threshold.
        vec![(
            DataKey::MultisigConfig,
            StoreValue::Multisig(MultisigConfig { owners: vec![addr("o1")], threshold: 2 }),
        )],
        vec![(
            DataKey::MultisigConfig,
            StoreValue::Multisig(MultisigConfig { owners: vec![addr("o1"), addr("o1")], threshold: 1 }),
        )],
        vec![(
            DataKey::MultisigConfig,
            StoreValue::Multisig(MultisigConfig { owners: vec![addr("o1")], threshold: 0 }),
        )],
        // A count that no submissions account for.
        vec![(DataKey::BusinessCount(addr("b")), StoreValue::Count(1))],
        vec![
            (DataKey::Attestation(addr("b"), String::from("p")), StoreValue::Attestation(record())),
            (DataKey::BusinessCount(addr("b")), StoreValue::Count(2)),
        ],
        // A proposal whose number is not below the next one.
        vec![(DataKey::Proposal(0), StoreValue::Proposal(proposal(0)))],
        vec![
            (DataKey::Proposal(1), StoreValue::Proposal(proposal(1))),
            (DataKey::NextProposalId, StoreValue::Count(1)),
        ],
        // A proposal under another number than its own.
        vec![
            (DataKey::Proposal(0), StoreValue::Proposal(proposal(3))),
            (DataKey::NextProposalId, StoreValue::Count(1)),
        ],
    ];
    for (i, entries) in bad.into_iter().enumerate() {
        assert!(AttestationContract::restore(entries).is_none(), "case {}", i);
    }

    let mut p = proposal(0);
    p.approvals = vec![addr("o1"), addr("o1")];
    assert!(AttestationContract::restore(vec![
        (DataKey::Proposal(0), StoreValue::Proposal(p)),
        (DataKey::NextProposalId, StoreValue::Count(1)),
    ])
    .is_none());
    let mut p = proposal(0);
    p.status = ProposalStatus::Approved;
    assert!(AttestationContract::restore(vec![
        (DataKey::Proposal(0), StoreValue::Proposal(p)),
        (DataKey::NextProposalId, StoreValue::Count(1)),
    ])
    .is_none());
    let mut p = proposal(0);
    p.expires_at = 11;
    assert!(AttestationContract::restore(vec![
        (DataKey::Proposal(0), StoreValue::Proposal(p)),
        (DataKey::NextProposalId, StoreValue::Count(1)),
    ])
    .is_none());
    let mut p = proposal(0);
    p.created_at = u64::MAX;
    p.expires_at = PROPOSAL_TTL_SECONDS - 1;
    assert!(AttestationContract::restore(vec![
        (DataKey::Proposal(0), StoreValue::Proposal(p)),
        (DataKey::NextProposalId, StoreValue::Count(1)),
    ])
    .is_none());
}

#[test]
fn a_fresh_ledger_is_empty() {
    let c = AttestationContract::new();
    assert!(c.export().is_empty());
    assert!(!c.is_paused());
    assert!(c.get_admin().is_none());
    assert!(c.get_fee_config().is_none());
    assert_eq!(c.get_roles(&addr("a")), 0);
    let _ = AuthContext::none();
}
