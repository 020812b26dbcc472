use veritasor::{
    Address, AttestationContract, AuthContext, Error, Event, ProposalAction, ProposalStatus,
    PROPOSAL_TTL_SECONDS, ROLE_ADMIN, ROLE_ATTESTOR, ROLE_OPERATOR,
};

fn addr(name: &str) -> Address {
    Address::from_str(name)
}

fn signed(names: &[&str]) -> AuthContext {
    AuthContext::of(names.iter().map(|n| Address::from_str(n)).collect())
}

fn everyone() -> AuthContext {
    signed(&["admin", "o1", "o2", "o3", "o4", "x"])
}

/// Three owners, threshold two.
fn ledger() -> AttestationContract {
    let mut c = AttestationContract::new();
    c.initialize(&signed(&["admin"]), addr("admin")).unwrap();
    c.initialize_multisig(&signed(&["admin"]), vec![addr("o1"), addr("o2"), addr("o3")], 2)
        .unwrap();
    c
}

fn owner_names(c: &AttestationContract) -> Vec<String> {
    c.get_multisig_owners().iter().map(|a| String::from(a.as_str())).collect()
}

fn approved_by(c: &mut AttestationContract, action: ProposalAction, owners: &[&str]) -> u64 {
    let auth = everyone();
    let id = c.create_proposal(&auth, addr("o1"), action, 1000).unwrap();
    for o in owners {
        c.approve_proposal(&auth, addr(o), id, 1001).unwrap();
    }
    id
}

fn approved(c: &mut AttestationContract, action: ProposalAction) -> u64 {
    approved_by(c, action, &["o1", "o2"])
}

#[test]
fn multisig_is_set_up_once_by_the_administrator() {
    let mut c = AttestationContract::new();
    let admin = signed(&["admin"]);
    assert_eq!(c.initialize_multisig(&admin, vec![addr("o1")], 1), Err(Error::NotInitialized));
    c.initialize(&admin, addr("admin")).unwrap();
    assert_eq!(c.get_multisig_threshold(), 0);
    assert!(c.get_multisig_owners().is_empty());
    assert!(!c.is_multisig_owner(&addr("o1")));

    assert_eq!(
        c.initialize_multisig(&signed(&["o1"]), vec![addr("o1")], 1),
        Err(Error::Unauthorized)
    );
    assert_eq!(c.initialize_multisig(&admin, vec![addr("o1"), addr("o2")], 0), Err(Error::InvalidConfig));
    assert_eq!(c.initialize_multisig(&admin, vec![addr("o1"), addr("o2")], 3), Err(Error::InvalidConfig));
    assert_eq!(c.initialize_multisig(&admin, Vec::new(), 1), Err(Error::InvalidConfig));
    assert_eq!(c.initialize_multisig(&admin, Vec::new(), 0), Err(Error::InvalidConfig));
    assert_eq!(
        c.initialize_multisig(&admin, vec![addr("o1"), addr("o2"), addr("o1")], 2),
        Err(Error::InvalidConfig)
    );
    assert!(c.get_multisig_owners().is_empty());

    assert_eq!(c.initialize_multisig(&admin, vec![addr("o1"), addr("o2")], 2), Ok(()));
    assert_eq!(owner_names(&c), vec!["o1", "o2"]);
    assert_eq!(c.get_multisig_threshold(), 2);
    assert!(c.is_multisig_owner(&addr("o2")));
    assert!(!c.is_multisig_owner(&addr("admin")));

    assert_eq!(c.initialize_multisig(&admin, vec![addr("o3")], 1), Err(Error::AlreadyInitialized));
    assert_eq!(owner_names(&c), vec!["o1", "o2"]);
}

#[test]
fn proposals_are_numbered_in_order() {
    let mut c = ledger();
    let auth = everyone();
    assert_eq!(c.create_proposal(&auth, addr("o1"), ProposalAction::Pause, 10), Ok(0));
    assert_eq!(c.create_proposal(&auth, addr("o2"), ProposalAction::Unpause, 20), Ok(1));
    assert_eq!(c.create_proposal(&auth, addr("o3"), ProposalAction::ChangeThreshold(1), 30), Ok(2));

    let p = c.get_proposal(1).unwrap();
    assert_eq!(p.id, 1);
    assert_eq!(p.proposer.as_str(), "o2");
    assert!(matches!(p.action, ProposalAction::Unpause));
    assert!(p.approvals.is_empty());
    assert_eq!(p.status, ProposalStatus::Pending);
    assert_eq!(p.created_at, 20);
    assert_eq!(p.expires_at, 20 + PROPOSAL_TTL_SECONDS);
    assert_eq!(PROPOSAL_TTL_SECONDS, 604_800);

    assert!(c.get_proposal(3).is_none());
    assert_eq!(c.get_approval_count(3), 0);
    assert!(!c.is_proposal_approved(3));
    assert_eq!(c.get_proposal_status(3, 0), None);
}

#[test]
fn only_owners_who_signed_propose() {
    let mut c = ledger();
    assert_eq!(
        c.create_proposal(&signed(&["admin"]), addr("admin"), ProposalAction::Pause, 10),
        Err(Error::Unauthorized)
    );
    assert_eq!(
        c.create_proposal(&signed(&["o2"]), addr("o1"), ProposalAction::Pause, 10),
        Err(Error::Unauthorized)
    );
    assert!(c.get_proposal(0).is_none());
    assert_eq!(c.create_proposal(&signed(&["o1"]), addr("o1"), ProposalAction::Pause, 10), Ok(0));

    let mut bare = AttestationContract::new();
    assert_eq!(
        bare.create_proposal(&signed(&["o1"]), addr("o1"), ProposalAction::Pause, 10),
        Err(Error::Unauthorized)
    );
}

#[test]
fn two_of_three_owners_carry_a_proposal() {
    let mut c = ledger();
    let auth = everyone();
    let id = c.create_proposal(&auth, addr("o1"), ProposalAction::Pause, 1000).unwrap();
    assert_eq!(c.get_approval_count(id), 0);
    assert_eq!(c.get_proposal_status(id, 1000), Some(ProposalStatus::Pending));

    c.approve_proposal(&auth, addr("o1"), id, 1001).unwrap();
    assert_eq!(c.get_approval_count(id), 1);
    assert!(!c.is_proposal_approved(id));
    assert_eq!(
        c.execute_proposal(&auth, addr("o1"), id, 1002).unwrap_err(),
        Error::ProposalNotApproved
    );
    assert!(!c.is_paused());

    // The same owner again: rejected, and it does not count twice.
    assert_eq!(c.approve_proposal(&auth, addr("o1"), id, 1003), Err(Error::AlreadyExists));
    assert_eq!(c.get_approval_count(id), 1);
    assert!(!c.is_proposal_approved(id));
    assert_eq!(
        c.execute_proposal(&auth, addr("o1"), id, 1004).unwrap_err(),
        Error::ProposalNotApproved
    );

    c.approve_proposal(&auth, addr("o3"), id, 1005).unwrap();
    assert_eq!(c.get_approval_count(id), 2);
    assert!(c.is_proposal_approved(id));
    assert_eq!(c.get_proposal_status(id, 1006), Some(ProposalStatus::Approved));
    let approvals: Vec<String> =
        c.get_proposal(id).unwrap().approvals.iter().map(|a| String::from(a.as_str())).collect();
    assert_eq!(approvals, vec!["o1", "o3"]);

    match c.execute_proposal(&auth, addr("o2"), id, 1007).unwrap() {
        Some(Event::Paused(by)) => assert_eq!(by.as_str(), "o2"),
        other => panic!("unexpected event {:?}", other),
    }
    assert!(c.is_paused());
    assert_eq!(c.get_proposal_status(id, 1008), Some(ProposalStatus::Executed));
    assert_eq!(c.get_proposal(id).unwrap().status, ProposalStatus::Executed);

    // Executed once.
    assert_eq!(
        c.execute_proposal(&auth, addr("o2"), id, 1009).unwrap_err(),
        Error::ProposalAlreadyTerminal
    );
    assert_eq!(c.approve_proposal(&auth, addr("o2"), id, 1009), Err(Error::ProposalAlreadyTerminal));
    assert_eq!(c.reject_proposal(&auth, addr("o2"), id, 1009), Err(Error::ProposalAlreadyTerminal));
}

#[test]
fn approval_needs_an_owner_and_a_proposal() {
    let mut c = ledger();
    let auth = everyone();
    let id = c.create_proposal(&auth, addr("o1"), ProposalAction::Pause, 1000).unwrap();
    assert_eq!(c.approve_proposal(&auth, addr("x"), id, 1001), Err(Error::Unauthorized));
    assert_eq!(c.approve_proposal(&signed(&["o1"]), addr("o2"), id, 1001), Err(Error::Unauthorized));
    assert_eq!(c.approve_proposal(&auth, addr("o1"), 7, 1001), Err(Error::NotFound));
    assert_eq!(c.execute_proposal(&auth, addr("o1"), 7, 1001).unwrap_err(), Error::NotFound);
    assert_eq!(c.execute_proposal(&auth, addr("x"), id, 1001).unwrap_err(), Error::Unauthorized);
    assert_eq!(c.reject_proposal(&auth, addr("o1"), 7, 1001), Err(Error::NotFound));
    assert_eq!(c.get_approval_count(id), 0);
}

#[test]
fn proposals_expire() {
    let mut c = ledger();
    let auth = everyone();
    let id = approved(&mut c, ProposalAction::Pause);
    let end = 1000 + PROPOSAL_TTL_SECONDS;

    assert_eq!(c.get_proposal_status(id, end - 1), Some(ProposalStatus::Approved));
    assert_eq!(c.get_proposal_status(id, end), Some(ProposalStatus::Expired));
    assert_eq!(c.execute_proposal(&auth, addr("o1"), id, end).unwrap_err(), Error::ProposalExpired);
    assert_eq!(c.approve_proposal(&auth, addr("o3"), id, end), Err(Error::ProposalExpired));
    assert_eq!(c.reject_proposal(&auth, addr("o3"), id, end + 5), Err(Error::ProposalExpired));
    assert!(!c.is_paused());
    assert_eq!(c.get_approval_count(id), 2);

    // Short of approvals and out of time: the approvals are asked for first.
    let late = c.create_proposal(&auth, addr("o1"), ProposalAction::Pause, 1000).unwrap();
    assert_eq!(
        c.execute_proposal(&auth, addr("o1"), late, end).unwrap_err(),
        Error::ProposalNotApproved
    );

    // In time it still goes through.
    c.execute_proposal(&auth, addr("o1"), id, end - 1).unwrap();
    assert!(c.is_paused());
}

#[test]
fn proposer_or_owner_may_reject() {
    let mut c = ledger();
    let auth = everyone();
    let id = approved(&mut c, ProposalAction::Pause);
    assert_eq!(c.reject_proposal(&auth, addr("x"), id, 1010), Err(Error::Unauthorized));
    assert_eq!(c.reject_proposal(&signed(&["o1"]), addr("o3"), id, 1010), Err(Error::Unauthorized));
    assert_eq!(c.reject_proposal(&auth, addr("o3"), id, 1010), Ok(()));
    assert_eq!(c.get_proposal_status(id, 1011), Some(ProposalStatus::Rejected));
    assert_eq!(c.get_proposal_status(id, u64::MAX), Some(ProposalStatus::Rejected));
    assert_eq!(
        c.execute_proposal(&auth, addr("o1"), id, 1012).unwrap_err(),
        Error::ProposalAlreadyTerminal
    );
    assert_eq!(c.reject_proposal(&auth, addr("o1"), id, 1012), Err(Error::ProposalAlreadyTerminal));
    assert!(!c.is_paused());

    // A proposer who is no longer an owner may still withdraw the proposal.
    let mine = c.create_proposal(&auth, addr("o3"), ProposalAction::Unpause, 2000).unwrap();
    let remove = approved(&mut c, ProposalAction::RemoveOwner(addr("o3")));
    c.execute_proposal(&auth, addr("o1"), remove, 2001).unwrap();
    assert!(!c.is_multisig_owner(&addr("o3")));
    assert_eq!(c.approve_proposal(&auth, addr("o3"), mine, 2002), Err(Error::Unauthorized));
    assert_eq!(c.reject_proposal(&auth, addr("o3"), mine, 2002), Ok(()));
}

#[test]
fn executed_actions_change_the_pause_flag() {
    let mut c = ledger();
    let auth = everyone();
    let id = approved(&mut c, ProposalAction::Pause);
    c.execute_proposal(&auth, addr("o1"), id, 1010).unwrap();
    assert!(c.is_paused());
    let id = approved(&mut c, ProposalAction::Unpause);
    match c.execute_proposal(&auth, addr("o3"), id, 1010).unwrap() {
        Some(Event::Unpaused(by)) => assert_eq!(by.as_str(), "o3"),
        other => panic!("unexpected event {:?}", other),
    }
    assert!(!c.is_paused());
}

#[test]
fn executed_actions_change_the_owners() {
    let mut c = ledger();
    let auth = everyone();

    let id = approved(&mut c, ProposalAction::AddOwner(addr("o4")));
    assert!(c.execute_proposal(&auth, addr("o1"), id, 1010).unwrap().is_none());
    assert_eq!(owner_names(&c), vec!["o1", "o2", "o3", "o4"]);
    assert_eq!(c.get_multisig_threshold(), 2);

    let id = approved(&mut c, ProposalAction::AddOwner(addr("o2")));
    assert_eq!(c.execute_proposal(&auth, addr("o1"), id, 1010).unwrap_err(), Error::AlreadyExists);
    assert_eq!(owner_names(&c), vec!["o1", "o2", "o3", "o4"]);
    assert_eq!(c.get_proposal(id).unwrap().status, ProposalStatus::Pending);

    let id = approved(&mut c, ProposalAction::RemoveOwner(addr("o2")));
    assert!(c.execute_proposal(&auth, addr("o1"), id, 1010).unwrap().is_none());
    assert_eq!(owner_names(&c), vec!["o1", "o3", "o4"]);
    assert!(!c.is_multisig_owner(&addr("o2")));

    let id = approved_by(&mut c, ProposalAction::RemoveOwner(addr("x")), &["o1", "o3"]);
    assert_eq!(c.execute_proposal(&auth, addr("o1"), id, 1010).unwrap_err(), Error::NotFound);
    assert_eq!(owner_names(&c), vec!["o1", "o3", "o4"]);

    let id = approved_by(&mut c, ProposalAction::ChangeThreshold(3), &["o1", "o3"]);
    assert!(c.execute_proposal(&auth, addr("o1"), id, 1010).unwrap().is_none());
    assert_eq!(c.get_multisig_threshold(), 3);

    // Three owners, threshold three: nobody can leave.
    let auth3 = everyone();
    let id = c.create_proposal(&auth3, addr("o1"), ProposalAction::RemoveOwner(addr("o4")), 1000).unwrap();
    for o in ["o1", "o3", "o4"] {
        c.approve_proposal(&auth3, addr(o), id, 1001).unwrap();
    }
    assert_eq!(c.execute_proposal(&auth3, addr("o1"), id, 1010).unwrap_err(), Error::InvalidConfig);
    assert_eq!(owner_names(&c), vec!["o1", "o3", "o4"]);

    for bad in [0u32, 4] {
        let id = c
            .create_proposal(&auth3, addr("o1"), ProposalAction::ChangeThreshold(bad), 1000)
            .unwrap();
        for o in ["o1", "o3", "o4"] {
            c.approve_proposal(&auth3, addr(o), id, 1001).unwrap();
        }
        assert_eq!(
            c.execute_proposal(&auth3, addr("o1"), id, 1010).unwrap_err(),
            Error::InvalidConfig
        );
        assert_eq!(c.get_multisig_threshold(), 3);
    }
}

#[test]
fn a_changed_threshold_decides_on_open_proposals() {
    let mut c = ledger();
    let auth = everyone();
    let open = c.create_proposal(&auth, addr("o1"), ProposalAction::Pause, 1000).unwrap();
    c.approve_proposal(&auth, addr("o1"), open, 1001).unwrap();
    assert!(!c.is_proposal_approved(open));

    let lower = approved(&mut c, ProposalAction::ChangeThreshold(1));
    c.execute_proposal(&auth, addr("o1"), lower, 1010).unwrap();
    assert!(c.is_proposal_approved(open));
    c.execute_proposal(&auth, addr("o1"), open, 1011).unwrap();
    assert!(c.is_paused());
}

#[test]
fn executed_actions_change_roles() {
    let mut c = ledger();
    let auth = everyone();
    let id = approved(&mut c, ProposalAction::GrantRole(addr("x"), ROLE_ATTESTOR | ROLE_OPERATOR));
    match c.execute_proposal(&auth, addr("o2"), id, 1010).unwrap() {
        Some(Event::RoleGranted(account, role, by)) => {
            assert_eq!(account.as_str(), "x");
            assert_eq!(role, ROLE_ATTESTOR | ROLE_OPERATOR);
            assert_eq!(by.as_str(), "o2");
        },
        other => panic!("unexpected event {:?}", other),
    }
    assert_eq!(c.get_roles(&addr("x")), ROLE_ATTESTOR | ROLE_OPERATOR);

    let id = approved(&mut c, ProposalAction::RevokeRole(addr("admin"), ROLE_ADMIN));
    match c.execute_proposal(&auth, addr("o1"), id, 1010).unwrap() {
        Some(Event::RoleRevoked(account, role, by)) => {
            assert_eq!(account.as_str(), "admin");
            assert_eq!(role, ROLE_ADMIN);
            assert_eq!(by.as_str(), "o1");
        },
        other => panic!("unexpected event {:?}", other),
    }
    assert_eq!(c.get_roles(&addr("admin")), 0);
    assert!(!c.has_role(&addr("admin"), ROLE_ADMIN));
}

#[test]
fn executed_actions_change_the_fee_schedule() {
    let mut c = ledger();
    let auth = everyone();
    let id = approved(
        &mut c,
        ProposalAction::UpdateFeeConfig(addr("token"), addr("collector"), 500, true),
    );
    match c.execute_proposal(&auth, addr("o1"), id, 1010).unwrap() {
        Some(Event::FeeConfigChanged(token, collector, base_fee, enabled, by)) => {
            assert_eq!(token.as_str(), "token");
            assert_eq!(collector.as_str(), "collector");
            assert_eq!(base_fee, 500);
            assert!(enabled);
            assert_eq!(by.as_str(), "o1");
        },
        other => panic!("unexpected event {:?}", other),
    }
    assert_eq!(c.get_fee_quote(&addr("b")), 500);

    let id = approved(&mut c, ProposalAction::UpdateFeeConfig(addr("token"), addr("collector"), -5, true));
    assert_eq!(c.execute_proposal(&auth, addr("o1"), id, 1010).unwrap_err(), Error::InvalidConfig);
    assert_eq!(c.get_fee_config().unwrap().base_fee, 500);
    assert_eq!(c.get_proposal_status(id, 1010), Some(ProposalStatus::Approved));
}

#[test]
fn proposals_survive_export_and_restore() {
    let mut c = ledger();
    let auth = everyone();
    let id = approved(&mut c, ProposalAction::GrantRole(addr("x"), ROLE_OPERATOR));
    let mut restored = AttestationContract::restore(c.export()).unwrap();
    assert_eq!(restored.get_approval_count(id), 2);
    assert_eq!(owner_names(&restored), vec!["o1", "o2", "o3"]);
    assert_eq!(restored.create_proposal(&auth, addr("o1"), ProposalAction::Pause, 5), Ok(id + 1));
    restored.execute_proposal(&auth, addr("o3"), id, 1010).unwrap();
    assert!(restored.has_role(&addr("x"), ROLE_OPERATOR));
}
