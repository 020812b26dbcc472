use veritasor::principal::{all_distinct, contains_address, position_of};
use veritasor::{
    Address, AttestationContract, AuthContext, Error, Event, ROLE_ADMIN, ROLE_ATTESTOR,
    ROLE_BUSINESS, ROLE_OPERATOR,
};

fn addr(name: &str) -> Address {
    Address::from_str(name)
}

fn signed(names: &[&str]) -> AuthContext {
    AuthContext::of(names.iter().map(|n| Address::from_str(n)).collect())
}

fn ledger() -> AttestationContract {
    let mut c = AttestationContract::new();
    c.initialize(&signed(&["admin"]), addr("admin")).unwrap();
    c
}

#[test]
fn role_masks() {
    assert_eq!(ROLE_ADMIN, 1);
    assert_eq!(ROLE_ATTESTOR, 2);
    assert_eq!(ROLE_BUSINESS, 4);
    assert_eq!(ROLE_OPERATOR, 8);
}

#[test]
fn initialize_happens_once() {
    let mut c = AttestationContract::new();
    assert!(c.get_admin().is_none());
    assert_eq!(c.initialize(&AuthContext::none(), addr("admin")), Err(Error::Unauthorized));
    assert_eq!(c.initialize(&signed(&["other"]), addr("admin")), Err(Error::Unauthorized));
    assert!(c.get_admin().is_none());
    assert_eq!(c.get_roles(&addr("admin")), 0);

    assert_eq!(c.initialize(&signed(&["admin"]), addr("admin")), Ok(()));
    assert_eq!(c.get_admin().unwrap().as_str(), "admin");
    assert_eq!(c.get_roles(&addr("admin")), ROLE_ADMIN);
    assert!(c.has_role(&addr("admin"), ROLE_ADMIN));

    assert_eq!(c.initialize(&signed(&["admin"]), addr("admin")), Err(Error::AlreadyInitialized));
    assert_eq!(c.initialize(&signed(&["eve"]), addr("eve")), Err(Error::AlreadyInitialized));
    assert_eq!(c.get_admin().unwrap().as_str(), "admin");
    assert_eq!(c.get_roles(&addr("eve")), 0);
}

#[test]
fn roles_are_granted_and_revoked_by_administrators() {
    let mut c = ledger();
    let admin = signed(&["admin"]);

    let event = c.grant_role(&admin, addr("admin"), addr("x"), ROLE_ATTESTOR).unwrap();
    match event {
        Event::RoleGranted(account, role, by) => {
            assert_eq!(account.as_str(), "x");
            assert_eq!(role, ROLE_ATTESTOR);
            assert_eq!(by.as_str(), "admin");
        },
        other => panic!("unexpected event {:?}", other),
    }
    assert!(c.has_role(&addr("x"), ROLE_ATTESTOR));
    assert!(!c.has_role(&addr("x"), ROLE_ADMIN));
    assert_eq!(c.get_roles(&addr("x")), ROLE_ATTESTOR);

    // Granting again changes nothing.
    c.grant_role(&admin, addr("admin"), addr("x"), ROLE_ATTESTOR).unwrap();
    assert_eq!(c.get_roles(&addr("x")), ROLE_ATTESTOR);

    // Roles add up.
    c.grant_role(&admin, addr("admin"), addr("x"), ROLE_BUSINESS | ROLE_OPERATOR).unwrap();
    assert_eq!(c.get_roles(&addr("x")), ROLE_ATTESTOR | ROLE_BUSINESS | ROLE_OPERATOR);
    assert!(c.has_role(&addr("x"), ROLE_OPERATOR));
    assert!(c.has_role(&addr("x"), ROLE_ADMIN | ROLE_BUSINESS));

    let event = c.revoke_role(&admin, addr("admin"), addr("x"), ROLE_BUSINESS).unwrap();
    match event {
        Event::RoleRevoked(account, role, by) => {
            assert_eq!(account.as_str(), "x");
            assert_eq!(role, ROLE_BUSINESS);
            assert_eq!(by.as_str(), "admin");
        },
        other => panic!("unexpected event {:?}", other),
    }
    assert_eq!(c.get_roles(&addr("x")), ROLE_ATTESTOR | ROLE_OPERATOR);
    // Revoking what is not held changes nothing.
    c.revoke_role(&admin, addr("admin"), addr("x"), ROLE_BUSINESS | ROLE_ADMIN).unwrap();
    assert_eq!(c.get_roles(&addr("x")), ROLE_ATTESTOR | ROLE_OPERATOR);

    // Not for others, and not without a signature.
    let by_x = c.grant_role(&signed(&["x"]), addr("x"), addr("x"), ROLE_ADMIN);
    assert_eq!(by_x.unwrap_err(), Error::Unauthorized);
    let unsigned = c.grant_role(&signed(&["x"]), addr("admin"), addr("x"), ROLE_ADMIN);
    assert_eq!(unsigned.unwrap_err(), Error::Unauthorized);
    let revoke = c.revoke_role(&signed(&["x"]), addr("x"), addr("admin"), ROLE_ADMIN);
    assert_eq!(revoke.unwrap_err(), Error::Unauthorized);
    assert_eq!(c.get_roles(&addr("x")), ROLE_ATTESTOR | ROLE_OPERATOR);
    assert_eq!(c.get_roles(&addr("admin")), ROLE_ADMIN);
}

#[test]
fn a_second_administrator() {
    let mut c = ledger();
    c.grant_role(&signed(&["admin"]), addr("admin"), addr("second"), ROLE_ADMIN).unwrap();
    c.revoke_role(&signed(&["second"]), addr("second"), addr("admin"), ROLE_ADMIN).unwrap();
    assert_eq!(c.get_roles(&addr("admin")), 0);
    let r = c.grant_role(&signed(&["admin"]), addr("admin"), addr("admin"), ROLE_ADMIN);
    assert_eq!(r.unwrap_err(), Error::Unauthorized);
}

#[test]
fn role_holders_are_those_with_a_role() {
    let mut c = ledger();
    let admin = signed(&["admin"]);
    c.grant_role(&admin, addr("admin"), addr("x"), ROLE_ATTESTOR).unwrap();
    c.grant_role(&admin, addr("admin"), addr("y"), ROLE_BUSINESS).unwrap();
    c.grant_role(&admin, addr("admin"), addr("z"), 0).unwrap();
    c.grant_role(&admin, addr("admin"), addr("x"), ROLE_OPERATOR).unwrap();
    let holders = c.get_role_holders();
    let mut names: Vec<&str> = holders.iter().map(|a| a.as_str()).collect();
    names.sort();
    assert_eq!(names, vec!["admin", "x", "y"]);

    c.revoke_role(&admin, addr("admin"), addr("y"), ROLE_BUSINESS).unwrap();
    let holders = c.get_role_holders();
    let mut names: Vec<&str> = holders.iter().map(|a| a.as_str()).collect();
    names.sort();
    assert_eq!(names, vec!["admin", "x"]);

    assert!(AttestationContract::new().get_role_holders().is_empty());
}

#[test]
fn operators_may_pause_and_only_administrators_unpause() {
    let mut c = ledger();
    let admin = signed(&["admin"]);
    c.grant_role(&admin, addr("admin"), addr("op"), ROLE_OPERATOR).unwrap();
    c.grant_role(&admin, addr("admin"), addr("att"), ROLE_ATTESTOR | ROLE_BUSINESS).unwrap();
    assert!(!c.is_paused());

    assert_eq!(c.pause(&signed(&["att"]), addr("att")).unwrap_err(), Error::Unauthorized);
    assert_eq!(c.pause(&signed(&["nobody"]), addr("nobody")).unwrap_err(), Error::Unauthorized);
    assert_eq!(c.pause(&signed(&["att"]), addr("op")).unwrap_err(), Error::Unauthorized);
    assert!(!c.is_paused());

    match c.pause(&signed(&["op"]), addr("op")).unwrap() {
        Event::Paused(by) => assert_eq!(by.as_str(), "op"),
        other => panic!("unexpected event {:?}", other),
    }
    assert!(c.is_paused());

    assert_eq!(c.unpause(&signed(&["op"]), addr("op")).unwrap_err(), Error::Unauthorized);
    assert_eq!(c.unpause(&signed(&["op"]), addr("admin")).unwrap_err(), Error::Unauthorized);
    assert!(c.is_paused());
    match c.unpause(&admin, addr("admin")).unwrap() {
        Event::Unpaused(by) => assert_eq!(by.as_str(), "admin"),
        other => panic!("unexpected event {:?}", other),
    }
    assert!(!c.is_paused());

    c.pause(&admin, addr("admin")).unwrap();
    assert!(c.is_paused());
}

#[test]
fn authentication_context() {
    let auth = signed(&["a", "b", "a"]);
    assert!(auth.authorizes(&addr("a")));
    assert!(auth.authorizes(&addr("b")));
    assert!(!auth.authorizes(&addr("c")));
    assert!(!auth.authorizes(&addr("")));
    assert!(!auth.authorizes(&addr("A")));
    assert!(!AuthContext::none().authorizes(&addr("a")));
}

#[test]
fn addresses() {
    let a = Address::new(String::from("GABC"));
    assert_eq!(a.as_str(), "GABC");
    assert!(a.same(&Address::from_str("GABC")));
    assert!(!a.same(&Address::from_str("GABD")));
    assert!(a.same(&a.clone()));

    let list = vec![addr("x"), addr("y"), addr("x")];
    assert_eq!(position_of(&list, &addr("x")), Some(0));
    assert_eq!(position_of(&list, &addr("y")), Some(1));
    assert_eq!(position_of(&list, &addr("z")), None);
    assert!(contains_address(&list, &addr("y")));
    assert!(!contains_address(&list, &addr("z")));
    assert!(!all_distinct(&list));
    assert!(all_distinct(&vec![addr("x"), addr("y")]));
    assert!(all_distinct(&Vec::new()));
}
