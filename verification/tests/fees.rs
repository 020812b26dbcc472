use veritasor::dynamic_fees::{check_brackets, volume_discount_for};
use veritasor::{
    compute_fee, Address, AttestationContract, AuthContext, Error, Event, VolumeBrackets,
};

fn addr(name: &str) -> Address {
    Address::from_str(name)
}

fn signed(names: &[&str]) -> AuthContext {
    AuthContext::of(names.iter().map(|n| Address::from_str(n)).collect())
}

fn ledger() -> AttestationContract {
    let mut c = AttestationContract::new();
    c.initialize(&signed(&["admin"]), addr("admin")).unwrap();
    c
}

fn submit(c: &mut AttestationContract, business: &str, period: &str) -> i128 {
    c.submit_attestation(&signed(&[business]), addr(business), String::from(period), [0u8; 32], 1, 1)
        .unwrap()
        .event
        .fee_paid
}

#[test]
fn compute_fee_takes_the_larger_discount() {
    assert_eq!(compute_fee(1000, 1000, 2000), 800);
    assert_eq!(compute_fee(1000, 2000, 1000), 800);
    assert_eq!(compute_fee(1000, 2000, 2000), 800);
    assert_eq!(compute_fee(1000, 0, 0), 1000);
    assert_eq!(compute_fee(1000, 10_000, 0), 0);
    assert_eq!(compute_fee(1000, 0, 10_000), 0);
    assert_eq!(compute_fee(1000, 5000, 5000), 500);
    assert_eq!(compute_fee(0, 1234, 4321), 0);
}

#[test]
fn compute_fee_rounds_toward_zero() {
    assert_eq!(compute_fee(999, 3333, 0), 666);
    assert_eq!(compute_fee(1, 1, 0), 0);
    assert_eq!(compute_fee(3, 0, 5000), 1);
    assert_eq!(compute_fee(10_001, 1, 0), 9999);
    assert_eq!(compute_fee(19_999, 9999, 0), 1);
    assert_eq!(compute_fee(9_999, 9999, 0), 0);
}

#[test]
fn compute_fee_on_the_largest_amounts() {
    assert_eq!(compute_fee(i128::MAX, 0, 0), i128::MAX);
    assert_eq!(compute_fee(i128::MAX, 10_000, 10_000), 0);
    assert_eq!(compute_fee(i128::MAX, 5000, 0), (1i128 << 126) - 1);
    assert_eq!(compute_fee(i128::MAX - 7, 0, 1), 170124169342123184808514134985512517309);
}

#[test]
fn volume_discount_is_that_of_the_last_bracket_reached() {
    let b = VolumeBrackets { thresholds: vec![10, 50, 100], discounts: vec![500, 1000, 2000] };
    assert_eq!(volume_discount_for(&b, 0), 0);
    assert_eq!(volume_discount_for(&b, 9), 0);
    assert_eq!(volume_discount_for(&b, 10), 500);
    assert_eq!(volume_discount_for(&b, 49), 500);
    assert_eq!(volume_discount_for(&b, 50), 1000);
    assert_eq!(volume_discount_for(&b, 99), 1000);
    assert_eq!(volume_discount_for(&b, 100), 2000);
    assert_eq!(volume_discount_for(&b, u64::MAX), 2000);
    let none = VolumeBrackets { thresholds: Vec::new(), discounts: Vec::new() };
    assert_eq!(volume_discount_for(&none, 5), 0);
    let from_zero = VolumeBrackets { thresholds: vec![0], discounts: vec![300] };
    assert_eq!(volume_discount_for(&from_zero, 0), 300);
}

#[test]
fn bracket_tables_are_checked() {
    assert!(check_brackets(&vec![10, 50, 100], &vec![500, 1000, 2000]));
    assert!(check_brackets(&Vec::new(), &Vec::new()));
    assert!(check_brackets(&vec![0], &vec![10_000]));
    assert!(check_brackets(&vec![1, 2], &vec![2000, 1000]));
    assert!(!check_brackets(&vec![10, 50], &vec![500]));
    assert!(!check_brackets(&vec![10], &vec![500, 600]));
    assert!(!check_brackets(&vec![10, 10], &vec![500, 600]));
    assert!(!check_brackets(&vec![50, 10], &vec![500, 600]));
    assert!(!check_brackets(&vec![1, 3, 2], &vec![1, 2, 3]));
    assert!(!check_brackets(&vec![10], &vec![10_001]));
}

#[test]
fn no_fee_without_a_schedule_or_with_fees_off() {
    let mut c = ledger();
    let admin = signed(&["admin"]);
    assert!(c.get_fee_config().is_none());
    assert_eq!(c.get_fee_quote(&addr("b")), 0);
    assert_eq!(submit(&mut c, "b", "1"), 0);

    c.configure_fees(&admin, addr("token"), addr("collector"), 1000, false).unwrap();
    assert_eq!(c.get_fee_quote(&addr("b")), 0);
    let r = c
        .submit_attestation(&signed(&["b"]), addr("b"), String::from("2"), [0u8; 32], 1, 1)
        .unwrap();
    assert_eq!(r.event.fee_paid, 0);
    assert!(r.charge.is_none());

    let event = c.set_fee_enabled(&admin, true).unwrap();
    match event {
        Event::FeeConfigChanged(token, collector, base_fee, enabled, by) => {
            assert_eq!(token.as_str(), "token");
            assert_eq!(collector.as_str(), "collector");
            assert_eq!(base_fee, 1000);
            assert!(enabled);
            assert_eq!(by.as_str(), "admin");
        },
        other => panic!("unexpected event {:?}", other),
    }
    assert_eq!(c.get_fee_quote(&addr("b")), 1000);
    let config = c.get_fee_config().unwrap();
    assert!(config.enabled);
    assert_eq!(config.base_fee, 1000);
    assert_eq!(config.token.as_str(), "token");
    assert_eq!(config.collector.as_str(), "collector");
}

#[test]
fn a_fee_of_nothing_is_not_charged() {
    let mut c = ledger();
    let admin = signed(&["admin"]);
    c.configure_fees(&admin, addr("token"), addr("collector"), 1000, true).unwrap();
    c.set_tier_discount(&admin, 0, 10_000).unwrap();
    let r = c
        .submit_attestation(&signed(&["b"]), addr("b"), String::from("1"), [0u8; 32], 1, 1)
        .unwrap();
    assert_eq!(r.event.fee_paid, 0);
    assert!(r.charge.is_none());
}

#[test]
fn discounts_do_not_stack() {
    let mut c = ledger();
    let admin = signed(&["admin"]);
    c.configure_fees(&admin, addr("token"), addr("collector"), 1000, true).unwrap();
    c.set_tier_discount(&admin, 1, 1000).unwrap();
    c.set_business_tier(&admin, addr("b"), 1).unwrap();
    c.set_volume_brackets(&admin, vec![2], vec![2000]).unwrap();

    // Below the bracket the tier discount applies.
    assert_eq!(c.get_fee_quote(&addr("b")), 900);
    assert_eq!(submit(&mut c, "b", "1"), 900);
    assert_eq!(submit(&mut c, "b", "2"), 900);
    // From the bracket on the volume discount is the larger: 2000, not 3000.
    assert_eq!(c.get_fee_quote(&addr("b")), 800);
    assert_eq!(submit(&mut c, "b", "3"), 800);

    // A business of tier 0 has the volume discount alone.
    assert_eq!(submit(&mut c, "c", "1"), 1000);
    assert_eq!(submit(&mut c, "c", "2"), 1000);
    assert_eq!(submit(&mut c, "c", "3"), 800);

    // A larger tier discount wins over the volume discount.
    c.set_tier_discount(&admin, 1, 4000).unwrap();
    assert_eq!(c.get_fee_quote(&addr("b")), 600);
}

#[test]
fn tiers_default_to_zero() {
    let mut c = ledger();
    let admin = signed(&["admin"]);
    assert_eq!(c.get_business_tier(&addr("b")), 0);
    c.configure_fees(&admin, addr("token"), addr("collector"), 200, true).unwrap();
    c.set_tier_discount(&admin, 0, 500).unwrap();
    assert_eq!(c.get_fee_quote(&addr("b")), 190);
    c.set_business_tier(&admin, addr("b"), 7).unwrap();
    assert_eq!(c.get_business_tier(&addr("b")), 7);
    assert_eq!(c.get_fee_quote(&addr("b")), 200);
    c.set_tier_discount(&admin, 7, 2500).unwrap();
    assert_eq!(c.get_fee_quote(&addr("b")), 150);
    assert_eq!(c.get_fee_quote(&addr("c")), 190);
}

#[test]
fn fee_settings_are_checked() {
    let mut c = ledger();
    let admin = signed(&["admin"]);
    assert_eq!(
        c.configure_fees(&admin, addr("t"), addr("c"), -1, true).unwrap_err(),
        Error::InvalidConfig
    );
    assert!(c.get_fee_config().is_none());
    c.configure_fees(&admin, addr("t"), addr("c"), 0, true).unwrap();

    assert_eq!(c.set_tier_discount(&admin, 1, 10_001), Err(Error::InvalidConfig));
    assert_eq!(c.set_tier_discount(&admin, 1, 10_000), Ok(()));
    assert_eq!(c.set_volume_brackets(&admin, vec![5, 5], vec![1, 2]), Err(Error::InvalidConfig));
    assert_eq!(c.set_volume_brackets(&admin, vec![5], vec![1, 2]), Err(Error::InvalidConfig));
    assert_eq!(c.set_volume_brackets(&admin, vec![5], vec![10_001]), Err(Error::InvalidConfig));
    assert_eq!(c.set_volume_brackets(&admin, vec![5, 6], vec![1, 2]), Ok(()));
}

#[test]
fn fee_settings_are_for_the_administrator() {
    let mut fresh = AttestationContract::new();
    let admin = signed(&["admin"]);
    assert_eq!(
        fresh.configure_fees(&admin, addr("t"), addr("c"), 1, true).unwrap_err(),
        Error::NotInitialized
    );
    assert_eq!(fresh.set_tier_discount(&admin, 1, 1), Err(Error::NotInitialized));
    assert_eq!(fresh.set_business_tier(&admin, addr("b"), 1), Err(Error::NotInitialized));
    assert_eq!(fresh.set_volume_brackets(&admin, vec![1], vec![1]), Err(Error::NotInitialized));
    assert_eq!(fresh.set_fee_enabled(&admin, true).unwrap_err(), Error::NotInitialized);
    assert!(fresh.get_admin().is_none());

    let mut c = ledger();
    let other = signed(&["b"]);
    assert_eq!(c.get_admin().unwrap().as_str(), "admin");
    assert_eq!(
        c.configure_fees(&other, addr("t"), addr("c"), 1, true).unwrap_err(),
        Error::Unauthorized
    );
    assert_eq!(c.set_tier_discount(&other, 1, 1), Err(Error::Unauthorized));
    assert_eq!(c.set_business_tier(&other, addr("b"), 1), Err(Error::Unauthorized));
    assert_eq!(c.set_volume_brackets(&other, vec![1], vec![1]), Err(Error::Unauthorized));
    assert_eq!(c.set_fee_enabled(&other, true).unwrap_err(), Error::Unauthorized);
    // An out-of-range value from someone else is still a matter of authority.
    assert_eq!(c.set_tier_discount(&other, 1, 20_000), Err(Error::Unauthorized));
    // Without a schedule there is nothing to switch.
    assert_eq!(c.set_fee_enabled(&admin, true).unwrap_err(), Error::NotInitialized);
    assert_eq!(c.get_business_tier(&addr("b")), 0);
}

#[test]
fn configure_fees_reports_the_change() {
    let mut c = ledger();
    let event = c
        .configure_fees(&signed(&["admin"]), addr("token"), addr("collector"), 42, true)
        .unwrap();
    match event {
        Event::FeeConfigChanged(token, collector, base_fee, enabled, by) => {
            assert_eq!(token.as_str(), "token");
            assert_eq!(collector.as_str(), "collector");
            assert_eq!(base_fee, 42);
            assert!(enabled);
            assert_eq!(by.as_str(), "admin");
        },
        other => panic!("unexpected event {:?}", other),
    }
}
