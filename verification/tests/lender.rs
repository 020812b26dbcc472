use veritasor::{Address, AttestationContract, AuthContext, Error, LenderConsumerContract};

fn setup() -> (AttestationContract, LenderConsumerContract, Address) {
    let admin = Address::from_str("admin");
    let auth = AuthContext::of(vec![admin.clone()]);

    let mut att = AttestationContract::new();
    att.initialize(&auth, admin.clone()).unwrap();

    let mut lender = LenderConsumerContract::new();
    lender
        .initialize(&auth, admin.clone(), Address::from_str("attestation-contract"))
        .unwrap();

    (att, lender, admin)
}

fn signed_by(admin: &Address, business: &Address) -> AuthContext {
    AuthContext::of(vec![admin.clone(), business.clone()])
}

#[test]
fn lender_view_no_attestation() {
    let (att, lender, _admin) = setup();

    let business = Address::from_str("business");
    let period = String::from("2026-01");

    let view = lender.get_lender_view(&att, business, period);
    assert!(view.is_none());
}

#[test]
#[should_panic(expected = "attestation not found for business and period")]
fn record_metrics_without_attestation_panics() {
    let (att, mut lender, admin) = setup();

    let business = Address::from_str("business");
    let period = String::from("2026-01");
    let auth = signed_by(&admin, &business);

    lender
        .record_revenue_metrics(
            &auth,
            &att,
            business,
            period,
            1_000_000i128,
            3_000_000i128,
            12_000_000i128,
        )
        .expect("attestation not found for business and period");
}

#[test]
fn record_metrics_without_attestation_is_not_found() {
    let (att, mut lender, admin) = setup();
    let business = Address::from_str("business");
    let auth = signed_by(&admin, &business);
    let before = lender.export().len();

    let r = lender.record_revenue_metrics(
        &auth,
        &att,
        business.clone(),
        String::from("2026-01"),
        1_000_000i128,
        3_000_000i128,
        12_000_000i128,
    );
    assert_eq!(r, Err(Error::NotFound));
    assert_eq!(lender.export().len(), before);
    assert!(!lender.get_trailing_revenue(&business, "2026-01").has_value);
}

#[test]
fn record_and_query_revenue_metrics() {
    let (mut att, mut lender, admin) = setup();

    let business = Address::from_str("business");
    let period = String::from("2026-01");
    let root = [1u8; 32];
    let ts = 1_700_000_000u64;
    let auth = signed_by(&admin, &business);

    att.submit_attestation(&auth, business.clone(), period.clone(), root, ts, 1u32)
        .unwrap();

    lender
        .record_revenue_metrics(
            &auth,
            &att,
            business.clone(),
            period.clone(),
            1_000_000i128,
            3_000_000i128,
            12_000_000i128,
        )
        .unwrap();

    let metrics = lender.get_trailing_revenue(&business, &period);
    assert!(metrics.has_value);
    assert_eq!(metrics.period_revenue, 1_000_000i128);
    assert_eq!(metrics.trailing_3m_revenue, 3_000_000i128);
    assert_eq!(metrics.trailing_12m_revenue, 12_000_000i128);

    let view = lender
        .get_lender_view(&att, business.clone(), period.clone())
        .expect("view missing");
    assert_eq!(view.merkle_root, root);
    assert_eq!(view.timestamp, ts);
    assert_eq!(view.version, 1u32);
    assert_eq!(view.fee_paid, 0i128);
    assert!(!view.dispute.is_known);
    assert!(!view.dispute.is_disputed);
    assert!(view.revenue.has_value);
    assert_eq!(view.revenue.period_revenue, 1_000_000i128);
}

#[test]
fn dispute_and_revoke_attestation() {
    let (mut att, mut lender, admin) = setup();

    let business = Address::from_str("business");
    let period = String::from("2026-02");
    let root = [2u8; 32];
    let auth = signed_by(&admin, &business);

    att.submit_attestation(&auth, business.clone(), period.clone(), root, 1_700_000_001u64, 1u32)
        .unwrap();

    let reason = String::from("mismatched revenue proof");
    lender
        .set_dispute_status(
            &auth,
            &att,
            business.clone(),
            period.clone(),
            true,
            Some(reason.clone()),
        )
        .unwrap();

    let status = lender.get_dispute_status(&business, &period);
    assert!(status.is_known);
    assert!(status.is_disputed);
    assert_eq!(status.reason.unwrap(), reason);

    let view = lender
        .get_lender_view(&att, business.clone(), period.clone())
        .expect("view missing");
    assert!(view.dispute.is_known);
    assert!(view.dispute.is_disputed);

    lender
        .set_dispute_status(&auth, &att, business.clone(), period.clone(), false, None)
        .unwrap();
    let cleared = lender.get_dispute_status(&business, &period);
    assert!(cleared.is_known);
    assert!(!cleared.is_disputed);
    assert!(cleared.reason.is_none());
}

#[test]
fn multiple_versions_and_business_summary() {
    let (mut att, mut lender, admin) = setup();

    let business = Address::from_str("business");
    let auth = signed_by(&admin, &business);

    let period1 = String::from("2026-01");
    let root1 = [1u8; 32];
    let ts1 = 1_700_000_000u64;

    let period2 = String::from("2026-02");
    let root2 = [2u8; 32];
    let ts2 = 1_700_086_400u64;

    att.submit_attestation(&auth, business.clone(), period1.clone(), root1, ts1, 1u32)
        .unwrap();
    att.submit_attestation(&auth, business.clone(), period2.clone(), root2, ts2, 2u32)
        .unwrap();

    lender
        .record_revenue_metrics(
            &auth,
            &att,
            business.clone(),
            period1.clone(),
            500_000i128,
            500_000i128,
            500_000i128,
        )
        .unwrap();
    lender
        .record_revenue_metrics(
            &auth,
            &att,
            business.clone(),
            period2.clone(),
            1_000_000i128,
            1_500_000i128,
            1_500_000i128,
        )
        .unwrap();

    let summary = lender.get_business_summary(&att, business.clone()).unwrap();
    assert_eq!(summary.attestation_count, 2);
    let latest_period = summary.latest_period.expect("latest period missing");
    assert_eq!(latest_period, period2);
    assert_eq!(summary.latest_timestamp.unwrap(), ts2);
    assert_eq!(summary.latest_version.unwrap(), 2u32);
}

#[test]
fn an_earlier_attestation_does_not_become_the_latest() {
    let (mut att, mut lender, admin) = setup();
    let business = Address::from_str("business");
    let auth = signed_by(&admin, &business);

    att.submit_attestation(&auth, business.clone(), String::from("2026-02"), [2u8; 32], 200, 1)
        .unwrap();
    att.submit_attestation(&auth, business.clone(), String::from("2026-01"), [1u8; 32], 100, 1)
        .unwrap();

    lender
        .record_revenue_metrics(&auth, &att, business.clone(), String::from("2026-02"), 1, 2, 3)
        .unwrap();
    lender
        .record_revenue_metrics(&auth, &att, business.clone(), String::from("2026-01"), 4, 5, 6)
        .unwrap();

    let summary = lender.get_business_summary(&att, business.clone()).unwrap();
    assert_eq!(summary.latest_period.unwrap(), "2026-02");
    assert_eq!(summary.latest_timestamp.unwrap(), 200);
    assert_eq!(lender.get_trailing_revenue(&business, "2026-01").period_revenue, 4);
}

#[test]
fn summary_of_a_business_without_metrics() {
    let (mut att, lender, admin) = setup();
    let business = Address::from_str("business");
    let auth = signed_by(&admin, &business);
    att.submit_attestation(&auth, business.clone(), String::from("2026-01"), [1u8; 32], 100, 1)
        .unwrap();

    let summary = lender.get_business_summary(&att, business.clone()).unwrap();
    assert_eq!(summary.attestation_count, 1);
    assert!(summary.latest_period.is_none());
    assert!(summary.latest_timestamp.is_none());
    assert!(summary.latest_version.is_none());
    assert!(summary.latest_fee_paid.is_none());
    assert!(!summary.latest_dispute.is_known);
}

#[test]
fn overlay_is_set_up_once_and_only_by_its_admin() {
    let (att, mut lender, admin) = setup();
    let auth = AuthContext::of(vec![admin.clone()]);
    let nobody = AuthContext::none();
    let business = Address::from_str("business");

    assert_eq!(
        lender.initialize(&auth, admin.clone(), Address::from_str("other")),
        Err(Error::AlreadyInitialized)
    );
    assert_eq!(
        lender.set_core_attestation(&nobody, Address::from_str("other")),
        Err(Error::Unauthorized)
    );
    assert_eq!(lender.get_core_attestation().unwrap().as_str(), "attestation-contract");
    assert_eq!(lender.get_admin().unwrap().as_str(), "admin");
    assert!(LenderConsumerContract::new().get_admin().is_none());
    assert!(LenderConsumerContract::new().get_core_attestation().is_none());
    lender.set_core_attestation(&auth, Address::from_str("other")).unwrap();
    assert_eq!(lender.get_core_attestation().unwrap().as_str(), "other");

    assert_eq!(
        lender.set_dispute_status(&nobody, &att, business.clone(), String::from("p"), true, None),
        Err(Error::Unauthorized)
    );
    assert_eq!(
        lender.set_dispute_status(&auth, &att, business.clone(), String::from("p"), true, None),
        Err(Error::NotFound)
    );

    let mut fresh = LenderConsumerContract::new();
    assert_eq!(
        fresh.set_core_attestation(&auth, Address::from_str("x")),
        Err(Error::NotInitialized)
    );
    assert_eq!(
        fresh.initialize(&nobody, admin.clone(), Address::from_str("x")),
        Err(Error::Unauthorized)
    );
}

#[test]
fn overlay_survives_export_and_restore() {
    let (mut att, mut lender, admin) = setup();
    let business = Address::from_str("business");
    let auth = signed_by(&admin, &business);
    att.submit_attestation(&auth, business.clone(), String::from("2026-01"), [1u8; 32], 100, 1)
        .unwrap();
    lender
        .record_revenue_metrics(&auth, &att, business.clone(), String::from("2026-01"), 7, 8, 9)
        .unwrap();

    let restored = LenderConsumerContract::restore(lender.export()).unwrap();
    let metrics = restored.get_trailing_revenue(&business, "2026-01");
    assert!(metrics.has_value);
    assert_eq!(metrics.trailing_12m_revenue, 9);

    let mut twice = lender.export();
    let first = twice[0].clone();
    twice.push(first);
    assert!(LenderConsumerContract::restore(twice).is_none());
}
