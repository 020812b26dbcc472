use vstd::prelude::*;
use crate::attestation::{attestation_of, MerkleRoot};
use crate::contract::AttestationContract;
use crate::dynamic_fees::{self, admin_of, count_or_zero, stored_admin_error};
use crate::error::Error;
use crate::principal::{Address, AuthContext};
use crate::store::{
    entries_map, entry_keys, DataKey, DataKeyView, Store, StoreValue, StoreValueView, StoreView,
};

verus! {

/// Revenue aggregates that a lender reads beside an attestation.
#[derive(Clone, Copy, Debug)]
pub struct RevenueMetrics {
    /// Whether anything was recorded; the other fields are zero if not.
    pub has_value: bool,
    /// Revenue of the period itself.
    pub period_revenue: i128,
    /// Revenue of the three months up to the period.
    pub trailing_3m_revenue: i128,
    /// Revenue of the twelve months up to the period.
    pub trailing_12m_revenue: i128,
}

/// Whether an attestation is under dispute, and why.
#[derive(Debug)]
pub struct DisputeStatus {
    /// Whether a status was ever recorded.
    pub is_known: bool,
    /// Whether the attestation is disputed.
    pub is_disputed: bool,
    /// The reason given, if any.
    pub reason: Option<String>,
}

/// What a [`DisputeStatus`] holds.
pub struct DisputeStatusView {
    pub is_known: bool,
    pub is_disputed: bool,
    pub reason: Option<Seq<char>>,
}

/// What an optional text holds.
pub open spec fn text_of(t: Option<String>) -> Option<Seq<char>> {
    match t {
        Some(s) => Some(s@),
        None => None,
    }
}

impl View for DisputeStatus {
    type V = DisputeStatusView;

    open spec fn view(&self) -> DisputeStatusView {
        DisputeStatusView {
            is_known: self.is_known,
            is_disputed: self.is_disputed,
            reason: text_of(self.reason),
        }
    }
}

impl Clone for DisputeStatus {
    fn clone(&self) -> (r: Self)
        ensures
            r == *self,
    {
        let reason = match &self.reason {
            Some(s) => Some(s.clone()),
            None => None,
        };
        DisputeStatus { is_known: self.is_known, is_disputed: self.is_disputed, reason }
    }
}

/// An attestation as a lender sees it: the record of the ledger with the
/// revenue aggregates and the dispute status laid over it.
#[derive(Debug)]
pub struct LenderAttestationView {
    pub business: Address,
    pub period: String,
    pub merkle_root: MerkleRoot,
    pub timestamp: u64,
    pub version: u32,
    pub fee_paid: i128,
    pub revenue: RevenueMetrics,
    pub dispute: DisputeStatus,
}

/// What a [`LenderAttestationView`] holds.
pub struct LenderAttestationModel {
    pub business: Seq<char>,
    pub period: Seq<char>,
    pub merkle_root: MerkleRoot,
    pub timestamp: u64,
    pub version: u32,
    pub fee_paid: i128,
    pub revenue: RevenueMetrics,
    pub dispute: DisputeStatusView,
}

impl View for LenderAttestationView {
    type V = LenderAttestationModel;

    open spec fn view(&self) -> LenderAttestationModel {
        LenderAttestationModel {
            business: self.business@,
            period: self.period@,
            merkle_root: self.merkle_root,
            timestamp: self.timestamp,
            version: self.version,
            fee_paid: self.fee_paid,
            revenue: self.revenue,
            dispute: self.dispute@,
        }
    }
}

/// What a lender view that may be missing holds.
pub open spec fn lender_view_of(v: Option<LenderAttestationView>) -> Option<LenderAttestationModel> {
    match v {
        Some(v) => Some(v@),
        None => None,
    }
}

/// A business at a glance: how many attestations the ledger accepted from
/// it, and the latest of those that have revenue aggregates.
#[derive(Debug)]
pub struct BusinessSummary {
    pub business: Address,
    pub attestation_count: u64,
    pub latest_period: Option<String>,
    pub latest_timestamp: Option<u64>,
    pub latest_version: Option<u32>,
    pub latest_fee_paid: Option<i128>,
    pub latest_dispute: DisputeStatus,
}

/// What a [`BusinessSummary`] holds.
pub struct BusinessSummaryModel {
    pub business: Seq<char>,
    pub attestation_count: u64,
    pub latest_period: Option<Seq<char>>,
    pub latest_timestamp: Option<u64>,
    pub latest_version: Option<u32>,
    pub latest_fee_paid: Option<i128>,
    pub latest_dispute: DisputeStatusView,
}

impl View for BusinessSummary {
    type V = BusinessSummaryModel;

    open spec fn view(&self) -> BusinessSummaryModel {
        BusinessSummaryModel {
            business: self.business@,
            attestation_count: self.attestation_count,
            latest_period: text_of(self.latest_period),
            latest_timestamp: self.latest_timestamp,
            latest_version: self.latest_version,
            latest_fee_paid: self.latest_fee_paid,
            latest_dispute: self.latest_dispute@,
        }
    }
}

/// The aggregates that stand for "nothing recorded".
pub open spec fn no_metrics() -> RevenueMetrics {
    RevenueMetrics {
        has_value: false,
        period_revenue: 0,
        trailing_3m_revenue: 0,
        trailing_12m_revenue: 0,
    }
}

/// The status that stands for "nothing recorded".
pub open spec fn no_dispute() -> DisputeStatusView {
    DisputeStatusView { is_known: false, is_disputed: false, reason: None }
}

/// The aggregates recorded for `business` and `period`.
pub open spec fn metrics_of(m: StoreView, business: Seq<char>, period: Seq<char>) -> RevenueMetrics {
    match m.get(DataKeyView::RevenueMetrics(business, period)) {
        Some(StoreValueView::Metrics(r)) => r,
        _ => no_metrics(),
    }
}

/// The dispute status recorded for `business` and `period`.
pub open spec fn dispute_of(m: StoreView, business: Seq<char>, period: Seq<char>) -> DisputeStatusView {
    match m.get(DataKeyView::Dispute(business, period)) {
        Some(StoreValueView::Dispute(d)) => d,
        _ => no_dispute(),
    }
}

/// The period of the latest attestation of `business` that has aggregates.
pub open spec fn latest_period_of(m: StoreView, business: Seq<char>) -> Option<Seq<char>> {
    match m.get(DataKeyView::LatestIndexedPeriod(business)) {
        Some(StoreValueView::Text(p)) => Some(p),
        _ => None,
    }
}

/// The attestation of `business` for `period` as a lender sees it, where
/// the ledger `core` holds one.
pub open spec fn lender_view(
    m: StoreView,
    core: StoreView,
    business: Seq<char>,
    period: Seq<char>,
) -> Option<LenderAttestationModel> {
    match attestation_of(core, business, period) {
        None => None,
        Some(r) => Some(
            LenderAttestationModel {
                business,
                period,
                merkle_root: r.merkle_root,
                timestamp: r.timestamp,
                version: r.version,
                fee_paid: r.fee_paid,
                revenue: metrics_of(m, business, period),
                dispute: dispute_of(m, business, period),
            },
        ),
    }
}

/// Why an administrator's change to the overlay fails, if it does: the
/// overlay was not set up, its administrator did not sign, or the ledger
/// holds no attestation of the business for the period.
pub open spec fn overlay_error(
    m: StoreView,
    core: StoreView,
    auth: Set<Seq<char>>,
    business: Seq<char>,
    period: Seq<char>,
) -> Option<Error> {
    if stored_admin_error(m, auth) is Some {
        stored_admin_error(m, auth)
    } else if attestation_of(core, business, period) is None {
        Some(Error::NotFound)
    } else {
        None
    }
}

/// Why `record_revenue_metrics` fails, if it does: for the reasons of any
/// change to the overlay, or because the ledger no longer holds the
/// attestation that the overlay has as the latest.
pub open spec fn record_metrics_error(
    m: StoreView,
    core: StoreView,
    auth: Set<Seq<char>>,
    business: Seq<char>,
    period: Seq<char>,
) -> Option<Error> {
    if overlay_error(m, core, auth, business, period) is Some {
        overlay_error(m, core, auth, business, period)
    } else if latest_period_of(m, business) is Some && attestation_of(
        core,
        business,
        latest_period_of(m, business)->Some_0,
    ) is None {
        Some(Error::NotFound)
    } else {
        None
    }
}

/// Whether the attestation for `period` takes the place of the latest one:
/// there is none so far, or the new one's timestamp is not before its
/// timestamp.
pub open spec fn becomes_latest(
    m: StoreView,
    core: StoreView,
    business: Seq<char>,
    period: Seq<char>,
) -> bool {
    match latest_period_of(m, business) {
        None => true,
        Some(prev) => attestation_of(core, business, period)->Some_0.timestamp >= attestation_of(
            core,
            business,
            prev,
        )->Some_0.timestamp,
    }
}

/// The overlay after aggregates were recorded.
pub open spec fn after_record_metrics(
    m: StoreView,
    core: StoreView,
    business: Seq<char>,
    period: Seq<char>,
    metrics: RevenueMetrics,
) -> StoreView {
    let m1 = m.insert(
        DataKeyView::RevenueMetrics(business, period),
        StoreValueView::Metrics(metrics),
    );
    if becomes_latest(m, core, business, period) {
        m1.insert(DataKeyView::LatestIndexedPeriod(business), StoreValueView::Text(period))
    } else {
        m1
    }
}

/// The summary of `business`, where the ledger holds the attestation that
/// the overlay has as the latest.
pub open spec fn business_summary(m: StoreView, core: StoreView, business: Seq<char>) -> Option<
    BusinessSummaryModel,
> {
    match latest_period_of(m, business) {
        None => Some(
            BusinessSummaryModel {
                business,
                attestation_count: count_or_zero(core, business),
                latest_period: None,
                latest_timestamp: None,
                latest_version: None,
                latest_fee_paid: None,
                latest_dispute: no_dispute(),
            },
        ),
        Some(period) => match attestation_of(core, business, period) {
            None => None,
            Some(r) => Some(
                BusinessSummaryModel {
                    business,
                    attestation_count: count_or_zero(core, business),
                    latest_period: Some(period),
                    latest_timestamp: Some(r.timestamp),
                    latest_version: Some(r.version),
                    latest_fee_paid: Some(r.fee_paid),
                    latest_dispute: dispute_of(m, business, period),
                },
            ),
        },
    }
}

/// The read side that lenders use: revenue aggregates and dispute flags
/// laid over the attestations of a ledger, which it reads and never
/// changes.
pub struct LenderConsumerContract {
    store: Store,
}

impl View for LenderConsumerContract {
    type V = StoreView;

    closed spec fn view(&self) -> StoreView {
        self.store@
    }
}

impl LenderConsumerContract {
    /// An overlay that holds nothing and was not set up.
    pub fn new() -> (r: Self)
        ensures
            r@ == Map::<DataKeyView, StoreValueView>::empty(),
    {
        LenderConsumerContract { store: Store::new() }
    }

    /// The overlay that holds the given entries; `None` where a key comes
    /// twice.
    pub fn restore(entries: Vec<(DataKey, StoreValue)>) -> (r: Option<Self>)
        ensures
            r is Some <==> entry_keys(entries@).no_duplicates(),
            r is Some ==> r->Some_0@ == entries_map(entries@),
    {
        match Store::from_entries(entries) {
            None => None,
            Some(store) => Some(LenderConsumerContract { store }),
        }
    }

    /// All that the overlay holds, to keep and to `restore` from.
    pub fn export(&self) -> (r: Vec<(DataKey, StoreValue)>)
        ensures
            entries_map(r@) == self@,
            entry_keys(r@).no_duplicates(),
    {
        self.store.recall();
        self.store.entries()
    }

    fn read_revenue_metrics(&self, business: &Address, period: &str) -> (r: RevenueMetrics)
        ensures
            r == metrics_of(self@, business@, period@),
    {
        match self.store.get(&DataKey::RevenueMetrics(business.clone(), period.to_owned())) {
            Some(StoreValue::Metrics(m)) => *m,
            _ => RevenueMetrics {
                has_value: false,
                period_revenue: 0,
                trailing_3m_revenue: 0,
                trailing_12m_revenue: 0,
            },
        }
    }

    fn read_dispute_status(&self, business: &Address, period: &str) -> (r: DisputeStatus)
        ensures
            r@ == dispute_of(self@, business@, period@),
    {
        match self.store.get(&DataKey::Dispute(business.clone(), period.to_owned())) {
            Some(StoreValue::Dispute(d)) => d.clone(),
            _ => DisputeStatus { is_known: false, is_disputed: false, reason: None },
        }
    }

    fn get_latest_indexed_period(&self, business: &Address) -> (r: Option<String>)
        ensures
            text_of(r) == latest_period_of(self@, business@),
    {
        match self.store.get(&DataKey::LatestIndexedPeriod(business.clone())) {
            Some(StoreValue::Text(p)) => Some(p.clone()),
            _ => None,
        }
    }

    /// Sets the overlay up, once: records `admin`, who must have signed the
    /// call, and the address of the ledger that the overlay reads.
    pub fn initialize(&mut self, auth: &AuthContext, admin: Address, core_attestation: Address) -> (r:
        Result<(), Error>)
        ensures
            r == if old(self)@.contains_key(DataKeyView::Admin) {
                Err::<(), Error>(Error::AlreadyInitialized)
            } else if !auth@.contains(admin@) {
                Err::<(), Error>(Error::Unauthorized)
            } else {
                Ok::<(), Error>(())
            },
            r is Err ==> final(self)@ == old(self)@,
            r is Ok ==> final(self)@ == old(self)@.insert(
                DataKeyView::Admin,
                StoreValueView::Principal(admin@),
            ).insert(DataKeyView::CoreAttestation, StoreValueView::Principal(core_attestation@)),
    {
        if self.store.has(&DataKey::Admin) {
            return Err(Error::AlreadyInitialized);
        }
        if !auth.authorizes(&admin) {
            return Err(Error::Unauthorized);
        }
        self.store.set(DataKey::Admin, StoreValue::Principal(admin));
        self.store.set(DataKey::CoreAttestation, StoreValue::Principal(core_attestation));
        Ok(())
    }

    /// Points the overlay at another ledger. The stored administrator
    /// must have signed the call.
    pub fn set_core_attestation(&mut self, auth: &AuthContext, core_attestation: Address) -> (r:
        Result<(), Error>)
        ensures
            match stored_admin_error(old(self)@, auth@) {
                Some(e) => r == Err::<(), Error>(e) && final(self)@ == old(self)@,
                None => r == Ok::<(), Error>(()) && final(self)@ == old(self)@.insert(
                    DataKeyView::CoreAttestation,
                    StoreValueView::Principal(core_attestation@),
                ),
            },
    {
        match dynamic_fees::require_admin(&self.store, auth) {
            Err(e) => {
                return Err(e);
            },
            Ok(_) => {},
        }
        self.store.set(DataKey::CoreAttestation, StoreValue::Principal(core_attestation));
        Ok(())
    }

    /// The administrator who set the overlay up; `None` before that.
    pub fn get_admin(&self) -> (r: Option<Address>)
        ensures
            crate::principal::name_of(r) == admin_of(self@),
    {
        dynamic_fees::get_admin(&self.store)
    }

    /// The address of the ledger that the overlay reads; `None` before the
    /// overlay was set up.
    pub fn get_core_attestation(&self) -> (r: Option<Address>)
        ensures
            crate::principal::name_of(r) == match self@.get(DataKeyView::CoreAttestation) {
                Some(StoreValueView::Principal(a)) => Some(a),
                _ => None,
            },
    {
        match self.store.get(&DataKey::CoreAttestation) {
            Some(StoreValue::Principal(a)) => Some(a.clone()),
            _ => None,
        }
    }

    /// Records the revenue aggregates of `business` for `period`, beside
    /// the attestation that the ledger `core` holds for them. The stored
    /// administrator must have signed the call. Without such an
    /// attestation this is a `NotFound`. The period becomes the latest of
    /// the business unless the latest so far has a later timestamp.
    pub fn record_revenue_metrics(
        &mut self,
        auth: &AuthContext,
        core: &AttestationContract,
        business: Address,
        period: String,
        period_revenue: i128,
        trailing_3m_revenue: i128,
        trailing_12m_revenue: i128,
    ) -> (r: Result<(), Error>)
        ensures
            match record_metrics_error(old(self)@, core@, auth@, business@, period@) {
                Some(e) => r == Err::<(), Error>(e) && final(self)@ == old(self)@,
                None => r == Ok::<(), Error>(()) && final(self)@ == after_record_metrics(
                    old(self)@,
                    core@,
                    business@,
                    period@,
                    RevenueMetrics {
                        has_value: true,
                        period_revenue,
                        trailing_3m_revenue,
                        trailing_12m_revenue,
                    },
                ),
            },
    {
        match dynamic_fees::require_admin(&self.store, auth) {
            Err(e) => {
                return Err(e);
            },
            Ok(_) => {},
        }
        let timestamp: u64 = match core.get_attestation(&business, period.as_str()) {
            None => {
                return Err(Error::NotFound);
            },
            Some((_, ts, _, _)) => ts,
        };
        let is_latest: bool = match self.get_latest_indexed_period(&business) {
            None => true,
            Some(prev_period) => {
                match core.get_attestation(&business, prev_period.as_str()) {
                    None => {
                        return Err(Error::NotFound);
                    },
                    Some((_, prev_ts, _, _)) => timestamp >= prev_ts,
                }
            },
        };
        let metrics = RevenueMetrics {
            has_value: true,
            period_revenue,
            trailing_3m_revenue,
            trailing_12m_revenue,
        };
        self.store.set(
            DataKey::RevenueMetrics(business.clone(), period.clone()),
            StoreValue::Metrics(metrics),
        );
        if is_latest {
            self.store.set(DataKey::LatestIndexedPeriod(business), StoreValue::Text(period));
        }
        Ok(())
    }

    /// Marks the attestation of `business` for `period` as disputed, or as
    /// no longer disputed. The attestation in the ledger is not touched.
    /// The stored administrator must have signed the call. Without such an
    /// attestation in `core` this is a `NotFound`.
    pub fn set_dispute_status(
        &mut self,
        auth: &AuthContext,
        core: &AttestationContract,
        business: Address,
        period: String,
        is_disputed: bool,
        reason: Option<String>,
    ) -> (r: Result<(), Error>)
        ensures
            match overlay_error(old(self)@, core@, auth@, business@, period@) {
                Some(e) => r == Err::<(), Error>(e) && final(self)@ == old(self)@,
                None => r == Ok::<(), Error>(()) && final(self)@ == old(self)@.insert(
                    DataKeyView::Dispute(business@, period@),
                    StoreValueView::Dispute(
                        DisputeStatusView { is_known: true, is_disputed, reason: text_of(reason) },
                    ),
                ),
            },
    {
        match dynamic_fees::require_admin(&self.store, auth) {
            Err(e) => {
                return Err(e);
            },
            Ok(_) => {},
        }
        if core.get_attestation(&business, period.as_str()).is_none() {
            return Err(Error::NotFound);
        }
        let status = DisputeStatus { is_known: true, is_disputed, reason };
        self.store.set(DataKey::Dispute(business, period), StoreValue::Dispute(status));
        Ok(())
    }

    /// The attestation of `business` for `period` as a lender sees it;
    /// `None` where the ledger `core` holds none.
    pub fn get_lender_view(&self, core: &AttestationContract, business: Address, period: String) -> (r:
        Option<LenderAttestationView>)
        ensures
            lender_view_of(r) == lender_view(self@, core@, business@, period@),
    {
        match core.get_attestation(&business, period.as_str()) {
            None => None,
            Some((root, ts, ver, fee)) => {
                let revenue = self.read_revenue_metrics(&business, period.as_str());
                let dispute = self.read_dispute_status(&business, period.as_str());
                Some(
                    LenderAttestationView {
                        business,
                        period,
                        merkle_root: root,
                        timestamp: ts,
                        version: ver,
                        fee_paid: fee,
                        revenue,
                        dispute,
                    },
                )
            },
        }
    }

    /// The revenue aggregates recorded for `business` and `period`; where
    /// none were, `has_value` is false.
    pub fn get_trailing_revenue(&self, business: &Address, period: &str) -> (r: RevenueMetrics)
        ensures
            r == metrics_of(self@, business@, period@),
    {
        self.read_revenue_metrics(business, period)
    }

    /// The dispute status recorded for `business` and `period`; where none
    /// was, `is_known` is false.
    pub fn get_dispute_status(&self, business: &Address, period: &str) -> (r: DisputeStatus)
        ensures
            r@ == dispute_of(self@, business@, period@),
    {
        self.read_dispute_status(business, period)
    }

    /// The summary of `business`: its count in the ledger `core` and the
    /// latest of its attestations that have aggregates. Where the ledger
    /// no longer holds that attestation this is a `NotFound`.
    pub fn get_business_summary(&self, core: &AttestationContract, business: Address) -> (r: Result<
        BusinessSummary,
        Error,
    >)
        ensures
            match business_summary(self@, core@, business@) {
                Some(s) => r is Ok && r->Ok_0@ == s,
                None => r is Err && r->Err_0 == Error::NotFound,
            },
    {
        let count: u64 = match core.get_business_count(&business) {
            Some(c) => c,
            None => 0,
        };
        match self.get_latest_indexed_period(&business) {
            None => Ok(
                BusinessSummary {
                    business,
                    attestation_count: count,
                    latest_period: None,
                    latest_timestamp: None,
                    latest_version: None,
                    latest_fee_paid: None,
                    latest_dispute: DisputeStatus {
                        is_known: false,
                        is_disputed: false,
                        reason: None,
                    },
                },
            ),
            Some(period) => {
                match core.get_attestation(&business, period.as_str()) {
                    None => Err(Error::NotFound),
                    Some((_, ts, ver, fee)) => {
                        let dispute = self.read_dispute_status(&business, period.as_str());
                        Ok(
                            BusinessSummary {
                                business,
                                attestation_count: count,
                                latest_period: Some(period),
                                latest_timestamp: Some(ts),
                                latest_version: Some(ver),
                                latest_fee_paid: Some(fee),
                                latest_dispute: dispute,
                            },
                        )
                    },
                }
            },
        }
    }
}

} // verus!
