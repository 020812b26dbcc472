use vstd::prelude::*;
use crate::error::Error;
use crate::ledger::{ledger_ok, lemma_insert_ok};
use crate::principal::{Address, AuthContext};
use crate::store::{DataKey, DataKeyView, Store, StoreValue, StoreValueView, StoreView};

verus! {

/// One hundred percent, in basis points.
pub const BPS_DENOMINATOR: u32 = 10_000;

/// The fee schedule: who is paid, in which token, how much before
/// discounts, and whether fees are charged at all.
#[derive(Debug)]
pub struct FeeConfig {
    /// The token in which fees are paid.
    pub token: Address,
    /// The principal that receives fees.
    pub collector: Address,
    /// The fee before discounts, in the token's smallest unit.
    pub base_fee: i128,
    /// Whether fees are charged.
    pub enabled: bool,
}

/// What a [`FeeConfig`] holds.
pub struct FeeConfigView {
    pub token: Seq<char>,
    pub collector: Seq<char>,
    pub base_fee: i128,
    pub enabled: bool,
}

impl View for FeeConfig {
    type V = FeeConfigView;

    open spec fn view(&self) -> FeeConfigView {
        FeeConfigView {
            token: self.token@,
            collector: self.collector@,
            base_fee: self.base_fee,
            enabled: self.enabled,
        }
    }
}

impl Clone for FeeConfig {
    fn clone(&self) -> (r: Self)
        ensures
            r == *self,
    {
        FeeConfig {
            token: self.token.clone(),
            collector: self.collector.clone(),
            base_fee: self.base_fee,
            enabled: self.enabled,
        }
    }
}

/// The volume discount table: `discounts[i]` applies once a business has
/// `thresholds[i]` accepted submissions.
#[derive(Debug)]
pub struct VolumeBrackets {
    pub thresholds: Vec<u64>,
    pub discounts: Vec<u32>,
}

/// What a [`VolumeBrackets`] holds.
pub struct VolumeBracketsView {
    pub thresholds: Seq<u64>,
    pub discounts: Seq<u32>,
}

impl View for VolumeBrackets {
    type V = VolumeBracketsView;

    open spec fn view(&self) -> VolumeBracketsView {
        VolumeBracketsView { thresholds: self.thresholds@, discounts: self.discounts@ }
    }
}

impl Clone for VolumeBrackets {
    fn clone(&self) -> (r: Self)
        ensures
            r@ == self@,
    {
        let thresholds = self.thresholds.clone();
        let discounts = self.discounts.clone();
        assert(thresholds@ =~= self.thresholds@);
        assert(discounts@ =~= self.discounts@);
        VolumeBrackets { thresholds, discounts }
    }
}

/// A well-formed bracket table: as many discounts as thresholds, the
/// thresholds strictly ascending, no discount above one hundred percent.
pub open spec fn brackets_ok(thresholds: Seq<u64>, discounts: Seq<u32>) -> bool {
    &&& thresholds.len() == discounts.len()
    &&& forall|i: int, j: int| 0 <= i < j < thresholds.len() ==> thresholds[i] < thresholds[j]
    &&& forall|i: int| 0 <= i < discounts.len() ==> #[trigger] discounts[i] <= BPS_DENOMINATOR
}

/// The discount of the last bracket whose threshold `count` has reached,
/// zero where it has reached none.
pub open spec fn volume_discount(thresholds: Seq<u64>, discounts: Seq<u32>, count: u64) -> u32
    decreases thresholds.len(),
{
    if thresholds.len() == 0 || thresholds.len() != discounts.len() {
        0
    } else if thresholds.last() <= count {
        discounts.last()
    } else {
        volume_discount(thresholds.drop_last(), discounts.drop_last(), count)
    }
}

/// The discount that applies when a tier discount and a volume discount
/// meet: the larger one. Discounts do not add up.
pub open spec fn effective_discount(tier_discount_bps: u32, volume_discount_bps: u32) -> u32 {
    if tier_discount_bps >= volume_discount_bps {
        tier_discount_bps
    } else {
        volume_discount_bps
    }
}

/// `base_fee` less `discount_bps` basis points of it, rounded toward zero.
pub open spec fn discounted_fee(base_fee: int, discount_bps: int) -> int {
    base_fee * (BPS_DENOMINATOR - discount_bps) / (BPS_DENOMINATOR as int)
}

/// On a well-formed table the volume discount is that of the bracket with
/// the greatest threshold not above `count`, it is zero exactly when every
/// threshold is above `count`, and it never exceeds one hundred percent.
pub proof fn lemma_volume_discount(thresholds: Seq<u64>, discounts: Seq<u32>, count: u64)
    requires
        brackets_ok(thresholds, discounts),
    ensures
        volume_discount(thresholds, discounts, count) <= BPS_DENOMINATOR,
        (forall|i: int| 0 <= i < thresholds.len() ==> thresholds[i] > count) ==> volume_discount(
            thresholds,
            discounts,
            count,
        ) == 0,
        forall|i: int|
            0 <= i < thresholds.len() && #[trigger] thresholds[i] <= count && (i + 1 == thresholds.len()
                || thresholds[i + 1] > count) ==> volume_discount(thresholds, discounts, count)
                == discounts[i],
    decreases thresholds.len(),
{
    if thresholds.len() > 0 {
        let n = thresholds.len() - 1;
        if thresholds.last() <= count {
            assert(discounts[n] <= BPS_DENOMINATOR);
            assert forall|i: int|
                0 <= i < thresholds.len() && #[trigger] thresholds[i] <= count && (i + 1 == thresholds.len()
                    || thresholds[i + 1] > count) implies i == n by {
                if i < n {
                    assert(thresholds[i + 1] <= thresholds[n]);
                }
            }
        } else {
            let t = thresholds.drop_last();
            let d = discounts.drop_last();
            assert(brackets_ok(t, d)) by {
                assert forall|i: int| 0 <= i < d.len() implies #[trigger] d[i] <= BPS_DENOMINATOR by {
                    assert(d[i] == discounts[i]);
                }
            }
            lemma_volume_discount(t, d, count);
            assert forall|i: int|
                0 <= i < thresholds.len() && #[trigger] thresholds[i] <= count && (i + 1 == thresholds.len()
                    || thresholds[i + 1] > count) implies volume_discount(
                thresholds,
                discounts,
                count,
            ) == discounts[i] by {
                assert(i < n);
                assert(t[i] == thresholds[i]);
                assert(d[i] == discounts[i]);
                if i + 1 < n {
                    assert(t[i + 1] == thresholds[i + 1]);
                }
            }
            assert((forall|i: int| 0 <= i < thresholds.len() ==> thresholds[i] > count) ==> (forall|
                i: int,
            | 0 <= i < t.len() ==> t[i] > count)) by {
                if forall|i: int| 0 <= i < thresholds.len() ==> thresholds[i] > count {
                    assert forall|i: int| 0 <= i < t.len() implies t[i] > count by {
                        assert(t[i] == thresholds[i]);
                    }
                }
            }
        }
    }
}

/// The fee owed on `base_fee` under a tier discount and a volume discount,
/// both in basis points: the larger discount applies, the other is ignored.
pub fn compute_fee(base_fee: i128, tier_discount_bps: u32, volume_discount_bps: u32) -> (fee: i128)
    requires
        base_fee >= 0,
        tier_discount_bps <= BPS_DENOMINATOR,
        volume_discount_bps <= BPS_DENOMINATOR,
    ensures
        fee == discounted_fee(
            base_fee as int,
            effective_discount(tier_discount_bps, volume_discount_bps) as int,
        ),
        0 <= fee <= base_fee,
{
    let discount: u32 = if tier_discount_bps >= volume_discount_bps {
        tier_discount_bps
    } else {
        volume_discount_bps
    };
    let keep: i128 = (BPS_DENOMINATOR - discount) as i128;
    let whole: i128 = base_fee / 10_000;
    let rest: i128 = base_fee % 10_000;
    assert(0 <= whole * keep <= base_fee && 0 <= rest * keep <= 100_000_000 && (base_fee * keep)
        / 10_000 == whole * keep + (rest * keep) / 10_000) by (nonlinear_arith)
        requires
            0 <= keep <= 10_000,
            base_fee >= 0,
            whole == base_fee / 10_000,
            rest == base_fee % 10_000,
    ;
    assert(0 <= (base_fee * keep) / 10_000 <= base_fee) by (nonlinear_arith)
        requires
            0 <= keep <= 10_000,
            base_fee >= 0,
    ;
    whole * keep + (rest * keep) / 10_000
}

/// The volume discount that `brackets` grants at `count` accepted
/// submissions.
pub fn volume_discount_for(brackets: &VolumeBrackets, count: u64) -> (discount: u32)
    ensures
        discount == volume_discount(brackets@.thresholds, brackets@.discounts, count),
{
    if brackets.thresholds.len() != brackets.discounts.len() {
        return 0;
    }
    let mut i: usize = brackets.thresholds.len();
    assert(brackets@.thresholds.take(i as int) =~= brackets@.thresholds);
    assert(brackets@.discounts.take(i as int) =~= brackets@.discounts);
    while i > 0
        invariant
            i <= brackets.thresholds@.len(),
            brackets.thresholds@.len() == brackets.discounts@.len(),
            volume_discount(brackets@.thresholds, brackets@.discounts, count) == volume_discount(
                brackets@.thresholds.take(i as int),
                brackets@.discounts.take(i as int),
                count,
            ),
        decreases i,
    {
        let ghost t = brackets@.thresholds.take(i as int);
        let ghost d = brackets@.discounts.take(i as int);
        if brackets.thresholds[i - 1] <= count {
            return brackets.discounts[i - 1];
        }
        assert(t.drop_last() =~= brackets@.thresholds.take(i - 1));
        assert(d.drop_last() =~= brackets@.discounts.take(i - 1));
        i -= 1;
    }
    0
}

/// Whether `thresholds` and `discounts` form a well-formed bracket table.
pub fn check_brackets(thresholds: &Vec<u64>, discounts: &Vec<u32>) -> (ok: bool)
    ensures
        ok == brackets_ok(thresholds@, discounts@),
{
    if thresholds.len() != discounts.len() {
        return false;
    }
    let mut i: usize = 0;
    while i < thresholds.len()
        invariant
            i <= thresholds@.len(),
            thresholds@.len() == discounts@.len(),
            forall|a: int, b: int| 0 <= a < b < i ==> thresholds@[a] < thresholds@[b],
            forall|a: int| 0 <= a < i ==> #[trigger] discounts@[a] <= BPS_DENOMINATOR,
        decreases thresholds@.len() - i,
    {
        if discounts[i] > BPS_DENOMINATOR {
            return false;
        }
        if i > 0 && thresholds[i - 1] >= thresholds[i] {
            assert(!(thresholds@[i - 1] < thresholds@[i as int]));
            return false;
        }
        assert forall|a: int, b: int| 0 <= a < b < i + 1 implies thresholds@[a] < thresholds@[b] by {
            if b == i && a < i - 1 {
                assert(thresholds@[a] < thresholds@[i - 1]);
            }
        }
        i += 1;
    }
    true
}

/// An amount that a business owes for a submission: the token transfer
/// itself is carried out by whoever runs the ledger.
#[derive(Debug)]
pub struct FeeCharge {
    pub token: Address,
    pub payer: Address,
    pub collector: Address,
    pub amount: i128,
}

/// What a [`FeeCharge`] holds.
pub struct FeeChargeView {
    pub token: Seq<char>,
    pub payer: Seq<char>,
    pub collector: Seq<char>,
    pub amount: i128,
}

impl View for FeeCharge {
    type V = FeeChargeView;

    open spec fn view(&self) -> FeeChargeView {
        FeeChargeView {
            token: self.token@,
            payer: self.payer@,
            collector: self.collector@,
            amount: self.amount,
        }
    }
}

/// What a charge that may be missing holds.
pub open spec fn charge_of(c: Option<FeeCharge>) -> Option<FeeChargeView> {
    match c {
        Some(c) => Some(c@),
        None => None,
    }
}

/// The administrator who set the contract up, if it was set up.
pub open spec fn admin_of(m: StoreView) -> Option<Seq<char>> {
    match m.get(DataKeyView::Admin) {
        Some(StoreValueView::Principal(a)) => Some(a),
        _ => None,
    }
}

/// The fee schedule, if there is one.
pub open spec fn fee_config_of(m: StoreView) -> Option<FeeConfigView> {
    match m.get(DataKeyView::FeeConfig) {
        Some(StoreValueView::FeeConfig(c)) => Some(c),
        _ => None,
    }
}

/// The tier of `business`: zero unless one was assigned.
pub open spec fn tier_of(m: StoreView, business: Seq<char>) -> u32 {
    match m.get(DataKeyView::BusinessTier(business)) {
        Some(StoreValueView::Small(t)) => t,
        _ => 0,
    }
}

/// The discount of `tier`, in basis points: zero unless one was set.
pub open spec fn tier_discount_of(m: StoreView, tier: u32) -> u32 {
    match m.get(DataKeyView::TierDiscount(tier)) {
        Some(StoreValueView::Small(d)) => d,
        _ => 0,
    }
}

/// How many submissions of `business` were accepted, if any was.
pub open spec fn count_of(m: StoreView, business: Seq<char>) -> Option<u64> {
    match m.get(DataKeyView::BusinessCount(business)) {
        Some(StoreValueView::Count(c)) => Some(c),
        _ => None,
    }
}

/// How many submissions of `business` were accepted.
pub open spec fn count_or_zero(m: StoreView, business: Seq<char>) -> u64 {
    match count_of(m, business) {
        Some(c) => c,
        None => 0,
    }
}

/// The volume discount at `count` accepted submissions: zero while no
/// bracket table is stored.
pub open spec fn volume_discount_at(m: StoreView, count: u64) -> u32 {
    match m.get(DataKeyView::VolumeBrackets) {
        Some(StoreValueView::Brackets(b)) => volume_discount(b.thresholds, b.discounts, count),
        _ => 0,
    }
}

/// The discount that `business` gets on its next submission: the larger of
/// its tier's discount and the volume discount at its count.
pub open spec fn discount_of(m: StoreView, business: Seq<char>) -> u32 {
    effective_discount(
        tier_discount_of(m, tier_of(m, business)),
        volume_discount_at(m, count_or_zero(m, business)),
    )
}

/// The fee that `business` owes for its next submission: nothing while no
/// fee schedule is stored or fees are switched off.
pub open spec fn fee_quote(m: StoreView, business: Seq<char>) -> int {
    match fee_config_of(m) {
        Some(c) => if c.enabled {
            discounted_fee(c.base_fee as int, discount_of(m, business) as int)
        } else {
            0
        },
        None => 0,
    }
}

/// The charge that goes with a fee: none for a fee of nothing.
pub open spec fn charge_for(m: StoreView, business: Seq<char>) -> Option<FeeChargeView> {
    match fee_config_of(m) {
        Some(c) => if fee_quote(m, business) > 0 {
            Some(
                FeeChargeView {
                    token: c.token,
                    payer: business,
                    collector: c.collector,
                    amount: fee_quote(m, business) as i128,
                },
            )
        } else {
            None
        },
        None => None,
    }
}

/// Whether the stored administrator signed the call.
pub open spec fn stored_admin_call(m: StoreView, auth: Set<Seq<char>>) -> bool {
    admin_of(m) is Some && auth.contains(admin_of(m)->Some_0)
}

/// What `require_admin` answers: the error, if any.
pub open spec fn stored_admin_error(m: StoreView, auth: Set<Seq<char>>) -> Option<Error> {
    if admin_of(m) is None {
        Some(Error::NotInitialized)
    } else if !auth.contains(admin_of(m)->Some_0) {
        Some(Error::Unauthorized)
    } else {
        None
    }
}

/// In a store that is in order no discount exceeds one hundred percent and
/// no fee is negative or above the base fee.
pub proof fn lemma_fee_quote_bounds(m: StoreView, business: Seq<char>)
    requires
        ledger_ok(m),
    ensures
        discount_of(m, business) <= BPS_DENOMINATOR,
        0 <= fee_quote(m, business),
        fee_config_of(m) is Some ==> fee_quote(m, business) <= fee_config_of(m)->Some_0.base_fee,
        fee_config_of(m) is None ==> fee_quote(m, business) == 0,
{
    let tier = tier_of(m, business);
    if m.contains_key(DataKeyView::TierDiscount(tier)) {
        assert(crate::ledger::entry_ok(
            DataKeyView::TierDiscount(tier),
            m[DataKeyView::TierDiscount(tier)],
        ));
    }
    if m.contains_key(DataKeyView::VolumeBrackets) {
        assert(crate::ledger::entry_ok(DataKeyView::VolumeBrackets, m[DataKeyView::VolumeBrackets]));
        let b = m[DataKeyView::VolumeBrackets]->Brackets_0;
        lemma_volume_discount(b.thresholds, b.discounts, count_or_zero(m, business));
    }
    if m.contains_key(DataKeyView::FeeConfig) {
        assert(crate::ledger::entry_ok(DataKeyView::FeeConfig, m[DataKeyView::FeeConfig]));
        let base = fee_config_of(m)->Some_0.base_fee as int;
        let keep = BPS_DENOMINATOR - discount_of(m, business);
        assert(0 <= (base * keep) / 10_000 <= base) by (nonlinear_arith)
            requires
                0 <= keep <= 10_000,
                base >= 0,
        ;
    }
}

/// The administrator who set the contract up, if it was set up.
pub fn get_admin(store: &Store) -> (r: Option<Address>)
    ensures
        crate::principal::name_of(r) == admin_of(store@),
{
    match store.get(&DataKey::Admin) {
        Some(StoreValue::Principal(a)) => Some(a.clone()),
        _ => None,
    }
}

/// The guard of the fee schedule's entry points: the contract must have
/// been set up, and its administrator must have signed the call. Answers
/// with the administrator.
pub fn require_admin(store: &Store, auth: &AuthContext) -> (r: Result<Address, Error>)
    ensures
        match stored_admin_error(store@, auth@) {
            Some(e) => r == Err::<Address, Error>(e),
            None => r is Ok && Some(r->Ok_0@) == admin_of(store@),
        },
{
    match get_admin(store) {
        None => Err(Error::NotInitialized),
        Some(admin) => {
            if auth.authorizes(&admin) {
                Ok(admin)
            } else {
                Err(Error::Unauthorized)
            }
        },
    }
}

/// The fee schedule, if there is one.
pub fn get_fee_config(store: &Store) -> (r: Option<FeeConfig>)
    ensures
        fee_config_view(r) == fee_config_of(store@),
{
    match store.get(&DataKey::FeeConfig) {
        Some(StoreValue::FeeConfig(c)) => Some(c.clone()),
        _ => None,
    }
}

/// What a fee schedule that may be missing holds.
pub open spec fn fee_config_view(c: Option<FeeConfig>) -> Option<FeeConfigView> {
    match c {
        Some(c) => Some(c@),
        None => None,
    }
}

/// Replaces the fee schedule.
pub fn set_fee_config(store: &mut Store, config: FeeConfig)
    requires
        config.base_fee >= 0,
    ensures
        final(store)@ == old(store)@.insert(
            DataKeyView::FeeConfig,
            StoreValueView::FeeConfig(config@),
        ),
        ledger_ok(old(store)@) ==> ledger_ok(final(store)@),
{
    proof {
        if ledger_ok(store@) {
            lemma_insert_ok(store@, DataKeyView::FeeConfig, StoreValueView::FeeConfig(config@));
        }
    }
    store.set(DataKey::FeeConfig, StoreValue::FeeConfig(config));
}

/// The tier of `business`.
pub fn get_business_tier(store: &Store, business: &Address) -> (r: u32)
    ensures
        r == tier_of(store@, business@),
{
    match store.get(&DataKey::BusinessTier(business.clone())) {
        Some(StoreValue::Small(t)) => *t,
        _ => 0,
    }
}

/// The discount of `tier`, in basis points.
pub fn get_tier_discount(store: &Store, tier: u32) -> (r: u32)
    ensures
        r == tier_discount_of(store@, tier),
{
    match store.get(&DataKey::TierDiscount(tier)) {
        Some(StoreValue::Small(d)) => *d,
        _ => 0,
    }
}

/// How many submissions of `business` were accepted, if any was.
pub fn get_business_count(store: &Store, business: &Address) -> (r: Option<u64>)
    ensures
        r == count_of(store@, business@),
{
    match store.get(&DataKey::BusinessCount(business.clone())) {
        Some(StoreValue::Count(c)) => Some(*c),
        _ => None,
    }
}

/// Raises the count of `business` by one: to be called once for each
/// accepted submission, in the order of the submissions.
pub fn increment_business_count(store: &mut Store, business: &Address)
    requires
        count_or_zero(old(store)@, business@) < u64::MAX,
    ensures
        final(store)@ == old(store)@.insert(
            DataKeyView::BusinessCount(business@),
            StoreValueView::Count((count_or_zero(old(store)@, business@) + 1) as u64),
        ),
{
    let count: u64 = match get_business_count(store, business) {
        Some(c) => c,
        None => 0,
    };
    store.set(DataKey::BusinessCount(business.clone()), StoreValue::Count(count + 1));
}

/// The volume discount at `count` accepted submissions.
pub fn get_volume_discount(store: &Store, count: u64) -> (r: u32)
    ensures
        r == volume_discount_at(store@, count),
{
    match store.get(&DataKey::VolumeBrackets) {
        Some(StoreValue::Brackets(b)) => volume_discount_for(b, count),
        _ => 0,
    }
}

/// The fee that `business` owes for its next submission.
pub fn calculate_fee(store: &Store, business: &Address) -> (fee: i128)
    requires
        ledger_ok(store@),
    ensures
        fee == fee_quote(store@, business@),
{
    proof {
        lemma_fee_quote_bounds(store@, business@);
        if store@.contains_key(DataKeyView::FeeConfig) {
            assert(crate::ledger::entry_ok(DataKeyView::FeeConfig, store@[DataKeyView::FeeConfig]));
        }
        let tier = tier_of(store@, business@);
        if store@.contains_key(DataKeyView::TierDiscount(tier)) {
            assert(crate::ledger::entry_ok(
                DataKeyView::TierDiscount(tier),
                store@[DataKeyView::TierDiscount(tier)],
            ));
        }
        if store@.contains_key(DataKeyView::VolumeBrackets) {
            assert(crate::ledger::entry_ok(
                DataKeyView::VolumeBrackets,
                store@[DataKeyView::VolumeBrackets],
            ));
            let b = store@[DataKeyView::VolumeBrackets]->Brackets_0;
            lemma_volume_discount(b.thresholds, b.discounts, count_or_zero(store@, business@));
        }
    }
    match store.get(&DataKey::FeeConfig) {
        Some(StoreValue::FeeConfig(config)) => {
            if !config.enabled {
                return 0;
            }
            let tier: u32 = get_business_tier(store, business);
            let tier_discount: u32 = get_tier_discount(store, tier);
            let count: u64 = match get_business_count(store, business) {
                Some(c) => c,
                None => 0,
            };
            let volume: u32 = get_volume_discount(store, count);
            compute_fee(config.base_fee, tier_discount, volume)
        },
        _ => 0,
    }
}

/// The fee that `business` owes for its next submission, and the charge
/// that goes with it.
pub fn collect_fee(store: &Store, business: &Address) -> (r: (i128, Option<FeeCharge>))
    requires
        ledger_ok(store@),
    ensures
        r.0 == fee_quote(store@, business@),
        charge_of(r.1) == charge_for(store@, business@),
{
    let fee: i128 = calculate_fee(store, business);
    if fee > 0 {
        match store.get(&DataKey::FeeConfig) {
            Some(StoreValue::FeeConfig(config)) => {
                let charge = FeeCharge {
                    token: config.token.clone(),
                    payer: business.clone(),
                    collector: config.collector.clone(),
                    amount: fee,
                };
                (fee, Some(charge))
            },
            _ => (fee, None),
        }
    } else {
        (fee, None)
    }
}

} // verus!
