use vstd::prelude::*;
use crate::access_control::{admin_call, paused};
use crate::dynamic_fees::{
    charge_for, charge_of, collect_fee, count_or_zero, fee_quote, increment_business_count,
    FeeCharge,
    FeeChargeView,
};
use crate::error::Error;
use crate::events::{AttestationSubmittedEvent, AttestationSubmittedView};
use crate::extended_metadata::{basis_of, currency_code_ok, AttestationMetadataView};
use crate::ledger::{counter_weight, entry_ok, ledger_ok, lemma_insert_counted_ok};
use crate::principal::{contains_address, lemma_push_distinct, principals, Address};
use crate::store::{DataKey, DataKeyView, Store, StoreValue, StoreValueView, StoreView};

verus! {

/// A Merkle root: the fixed-size hash that stands for a revenue dataset.
/// The ledger stores and compares roots; it never recomputes one.
pub type MerkleRoot = [u8; 32];

/// What the ledger keeps of one attestation.
#[derive(Clone, Copy, Debug)]
pub struct AttestationRecord {
    /// The root that was attested.
    pub merkle_root: MerkleRoot,
    /// When the attestation was made, as its submitter gave it.
    pub timestamp: u64,
    /// The schema version; a migration raises it.
    pub version: u32,
    /// The fee that was charged on submission.
    pub fee_paid: i128,
}

/// Whether two roots are the same.
pub fn same_root(a: &MerkleRoot, b: &MerkleRoot) -> (r: bool)
    ensures
        r == (*a == *b),
{
    let mut i: usize = 0;
    while i < 32
        invariant
            i <= 32,
            forall|j: int| 0 <= j < i ==> a[j] == b[j],
        decreases 32 - i,
    {
        if a[i] != b[i] {
            return false;
        }
        i += 1;
    }
    assert(*a =~= *b);
    true
}

/// One attestation to submit: what a single submission takes, as an item
/// of a batch.
#[derive(Debug)]
pub struct BatchAttestationItem {
    /// The business that attests.
    pub business: Address,
    /// The period that the attestation is for, such as `2026-02`.
    pub period: String,
    /// The root that is attested.
    pub merkle_root: MerkleRoot,
    /// When the attestation was made.
    pub timestamp: u64,
    /// The schema version.
    pub version: u32,
}

/// What a [`BatchAttestationItem`] holds.
pub struct Submission {
    pub business: Seq<char>,
    pub period: Seq<char>,
    pub merkle_root: MerkleRoot,
    pub timestamp: u64,
    pub version: u32,
}

impl View for BatchAttestationItem {
    type V = Submission;

    open spec fn view(&self) -> Submission {
        Submission {
            business: self.business@,
            period: self.period@,
            merkle_root: self.merkle_root,
            timestamp: self.timestamp,
            version: self.version,
        }
    }
}

impl Clone for BatchAttestationItem {
    fn clone(&self) -> (r: Self)
        ensures
            r == *self,
    {
        BatchAttestationItem {
            business: self.business.clone(),
            period: self.period.clone(),
            merkle_root: self.merkle_root,
            timestamp: self.timestamp,
            version: self.version,
        }
    }
}

/// What the items of a batch hold, in the batch's order.
pub open spec fn submissions(items: Seq<BatchAttestationItem>) -> Seq<Submission> {
    items.map_values(|i: BatchAttestationItem| i@)
}

/// What an accepted submission hands back: the event to publish and the
/// fee to charge, where one is owed.
#[derive(Debug)]
pub struct SubmitReceipt {
    pub event: AttestationSubmittedEvent,
    pub charge: Option<FeeCharge>,
}

/// What a [`SubmitReceipt`] holds.
pub struct SubmitReceiptView {
    pub event: AttestationSubmittedView,
    pub charge: Option<FeeChargeView>,
}

impl View for SubmitReceipt {
    type V = SubmitReceiptView;

    open spec fn view(&self) -> SubmitReceiptView {
        SubmitReceiptView { event: self.event@, charge: charge_of(self.charge) }
    }
}

/// What a list of receipts holds, in the list's order.
pub open spec fn receipts(list: Seq<SubmitReceipt>) -> Seq<SubmitReceiptView> {
    list.map_values(|r: SubmitReceipt| r@)
}

/// The key of a submission's attestation.
pub open spec fn attestation_key(s: Submission) -> DataKeyView {
    DataKeyView::Attestation(s.business, s.period)
}

/// Whether an attestation of `business` for `period` is stored.
pub open spec fn has_attestation(m: StoreView, business: Seq<char>, period: Seq<char>) -> bool {
    m.contains_key(DataKeyView::Attestation(business, period))
}

/// The attestation of `business` for `period`, if one is stored.
pub open spec fn attestation_of(m: StoreView, business: Seq<char>, period: Seq<char>) -> Option<
    AttestationRecord,
> {
    match m.get(DataKeyView::Attestation(business, period)) {
        Some(StoreValueView::Attestation(r)) => Some(r),
        _ => None,
    }
}

/// Whether the attestation of `business` for `period` was revoked: false
/// where nothing is known of it.
pub open spec fn revoked_in(m: StoreView, business: Seq<char>, period: Seq<char>) -> bool {
    m.get(DataKeyView::Revoked(business, period)) == Some(StoreValueView::Flag(true))
}

/// The metadata of the attestation of `business` for `period`, if any was
/// stored with it.
pub open spec fn metadata_of(m: StoreView, business: Seq<char>, period: Seq<char>) -> Option<
    AttestationMetadataView,
> {
    match m.get(DataKeyView::Metadata(business, period)) {
        Some(StoreValueView::Metadata(d)) => Some(d),
        _ => None,
    }
}

/// Whether `root` is the stored root of an attestation that was not
/// revoked.
pub open spec fn verified_in(
    m: StoreView,
    business: Seq<char>,
    period: Seq<char>,
    root: MerkleRoot,
) -> bool {
    &&& !revoked_in(m, business, period)
    &&& attestation_of(m, business, period) is Some
    &&& attestation_of(m, business, period)->Some_0.merkle_root == root
}

/// Why a single submission fails, if it does: the pause comes first, then
/// the business's signature, then the key.
pub open spec fn submit_error(m: StoreView, auth: Set<Seq<char>>, s: Submission) -> Option<Error> {
    if paused(m) {
        Some(Error::Paused)
    } else if !auth.contains(s.business) {
        Some(Error::Unauthorized)
    } else if has_attestation(m, s.business, s.period) {
        Some(Error::AlreadyExists)
    } else {
        None
    }
}

/// The record that an accepted submission stores: what was submitted, and
/// the fee that the business owed at that moment.
pub open spec fn submitted_record(m: StoreView, s: Submission) -> AttestationRecord {
    AttestationRecord {
        merkle_root: s.merkle_root,
        timestamp: s.timestamp,
        version: s.version,
        fee_paid: fee_quote(m, s.business) as i128,
    }
}

/// The store after an accepted submission: the record is stored and the
/// business's count is one higher.
pub open spec fn after_submit(m: StoreView, s: Submission) -> StoreView {
    m.insert(attestation_key(s), StoreValueView::Attestation(submitted_record(m, s))).insert(
        DataKeyView::BusinessCount(s.business),
        StoreValueView::Count((count_or_zero(m, s.business) + 1) as u64),
    )
}

/// What an accepted submission hands back.
pub open spec fn submit_receipt(m: StoreView, s: Submission) -> SubmitReceiptView {
    SubmitReceiptView {
        event: AttestationSubmittedView {
            business: s.business,
            period: s.period,
            merkle_root: s.merkle_root,
            timestamp: s.timestamp,
            version: s.version,
            fee_paid: fee_quote(m, s.business) as i128,
        },
        charge: charge_for(m, s.business),
    }
}

/// Stores one submission whose key is free, and raises the business's
/// count: the step that single and batch submissions share.
pub fn record_submission(store: &mut Store, item: &BatchAttestationItem) -> (r: SubmitReceipt)
    requires
        ledger_ok(old(store)@),
        !has_attestation(old(store)@, item@.business, item@.period),
    ensures
        ledger_ok(final(store)@),
        final(store)@ == after_submit(old(store)@, item@),
        r@ == submit_receipt(old(store)@, item@),
{
    let (fee, charge) = collect_fee(store, &item.business);
    // The count cannot overflow: it is below the number of keys.
    store.recall();
    proof {
        let k = DataKeyView::BusinessCount(item@.business);
        if store@.contains_key(k) {
            assert(entry_ok(k, store@[k]));
            assert(counter_weight(k, store@[k]) <= store@.dom().len());
        }
        lemma_insert_counted_ok(
            store@,
            attestation_key(item@),
            StoreValueView::Attestation(submitted_record(store@, item@)),
            k,
            (count_or_zero(store@, item@.business) + 1) as u64,
        );
    }
    let record = AttestationRecord {
        merkle_root: item.merkle_root,
        timestamp: item.timestamp,
        version: item.version,
        fee_paid: fee,
    };
    store.set(
        DataKey::Attestation(item.business.clone(), item.period.clone()),
        StoreValue::Attestation(record),
    );
    increment_business_count(store, &item.business);
    SubmitReceipt {
        event: AttestationSubmittedEvent {
            business: item.business.clone(),
            period: item.period.clone(),
            merkle_root: item.merkle_root,
            timestamp: item.timestamp,
            version: item.version,
            fee_paid: fee,
        },
        charge,
    }
}

/// Why a submission with metadata fails, if it does: for the reasons of a
/// plain submission, or for its currency code.
pub open spec fn submit_with_metadata_error(
    m: StoreView,
    auth: Set<Seq<char>>,
    s: Submission,
    currency_code: Seq<char>,
) -> Option<Error> {
    if submit_error(m, auth, s) is Some {
        submit_error(m, auth, s)
    } else if !currency_code_ok(currency_code) {
        Some(Error::InvalidConfig)
    } else {
        None
    }
}

/// The store after an accepted submission with metadata: that of a plain
/// submission, with the metadata stored under the same business and period.
pub open spec fn after_submit_with_metadata(
    m: StoreView,
    s: Submission,
    currency_code: Seq<char>,
    is_net: bool,
) -> StoreView {
    after_submit(m, s).insert(
        DataKeyView::Metadata(s.business, s.period),
        StoreValueView::Metadata(
            AttestationMetadataView { currency_code, basis: basis_of(is_net) },
        ),
    )
}

/// Why a revocation fails, if it does.
pub open spec fn revoke_error(
    m: StoreView,
    auth: Set<Seq<char>>,
    caller: Seq<char>,
    business: Seq<char>,
    period: Seq<char>,
) -> Option<Error> {
    if !admin_call(m, auth, caller) {
        Some(Error::Unauthorized)
    } else if attestation_of(m, business, period) is None {
        Some(Error::NotFound)
    } else {
        None
    }
}

/// The store after a revocation: the flag is set, the record is as it was.
pub open spec fn after_revoke(m: StoreView, business: Seq<char>, period: Seq<char>) -> StoreView {
    m.insert(DataKeyView::Revoked(business, period), StoreValueView::Flag(true))
}

/// Why a migration fails, if it does.
pub open spec fn migrate_error(
    m: StoreView,
    auth: Set<Seq<char>>,
    caller: Seq<char>,
    business: Seq<char>,
    period: Seq<char>,
    new_version: u32,
) -> Option<Error> {
    if !admin_call(m, auth, caller) {
        Some(Error::Unauthorized)
    } else if attestation_of(m, business, period) is None {
        Some(Error::NotFound)
    } else if new_version <= attestation_of(m, business, period)->Some_0.version {
        Some(Error::VersionNotIncreasing)
    } else {
        None
    }
}

/// A record after a migration: a new root and version, the timestamp and
/// the fee as they were.
pub open spec fn migrated_record(
    old: AttestationRecord,
    new_merkle_root: MerkleRoot,
    new_version: u32,
) -> AttestationRecord {
    AttestationRecord {
        merkle_root: new_merkle_root,
        timestamp: old.timestamp,
        version: new_version,
        fee_paid: old.fee_paid,
    }
}

/// The store after a migration.
pub open spec fn after_migrate(
    m: StoreView,
    business: Seq<char>,
    period: Seq<char>,
    new_merkle_root: MerkleRoot,
    new_version: u32,
) -> StoreView {
    m.insert(
        DataKeyView::Attestation(business, period),
        StoreValueView::Attestation(
            migrated_record(
                attestation_of(m, business, period)->Some_0,
                new_merkle_root,
                new_version,
            ),
        ),
    )
}

/// The record as the four values that a reader of the ledger gets: root,
/// timestamp, version, fee paid.
pub open spec fn record_values(r: Option<AttestationRecord>) -> Option<(MerkleRoot, u64, u32, i128)> {
    match r {
        Some(r) => Some((r.merkle_root, r.timestamp, r.version, r.fee_paid)),
        None => None,
    }
}

/// The attestation of `business` for `period`, if one is stored.
pub fn read_attestation(store: &Store, business: &Address, period: &str) -> (r: Option<
    AttestationRecord,
>)
    ensures
        r == attestation_of(store@, business@, period@),
{
    match store.get(&DataKey::Attestation(business.clone(), period.to_owned())) {
        Some(StoreValue::Attestation(r)) => Some(*r),
        _ => None,
    }
}

/// Whether the attestation of `business` for `period` was revoked.
pub fn read_revoked(store: &Store, business: &Address, period: &str) -> (r: bool)
    ensures
        r == revoked_in(store@, business@, period@),
{
    match store.get(&DataKey::Revoked(business.clone(), period.to_owned())) {
        Some(StoreValue::Flag(b)) => *b,
        _ => false,
    }
}

/// Whether two submissions are for the same business and period.
pub open spec fn same_key(a: Submission, b: Submission) -> bool {
    a.business == b.business && a.period == b.period
}

/// Whether the key of item `i` comes again later in the batch.
pub open spec fn repeated_later(items: Seq<Submission>, i: int) -> bool {
    exists|j: int| i < j < items.len() && same_key(items[i], #[trigger] items[j])
}

/// What is wrong with item `i` of a batch, if anything: its key comes again
/// later in the batch, or an attestation is stored under it.
pub open spec fn item_error(m: StoreView, items: Seq<Submission>, i: int) -> Option<Error> {
    if repeated_later(items, i) {
        Some(Error::DuplicateInBatch)
    } else if has_attestation(m, items[i].business, items[i].period) {
        Some(Error::AlreadyExists)
    } else {
        None
    }
}

/// What is wrong with the first item from `from` on that has anything
/// wrong with it.
pub open spec fn first_item_error(m: StoreView, items: Seq<Submission>, from: int) -> Option<Error>
    decreases items.len() - from,
{
    if from < 0 || from >= items.len() {
        None
    } else if item_error(m, items, from) is Some {
        item_error(m, items, from)
    } else {
        first_item_error(m, items, from + 1)
    }
}

/// Whether every business of the batch signed the call.
pub open spec fn all_signed(auth: Set<Seq<char>>, items: Seq<Submission>) -> bool {
    forall|i: int| 0 <= i < items.len() ==> auth.contains((#[trigger] items[i]).business)
}

/// Why a batch fails, if it does: the pause comes first, then the empty
/// batch, then the signatures of all its businesses, then its items in
/// their order.
pub open spec fn batch_error(m: StoreView, auth: Set<Seq<char>>, items: Seq<Submission>) -> Option<
    Error,
> {
    if paused(m) {
        Some(Error::Paused)
    } else if items.len() == 0 {
        Some(Error::EmptyBatch)
    } else if !all_signed(auth, items) {
        Some(Error::Unauthorized)
    } else {
        first_item_error(m, items, 0)
    }
}

/// The store after an accepted batch: its items were stored one after
/// another, in their order, each priced at the count that the items before
/// it left behind.
pub open spec fn after_batch(m: StoreView, items: Seq<Submission>) -> StoreView
    decreases items.len(),
{
    if items.len() == 0 {
        m
    } else {
        after_submit(after_batch(m, items.drop_last()), items.last())
    }
}

/// What an accepted batch hands back: one receipt for each item, in the
/// items' order.
pub open spec fn batch_receipts(m: StoreView, items: Seq<Submission>) -> Seq<SubmitReceiptView>
    decreases items.len(),
{
    if items.len() == 0 {
        Seq::empty()
    } else {
        batch_receipts(m, items.drop_last()).push(
            submit_receipt(after_batch(m, items.drop_last()), items.last()),
        )
    }
}

/// The businesses of a batch, each once, in the order in which they first
/// occur.
pub open spec fn distinct_businesses(items: Seq<Submission>) -> Seq<Seq<char>>
    decreases items.len(),
{
    if items.len() == 0 {
        Seq::empty()
    } else {
        let head = distinct_businesses(items.drop_last());
        if head.contains(items.last().business) {
            head
        } else {
            head.push(items.last().business)
        }
    }
}

/// `distinct_businesses` names every business of the batch, none twice,
/// and nobody else.
pub proof fn lemma_distinct_businesses(items: Seq<Submission>)
    ensures
        distinct_businesses(items).no_duplicates(),
        forall|b: Seq<char>|
            distinct_businesses(items).contains(b) <==> exists|i: int|
                0 <= i < items.len() && (#[trigger] items[i]).business == b,
    decreases items.len(),
{
    if items.len() > 0 {
        let head_items = items.drop_last();
        let head = distinct_businesses(head_items);
        let last = items.last().business;
        lemma_distinct_businesses(head_items);
        let all = distinct_businesses(items);
        if !head.contains(last) {
            lemma_push_distinct(head, last);
        }
        assert forall|b: Seq<char>| all.contains(b) implies exists|i: int|
            0 <= i < items.len() && (#[trigger] items[i]).business == b by {
            if head.contains(b) {
                let i = choose|i: int|
                    0 <= i < head_items.len() && (#[trigger] head_items[i]).business == b;
                assert(items[i].business == b);
            } else {
                let j = choose|j: int| 0 <= j < all.len() && all[j] == b;
                assert(b == last);
                assert(items[items.len() - 1].business == b);
            }
        }
        assert forall|b: Seq<char>|
            (exists|i: int|
                0 <= i < items.len() && (#[trigger] items[i]).business == b) implies all.contains(
            b,
        ) by {
            let i = choose|i: int| 0 <= i < items.len() && (#[trigger] items[i]).business == b;
            if i < items.len() - 1 {
                assert(head_items[i].business == b);
                assert(head.contains(b));
                let j = choose|j: int| 0 <= j < head.len() && head[j] == b;
                assert(all[j] == b);
            } else {
                if head.contains(b) {
                } else {
                    assert(all[all.len() - 1] == b);
                }
            }
        }
    }
}

/// A batch leaves everything but attestations and counts as it was, and
/// stores an attestation under the key of each of its items and under no
/// other key.
pub proof fn lemma_after_batch(m: StoreView, items: Seq<Submission>)
    ensures
        forall|k: DataKeyView|
            !(k is Attestation) && !(k is BusinessCount) ==> #[trigger] after_batch(
                m,
                items,
            ).contains_key(k) == m.contains_key(k) && after_batch(m, items)[k] == m[k],
        forall|b: Seq<char>, p: Seq<char>| #[trigger]
            has_attestation(after_batch(m, items), b, p) <==> has_attestation(m, b, p) || exists|
                j: int,
            |
                0 <= j < items.len() && (#[trigger] items[j]).business == b && items[j].period
                    == p,
    decreases items.len(),
{
    if items.len() > 0 {
        let head = items.drop_last();
        let last = items.last();
        lemma_after_batch(m, head);
        let m1 = after_batch(m, head);
        let m2 = after_batch(m, items);
        assert forall|b: Seq<char>, p: Seq<char>| #[trigger]
            has_attestation(m2, b, p) implies has_attestation(m, b, p) || exists|j: int|
            0 <= j < items.len() && (#[trigger] items[j]).business == b && items[j].period
                == p by {
            if b == last.business && p == last.period {
                assert(items[items.len() - 1].business == b);
            } else {
                assert(has_attestation(m1, b, p));
                if !has_attestation(m, b, p) {
                    let j = choose|j: int|
                        0 <= j < head.len() && (#[trigger] head[j]).business == b
                            && head[j].period == p;
                    assert(items[j].business == b);
                }
            }
        }
        assert forall|b: Seq<char>, p: Seq<char>|
            (has_attestation(m, b, p) || exists|j: int|
                0 <= j < items.len() && (#[trigger] items[j]).business == b && items[j].period
                    == p) implies #[trigger] has_attestation(m2, b, p) by {
            if has_attestation(m, b, p) {
                assert(has_attestation(m1, b, p));
            } else {
                let j = choose|j: int|
                    0 <= j < items.len() && (#[trigger] items[j]).business == b
                        && items[j].period == p;
                if j < items.len() - 1 {
                    assert(head[j].business == b);
                    assert(has_attestation(m1, b, p));
                }
            }
        }
    }
}

/// Where no item from `from` on has anything wrong with it, no such item
/// comes again later, and no attestation is stored under its key.
pub proof fn lemma_no_item_error(m: StoreView, items: Seq<Submission>, from: int)
    requires
        0 <= from,
        first_item_error(m, items, from) is None,
    ensures
        forall|i: int| from <= i < items.len() ==> #[trigger] item_error(m, items, i) is None,
    decreases items.len() - from,
{
    if from < items.len() {
        lemma_no_item_error(m, items, from + 1);
    }
}

/// The businesses of a batch, each once, in the order in which they first
/// occur: those whose signatures the batch needs.
pub fn batch_signers(items: &Vec<BatchAttestationItem>) -> (r: Vec<Address>)
    ensures
        principals(r@) == distinct_businesses(submissions(items@)),
{
    let mut signers: Vec<Address> = Vec::new();
    let ghost subs = submissions(items@);
    assert(principals(signers@) =~= distinct_businesses(subs.take(0)));
    let mut i: usize = 0;
    while i < items.len()
        invariant
            i <= items@.len(),
            subs == submissions(items@),
            principals(signers@) == distinct_businesses(subs.take(i as int)),
        decreases items@.len() - i,
    {
        let ghost before = principals(signers@);
        proof {
            assert(subs.take(i + 1).drop_last() =~= subs.take(i as int));
            assert(subs.take(i + 1).last() == items@[i as int]@);
        }
        if !contains_address(&signers, &items[i].business) {
            signers.push(items[i].business.clone());
            assert(principals(signers@) =~= before.push(items@[i as int]@.business));
        }
        i += 1;
    }
    assert(subs.take(i as int) =~= subs);
    signers
}

} // verus!
