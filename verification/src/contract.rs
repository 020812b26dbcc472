use vstd::prelude::*;
use crate::access_control::{self, paused};
use crate::attestation::{
    after_batch, after_migrate, after_revoke, after_submit, after_submit_with_metadata,
    all_signed, attestation_of, batch_error, batch_receipts, batch_signers,
    distinct_businesses, first_item_error, has_attestation, item_error, lemma_after_batch,
    lemma_distinct_businesses, lemma_no_item_error, metadata_of, migrate_error,
    read_attestation, read_revoked, receipts, record_submission, record_values,
    repeated_later, revoke_error, revoked_in, same_key, same_root, submissions, submit_error,
    submit_receipt, submit_with_metadata_error, verified_in, AttestationRecord,
    BatchAttestationItem, MerkleRoot, SubmitReceipt, Submission,
};
use crate::error::Error;
use crate::events::{
    AttestationMigratedEvent, AttestationMigratedView, AttestationRevokedEvent,
    AttestationRevokedView,
};
use crate::extended_metadata::{metadata_view, validate_metadata, AttestationMetadata};
use crate::ledger::{check_ledger, ledger_ok, lemma_insert_ok};
use crate::principal::{principals, Address, AuthContext};
use crate::store::{
    entries_map, entry_keys, DataKey, DataKeyView, Store, StoreValue, StoreValueView, StoreView,
};

verus! {

/// The attestation ledger: the attestations of businesses, the roles and
/// the pause flag that gate them, the fee schedule that prices them, and
/// the multisig that can change all of these.
pub struct AttestationContract {
    store: Store,
}

impl View for AttestationContract {
    type V = StoreView;

    closed spec fn view(&self) -> StoreView {
        self.store@
    }
}

impl AttestationContract {
    #[verifier::type_invariant]
    spec fn in_order(self) -> bool {
        ledger_ok(self.store@)
    }

    /// A ledger that holds nothing and was not set up.
    pub fn new() -> (r: Self)
        ensures
            r@ == Map::<DataKeyView, StoreValueView>::empty(),
    {
        AttestationContract { store: Store::new() }
    }

    /// The ledger that holds the given entries; `None` where a key comes
    /// twice or the entries are not in order.
    pub fn restore(entries: Vec<(DataKey, StoreValue)>) -> (r: Option<Self>)
        ensures
            r is Some <==> entry_keys(entries@).no_duplicates() && ledger_ok(entries_map(entries@)),
            r is Some ==> r->Some_0@ == entries_map(entries@),
    {
        match Store::from_entries(entries) {
            None => None,
            Some(store) => {
                if check_ledger(&store) {
                    Some(AttestationContract { store })
                } else {
                    None
                }
            },
        }
    }

    /// All that the ledger holds, to keep and to `restore` from.
    pub fn export(&self) -> (r: Vec<(DataKey, StoreValue)>)
        ensures
            entries_map(r@) == self@,
            entry_keys(r@).no_duplicates(),
            ledger_ok(entries_map(r@)),
    {
        proof {
            use_type_invariant(self);
        }
        self.store.recall();
        self.store.entries()
    }

    /// What holds of every ledger between two calls.
    pub fn recall(&self)
        ensures
            ledger_ok(self@),
    {
        proof {
            use_type_invariant(self);
        }
    }

    /// The store, to read.
    pub(crate) fn store(&self) -> (s: &Store)
        ensures
            s@ == self@,
            ledger_ok(s@),
    {
        proof {
            use_type_invariant(self);
        }
        &self.store
    }

    /// The store, to change; `put_store` brings it back.
    pub(crate) fn take_store(&mut self) -> (s: Store)
        ensures
            s@ == old(self)@,
            ledger_ok(s@),
    {
        proof {
            use_type_invariant(&*self);
        }
        let mut s = Store::new();
        core::mem::swap(&mut self.store, &mut s);
        s
    }

    /// Brings back the store that `take_store` handed out.
    pub(crate) fn put_store(&mut self, store: Store)
        requires
            ledger_ok(store@),
        ensures
            final(self)@ == store@,
    {
        self.store = store;
    }

    /// Stores the attestation of `business` for `period` and raises the
    /// business's count. The business must have signed the call. Fails
    /// with `Paused` while the contract is paused, and with
    /// `AlreadyExists` where the business has attested for the period
    /// before, whatever was submitted then and now.
    pub fn submit_attestation(
        &mut self,
        auth: &AuthContext,
        business: Address,
        period: String,
        merkle_root: MerkleRoot,
        timestamp: u64,
        version: u32,
    ) -> (r: Result<SubmitReceipt, Error>)
        ensures
            match submit_error(
                old(self)@,
                auth@,
                Submission { business: business@, period: period@, merkle_root, timestamp, version },
            ) {
                Some(e) => r is Err && r->Err_0 == e && final(self)@ == old(self)@,
                None => r is Ok && r->Ok_0@ == submit_receipt(
                    old(self)@,
                    Submission {
                        business: business@,
                        period: period@,
                        merkle_root,
                        timestamp,
                        version,
                    },
                ) && final(self)@ == after_submit(
                    old(self)@,
                    Submission {
                        business: business@,
                        period: period@,
                        merkle_root,
                        timestamp,
                        version,
                    },
                ),
            },
    {
        if access_control::is_paused(&self.store) {
            return Err(Error::Paused);
        }
        if !auth.authorizes(&business) {
            return Err(Error::Unauthorized);
        }
        let item = BatchAttestationItem { business, period, merkle_root, timestamp, version };
        if self.store.has(&DataKey::Attestation(item.business.clone(), item.period.clone())) {
            return Err(Error::AlreadyExists);
        }
        let mut store = self.take_store();
        let receipt = record_submission(&mut store, &item);
        self.store = store;
        Ok(receipt)
    }

    /// Stores a whole batch of attestations, or none of it. Every business
    /// of the batch must have signed the call, once, however many items it
    /// has in the batch. No item may come twice in the batch
    /// (`DuplicateInBatch`), none may be stored already (`AlreadyExists`),
    /// and the batch may not be empty (`EmptyBatch`). The items are stored
    /// in their order, each priced at the count that the items before it
    /// left behind: as so many single submissions would be.
    pub fn submit_attestations_batch(
        &mut self,
        auth: &AuthContext,
        items: Vec<BatchAttestationItem>,
    ) -> (r: Result<Vec<SubmitReceipt>, Error>)
        ensures
            match batch_error(old(self)@, auth@, submissions(items@)) {
                Some(e) => r is Err && r->Err_0 == e && final(self)@ == old(self)@,
                None => r is Ok && receipts(r->Ok_0@) == batch_receipts(
                    old(self)@,
                    submissions(items@),
                ) && final(self)@ == after_batch(old(self)@, submissions(items@)),
            },
    {
        let ghost subs = submissions(items@);
        let ghost before = self@;
        if access_control::is_paused(&self.store) {
            return Err(Error::Paused);
        }
        if items.len() == 0 {
            return Err(Error::EmptyBatch);
        }
        let len: usize = items.len();

        // Each business signs once, however many items it has.
        let signers = batch_signers(&items);
        proof {
            lemma_distinct_businesses(subs);
        }
        let mut s: usize = 0;
        while s < signers.len()
            invariant
                s <= signers@.len(),
                subs == submissions(items@),
                subs.len() > 0,
                before == old(self)@,
                self@ == before,
                !paused(before),
                principals(signers@) == distinct_businesses(subs),
                forall|x: int| 0 <= x < s ==> auth@.contains(#[trigger] principals(signers@)[x]),
            decreases signers@.len() - s,
        {
            if !auth.authorizes(&signers[s]) {
                proof {
                    lemma_distinct_businesses(subs);
                    let b = signers@[s as int]@;
                    assert(principals(signers@)[s as int] == b);
                    assert(distinct_businesses(subs).contains(b));
                    let i = choose|i: int| 0 <= i < subs.len() && (#[trigger] subs[i]).business == b;
                    assert(!auth@.contains(subs[i].business));
                }
                return Err(Error::Unauthorized);
            }
            assert(principals(signers@)[s as int] == signers@[s as int]@);
            s += 1;
        }
        proof {
            assert forall|i: int| 0 <= i < subs.len() implies auth@.contains(
                (#[trigger] subs[i]).business,
            ) by {
                let b = subs[i].business;
                assert(distinct_businesses(subs).contains(b));
                let x = choose|x: int|
                    0 <= x < principals(signers@).len() && principals(signers@)[x] == b;
                assert(auth@.contains(principals(signers@)[x]));
            }
            assert(all_signed(auth@, subs));
        }

        // Nothing is written before every item has passed.
        let mut i: usize = 0;
        while i < len
            invariant
                i <= len,
                len == items@.len(),
                len > 0,
                subs == submissions(items@),
                before == old(self)@,
                self@ == before,
                !paused(before),
                all_signed(auth@, subs),
                first_item_error(before, subs, 0) == first_item_error(before, subs, i as int),
            decreases len - i,
        {
            let mut j: usize = i + 1;
            while j < len
                invariant
                    i < j <= len,
                    len == items@.len(),
                    subs == submissions(items@),
                    before == old(self)@,
                    self@ == before,
                    !paused(before),
                    all_signed(auth@, subs),
                    first_item_error(before, subs, 0) == first_item_error(before, subs, i as int),
                    forall|y: int| i < y < j ==> !same_key(subs[i as int], #[trigger] subs[y]),
                decreases len - j,
            {
                if items[i].business.same(&items[j].business) && items[i].period == items[j].period {
                    proof {
                        assert(same_key(subs[i as int], subs[j as int]));
                        assert(repeated_later(subs, i as int));
                    }
                    return Err(Error::DuplicateInBatch);
                }
                j += 1;
            }
            assert(!repeated_later(subs, i as int));
            if self.store.has(&DataKey::Attestation(items[i].business.clone(), items[i].period.clone())) {
                return Err(Error::AlreadyExists);
            }
            assert(item_error(before, subs, i as int) is None);
            i += 1;
        }
        proof {
            lemma_no_item_error(before, subs, 0);
        }

        // Every item has passed: store them in their order.
        let mut store = self.take_store();
        let mut out: Vec<SubmitReceipt> = Vec::new();
        assert(receipts(out@) =~= batch_receipts(before, subs.take(0)));
        let mut k: usize = 0;
        while k < len
            invariant
                k <= len,
                len == items@.len(),
                subs == submissions(items@),
                ledger_ok(store@),
                store@ == after_batch(before, subs.take(k as int)),
                receipts(out@) == batch_receipts(before, subs.take(k as int)),
                forall|x: int| 0 <= x < subs.len() ==> #[trigger] item_error(before, subs, x) is None,
            decreases len - k,
        {
            proof {
                let done = subs.take(k as int);
                lemma_after_batch(before, done);
                assert(item_error(before, subs, k as int) is None);
                if has_attestation(store@, subs[k as int].business, subs[k as int].period) {
                    let x = choose|x: int|
                        0 <= x < done.len() && (#[trigger] done[x]).business == subs[k as int].business
                            && done[x].period == subs[k as int].period;
                    assert(item_error(before, subs, x) is None);
                    assert(same_key(subs[x], subs[k as int]));
                    assert(repeated_later(subs, x));
                }
                assert(subs.take(k + 1).drop_last() =~= done);
                assert(subs.take(k + 1).last() == items@[k as int]@);
            }
            let ghost prev = receipts(out@);
            let receipt = record_submission(&mut store, &items[k]);
            out.push(receipt);
            assert(receipts(out@) =~= prev.push(receipt@));
            k += 1;
        }
        assert(subs.take(k as int) =~= subs);
        self.store = store;
        Ok(out)
    }

    /// Stores an attestation as `submit_attestation` does, and with it the
    /// currency and the basis of the revenue. A currency code of more than
    /// three characters, or of anything but letters, is an `InvalidConfig`.
    pub fn submit_attestation_with_metadata(
        &mut self,
        auth: &AuthContext,
        business: Address,
        period: String,
        merkle_root: MerkleRoot,
        timestamp: u64,
        version: u32,
        currency_code: String,
        is_net: bool,
    ) -> (r: Result<SubmitReceipt, Error>)
        ensures
            match submit_with_metadata_error(
                old(self)@,
                auth@,
                Submission { business: business@, period: period@, merkle_root, timestamp, version },
                currency_code@,
            ) {
                Some(e) => r is Err && r->Err_0 == e && final(self)@ == old(self)@,
                None => r is Ok && r->Ok_0@ == submit_receipt(
                    old(self)@,
                    Submission {
                        business: business@,
                        period: period@,
                        merkle_root,
                        timestamp,
                        version,
                    },
                ) && final(self)@ == after_submit_with_metadata(
                    old(self)@,
                    Submission {
                        business: business@,
                        period: period@,
                        merkle_root,
                        timestamp,
                        version,
                    },
                    currency_code@,
                    is_net,
                ),
            },
    {
        if access_control::is_paused(&self.store) {
            return Err(Error::Paused);
        }
        if !auth.authorizes(&business) {
            return Err(Error::Unauthorized);
        }
        let item = BatchAttestationItem { business, period, merkle_root, timestamp, version };
        if self.store.has(&DataKey::Attestation(item.business.clone(), item.period.clone())) {
            return Err(Error::AlreadyExists);
        }
        let metadata = match validate_metadata(currency_code.as_str(), is_net) {
            Err(e) => {
                return Err(e);
            },
            Ok(m) => m,
        };
        let mut store = self.take_store();
        let receipt = record_submission(&mut store, &item);
        proof {
            lemma_insert_ok(
                store@,
                DataKeyView::Metadata(item@.business, item@.period),
                StoreValueView::Metadata(metadata@),
            );
        }
        store.set(
            DataKey::Metadata(item.business.clone(), item.period.clone()),
            StoreValue::Metadata(metadata),
        );
        self.store = store;
        Ok(receipt)
    }

    /// Marks the attestation of `business` for `period` as revoked. The
    /// record itself stays as it is. `caller` must be an administrator and
    /// must have signed the call.
    pub fn revoke_attestation(
        &mut self,
        auth: &AuthContext,
        caller: Address,
        business: Address,
        period: String,
        reason: String,
    ) -> (r: Result<AttestationRevokedEvent, Error>)
        ensures
            match revoke_error(old(self)@, auth@, caller@, business@, period@) {
                Some(e) => r is Err && r->Err_0 == e && final(self)@ == old(self)@,
                None => r is Ok && r->Ok_0@ == (AttestationRevokedView {
                    business: business@,
                    period: period@,
                    revoked_by: caller@,
                    reason: reason@,
                }) && final(self)@ == after_revoke(old(self)@, business@, period@),
            },
    {
        match access_control::require_admin(&self.store, auth, &caller) {
            Err(e) => {
                return Err(e);
            },
            Ok(_) => {},
        }
        if read_attestation(&self.store, &business, period.as_str()).is_none() {
            return Err(Error::NotFound);
        }
        let mut store = self.take_store();
        proof {
            lemma_insert_ok(
                store@,
                DataKeyView::Revoked(business@, period@),
                StoreValueView::Flag(true),
            );
        }
        store.set(DataKey::Revoked(business.clone(), period.clone()), StoreValue::Flag(true));
        self.store = store;
        Ok(AttestationRevokedEvent { business, period, revoked_by: caller, reason })
    }

    /// Gives the attestation of `business` for `period` a new root and a
    /// higher version; its timestamp and the fee paid stay as they are.
    /// `caller` must be an administrator and must have signed the call. A
    /// version that is not above the stored one is a
    /// `VersionNotIncreasing`.
    pub fn migrate_attestation(
        &mut self,
        auth: &AuthContext,
        caller: Address,
        business: Address,
        period: String,
        new_merkle_root: MerkleRoot,
        new_version: u32,
    ) -> (r: Result<AttestationMigratedEvent, Error>)
        ensures
            match migrate_error(old(self)@, auth@, caller@, business@, period@, new_version) {
                Some(e) => r is Err && r->Err_0 == e && final(self)@ == old(self)@,
                None => r is Ok && r->Ok_0@ == (AttestationMigratedView {
                    business: business@,
                    period: period@,
                    old_merkle_root: attestation_of(old(self)@, business@, period@)->Some_0.merkle_root,
                    new_merkle_root,
                    old_version: attestation_of(old(self)@, business@, period@)->Some_0.version,
                    new_version,
                    migrated_by: caller@,
                }) && final(self)@ == after_migrate(
                    old(self)@,
                    business@,
                    period@,
                    new_merkle_root,
                    new_version,
                ),
            },
    {
        match access_control::require_admin(&self.store, auth, &caller) {
            Err(e) => {
                return Err(e);
            },
            Ok(_) => {},
        }
        let old_record = match read_attestation(&self.store, &business, period.as_str()) {
            None => {
                return Err(Error::NotFound);
            },
            Some(r) => r,
        };
        if new_version <= old_record.version {
            return Err(Error::VersionNotIncreasing);
        }
        let record = AttestationRecord {
            merkle_root: new_merkle_root,
            timestamp: old_record.timestamp,
            version: new_version,
            fee_paid: old_record.fee_paid,
        };
        let mut store = self.take_store();
        proof {
            lemma_insert_ok(
                store@,
                DataKeyView::Attestation(business@, period@),
                StoreValueView::Attestation(record),
            );
        }
        store.set(
            DataKey::Attestation(business.clone(), period.clone()),
            StoreValue::Attestation(record),
        );
        self.store = store;
        Ok(
            AttestationMigratedEvent {
                business,
                period,
                old_merkle_root: old_record.merkle_root,
                new_merkle_root,
                old_version: old_record.version,
                new_version,
                migrated_by: caller,
            },
        )
    }

    /// Whether the attestation of `business` for `period` was revoked:
    /// false where nothing is known of it.
    pub fn is_revoked(&self, business: &Address, period: &str) -> (r: bool)
        ensures
            r == revoked_in(self@, business@, period@),
    {
        read_revoked(&self.store, business, period)
    }

    /// The attestation of `business` for `period` as root, timestamp,
    /// version and fee paid; `None` where none is stored.
    pub fn get_attestation(&self, business: &Address, period: &str) -> (r: Option<
        (MerkleRoot, u64, u32, i128),
    >)
        ensures
            r == record_values(attestation_of(self@, business@, period@)),
    {
        match read_attestation(&self.store, business, period) {
            Some(r) => Some((r.merkle_root, r.timestamp, r.version, r.fee_paid)),
            None => None,
        }
    }

    /// The metadata of the attestation of `business` for `period`; `None`
    /// where it was submitted without any.
    pub fn get_attestation_metadata(&self, business: &Address, period: &str) -> (r: Option<
        AttestationMetadata,
    >)
        ensures
            metadata_view(r) == metadata_of(self@, business@, period@),
    {
        match self.store.get(&DataKey::Metadata(business.clone(), period.to_owned())) {
            Some(StoreValue::Metadata(d)) => Some(d.clone()),
            _ => None,
        }
    }

    /// Whether an attestation of `business` for `period` is stored, was not
    /// revoked, and has the root `merkle_root`.
    pub fn verify_attestation(&self, business: &Address, period: &str, merkle_root: &MerkleRoot) -> (r:
        bool)
        ensures
            r == verified_in(self@, business@, period@, *merkle_root),
    {
        if self.is_revoked(business, period) {
            return false;
        }
        match self.get_attestation(business, period) {
            Some((stored_root, _, _, _)) => same_root(&stored_root, merkle_root),
            None => false,
        }
    }
}

} // verus!
