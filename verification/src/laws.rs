use vstd::prelude::*;
use crate::access_control::{admin_call, holds_role, paused, roles_of};
use crate::attestation::{
    after_batch, after_migrate, after_revoke, after_submit, all_signed, attestation_of,
    batch_error, batch_receipts, first_item_error, has_attestation, item_error,
    lemma_after_batch, lemma_no_item_error, migrate_error, repeated_later, revoke_error,
    same_key, submit_error, submit_receipt, submit_with_metadata_error, verified_in,
    MerkleRoot, SubmitReceiptView, Submission,
};
use crate::dynamic_fees::{
    count_of, count_or_zero, discount_of, lemma_fee_quote_bounds, tier_discount_of, tier_of,
    volume_discount_at, BPS_DENOMINATOR,
};
use crate::error::Error;
use crate::ledger::{entry_ok, ledger_ok, next_proposal_id};
use crate::multisig::{
    action_error, approval_count_of, approve_error, closed, execute_error, expired_at,
    multisig_of, owner_call, owners_of, proposal_of, reject_error, threshold_of, with_approval,
};
use crate::store::{DataKeyView, StoreValueView, StoreView};

verus! {

/// A business attests for a period once: after an accepted submission
/// another one for the same business and period, signed by the business,
/// fails with `AlreadyExists`, whatever else it holds.
pub proof fn law_submission_is_accepted_once(
    m: StoreView,
    auth: Set<Seq<char>>,
    first: Submission,
    auth_again: Set<Seq<char>>,
    again: Submission,
)
    requires
        submit_error(m, auth, first) is None,
        same_key(first, again),
        auth_again.contains(again.business),
    ensures
        submit_error(after_submit(m, first), auth_again, again) == Some(Error::AlreadyExists),
{
}

/// Revocation leaves the record alone: after a revocation no root
/// verifies, and the stored record is what it was.
pub proof fn law_revocation_keeps_the_record(
    m: StoreView,
    auth: Set<Seq<char>>,
    caller: Seq<char>,
    business: Seq<char>,
    period: Seq<char>,
    root: MerkleRoot,
)
    requires
        revoke_error(m, auth, caller, business, period) is None,
    ensures
        !verified_in(after_revoke(m, business, period), business, period, root),
        attestation_of(after_revoke(m, business, period), business, period) == attestation_of(
            m,
            business,
            period,
        ),
        attestation_of(m, business, period) is Some,
{
}

/// An administrator's migration of a stored attestation is accepted
/// exactly when it raises the version.
pub proof fn law_migration_needs_a_higher_version(
    m: StoreView,
    auth: Set<Seq<char>>,
    caller: Seq<char>,
    business: Seq<char>,
    period: Seq<char>,
    new_version: u32,
)
    requires
        admin_call(m, auth, caller),
        attestation_of(m, business, period) is Some,
    ensures
        migrate_error(m, auth, caller, business, period, new_version) is None <==> new_version
            > attestation_of(m, business, period)->Some_0.version,
        migrate_error(m, auth, caller, business, period, new_version) is Some ==> migrate_error(
            m,
            auth,
            caller,
            business,
            period,
            new_version,
        ) == Some(Error::VersionNotIncreasing),
{
}

/// An accepted migration shows in the next read: the record has the new
/// root and the new version, and the timestamp and the fee that it had.
pub proof fn law_migration_keeps_time_and_fee(
    m: StoreView,
    auth: Set<Seq<char>>,
    caller: Seq<char>,
    business: Seq<char>,
    period: Seq<char>,
    new_merkle_root: MerkleRoot,
    new_version: u32,
)
    requires
        migrate_error(m, auth, caller, business, period, new_version) is None,
    ensures
        ({
            let before = attestation_of(m, business, period)->Some_0;
            let after = attestation_of(
                after_migrate(m, business, period, new_merkle_root, new_version),
                business,
                period,
            );
            &&& after is Some
            &&& after->Some_0.merkle_root == new_merkle_root
            &&& after->Some_0.version == new_version
            &&& after->Some_0.timestamp == before.timestamp
            &&& after->Some_0.fee_paid == before.fee_paid
            &&& after->Some_0.version > before.version
        }),
{
}

/// An accepted submission counts once: the count of its business is one
/// higher, that of every other business is what it was.
pub proof fn law_submission_counts_once(
    m: StoreView,
    auth: Set<Seq<char>>,
    s: Submission,
    other: Seq<char>,
)
    requires
        submit_error(m, auth, s) is None,
        count_or_zero(m, s.business) < u64::MAX,
        other != s.business,
    ensures
        count_or_zero(after_submit(m, s), s.business) == count_or_zero(m, s.business) + 1,
        count_of(after_submit(m, s), other) == count_of(m, other),
{
}

/// A rejected batch names what is wrong with the first of its items that
/// has anything wrong with it.
pub proof fn law_batch_reports_its_first_bad_item(
    m: StoreView,
    items: Seq<Submission>,
    from: int,
)
    requires
        0 <= from,
        first_item_error(m, items, from) is Some,
    ensures
        exists|i: int|
            from <= i < items.len() && first_item_error(m, items, from) == #[trigger] item_error(
                m,
                items,
                i,
            ) && forall|j: int| from <= j < i ==> #[trigger] item_error(m, items, j) is None,
    decreases items.len() - from,
{
    if item_error(m, items, from) is Some {
        assert(first_item_error(m, items, from) == item_error(m, items, from));
    } else {
        law_batch_reports_its_first_bad_item(m, items, from + 1);
        let i = choose|i: int|
            from + 1 <= i < items.len() && first_item_error(m, items, from + 1)
                == #[trigger] item_error(m, items, i) && forall|j: int|
                from + 1 <= j < i ==> #[trigger] item_error(m, items, j) is None;
        assert(first_item_error(m, items, from) == item_error(m, items, i));
    }
}

/// A batch with one item that cannot be stored, because its key comes
/// again in the batch or is taken in the store, is rejected as a whole,
/// however many of its other items could be stored.
pub proof fn law_batch_with_a_bad_item_is_rejected(
    m: StoreView,
    auth: Set<Seq<char>>,
    items: Seq<Submission>,
    i: int,
)
    requires
        0 <= i < items.len(),
        item_error(m, items, i) is Some,
    ensures
        batch_error(m, auth, items) is Some,
{
    if first_item_error(m, items, 0) is None {
        lemma_no_item_error(m, items, 0);
    }
}

/// What so many single submissions, one after another, come to: the store
/// and the receipts after the last one, or the error of the first one
/// that fails.
pub open spec fn submit_each(m: StoreView, auth: Set<Seq<char>>, items: Seq<Submission>) -> Result<
    (StoreView, Seq<SubmitReceiptView>),
    Error,
>
    decreases items.len(),
{
    if items.len() == 0 {
        Ok((m, Seq::empty()))
    } else {
        match submit_each(m, auth, items.drop_last()) {
            Err(e) => Err(e),
            Ok((m1, done)) => match submit_error(m1, auth, items.last()) {
                Some(e) => Err(e),
                None => Ok(
                    (after_submit(m1, items.last()), done.push(submit_receipt(m1, items.last()))),
                ),
            },
        }
    }
}

/// Whether a batch would pass but for being empty: the contract is not
/// paused, every business signed, no key comes twice and none is taken.
pub open spec fn batch_clean(m: StoreView, auth: Set<Seq<char>>, items: Seq<Submission>) -> bool {
    &&& !paused(m)
    &&& all_signed(auth, items)
    &&& forall|i: int| 0 <= i < items.len() ==> #[trigger] item_error(m, items, i) is None
}

proof fn lemma_clean_prefix(m: StoreView, auth: Set<Seq<char>>, items: Seq<Submission>)
    requires
        batch_clean(m, auth, items),
        items.len() > 0,
    ensures
        batch_clean(m, auth, items.drop_last()),
        submit_error(after_batch(m, items.drop_last()), auth, items.last()) is None,
{
    let head = items.drop_last();
    let n = items.len() - 1;
    assert forall|i: int| 0 <= i < head.len() implies auth.contains((#[trigger] head[i]).business) by {
        assert(head[i] == items[i]);
    }
    assert forall|i: int| 0 <= i < head.len() implies #[trigger] item_error(m, head, i) is None by {
        assert(item_error(m, items, i) is None);
        assert(head[i] == items[i]);
        if repeated_later(head, i) {
            let j = choose|j: int| i < j < head.len() && same_key(head[i], #[trigger] head[j]);
            assert(same_key(items[i], items[j]));
        }
    }
    lemma_after_batch(m, head);
    let m1 = after_batch(m, head);
    assert(m1.contains_key(DataKeyView::Paused) == m.contains_key(DataKeyView::Paused));
    assert(m1[DataKeyView::Paused] == m[DataKeyView::Paused]);
    assert(auth.contains(items[n].business));
    assert(item_error(m, items, n) is None);
    if has_attestation(m1, items[n].business, items[n].period) {
        let j = choose|j: int|
            0 <= j < head.len() && (#[trigger] head[j]).business == items[n].business
                && head[j].period == items[n].period;
        assert(item_error(m, items, j) is None);
        assert(same_key(items[j], items[n]));
        assert(repeated_later(items, j));
    }
}

proof fn lemma_batch_is_sequential(m: StoreView, auth: Set<Seq<char>>, items: Seq<Submission>)
    requires
        batch_clean(m, auth, items),
    ensures
        submit_each(m, auth, items) == Ok::<(StoreView, Seq<SubmitReceiptView>), Error>(
            (after_batch(m, items), batch_receipts(m, items)),
        ),
    decreases items.len(),
{
    if items.len() > 0 {
        lemma_clean_prefix(m, auth, items);
        lemma_batch_is_sequential(m, auth, items.drop_last());
    }
}

/// A batch is so many single submissions in the batch's order: an
/// accepted batch leaves the store, and hands back the receipts with
/// their fees, that submitting its items one by one would.
pub proof fn law_batch_equals_single_submissions(
    m: StoreView,
    auth: Set<Seq<char>>,
    items: Seq<Submission>,
)
    requires
        batch_error(m, auth, items) is None,
    ensures
        submit_each(m, auth, items) == Ok::<(StoreView, Seq<SubmitReceiptView>), Error>(
            (after_batch(m, items), batch_receipts(m, items)),
        ),
{
    lemma_no_item_error(m, items, 0);
    lemma_batch_is_sequential(m, auth, items);
}

/// Discounts do not add up: the discount that applies is the tier's or
/// the volume's, whichever is larger, and so never more than one hundred
/// percent.
pub proof fn law_discounts_do_not_stack(m: StoreView, business: Seq<char>)
    requires
        ledger_ok(m),
    ensures
        ({
            let tier = tier_discount_of(m, tier_of(m, business));
            let volume = volume_discount_at(m, count_or_zero(m, business));
            &&& discount_of(m, business) == if tier >= volume {
                tier
            } else {
                volume
            }
            &&& discount_of(m, business) <= BPS_DENOMINATOR
        }),
{
    lemma_fee_quote_bounds(m, business);
}

/// An owner's approval counts once: after an accepted approval the count
/// is one higher, and another approval of the same owner, while the
/// proposal is open, fails with `AlreadyExists`.
pub proof fn law_approval_counts_once(
    m: StoreView,
    auth: Set<Seq<char>>,
    approver: Seq<char>,
    id: u64,
    now: u64,
    auth_again: Set<Seq<char>>,
    later: u64,
)
    requires
        approve_error(m, auth, approver, id, now) is None,
        auth_again.contains(approver),
        !expired_at(proposal_of(m, id)->Some_0, later),
    ensures
        ({
            let after = m.insert(
                DataKeyView::Proposal(id),
                StoreValueView::Proposal(with_approval(proposal_of(m, id)->Some_0, approver)),
            );
            &&& approval_count_of(after, id) == approval_count_of(m, id) + 1
            &&& approve_error(after, auth_again, approver, id, later) == Some(
                Error::AlreadyExists,
            )
        }),
{
    let p = proposal_of(m, id)->Some_0;
    let p2 = with_approval(p, approver);
    assert(p2.approvals[p2.approvals.len() - 1] == approver);
}

/// The threshold decides: an open proposal whose action is in order can
/// be executed by an owner exactly when its approvals have reached the
/// threshold.
pub proof fn law_threshold_decides_execution(
    m: StoreView,
    auth: Set<Seq<char>>,
    executor: Seq<char>,
    id: u64,
    now: u64,
)
    requires
        owner_call(m, auth, executor),
        proposal_of(m, id) is Some,
        !closed(proposal_of(m, id)->Some_0),
        !expired_at(proposal_of(m, id)->Some_0, now),
        action_error(m, proposal_of(m, id)->Some_0.action) is None,
    ensures
        execute_error(m, auth, executor, id, now) is None <==> approval_count_of(m, id)
            >= threshold_of(m),
        approval_count_of(m, id) < threshold_of(m) ==> execute_error(m, auth, executor, id, now)
            == Some(Error::ProposalNotApproved),
{
}

/// A proposal's way is one-way: once it was executed or rejected, nobody
/// can approve, reject or execute it, at any time.
pub proof fn law_closed_proposals_stay_closed(
    m: StoreView,
    auth: Set<Seq<char>>,
    who: Seq<char>,
    id: u64,
    now: u64,
)
    requires
        proposal_of(m, id) is Some,
        closed(proposal_of(m, id)->Some_0),
    ensures
        approve_error(m, auth, who, id, now) is Some,
        reject_error(m, auth, who, id, now) is Some,
        execute_error(m, auth, who, id, now) is Some,
{
}

/// In a store that is in order the threshold is at least one and at most
/// the number of owners, no owner is listed twice, and no owner has
/// approved a proposal twice.
pub proof fn law_multisig_stays_in_range(m: StoreView, id: u64)
    requires
        ledger_ok(m),
    ensures
        multisig_of(m) is Some ==> 1 <= threshold_of(m) <= owners_of(m).len() && owners_of(
            m,
        ).no_duplicates(),
        proposal_of(m, id) is Some ==> proposal_of(m, id)->Some_0.approvals.no_duplicates()
            && proposal_of(m, id)->Some_0.id == id && id < next_proposal_id(m),
{
    if m.contains_key(DataKeyView::MultisigConfig) {
        assert(entry_ok(DataKeyView::MultisigConfig, m[DataKeyView::MultisigConfig]));
    }
    if m.contains_key(DataKeyView::Proposal(id)) {
        assert(entry_ok(DataKeyView::Proposal(id), m[DataKeyView::Proposal(id)]));
    }
}

/// The store after the roles of a mask were granted to an account.
pub open spec fn after_grant(m: StoreView, account: Seq<char>, role: u32) -> StoreView {
    m.insert(DataKeyView::Role(account), StoreValueView::Small(roles_of(m, account) | role))
}

/// The store after the roles of a mask were taken from an account.
pub open spec fn after_role_revoke(m: StoreView, account: Seq<char>, role: u32) -> StoreView {
    m.insert(DataKeyView::Role(account), StoreValueView::Small(roles_of(m, account) & !role))
}

/// Granting gives every role of the mask and takes none away; granting
/// what is held changes nothing, so that a second grant leaves the store
/// as the first one did.
pub proof fn law_granting_is_idempotent(m: StoreView, account: Seq<char>, role: u32)
    ensures
        roles_of(after_grant(m, account, role), account) & role == role,
        roles_of(after_grant(m, account, role), account) & roles_of(m, account) == roles_of(
            m,
            account,
        ),
        after_grant(after_grant(m, account, role), account, role) == after_grant(m, account, role),
        role != 0 ==> holds_role(after_grant(m, account, role), account, role),
{
    let r = roles_of(m, account);
    assert((r | role) & role == role) by (bit_vector);
    assert((r | role) & r == r) by (bit_vector);
    assert((r | role) | role == r | role) by (bit_vector);
    assert(after_grant(after_grant(m, account, role), account, role) =~= after_grant(
        m,
        account,
        role,
    ));
}

/// Revoking takes every role of the mask and no other.
pub proof fn law_revoking_takes_the_mask_only(
    m: StoreView,
    account: Seq<char>,
    role: u32,
    other: u32,
)
    requires
        other & role == 0,
    ensures
        !holds_role(after_role_revoke(m, account, role), account, role),
        holds_role(after_role_revoke(m, account, role), account, other) == holds_role(
            m,
            account,
            other,
        ),
{
    let r = roles_of(m, account);
    assert((r & !role) & role == 0) by (bit_vector);
    assert((r & !role) & other == r & other) by (bit_vector)
        requires
            other & role == 0,
    ;
}

/// While the contract is paused every kind of submission fails with
/// `Paused`, whoever signed and whatever is submitted.
pub proof fn law_pause_stops_submissions(
    m: StoreView,
    auth: Set<Seq<char>>,
    s: Submission,
    currency_code: Seq<char>,
    items: Seq<Submission>,
)
    requires
        paused(m),
    ensures
        submit_error(m, auth, s) == Some(Error::Paused),
        submit_with_metadata_error(m, auth, s, currency_code) == Some(Error::Paused),
        batch_error(m, auth, items) == Some(Error::Paused),
{
}

/// The pause does not reach the reads: what is read of an attestation,
/// and whether a root verifies, is the same whether the contract is
/// paused or not.
pub proof fn law_pause_spares_reads(
    m: StoreView,
    flag: bool,
    business: Seq<char>,
    period: Seq<char>,
    root: MerkleRoot,
)
    ensures
        ({
            let other = m.insert(DataKeyView::Paused, StoreValueView::Flag(flag));
            &&& attestation_of(other, business, period) == attestation_of(m, business, period)
            &&& verified_in(other, business, period, root) == verified_in(
                m,
                business,
                period,
                root,
            )
        }),
{
}

} // verus!
