use vstd::prelude::*;
use crate::dynamic_fees::{brackets_ok, check_brackets, BPS_DENOMINATOR};
use crate::extended_metadata::{check_currency_code, currency_code_ok};
use crate::multisig::{check_multisig, check_proposal, multisig_ok, proposal_ok};
use crate::store::{DataKey, DataKeyView, Store, StoreValue, StoreValueView, StoreView};

verus! {

/// Whether `v` may stand under `k`: it has the shape that the kind of key
/// calls for, and it meets what the data model asks of such a value.
pub open spec fn entry_ok(k: DataKeyView, v: StoreValueView) -> bool {
    match k {
        DataKeyView::Admin => v is Principal,
        DataKeyView::Role(_) => v is Small,
        DataKeyView::Paused => v is Flag,
        DataKeyView::FeeConfig => v is FeeConfig && v->FeeConfig_0.base_fee >= 0,
        DataKeyView::TierDiscount(_) => v is Small && v->Small_0 <= BPS_DENOMINATOR,
        DataKeyView::BusinessTier(_) => v is Small,
        DataKeyView::VolumeBrackets => v is Brackets && brackets_ok(
            v->Brackets_0.thresholds,
            v->Brackets_0.discounts,
        ),
        DataKeyView::BusinessCount(_) => v is Count,
        DataKeyView::Attestation(_, _) => v is Attestation,
        DataKeyView::Revoked(_, _) => v is Flag,
        DataKeyView::Metadata(_, _) => v is Metadata && currency_code_ok(
            v->Metadata_0.currency_code,
        ),
        DataKeyView::MultisigConfig => v is Multisig && multisig_ok(v->Multisig_0),
        DataKeyView::NextProposalId => v is Count,
        DataKeyView::Proposal(id) => v is Proposal && proposal_ok(v->Proposal_0)
            && v->Proposal_0.id == id,
        DataKeyView::CoreAttestation => v is Principal,
        DataKeyView::RevenueMetrics(_, _) => v is Metrics,
        DataKeyView::Dispute(_, _) => v is Dispute,
        DataKeyView::LatestIndexedPeriod(_) => v is Text,
    }
}

/// Whether `k` is a counter: the submission count of a business or the
/// number of the next proposal.
pub open spec fn is_counter(k: DataKeyView) -> bool {
    k is BusinessCount || k is NextProposalId
}

/// One more than a counter's value; zero for what is no counter.
pub open spec fn counter_weight(k: DataKeyView, v: StoreValueView) -> nat {
    if is_counter(k) && v is Count {
        (v->Count_0 + 1) as nat
    } else {
        0
    }
}

/// The number that the next proposal gets.
pub open spec fn next_proposal_id(m: StoreView) -> u64 {
    match m.get(DataKeyView::NextProposalId) {
        Some(StoreValueView::Count(n)) => n,
        _ => 0,
    }
}

/// What holds of the store between any two calls: every entry is in order,
/// every counter is below the number of keys (a counter only moves when a
/// key is added), and every proposal's number is below the next one.
pub open spec fn ledger_ok(m: StoreView) -> bool {
    &&& m.dom().finite()
    &&& forall|k: DataKeyView| #[trigger] m.contains_key(k) ==> entry_ok(k, m[k])
    &&& forall|k: DataKeyView| #[trigger]
        m.contains_key(k) ==> counter_weight(k, m[k]) <= m.dom().len()
    &&& forall|id: u64| #[trigger]
        m.contains_key(DataKeyView::Proposal(id)) ==> id < next_proposal_id(m)
}

/// Writing a value that is in order under a key that is neither a counter
/// nor a proposal keeps the store in order.
pub proof fn lemma_insert_ok(m: StoreView, k: DataKeyView, v: StoreValueView)
    requires
        ledger_ok(m),
        entry_ok(k, v),
        !is_counter(k),
        !(k is Proposal),
    ensures
        ledger_ok(m.insert(k, v)),
{
    let m2 = m.insert(k, v);
    assert(m2.dom() =~= m.dom().insert(k));
    assert(m2.dom().len() >= m.dom().len());
    assert(m2.get(DataKeyView::NextProposalId) == m.get(DataKeyView::NextProposalId));
    assert forall|x: DataKeyView| #[trigger] m2.contains_key(x) implies entry_ok(x, m2[x])
        && counter_weight(x, m2[x]) <= m2.dom().len() by {
        if x != k {
            assert(m.contains_key(x));
        }
    }
    assert forall|id: u64| #[trigger]
        m2.contains_key(DataKeyView::Proposal(id)) implies id < next_proposal_id(m2) by {
        assert(m.contains_key(DataKeyView::Proposal(id)));
    }
}

/// Rewriting a proposal that is there, under its own number, keeps the
/// store in order.
pub proof fn lemma_update_proposal_ok(m: StoreView, id: u64, v: StoreValueView)
    requires
        ledger_ok(m),
        m.contains_key(DataKeyView::Proposal(id)),
        entry_ok(DataKeyView::Proposal(id), v),
    ensures
        ledger_ok(m.insert(DataKeyView::Proposal(id), v)),
{
    let k = DataKeyView::Proposal(id);
    let m2 = m.insert(k, v);
    assert(m2.dom() =~= m.dom());
    assert(m2.get(DataKeyView::NextProposalId) == m.get(DataKeyView::NextProposalId));
    assert forall|x: DataKeyView| #[trigger] m2.contains_key(x) implies entry_ok(x, m2[x])
        && counter_weight(x, m2[x]) <= m2.dom().len() by {
        if x != k {
            assert(m.contains_key(x));
        }
    }
    assert forall|j: u64| #[trigger]
        m2.contains_key(DataKeyView::Proposal(j)) implies j < next_proposal_id(m2) by {
        assert(m.contains_key(DataKeyView::Proposal(j)));
    }
}

/// Adding a key and raising one counter by one keeps the store in order.
pub proof fn lemma_insert_counted_ok(
    m: StoreView,
    k: DataKeyView,
    v: StoreValueView,
    counter: DataKeyView,
    count: u64,
)
    requires
        ledger_ok(m),
        !m.contains_key(k),
        entry_ok(k, v),
        !is_counter(k),
        is_counter(counter),
        match m.get(counter) {
            Some(StoreValueView::Count(c)) => count == c + 1,
            _ => count == 1,
        },
        k is Proposal ==> counter is NextProposalId && k->Proposal_0 + 1 == count,
        counter is NextProposalId ==> k is Proposal,
    ensures
        ledger_ok(m.insert(k, v).insert(counter, StoreValueView::Count(count))),
        count <= m.dom().len() + 1,
{
    let m1 = m.insert(k, v);
    let m2 = m1.insert(counter, StoreValueView::Count(count));
    assert(m1.dom() =~= m.dom().insert(k));
    assert(m2.dom() =~= m1.dom().insert(counter));
    assert(m1.dom().len() == m.dom().len() + 1);
    if m.contains_key(counter) {
        assert(entry_ok(counter, m[counter]));
        assert(counter_weight(counter, m[counter]) <= m.dom().len());
        assert(m2.dom().len() == m1.dom().len());
    } else {
        assert(m2.dom().len() == m1.dom().len() + 1);
    }
    assert forall|x: DataKeyView| #[trigger] m2.contains_key(x) implies entry_ok(x, m2[x])
        && counter_weight(x, m2[x]) <= m2.dom().len() by {
        if x != k && x != counter {
            assert(m.contains_key(x));
        }
    }
    assert forall|id: u64| #[trigger]
        m2.contains_key(DataKeyView::Proposal(id)) implies id < next_proposal_id(m2) by {
        if DataKeyView::Proposal(id) != k {
            assert(m.contains_key(DataKeyView::Proposal(id)));
        }
    }
}

/// Whether `value` may stand under `key`.
pub fn check_entry(key: &DataKey, value: &StoreValue) -> (ok: bool)
    ensures
        ok == entry_ok(key@, value@),
{
    match (key, value) {
        (DataKey::Admin, StoreValue::Principal(_)) => true,
        (DataKey::Role(_), StoreValue::Small(_)) => true,
        (DataKey::Paused, StoreValue::Flag(_)) => true,
        (DataKey::FeeConfig, StoreValue::FeeConfig(c)) => c.base_fee >= 0,
        (DataKey::TierDiscount(_), StoreValue::Small(d)) => *d <= BPS_DENOMINATOR,
        (DataKey::BusinessTier(_), StoreValue::Small(_)) => true,
        (DataKey::VolumeBrackets, StoreValue::Brackets(b)) => check_brackets(
            &b.thresholds,
            &b.discounts,
        ),
        (DataKey::BusinessCount(_), StoreValue::Count(_)) => true,
        (DataKey::Attestation(_, _), StoreValue::Attestation(_)) => true,
        (DataKey::Revoked(_, _), StoreValue::Flag(_)) => true,
        (DataKey::Metadata(_, _), StoreValue::Metadata(d)) => check_currency_code(
            d.currency_code.as_str(),
        ),
        (DataKey::MultisigConfig, StoreValue::Multisig(c)) => check_multisig(c),
        (DataKey::NextProposalId, StoreValue::Count(_)) => true,
        (DataKey::Proposal(id), StoreValue::Proposal(p)) => p.id == *id && check_proposal(p),
        (DataKey::CoreAttestation, StoreValue::Principal(_)) => true,
        (DataKey::RevenueMetrics(_, _), StoreValue::Metrics(_)) => true,
        (DataKey::Dispute(_, _), StoreValue::Dispute(_)) => true,
        (DataKey::LatestIndexedPeriod(_), StoreValue::Text(_)) => true,
        _ => false,
    }
}

/// What must hold of the entry under `k` in a store of `n` keys whose next
/// proposal gets the number `next`.
pub open spec fn entry_fits(k: DataKeyView, v: StoreValueView, n: nat, next: u64) -> bool {
    &&& entry_ok(k, v)
    &&& counter_weight(k, v) <= n
    &&& k is Proposal ==> k->Proposal_0 < next
}

/// Whether `store` is in order: whether a ledger may go on from it.
pub fn check_ledger(store: &Store) -> (ok: bool)
    ensures
        ok == ledger_ok(store@),
{
    let n: usize = store.len();
    store.recall();
    let next: u64 = match store.get(&DataKey::NextProposalId) {
        Some(StoreValue::Count(c)) => *c,
        _ => 0,
    };
    let mut i: usize = 0;
    while i < n
        invariant
            i <= n,
            n == store.keys().len(),
            n == store@.dom().len(),
            store@.dom().finite(),
            next == next_proposal_id(store@),
            forall|k: DataKeyView| store@.contains_key(k) <==> store.keys().contains(k),
            forall|j: int|
                0 <= j < i ==> entry_fits(
                    #[trigger] store.keys()[j],
                    store@[store.keys()[j]],
                    n as nat,
                    next,
                ),
        decreases n - i,
    {
        let (key, value) = store.entry_at(i);
        if !check_entry(key, value) {
            return false;
        }
        let counted: bool = match (key, value) {
            (DataKey::BusinessCount(_), StoreValue::Count(c)) => *c < n as u64,
            (DataKey::NextProposalId, StoreValue::Count(c)) => *c < n as u64,
            (DataKey::Proposal(id), _) => *id < next,
            _ => true,
        };
        if !counted {
            assert(!entry_fits(key@, store@[key@], n as nat, next));
            return false;
        }
        i += 1;
    }
    proof {
        assert forall|k: DataKeyView| #[trigger] store@.contains_key(k) implies entry_fits(
            k,
            store@[k],
            n as nat,
            next,
        ) by {
            assert(store.keys().contains(k));
            let j = choose|j: int| 0 <= j < store.keys().len() && store.keys()[j] == k;
            assert(entry_fits(store.keys()[j], store@[store.keys()[j]], n as nat, next));
        }
    }
    true
}

} // verus!
