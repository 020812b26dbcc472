use vstd::prelude::*;
use crate::attestation::AttestationRecord;
use crate::dynamic_fees::{FeeConfig, FeeConfigView, VolumeBrackets, VolumeBracketsView};
use crate::extended_metadata::{AttestationMetadata, AttestationMetadataView};
use crate::lender::{DisputeStatus, DisputeStatusView, RevenueMetrics};
use crate::multisig::{MultisigConfig, MultisigConfigView, Proposal, ProposalView};
use crate::principal::Address;

verus! {

/// The kinds of key under which a contract keeps its data. Each kind is a
/// namespace of its own: keys of different kinds never meet.
#[derive(Debug)]
pub enum DataKey {
    /// The administrator who set the contract up.
    Admin,
    /// The role bitmap of a principal.
    Role(Address),
    /// The pause flag.
    Paused,
    /// The fee schedule.
    FeeConfig,
    /// The discount of a tier, in basis points.
    TierDiscount(u32),
    /// The tier of a business.
    BusinessTier(Address),
    /// The volume discount table.
    VolumeBrackets,
    /// How many submissions of a business were accepted.
    BusinessCount(Address),
    /// The attestation of a business for a period.
    Attestation(Address, String),
    /// Whether the attestation of a business for a period was revoked.
    Revoked(Address, String),
    /// What more the attestation of a business for a period says.
    Metadata(Address, String),
    /// The owners and the approval threshold.
    MultisigConfig,
    /// The number that the next proposal gets.
    NextProposalId,
    /// The proposal of a number.
    Proposal(u64),
    /// The attestation contract that a lender overlay reads.
    CoreAttestation,
    /// The revenue aggregates recorded for a business and a period.
    RevenueMetrics(Address, String),
    /// The dispute status recorded for a business and a period.
    Dispute(Address, String),
    /// The period of the latest attestation that has revenue aggregates.
    LatestIndexedPeriod(Address),
}

/// What a [`DataKey`] holds.
pub enum DataKeyView {
    Admin,
    Role(Seq<char>),
    Paused,
    FeeConfig,
    TierDiscount(u32),
    BusinessTier(Seq<char>),
    VolumeBrackets,
    BusinessCount(Seq<char>),
    Attestation(Seq<char>, Seq<char>),
    Revoked(Seq<char>, Seq<char>),
    Metadata(Seq<char>, Seq<char>),
    MultisigConfig,
    NextProposalId,
    Proposal(u64),
    CoreAttestation,
    RevenueMetrics(Seq<char>, Seq<char>),
    Dispute(Seq<char>, Seq<char>),
    LatestIndexedPeriod(Seq<char>),
}

impl View for DataKey {
    type V = DataKeyView;

    open spec fn view(&self) -> DataKeyView {
        match self {
            DataKey::Admin => DataKeyView::Admin,
            DataKey::Role(a) => DataKeyView::Role(a@),
            DataKey::Paused => DataKeyView::Paused,
            DataKey::FeeConfig => DataKeyView::FeeConfig,
            DataKey::TierDiscount(t) => DataKeyView::TierDiscount(*t),
            DataKey::BusinessTier(a) => DataKeyView::BusinessTier(a@),
            DataKey::VolumeBrackets => DataKeyView::VolumeBrackets,
            DataKey::BusinessCount(a) => DataKeyView::BusinessCount(a@),
            DataKey::Attestation(a, p) => DataKeyView::Attestation(a@, p@),
            DataKey::Revoked(a, p) => DataKeyView::Revoked(a@, p@),
            DataKey::Metadata(a, p) => DataKeyView::Metadata(a@, p@),
            DataKey::MultisigConfig => DataKeyView::MultisigConfig,
            DataKey::NextProposalId => DataKeyView::NextProposalId,
            DataKey::Proposal(n) => DataKeyView::Proposal(*n),
            DataKey::CoreAttestation => DataKeyView::CoreAttestation,
            DataKey::RevenueMetrics(a, p) => DataKeyView::RevenueMetrics(a@, p@),
            DataKey::Dispute(a, p) => DataKeyView::Dispute(a@, p@),
            DataKey::LatestIndexedPeriod(a) => DataKeyView::LatestIndexedPeriod(a@),
        }
    }
}

impl Clone for DataKey {
    fn clone(&self) -> (r: Self)
        ensures
            r == *self,
    {
        match self {
            DataKey::Admin => DataKey::Admin,
            DataKey::Role(a) => DataKey::Role(a.clone()),
            DataKey::Paused => DataKey::Paused,
            DataKey::FeeConfig => DataKey::FeeConfig,
            DataKey::TierDiscount(t) => DataKey::TierDiscount(*t),
            DataKey::BusinessTier(a) => DataKey::BusinessTier(a.clone()),
            DataKey::VolumeBrackets => DataKey::VolumeBrackets,
            DataKey::BusinessCount(a) => DataKey::BusinessCount(a.clone()),
            DataKey::Attestation(a, p) => DataKey::Attestation(a.clone(), p.clone()),
            DataKey::Revoked(a, p) => DataKey::Revoked(a.clone(), p.clone()),
            DataKey::Metadata(a, p) => DataKey::Metadata(a.clone(), p.clone()),
            DataKey::MultisigConfig => DataKey::MultisigConfig,
            DataKey::NextProposalId => DataKey::NextProposalId,
            DataKey::Proposal(n) => DataKey::Proposal(*n),
            DataKey::CoreAttestation => DataKey::CoreAttestation,
            DataKey::RevenueMetrics(a, p) => DataKey::RevenueMetrics(a.clone(), p.clone()),
            DataKey::Dispute(a, p) => DataKey::Dispute(a.clone(), p.clone()),
            DataKey::LatestIndexedPeriod(a) => DataKey::LatestIndexedPeriod(a.clone()),
        }
    }
}

impl DataKey {
    /// Whether both are the same key: the same kind, the same principal,
    /// period or number.
    pub fn same(&self, other: &DataKey) -> (r: bool)
        ensures
            r == (self@ == other@),
    {
        match (self, other) {
            (DataKey::Admin, DataKey::Admin) => true,
            (DataKey::Role(a), DataKey::Role(b)) => a.same(b),
            (DataKey::Paused, DataKey::Paused) => true,
            (DataKey::FeeConfig, DataKey::FeeConfig) => true,
            (DataKey::TierDiscount(a), DataKey::TierDiscount(b)) => *a == *b,
            (DataKey::BusinessTier(a), DataKey::BusinessTier(b)) => a.same(b),
            (DataKey::VolumeBrackets, DataKey::VolumeBrackets) => true,
            (DataKey::BusinessCount(a), DataKey::BusinessCount(b)) => a.same(b),
            (DataKey::Attestation(a, p), DataKey::Attestation(b, q)) => a.same(b) && *p == *q,
            (DataKey::Revoked(a, p), DataKey::Revoked(b, q)) => a.same(b) && *p == *q,
            (DataKey::Metadata(a, p), DataKey::Metadata(b, q)) => a.same(b) && *p == *q,
            (DataKey::MultisigConfig, DataKey::MultisigConfig) => true,
            (DataKey::NextProposalId, DataKey::NextProposalId) => true,
            (DataKey::Proposal(a), DataKey::Proposal(b)) => *a == *b,
            (DataKey::CoreAttestation, DataKey::CoreAttestation) => true,
            (DataKey::RevenueMetrics(a, p), DataKey::RevenueMetrics(b, q)) => a.same(b) && *p
                == *q,
            (DataKey::Dispute(a, p), DataKey::Dispute(b, q)) => a.same(b) && *p == *q,
            (DataKey::LatestIndexedPeriod(a), DataKey::LatestIndexedPeriod(b)) => a.same(b),
            _ => false,
        }
    }
}

/// The shapes of value that a contract keeps.
#[derive(Debug)]
pub enum StoreValue {
    Flag(bool),
    Small(u32),
    Count(u64),
    Principal(Address),
    Text(String),
    FeeConfig(FeeConfig),
    Brackets(VolumeBrackets),
    Attestation(AttestationRecord),
    Metadata(AttestationMetadata),
    Multisig(MultisigConfig),
    Proposal(Proposal),
    Metrics(RevenueMetrics),
    Dispute(DisputeStatus),
}

/// What a [`StoreValue`] holds.
pub enum StoreValueView {
    Flag(bool),
    Small(u32),
    Count(u64),
    Principal(Seq<char>),
    Text(Seq<char>),
    FeeConfig(FeeConfigView),
    Brackets(VolumeBracketsView),
    Attestation(AttestationRecord),
    Metadata(AttestationMetadataView),
    Multisig(MultisigConfigView),
    Proposal(ProposalView),
    Metrics(RevenueMetrics),
    Dispute(DisputeStatusView),
}

impl View for StoreValue {
    type V = StoreValueView;

    open spec fn view(&self) -> StoreValueView {
        match self {
            StoreValue::Flag(b) => StoreValueView::Flag(*b),
            StoreValue::Small(n) => StoreValueView::Small(*n),
            StoreValue::Count(n) => StoreValueView::Count(*n),
            StoreValue::Principal(a) => StoreValueView::Principal(a@),
            StoreValue::Text(s) => StoreValueView::Text(s@),
            StoreValue::FeeConfig(c) => StoreValueView::FeeConfig(c@),
            StoreValue::Brackets(b) => StoreValueView::Brackets(b@),
            StoreValue::Attestation(r) => StoreValueView::Attestation(*r),
            StoreValue::Metadata(m) => StoreValueView::Metadata(m@),
            StoreValue::Multisig(c) => StoreValueView::Multisig(c@),
            StoreValue::Proposal(p) => StoreValueView::Proposal(p@),
            StoreValue::Metrics(m) => StoreValueView::Metrics(*m),
            StoreValue::Dispute(d) => StoreValueView::Dispute(d@),
        }
    }
}

impl Clone for StoreValue {
    fn clone(&self) -> (r: Self)
        ensures
            r@ == self@,
    {
        match self {
            StoreValue::Flag(b) => StoreValue::Flag(*b),
            StoreValue::Small(n) => StoreValue::Small(*n),
            StoreValue::Count(n) => StoreValue::Count(*n),
            StoreValue::Principal(a) => StoreValue::Principal(a.clone()),
            StoreValue::Text(s) => StoreValue::Text(s.clone()),
            StoreValue::FeeConfig(c) => StoreValue::FeeConfig(c.clone()),
            StoreValue::Brackets(b) => StoreValue::Brackets(b.clone()),
            StoreValue::Attestation(r) => StoreValue::Attestation(*r),
            StoreValue::Metadata(m) => StoreValue::Metadata(m.clone()),
            StoreValue::Multisig(c) => StoreValue::Multisig(c.clone()),
            StoreValue::Proposal(p) => StoreValue::Proposal(p.clone()),
            StoreValue::Metrics(m) => StoreValue::Metrics(*m),
            StoreValue::Dispute(d) => StoreValue::Dispute(d.clone()),
        }
    }
}

/// What a store holds: at most one value under each key.
pub type StoreView = Map<DataKeyView, StoreValueView>;

/// The keys of a list of entries, in the list's order.
pub open spec fn entry_keys(entries: Seq<(DataKey, StoreValue)>) -> Seq<DataKeyView> {
    entries.map_values(|e: (DataKey, StoreValue)| e.0@)
}

/// The map that a list of entries stands for: a later entry replaces an
/// earlier one of the same key.
pub open spec fn entries_map(entries: Seq<(DataKey, StoreValue)>) -> StoreView
    decreases entries.len(),
{
    if entries.len() == 0 {
        Map::empty()
    } else {
        entries_map(entries.drop_last()).insert(entries.last().0@, entries.last().1@)
    }
}

/// With no key listed twice, the map of a list of entries has the list's
/// keys, each with the value listed beside it, and nothing else.
pub proof fn lemma_entries_map(entries: Seq<(DataKey, StoreValue)>)
    requires
        entry_keys(entries).no_duplicates(),
    ensures
        entries_map(entries).dom().finite(),
        entries_map(entries).dom().len() == entries.len(),
        forall|i: int|
            0 <= i < entries.len() ==> entries_map(entries).contains_key(#[trigger] entries[i].0@)
                && entries_map(entries)[entries[i].0@] == entries[i].1@,
        forall|k: DataKeyView| #[trigger]
            entries_map(entries).contains_key(k) ==> exists|i: int|
                0 <= i < entries.len() && entries[i].0@ == k,
    decreases entries.len(),
{
    if entries.len() > 0 {
        let head = entries.drop_last();
        let n = entries.len() - 1;
        assert forall|i: int, j: int| 0 <= i < head.len() && 0 <= j < head.len() && i != j implies entry_keys(
            head,
        )[i] != entry_keys(head)[j] by {
            assert(entry_keys(entries)[i] == entries[i].0@);
            assert(entry_keys(entries)[j] == entries[j].0@);
        }
        lemma_entries_map(head);
        assert(!entries_map(head).contains_key(entries[n].0@)) by {
            if entries_map(head).contains_key(entries[n].0@) {
                let i = choose|i: int| 0 <= i < head.len() && head[i].0@ == entries[n].0@;
                assert(entry_keys(entries)[i] == entries[i].0@);
                assert(entry_keys(entries)[n] == entries[n].0@);
            }
        }
        assert forall|i: int| 0 <= i < entries.len() implies entries_map(entries).contains_key(
            #[trigger] entries[i].0@,
        ) && entries_map(entries)[entries[i].0@] == entries[i].1@ by {
            if i < n {
                assert(head[i] == entries[i]);
            }
        }
        assert forall|k: DataKeyView| #[trigger] entries_map(entries).contains_key(k) implies exists|
            i: int,
        | 0 <= i < entries.len() && entries[i].0@ == k by {
            if k == entries[n].0@ {
                assert(entries[n].0@ == k);
            } else {
                let i = choose|i: int| 0 <= i < head.len() && head[i].0@ == k;
                assert(entries[i].0@ == k);
            }
        }
    }
}

/// Two lists of entries that hold the same keys and values, place by
/// place, stand for the same map.
pub proof fn lemma_same_entries(a: Seq<(DataKey, StoreValue)>, b: Seq<(DataKey, StoreValue)>)
    requires
        a.len() == b.len(),
        forall|i: int| 0 <= i < a.len() ==> a[i].0@ == b[i].0@ && a[i].1@ == b[i].1@,
    ensures
        entries_map(a) == entries_map(b),
        entry_keys(a) == entry_keys(b),
    decreases a.len(),
{
    assert(entry_keys(a) =~= entry_keys(b));
    if a.len() > 0 {
        lemma_same_entries(a.drop_last(), b.drop_last());
    }
}

/// A keyed store: the one place where a contract keeps what outlasts a call.
pub struct Store {
    entries: Vec<(DataKey, StoreValue)>,
}

impl View for Store {
    type V = StoreView;

    closed spec fn view(&self) -> StoreView {
        entries_map(self.entries@)
    }
}

impl Store {
    #[verifier::type_invariant]
    spec fn keys_distinct(self) -> bool {
        entry_keys(self.entries@).no_duplicates()
    }

    /// The keys in the order in which they were first written.
    pub closed spec fn keys(&self) -> Seq<DataKeyView> {
        entry_keys(self.entries@)
    }

    /// An empty store.
    pub fn new() -> (r: Self)
        ensures
            r@ == Map::<DataKeyView, StoreValueView>::empty(),
            r.keys() == Seq::<DataKeyView>::empty(),
    {
        let r = Store { entries: Vec::new() };
        assert(r.keys() =~= Seq::<DataKeyView>::empty());
        r
    }

    /// What holds of every store: it has finitely many keys, no more than
    /// a machine can count, and `keys()` lists each of them once, and
    /// nothing else.
    pub fn recall(&self)
        ensures
            self@.dom().finite(),
            self@.dom().len() == self.keys().len(),
            self@.dom().len() <= usize::MAX,
            self.keys().no_duplicates(),
            forall|k: DataKeyView| self@.contains_key(k) <==> self.keys().contains(k),
    {
        let _held: usize = self.entries.len();
        proof {
            use_type_invariant(self);
            lemma_entries_map(self.entries@);
            assert forall|k: DataKeyView| self.keys().contains(k) implies self@.contains_key(k) by {
                let i = choose|i: int| 0 <= i < self.keys().len() && self.keys()[i] == k;
                assert(self.entries@[i].0@ == k);
            }
            assert forall|k: DataKeyView| self@.contains_key(k) implies self.keys().contains(k) by {
                let i = choose|i: int| 0 <= i < self.entries@.len() && self.entries@[i].0@ == k;
                assert(self.keys()[i] == k);
            }
        }
    }

    /// A store of the given entries; `None` where a key comes twice.
    pub fn from_entries(entries: Vec<(DataKey, StoreValue)>) -> (r: Option<Store>)
        ensures
            r is Some <==> entry_keys(entries@).no_duplicates(),
            r is Some ==> r->Some_0.keys() == entry_keys(entries@) && r->Some_0@ == entries_map(
                entries@,
            ),
    {
        let mut i: usize = 0;
        while i < entries.len()
            invariant
                i <= entries@.len(),
                forall|a: int, b: int| 0 <= a < b < i ==> entries@[a].0@ != entries@[b].0@,
            decreases entries@.len() - i,
        {
            let mut j: usize = 0;
            while j < i
                invariant
                    j <= i < entries@.len(),
                    forall|a: int| 0 <= a < j ==> entries@[a].0@ != entries@[i as int].0@,
                decreases i - j,
            {
                if entries[j].0.same(&entries[i].0) {
                    assert(entry_keys(entries@)[j as int] == entry_keys(entries@)[i as int]);
                    return None;
                }
                j += 1;
            }
            i += 1;
        }
        assert forall|a: int, b: int|
            0 <= a < entry_keys(entries@).len() && 0 <= b < entry_keys(entries@).len() && a
                != b implies entry_keys(entries@)[a] != entry_keys(entries@)[b] by {
            if a < b {
                assert(entries@[a].0@ != entries@[b].0@);
            } else {
                assert(entries@[b].0@ != entries@[a].0@);
            }
        }
        Some(Store { entries })
    }

    /// The entries of the store: each key, in the order of `keys()`, with
    /// its value.
    pub fn entries(&self) -> (r: Vec<(DataKey, StoreValue)>)
        ensures
            entry_keys(r@) == self.keys(),
            entries_map(r@) == self@,
    {
        let mut out: Vec<(DataKey, StoreValue)> = Vec::new();
        let mut i: usize = 0;
        while i < self.entries.len()
            invariant
                i <= self.entries@.len(),
                out@.len() == i,
                forall|j: int|
                    0 <= j < i ==> out@[j].0@ == self.entries@[j].0@ && out@[j].1@
                        == self.entries@[j].1@,
            decreases self.entries@.len() - i,
        {
            out.push((self.entries[i].0.clone(), self.entries[i].1.clone()));
            i += 1;
        }
        proof {
            lemma_same_entries(out@, self.entries@);
        }
        out
    }

    /// How many keys the store holds.
    pub fn len(&self) -> (n: usize)
        ensures
            n == self@.dom().len(),
            n == self.keys().len(),
            self@.dom().finite(),
    {
        proof {
            use_type_invariant(self);
            lemma_entries_map(self.entries@);
        }
        self.entries.len()
    }

    fn find(&self, key: &DataKey) -> (r: Option<usize>)
        ensures
            match r {
                Some(i) => i < self.entries@.len() && self.entries@[i as int].0@ == key@
                    && self@.contains_key(key@) && self@[key@] == self.entries@[i as int].1@,
                None => !self@.contains_key(key@),
            },
    {
        let mut i: usize = 0;
        while i < self.entries.len()
            invariant
                i <= self.entries@.len(),
                forall|j: int| 0 <= j < i ==> self.entries@[j].0@ != key@,
            decreases self.entries@.len() - i,
        {
            if self.entries[i].0.same(key) {
                proof {
                    use_type_invariant(self);
                    lemma_entries_map(self.entries@);
                }
                return Some(i);
            }
            i += 1;
        }
        proof {
            use_type_invariant(self);
            lemma_entries_map(self.entries@);
        }
        None
    }

    /// Whether anything is stored under `key`.
    pub fn has(&self, key: &DataKey) -> (r: bool)
        ensures
            r == self@.contains_key(key@),
    {
        self.find(key).is_some()
    }

    /// What is stored under `key`, if anything.
    pub fn get(&self, key: &DataKey) -> (r: Option<&StoreValue>)
        ensures
            match r {
                Some(v) => self@.contains_key(key@) && self@[key@] == v@,
                None => !self@.contains_key(key@),
            },
    {
        match self.find(key) {
            Some(i) => Some(&self.entries[i].1),
            None => None,
        }
    }

    /// The key and the value at a position of `keys()`.
    pub fn entry_at(&self, i: usize) -> (r: (&DataKey, &StoreValue))
        requires
            i < self.keys().len(),
        ensures
            r.0@ == self.keys()[i as int],
            self@.contains_key(r.0@),
            self@[r.0@] == r.1@,
    {
        proof {
            use_type_invariant(self);
            lemma_entries_map(self.entries@);
        }
        (&self.entries[i].0, &self.entries[i].1)
    }

    /// Stores `value` under `key`, in place of what was there.
    pub fn set(&mut self, key: DataKey, value: StoreValue)
        ensures
            final(self)@ == old(self)@.insert(key@, value@),
            final(self).keys() == if old(self)@.contains_key(key@) {
                old(self).keys()
            } else {
                old(self).keys().push(key@)
            },
    {
        proof {
            use_type_invariant(&*self);
            lemma_entries_map(self.entries@);
        }
        let ghost before = self.entries@;
        let found = self.find(&key);
        let mut entries: Vec<(DataKey, StoreValue)> = Vec::new();
        assert(entry_keys(entries@) =~= Seq::<DataKeyView>::empty());
        core::mem::swap(&mut self.entries, &mut entries);
        match found {
            Some(i) => {
                entries.set(i, (key, value));
                proof {
                    let after = entries@;
                    assert(entry_keys(after) =~= entry_keys(before));
                    lemma_entries_map(after);
                    assert forall|k: DataKeyView| #[trigger]
                        entries_map(before).insert(key@, value@).contains_key(
                            k,
                        ) implies entries_map(after).contains_key(k) && entries_map(after)[k]
                        == entries_map(before).insert(key@, value@)[k] by {
                        if k != key@ {
                            let j = choose|j: int| 0 <= j < before.len() && before[j].0@ == k;
                            assert(after[j].0@ == k);
                            assert(after[j] == before[j]);
                        } else {
                            assert(after[i as int].0@ == k);
                        }
                    }
                    assert forall|k: DataKeyView| #[trigger]
                        entries_map(after).contains_key(k) implies entries_map(before).insert(
                        key@,
                        value@,
                    ).contains_key(k) by {
                        let j = choose|j: int| 0 <= j < after.len() && after[j].0@ == k;
                        assert(entry_keys(after)[j] == entry_keys(before)[j]);
                        assert(before[j].0@ == k);
                    }
                    assert(entries_map(after) =~= entries_map(before).insert(key@, value@));
                }
            },
            None => {
                entries.push((key, value));
                proof {
                    let after = entries@;
                    assert(after.drop_last() =~= before);
                    assert(entry_keys(after) =~= entry_keys(before).push(key@));
                    assert forall|i: int, j: int|
                        0 <= i < after.len() && 0 <= j < after.len() && i != j implies entry_keys(
                        after,
                    )[i] != entry_keys(after)[j] by {
                        if i < before.len() && j < before.len() {
                            assert(entry_keys(before)[i] != entry_keys(before)[j]);
                        } else if i < before.len() {
                            assert(before[i].0@ != key@);
                        } else {
                            assert(before[j].0@ != key@);
                        }
                    }
                }
            },
        }
        self.entries = entries;
    }
}

} // verus!
