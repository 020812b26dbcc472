use vstd::prelude::*;
use crate::access_control::roles_of;
use crate::dynamic_fees::FeeConfigView;
use crate::error::Error;
use crate::events::EventView;
use crate::ledger::{
    entry_ok, ledger_ok, lemma_insert_counted_ok, lemma_insert_ok, lemma_update_proposal_ok,
    next_proposal_id,
};
use crate::principal::{
    all_distinct, clone_addresses, contains_address, lemma_push_distinct,
    lemma_remove_distinct, position_of, principals, Address, AuthContext,
};
use crate::store::{DataKey, DataKeyView, Store, StoreValue, StoreValueView, StoreView};

verus! {

/// How long a proposal stays open, in seconds: seven days.
pub const PROPOSAL_TTL_SECONDS: u64 = 604_800;

/// What a proposal does once it is executed.
#[derive(Debug)]
pub enum ProposalAction {
    /// Pause the contract.
    Pause,
    /// Lift the pause.
    Unpause,
    /// Make a principal an owner.
    AddOwner(Address),
    /// Take ownership away from a principal.
    RemoveOwner(Address),
    /// Ask for this many approvals from now on.
    ChangeThreshold(u32),
    /// Give a principal the roles of a bit mask.
    GrantRole(Address, u32),
    /// Take the roles of a bit mask away from a principal.
    RevokeRole(Address, u32),
    /// Replace the fee schedule: token, collector, base fee, enabled.
    UpdateFeeConfig(Address, Address, i128, bool),
}

/// What a [`ProposalAction`] holds.
pub enum ProposalActionView {
    Pause,
    Unpause,
    AddOwner(Seq<char>),
    RemoveOwner(Seq<char>),
    ChangeThreshold(u32),
    GrantRole(Seq<char>, u32),
    RevokeRole(Seq<char>, u32),
    UpdateFeeConfig(Seq<char>, Seq<char>, i128, bool),
}

impl View for ProposalAction {
    type V = ProposalActionView;

    open spec fn view(&self) -> ProposalActionView {
        match self {
            ProposalAction::Pause => ProposalActionView::Pause,
            ProposalAction::Unpause => ProposalActionView::Unpause,
            ProposalAction::AddOwner(a) => ProposalActionView::AddOwner(a@),
            ProposalAction::RemoveOwner(a) => ProposalActionView::RemoveOwner(a@),
            ProposalAction::ChangeThreshold(t) => ProposalActionView::ChangeThreshold(*t),
            ProposalAction::GrantRole(a, r) => ProposalActionView::GrantRole(a@, *r),
            ProposalAction::RevokeRole(a, r) => ProposalActionView::RevokeRole(a@, *r),
            ProposalAction::UpdateFeeConfig(t, c, f, e) => ProposalActionView::UpdateFeeConfig(
                t@,
                c@,
                *f,
                *e,
            ),
        }
    }
}

impl Clone for ProposalAction {
    fn clone(&self) -> (r: Self)
        ensures
            r == *self,
    {
        match self {
            ProposalAction::Pause => ProposalAction::Pause,
            ProposalAction::Unpause => ProposalAction::Unpause,
            ProposalAction::AddOwner(a) => ProposalAction::AddOwner(a.clone()),
            ProposalAction::RemoveOwner(a) => ProposalAction::RemoveOwner(a.clone()),
            ProposalAction::ChangeThreshold(t) => ProposalAction::ChangeThreshold(*t),
            ProposalAction::GrantRole(a, r) => ProposalAction::GrantRole(a.clone(), *r),
            ProposalAction::RevokeRole(a, r) => ProposalAction::RevokeRole(a.clone(), *r),
            ProposalAction::UpdateFeeConfig(t, c, f, e) => ProposalAction::UpdateFeeConfig(
                t.clone(),
                c.clone(),
                *f,
                *e,
            ),
        }
    }
}

/// Where a proposal stands. `Pending`, `Rejected` and `Executed` are
/// recorded with the proposal; `Approved` and `Expired` are read off its
/// approvals and the clock.
#[derive(Clone, Copy, Debug, PartialEq, Eq, Structural)]
pub enum ProposalStatus {
    /// Open, short of approvals.
    Pending,
    /// Open, with enough approvals to be executed.
    Approved,
    /// Turned down by its proposer or an owner.
    Rejected,
    /// Carried out.
    Executed,
    /// Its time to live ran out before it was carried out.
    Expired,
}

/// A change that awaits the owners' approval.
#[derive(Debug)]
pub struct Proposal {
    /// Its number: proposals are numbered from zero in the order of creation.
    pub id: u64,
    /// What it does once executed.
    pub action: ProposalAction,
    /// The owner who made it.
    pub proposer: Address,
    /// The owners who approved it, each once, in the order of approval.
    pub approvals: Vec<Address>,
    /// `Pending`, `Rejected` or `Executed`.
    pub status: ProposalStatus,
    /// When it was made, in seconds.
    pub created_at: u64,
    /// From when on it can no longer be approved or executed.
    pub expires_at: u64,
}

/// What a [`Proposal`] holds.
pub struct ProposalView {
    pub id: u64,
    pub action: ProposalActionView,
    pub proposer: Seq<char>,
    pub approvals: Seq<Seq<char>>,
    pub status: ProposalStatus,
    pub created_at: u64,
    pub expires_at: u64,
}

impl View for Proposal {
    type V = ProposalView;

    open spec fn view(&self) -> ProposalView {
        ProposalView {
            id: self.id,
            action: self.action@,
            proposer: self.proposer@,
            approvals: principals(self.approvals@),
            status: self.status,
            created_at: self.created_at,
            expires_at: self.expires_at,
        }
    }
}

impl Clone for Proposal {
    fn clone(&self) -> (r: Self)
        ensures
            r@ == self@,
    {
        Proposal {
            id: self.id,
            action: self.action.clone(),
            proposer: self.proposer.clone(),
            approvals: clone_addresses(&self.approvals),
            status: self.status,
            created_at: self.created_at,
            expires_at: self.expires_at,
        }
    }
}

/// A proposal as the store may hold it: no owner approved twice, the
/// recorded status is no derived one, and it expires one time to live after
/// it was made.
pub open spec fn proposal_ok(p: ProposalView) -> bool {
    &&& p.approvals.no_duplicates()
    &&& p.status != ProposalStatus::Approved
    &&& p.status != ProposalStatus::Expired
    &&& p.expires_at == p.created_at + PROPOSAL_TTL_SECONDS
}

/// Whether `p` is a proposal as the store may hold it.
pub fn check_proposal(p: &Proposal) -> (ok: bool)
    ensures
        ok == proposal_ok(p@),
{
    if !all_distinct(&p.approvals) {
        return false;
    }
    match p.status {
        ProposalStatus::Approved => {
            return false;
        },
        ProposalStatus::Expired => {
            return false;
        },
        _ => {},
    }
    p.created_at <= u64::MAX - PROPOSAL_TTL_SECONDS && p.expires_at == p.created_at
        + PROPOSAL_TTL_SECONDS
}

/// The owners and how many of them must approve a proposal.
#[derive(Debug)]
pub struct MultisigConfig {
    pub owners: Vec<Address>,
    pub threshold: u32,
}

/// What a [`MultisigConfig`] holds.
pub struct MultisigConfigView {
    pub owners: Seq<Seq<char>>,
    pub threshold: u32,
}

impl View for MultisigConfig {
    type V = MultisigConfigView;

    open spec fn view(&self) -> MultisigConfigView {
        MultisigConfigView { owners: principals(self.owners@), threshold: self.threshold }
    }
}

impl Clone for MultisigConfig {
    fn clone(&self) -> (r: Self)
        ensures
            r@ == self@,
    {
        MultisigConfig { owners: clone_addresses(&self.owners), threshold: self.threshold }
    }
}

/// A multisig configuration as the store may hold it: no owner listed
/// twice, and a threshold of at least one and at most the number of owners.
pub open spec fn multisig_ok(c: MultisigConfigView) -> bool {
    &&& c.owners.no_duplicates()
    &&& 1 <= c.threshold <= c.owners.len()
}

/// Whether `c` is a multisig configuration as the store may hold it.
pub fn check_multisig(c: &MultisigConfig) -> (ok: bool)
    ensures
        ok == multisig_ok(c@),
{
    assert(principals(c.owners@).len() == c.owners@.len());
    all_distinct(&c.owners) && c.threshold >= 1 && c.threshold as usize <= c.owners.len()
}

/// The owners and the threshold, if multisig was set up.
pub open spec fn multisig_of(m: StoreView) -> Option<MultisigConfigView> {
    match m.get(DataKeyView::MultisigConfig) {
        Some(StoreValueView::Multisig(c)) => Some(c),
        _ => None,
    }
}

/// The owners: none before multisig was set up.
pub open spec fn owners_of(m: StoreView) -> Seq<Seq<char>> {
    match multisig_of(m) {
        Some(c) => c.owners,
        None => Seq::empty(),
    }
}

/// The approval threshold: zero before multisig was set up.
pub open spec fn threshold_of(m: StoreView) -> u32 {
    match multisig_of(m) {
        Some(c) => c.threshold,
        None => 0,
    }
}

/// Whether `who` is an owner.
pub open spec fn owner_in(m: StoreView, who: Seq<char>) -> bool {
    owners_of(m).contains(who)
}

/// Whether `who` signed the call and is an owner.
pub open spec fn owner_call(m: StoreView, auth: Set<Seq<char>>, who: Seq<char>) -> bool {
    auth.contains(who) && owner_in(m, who)
}

/// The proposal of number `id`, if there is one.
pub open spec fn proposal_of(m: StoreView, id: u64) -> Option<ProposalView> {
    match m.get(DataKeyView::Proposal(id)) {
        Some(StoreValueView::Proposal(p)) => Some(p),
        _ => None,
    }
}

/// How many owners approved the proposal of number `id`: none where there
/// is no such proposal.
pub open spec fn approval_count_of(m: StoreView, id: u64) -> nat {
    match proposal_of(m, id) {
        Some(p) => p.approvals.len(),
        None => 0,
    }
}

/// Whether the proposal of number `id` has as many approvals as the
/// threshold asks for.
pub open spec fn approved_in(m: StoreView, id: u64) -> bool {
    &&& proposal_of(m, id) is Some
    &&& multisig_of(m) is Some
    &&& approval_count_of(m, id) >= threshold_of(m)
}

/// Whether a proposal's time to live has run out at `now`.
pub open spec fn expired_at(p: ProposalView, now: u64) -> bool {
    now >= p.expires_at
}

/// Whether a proposal was executed or rejected.
pub open spec fn closed(p: ProposalView) -> bool {
    p.status == ProposalStatus::Executed || p.status == ProposalStatus::Rejected
}

/// Where the proposal of number `id` stands at `now`. What was recorded
/// comes first, then the clock, then the approvals.
pub open spec fn status_at(m: StoreView, id: u64, now: u64) -> Option<ProposalStatus> {
    match proposal_of(m, id) {
        None => None,
        Some(p) => Some(
            if closed(p) {
                p.status
            } else if expired_at(p, now) {
                ProposalStatus::Expired
            } else if approved_in(m, id) {
                ProposalStatus::Approved
            } else {
                ProposalStatus::Pending
            },
        ),
    }
}

/// Why a proposal can no longer be approved or rejected at `now`, if it
/// cannot.
pub open spec fn closed_error(p: ProposalView, now: u64) -> Option<Error> {
    if closed(p) {
        Some(Error::ProposalAlreadyTerminal)
    } else if expired_at(p, now) {
        Some(Error::ProposalExpired)
    } else {
        None
    }
}

/// A proposal with another recorded status.
pub open spec fn with_status(p: ProposalView, status: ProposalStatus) -> ProposalView {
    ProposalView { status, ..p }
}

/// A proposal with one more approval.
pub open spec fn with_approval(p: ProposalView, approver: Seq<char>) -> ProposalView {
    ProposalView { approvals: p.approvals.push(approver), ..p }
}

fn multisig_ref(store: &Store) -> (r: Option<&MultisigConfig>)
    ensures
        match r {
            Some(c) => multisig_of(store@) == Some(c@),
            None => multisig_of(store@) is None,
        },
{
    match store.get(&DataKey::MultisigConfig) {
        Some(StoreValue::Multisig(c)) => Some(c),
        _ => None,
    }
}

fn proposal_ref(store: &Store, id: u64) -> (r: Option<&Proposal>)
    ensures
        match r {
            Some(p) => proposal_of(store@, id) == Some(p@),
            None => proposal_of(store@, id) is None,
        },
{
    match store.get(&DataKey::Proposal(id)) {
        Some(StoreValue::Proposal(p)) => Some(p),
        _ => None,
    }
}

/// Sets multisig up with its owners and its threshold. It is set up once:
/// a second call is an `AlreadyInitialized`. An owner listed twice, or a
/// threshold of zero or above the number of owners, is an `InvalidConfig`.
pub fn initialize_multisig(store: &mut Store, owners: Vec<Address>, threshold: u32) -> (r: Result<
    (),
    Error,
>)
    ensures
        r == if multisig_of(old(store)@) is Some {
            Err::<(), Error>(Error::AlreadyInitialized)
        } else if !multisig_ok(
            MultisigConfigView { owners: principals(owners@), threshold },
        ) {
            Err::<(), Error>(Error::InvalidConfig)
        } else {
            Ok::<(), Error>(())
        },
        r is Err ==> final(store)@ == old(store)@,
        r is Ok ==> final(store)@ == old(store)@.insert(
            DataKeyView::MultisigConfig,
            StoreValueView::Multisig(MultisigConfigView { owners: principals(owners@), threshold }),
        ),
        ledger_ok(old(store)@) ==> ledger_ok(final(store)@),
{
    if multisig_ref(store).is_some() {
        return Err(Error::AlreadyInitialized);
    }
    if !all_distinct(&owners) || threshold < 1 || threshold as usize > owners.len() {
        return Err(Error::InvalidConfig);
    }
    let config = MultisigConfig { owners, threshold };
    proof {
        if ledger_ok(store@) {
            lemma_insert_ok(store@, DataKeyView::MultisigConfig, StoreValueView::Multisig(config@));
        }
    }
    store.set(DataKey::MultisigConfig, StoreValue::Multisig(config));
    Ok(())
}

/// The owners, in the order in which they were listed and added.
pub fn get_owners(store: &Store) -> (r: Vec<Address>)
    ensures
        principals(r@) == owners_of(store@),
{
    match multisig_ref(store) {
        Some(c) => clone_addresses(&c.owners),
        None => {
            let r: Vec<Address> = Vec::new();
            assert(principals(r@) =~= Seq::<Seq<char>>::empty());
            r
        },
    }
}

/// The approval threshold.
pub fn get_threshold(store: &Store) -> (r: u32)
    ensures
        r == threshold_of(store@),
{
    match multisig_ref(store) {
        Some(c) => c.threshold,
        None => 0,
    }
}

/// Whether `who` is an owner.
pub fn is_owner(store: &Store, who: &Address) -> (r: bool)
    ensures
        r == owner_in(store@, who@),
{
    match multisig_ref(store) {
        Some(c) => contains_address(&c.owners, who),
        None => false,
    }
}

/// The guard of the owners' entry points: `who` must have signed the call
/// and must be an owner.
pub fn require_owner(store: &Store, auth: &AuthContext, who: &Address) -> (r: Result<(), Error>)
    ensures
        r == if owner_call(store@, auth@, who@) {
            Ok::<(), Error>(())
        } else {
            Err::<(), Error>(Error::Unauthorized)
        },
{
    if !auth.authorizes(who) {
        return Err(Error::Unauthorized);
    }
    if !is_owner(store, who) {
        return Err(Error::Unauthorized);
    }
    Ok(())
}

/// The proposal that `create_proposal` stores.
pub open spec fn new_proposal(
    id: u64,
    proposer: Seq<char>,
    action: ProposalActionView,
    now: u64,
) -> ProposalView {
    ProposalView {
        id,
        action,
        proposer,
        approvals: Seq::empty(),
        status: ProposalStatus::Pending,
        created_at: now,
        expires_at: (now + PROPOSAL_TTL_SECONDS) as u64,
    }
}

/// Records a proposal of `proposer`, who must be an owner and must have
/// signed the call, and answers with its number: the proposals are
/// numbered from zero, each one above the one before.
pub fn create_proposal(
    store: &mut Store,
    auth: &AuthContext,
    proposer: &Address,
    action: ProposalAction,
    now: u64,
) -> (r: Result<u64, Error>)
    requires
        ledger_ok(old(store)@),
        now + PROPOSAL_TTL_SECONDS <= u64::MAX,
    ensures
        ledger_ok(final(store)@),
        !owner_call(old(store)@, auth@, proposer@) ==> r == Err::<u64, Error>(Error::Unauthorized)
            && final(store)@ == old(store)@,
        owner_call(old(store)@, auth@, proposer@) ==> r == Ok::<u64, Error>(
            next_proposal_id(old(store)@),
        ) && final(store)@ == old(store)@.insert(
            DataKeyView::Proposal(next_proposal_id(old(store)@)),
            StoreValueView::Proposal(
                new_proposal(next_proposal_id(old(store)@), proposer@, action@, now),
            ),
        ).insert(
            DataKeyView::NextProposalId,
            StoreValueView::Count((next_proposal_id(old(store)@) + 1) as u64),
        ),
{
    match require_owner(store, auth, proposer) {
        Err(e) => {
            return Err(e);
        },
        Ok(_) => {},
    }
    let id: u64 = match store.get(&DataKey::NextProposalId) {
        Some(StoreValue::Count(n)) => *n,
        _ => 0,
    };
    // The number cannot overflow: it is below the number of keys.
    store.recall();
    proof {
        if store@.contains_key(DataKeyView::NextProposalId) {
            assert(entry_ok(DataKeyView::NextProposalId, store@[DataKeyView::NextProposalId]));
            assert(crate::ledger::counter_weight(
                DataKeyView::NextProposalId,
                store@[DataKeyView::NextProposalId],
            ) <= store@.dom().len());
        }
        assert(id < u64::MAX);
    }
    let approvals: Vec<Address> = Vec::new();
    assert(principals(approvals@) =~= Seq::<Seq<char>>::empty());
    let proposal = Proposal {
        id,
        action,
        proposer: proposer.clone(),
        approvals,
        status: ProposalStatus::Pending,
        created_at: now,
        expires_at: now + PROPOSAL_TTL_SECONDS,
    };
    proof {
        assert(proposal@ == new_proposal(id, proposer@, action@, now));
        lemma_insert_counted_ok(
            store@,
            DataKeyView::Proposal(id),
            StoreValueView::Proposal(proposal@),
            DataKeyView::NextProposalId,
            (id + 1) as u64,
        );
    }
    store.set(DataKey::Proposal(id), StoreValue::Proposal(proposal));
    store.set(DataKey::NextProposalId, StoreValue::Count(id + 1));
    Ok(id)
}

/// What a proposal that may be missing holds.
pub open spec fn proposal_view(p: Option<Proposal>) -> Option<ProposalView> {
    match p {
        Some(p) => Some(p@),
        None => None,
    }
}

/// The proposal of number `id`, if there is one.
pub fn get_proposal(store: &Store, id: u64) -> (r: Option<Proposal>)
    ensures
        proposal_view(r) == proposal_of(store@, id),
{
    match proposal_ref(store, id) {
        Some(p) => Some(p.clone()),
        None => None,
    }
}

/// How many owners approved the proposal of number `id`.
pub fn get_approval_count(store: &Store, id: u64) -> (r: usize)
    ensures
        r == approval_count_of(store@, id),
{
    match proposal_ref(store, id) {
        Some(p) => {
            assert(principals(p.approvals@).len() == p.approvals@.len());
            p.approvals.len()
        },
        None => 0,
    }
}

/// Whether the proposal of number `id` has as many approvals as the
/// threshold asks for.
pub fn is_proposal_approved(store: &Store, id: u64) -> (r: bool)
    ensures
        r == approved_in(store@, id),
{
    match (proposal_ref(store, id), multisig_ref(store)) {
        (Some(p), Some(c)) => {
            assert(principals(p.approvals@).len() == p.approvals@.len());
            p.approvals.len() >= c.threshold as usize
        },
        _ => false,
    }
}

/// Whether the time to live of the proposal of number `id` has run out at
/// `now`; false where there is no such proposal.
pub fn is_proposal_expired(store: &Store, id: u64, now: u64) -> (r: bool)
    ensures
        r == (proposal_of(store@, id) is Some && expired_at(proposal_of(store@, id)->Some_0, now)),
{
    match proposal_ref(store, id) {
        Some(p) => now >= p.expires_at,
        None => false,
    }
}

/// Where the proposal of number `id` stands at `now`.
pub fn get_proposal_status(store: &Store, id: u64, now: u64) -> (r: Option<ProposalStatus>)
    ensures
        r == status_at(store@, id, now),
{
    match proposal_ref(store, id) {
        None => None,
        Some(p) => {
            match p.status {
                ProposalStatus::Executed => Some(ProposalStatus::Executed),
                ProposalStatus::Rejected => Some(ProposalStatus::Rejected),
                _ => {
                    if now >= p.expires_at {
                        Some(ProposalStatus::Expired)
                    } else if is_proposal_approved(store, id) {
                        Some(ProposalStatus::Approved)
                    } else {
                        Some(ProposalStatus::Pending)
                    }
                },
            }
        },
    }
}

fn check_open(p: &Proposal, now: u64) -> (r: Result<(), Error>)
    ensures
        r == match closed_error(p@, now) {
            Some(e) => Err::<(), Error>(e),
            None => Ok::<(), Error>(()),
        },
{
    match p.status {
        ProposalStatus::Executed => Err(Error::ProposalAlreadyTerminal),
        ProposalStatus::Rejected => Err(Error::ProposalAlreadyTerminal),
        _ => {
            if now >= p.expires_at {
                Err(Error::ProposalExpired)
            } else {
                Ok(())
            }
        },
    }
}

/// Why `approve_proposal` fails, if it does.
pub open spec fn approve_error(
    m: StoreView,
    auth: Set<Seq<char>>,
    approver: Seq<char>,
    id: u64,
    now: u64,
) -> Option<Error> {
    if !owner_call(m, auth, approver) {
        Some(Error::Unauthorized)
    } else if proposal_of(m, id) is None {
        Some(Error::NotFound)
    } else if closed_error(proposal_of(m, id)->Some_0, now) is Some {
        closed_error(proposal_of(m, id)->Some_0, now)
    } else if proposal_of(m, id)->Some_0.approvals.contains(approver) {
        Some(Error::AlreadyExists)
    } else {
        None
    }
}

/// Adds the approval of `approver`, who must be an owner and must have
/// signed the call, to the proposal of number `id`. An owner approves a
/// proposal once: a second approval is an `AlreadyExists`, and counts for
/// nothing.
pub fn approve_proposal(
    store: &mut Store,
    auth: &AuthContext,
    approver: &Address,
    id: u64,
    now: u64,
) -> (r: Result<(), Error>)
    requires
        ledger_ok(old(store)@),
    ensures
        ledger_ok(final(store)@),
        match approve_error(old(store)@, auth@, approver@, id, now) {
            Some(e) => r == Err::<(), Error>(e) && final(store)@ == old(store)@,
            None => r == Ok::<(), Error>(()) && final(store)@ == old(store)@.insert(
                DataKeyView::Proposal(id),
                StoreValueView::Proposal(
                    with_approval(proposal_of(old(store)@, id)->Some_0, approver@),
                ),
            ),
        },
{
    match require_owner(store, auth, approver) {
        Err(e) => {
            return Err(e);
        },
        Ok(_) => {},
    }
    let mut proposal = match get_proposal(store, id) {
        None => {
            return Err(Error::NotFound);
        },
        Some(p) => p,
    };
    match check_open(&proposal, now) {
        Err(e) => {
            return Err(e);
        },
        Ok(_) => {},
    }
    if contains_address(&proposal.approvals, approver) {
        return Err(Error::AlreadyExists);
    }
    let ghost before = proposal@;
    proposal.approvals.push(approver.clone());
    proof {
        assert(principals(proposal.approvals@) =~= before.approvals.push(approver@));
        assert(proposal@ == with_approval(before, approver@));
        assert(entry_ok(DataKeyView::Proposal(id), store@[DataKeyView::Proposal(id)]));
        lemma_push_distinct(before.approvals, approver@);
        lemma_update_proposal_ok(store@, id, StoreValueView::Proposal(proposal@));
    }
    store.set(DataKey::Proposal(id), StoreValue::Proposal(proposal));
    Ok(())
}

/// Why `reject_proposal` fails, if it does.
pub open spec fn reject_error(
    m: StoreView,
    auth: Set<Seq<char>>,
    rejecter: Seq<char>,
    id: u64,
    now: u64,
) -> Option<Error> {
    if !auth.contains(rejecter) {
        Some(Error::Unauthorized)
    } else if proposal_of(m, id) is None {
        Some(Error::NotFound)
    } else if rejecter != proposal_of(m, id)->Some_0.proposer && !owner_in(m, rejecter) {
        Some(Error::Unauthorized)
    } else {
        closed_error(proposal_of(m, id)->Some_0, now)
    }
}

/// Turns the proposal of number `id` down. Its proposer may do so, and any
/// owner; either must have signed the call.
pub fn reject_proposal(
    store: &mut Store,
    auth: &AuthContext,
    rejecter: &Address,
    id: u64,
    now: u64,
) -> (r: Result<(), Error>)
    requires
        ledger_ok(old(store)@),
    ensures
        ledger_ok(final(store)@),
        match reject_error(old(store)@, auth@, rejecter@, id, now) {
            Some(e) => r == Err::<(), Error>(e) && final(store)@ == old(store)@,
            None => r == Ok::<(), Error>(()) && final(store)@ == old(store)@.insert(
                DataKeyView::Proposal(id),
                StoreValueView::Proposal(
                    with_status(proposal_of(old(store)@, id)->Some_0, ProposalStatus::Rejected),
                ),
            ),
        },
{
    if !auth.authorizes(rejecter) {
        return Err(Error::Unauthorized);
    }
    let mut proposal = match get_proposal(store, id) {
        None => {
            return Err(Error::NotFound);
        },
        Some(p) => p,
    };
    if !rejecter.same(&proposal.proposer) && !is_owner(store, rejecter) {
        return Err(Error::Unauthorized);
    }
    match check_open(&proposal, now) {
        Err(e) => {
            return Err(e);
        },
        Ok(_) => {},
    }
    let ghost before = proposal@;
    proposal.status = ProposalStatus::Rejected;
    proof {
        assert(proposal@ == with_status(before, ProposalStatus::Rejected));
        assert(entry_ok(DataKeyView::Proposal(id), store@[DataKeyView::Proposal(id)]));
        lemma_update_proposal_ok(store@, id, StoreValueView::Proposal(proposal@));
    }
    store.set(DataKey::Proposal(id), StoreValue::Proposal(proposal));
    Ok(())
}

/// Records that the proposal of number `id` was carried out.
pub fn mark_executed(store: &mut Store, id: u64)
    requires
        ledger_ok(old(store)@),
        proposal_of(old(store)@, id) is Some,
    ensures
        ledger_ok(final(store)@),
        final(store)@ == old(store)@.insert(
            DataKeyView::Proposal(id),
            StoreValueView::Proposal(
                with_status(proposal_of(old(store)@, id)->Some_0, ProposalStatus::Executed),
            ),
        ),
{
    let mut proposal = match get_proposal(store, id) {
        None => {
            return ;
        },
        Some(p) => p,
    };
    let ghost before = proposal@;
    proposal.status = ProposalStatus::Executed;
    proof {
        assert(proposal@ == with_status(before, ProposalStatus::Executed));
        assert(entry_ok(DataKeyView::Proposal(id), store@[DataKeyView::Proposal(id)]));
        lemma_update_proposal_ok(store@, id, StoreValueView::Proposal(proposal@));
    }
    store.set(DataKey::Proposal(id), StoreValue::Proposal(proposal));
}

/// Why a change of the owners or the threshold is refused, if it is.
pub open spec fn owners_error(m: StoreView, action: ProposalActionView) -> Option<Error> {
    match action {
        ProposalActionView::AddOwner(a) => if multisig_of(m) is None {
            Some(Error::NotInitialized)
        } else if owner_in(m, a) {
            Some(Error::AlreadyExists)
        } else {
            None
        },
        ProposalActionView::RemoveOwner(a) => if multisig_of(m) is None {
            Some(Error::NotInitialized)
        } else if !owner_in(m, a) {
            Some(Error::NotFound)
        } else if owners_of(m).len() - 1 < threshold_of(m) {
            Some(Error::InvalidConfig)
        } else {
            None
        },
        ProposalActionView::ChangeThreshold(t) => if multisig_of(m) is None {
            Some(Error::NotInitialized)
        } else if t < 1 || t > owners_of(m).len() {
            Some(Error::InvalidConfig)
        } else {
            None
        },
        _ => None,
    }
}

/// The owners and the threshold after a change of them.
pub open spec fn owners_after(m: StoreView, action: ProposalActionView) -> MultisigConfigView {
    match action {
        ProposalActionView::AddOwner(a) => MultisigConfigView {
            owners: owners_of(m).push(a),
            threshold: threshold_of(m),
        },
        ProposalActionView::RemoveOwner(a) => MultisigConfigView {
            owners: owners_of(m).remove(owners_of(m).index_of(a)),
            threshold: threshold_of(m),
        },
        ProposalActionView::ChangeThreshold(t) => MultisigConfigView {
            owners: owners_of(m),
            threshold: t,
        },
        _ => MultisigConfigView { owners: owners_of(m), threshold: threshold_of(m) },
    }
}

/// Makes `new_owner` an owner. One who is an owner is an `AlreadyExists`.
pub fn add_owner(store: &mut Store, new_owner: &Address) -> (r: Result<(), Error>)
    requires
        ledger_ok(old(store)@),
    ensures
        ledger_ok(final(store)@),
        match owners_error(old(store)@, ProposalActionView::AddOwner(new_owner@)) {
            Some(e) => r == Err::<(), Error>(e) && final(store)@ == old(store)@,
            None => r == Ok::<(), Error>(()) && final(store)@ == old(store)@.insert(
                DataKeyView::MultisigConfig,
                StoreValueView::Multisig(
                    owners_after(old(store)@, ProposalActionView::AddOwner(new_owner@)),
                ),
            ),
        },
{
    let mut config = match multisig_ref(store) {
        None => {
            return Err(Error::NotInitialized);
        },
        Some(c) => c.clone(),
    };
    if contains_address(&config.owners, new_owner) {
        return Err(Error::AlreadyExists);
    }
    let ghost before = config@;
    config.owners.push(new_owner.clone());
    proof {
        assert(principals(config.owners@) =~= before.owners.push(new_owner@));
        if ledger_ok(store@) {
            assert(entry_ok(DataKeyView::MultisigConfig, store@[DataKeyView::MultisigConfig]));
            lemma_push_distinct(before.owners, new_owner@);
            lemma_insert_ok(store@, DataKeyView::MultisigConfig, StoreValueView::Multisig(config@));
        }
    }
    store.set(DataKey::MultisigConfig, StoreValue::Multisig(config));
    Ok(())
}

/// Takes ownership away from `owner`. One who is no owner is a `NotFound`;
/// a removal that would leave fewer owners than the threshold asks for is
/// an `InvalidConfig`.
pub fn remove_owner(store: &mut Store, owner: &Address) -> (r: Result<(), Error>)
    requires
        ledger_ok(old(store)@),
    ensures
        ledger_ok(final(store)@),
        match owners_error(old(store)@, ProposalActionView::RemoveOwner(owner@)) {
            Some(e) => r == Err::<(), Error>(e) && final(store)@ == old(store)@,
            None => r == Ok::<(), Error>(()) && final(store)@ == old(store)@.insert(
                DataKeyView::MultisigConfig,
                StoreValueView::Multisig(
                    owners_after(old(store)@, ProposalActionView::RemoveOwner(owner@)),
                ),
            ),
        },
{
    let mut config = match multisig_ref(store) {
        None => {
            return Err(Error::NotInitialized);
        },
        Some(c) => c.clone(),
    };
    let ghost before = config@;
    let i: usize = match position_of(&config.owners, owner) {
        None => {
            return Err(Error::NotFound);
        },
        Some(i) => i,
    };
    proof {
        assert(before.owners[i as int] == owner@);
        assert(before.owners.contains(owner@));
        assert(entry_ok(DataKeyView::MultisigConfig, store@[DataKeyView::MultisigConfig]));
        assert(before.owners.index_of(owner@) == i) by {
            let j = before.owners.index_of(owner@);
            assert(0 <= j < before.owners.len() && before.owners[j] == owner@);
        }
    }
    assert(before.owners.len() == config.owners@.len());
    if config.owners.len() - 1 < config.threshold as usize {
        return Err(Error::InvalidConfig);
    }
    config.owners.remove(i);
    proof {
        assert(principals(config.owners@) =~= before.owners.remove(i as int));
        if ledger_ok(store@) {
            assert(entry_ok(DataKeyView::MultisigConfig, store@[DataKeyView::MultisigConfig]));
            lemma_remove_distinct(before.owners, i as int);
            lemma_insert_ok(store@, DataKeyView::MultisigConfig, StoreValueView::Multisig(config@));
        }
    }
    store.set(DataKey::MultisigConfig, StoreValue::Multisig(config));
    Ok(())
}

/// Asks for `threshold` approvals from now on. A threshold of zero or above
/// the number of owners is an `InvalidConfig`.
pub fn set_threshold(store: &mut Store, threshold: u32) -> (r: Result<(), Error>)
    requires
        ledger_ok(old(store)@),
    ensures
        ledger_ok(final(store)@),
        match owners_error(old(store)@, ProposalActionView::ChangeThreshold(threshold)) {
            Some(e) => r == Err::<(), Error>(e) && final(store)@ == old(store)@,
            None => r == Ok::<(), Error>(()) && final(store)@ == old(store)@.insert(
                DataKeyView::MultisigConfig,
                StoreValueView::Multisig(
                    owners_after(old(store)@, ProposalActionView::ChangeThreshold(threshold)),
                ),
            ),
        },
{
    let mut config = match multisig_ref(store) {
        None => {
            return Err(Error::NotInitialized);
        },
        Some(c) => c.clone(),
    };
    assert(principals(config.owners@).len() == config.owners@.len());
    if threshold < 1 || threshold as usize > config.owners.len() {
        return Err(Error::InvalidConfig);
    }
    config.threshold = threshold;
    proof {
        if ledger_ok(store@) {
            assert(entry_ok(DataKeyView::MultisigConfig, store@[DataKeyView::MultisigConfig]));
            lemma_insert_ok(store@, DataKeyView::MultisigConfig, StoreValueView::Multisig(config@));
        }
    }
    store.set(DataKey::MultisigConfig, StoreValue::Multisig(config));
    Ok(())
}

/// Why an approved action is refused when it comes to be carried out, if
/// it is.
pub open spec fn action_error(m: StoreView, action: ProposalActionView) -> Option<Error> {
    match action {
        ProposalActionView::UpdateFeeConfig(_, _, base_fee, _) => if base_fee < 0 {
            Some(Error::InvalidConfig)
        } else {
            None
        },
        _ => owners_error(m, action),
    }
}

/// The store after an action was carried out.
pub open spec fn after_action(m: StoreView, action: ProposalActionView) -> StoreView {
    match action {
        ProposalActionView::Pause => m.insert(DataKeyView::Paused, StoreValueView::Flag(true)),
        ProposalActionView::Unpause => m.insert(DataKeyView::Paused, StoreValueView::Flag(false)),
        ProposalActionView::GrantRole(account, role) => m.insert(
            DataKeyView::Role(account),
            StoreValueView::Small(roles_of(m, account) | role),
        ),
        ProposalActionView::RevokeRole(account, role) => m.insert(
            DataKeyView::Role(account),
            StoreValueView::Small(roles_of(m, account) & !role),
        ),
        ProposalActionView::UpdateFeeConfig(token, collector, base_fee, enabled) => m.insert(
            DataKeyView::FeeConfig,
            StoreValueView::FeeConfig(FeeConfigView { token, collector, base_fee, enabled }),
        ),
        _ => m.insert(
            DataKeyView::MultisigConfig,
            StoreValueView::Multisig(owners_after(m, action)),
        ),
    }
}

/// The event that goes with an action that `executor` carried out; a
/// change of the owners or of the threshold has none.
pub open spec fn action_event(action: ProposalActionView, executor: Seq<char>) -> Option<
    EventView,
> {
    match action {
        ProposalActionView::Pause => Some(EventView::Paused(executor)),
        ProposalActionView::Unpause => Some(EventView::Unpaused(executor)),
        ProposalActionView::GrantRole(account, role) => Some(
            EventView::RoleGranted(account, role, executor),
        ),
        ProposalActionView::RevokeRole(account, role) => Some(
            EventView::RoleRevoked(account, role, executor),
        ),
        ProposalActionView::UpdateFeeConfig(token, collector, base_fee, enabled) => Some(
            EventView::FeeConfigChanged(token, collector, base_fee, enabled, executor),
        ),
        _ => None,
    }
}

/// Why `execute_proposal` fails, if it does: the executor is no owner or
/// did not sign, there is no such proposal, it was executed or rejected
/// before, it is short of approvals, its time ran out, or its action is
/// refused.
pub open spec fn execute_error(
    m: StoreView,
    auth: Set<Seq<char>>,
    executor: Seq<char>,
    id: u64,
    now: u64,
) -> Option<Error> {
    if !owner_call(m, auth, executor) {
        Some(Error::Unauthorized)
    } else if proposal_of(m, id) is None {
        Some(Error::NotFound)
    } else if closed(proposal_of(m, id)->Some_0) {
        Some(Error::ProposalAlreadyTerminal)
    } else if !approved_in(m, id) {
        Some(Error::ProposalNotApproved)
    } else if expired_at(proposal_of(m, id)->Some_0, now) {
        Some(Error::ProposalExpired)
    } else {
        action_error(m, proposal_of(m, id)->Some_0.action)
    }
}

/// The store after the proposal of number `id` was executed: its action
/// was carried out, and the proposal is recorded as executed.
pub open spec fn after_execute(m: StoreView, id: u64) -> StoreView {
    after_action(m, proposal_of(m, id)->Some_0.action).insert(
        DataKeyView::Proposal(id),
        StoreValueView::Proposal(
            with_status(proposal_of(m, id)->Some_0, ProposalStatus::Executed),
        ),
    )
}

} // verus!
