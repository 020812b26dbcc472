use vstd::prelude::*;
use crate::access_control;
use crate::contract::AttestationContract;
use crate::dynamic_fees::{self, FeeConfig};
use crate::error::Error;
use crate::events::{event_of, Event};
use crate::ledger::next_proposal_id;
use crate::multisig::{
    self, action_event, after_execute, approval_count_of, approve_error, approved_in,
    execute_error, new_proposal, owner_call, owner_in, owners_of, proposal_of, proposal_view,
    reject_error, status_at, threshold_of, with_approval, with_status, Proposal, ProposalAction,
    ProposalStatus, PROPOSAL_TTL_SECONDS,
};
use crate::principal::{principals, Address, AuthContext};
use crate::store::{DataKeyView, StoreValueView};

verus! {

impl AttestationContract {
    /// Records a proposal of `proposer`, who must be an owner and must
    /// have signed the call, and answers with its number. Proposals are
    /// numbered from zero, each one above the one before. `now` is the
    /// time of the call, in seconds; the proposal expires
    /// `PROPOSAL_TTL_SECONDS` later.
    pub fn create_proposal(
        &mut self,
        auth: &AuthContext,
        proposer: Address,
        action: ProposalAction,
        now: u64,
    ) -> (r: Result<u64, Error>)
        requires
            now + PROPOSAL_TTL_SECONDS <= u64::MAX,
        ensures
            !owner_call(old(self)@, auth@, proposer@) ==> r == Err::<u64, Error>(
                Error::Unauthorized,
            ) && final(self)@ == old(self)@,
            owner_call(old(self)@, auth@, proposer@) ==> r == Ok::<u64, Error>(
                next_proposal_id(old(self)@),
            ) && final(self)@ == old(self)@.insert(
                DataKeyView::Proposal(next_proposal_id(old(self)@)),
                StoreValueView::Proposal(
                    new_proposal(next_proposal_id(old(self)@), proposer@, action@, now),
                ),
            ).insert(
                DataKeyView::NextProposalId,
                StoreValueView::Count((next_proposal_id(old(self)@) + 1) as u64),
            ),
    {
        let mut store = self.take_store();
        let r = multisig::create_proposal(&mut store, auth, &proposer, action, now);
        self.put_store(store);
        r
    }

    /// Adds the approval of `approver`, who must be an owner and must have
    /// signed the call, to the proposal of number `id`. An owner approves
    /// a proposal once: a second approval is an `AlreadyExists`, and
    /// counts for nothing.
    pub fn approve_proposal(&mut self, auth: &AuthContext, approver: Address, id: u64, now: u64) -> (r:
        Result<(), Error>)
        ensures
            match approve_error(old(self)@, auth@, approver@, id, now) {
                Some(e) => r == Err::<(), Error>(e) && final(self)@ == old(self)@,
                None => r == Ok::<(), Error>(()) && final(self)@ == old(self)@.insert(
                    DataKeyView::Proposal(id),
                    StoreValueView::Proposal(
                        with_approval(proposal_of(old(self)@, id)->Some_0, approver@),
                    ),
                ),
            },
    {
        let mut store = self.take_store();
        let r = multisig::approve_proposal(&mut store, auth, &approver, id, now);
        self.put_store(store);
        r
    }

    /// Turns the proposal of number `id` down. Its proposer may do so, and
    /// any owner; either must have signed the call.
    pub fn reject_proposal(&mut self, auth: &AuthContext, rejecter: Address, id: u64, now: u64) -> (r:
        Result<(), Error>)
        ensures
            match reject_error(old(self)@, auth@, rejecter@, id, now) {
                Some(e) => r == Err::<(), Error>(e) && final(self)@ == old(self)@,
                None => r == Ok::<(), Error>(()) && final(self)@ == old(self)@.insert(
                    DataKeyView::Proposal(id),
                    StoreValueView::Proposal(
                        with_status(proposal_of(old(self)@, id)->Some_0, ProposalStatus::Rejected),
                    ),
                ),
            },
    {
        let mut store = self.take_store();
        let r = multisig::reject_proposal(&mut store, auth, &rejecter, id, now);
        self.put_store(store);
        r
    }

    /// Carries out the proposal of number `id` and records it as executed.
    /// `executor` must be an owner and must have signed the call; the
    /// proposal must have as many approvals as the threshold asks for, and
    /// its time must not have run out. A proposal is executed once. The
    /// actions do what the administrator's own entry points do, and hand
    /// back the same events, with `executor` named as the one who made the
    /// change.
    pub fn execute_proposal(&mut self, auth: &AuthContext, executor: Address, id: u64, now: u64) -> (r:
        Result<Option<Event>, Error>)
        ensures
            match execute_error(old(self)@, auth@, executor@, id, now) {
                Some(e) => r is Err && r->Err_0 == e && final(self)@ == old(self)@,
                None => r is Ok && event_of(r->Ok_0) == action_event(
                    proposal_of(old(self)@, id)->Some_0.action,
                    executor@,
                ) && final(self)@ == after_execute(old(self)@, id),
            },
    {
        match multisig::require_owner(self.store(), auth, &executor) {
            Err(e) => {
                return Err(e);
            },
            Ok(_) => {},
        }
        let proposal = match multisig::get_proposal(self.store(), id) {
            None => {
                return Err(Error::NotFound);
            },
            Some(p) => p,
        };
        match proposal.status {
            ProposalStatus::Executed => {
                return Err(Error::ProposalAlreadyTerminal);
            },
            ProposalStatus::Rejected => {
                return Err(Error::ProposalAlreadyTerminal);
            },
            _ => {},
        }
        if !multisig::is_proposal_approved(self.store(), id) {
            return Err(Error::ProposalNotApproved);
        }
        if multisig::is_proposal_expired(self.store(), id, now) {
            return Err(Error::ProposalExpired);
        }
        let mut store = self.take_store();
        let ghost before = store@;
        let outcome: Result<Option<Event>, Error> = match &proposal.action {
            ProposalAction::Pause => {
                access_control::set_paused(&mut store, true);
                Ok(Some(Event::Paused(executor)))
            },
            ProposalAction::Unpause => {
                access_control::set_paused(&mut store, false);
                Ok(Some(Event::Unpaused(executor)))
            },
            ProposalAction::AddOwner(new_owner) => {
                match multisig::add_owner(&mut store, new_owner) {
                    Err(e) => Err(e),
                    Ok(_) => Ok(None),
                }
            },
            ProposalAction::RemoveOwner(owner) => {
                match multisig::remove_owner(&mut store, owner) {
                    Err(e) => Err(e),
                    Ok(_) => Ok(None),
                }
            },
            ProposalAction::ChangeThreshold(threshold) => {
                match multisig::set_threshold(&mut store, *threshold) {
                    Err(e) => Err(e),
                    Ok(_) => Ok(None),
                }
            },
            ProposalAction::GrantRole(account, role) => {
                access_control::grant_role(&mut store, account, *role);
                Ok(Some(Event::RoleGranted(account.clone(), *role, executor)))
            },
            ProposalAction::RevokeRole(account, role) => {
                access_control::revoke_role(&mut store, account, *role);
                Ok(Some(Event::RoleRevoked(account.clone(), *role, executor)))
            },
            ProposalAction::UpdateFeeConfig(token, collector, base_fee, enabled) => {
                if *base_fee < 0 {
                    Err(Error::InvalidConfig)
                } else {
                    let config = FeeConfig {
                        token: token.clone(),
                        collector: collector.clone(),
                        base_fee: *base_fee,
                        enabled: *enabled,
                    };
                    dynamic_fees::set_fee_config(&mut store, config);
                    Ok(
                        Some(
                            Event::FeeConfigChanged(
                                token.clone(),
                                collector.clone(),
                                *base_fee,
                                *enabled,
                                executor,
                            ),
                        ),
                    )
                }
            },
        };
        if outcome.is_ok() {
            assert(proposal_of(store@, id) == proposal_of(before, id));
            multisig::mark_executed(&mut store, id);
        }
        self.put_store(store);
        outcome
    }

    /// The proposal of number `id`; `None` where there is none.
    pub fn get_proposal(&self, id: u64) -> (r: Option<Proposal>)
        ensures
            proposal_view(r) == proposal_of(self@, id),
    {
        multisig::get_proposal(self.store(), id)
    }

    /// Where the proposal of number `id` stands at `now`; `None` where
    /// there is none.
    pub fn get_proposal_status(&self, id: u64, now: u64) -> (r: Option<ProposalStatus>)
        ensures
            r == status_at(self@, id, now),
    {
        multisig::get_proposal_status(self.store(), id, now)
    }

    /// How many owners approved the proposal of number `id`.
    pub fn get_approval_count(&self, id: u64) -> (r: usize)
        ensures
            r == approval_count_of(self@, id),
    {
        multisig::get_approval_count(self.store(), id)
    }

    /// Whether the proposal of number `id` has as many approvals as the
    /// threshold asks for.
    pub fn is_proposal_approved(&self, id: u64) -> (r: bool)
        ensures
            r == approved_in(self@, id),
    {
        multisig::is_proposal_approved(self.store(), id)
    }

    /// The owners.
    pub fn get_multisig_owners(&self) -> (r: Vec<Address>)
        ensures
            principals(r@) == owners_of(self@),
    {
        multisig::get_owners(self.store())
    }

    /// The approval threshold: zero before multisig was set up.
    pub fn get_multisig_threshold(&self) -> (r: u32)
        ensures
            r == threshold_of(self@),
    {
        multisig::get_threshold(self.store())
    }

    /// Whether `address` is an owner.
    pub fn is_multisig_owner(&self, address: &Address) -> (r: bool)
        ensures
            r == owner_in(self@, address@),
    {
        multisig::is_owner(self.store(), address)
    }
}

} // verus!
