use vstd::prelude::*;
use crate::attestation::MerkleRoot;
use crate::principal::Address;

verus! {

/// An attestation was stored.
#[derive(Debug)]
pub struct AttestationSubmittedEvent {
    pub business: Address,
    pub period: String,
    pub merkle_root: MerkleRoot,
    pub timestamp: u64,
    pub version: u32,
    pub fee_paid: i128,
}

/// What an [`AttestationSubmittedEvent`] holds.
pub struct AttestationSubmittedView {
    pub business: Seq<char>,
    pub period: Seq<char>,
    pub merkle_root: MerkleRoot,
    pub timestamp: u64,
    pub version: u32,
    pub fee_paid: i128,
}

impl View for AttestationSubmittedEvent {
    type V = AttestationSubmittedView;

    open spec fn view(&self) -> AttestationSubmittedView {
        AttestationSubmittedView {
            business: self.business@,
            period: self.period@,
            merkle_root: self.merkle_root,
            timestamp: self.timestamp,
            version: self.version,
            fee_paid: self.fee_paid,
        }
    }
}

/// An attestation was revoked.
#[derive(Debug)]
pub struct AttestationRevokedEvent {
    pub business: Address,
    pub period: String,
    pub revoked_by: Address,
    pub reason: String,
}

/// What an [`AttestationRevokedEvent`] holds.
pub struct AttestationRevokedView {
    pub business: Seq<char>,
    pub period: Seq<char>,
    pub revoked_by: Seq<char>,
    pub reason: Seq<char>,
}

impl View for AttestationRevokedEvent {
    type V = AttestationRevokedView;

    open spec fn view(&self) -> AttestationRevokedView {
        AttestationRevokedView {
            business: self.business@,
            period: self.period@,
            revoked_by: self.revoked_by@,
            reason: self.reason@,
        }
    }
}

/// An attestation was given a new root and a higher version.
#[derive(Debug)]
pub struct AttestationMigratedEvent {
    pub business: Address,
    pub period: String,
    pub old_merkle_root: MerkleRoot,
    pub new_merkle_root: MerkleRoot,
    pub old_version: u32,
    pub new_version: u32,
    pub migrated_by: Address,
}

/// What an [`AttestationMigratedEvent`] holds.
pub struct AttestationMigratedView {
    pub business: Seq<char>,
    pub period: Seq<char>,
    pub old_merkle_root: MerkleRoot,
    pub new_merkle_root: MerkleRoot,
    pub old_version: u32,
    pub new_version: u32,
    pub migrated_by: Seq<char>,
}

impl View for AttestationMigratedEvent {
    type V = AttestationMigratedView;

    open spec fn view(&self) -> AttestationMigratedView {
        AttestationMigratedView {
            business: self.business@,
            period: self.period@,
            old_merkle_root: self.old_merkle_root,
            new_merkle_root: self.new_merkle_root,
            old_version: self.old_version,
            new_version: self.new_version,
            migrated_by: self.migrated_by@,
        }
    }
}

/// A change of roles, of the pause flag or of the fee schedule. Each names
/// last the principal who made the change.
#[derive(Debug)]
pub enum Event {
    /// Roles of a bit mask were given to an account.
    RoleGranted(Address, u32, Address),
    /// Roles of a bit mask were taken from an account.
    RoleRevoked(Address, u32, Address),
    /// The contract was paused.
    Paused(Address),
    /// The pause was lifted.
    Unpaused(Address),
    /// The fee schedule was replaced: token, collector, base fee, enabled.
    FeeConfigChanged(Address, Address, i128, bool, Address),
}

/// What an [`Event`] holds.
pub enum EventView {
    RoleGranted(Seq<char>, u32, Seq<char>),
    RoleRevoked(Seq<char>, u32, Seq<char>),
    Paused(Seq<char>),
    Unpaused(Seq<char>),
    FeeConfigChanged(Seq<char>, Seq<char>, i128, bool, Seq<char>),
}

impl View for Event {
    type V = EventView;

    open spec fn view(&self) -> EventView {
        match self {
            Event::RoleGranted(a, r, c) => EventView::RoleGranted(a@, *r, c@),
            Event::RoleRevoked(a, r, c) => EventView::RoleRevoked(a@, *r, c@),
            Event::Paused(c) => EventView::Paused(c@),
            Event::Unpaused(c) => EventView::Unpaused(c@),
            Event::FeeConfigChanged(t, k, f, e, c) => EventView::FeeConfigChanged(
                t@,
                k@,
                *f,
                *e,
                c@,
            ),
        }
    }
}

/// What an event that may be missing holds.
pub open spec fn event_of(e: Option<Event>) -> Option<EventView> {
    match e {
        Some(e) => Some(e@),
        None => None,
    }
}

} // verus!
