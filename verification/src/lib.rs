//! A ledger of periodic revenue attestations with role-based access control,
//! a discount-aware fee schedule and multisig governance, together with a
//! read-side overlay for lenders.
//!
//! Every operation works on an explicit keyed store and an explicit
//! authentication context, and reports failure as an [`Error`] without
//! touching the store. What a mutating operation would have published or
//! charged is handed back to the caller.

pub mod access_control;
pub mod administration;
pub mod attestation;
pub mod contract;
pub mod dynamic_fees;
pub mod error;
pub mod events;
pub mod extended_metadata;
pub mod governance;
pub mod laws;
pub mod ledger;
pub mod lender;
pub mod multisig;
pub mod principal;
pub mod store;

pub use access_control::{ROLE_ADMIN, ROLE_ATTESTOR, ROLE_BUSINESS, ROLE_OPERATOR};
pub use attestation::{AttestationRecord, BatchAttestationItem, MerkleRoot, SubmitReceipt};
pub use contract::AttestationContract;
pub use dynamic_fees::{compute_fee, FeeCharge, FeeConfig, VolumeBrackets};
pub use error::Error;
pub use events::{
    AttestationMigratedEvent, AttestationRevokedEvent, AttestationSubmittedEvent, Event,
};
pub use extended_metadata::{AttestationMetadata, RevenueBasis};
pub use lender::{
    BusinessSummary, DisputeStatus, LenderAttestationView, LenderConsumerContract,
    RevenueMetrics,
};
pub use multisig::{
    MultisigConfig, Proposal, ProposalAction, ProposalStatus, PROPOSAL_TTL_SECONDS,
};
pub use principal::{Address, AuthContext};
pub use store::{DataKey, Store, StoreValue};
