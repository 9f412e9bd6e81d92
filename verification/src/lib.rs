//! Deterministic clearing and risk state for a Decentralized Central
//! Counterparty.
//!
//! DeCCP centralizes the *logical* novation, margin, netting, guarantee, and
//! default-waterfall rules while decentralizing their control through a
//! threshold authority set. DeCCP never updates authoritative cash or asset
//! title: it records DeFMI lock/settlement receipts and emits exact contexts for
//! zkPI construction.
//!
//! The state of a book is a [`book::BookState`]. Every operation of a
//! [`ClearingBook`] is specified as a transition of that state, and the laws in
//! [`laws`] are proved of those transitions.

pub mod admission;
pub mod aethel;
pub mod authority;
pub mod book;
pub mod clearing;
pub mod confidential_ops;
pub mod cycles;
pub mod default_ops;
pub mod defaults;
pub mod error;
pub mod guarantee_ops;
pub mod guarantees;
pub mod ident;
pub mod json;
pub mod laws;
pub mod map;
pub mod members;
pub mod netting;
pub mod ports;
pub mod snapshot;
pub mod transcript;
pub mod validate;

pub use crate::aethel::{
    AethelDeCcpAdapter, AethelGuaranteeBinding, AethelGuaranteeClaim, AethelGuaranteeOffer,
    AethelGuaranteeRelease, AethelLossLayer,
};
pub use crate::authority::{
    AuthorityMember, AuthoritySet, AuthoritySignature, KeyPurpose, KeyRecord, QuorumApproval,
    SignatureBytes, SignatureVerdict, SignedSubject, SignerReply, SuiteId, Version,
};
pub use crate::book::{ClearingBook, ClearingSnapshot};
pub use crate::cycles::{
    open_cycle_approval_digest, ClearingLeg, ClearingObligation, CycleStatus, NettingCycle,
    NettingMode, NettingProposal, OpenCycleRequest,
};
pub use crate::defaults::{
    default_declaration_approval_digest, DefaultCase, DefaultEvidence, DefaultResolution,
    DefaultSourceKind, WaterfallDraw,
};
pub use crate::error::DeCcpError;
pub use crate::guarantees::{
    confidential_guarantee_claim_context, confidential_guarantee_facility_approval_digest,
    confidential_guarantee_release_context, guarantee_claim_context,
    guarantee_facility_approval_digest, guarantee_release_context,
    ConfidentialGuaranteeClaimRequest, ConfidentialGuaranteeFacility, ConfidentialGuaranteeHold,
    ConfidentialGuaranteeReleaseRequest, ConfidentialGuaranteeReservation, DefmiSettlementReceipt,
    GuaranteeClaimRequest, GuaranteeFacility, GuaranteeFacilityStatus, GuaranteeHold,
    GuaranteeHoldStatus, GuaranteeReservation,
};
pub use crate::ident::{Digest32, Identifier, ZERO};
pub use crate::map::{IdMap, IdSet};
pub use crate::members::{
    margin_approval_digest, CcpCapitalization, CollateralLot, CollateralStatus,
    EligibilityAttestation, MarginAccount, MarginUpdate, Participant, ParticipantAdmission,
    ParticipantStatus, VerifiedAdmission,
};
pub use crate::ports::{DeFmiPort, EligibilityPort, InstructionPort};
pub use crate::snapshot::Encoded;
