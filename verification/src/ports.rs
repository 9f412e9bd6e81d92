//! The evidence services that a clearing book asks before it acts.

use vstd::prelude::*;

use crate::cycles::ClearingObligation;
use crate::guarantees::{
    ConfidentialGuaranteeClaimRequest, ConfidentialGuaranteeFacility, ConfidentialGuaranteeHold,
    ConfidentialGuaranteeReleaseRequest, ConfidentialGuaranteeReservation, DefmiSettlementReceipt,
    GuaranteeFacility, GuaranteeReservation,
};
use crate::ident::Digest32;
use crate::members::{
    CcpCapitalization, CollateralLot, EligibilityAttestation, ParticipantAdmission, VerifiedAdmission,
};

verus! {

/// Boundary to the eligibility provider.
pub trait EligibilityPort {
    fn verify(&self, evidence: &EligibilityAttestation, now: u64) -> Result<
        VerifiedAdmission,
        String,
    >;
}

/// Boundary to zkPI or another authenticated settlement-instruction source.
/// The implementation must verify that the digest names a valid instruction
/// whose parties, asset, amount, and lifecycle permit clearing admission.
pub trait InstructionPort {
    fn verify_obligation(&self, obligation: &ClearingObligation, now: u64) -> Result<(), String>;
}

/// Explicit boundary to authoritative DeFMI state. Implementations must query
/// or verify the target deployment; a non-zero identifier is not evidence that
/// collateral or guarantee value was actually locked or settled.
pub trait DeFmiPort {
    fn verify_ccp_capital(&self, capitalization: &CcpCapitalization, now: u64) -> Result<
        (),
        String,
    >;

    fn verify_default_fund(&self, admission: &ParticipantAdmission, now: u64) -> Result<
        (),
        String,
    >;

    fn verify_collateral_lock(&self, lot: &CollateralLot, now: u64) -> Result<(), String>;

    fn verify_guarantee_facility(&self, facility: &GuaranteeFacility, now: u64) -> Result<
        (),
        String,
    >;

    fn verify_guarantee_hold(&self, reservation: &GuaranteeReservation, now: u64) -> Result<
        (),
        String,
    >;

    fn verify_confidential_guarantee_facility(
        &self,
        facility: &ConfidentialGuaranteeFacility,
        now: u64,
    ) -> Result<(), String>;

    fn verify_confidential_guarantee_hold(
        &self,
        facility: &ConfidentialGuaranteeFacility,
        reservation: &ConfidentialGuaranteeReservation,
        now: u64,
    ) -> Result<(), String>;

    fn verify_confidential_guarantee_release(
        &self,
        facility: &ConfidentialGuaranteeFacility,
        hold: &ConfidentialGuaranteeHold,
        request: &ConfidentialGuaranteeReleaseRequest,
        now: u64,
    ) -> Result<(), String>;

    fn verify_confidential_guarantee_claim(
        &self,
        facility: &ConfidentialGuaranteeFacility,
        hold: &ConfidentialGuaranteeHold,
        request: &ConfidentialGuaranteeClaimRequest,
        now: u64,
    ) -> Result<(), String>;

    fn verify_guarantee_release(
        &self,
        expected_context: &Digest32,
        receipt: &DefmiSettlementReceipt,
        now: u64,
    ) -> Result<(), String>;

    fn verify_settlement(
        &self,
        expected_context: &Digest32,
        receipt: &DefmiSettlementReceipt,
        now: u64,
    ) -> Result<(), String>;
}

} // verus!
