//! Aethel adapter for guarantees that the clearing book backs.
//!
//! Aethel continues to own stream and receivable meaning. The book owns
//! capacity, reservation, binding, claim consumption, and default-risk state.
//! DeFMI owns the referenced facility hold and final settlement receipt.

use vstd::prelude::*;

use crate::book::{BookState, ClearingBook};
use crate::error::DeCcpError;
use crate::guarantees::{
    confidential_claim_context, confidential_guarantee_claim_context,
    confidential_guarantee_release_context, confidential_release_context,
    ConfidentialGuaranteeClaimRequest, ConfidentialGuaranteeReleaseRequest,
    ConfidentialGuaranteeReservation, DefmiSettlementReceipt, GuaranteeHoldStatus,
};
use crate::ident::{any_zero, has_zero, holds_id, same_id, Digest32, Identifier, ZERO};
use crate::ports::DeFmiPort;
use crate::transcript::{big_endian, bytes_of, sha256_of, Transcript};

verus! {

/// Where a guarantee stands among the losses of a series.
#[derive(Clone, Copy, Debug, PartialEq, Eq, Structural)]
pub enum AethelLossLayer {
    FirstLoss,
    PariPassu,
    Excess,
}

impl AethelLossLayer {
    /// The byte that stands for the layer in a digest.
    pub open spec fn tag(self) -> u8 {
        match self {
            AethelLossLayer::FirstLoss => 1u8,
            AethelLossLayer::PariPassu => 2u8,
            AethelLossLayer::Excess => 3u8,
        }
    }

    fn layer_tag(self) -> (r: u8)
        ensures
            r == self.tag(),
    {
        match self {
            AethelLossLayer::FirstLoss => 1,
            AethelLossLayer::PariPassu => 2,
            AethelLossLayer::Excess => 3,
        }
    }
}

/// A provider's offer to guarantee part of a series.
#[derive(Clone, Copy, Debug, PartialEq, Eq)]
pub struct AethelGuaranteeOffer {
    pub operation_id: Identifier,
    pub guarantee_id: Identifier,
    pub request_id: Identifier,
    pub provider_id: Identifier,
    pub series_id: Identifier,
    pub stream_state_version: u64,
    pub stream_state_root: Digest32,
    pub credit_decision_id: Option<Identifier>,
    pub deccp_facility_id: Identifier,
    pub deccp_expected_sequence: u64,
    pub deccp_expected_state_digest: Digest32,
    pub deccp_after_state_digest: Digest32,
    pub deccp_hold_id: Identifier,
    pub defmi_facility_id: Identifier,
    pub defmi_hold_id: Identifier,
    pub coverage_commitment: Digest32,
    pub beneficiary_subject_line_id: Digest32,
    pub loss_layer: AethelLossLayer,
    pub guarantee_terms_digest: Digest32,
    pub claim_policy_digest: Digest32,
    pub relation_proof_digest: Digest32,
    pub valid_until: u64,
    pub nonce: Identifier,
}

/// A guarantee whose capacity is reserved.
#[derive(Clone, Copy, Debug, PartialEq, Eq)]
pub struct AethelGuaranteeBinding {
    pub guarantee_id: Identifier,
    pub request_id: Identifier,
    pub provider_id: Identifier,
    pub series_id: Identifier,
    pub stream_state_version: u64,
    pub stream_state_root: Digest32,
    pub credit_decision_id: Option<Identifier>,
    pub deccp_facility_id: Identifier,
    pub deccp_hold_id: Identifier,
    pub defmi_facility_id: Identifier,
    pub defmi_hold_id: Identifier,
    pub coverage_commitment: Digest32,
    pub loss_layer: AethelLossLayer,
    pub guarantee_terms_digest: Digest32,
    pub claim_policy_digest: Digest32,
    pub relation_proof_digest: Digest32,
    pub valid_until: u64,
    pub nonce: Identifier,
}

/// A claim on a bound guarantee.
#[derive(Clone, Copy, Debug, PartialEq, Eq)]
pub struct AethelGuaranteeClaim {
    pub operation_id: Identifier,
    pub issuance_id: Identifier,
    pub default_event_digest: Digest32,
    pub deccp_expected_sequence: u64,
    pub deccp_expected_state_digest: Digest32,
    pub deccp_after_state_digest: Digest32,
    pub transition_proof_digest: Digest32,
    pub receipt: DefmiSettlementReceipt,
}

/// Withdrawal or expiry of a guarantee before it is claimed. Like a claim, it
/// advances the hidden facility state only through a DeFMI-verified transition
/// and receipt.
#[derive(Clone, Copy, Debug, PartialEq, Eq)]
pub struct AethelGuaranteeRelease {
    pub operation_id: Identifier,
    pub deccp_expected_sequence: u64,
    pub deccp_expected_state_digest: Digest32,
    pub deccp_after_state_digest: Digest32,
    pub transition_proof_digest: Digest32,
    pub receipt: DefmiSettlementReceipt,
}

impl AethelGuaranteeOffer {
    /// The digest of what the guarantee is for.
    pub open spec fn purpose(self) -> Digest32 {
        sha256_of(
            bytes_of("DECCP:AETHEL-GUARANTEE-PURPOSE:v1") + self.guarantee_id@ + self.request_id@
                + self.series_id@ + big_endian(self.stream_state_version as nat, 8)
                + self.stream_state_root@ + self.coverage_commitment@ + seq![
                self.loss_layer.tag(),
            ] + self.guarantee_terms_digest@ + self.claim_policy_digest@,
        )
    }

    /// The reservation that the offer asks of the book.
    pub open spec fn reservation(self) -> ConfidentialGuaranteeReservation {
        ConfidentialGuaranteeReservation {
            operation_id: self.operation_id,
            hold_id: self.deccp_hold_id,
            facility_id: self.deccp_facility_id,
            purpose_digest: self.purpose(),
            coverage_commitment: self.coverage_commitment,
            defmi_hold_id: self.defmi_hold_id,
            relation_proof_digest: self.relation_proof_digest,
            expected_facility_state_digest: self.deccp_expected_state_digest,
            after_facility_state_digest: self.deccp_after_state_digest,
            expected_facility_sequence: self.deccp_expected_sequence,
            valid_until: self.valid_until,
        }
    }

    /// The binding that the offer turns into.
    pub open spec fn binding(self) -> AethelGuaranteeBinding {
        AethelGuaranteeBinding {
            guarantee_id: self.guarantee_id,
            request_id: self.request_id,
            provider_id: self.provider_id,
            series_id: self.series_id,
            stream_state_version: self.stream_state_version,
            stream_state_root: self.stream_state_root,
            credit_decision_id: self.credit_decision_id,
            deccp_facility_id: self.deccp_facility_id,
            deccp_hold_id: self.deccp_hold_id,
            defmi_facility_id: self.defmi_facility_id,
            defmi_hold_id: self.defmi_hold_id,
            coverage_commitment: self.coverage_commitment,
            loss_layer: self.loss_layer,
            guarantee_terms_digest: self.guarantee_terms_digest,
            claim_policy_digest: self.claim_policy_digest,
            relation_proof_digest: self.relation_proof_digest,
            valid_until: self.valid_until,
            nonce: self.nonce,
        }
    }

    /// Why the offer is refused before the book is asked to reserve: its
    /// facility is unknown or differs from what the offer names, or the offer is
    /// incomplete.
    pub open spec fn refusal(self, book: BookState) -> Option<DeCcpError> {
        let facility = book.confidential_guarantee_facilities[self.deccp_facility_id];
        if !book.confidential_guarantee_facilities.contains_key(self.deccp_facility_id) {
            Some(DeCcpError::UnknownGuaranteeFacility)
        } else if facility.guarantor_id != self.provider_id || facility.beneficiary_subject_line_id
            != self.beneficiary_subject_line_id || facility.defmi_facility_id
            != self.defmi_facility_id || facility.policy_digest != self.claim_policy_digest
            || self.credit_decision_id == Some(ZERO) || has_zero(
            seq![
                self.guarantee_id,
                self.request_id,
                self.series_id,
                self.stream_state_root,
                self.coverage_commitment,
                self.guarantee_terms_digest,
                self.nonce,
            ],
        ) || self.stream_state_version == 0 {
            Some(DeCcpError::InvalidGuaranteeReservation)
        } else {
            None
        }
    }
}

impl AethelGuaranteeRelease {
    /// The release that the book is asked for.
    pub open spec fn request(
        self,
        binding: AethelGuaranteeBinding,
    ) -> ConfidentialGuaranteeReleaseRequest {
        let release = self;
        ConfidentialGuaranteeReleaseRequest {
            operation_id: release.operation_id,
            hold_id: binding.deccp_hold_id,
            expected_facility_state_digest: release.deccp_expected_state_digest,
            after_facility_state_digest: release.deccp_after_state_digest,
            expected_facility_sequence: release.deccp_expected_sequence,
            transition_proof_digest: release.transition_proof_digest,
            receipt: release.receipt,
        }
    }
}

impl AethelGuaranteeClaim {
    /// The claim that the book is asked for.
    pub open spec fn request(
        self,
        binding: AethelGuaranteeBinding,
    ) -> ConfidentialGuaranteeClaimRequest {
        let claim = self;
        ConfidentialGuaranteeClaimRequest {
            operation_id: claim.operation_id,
            hold_id: binding.deccp_hold_id,
            exposure_id: claim.issuance_id,
            default_event_digest: claim.default_event_digest,
            expected_facility_state_digest: claim.deccp_expected_state_digest,
            after_facility_state_digest: claim.deccp_after_state_digest,
            expected_facility_sequence: claim.deccp_expected_sequence,
            transition_proof_digest: claim.transition_proof_digest,
            receipt: claim.receipt,
        }
    }
}

fn aethel_guarantee_purpose(offer: &AethelGuaranteeOffer) -> (r: Digest32)
    ensures
        r == offer.purpose(),
{
    let tag = [offer.loss_layer.layer_tag()];
    assert(tag@ =~= seq![offer.loss_layer.tag()]);
    let mut transcript = Transcript::new("DECCP:AETHEL-GUARANTEE-PURPOSE:v1");
    transcript.put(&offer.guarantee_id);
    transcript.put(&offer.request_id);
    transcript.put(&offer.series_id);
    transcript.put_number(offer.stream_state_version as u128, 8);
    transcript.put(&offer.stream_state_root);
    transcript.put(&offer.coverage_commitment);
    transcript.put(&tag);
    transcript.put(&offer.guarantee_terms_digest);
    transcript.put(&offer.claim_policy_digest);
    transcript.digest()
}

/// Drives the confidential guarantees of a clearing book for Aethel. Its
/// requests and records carry commitments, never an amount.
pub struct AethelDeCcpAdapter;

impl AethelDeCcpAdapter {
    /// Reserves capacity for an offer.
    pub fn reserve<P: DeFmiPort>(
        book: &mut ClearingBook,
        offer: AethelGuaranteeOffer,
        defmi: &P,
        now: u64,
    ) -> (r: Result<AethelGuaranteeBinding, DeCcpError>)
        ensures
            match offer.refusal(old(book)@) {
                Some(error) => r == Err::<AethelGuaranteeBinding, DeCcpError>(error) && final(book)@
                    == old(book)@,
                None => match old(book)@.confidential_reservation_refusal(offer.reservation(), now) {
                    Some(error) => r == Err::<AethelGuaranteeBinding, DeCcpError>(error)
                        && final(book)@ == old(book)@,
                    None => exists|reply: Result<(), String>|
                        {
                            &&& #[trigger] call_ensures(
                                P::verify_confidential_guarantee_hold,
                                (
                                    defmi,
                                    &old(book)@.confidential_guarantee_facilities[offer.deccp_facility_id],
                                    &offer.reservation(),
                                    now,
                                ),
                                reply,
                            )
                            &&& final(book)@ == old(book)@.confidential_guarantee_reserved(
                                offer.reservation(),
                                reply,
                            ).1
                            &&& r == (match old(book)@.confidential_guarantee_reserved(
                                offer.reservation(),
                                reply,
                            ).0 {
                                Ok(_) => Ok::<AethelGuaranteeBinding, DeCcpError>(offer.binding()),
                                Err(error) => Err(error),
                            })
                        },
                },
            },
    {
        match book.confidential_guarantee_facility(&offer.deccp_facility_id) {
            None => {
                return Err(DeCcpError::UnknownGuaranteeFacility);
            },
            Some(facility) => {
                let required = [
                    offer.guarantee_id,
                    offer.request_id,
                    offer.series_id,
                    offer.stream_state_root,
                    offer.coverage_commitment,
                    offer.guarantee_terms_digest,
                    offer.nonce,
                ];
                if !same_id(&facility.guarantor_id, &offer.provider_id) || !same_id(
                    &facility.beneficiary_subject_line_id,
                    &offer.beneficiary_subject_line_id,
                ) || !same_id(&facility.defmi_facility_id, &offer.defmi_facility_id) || !same_id(
                    &facility.policy_digest,
                    &offer.claim_policy_digest,
                ) || holds_id(&offer.credit_decision_id, &ZERO) || any_zero(&required)
                    || offer.stream_state_version == 0 {
                    return Err(DeCcpError::InvalidGuaranteeReservation);
                }
            },
        }
        let purpose_digest = aethel_guarantee_purpose(&offer);
        let hold = book.reserve_confidential_guarantee(
            ConfidentialGuaranteeReservation {
                operation_id: offer.operation_id,
                hold_id: offer.deccp_hold_id,
                facility_id: offer.deccp_facility_id,
                purpose_digest,
                coverage_commitment: offer.coverage_commitment,
                defmi_hold_id: offer.defmi_hold_id,
                relation_proof_digest: offer.relation_proof_digest,
                expected_facility_state_digest: offer.deccp_expected_state_digest,
                after_facility_state_digest: offer.deccp_after_state_digest,
                expected_facility_sequence: offer.deccp_expected_sequence,
                valid_until: offer.valid_until,
            },
            defmi,
            now,
        )?;
        if hold.status != GuaranteeHoldStatus::Reserved {
            return Err(DeCcpError::InvalidState);
        }
        Ok(
            AethelGuaranteeBinding {
                guarantee_id: offer.guarantee_id,
                request_id: offer.request_id,
                provider_id: offer.provider_id,
                series_id: offer.series_id,
                stream_state_version: offer.stream_state_version,
                stream_state_root: offer.stream_state_root,
                credit_decision_id: offer.credit_decision_id,
                deccp_facility_id: offer.deccp_facility_id,
                deccp_hold_id: offer.deccp_hold_id,
                defmi_facility_id: offer.defmi_facility_id,
                defmi_hold_id: offer.defmi_hold_id,
                coverage_commitment: offer.coverage_commitment,
                loss_layer: offer.loss_layer,
                guarantee_terms_digest: offer.guarantee_terms_digest,
                claim_policy_digest: offer.claim_policy_digest,
                relation_proof_digest: offer.relation_proof_digest,
                valid_until: offer.valid_until,
                nonce: offer.nonce,
            },
        )
    }

    /// Binds a reserved guarantee to an issuance.
    pub fn bind_issuance(
        book: &mut ClearingBook,
        operation_id: Identifier,
        binding: &AethelGuaranteeBinding,
        issuance_id: Identifier,
        now: u64,
    ) -> (r: Result<(), DeCcpError>)
        ensures
            (r, final(book)@) == old(book)@.confidential_guarantee_bound(
                operation_id,
                binding.deccp_hold_id,
                issuance_id,
                now,
            ),
    {
        book.bind_confidential_guarantee(operation_id, binding.deccp_hold_id, issuance_id, now)
    }

    /// Pays a bound guarantee out.
    pub fn claim<P: DeFmiPort>(
        book: &mut ClearingBook,
        binding: &AethelGuaranteeBinding,
        claim: AethelGuaranteeClaim,
        defmi: &P,
        now: u64,
    ) -> (r: Result<(), DeCcpError>)
        ensures
            match old(book)@.confidential_claim_refusal(claim.request(*binding), now) {
                Some(error) => r == Err::<(), DeCcpError>(error) && final(book)@ == old(book)@,
                None => exists|reply: Result<(), String>|
                    {
                        &&& #[trigger] call_ensures(
                            P::verify_confidential_guarantee_claim,
                            (
                                defmi,
                                &old(book)@.facility_of(binding.deccp_hold_id),
                                &old(book)@.confidential_guarantee_holds[binding.deccp_hold_id],
                                &claim.request(*binding),
                                now,
                            ),
                            reply,
                        )
                        &&& (r, final(book)@) == old(book)@.confidential_guarantee_consumed(
                            claim.request(*binding),
                            reply,
                        )
                    },
            },
    {
        book.consume_confidential_guarantee(Self::claim_request(binding, claim), defmi, now)
    }

    /// Gives a guarantee back before it is claimed.
    pub fn release<P: DeFmiPort>(
        book: &mut ClearingBook,
        binding: &AethelGuaranteeBinding,
        release: AethelGuaranteeRelease,
        defmi: &P,
        now: u64,
    ) -> (r: Result<(), DeCcpError>)
        ensures
            match old(book)@.confidential_release_refusal(release.request(*binding)) {
                Some(error) => r == Err::<(), DeCcpError>(error) && final(book)@ == old(book)@,
                None => exists|reply: Result<(), String>|
                    {
                        &&& #[trigger] call_ensures(
                            P::verify_confidential_guarantee_release,
                            (
                                defmi,
                                &old(book)@.facility_of(binding.deccp_hold_id),
                                &old(book)@.confidential_guarantee_holds[binding.deccp_hold_id],
                                &release.request(*binding),
                                now,
                            ),
                            reply,
                        )
                        &&& (r, final(book)@) == old(book)@.confidential_guarantee_released(
                            release.request(*binding),
                            reply,
                        )
                    },
            },
    {
        book.release_confidential_guarantee(Self::release_request(binding, release), defmi, now)
    }

    /// Exact DeFMI settlement context that a release receipt must bind.
    pub fn release_context(
        binding: &AethelGuaranteeBinding,
        release: &AethelGuaranteeRelease,
    ) -> (r: Digest32)
        ensures
            r == confidential_release_context(release.request(*binding)),
    {
        confidential_guarantee_release_context(&Self::release_request(binding, *release))
    }

    fn release_request(binding: &AethelGuaranteeBinding, release: AethelGuaranteeRelease) -> (r:
        ConfidentialGuaranteeReleaseRequest)
        ensures
            r == release.request(*binding),
    {
        ConfidentialGuaranteeReleaseRequest {
            operation_id: release.operation_id,
            hold_id: binding.deccp_hold_id,
            expected_facility_state_digest: release.deccp_expected_state_digest,
            after_facility_state_digest: release.deccp_after_state_digest,
            expected_facility_sequence: release.deccp_expected_sequence,
            transition_proof_digest: release.transition_proof_digest,
            receipt: release.receipt,
        }
    }

    /// Exact DeFMI/zkPI settlement context that a claim receipt must bind.
    pub fn claim_context(binding: &AethelGuaranteeBinding, claim: &AethelGuaranteeClaim) -> (r:
        Digest32)
        ensures
            r == confidential_claim_context(claim.request(*binding)),
    {
        confidential_guarantee_claim_context(&Self::claim_request(binding, *claim))
    }

    fn claim_request(binding: &AethelGuaranteeBinding, claim: AethelGuaranteeClaim) -> (r:
        ConfidentialGuaranteeClaimRequest)
        ensures
            r == claim.request(*binding),
    {
        ConfidentialGuaranteeClaimRequest {
            operation_id: claim.operation_id,
            hold_id: binding.deccp_hold_id,
            exposure_id: claim.issuance_id,
            default_event_digest: claim.default_event_digest,
            expected_facility_state_digest: claim.deccp_expected_state_digest,
            after_facility_state_digest: claim.deccp_after_state_digest,
            expected_facility_sequence: claim.deccp_expected_sequence,
            transition_proof_digest: claim.transition_proof_digest,
            receipt: claim.receipt,
        }
    }
}

} // verus!
