//! Laws of the Aethel adapter: what an offer, a binding, a claim, and a release
//! ask of the book, and what comes of them.

use vstd::prelude::*;

use crate::aethel::{
    AethelDeCcpAdapter, AethelGuaranteeBinding, AethelGuaranteeClaim, AethelGuaranteeOffer,
    AethelGuaranteeRelease, AethelLossLayer,
};
use crate::book::{BookState, ClearingBook};
use crate::error::DeCcpError;
use crate::guarantees::{
    ConfidentialGuaranteeClaimRequest, ConfidentialGuaranteeHold,
    ConfidentialGuaranteeReleaseRequest, ConfidentialGuaranteeReservation, GuaranteeHoldStatus,
};
use crate::ident::{has_zero, Digest32, Identifier, ZERO};
use crate::laws::confidential::{
    behind, confidentially_claimable, confidentially_releasable, confidentially_reservable,
    hold_ended, one_step,
};
use crate::laws::statements::{law_aethel_purpose, wide};
use crate::ports::DeFmiPort;
use crate::transcript::{bytes_of, sha256_of};

verus! {

/// What a guarantee is for, in one digest.
pub open spec fn purpose_of(offer: AethelGuaranteeOffer) -> Digest32 {
    sha256_of(
        bytes_of("DECCP:AETHEL-GUARANTEE-PURPOSE:v1") + offer.guarantee_id@ + offer.request_id@
            + offer.series_id@ + wide(offer.stream_state_version as nat, 8)
            + offer.stream_state_root@ + offer.coverage_commitment@ + seq![
            if offer.loss_layer == AethelLossLayer::FirstLoss {
                1u8
            } else if offer.loss_layer == AethelLossLayer::PariPassu {
                2u8
            } else {
                3u8
            },
        ] + offer.guarantee_terms_digest@ + offer.claim_policy_digest@,
    )
}

/// Whether a reservation is the one that an offer asks for.
pub open spec fn asked_by(
    request: ConfidentialGuaranteeReservation,
    offer: AethelGuaranteeOffer,
) -> bool {
    &&& request.operation_id == offer.operation_id
    &&& request.hold_id == offer.deccp_hold_id
    &&& request.facility_id == offer.deccp_facility_id
    &&& request.purpose_digest == purpose_of(offer)
    &&& request.coverage_commitment == offer.coverage_commitment
    &&& request.defmi_hold_id == offer.defmi_hold_id
    &&& request.relation_proof_digest == offer.relation_proof_digest
    &&& request.expected_facility_state_digest == offer.deccp_expected_state_digest
    &&& request.after_facility_state_digest == offer.deccp_after_state_digest
    &&& request.expected_facility_sequence == offer.deccp_expected_sequence
    &&& request.valid_until == offer.valid_until
}

/// Whether an offer matches the facility that it names and is complete.
pub open spec fn offer_matches(book: BookState, offer: AethelGuaranteeOffer) -> bool {
    let facility = book.confidential_guarantee_facilities[offer.deccp_facility_id];
    &&& facility.guarantor_id == offer.provider_id
    &&& facility.beneficiary_subject_line_id == offer.beneficiary_subject_line_id
    &&& facility.defmi_facility_id == offer.defmi_facility_id
    &&& facility.policy_digest == offer.claim_policy_digest
    &&& offer.credit_decision_id != Some(ZERO)
    &&& offer.guarantee_id != ZERO
    &&& offer.request_id != ZERO
    &&& offer.series_id != ZERO
    &&& offer.stream_state_root != ZERO
    &&& offer.coverage_commitment != ZERO
    &&& offer.guarantee_terms_digest != ZERO
    &&& offer.nonce != ZERO
    &&& offer.stream_state_version > 0
}

/// An offer is taken exactly when it matches a known facility and the reservation
/// that it asks for can be carried out and is confirmed. The book then holds
/// exactly that reservation, and the binding repeats the offer.
pub proof fn law_offer_effect<P: DeFmiPort>(
    book: &mut ClearingBook,
    offer: AethelGuaranteeOffer,
    defmi: &P,
    now: u64,
    r: Result<AethelGuaranteeBinding, DeCcpError>,
    request: ConfidentialGuaranteeReservation,
)
    requires
        call_ensures(AethelDeCcpAdapter::reserve::<P>, (book, offer, defmi, now), r),
        asked_by(request, offer),
    ensures
        r is Err ==> final(book)@ == old(book)@,
        r matches Err(DeCcpError::DeFmiEvidenceRejected(message)) ==> exists|
            reply: Result<(), String>,
        |
            reply == Err::<(), String>(message) && #[trigger] call_ensures(
                P::verify_confidential_guarantee_hold,
                (
                    defmi,
                    &old(book)@.confidential_guarantee_facilities[offer.deccp_facility_id],
                    &request,
                    now,
                ),
                reply,
            ),
        r is Ok ==> {
            let facilities = old(book)@.confidential_guarantee_facilities;
            let after = final(book)@.confidential_guarantee_facilities[offer.deccp_facility_id];
            let hold = final(book)@.confidential_guarantee_holds[offer.deccp_hold_id];
            let binding = r->Ok_0;
            &&& facilities.contains_key(offer.deccp_facility_id)
            &&& offer_matches(old(book)@, offer)
            &&& confidentially_reservable(old(book)@, request, now)
            &&& exists|reply: Result<(), String>|
                reply is Ok && #[trigger] call_ensures(
                    P::verify_confidential_guarantee_hold,
                    (
                        defmi,
                        &old(book)@.confidential_guarantee_facilities[offer.deccp_facility_id],
                        &request,
                        now,
                    ),
                    reply,
                )
            &&& final(book)@ == (BookState {
                confidential_guarantee_facilities: facilities.insert(
                    offer.deccp_facility_id,
                    after,
                ),
                confidential_guarantee_holds: old(book)@.confidential_guarantee_holds.insert(
                    offer.deccp_hold_id,
                    hold,
                ),
                used_operations: old(book)@.used_operations.insert(offer.operation_id),
                ..old(book)@
            })
            &&& one_step(
                facilities[offer.deccp_facility_id],
                after,
                offer.deccp_after_state_digest,
            )
            &&& hold.hold_id == offer.deccp_hold_id
            &&& hold.facility_id == offer.deccp_facility_id
            &&& hold.purpose_digest == purpose_of(offer)
            &&& hold.coverage_commitment == offer.coverage_commitment
            &&& hold.defmi_hold_id == offer.defmi_hold_id
            &&& hold.relation_proof_digest == offer.relation_proof_digest
            &&& hold.reserved_state_digest == offer.deccp_after_state_digest
            &&& hold.valid_until == offer.valid_until
            &&& hold.status == GuaranteeHoldStatus::Reserved
            &&& hold.bound_exposure_id is None
            &&& hold.defmi_settlement_receipt is None
            &&& binding.guarantee_id == offer.guarantee_id
            &&& binding.request_id == offer.request_id
            &&& binding.provider_id == offer.provider_id
            &&& binding.series_id == offer.series_id
            &&& binding.stream_state_version == offer.stream_state_version
            &&& binding.stream_state_root == offer.stream_state_root
            &&& binding.credit_decision_id == offer.credit_decision_id
            &&& binding.deccp_facility_id == offer.deccp_facility_id
            &&& binding.deccp_hold_id == offer.deccp_hold_id
            &&& binding.defmi_facility_id == offer.defmi_facility_id
            &&& binding.defmi_hold_id == offer.defmi_hold_id
            &&& binding.coverage_commitment == offer.coverage_commitment
            &&& binding.loss_layer == offer.loss_layer
            &&& binding.guarantee_terms_digest == offer.guarantee_terms_digest
            &&& binding.claim_policy_digest == offer.claim_policy_digest
            &&& binding.relation_proof_digest == offer.relation_proof_digest
            &&& binding.valid_until == offer.valid_until
            &&& binding.nonce == offer.nonce
        },
        ({
            &&& old(book)@.confidential_guarantee_facilities.contains_key(offer.deccp_facility_id)
            &&& offer_matches(old(book)@, offer)
            &&& confidentially_reservable(old(book)@, request, now)
            &&& forall|reply: Result<(), String>| #[trigger]
                call_ensures(
                    P::verify_confidential_guarantee_hold,
                    (
                        defmi,
                        &old(book)@.confidential_guarantee_facilities[offer.deccp_facility_id],
                        &request,
                        now,
                    ),
                    reply,
                ) ==> reply is Ok
        }) ==> r is Ok,
        r == Err::<AethelGuaranteeBinding, DeCcpError>(DeCcpError::UnknownGuaranteeFacility)
            <==> !old(book)@.confidential_guarantee_facilities.contains_key(
            offer.deccp_facility_id,
        ),
        old(book)@.confidential_guarantee_facilities.contains_key(offer.deccp_facility_id)
            && !offer_matches(old(book)@, offer) ==> r == Err::<
            AethelGuaranteeBinding,
            DeCcpError,
        >(DeCcpError::InvalidGuaranteeReservation),
{
    law_aethel_purpose(offer);
    let asked = offer.reservation();
    assert(asked == request);
    let ids = seq![
        offer.guarantee_id,
        offer.request_id,
        offer.series_id,
        offer.stream_state_root,
        offer.coverage_commitment,
        offer.guarantee_terms_digest,
        offer.nonce,
    ];
    if !has_zero(ids) {
        assert(ids[0] != ZERO && ids[1] != ZERO && ids[2] != ZERO && ids[3] != ZERO && ids[4]
            != ZERO && ids[5] != ZERO && ids[6] != ZERO);
    }
    let wanted = seq![
        request.operation_id,
        request.hold_id,
        request.facility_id,
        request.purpose_digest,
        request.coverage_commitment,
        request.defmi_hold_id,
        request.relation_proof_digest,
        request.expected_facility_state_digest,
        request.after_facility_state_digest,
    ];
    if !has_zero(wanted) {
        assert(wanted[0] != ZERO && wanted[1] != ZERO && wanted[2] != ZERO && wanted[3] != ZERO
            && wanted[4] != ZERO && wanted[5] != ZERO && wanted[6] != ZERO && wanted[7] != ZERO
            && wanted[8] != ZERO);
    }
}

/// A guarantee is bound to an issuance exactly if its hold is reserved and in
/// time, everything named is set, and the operation is unused; the hold then names
/// the issuance, and nothing else changes.
pub proof fn law_issuance_effect(
    book: &mut ClearingBook,
    operation_id: Identifier,
    binding: AethelGuaranteeBinding,
    issuance_id: Identifier,
    now: u64,
    r: Result<(), DeCcpError>,
)
    requires
        call_ensures(
            AethelDeCcpAdapter::bind_issuance,
            (book, operation_id, &binding, issuance_id, now),
            r,
        ),
    ensures
        r is Err ==> final(book)@ == old(book)@,
        ({
            let id = binding.deccp_hold_id;
            let before = old(book)@.confidential_guarantee_holds[id];
            &&& r is Ok <==> {
                &&& operation_id != ZERO
                &&& id != ZERO
                &&& issuance_id != ZERO
                &&& !old(book)@.used_operations.contains(operation_id)
                &&& old(book)@.confidential_guarantee_holds.contains_key(id)
                &&& before.status == GuaranteeHoldStatus::Reserved
                &&& now <= before.valid_until
            }
            &&& r is Ok ==> final(book)@ == (BookState {
                confidential_guarantee_holds: old(book)@.confidential_guarantee_holds.insert(
                    id,
                    ConfidentialGuaranteeHold {
                        status: GuaranteeHoldStatus::Bound,
                        bound_exposure_id: Some(issuance_id),
                        ..before
                    },
                ),
                used_operations: old(book)@.used_operations.insert(operation_id),
                ..old(book)@
            })
        }),
{
    let ids = seq![operation_id, binding.deccp_hold_id, issuance_id];
    if !has_zero(ids) {
        assert(ids[0] != ZERO && ids[1] != ZERO && ids[2] != ZERO);
    }
}

/// Whether a claim on the book is the one that an Aethel claim asks for.
pub open spec fn claim_asked_by(
    request: ConfidentialGuaranteeClaimRequest,
    binding: AethelGuaranteeBinding,
    claim: AethelGuaranteeClaim,
) -> bool {
    &&& request.operation_id == claim.operation_id
    &&& request.hold_id == binding.deccp_hold_id
    &&& request.exposure_id == claim.issuance_id
    &&& request.default_event_digest == claim.default_event_digest
    &&& request.expected_facility_state_digest == claim.deccp_expected_state_digest
    &&& request.after_facility_state_digest == claim.deccp_after_state_digest
    &&& request.expected_facility_sequence == claim.deccp_expected_sequence
    &&& request.transition_proof_digest == claim.transition_proof_digest
    &&& request.receipt == claim.receipt
}

/// An Aethel claim is paid exactly when the claim that it asks of the book can be
/// paid and is confirmed; the hold then is consumed with the receipt.
pub proof fn law_aethel_claim_effect<P: DeFmiPort>(
    book: &mut ClearingBook,
    binding: AethelGuaranteeBinding,
    claim: AethelGuaranteeClaim,
    defmi: &P,
    now: u64,
    r: Result<(), DeCcpError>,
    request: ConfidentialGuaranteeClaimRequest,
)
    requires
        call_ensures(AethelDeCcpAdapter::claim::<P>, (book, &binding, claim, defmi, now), r),
        claim_asked_by(request, binding, claim),
    ensures
        r is Err ==> final(book)@ == old(book)@,
        r matches Err(DeCcpError::DeFmiEvidenceRejected(message)) ==> exists|
            reply: Result<(), String>,
        |
            reply == Err::<(), String>(message) && #[trigger] call_ensures(
                P::verify_confidential_guarantee_claim,
                (
                    defmi,
                    &behind(old(book)@, request.hold_id),
                    &old(book)@.confidential_guarantee_holds[request.hold_id],
                    &request,
                    now,
                ),
                reply,
            ),
        r is Ok ==> {
            &&& confidentially_claimable(old(book)@, request, now)
            &&& exists|reply: Result<(), String>|
                reply is Ok && #[trigger] call_ensures(
                    P::verify_confidential_guarantee_claim,
                    (
                        defmi,
                        &behind(old(book)@, request.hold_id),
                        &old(book)@.confidential_guarantee_holds[request.hold_id],
                        &request,
                        now,
                    ),
                    reply,
                )
            &&& hold_ended(
                old(book)@,
                final(book)@,
                claim.operation_id,
                binding.deccp_hold_id,
                GuaranteeHoldStatus::Consumed,
                claim.receipt.receipt_digest,
                claim.deccp_after_state_digest,
            )
        },
        confidentially_claimable(old(book)@, request, now) && (forall|reply: Result<(), String>|
         #[trigger]
            call_ensures(
                P::verify_confidential_guarantee_claim,
                (
                    defmi,
                    &behind(old(book)@, request.hold_id),
                    &old(book)@.confidential_guarantee_holds[request.hold_id],
                    &request,
                    now,
                ),
                reply,
            ) ==> reply is Ok) ==> r is Ok,
{
    assert(claim.request(binding) == request);
    let ids = seq![
        request.operation_id,
        request.hold_id,
        request.exposure_id,
        request.default_event_digest,
        request.expected_facility_state_digest,
        request.after_facility_state_digest,
        request.transition_proof_digest,
        request.receipt.receipt_digest,
    ];
    if !has_zero(ids) {
        assert(ids[0] != ZERO && ids[1] != ZERO && ids[2] != ZERO && ids[3] != ZERO && ids[4]
            != ZERO && ids[5] != ZERO && ids[6] != ZERO && ids[7] != ZERO);
    }
    assert(old(book)@.facility_of(request.hold_id) == behind(old(book)@, request.hold_id));
}

/// Whether a release on the book is the one that an Aethel release asks for.
pub open spec fn release_asked_by(
    request: ConfidentialGuaranteeReleaseRequest,
    binding: AethelGuaranteeBinding,
    release: AethelGuaranteeRelease,
) -> bool {
    &&& request.operation_id == release.operation_id
    &&& request.hold_id == binding.deccp_hold_id
    &&& request.expected_facility_state_digest == release.deccp_expected_state_digest
    &&& request.after_facility_state_digest == release.deccp_after_state_digest
    &&& request.expected_facility_sequence == release.deccp_expected_sequence
    &&& request.transition_proof_digest == release.transition_proof_digest
    &&& request.receipt == release.receipt
}

/// An Aethel release is carried out exactly when the release that it asks of the
/// book can be and is confirmed; the hold then is released with the receipt.
pub proof fn law_aethel_release_effect<P: DeFmiPort>(
    book: &mut ClearingBook,
    binding: AethelGuaranteeBinding,
    release: AethelGuaranteeRelease,
    defmi: &P,
    now: u64,
    r: Result<(), DeCcpError>,
    request: ConfidentialGuaranteeReleaseRequest,
)
    requires
        call_ensures(AethelDeCcpAdapter::release::<P>, (book, &binding, release, defmi, now), r),
        release_asked_by(request, binding, release),
    ensures
        r is Err ==> final(book)@ == old(book)@,
        r matches Err(DeCcpError::DeFmiEvidenceRejected(message)) ==> exists|
            reply: Result<(), String>,
        |
            reply == Err::<(), String>(message) && #[trigger] call_ensures(
                P::verify_confidential_guarantee_release,
                (
                    defmi,
                    &behind(old(book)@, request.hold_id),
                    &old(book)@.confidential_guarantee_holds[request.hold_id],
                    &request,
                    now,
                ),
                reply,
            ),
        r is Ok ==> {
            &&& confidentially_releasable(old(book)@, request)
            &&& exists|reply: Result<(), String>|
                reply is Ok && #[trigger] call_ensures(
                    P::verify_confidential_guarantee_release,
                    (
                        defmi,
                        &behind(old(book)@, request.hold_id),
                        &old(book)@.confidential_guarantee_holds[request.hold_id],
                        &request,
                        now,
                    ),
                    reply,
                )
            &&& hold_ended(
                old(book)@,
                final(book)@,
                release.operation_id,
                binding.deccp_hold_id,
                GuaranteeHoldStatus::Released,
                release.receipt.receipt_digest,
                release.deccp_after_state_digest,
            )
        },
        confidentially_releasable(old(book)@, request) && (forall|reply: Result<(), String>|
         #[trigger]
            call_ensures(
                P::verify_confidential_guarantee_release,
                (
                    defmi,
                    &behind(old(book)@, request.hold_id),
                    &old(book)@.confidential_guarantee_holds[request.hold_id],
                    &request,
                    now,
                ),
                reply,
            ) ==> reply is Ok) ==> r is Ok,
{
    assert(release.request(binding) == request);
    let ids = seq![
        request.operation_id,
        request.hold_id,
        request.expected_facility_state_digest,
        request.after_facility_state_digest,
        request.transition_proof_digest,
        request.receipt.receipt_digest,
    ];
    if !has_zero(ids) {
        assert(ids[0] != ZERO && ids[1] != ZERO && ids[2] != ZERO && ids[3] != ZERO && ids[4]
            != ZERO && ids[5] != ZERO);
    }
    assert(old(book)@.facility_of(request.hold_id) == behind(old(book)@, request.hold_id));
}

} // verus!
