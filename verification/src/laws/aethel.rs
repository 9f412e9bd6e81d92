//! Laws of the Aethel adapter: a reserved offer can be bound and then claimed, or
//! given back.

use vstd::prelude::*;

use crate::aethel::{AethelGuaranteeClaim, AethelGuaranteeOffer, AethelGuaranteeRelease};
use crate::book::BookState;
use crate::guarantees::{
    confidential_claim_context, confidential_release_context, GuaranteeHoldStatus,
};
use crate::ident::{has_zero, Identifier};

verus! {

/// Whether an offer was reserved in a book that then looks like `after`.
pub open spec fn offer_reserved(
    before: BookState,
    offer: AethelGuaranteeOffer,
    now: u64,
    after: BookState,
) -> bool {
    let outcome = before.confidential_guarantee_reserved(offer.reservation(), Ok(()));
    &&& offer.refusal(before) is None
    &&& before.confidential_reservation_refusal(offer.reservation(), now) is None
    &&& outcome.0 is Ok
    &&& outcome.1 == after
}

/// A reserved offer holds its commitment for its purpose, and can be bound to any
/// issuance under a fresh operation until it expires.
pub proof fn law_reserved_offer_can_be_bound(
    before: BookState,
    offer: AethelGuaranteeOffer,
    now: u64,
    after: BookState,
    operation_id: Identifier,
    issuance_id: Identifier,
    later: u64,
)
    requires
        offer_reserved(before, offer, now, after),
        !has_zero(seq![operation_id, issuance_id]),
        !after.used_operations.contains(operation_id),
        later <= offer.valid_until,
    ensures
        ({
            let hold = after.confidential_guarantee_holds[offer.binding().deccp_hold_id];
            let bound = after.confidential_guarantee_bound(
                operation_id,
                offer.binding().deccp_hold_id,
                issuance_id,
                later,
            );
            &&& hold.coverage_commitment == offer.coverage_commitment
            &&& hold.purpose_digest == offer.purpose()
            &&& hold.status == GuaranteeHoldStatus::Reserved
            &&& bound.0 is Ok
            &&& bound.1.confidential_guarantee_holds[offer.deccp_hold_id].bound_exposure_id == Some(
                issuance_id,
            )
        }),
{
    let ids = seq![operation_id, issuance_id];
    assert(ids[0] == operation_id && ids[1] == issuance_id);
}

/// A bound guarantee can be claimed for its issuance before it expires: a claim
/// under a fresh operation that starts from the state the reservation left, with
/// a receipt for its exact context, is accepted once the settlement layer
/// confirms it.
pub proof fn law_bound_offer_can_be_claimed(
    before: BookState,
    offer: AethelGuaranteeOffer,
    now: u64,
    reserved: BookState,
    operation_id: Identifier,
    issuance_id: Identifier,
    later: u64,
    claim: AethelGuaranteeClaim,
)
    requires
        offer_reserved(before, offer, now, reserved),
        reserved.confidential_guarantee_bound(
            operation_id,
            offer.deccp_hold_id,
            issuance_id,
            later,
        ).0 is Ok,
        !has_zero(
            seq![
                claim.operation_id,
                claim.default_event_digest,
                claim.deccp_after_state_digest,
                claim.transition_proof_digest,
                claim.receipt.receipt_digest,
            ],
        ),
        !reserved.used_operations.contains(claim.operation_id),
        claim.operation_id != operation_id,
        claim.issuance_id == issuance_id,
        claim.deccp_expected_state_digest == offer.deccp_after_state_digest,
        claim.deccp_expected_sequence == offer.deccp_expected_sequence + 1,
        claim.deccp_expected_sequence != u64::MAX,
        claim.deccp_after_state_digest != claim.deccp_expected_state_digest,
        claim.receipt.context_digest == confidential_claim_context(claim.request(offer.binding())),
    ensures
        ({
            let bound = reserved.confidential_guarantee_bound(
                operation_id,
                offer.deccp_hold_id,
                issuance_id,
                later,
            ).1;
            let request = claim.request(offer.binding());
            let paid = bound.confidential_guarantee_consumed(request, Ok(()));
            &&& bound.confidential_claim_refusal(request, later) is None
            &&& paid.0 is Ok
            &&& paid.1.confidential_guarantee_holds[offer.deccp_hold_id].status
                == GuaranteeHoldStatus::Consumed
        }),
{
    let given = seq![
        claim.operation_id,
        claim.default_event_digest,
        claim.deccp_after_state_digest,
        claim.transition_proof_digest,
        claim.receipt.receipt_digest,
    ];
    assert(given[0] == claim.operation_id && given[1] == claim.default_event_digest && given[2]
        == claim.deccp_after_state_digest && given[3] == claim.transition_proof_digest && given[4]
        == claim.receipt.receipt_digest);
}

/// A reserved offer can be given back at any time, even after it has expired: a
/// release under a fresh operation that starts from the state the reservation
/// left, with a receipt for its exact context, is accepted once the settlement
/// layer confirms it.
pub proof fn law_reserved_offer_can_be_released(
    before: BookState,
    offer: AethelGuaranteeOffer,
    now: u64,
    reserved: BookState,
    release: AethelGuaranteeRelease,
)
    requires
        offer_reserved(before, offer, now, reserved),
        !has_zero(
            seq![
                release.operation_id,
                release.deccp_after_state_digest,
                release.transition_proof_digest,
                release.receipt.receipt_digest,
            ],
        ),
        !reserved.used_operations.contains(release.operation_id),
        release.deccp_expected_state_digest == offer.deccp_after_state_digest,
        release.deccp_expected_sequence == offer.deccp_expected_sequence + 1,
        release.deccp_expected_sequence != u64::MAX,
        release.deccp_after_state_digest != release.deccp_expected_state_digest,
        release.receipt.context_digest == confidential_release_context(
            release.request(offer.binding()),
        ),
    ensures
        ({
            let request = release.request(offer.binding());
            let returned = reserved.confidential_guarantee_released(request, Ok(()));
            &&& reserved.confidential_release_refusal(request) is None
            &&& returned.0 is Ok
            &&& returned.1.confidential_guarantee_holds[offer.deccp_hold_id].status
                == GuaranteeHoldStatus::Released
        }),
{
    let given = seq![
        release.operation_id,
        release.deccp_after_state_digest,
        release.transition_proof_digest,
        release.receipt.receipt_digest,
    ];
    assert(given[0] == release.operation_id && given[1] == release.deccp_after_state_digest
        && given[2] == release.transition_proof_digest && given[3]
        == release.receipt.receipt_digest);
}

} // verus!
