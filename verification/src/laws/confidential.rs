//! Laws of confidential guarantees: which requests are carried out, and exactly
//! what they leave behind.

use vstd::prelude::*;

use crate::authority::QuorumApproval;
use crate::book::{BookState, ClearingBook};
use crate::error::DeCcpError;
use crate::guarantees::{
    confidential_claim_context, confidential_facility_statement, confidential_release_context,
    ConfidentialGuaranteeClaimRequest, ConfidentialGuaranteeFacility, ConfidentialGuaranteeHold,
    ConfidentialGuaranteeReleaseRequest, ConfidentialGuaranteeReservation, GuaranteeFacilityStatus,
    GuaranteeHoldStatus,
};
use crate::ident::{has_zero, Digest32, Identifier, ZERO};
use crate::laws::authority::{law_refusal_of_approval, sealed};
use crate::laws::holds::settlement_hold_free;
use crate::laws::members::may_act;
use crate::ports::DeFmiPort;

verus! {

/// Whether a confidential facility can be registered, apart from its approval:
/// everything it names is set, it is at its first step, active and in time, its
/// operation and its identifier are unused by facilities of either kind, and its
/// guarantor may act.
pub open spec fn confidentially_registrable(
    book: BookState,
    operation_id: Identifier,
    facility: ConfidentialGuaranteeFacility,
    now: u64,
) -> bool {
    &&& operation_id != ZERO
    &&& facility.facility_id != ZERO
    &&& facility.guarantor_id != ZERO
    &&& facility.beneficiary_subject_line_id != ZERO
    &&& facility.settlement_asset_id != ZERO
    &&& facility.capacity_commitment != ZERO
    &&& facility.latest_facility_state_digest != ZERO
    &&& facility.defmi_facility_id != ZERO
    &&& facility.policy_digest != ZERO
    &&& facility.sequence == 0
    &&& now <= facility.valid_until
    &&& facility.status == GuaranteeFacilityStatus::Active
    &&& !book.used_operations.contains(operation_id)
    &&& !book.guarantee_facilities.contains_key(facility.facility_id)
    &&& !book.confidential_guarantee_facilities.contains_key(facility.facility_id)
    &&& may_act(book, facility.guarantor_id, now)
}

/// A confidential facility is registered exactly when it can be, a quorum
/// approved it, and the settlement layer confirms it; it is then in the book as it
/// was given, and nothing else changes.
pub proof fn law_confidential_registration_effect<P: DeFmiPort>(
    book: &mut ClearingBook,
    operation_id: Identifier,
    facility: ConfidentialGuaranteeFacility,
    approval: &QuorumApproval,
    defmi: &P,
    now: u64,
    r: Result<(), DeCcpError>,
)
    requires
        call_ensures(
            ClearingBook::register_confidential_guarantee_facility::<P>,
            (book, operation_id, facility, approval, defmi, now),
            r,
        ),
    ensures
        r is Err ==> final(book)@ == old(book)@,
        r matches Err(DeCcpError::DeFmiEvidenceRejected(message)) ==> exists|
            reply: Result<(), String>,
        |
            reply == Err::<(), String>(message) && #[trigger] call_ensures(
                P::verify_confidential_guarantee_facility,
                (defmi, &facility, now),
                reply,
            ),
        r is Ok ==> {
            &&& confidentially_registrable(old(book)@, operation_id, facility, now)
            &&& sealed(
                old(book)@.authorities,
                confidential_facility_statement(operation_id, facility),
                approval@,
                Some(now),
            )
            &&& exists|reply: Result<(), String>|
                reply is Ok && #[trigger] call_ensures(
                    P::verify_confidential_guarantee_facility,
                    (defmi, &facility, now),
                    reply,
                )
            &&& final(book)@ == (BookState {
                confidential_guarantee_facilities: old(
                    book,
                )@.confidential_guarantee_facilities.insert(facility.facility_id, facility),
                used_operations: old(book)@.used_operations.insert(operation_id),
                ..old(book)@
            })
        },
        ({
            &&& confidentially_registrable(old(book)@, operation_id, facility, now)
            &&& sealed(
                old(book)@.authorities,
                confidential_facility_statement(operation_id, facility),
                approval@,
                Some(now),
            )
            &&& forall|reply: Result<(), String>| #[trigger]
                call_ensures(
                    P::verify_confidential_guarantee_facility,
                    (defmi, &facility, now),
                    reply,
                ) ==> reply is Ok
        }) ==> r is Ok,
        r matches Err(DeCcpError::InvalidGuaranteeFacility) ==> !confidentially_registrable(
            old(book)@,
            operation_id,
            facility,
            now,
        ),
        r matches Err(DeCcpError::UnknownParticipant) ==> !old(book)@.participants.contains_key(
            facility.guarantor_id,
        ),
        r matches Err(DeCcpError::ParticipantNotActive) ==> old(book)@.participants.contains_key(
            facility.guarantor_id,
        ) && !may_act(old(book)@, facility.guarantor_id, now),
        r matches Err(error) ==> error is InvalidGuaranteeFacility || error is UnknownParticipant
            || error is ParticipantNotActive || error is DeFmiEvidenceRejected
            || error is InsufficientQuorum || error is InvalidQuorumApproval
            || error is InvalidAuthoritySet,
{
    law_refusal_of_approval(
        old(book)@.authorities,
        confidential_facility_statement(operation_id, facility),
        approval@,
        Some(now),
    );
    let ids = seq![
        operation_id,
        facility.facility_id,
        facility.guarantor_id,
        facility.beneficiary_subject_line_id,
        facility.settlement_asset_id,
        facility.capacity_commitment,
        facility.latest_facility_state_digest,
        facility.defmi_facility_id,
        facility.policy_digest,
    ];
    if !has_zero(ids) {
        assert(ids[0] != ZERO && ids[1] != ZERO && ids[2] != ZERO && ids[3] != ZERO && ids[4]
            != ZERO && ids[5] != ZERO && ids[6] != ZERO && ids[7] != ZERO && ids[8] != ZERO);
    }
}

/// Whether a facility moved on by one step to a state, and in nothing else.
pub open spec fn one_step(
    before: ConfidentialGuaranteeFacility,
    after: ConfidentialGuaranteeFacility,
    state: Digest32,
) -> bool {
    &&& after == (ConfidentialGuaranteeFacility {
        latest_facility_state_digest: state,
        sequence: after.sequence,
        ..before
    })
    &&& after.sequence == before.sequence + 1
}

/// Whether a confidential reservation is complete and its identifiers are free:
/// everything it names is set, it leads to another state, it is in time, and its
/// operation, its hold, and its settlement-layer hold are unused.
pub open spec fn confidential_reservation_open(
    book: BookState,
    request: ConfidentialGuaranteeReservation,
    now: u64,
) -> bool {
    &&& request.operation_id != ZERO
    &&& request.hold_id != ZERO
    &&& request.facility_id != ZERO
    &&& request.purpose_digest != ZERO
    &&& request.coverage_commitment != ZERO
    &&& request.defmi_hold_id != ZERO
    &&& request.relation_proof_digest != ZERO
    &&& request.expected_facility_state_digest != ZERO
    &&& request.after_facility_state_digest != ZERO
    &&& request.expected_facility_state_digest != request.after_facility_state_digest
    &&& now <= request.valid_until
    &&& !book.used_operations.contains(request.operation_id)
    &&& !book.guarantee_holds.contains_key(request.hold_id)
    &&& !book.confidential_guarantee_holds.contains_key(request.hold_id)
    &&& settlement_hold_free(book, request.defmi_hold_id)
}

/// Whether a confidential reservation can be carried out, apart from the
/// settlement layer's word: it is open, its facility is active, outlives it, and
/// is in the state that it names, which can advance, and the guarantor may act.
pub open spec fn confidentially_reservable(
    book: BookState,
    request: ConfidentialGuaranteeReservation,
    now: u64,
) -> bool {
    let facility = book.confidential_guarantee_facilities[request.facility_id];
    &&& confidential_reservation_open(book, request, now)
    &&& book.confidential_guarantee_facilities.contains_key(request.facility_id)
    &&& facility.status == GuaranteeFacilityStatus::Active
    &&& request.valid_until <= facility.valid_until
    &&& facility.sequence == request.expected_facility_sequence
    &&& facility.latest_facility_state_digest == request.expected_facility_state_digest
    &&& may_act(book, facility.guarantor_id, now)
    &&& facility.sequence < u64::MAX
}

/// A confidential reservation is carried out exactly when it can be and the
/// settlement layer confirms the transition of the facility as it stands. The
/// facility then is in the state that was asked for, the hold is reserved as
/// requested, and nothing else changes.
pub proof fn law_confidential_reservation_effect<P: DeFmiPort>(
    book: &mut ClearingBook,
    request: ConfidentialGuaranteeReservation,
    defmi: &P,
    now: u64,
    r: Result<ConfidentialGuaranteeHold, DeCcpError>,
)
    requires
        call_ensures(
            ClearingBook::reserve_confidential_guarantee::<P>,
            (book, request, defmi, now),
            r,
        ),
    ensures
        r is Err ==> final(book)@ == old(book)@,
        r matches Err(DeCcpError::DeFmiEvidenceRejected(message)) ==> exists|
            reply: Result<(), String>,
        |
            reply == Err::<(), String>(message) && #[trigger] call_ensures(
                P::verify_confidential_guarantee_hold,
                (
                    defmi,
                    &old(book)@.confidential_guarantee_facilities[request.facility_id],
                    &request,
                    now,
                ),
                reply,
            ),
        r is Ok ==> {
            let before = old(book)@.confidential_guarantee_facilities[request.facility_id];
            let after = final(book)@.confidential_guarantee_facilities[request.facility_id];
            let hold = r->Ok_0;
            &&& confidentially_reservable(old(book)@, request, now)
            &&& exists|reply: Result<(), String>|
                reply is Ok && #[trigger] call_ensures(
                    P::verify_confidential_guarantee_hold,
                    (
                        defmi,
                        &old(book)@.confidential_guarantee_facilities[request.facility_id],
                        &request,
                        now,
                    ),
                    reply,
                )
            &&& final(book)@ == (BookState {
                confidential_guarantee_facilities: old(
                    book,
                )@.confidential_guarantee_facilities.insert(request.facility_id, after),
                confidential_guarantee_holds: old(book)@.confidential_guarantee_holds.insert(
                    request.hold_id,
                    hold,
                ),
                used_operations: old(book)@.used_operations.insert(request.operation_id),
                ..old(book)@
            })
            &&& one_step(before, after, request.after_facility_state_digest)
            &&& hold.hold_id == request.hold_id
            &&& hold.facility_id == request.facility_id
            &&& hold.purpose_digest == request.purpose_digest
            &&& hold.coverage_commitment == request.coverage_commitment
            &&& hold.defmi_hold_id == request.defmi_hold_id
            &&& hold.relation_proof_digest == request.relation_proof_digest
            &&& hold.reserved_state_digest == request.after_facility_state_digest
            &&& hold.valid_until == request.valid_until
            &&& hold.status == GuaranteeHoldStatus::Reserved
            &&& hold.bound_exposure_id is None
            &&& hold.defmi_settlement_receipt is None
        },
        confidentially_reservable(old(book)@, request, now) && (forall|reply: Result<(), String>|
         #[trigger]
            call_ensures(
                P::verify_confidential_guarantee_hold,
                (
                    defmi,
                    &old(book)@.confidential_guarantee_facilities[request.facility_id],
                    &request,
                    now,
                ),
                reply,
            ) ==> reply is Ok) ==> r is Ok,
        r matches Err(error) ==> {
            let facility = old(book)@.confidential_guarantee_facilities[request.facility_id];
            &&& error is InvalidGuaranteeReservation <==> !confidential_reservation_open(
                old(book)@,
                request,
                now,
            )
            &&& error is UnknownGuaranteeFacility ==> !old(
                book,
            )@.confidential_guarantee_facilities.contains_key(request.facility_id)
            &&& error is StaleSequence ==> facility.status != GuaranteeFacilityStatus::Active
                || facility.valid_until < request.valid_until || facility.sequence
                != request.expected_facility_sequence || facility.latest_facility_state_digest
                != request.expected_facility_state_digest
            &&& error is UnknownParticipant ==> !old(book)@.participants.contains_key(
                facility.guarantor_id,
            )
            &&& error is ParticipantNotActive ==> !may_act(
                old(book)@,
                facility.guarantor_id,
                now,
            )
            &&& error is ArithmeticOverflow ==> facility.sequence == u64::MAX
            &&& error is InvalidGuaranteeReservation || error is UnknownGuaranteeFacility
                || error is StaleSequence || error is UnknownParticipant
                || error is ParticipantNotActive || error is ArithmeticOverflow
                || error is DeFmiEvidenceRejected
        },
{
    let ids = seq![
        request.operation_id,
        request.hold_id,
        request.facility_id,
        request.purpose_digest,
        request.coverage_commitment,
        request.defmi_hold_id,
        request.relation_proof_digest,
        request.expected_facility_state_digest,
        request.after_facility_state_digest,
    ];
    if !has_zero(ids) {
        assert(ids[0] != ZERO && ids[1] != ZERO && ids[2] != ZERO && ids[3] != ZERO && ids[4]
            != ZERO && ids[5] != ZERO && ids[6] != ZERO && ids[7] != ZERO && ids[8] != ZERO);
    }
}

/// A confidential hold is bound exactly if everything named is set, the operation
/// is unused, and the hold is reserved and in time; it then names the exposure,
/// and nothing else changes.
pub proof fn law_confidential_binding_effect(
    book: &mut ClearingBook,
    operation_id: Identifier,
    hold_id: Identifier,
    exposure_id: Identifier,
    now: u64,
    r: Result<(), DeCcpError>,
)
    requires
        call_ensures(
            ClearingBook::bind_confidential_guarantee,
            (book, operation_id, hold_id, exposure_id, now),
            r,
        ),
    ensures
        r is Err ==> final(book)@ == old(book)@,
        ({
            let before = old(book)@.confidential_guarantee_holds[hold_id];
            let named = operation_id != ZERO && hold_id != ZERO && exposure_id != ZERO && !old(
                book,
            )@.used_operations.contains(operation_id);
            &&& r is Ok <==> {
                &&& named
                &&& old(book)@.confidential_guarantee_holds.contains_key(hold_id)
                &&& before.status == GuaranteeHoldStatus::Reserved
                &&& now <= before.valid_until
            }
            &&& r is Ok ==> final(book)@ == (BookState {
                confidential_guarantee_holds: old(book)@.confidential_guarantee_holds.insert(
                    hold_id,
                    ConfidentialGuaranteeHold {
                        status: GuaranteeHoldStatus::Bound,
                        bound_exposure_id: Some(exposure_id),
                        ..before
                    },
                ),
                used_operations: old(book)@.used_operations.insert(operation_id),
                ..old(book)@
            })
            &&& r == Err::<(), DeCcpError>(DeCcpError::InvalidGuaranteeReservation) <==> !named
            &&& r == Err::<(), DeCcpError>(DeCcpError::UnknownGuaranteeHold) <==> named && !old(
                book,
            )@.confidential_guarantee_holds.contains_key(hold_id)
            &&& r matches Err(error) ==> error is InvalidGuaranteeReservation
                || error is UnknownGuaranteeHold || error is GuaranteeHoldUnavailable
        }),
{
    let ids = seq![operation_id, hold_id, exposure_id];
    if !has_zero(ids) {
        assert(ids[0] != ZERO && ids[1] != ZERO && ids[2] != ZERO);
    }
}

/// The facility that a confidential hold is on.
pub open spec fn behind(book: BookState, hold_id: Identifier) -> ConfidentialGuaranteeFacility {
    book.confidential_guarantee_facilities[book.confidential_guarantee_holds[hold_id].facility_id]
}

/// Whether a confidential hold was ended with a receipt, its facility moved on to
/// a state, and nothing else in the book changed.
pub open spec fn hold_ended(
    before: BookState,
    after: BookState,
    operation_id: Identifier,
    hold_id: Identifier,
    status: GuaranteeHoldStatus,
    receipt: Digest32,
    state: Digest32,
) -> bool {
    let hold = before.confidential_guarantee_holds[hold_id];
    &&& after == (BookState {
        confidential_guarantee_facilities: before.confidential_guarantee_facilities.insert(
            hold.facility_id,
            behind(after, hold_id),
        ),
        confidential_guarantee_holds: before.confidential_guarantee_holds.insert(
            hold_id,
            ConfidentialGuaranteeHold { status, defmi_settlement_receipt: Some(receipt), ..hold },
        ),
        used_operations: before.used_operations.insert(operation_id),
        ..before
    })
    &&& one_step(behind(before, hold_id), behind(after, hold_id), state)
}

/// Whether a confidential release is complete: everything it names is set, it
/// leads to another state, its operation is unused, and its receipt is for exactly
/// this request.
pub open spec fn confidential_release_open(
    book: BookState,
    request: ConfidentialGuaranteeReleaseRequest,
) -> bool {
    &&& request.operation_id != ZERO
    &&& request.hold_id != ZERO
    &&& request.expected_facility_state_digest != ZERO
    &&& request.after_facility_state_digest != ZERO
    &&& request.transition_proof_digest != ZERO
    &&& request.receipt.receipt_digest != ZERO
    &&& request.expected_facility_state_digest != request.after_facility_state_digest
    &&& !book.used_operations.contains(request.operation_id)
    &&& request.receipt.context_digest == confidential_release_context(request)
}

/// Whether a confidential release can be carried out, apart from the settlement
/// layer's word: it is complete, the hold is reserved or bound, and its facility
/// is in the state that the request names and can advance.
pub open spec fn confidentially_releasable(
    book: BookState,
    request: ConfidentialGuaranteeReleaseRequest,
) -> bool {
    let hold = book.confidential_guarantee_holds[request.hold_id];
    let facility = behind(book, request.hold_id);
    &&& confidential_release_open(book, request)
    &&& book.confidential_guarantee_holds.contains_key(request.hold_id)
    &&& hold.status == GuaranteeHoldStatus::Reserved || hold.status == GuaranteeHoldStatus::Bound
    &&& book.confidential_guarantee_facilities.contains_key(hold.facility_id)
    &&& facility.sequence == request.expected_facility_sequence
    &&& facility.latest_facility_state_digest == request.expected_facility_state_digest
    &&& facility.sequence < u64::MAX
}

/// A confidential hold, reserved or bound alike, is released exactly when it can
/// be and the settlement layer confirms the transition of the facility and the
/// hold as they stand; it then is released with the receipt.
pub proof fn law_confidential_release_effect<P: DeFmiPort>(
    book: &mut ClearingBook,
    request: ConfidentialGuaranteeReleaseRequest,
    defmi: &P,
    now: u64,
    r: Result<(), DeCcpError>,
)
    requires
        call_ensures(
            ClearingBook::release_confidential_guarantee::<P>,
            (book, request, defmi, now),
            r,
        ),
    ensures
        r is Err ==> final(book)@ == old(book)@,
        r matches Err(DeCcpError::DeFmiEvidenceRejected(message)) ==> exists|
            reply: Result<(), String>,
        |
            reply == Err::<(), String>(message) && #[trigger] call_ensures(
                P::verify_confidential_guarantee_release,
                (
                    defmi,
                    &behind(old(book)@, request.hold_id),
                    &old(book)@.confidential_guarantee_holds[request.hold_id],
                    &request,
                    now,
                ),
                reply,
            ),
        r is Ok ==> {
            &&& confidentially_releasable(old(book)@, request)
            &&& exists|reply: Result<(), String>|
                reply is Ok && #[trigger] call_ensures(
                    P::verify_confidential_guarantee_release,
                    (
                        defmi,
                        &behind(old(book)@, request.hold_id),
                        &old(book)@.confidential_guarantee_holds[request.hold_id],
                        &request,
                        now,
                    ),
                    reply,
                )
            &&& hold_ended(
                old(book)@,
                final(book)@,
                request.operation_id,
                request.hold_id,
                GuaranteeHoldStatus::Released,
                request.receipt.receipt_digest,
                request.after_facility_state_digest,
            )
        },
        confidentially_releasable(old(book)@, request) && (forall|reply: Result<(), String>|
         #[trigger]
            call_ensures(
                P::verify_confidential_guarantee_release,
                (
                    defmi,
                    &behind(old(book)@, request.hold_id),
                    &old(book)@.confidential_guarantee_holds[request.hold_id],
                    &request,
                    now,
                ),
                reply,
            ) ==> reply is Ok) ==> r is Ok,
        r matches Err(error) ==> {
            let hold = old(book)@.confidential_guarantee_holds[request.hold_id];
            let facility = behind(old(book)@, request.hold_id);
            &&& error is ReplayOrStaleOperation <==> !confidential_release_open(
                old(book)@,
                request,
            )
            &&& error is UnknownGuaranteeHold ==> !old(
                book,
            )@.confidential_guarantee_holds.contains_key(request.hold_id)
            &&& error is GuaranteeHoldUnavailable ==> hold.status == GuaranteeHoldStatus::Consumed
                || hold.status == GuaranteeHoldStatus::Released
            &&& error is UnknownGuaranteeFacility ==> !old(
                book,
            )@.confidential_guarantee_facilities.contains_key(hold.facility_id)
            &&& error is StaleSequence ==> facility.sequence != request.expected_facility_sequence
                || facility.latest_facility_state_digest
                != request.expected_facility_state_digest
            &&& error is ArithmeticOverflow ==> facility.sequence == u64::MAX
            &&& error is ReplayOrStaleOperation || error is UnknownGuaranteeHold
                || error is GuaranteeHoldUnavailable || error is UnknownGuaranteeFacility
                || error is StaleSequence || error is ArithmeticOverflow
                || error is DeFmiEvidenceRejected
        },
{
    let ids = seq![
        request.operation_id,
        request.hold_id,
        request.expected_facility_state_digest,
        request.after_facility_state_digest,
        request.transition_proof_digest,
        request.receipt.receipt_digest,
    ];
    if !has_zero(ids) {
        assert(ids[0] != ZERO && ids[1] != ZERO && ids[2] != ZERO && ids[3] != ZERO && ids[4]
            != ZERO && ids[5] != ZERO);
    }
    assert(old(book)@.facility_of(request.hold_id) == behind(old(book)@, request.hold_id));
}

/// Whether a confidential claim is complete: everything it names is set, it leads
/// to another state, its operation is unused, and its receipt is for exactly this
/// request.
pub open spec fn confidential_claim_open(
    book: BookState,
    request: ConfidentialGuaranteeClaimRequest,
) -> bool {
    &&& request.operation_id != ZERO
    &&& request.hold_id != ZERO
    &&& request.exposure_id != ZERO
    &&& request.default_event_digest != ZERO
    &&& request.expected_facility_state_digest != ZERO
    &&& request.after_facility_state_digest != ZERO
    &&& request.transition_proof_digest != ZERO
    &&& request.receipt.receipt_digest != ZERO
    &&& request.expected_facility_state_digest != request.after_facility_state_digest
    &&& !book.used_operations.contains(request.operation_id)
    &&& request.receipt.context_digest == confidential_claim_context(request)
}

/// Whether a confidential claim can be paid, apart from the settlement layer's
/// word: it is complete, the hold is bound to its exposure and in time, and its
/// facility is in the state that the request names and can advance.
pub open spec fn confidentially_claimable(
    book: BookState,
    request: ConfidentialGuaranteeClaimRequest,
    now: u64,
) -> bool {
    let hold = book.confidential_guarantee_holds[request.hold_id];
    let facility = behind(book, request.hold_id);
    &&& confidential_claim_open(book, request)
    &&& book.confidential_guarantee_holds.contains_key(request.hold_id)
    &&& hold.status == GuaranteeHoldStatus::Bound
    &&& hold.bound_exposure_id == Some(request.exposure_id)
    &&& now <= hold.valid_until
    &&& book.confidential_guarantee_facilities.contains_key(hold.facility_id)
    &&& facility.sequence == request.expected_facility_sequence
    &&& facility.latest_facility_state_digest == request.expected_facility_state_digest
    &&& facility.sequence < u64::MAX
}

/// A confidential claim is paid exactly when it can be and the settlement layer
/// confirms the transition of the facility and the hold as they stand; the hold
/// then is consumed with the receipt.
pub proof fn law_confidential_claim_effect<P: DeFmiPort>(
    book: &mut ClearingBook,
    request: ConfidentialGuaranteeClaimRequest,
    defmi: &P,
    now: u64,
    r: Result<(), DeCcpError>,
)
    requires
        call_ensures(
            ClearingBook::consume_confidential_guarantee::<P>,
            (book, request, defmi, now),
            r,
        ),
    ensures
        r is Err ==> final(book)@ == old(book)@,
        r matches Err(DeCcpError::DeFmiEvidenceRejected(message)) ==> exists|
            reply: Result<(), String>,
        |
            reply == Err::<(), String>(message) && #[trigger] call_ensures(
                P::verify_confidential_guarantee_claim,
                (
                    defmi,
                    &behind(old(book)@, request.hold_id),
                    &old(book)@.confidential_guarantee_holds[request.hold_id],
                    &request,
                    now,
                ),
                reply,
            ),
        r is Ok ==> {
            &&& confidentially_claimable(old(book)@, request, now)
            &&& exists|reply: Result<(), String>|
                reply is Ok && #[trigger] call_ensures(
                    P::verify_confidential_guarantee_claim,
                    (
                        defmi,
                        &behind(old(book)@, request.hold_id),
                        &old(book)@.confidential_guarantee_holds[request.hold_id],
                        &request,
                        now,
                    ),
                    reply,
                )
            &&& hold_ended(
                old(book)@,
                final(book)@,
                request.operation_id,
                request.hold_id,
                GuaranteeHoldStatus::Consumed,
                request.receipt.receipt_digest,
                request.after_facility_state_digest,
            )
        },
        confidentially_claimable(old(book)@, request, now) && (forall|reply: Result<(), String>|
         #[trigger]
            call_ensures(
                P::verify_confidential_guarantee_claim,
                (
                    defmi,
                    &behind(old(book)@, request.hold_id),
                    &old(book)@.confidential_guarantee_holds[request.hold_id],
                    &request,
                    now,
                ),
                reply,
            ) ==> reply is Ok) ==> r is Ok,
        r matches Err(error) ==> {
            let hold = old(book)@.confidential_guarantee_holds[request.hold_id];
            let facility = behind(old(book)@, request.hold_id);
            &&& error is InvalidGuaranteeClaim <==> !confidential_claim_open(old(book)@, request)
            &&& error is UnknownGuaranteeHold ==> !old(
                book,
            )@.confidential_guarantee_holds.contains_key(request.hold_id)
            &&& error is GuaranteeHoldUnavailable ==> hold.status != GuaranteeHoldStatus::Bound
                || hold.bound_exposure_id != Some(request.exposure_id) || hold.valid_until < now
            &&& error is UnknownGuaranteeFacility ==> !old(
                book,
            )@.confidential_guarantee_facilities.contains_key(hold.facility_id)
            &&& error is StaleSequence ==> facility.sequence != request.expected_facility_sequence
                || facility.latest_facility_state_digest
                != request.expected_facility_state_digest
            &&& error is ArithmeticOverflow ==> facility.sequence == u64::MAX
            &&& error is InvalidGuaranteeClaim || error is UnknownGuaranteeHold
                || error is GuaranteeHoldUnavailable || error is UnknownGuaranteeFacility
                || error is StaleSequence || error is ArithmeticOverflow
                || error is DeFmiEvidenceRejected
        },
{
    let ids = seq![
        request.operation_id,
        request.hold_id,
        request.exposure_id,
        request.default_event_digest,
        request.expected_facility_state_digest,
        request.after_facility_state_digest,
        request.transition_proof_digest,
        request.receipt.receipt_digest,
    ];
    if !has_zero(ids) {
        assert(ids[0] != ZERO && ids[1] != ZERO && ids[2] != ZERO && ids[3] != ZERO && ids[4]
            != ZERO && ids[5] != ZERO && ids[6] != ZERO && ids[7] != ZERO);
    }
    assert(old(book)@.facility_of(request.hold_id) == behind(old(book)@, request.hold_id));
}

} // verus!
