//! Laws of guarantee facilities and holds: which requests are carried out, and
//! exactly what they leave behind.

use vstd::prelude::*;

use crate::authority::QuorumApproval;
use crate::book::{BookState, ClearingBook};
use crate::error::DeCcpError;
use crate::guarantees::{
    claim_context, facility_statement, release_context, DefmiSettlementReceipt,
    GuaranteeClaimRequest, GuaranteeFacility, GuaranteeFacilityStatus, GuaranteeHold,
    GuaranteeHoldStatus, GuaranteeReservation,
};
use crate::ident::{has_zero, Identifier, ZERO};
use crate::laws::authority::{law_refusal_of_approval, sealed};
use crate::laws::members::may_act;
use crate::ports::DeFmiPort;

verus! {

/// A hold is live exactly while it is reserved or bound.
pub proof fn law_live_holds(status: GuaranteeHoldStatus, r: bool)
    requires
        call_ensures(GuaranteeHoldStatus::is_live, (status,), r),
    ensures
        status == GuaranteeHoldStatus::Reserved ==> r,
        status == GuaranteeHoldStatus::Bound ==> r,
        status == GuaranteeHoldStatus::Consumed ==> !r,
        status == GuaranteeHoldStatus::Released ==> !r,
{
}

/// Whether a settlement-layer hold backs no hold of a book yet, of either kind.
pub open spec fn settlement_hold_free(book: BookState, id: Identifier) -> bool {
    &&& forall|h: Identifier| #[trigger]
        book.guarantee_holds.contains_key(h) ==> book.guarantee_holds[h].defmi_hold_id != id
    &&& forall|h: Identifier| #[trigger]
        book.confidential_guarantee_holds.contains_key(h)
            ==> book.confidential_guarantee_holds[h].defmi_hold_id != id
}

/// Whether a facility can be registered, apart from its approval: everything it
/// names is set, it has capacity and nothing of it is used, it is active and in
/// time, its operation and its identifier are unused by facilities of either
/// kind, and its guarantor may act.
pub open spec fn registrable(
    book: BookState,
    operation_id: Identifier,
    facility: GuaranteeFacility,
    now: u64,
) -> bool {
    &&& operation_id != ZERO
    &&& facility.facility_id != ZERO
    &&& facility.guarantor_id != ZERO
    &&& facility.beneficiary_subject_line_id != ZERO
    &&& facility.settlement_asset_id != ZERO
    &&& facility.defmi_facility_id != ZERO
    &&& facility.policy_digest != ZERO
    &&& facility.capacity > 0
    &&& facility.reserved == 0
    &&& facility.consumed == 0
    &&& facility.sequence == 0
    &&& now <= facility.valid_until
    &&& facility.status == GuaranteeFacilityStatus::Active
    &&& !book.used_operations.contains(operation_id)
    &&& !book.guarantee_facilities.contains_key(facility.facility_id)
    &&& !book.confidential_guarantee_facilities.contains_key(facility.facility_id)
    &&& may_act(book, facility.guarantor_id, now)
}

/// A facility is registered exactly when it can be, a quorum approved it, and the
/// settlement layer confirms it; it is then in the book as it was given, and
/// nothing else changes.
pub proof fn law_registration_effect<P: DeFmiPort>(
    book: &mut ClearingBook,
    operation_id: Identifier,
    facility: GuaranteeFacility,
    approval: &QuorumApproval,
    defmi: &P,
    now: u64,
    r: Result<(), DeCcpError>,
)
    requires
        call_ensures(
            ClearingBook::register_guarantee_facility::<P>,
            (book, operation_id, facility, approval, defmi, now),
            r,
        ),
    ensures
        r is Err ==> final(book)@ == old(book)@,
        r matches Err(DeCcpError::DeFmiEvidenceRejected(message)) ==> exists|
            reply: Result<(), String>,
        |
            reply == Err::<(), String>(message) && #[trigger] call_ensures(
                P::verify_guarantee_facility,
                (defmi, &facility, now),
                reply,
            ),
        r is Ok ==> {
            &&& registrable(old(book)@, operation_id, facility, now)
            &&& sealed(
                old(book)@.authorities,
                facility_statement(operation_id, facility),
                approval@,
                Some(now),
            )
            &&& exists|reply: Result<(), String>|
                reply is Ok && #[trigger] call_ensures(
                    P::verify_guarantee_facility,
                    (defmi, &facility, now),
                    reply,
                )
            &&& final(book)@ == (BookState {
                guarantee_facilities: old(book)@.guarantee_facilities.insert(
                    facility.facility_id,
                    facility,
                ),
                used_operations: old(book)@.used_operations.insert(operation_id),
                ..old(book)@
            })
        },
        ({
            &&& registrable(old(book)@, operation_id, facility, now)
            &&& sealed(
                old(book)@.authorities,
                facility_statement(operation_id, facility),
                approval@,
                Some(now),
            )
            &&& forall|reply: Result<(), String>| #[trigger]
                call_ensures(P::verify_guarantee_facility, (defmi, &facility, now), reply)
                    ==> reply is Ok
        }) ==> r is Ok,
        r matches Err(DeCcpError::InvalidGuaranteeFacility) ==> !registrable(
            old(book)@,
            operation_id,
            facility,
            now,
        ),
        r matches Err(DeCcpError::UnknownParticipant) ==> !old(book)@.participants.contains_key(
            facility.guarantor_id,
        ),
        r matches Err(DeCcpError::ParticipantNotActive) ==> old(book)@.participants.contains_key(
            facility.guarantor_id,
        ) && !may_act(old(book)@, facility.guarantor_id, now),
        r matches Err(error) ==> error is InvalidGuaranteeFacility || error is UnknownParticipant
            || error is ParticipantNotActive || error is DeFmiEvidenceRejected
            || error is InsufficientQuorum || error is InvalidQuorumApproval
            || error is InvalidAuthoritySet,
{
    law_refusal_of_approval(
        old(book)@.authorities,
        facility_statement(operation_id, facility),
        approval@,
        Some(now),
    );
    let ids = seq![
        operation_id,
        facility.facility_id,
        facility.guarantor_id,
        facility.beneficiary_subject_line_id,
        facility.settlement_asset_id,
        facility.defmi_facility_id,
        facility.policy_digest,
    ];
    if !has_zero(ids) {
        assert(ids[0] != ZERO && ids[1] != ZERO && ids[2] != ZERO && ids[3] != ZERO && ids[4]
            != ZERO && ids[5] != ZERO && ids[6] != ZERO);
    }
}

/// Whether a reservation is complete and its identifiers are free: everything it
/// names is set, it is for some amount and in time, and its operation, its hold,
/// and its settlement-layer hold are unused.
pub open spec fn reservation_open(
    book: BookState,
    request: GuaranteeReservation,
    now: u64,
) -> bool {
    &&& request.operation_id != ZERO
    &&& request.hold_id != ZERO
    &&& request.facility_id != ZERO
    &&& request.purpose_digest != ZERO
    &&& request.defmi_hold_id != ZERO
    &&& request.relation_proof_digest != ZERO
    &&& request.amount > 0
    &&& now <= request.valid_until
    &&& !book.used_operations.contains(request.operation_id)
    &&& !book.guarantee_holds.contains_key(request.hold_id)
    &&& !book.confidential_guarantee_holds.contains_key(request.hold_id)
    &&& settlement_hold_free(book, request.defmi_hold_id)
}

/// Whether a reservation can be carried out, apart from the settlement layer's
/// word: it is open, its facility is active, outlives it, is at the sequence that
/// it names, which can advance, and has room for it, and the guarantor may act.
pub open spec fn reservable(book: BookState, request: GuaranteeReservation, now: u64) -> bool {
    let facility = book.guarantee_facilities[request.facility_id];
    &&& reservation_open(book, request, now)
    &&& book.guarantee_facilities.contains_key(request.facility_id)
    &&& may_act(book, facility.guarantor_id, now)
    &&& facility.status == GuaranteeFacilityStatus::Active
    &&& request.valid_until <= facility.valid_until
    &&& facility.sequence == request.expected_facility_sequence
    &&& facility.sequence < u64::MAX
    &&& facility.reserved + facility.consumed + request.amount <= facility.capacity
}

/// A reservation is carried out exactly when it can be and the settlement layer
/// confirms the hold. The facility then has the amount reserved on top and is one
/// step further, the hold is reserved as requested, and nothing else changes.
pub proof fn law_reservation_effect<P: DeFmiPort>(
    book: &mut ClearingBook,
    request: GuaranteeReservation,
    defmi: &P,
    now: u64,
    r: Result<GuaranteeHold, DeCcpError>,
)
    requires
        call_ensures(ClearingBook::reserve_guarantee::<P>, (book, request, defmi, now), r),
    ensures
        r is Err ==> final(book)@ == old(book)@,
        r matches Err(DeCcpError::DeFmiEvidenceRejected(message)) ==> exists|
            reply: Result<(), String>,
        |
            reply == Err::<(), String>(message) && #[trigger] call_ensures(
                P::verify_guarantee_hold,
                (defmi, &request, now),
                reply,
            ),
        r is Ok ==> {
            let before = old(book)@.guarantee_facilities[request.facility_id];
            let after = final(book)@.guarantee_facilities[request.facility_id];
            let hold = r->Ok_0;
            &&& reservable(old(book)@, request, now)
            &&& exists|reply: Result<(), String>|
                reply is Ok && #[trigger] call_ensures(
                    P::verify_guarantee_hold,
                    (defmi, &request, now),
                    reply,
                )
            &&& final(book)@ == (BookState {
                guarantee_facilities: old(book)@.guarantee_facilities.insert(
                    request.facility_id,
                    after,
                ),
                guarantee_holds: old(book)@.guarantee_holds.insert(request.hold_id, hold),
                used_operations: old(book)@.used_operations.insert(request.operation_id),
                ..old(book)@
            })
            &&& after == (GuaranteeFacility {
                reserved: after.reserved,
                sequence: after.sequence,
                ..before
            })
            &&& after.reserved == before.reserved + request.amount
            &&& after.sequence == before.sequence + 1
            &&& hold.hold_id == request.hold_id
            &&& hold.facility_id == request.facility_id
            &&& hold.purpose_digest == request.purpose_digest
            &&& hold.amount == request.amount
            &&& hold.defmi_hold_id == request.defmi_hold_id
            &&& hold.relation_proof_digest == request.relation_proof_digest
            &&& hold.valid_until == request.valid_until
            &&& hold.status == GuaranteeHoldStatus::Reserved
            &&& hold.bound_exposure_id is None
            &&& hold.defmi_settlement_receipt is None
        },
        reservable(old(book)@, request, now) && (forall|reply: Result<(), String>| #[trigger]
            call_ensures(P::verify_guarantee_hold, (defmi, &request, now), reply) ==> reply is Ok)
            ==> r is Ok,
        r matches Err(error) ==> {
            let facility = old(book)@.guarantee_facilities[request.facility_id];
            &&& error is InvalidGuaranteeReservation <==> !reservation_open(
                old(book)@,
                request,
                now,
            )
            &&& error is UnknownGuaranteeFacility ==> !old(
                book,
            )@.guarantee_facilities.contains_key(request.facility_id)
            &&& error is UnknownParticipant ==> !old(book)@.participants.contains_key(
                facility.guarantor_id,
            )
            &&& error is ParticipantNotActive ==> !may_act(
                old(book)@,
                facility.guarantor_id,
                now,
            )
            &&& error is StaleSequence ==> facility.status != GuaranteeFacilityStatus::Active
                || facility.valid_until < request.valid_until || facility.sequence
                != request.expected_facility_sequence
            &&& error is GuaranteeCapacityExceeded ==> facility.reserved + facility.consumed
                + request.amount > facility.capacity
            &&& error is ArithmeticOverflow ==> facility.reserved + facility.consumed
                + request.amount > u128::MAX || facility.sequence == u64::MAX
            &&& error is InvalidGuaranteeReservation || error is UnknownGuaranteeFacility
                || error is UnknownParticipant || error is ParticipantNotActive
                || error is StaleSequence || error is GuaranteeCapacityExceeded
                || error is ArithmeticOverflow || error is DeFmiEvidenceRejected
        },
{
    let ids = seq![
        request.operation_id,
        request.hold_id,
        request.facility_id,
        request.purpose_digest,
        request.defmi_hold_id,
        request.relation_proof_digest,
    ];
    if !has_zero(ids) {
        assert(ids[0] != ZERO && ids[1] != ZERO && ids[2] != ZERO && ids[3] != ZERO && ids[4]
            != ZERO && ids[5] != ZERO);
    }
}

/// A hold is bound exactly if everything named is set, the operation is unused,
/// and the hold is reserved and in time; it then names the exposure, and nothing
/// else changes.
pub proof fn law_binding_effect(
    book: &mut ClearingBook,
    operation_id: Identifier,
    hold_id: Identifier,
    exposure_id: Identifier,
    now: u64,
    r: Result<(), DeCcpError>,
)
    requires
        call_ensures(
            ClearingBook::bind_guarantee,
            (book, operation_id, hold_id, exposure_id, now),
            r,
        ),
    ensures
        r is Err ==> final(book)@ == old(book)@,
        ({
            let before = old(book)@.guarantee_holds[hold_id];
            let named = operation_id != ZERO && hold_id != ZERO && exposure_id != ZERO && !old(
                book,
            )@.used_operations.contains(operation_id);
            &&& r is Ok <==> {
                &&& named
                &&& old(book)@.guarantee_holds.contains_key(hold_id)
                &&& before.status == GuaranteeHoldStatus::Reserved
                &&& now <= before.valid_until
            }
            &&& r is Ok ==> final(book)@ == (BookState {
                guarantee_holds: old(book)@.guarantee_holds.insert(
                    hold_id,
                    GuaranteeHold {
                        status: GuaranteeHoldStatus::Bound,
                        bound_exposure_id: Some(exposure_id),
                        ..before
                    },
                ),
                used_operations: old(book)@.used_operations.insert(operation_id),
                ..old(book)@
            })
            &&& r == Err::<(), DeCcpError>(DeCcpError::InvalidGuaranteeReservation) <==> !named
            &&& r == Err::<(), DeCcpError>(DeCcpError::UnknownGuaranteeHold) <==> named && !old(
                book,
            )@.guarantee_holds.contains_key(hold_id)
            &&& r matches Err(error) ==> error is InvalidGuaranteeReservation
                || error is UnknownGuaranteeHold || error is GuaranteeHoldUnavailable
        }),
{
    let ids = seq![operation_id, hold_id, exposure_id];
    if !has_zero(ids) {
        assert(ids[0] != ZERO && ids[1] != ZERO && ids[2] != ZERO);
    }
}

/// Whether a release is complete: its operation and its receipt are set, the
/// receipt is for the release of this hold, and the operation is unused.
pub open spec fn release_open(
    book: BookState,
    operation_id: Identifier,
    hold_id: Identifier,
    receipt: DefmiSettlementReceipt,
) -> bool {
    &&& operation_id != ZERO
    &&& receipt.receipt_digest != ZERO
    &&& receipt.context_digest == release_context(hold_id)
    &&& !book.used_operations.contains(operation_id)
}

/// Whether a release can be carried out, apart from the settlement layer's word:
/// it is complete, the hold is reserved or bound, and its facility has the amount
/// reserved and can advance.
pub open spec fn releasable(
    book: BookState,
    operation_id: Identifier,
    hold_id: Identifier,
    receipt: DefmiSettlementReceipt,
) -> bool {
    let hold = book.guarantee_holds[hold_id];
    let facility = book.guarantee_facilities[hold.facility_id];
    &&& release_open(book, operation_id, hold_id, receipt)
    &&& book.guarantee_holds.contains_key(hold_id)
    &&& hold.status == GuaranteeHoldStatus::Reserved || hold.status == GuaranteeHoldStatus::Bound
    &&& book.guarantee_facilities.contains_key(hold.facility_id)
    &&& hold.amount <= facility.reserved
    &&& facility.sequence < u64::MAX
}

/// A hold, reserved or bound alike, is released exactly when it can be and the
/// settlement layer confirms the release. Its amount is then no longer reserved,
/// the facility is one step further, the hold is released with the receipt, and
/// nothing else changes.
pub proof fn law_release_effect<P: DeFmiPort>(
    book: &mut ClearingBook,
    operation_id: Identifier,
    hold_id: Identifier,
    receipt: DefmiSettlementReceipt,
    defmi: &P,
    now: u64,
    r: Result<(), DeCcpError>,
)
    requires
        call_ensures(
            ClearingBook::release_guarantee::<P>,
            (book, operation_id, hold_id, receipt, defmi, now),
            r,
        ),
    ensures
        r is Err ==> final(book)@ == old(book)@,
        r matches Err(DeCcpError::DeFmiEvidenceRejected(message)) ==> exists|
            reply: Result<(), String>,
        |
            reply == Err::<(), String>(message) && #[trigger] call_ensures(
                P::verify_guarantee_release,
                (defmi, &release_context(hold_id), &receipt, now),
                reply,
            ),
        r is Ok ==> {
            let hold = old(book)@.guarantee_holds[hold_id];
            let before = old(book)@.guarantee_facilities[hold.facility_id];
            let after = final(book)@.guarantee_facilities[hold.facility_id];
            &&& releasable(old(book)@, operation_id, hold_id, receipt)
            &&& exists|reply: Result<(), String>|
                reply is Ok && #[trigger] call_ensures(
                    P::verify_guarantee_release,
                    (defmi, &release_context(hold_id), &receipt, now),
                    reply,
                )
            &&& final(book)@ == (BookState {
                guarantee_facilities: old(book)@.guarantee_facilities.insert(
                    hold.facility_id,
                    after,
                ),
                guarantee_holds: old(book)@.guarantee_holds.insert(
                    hold_id,
                    GuaranteeHold {
                        status: GuaranteeHoldStatus::Released,
                        defmi_settlement_receipt: Some(receipt.receipt_digest),
                        ..hold
                    },
                ),
                used_operations: old(book)@.used_operations.insert(operation_id),
                ..old(book)@
            })
            &&& after == (GuaranteeFacility {
                reserved: after.reserved,
                sequence: after.sequence,
                ..before
            })
            &&& after.reserved + hold.amount == before.reserved
            &&& after.sequence == before.sequence + 1
        },
        releasable(old(book)@, operation_id, hold_id, receipt) && (forall|
            reply: Result<(), String>,
        | #[trigger]
            call_ensures(
                P::verify_guarantee_release,
                (defmi, &release_context(hold_id), &receipt, now),
                reply,
            ) ==> reply is Ok) ==> r is Ok,
        r matches Err(error) ==> {
            let hold = old(book)@.guarantee_holds[hold_id];
            let facility = old(book)@.guarantee_facilities[hold.facility_id];
            &&& error is ReplayOrStaleOperation <==> !release_open(
                old(book)@,
                operation_id,
                hold_id,
                receipt,
            )
            &&& error is UnknownGuaranteeHold ==> !old(book)@.guarantee_holds.contains_key(hold_id)
            &&& error is GuaranteeHoldUnavailable ==> hold.status == GuaranteeHoldStatus::Consumed
                || hold.status == GuaranteeHoldStatus::Released
            &&& error is UnknownGuaranteeFacility ==> !old(
                book,
            )@.guarantee_facilities.contains_key(hold.facility_id)
            &&& error is InvalidState ==> facility.reserved < hold.amount
            &&& error is ArithmeticOverflow ==> facility.sequence == u64::MAX
            &&& error is ReplayOrStaleOperation || error is UnknownGuaranteeHold
                || error is GuaranteeHoldUnavailable || error is UnknownGuaranteeFacility
                || error is InvalidState || error is ArithmeticOverflow
                || error is DeFmiEvidenceRejected
        },
{
}

/// Whether a claim is complete: everything it names is set, its operation is
/// unused, and its receipt is for this hold, this exposure, and this event.
pub open spec fn claim_open(book: BookState, request: GuaranteeClaimRequest) -> bool {
    &&& request.operation_id != ZERO
    &&& request.hold_id != ZERO
    &&& request.exposure_id != ZERO
    &&& request.default_event_digest != ZERO
    &&& request.receipt.receipt_digest != ZERO
    &&& !book.used_operations.contains(request.operation_id)
    &&& request.receipt.context_digest == claim_context(
        request.hold_id,
        request.exposure_id,
        request.default_event_digest,
    )
}

/// Whether a claim can be paid, apart from the settlement layer's word: it is
/// complete, the hold is bound to its exposure and in time, and its facility has
/// the amount reserved and can book it as consumed.
pub open spec fn claimable(book: BookState, request: GuaranteeClaimRequest, now: u64) -> bool {
    let hold = book.guarantee_holds[request.hold_id];
    let facility = book.guarantee_facilities[hold.facility_id];
    &&& claim_open(book, request)
    &&& book.guarantee_holds.contains_key(request.hold_id)
    &&& hold.status == GuaranteeHoldStatus::Bound
    &&& hold.bound_exposure_id == Some(request.exposure_id)
    &&& now <= hold.valid_until
    &&& book.guarantee_facilities.contains_key(hold.facility_id)
    &&& hold.amount <= facility.reserved
    &&& facility.consumed + hold.amount <= u128::MAX
    &&& facility.sequence < u64::MAX
}

/// A claim is paid exactly when it can be and the settlement layer confirms it.
/// The amount of the hold then moves from reserved to consumed and the facility is
/// one step further; it is exhausted exactly if its whole capacity is consumed,
/// else its status is what it was. The hold is consumed with the receipt, and
/// nothing else changes.
pub proof fn law_claim_effect<P: DeFmiPort>(
    book: &mut ClearingBook,
    request: GuaranteeClaimRequest,
    defmi: &P,
    now: u64,
    r: Result<(), DeCcpError>,
)
    requires
        call_ensures(ClearingBook::consume_guarantee::<P>, (book, request, defmi, now), r),
    ensures
        r is Err ==> final(book)@ == old(book)@,
        r matches Err(DeCcpError::DeFmiEvidenceRejected(message)) ==> exists|
            reply: Result<(), String>,
        |
            reply == Err::<(), String>(message) && #[trigger] call_ensures(
                P::verify_settlement,
                (
                    defmi,
                    &claim_context(
                        request.hold_id,
                        request.exposure_id,
                        request.default_event_digest,
                    ),
                    &request.receipt,
                    now,
                ),
                reply,
            ),
        r is Ok ==> {
            let hold = old(book)@.guarantee_holds[request.hold_id];
            let before = old(book)@.guarantee_facilities[hold.facility_id];
            let after = final(book)@.guarantee_facilities[hold.facility_id];
            &&& claimable(old(book)@, request, now)
            &&& exists|reply: Result<(), String>|
                reply is Ok && #[trigger] call_ensures(
                    P::verify_settlement,
                    (
                        defmi,
                        &claim_context(
                            request.hold_id,
                            request.exposure_id,
                            request.default_event_digest,
                        ),
                        &request.receipt,
                        now,
                    ),
                    reply,
                )
            &&& final(book)@ == (BookState {
                guarantee_facilities: old(book)@.guarantee_facilities.insert(
                    hold.facility_id,
                    after,
                ),
                guarantee_holds: old(book)@.guarantee_holds.insert(
                    request.hold_id,
                    GuaranteeHold {
                        status: GuaranteeHoldStatus::Consumed,
                        defmi_settlement_receipt: Some(request.receipt.receipt_digest),
                        ..hold
                    },
                ),
                used_operations: old(book)@.used_operations.insert(request.operation_id),
                ..old(book)@
            })
            &&& after == (GuaranteeFacility {
                reserved: after.reserved,
                consumed: after.consumed,
                sequence: after.sequence,
                status: after.status,
                ..before
            })
            &&& after.reserved + hold.amount == before.reserved
            &&& after.consumed == before.consumed + hold.amount
            &&& after.sequence == before.sequence + 1
            &&& after.consumed == after.capacity ==> after.status
                == GuaranteeFacilityStatus::Exhausted
            &&& after.consumed != after.capacity ==> after.status == before.status
        },
        claimable(old(book)@, request, now) && (forall|reply: Result<(), String>| #[trigger]
            call_ensures(
                P::verify_settlement,
                (
                    defmi,
                    &claim_context(
                        request.hold_id,
                        request.exposure_id,
                        request.default_event_digest,
                    ),
                    &request.receipt,
                    now,
                ),
                reply,
            ) ==> reply is Ok) ==> r is Ok,
        r matches Err(error) ==> {
            let hold = old(book)@.guarantee_holds[request.hold_id];
            let facility = old(book)@.guarantee_facilities[hold.facility_id];
            &&& error is InvalidGuaranteeClaim <==> !claim_open(old(book)@, request)
            &&& error is UnknownGuaranteeHold ==> !old(book)@.guarantee_holds.contains_key(
                request.hold_id,
            )
            &&& error is GuaranteeHoldUnavailable ==> hold.status != GuaranteeHoldStatus::Bound
                || hold.bound_exposure_id != Some(request.exposure_id) || hold.valid_until < now
            &&& error is UnknownGuaranteeFacility ==> !old(
                book,
            )@.guarantee_facilities.contains_key(hold.facility_id)
            &&& error is InvalidState ==> facility.reserved < hold.amount
            &&& error is ArithmeticOverflow ==> facility.consumed + hold.amount > u128::MAX
                || facility.sequence == u64::MAX
            &&& error is InvalidGuaranteeClaim || error is UnknownGuaranteeHold
                || error is GuaranteeHoldUnavailable || error is UnknownGuaranteeFacility
                || error is InvalidState || error is ArithmeticOverflow
                || error is DeFmiEvidenceRejected
        },
{
    let ids = seq![
        request.operation_id,
        request.hold_id,
        request.exposure_id,
        request.default_event_digest,
        request.receipt.receipt_digest,
    ];
    if !has_zero(ids) {
        assert(ids[0] != ZERO && ids[1] != ZERO && ids[2] != ZERO && ids[3] != ZERO && ids[4]
            != ZERO);
    }
}

/// After a claim, a facility that was not exhausted before is exhausted if and
/// only if everything it can guarantee has been paid out.
pub proof fn law_exhausted_by_the_last_claim<P: DeFmiPort>(
    book: &mut ClearingBook,
    request: GuaranteeClaimRequest,
    defmi: &P,
    now: u64,
    r: Result<(), DeCcpError>,
)
    requires
        call_ensures(ClearingBook::consume_guarantee::<P>, (book, request, defmi, now), r),
        r is Ok,
        old(book)@.guarantee_facilities[old(
            book,
        )@.guarantee_holds[request.hold_id].facility_id].status
            != GuaranteeFacilityStatus::Exhausted,
    ensures
        ({
            let id = old(book)@.guarantee_holds[request.hold_id].facility_id;
            let after = final(book)@.guarantee_facilities[id];
            after.status == GuaranteeFacilityStatus::Exhausted <==> after.consumed
                == after.capacity
        }),
{
    law_claim_effect(book, request, defmi, now, r);
}

} // verus!
