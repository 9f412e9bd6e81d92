//! Laws of refusals: when more than one thing stands in the way of a request, the
//! one that comes first in its order of checks is named, and an outside service is
//! only spoken of once everything in front of it is in order.

use vstd::prelude::*;

use crate::authority::QuorumApproval;
use crate::book::ClearingBook;
use crate::cycles::{ClearingObligation, OpenCycleRequest};
use crate::defaults::{default_statement, DefaultEvidence};
use crate::error::DeCcpError;
use crate::guarantees::{
    claim_context, facility_statement, release_context, ConfidentialGuaranteeClaimRequest,
    ConfidentialGuaranteeFacility, ConfidentialGuaranteeHold, ConfidentialGuaranteeReleaseRequest,
    ConfidentialGuaranteeReservation, DefmiSettlementReceipt, GuaranteeClaimRequest,
    GuaranteeFacility, GuaranteeFacilityStatus, GuaranteeHold, GuaranteeHoldStatus,
    GuaranteeReservation,
};
use crate::ident::{Digest32, Identifier, ZERO};
use crate::laws::authority::{law_refusal_of_approval, sealed};
use crate::laws::clearing::obligation_complete;
use crate::laws::confidential::{
    behind, confidential_claim_open, confidential_release_open, confidential_reservation_open,
    confidentially_registrable,
};
use crate::laws::holds::{registrable, reservation_open};
use crate::laws::losses::declarable;
use crate::laws::members::{
    admission_complete, backed, found_again, lock_free, lot_complete, may_act, valuable,
};
use crate::members::{CollateralLot, MarginUpdate, ParticipantAdmission, VerifiedAdmission};
use crate::ports::{DeFmiPort, EligibilityPort, InstructionPort};

verus! {

/// Whether an error is one of those that an approval is refused with.
pub open spec fn of_approval(error: DeCcpError) -> bool {
    error is InvalidAuthoritySet || error is InvalidQuorumApproval || error is InsufficientQuorum
}

/// An admission is checked for what it holds, for its approval, for its time and
/// its operation, by both services, for what was found, for its lock, and for its
/// identifier, in this order.
pub proof fn law_admission_refusals<V: EligibilityPort, P: DeFmiPort>(
    book: &mut ClearingBook,
    request: ParticipantAdmission,
    verifier: &V,
    approval: &QuorumApproval,
    defmi: &P,
    now: u64,
    r: Result<(), DeCcpError>,
)
    requires
        call_ensures(
            ClearingBook::admit_participant::<V, P>,
            (book, request, verifier, approval, defmi, now),
            r,
        ),
        r is Err,
    ensures
        ({
            let error = r->Err_0;
            let approved = sealed(
                old(book)@.authorities,
                request.statement(),
                approval@,
                Some(now),
            );
            let timely = request.admitted_at == now && !old(book)@.used_operations.contains(
                request.operation_id,
            );
            let in_order = admission_complete(request) && approved && timely;
            &&& error is InvalidParticipant <==> !admission_complete(request)
            &&& of_approval(error) <==> admission_complete(request) && !approved
            &&& error is ReplayOrStaleOperation <==> admission_complete(request) && approved
                && !timely
            &&& error is EligibilityRejected || error is DeFmiEvidenceRejected
                || error is DuplicateDeFmiReference || error is DuplicateParticipant <==> in_order
            &&& error is DeFmiEvidenceRejected || error is DuplicateDeFmiReference
                || error is DuplicateParticipant ==> exists|
                found: Result<VerifiedAdmission, String>,
            |
                found is Ok && #[trigger] call_ensures(
                    V::verify,
                    (verifier, &request.eligibility, now),
                    found,
                )
            &&& error is DuplicateDeFmiReference || error is DuplicateParticipant ==> exists|
                found: Result<VerifiedAdmission, String>,
            |
                found is Ok && found_again(found->Ok_0, request.eligibility)
                    && #[trigger] call_ensures(
                    V::verify,
                    (verifier, &request.eligibility, now),
                    found,
                )
            &&& error is DuplicateDeFmiReference || error is DuplicateParticipant ==> exists|
                reply: Result<(), String>,
            |
                reply is Ok && #[trigger] call_ensures(
                    P::verify_default_fund,
                    (defmi, &request, now),
                    reply,
                )
            &&& error is DuplicateParticipant ==> lock_free(
                old(book)@,
                request.default_fund_defmi_lock_id,
            )
        }),
{
    crate::laws::members::lemma_admission_complete(request);
    law_refusal_of_approval(old(book)@.authorities, request.statement(), approval@, Some(now));
}

/// A lot is checked for what it holds, for its owner, by the settlement layer, for
/// its operation, for its expiry, and for its lock and its identifier, in this
/// order.
pub proof fn law_posting_refusals<P: DeFmiPort>(
    book: &mut ClearingBook,
    lot: CollateralLot,
    defmi: &P,
    now: u64,
    r: Result<(), DeCcpError>,
)
    requires
        call_ensures(ClearingBook::post_collateral::<P>, (book, lot, defmi, now), r),
        r is Err,
    ensures
        ({
            let error = r->Err_0;
            let sound = lot_complete(lot) && valuable(lot);
            let used = old(book)@.used_operations.contains(lot.operation_id);
            &&& lot_complete(lot) && lot.haircut_basis_points < 10_000 && !valuable(lot)
                <==> error is ArithmeticOverflow
            &&& !lot_complete(lot) || lot.haircut_basis_points >= 10_000
                ==> error is InvalidCollateral
            &&& error is UnknownParticipant || error is ParticipantNotActive <==> sound
                && !may_act(old(book)@, lot.owner_id, now)
            &&& error is DeFmiEvidenceRejected ==> sound && may_act(old(book)@, lot.owner_id, now)
            &&& error is ReplayOrStaleOperation ==> sound && may_act(
                old(book)@,
                lot.owner_id,
                now,
            )
            &&& error is DuplicateDeFmiReference ==> sound && may_act(
                old(book)@,
                lot.owner_id,
                now,
            ) && !used && now <= lot.valid_until
            &&& error is InvalidCollateral && sound ==> !used
            &&& error is ReplayOrStaleOperation || error is DuplicateDeFmiReference || (
            error is InvalidCollateral && sound) ==> exists|reply: Result<(), String>|
                reply is Ok && #[trigger] call_ensures(
                    P::verify_collateral_lock,
                    (defmi, &lot, now),
                    reply,
                )
        }),
{
    crate::laws::members::lemma_lot_complete(lot);
}

/// A margin update is checked for its member, for what it holds, for its approval,
/// for its size, for the collateral behind it, and for its sequence, in this order.
pub proof fn law_margin_refusals(
    book: &mut ClearingBook,
    request: MarginUpdate,
    approval: &QuorumApproval,
    now: u64,
    r: Result<(), DeCcpError>,
)
    requires
        call_ensures(ClearingBook::set_margin, (book, request, approval, now), r),
        r is Err,
    ensures
        ({
            let error = r->Err_0;
            let named = request.operation_id != ZERO && request.initial_margin > 0 && !old(
                book,
            )@.used_operations.contains(request.operation_id);
            let approved = sealed(
                old(book)@.authorities,
                request.statement(),
                approval@,
                Some(now),
            );
            let sum = request.initial_margin + request.variation_margin;
            let acting = may_act(old(book)@, request.participant_id, now);
            &&& error is ParticipantNotActive <==> old(book)@.participants.contains_key(
                request.participant_id,
            ) && !acting
            &&& !old(book)@.participants.contains_key(request.participant_id)
                ==> error is UnknownParticipant
            &&& error is InvalidMargin <==> acting && !named
            &&& of_approval(error) <==> acting && named && !approved
            &&& acting && named && approved && sum > u128::MAX ==> error is ArithmeticOverflow
            &&& error is InsufficientCollateral <==> acting && named && approved && sum
                <= u128::MAX && backed(old(book)@, request.participant_id, now, 0) && !backed(
                old(book)@,
                request.participant_id,
                now,
                sum,
            )
            &&& error is StaleSequence <==> acting && named && approved && sum <= u128::MAX
                && backed(old(book)@, request.participant_id, now, sum) && old(
                book,
            )@.margins.contains_key(request.participant_id) && old(
                book,
            )@.margins[request.participant_id].sequence != request.expected_sequence
        }),
{
    let before = old(book)@;
    let keys = crate::ident::ascending(before.collateral.dom());
    crate::laws::members::lemma_backing(before, keys, request.participant_id, now);
    if before.collateral_worth(keys, request.participant_id, now) is Ok {
        crate::laws::members::lemma_backing_positive(before, keys, request.participant_id, now);
    }
    law_refusal_of_approval(before.authorities, request.statement(), approval@, Some(now));
}

/// A cycle is checked for what it holds, and after that for its approval.
pub proof fn law_cycle_opening_refusals(
    book: &mut ClearingBook,
    request: OpenCycleRequest,
    approval: &QuorumApproval,
    now: u64,
    r: Result<(), DeCcpError>,
)
    requires
        call_ensures(ClearingBook::open_cycle, (book, request, approval, now), r),
        r is Err,
    ensures
        of_approval(r->Err_0) <==> crate::laws::clearing::cycle_openable(
            old(book)@,
            request,
            now,
        ),
        !of_approval(r->Err_0) ==> r->Err_0 is InvalidCycle,
{
    crate::laws::clearing::law_cycle_opening_effect(book, request, approval, now, r);
    law_refusal_of_approval(old(book)@.authorities, request.statement(), approval@, Some(now));
}

/// An obligation is checked for what it holds, for its payer, for its payee, by
/// the instruction source, for what it repeats, and for its cycle, in this order.
pub proof fn law_submission_refusals<P: InstructionPort>(
    book: &mut ClearingBook,
    o: ClearingObligation,
    instructions: &P,
    now: u64,
    r: Result<(), DeCcpError>,
)
    requires
        call_ensures(ClearingBook::submit_obligation::<P>, (book, o, instructions, now), r),
        r is Err,
    ensures
        ({
            let error = r->Err_0;
            let acting = may_act(old(book)@, o.payer_id, now) && may_act(
                old(book)@,
                o.payee_id,
                now,
            );
            let fresh = !old(book)@.used_operations.contains(o.operation_id) && !old(
                book,
            )@.obligations.contains_key(o.obligation_id);
            &&& error is InvalidObligation <==> !obligation_complete(o)
            &&& error is UnknownParticipant || error is ParticipantNotActive
                <==> obligation_complete(o) && !acting
            &&& obligation_complete(o) && !may_act(old(book)@, o.payer_id, now) ==> (
            error is UnknownParticipant <==> !old(book)@.participants.contains_key(o.payer_id))
            &&& error is InstructionRejected || error is DuplicateObligation
                || error is UnknownCycle || error is CycleNotOpen <==> obligation_complete(o)
                && acting
            &&& error is DuplicateObligation || error is UnknownCycle || error is CycleNotOpen
                ==> exists|reply: Result<(), String>|
                reply is Ok && #[trigger] call_ensures(
                    P::verify_obligation,
                    (instructions, &o, now),
                    reply,
                )
            &&& error is UnknownCycle || error is CycleNotOpen ==> fresh
        }),
{
    crate::laws::clearing::lemma_obligation_complete(o);
}

/// A settlement is checked for its receipt, by the settlement layer, and for its
/// cycle, in this order.
pub proof fn law_settlement_refusals<P: DeFmiPort>(
    book: &mut ClearingBook,
    cycle_id: Identifier,
    proposal_digest: Digest32,
    receipt: DefmiSettlementReceipt,
    defmi: &P,
    now: u64,
    r: Result<(), DeCcpError>,
)
    requires
        call_ensures(
            ClearingBook::record_cycle_settlement::<P>,
            (book, &cycle_id, proposal_digest, receipt, defmi, now),
            r,
        ),
        r is Err,
    ensures
        ({
            let error = r->Err_0;
            let named = receipt.receipt_digest != ZERO && receipt.context_digest
                == proposal_digest;
            &&& !named ==> error is InvalidSettlementReceipt
            &&& error is DeFmiEvidenceRejected ==> named
            &&& error is UnknownCycle || (error is InvalidSettlementReceipt && named) ==> exists|
                reply: Result<(), String>,
            |
                reply is Ok && #[trigger] call_ensures(
                    P::verify_settlement,
                    (defmi, &proposal_digest, &receipt, now),
                    reply,
                )
            &&& error is InvalidSettlementReceipt && named ==> old(book)@.cycles.contains_key(
                cycle_id,
            )
        }),
{
}

/// A declaration is checked for what it holds, for its member, and for its
/// approval, in this order.
pub proof fn law_declaration_refusals(
    book: &mut ClearingBook,
    operation_id: Identifier,
    case_id: Identifier,
    evidence: DefaultEvidence,
    approval: &QuorumApproval,
    now: u64,
    r: Result<(), DeCcpError>,
)
    requires
        call_ensures(
            ClearingBook::declare_default,
            (book, operation_id, case_id, evidence, approval, now),
            r,
        ),
        r is Err,
    ensures
        ({
            let error = r->Err_0;
            let named = operation_id != ZERO && case_id != ZERO && evidence.event_id != ZERO
                && evidence.source_id != ZERO && evidence.participant_id != ZERO
                && evidence.event_digest != ZERO && evidence.observed_at <= now && !old(
                book,
            )@.used_operations.contains(operation_id) && !old(book)@.defaults.contains_key(case_id);
            &&& error is InvalidDefault <==> !named
            &&& error is UnknownParticipant || error is ParticipantNotActive <==> named && !may_act(
                old(book)@,
                evidence.participant_id,
                now,
            )
            &&& of_approval(error) <==> declarable(
                old(book)@,
                operation_id,
                case_id,
                evidence,
                now,
            )
        }),
{
    crate::laws::losses::law_declaration_effect(
        book,
        operation_id,
        case_id,
        evidence,
        approval,
        now,
        r,
    );
    law_refusal_of_approval(
        old(book)@.authorities,
        default_statement(operation_id, case_id, evidence, now),
        approval@,
        Some(now),
    );
    let ids = seq![
        operation_id,
        case_id,
        evidence.event_id,
        evidence.source_id,
        evidence.participant_id,
        evidence.event_digest,
    ];
    if !crate::ident::has_zero(ids) {
        assert(ids[0] != ZERO && ids[1] != ZERO && ids[2] != ZERO && ids[3] != ZERO && ids[4]
            != ZERO && ids[5] != ZERO);
    }
}

/// A facility is checked for what it holds, for its guarantor, by the settlement
/// layer, and for its approval, in this order.
pub proof fn law_registration_refusals<P: DeFmiPort>(
    book: &mut ClearingBook,
    operation_id: Identifier,
    facility: GuaranteeFacility,
    approval: &QuorumApproval,
    defmi: &P,
    now: u64,
    r: Result<(), DeCcpError>,
)
    requires
        call_ensures(
            ClearingBook::register_guarantee_facility::<P>,
            (book, operation_id, facility, approval, defmi, now),
            r,
        ),
        r is Err,
    ensures
        ({
            let error = r->Err_0;
            let acting = may_act(old(book)@, facility.guarantor_id, now);
            &&& error is InvalidGuaranteeFacility ==> !registrable(
                old(book)@,
                operation_id,
                facility,
                now,
            )
            &&& acting && !registrable(old(book)@, operation_id, facility, now)
                ==> error is InvalidGuaranteeFacility
            &&& of_approval(error) || error is DeFmiEvidenceRejected <==> registrable(
                old(book)@,
                operation_id,
                facility,
                now,
            )
            &&& of_approval(error) ==> exists|reply: Result<(), String>|
                reply is Ok && #[trigger] call_ensures(
                    P::verify_guarantee_facility,
                    (defmi, &facility, now),
                    reply,
                )
        }),
{
    crate::laws::holds::law_registration_effect(
        book,
        operation_id,
        facility,
        approval,
        defmi,
        now,
        r,
    );
    law_refusal_of_approval(
        old(book)@.authorities,
        facility_statement(operation_id, facility),
        approval@,
        Some(now),
    );
}

/// A reservation is checked for what it holds, for its facility, for the
/// guarantor, by the settlement layer, for the facility's state, and for its size,
/// in this order.
pub proof fn law_reservation_refusals<P: DeFmiPort>(
    book: &mut ClearingBook,
    request: GuaranteeReservation,
    defmi: &P,
    now: u64,
    r: Result<GuaranteeHold, DeCcpError>,
)
    requires
        call_ensures(ClearingBook::reserve_guarantee::<P>, (book, request, defmi, now), r),
        r is Err,
    ensures
        ({
            let error = r->Err_0;
            let facility = old(book)@.guarantee_facilities[request.facility_id];
            let open = reservation_open(old(book)@, request, now);
            let known = old(book)@.guarantee_facilities.contains_key(request.facility_id);
            let acting = may_act(old(book)@, facility.guarantor_id, now);
            let current = facility.status == GuaranteeFacilityStatus::Active && request.valid_until
                <= facility.valid_until && facility.sequence == request.expected_facility_sequence;
            let sum = facility.reserved + facility.consumed + request.amount;
            &&& error is UnknownGuaranteeFacility <==> open && !known
            &&& error is UnknownParticipant || error is ParticipantNotActive <==> open && known
                && !acting
            &&& error is DeFmiEvidenceRejected || error is StaleSequence
                || error is GuaranteeCapacityExceeded || error is ArithmeticOverflow <==> open
                && known && acting
            &&& error is StaleSequence || error is GuaranteeCapacityExceeded
                || error is ArithmeticOverflow ==> exists|reply: Result<(), String>|
                reply is Ok && #[trigger] call_ensures(
                    P::verify_guarantee_hold,
                    (defmi, &request, now),
                    reply,
                )
            &&& error is StaleSequence ==> !current
            &&& error is GuaranteeCapacityExceeded ==> current && sum <= u128::MAX
            &&& error is ArithmeticOverflow ==> current
        }),
{
    crate::laws::holds::law_reservation_effect(book, request, defmi, now, r);
}

/// A release is checked for what it holds, by the settlement layer, for its hold,
/// and for its facility, in this order.
pub proof fn law_release_refusals<P: DeFmiPort>(
    book: &mut ClearingBook,
    operation_id: Identifier,
    hold_id: Identifier,
    receipt: DefmiSettlementReceipt,
    defmi: &P,
    now: u64,
    r: Result<(), DeCcpError>,
)
    requires
        call_ensures(
            ClearingBook::release_guarantee::<P>,
            (book, operation_id, hold_id, receipt, defmi, now),
            r,
        ),
        r is Err,
    ensures
        ({
            let error = r->Err_0;
            let hold = old(book)@.guarantee_holds[hold_id];
            let facility = old(book)@.guarantee_facilities[hold.facility_id];
            let known = old(book)@.guarantee_holds.contains_key(hold_id);
            let live = hold.status == GuaranteeHoldStatus::Reserved || hold.status
                == GuaranteeHoldStatus::Bound;
            let backed = old(book)@.guarantee_facilities.contains_key(hold.facility_id);
            &&& !(error is ReplayOrStaleOperation || error is DeFmiEvidenceRejected) ==> exists|
                reply: Result<(), String>,
            |
                reply is Ok && #[trigger] call_ensures(
                    P::verify_guarantee_release,
                    (defmi, &release_context(hold_id), &receipt, now),
                    reply,
                )
            &&& error is GuaranteeHoldUnavailable ==> known && !live
            &&& error is UnknownGuaranteeFacility ==> known && live
            &&& error is InvalidState ==> known && live && backed
            &&& error is ArithmeticOverflow ==> known && live && backed && hold.amount
                <= facility.reserved
        }),
{
    crate::laws::holds::law_release_effect(book, operation_id, hold_id, receipt, defmi, now, r);
}

/// A claim is checked for what it holds, by the settlement layer, for its hold,
/// and for its facility, in this order.
pub proof fn law_claim_refusals<P: DeFmiPort>(
    book: &mut ClearingBook,
    request: GuaranteeClaimRequest,
    defmi: &P,
    now: u64,
    r: Result<(), DeCcpError>,
)
    requires
        call_ensures(ClearingBook::consume_guarantee::<P>, (book, request, defmi, now), r),
        r is Err,
    ensures
        ({
            let error = r->Err_0;
            let hold = old(book)@.guarantee_holds[request.hold_id];
            let facility = old(book)@.guarantee_facilities[hold.facility_id];
            let known = old(book)@.guarantee_holds.contains_key(request.hold_id);
            let due = hold.status == GuaranteeHoldStatus::Bound && hold.bound_exposure_id == Some(
                request.exposure_id,
            ) && now <= hold.valid_until;
            let backed = old(book)@.guarantee_facilities.contains_key(hold.facility_id);
            &&& !(error is InvalidGuaranteeClaim || error is DeFmiEvidenceRejected) ==> exists|
                reply: Result<(), String>,
            |
                reply is Ok && #[trigger] call_ensures(
                    P::verify_settlement,
                    (
                        defmi,
                        &claim_context(
                            request.hold_id,
                            request.exposure_id,
                            request.default_event_digest,
                        ),
                        &request.receipt,
                        now,
                    ),
                    reply,
                )
            &&& error is GuaranteeHoldUnavailable ==> known && !due
            &&& error is UnknownGuaranteeFacility ==> known && due
            &&& error is InvalidState ==> known && due && backed
            &&& error is ArithmeticOverflow ==> known && due && backed && hold.amount
                <= facility.reserved
        }),
{
    crate::laws::holds::law_claim_effect(book, request, defmi, now, r);
}

/// A confidential facility is checked for what it holds, for its guarantor, by the
/// settlement layer, and for its approval, in this order.
pub proof fn law_confidential_registration_refusals<P: DeFmiPort>(
    book: &mut ClearingBook,
    operation_id: Identifier,
    facility: ConfidentialGuaranteeFacility,
    approval: &QuorumApproval,
    defmi: &P,
    now: u64,
    r: Result<(), DeCcpError>,
)
    requires
        call_ensures(
            ClearingBook::register_confidential_guarantee_facility::<P>,
            (book, operation_id, facility, approval, defmi, now),
            r,
        ),
        r is Err,
    ensures
        ({
            let error = r->Err_0;
            let fit = confidentially_registrable(old(book)@, operation_id, facility, now);
            &&& may_act(old(book)@, facility.guarantor_id, now) && !fit
                ==> error is InvalidGuaranteeFacility
            &&& of_approval(error) || error is DeFmiEvidenceRejected <==> fit
            &&& of_approval(error) ==> exists|reply: Result<(), String>|
                reply is Ok && #[trigger] call_ensures(
                    P::verify_confidential_guarantee_facility,
                    (defmi, &facility, now),
                    reply,
                )
        }),
{
    crate::laws::confidential::law_confidential_registration_effect(
        book,
        operation_id,
        facility,
        approval,
        defmi,
        now,
        r,
    );
    law_refusal_of_approval(
        old(book)@.authorities,
        crate::guarantees::confidential_facility_statement(operation_id, facility),
        approval@,
        Some(now),
    );
}

/// A confidential reservation is checked for what it holds, for its facility and
/// the facility's state, for the guarantor, and by the settlement layer, in this
/// order.
pub proof fn law_confidential_reservation_refusals<P: DeFmiPort>(
    book: &mut ClearingBook,
    request: ConfidentialGuaranteeReservation,
    defmi: &P,
    now: u64,
    r: Result<ConfidentialGuaranteeHold, DeCcpError>,
)
    requires
        call_ensures(
            ClearingBook::reserve_confidential_guarantee::<P>,
            (book, request, defmi, now),
            r,
        ),
        r is Err,
    ensures
        ({
            let error = r->Err_0;
            let facility = old(book)@.confidential_guarantee_facilities[request.facility_id];
            let open = confidential_reservation_open(old(book)@, request, now);
            let known = old(book)@.confidential_guarantee_facilities.contains_key(
                request.facility_id,
            );
            let current = facility.status == GuaranteeFacilityStatus::Active && request.valid_until
                <= facility.valid_until && facility.sequence == request.expected_facility_sequence
                && facility.latest_facility_state_digest == request.expected_facility_state_digest;
            let acting = may_act(old(book)@, facility.guarantor_id, now);
            &&& error is UnknownGuaranteeFacility <==> open && !known
            &&& error is StaleSequence <==> open && known && !current
            &&& error is UnknownParticipant || error is ParticipantNotActive <==> open && known
                && current && !acting
            &&& error is DeFmiEvidenceRejected || error is ArithmeticOverflow <==> open && known
                && current && acting
        }),
{
    crate::laws::confidential::law_confidential_reservation_effect(book, request, defmi, now, r);
}

/// A confidential release is checked for what it holds, for its hold, for its
/// facility and the facility's state, and by the settlement layer, in this order.
pub proof fn law_confidential_release_refusals<P: DeFmiPort>(
    book: &mut ClearingBook,
    request: ConfidentialGuaranteeReleaseRequest,
    defmi: &P,
    now: u64,
    r: Result<(), DeCcpError>,
)
    requires
        call_ensures(
            ClearingBook::release_confidential_guarantee::<P>,
            (book, request, defmi, now),
            r,
        ),
        r is Err,
    ensures
        ({
            let error = r->Err_0;
            let hold = old(book)@.confidential_guarantee_holds[request.hold_id];
            let facility = behind(old(book)@, request.hold_id);
            let open = confidential_release_open(old(book)@, request);
            let known = old(book)@.confidential_guarantee_holds.contains_key(request.hold_id);
            let live = hold.status == GuaranteeHoldStatus::Reserved || hold.status
                == GuaranteeHoldStatus::Bound;
            let backed = old(book)@.confidential_guarantee_facilities.contains_key(
                hold.facility_id,
            );
            let current = facility.sequence == request.expected_facility_sequence
                && facility.latest_facility_state_digest == request.expected_facility_state_digest;
            &&& error is UnknownGuaranteeHold <==> open && !known
            &&& error is GuaranteeHoldUnavailable <==> open && known && !live
            &&& error is UnknownGuaranteeFacility <==> open && known && live && !backed
            &&& error is StaleSequence <==> open && known && live && backed && !current
            &&& error is DeFmiEvidenceRejected || error is ArithmeticOverflow <==> open && known
                && live && backed && current
        }),
{
    crate::laws::confidential::law_confidential_release_effect(book, request, defmi, now, r);
}

/// A confidential claim is checked for what it holds, for its hold, for its
/// facility and the facility's state, and by the settlement layer, in this order.
pub proof fn law_confidential_claim_refusals<P: DeFmiPort>(
    book: &mut ClearingBook,
    request: ConfidentialGuaranteeClaimRequest,
    defmi: &P,
    now: u64,
    r: Result<(), DeCcpError>,
)
    requires
        call_ensures(
            ClearingBook::consume_confidential_guarantee::<P>,
            (book, request, defmi, now),
            r,
        ),
        r is Err,
    ensures
        ({
            let error = r->Err_0;
            let hold = old(book)@.confidential_guarantee_holds[request.hold_id];
            let facility = behind(old(book)@, request.hold_id);
            let open = confidential_claim_open(old(book)@, request);
            let known = old(book)@.confidential_guarantee_holds.contains_key(request.hold_id);
            let due = hold.status == GuaranteeHoldStatus::Bound && hold.bound_exposure_id == Some(
                request.exposure_id,
            ) && now <= hold.valid_until;
            let backed = old(book)@.confidential_guarantee_facilities.contains_key(
                hold.facility_id,
            );
            let current = facility.sequence == request.expected_facility_sequence
                && facility.latest_facility_state_digest == request.expected_facility_state_digest;
            &&& error is UnknownGuaranteeHold <==> open && !known
            &&& error is GuaranteeHoldUnavailable <==> open && known && !due
            &&& error is UnknownGuaranteeFacility <==> open && known && due && !backed
            &&& error is StaleSequence <==> open && known && due && backed && !current
            &&& error is DeFmiEvidenceRejected || error is ArithmeticOverflow <==> open && known
                && due && backed && current
        }),
{
    crate::laws::confidential::law_confidential_claim_effect(book, request, defmi, now, r);
}

} // verus!
