//! Laws of operations: a refused request changes nothing, an operation is used
//! once, and material changes need a quorum.

use vstd::prelude::*;

use crate::authority::{replies_fit, ApprovalView, AuthorityView, MemberView, SignerReply};
use crate::book::{BookState, Outcome};
use crate::cycles::{ClearingObligation, OpenCycleRequest, ProposalView};
use crate::defaults::{default_statement, DefaultEvidence, ResolutionView};
use crate::error::DeCcpError;
use crate::guarantees::{
    confidential_facility_statement, facility_statement, ConfidentialGuaranteeClaimRequest,
    ConfidentialGuaranteeFacility, ConfidentialGuaranteeReleaseRequest,
    ConfidentialGuaranteeReservation, DefmiSettlementReceipt, GuaranteeClaimRequest,
    GuaranteeFacility, GuaranteeReservation,
};
use crate::ident::{Digest32, Identifier};
use crate::members::{CollateralLot, MarginUpdate, ParticipantAdmission, VerifiedAdmission};

verus! {

/// Whether a request was either refused without any effect, or carried out under
/// an operation that was not used before and is used from then on.
pub open spec fn refused_or_used_once(
    before: BookState,
    done: bool,
    after: BookState,
    operation: Identifier,
) -> bool {
    if done {
        &&& !before.used_operations.contains(operation)
        &&& after.used_operations == before.used_operations.insert(operation)
    } else {
        after == before
    }
}

/// Whether a quorum of the authorities approved a statement.
pub open spec fn approved(
    book: BookState,
    statement: Digest32,
    approval: ApprovalView,
    now: u64,
) -> bool {
    book.authorities.refusal(statement, approval, Some(now)) is None
}

/// An admission is refused without effect, or uses its operation once with the
/// approval of a quorum, a finding that repeats the attestation, and a subject
/// line and a lock that nothing else in the book uses.
pub proof fn law_admission(
    book: BookState,
    request: ParticipantAdmission,
    approval: ApprovalView,
    now: u64,
    verified: VerifiedAdmission,
    fund: Result<(), String>,
    outcome: Outcome,
)
    requires
        book.admission_refusal(request, approval, now) is None,
        book.admission_ends(request, now, verified, fund, outcome),
    ensures
        refused_or_used_once(book, outcome.0 is Ok, outcome.1, request.operation_id),
        outcome.0 is Ok ==> {
            &&& approved(book, request.statement(), approval, now)
            &&& fund is Ok
            &&& verified.repeats(request.eligibility)
            &&& !book.subject_line_taken(request.eligibility.subject_line_id)
            &&& !book.lock_taken(request.default_fund_defmi_lock_id)
            &&& !book.participants.contains_key(request.participant_id)
        },
{
}

/// A lot is refused without effect, or posted once on evidence, with a lock that
/// nothing else in the book uses.
pub proof fn law_posting(
    book: BookState,
    lot: CollateralLot,
    reply: Result<(), String>,
    now: u64,
)
    ensures
        ({
            let outcome = book.collateral_posted(lot, reply, now);
            &&& refused_or_used_once(book, outcome.0 is Ok, outcome.1, lot.operation_id)
            &&& outcome.0 is Ok ==> reply is Ok && !book.lock_taken(lot.defmi_lock_id)
        }),
{
}

/// A margin update is refused without effect, or carried out once with the
/// approval of a quorum.
pub proof fn law_margin_update(
    book: BookState,
    request: MarginUpdate,
    approval: ApprovalView,
    now: u64,
)
    ensures
        ({
            let outcome = book.margin_set(request, approval, now);
            &&& refused_or_used_once(book, outcome.0 is Ok, outcome.1, request.operation_id)
            &&& outcome.0 is Ok ==> approved(book, request.statement(), approval, now)
        }),
{
}

/// A cycle is refused without effect, or opened once with the approval of a
/// quorum.
pub proof fn law_cycle_opening(
    book: BookState,
    request: OpenCycleRequest,
    approval: ApprovalView,
    now: u64,
)
    ensures
        ({
            let outcome = book.cycle_opened(request, approval, now);
            &&& refused_or_used_once(book, outcome.0 is Ok, outcome.1, request.operation_id)
            &&& outcome.0 is Ok ==> approved(book, request.statement(), approval, now)
        }),
{
}

/// An obligation is refused without effect, or submitted once on a verified
/// instruction.
pub proof fn law_submission(
    book: BookState,
    obligation: ClearingObligation,
    reply: Result<(), String>,
)
    ensures
        ({
            let outcome = book.obligation_submitted(obligation, reply);
            &&& refused_or_used_once(book, outcome.0 is Ok, outcome.1, obligation.operation_id)
            &&& outcome.0 is Ok ==> reply is Ok
        }),
{
}

/// A close is refused without effect, or carried out with the approval of a
/// quorum for the very proposal that the book prepares.
pub proof fn law_close(
    book: BookState,
    proposal: ProposalView,
    approval: ApprovalView,
    now: u64,
)
    ensures
        ({
            let outcome = book.close_committed(proposal, approval, now);
            &&& outcome.0 is Err ==> outcome.1 == book
            &&& outcome.0 is Ok ==> approved(book, proposal.proposal_digest, approval, now)
            &&& outcome.0 is Ok ==> book.closing(proposal.cycle_id) == Ok::<
                ProposalView,
                DeCcpError,
            >(proposal)
        }),
{
}

/// A settlement is refused without effect, or recorded on evidence for a receipt
/// that names the digest of the closed proposal.
pub proof fn law_cycle_settlement(
    book: BookState,
    cycle_id: Identifier,
    proposal_digest: Digest32,
    receipt: DefmiSettlementReceipt,
    reply: Result<(), String>,
)
    requires
        book.settlement_refusal(proposal_digest, receipt) is None,
    ensures
        ({
            let outcome = book.cycle_settled(cycle_id, proposal_digest, receipt, reply);
            &&& outcome.0 is Err ==> outcome.1 == book
            &&& outcome.0 is Ok ==> {
                &&& reply is Ok
                &&& book.cycles[cycle_id].closed_proposal is Some
                &&& receipt.context_digest
                    == book.cycles[cycle_id].closed_proposal->0.proposal_digest
            }
        }),
{
}

/// A facility is refused without effect, or registered once on evidence with the
/// approval of a quorum by an active guarantor.
pub proof fn law_facility_registration(
    book: BookState,
    operation_id: Identifier,
    facility: GuaranteeFacility,
    approval: ApprovalView,
    reply: Result<(), String>,
    now: u64,
)
    requires
        book.facility_refusal(operation_id, facility, now) is None,
    ensures
        ({
            let outcome = book.facility_registered(operation_id, facility, approval, reply, now);
            &&& refused_or_used_once(book, outcome.0 is Ok, outcome.1, operation_id)
            &&& outcome.0 is Ok ==> {
                &&& reply is Ok
                &&& approved(book, facility_statement(operation_id, facility), approval, now)
                &&& book.inactivity(facility.guarantor_id, now) is None
            }
        }),
{
}

/// A reservation is refused without effect, or made once on evidence.
pub proof fn law_reservation(
    book: BookState,
    request: GuaranteeReservation,
    reply: Result<(), String>,
    now: u64,
)
    requires
        book.reservation_refusal(request, now) is None,
    ensures
        ({
            let outcome = book.guarantee_reserved(request, reply);
            &&& refused_or_used_once(book, outcome.0 is Ok, outcome.1, request.operation_id)
            &&& outcome.0 is Ok ==> reply is Ok
        }),
{
}

/// A binding is refused without effect, or made once.
pub proof fn law_binding(
    book: BookState,
    operation_id: Identifier,
    hold_id: Identifier,
    exposure_id: Identifier,
    now: u64,
)
    ensures
        ({
            let outcome = book.guarantee_bound(operation_id, hold_id, exposure_id, now);
            &&& refused_or_used_once(book, outcome.0 is Ok, outcome.1, operation_id)
        }),
{
}

/// A release is refused without effect, or carried out once on evidence.
pub proof fn law_release(
    book: BookState,
    operation_id: Identifier,
    hold_id: Identifier,
    receipt: DefmiSettlementReceipt,
    reply: Result<(), String>,
)
    requires
        book.release_refusal(operation_id, hold_id, receipt) is None,
    ensures
        ({
            let outcome = book.guarantee_released(operation_id, hold_id, receipt, reply);
            &&& refused_or_used_once(book, outcome.0 is Ok, outcome.1, operation_id)
            &&& outcome.0 is Ok ==> reply is Ok
        }),
{
}

/// A claim is refused without effect, or paid once on evidence.
pub proof fn law_claim(
    book: BookState,
    request: GuaranteeClaimRequest,
    reply: Result<(), String>,
    now: u64,
)
    requires
        book.claim_refusal(request) is None,
    ensures
        ({
            let outcome = book.guarantee_consumed(request, reply, now);
            &&& refused_or_used_once(book, outcome.0 is Ok, outcome.1, request.operation_id)
            &&& outcome.0 is Ok ==> reply is Ok
        }),
{
}

/// A confidential facility is refused without effect, or registered once on
/// evidence with the approval of a quorum by an active guarantor.
pub proof fn law_confidential_registration(
    book: BookState,
    operation_id: Identifier,
    facility: ConfidentialGuaranteeFacility,
    approval: ApprovalView,
    reply: Result<(), String>,
    now: u64,
)
    requires
        book.confidential_facility_refusal(operation_id, facility, now) is None,
    ensures
        ({
            let outcome = book.confidential_facility_registered(
                operation_id,
                facility,
                approval,
                reply,
                now,
            );
            &&& refused_or_used_once(book, outcome.0 is Ok, outcome.1, operation_id)
            &&& outcome.0 is Ok ==> {
                &&& reply is Ok
                &&& approved(
                    book,
                    confidential_facility_statement(operation_id, facility),
                    approval,
                    now,
                )
                &&& book.inactivity(facility.guarantor_id, now) is None
            }
        }),
{
}

/// A confidential reservation is refused without effect, or made once on
/// evidence.
pub proof fn law_confidential_reservation(
    book: BookState,
    request: ConfidentialGuaranteeReservation,
    reply: Result<(), String>,
    now: u64,
)
    requires
        book.confidential_reservation_refusal(request, now) is None,
    ensures
        ({
            let outcome = book.confidential_guarantee_reserved(request, reply);
            &&& refused_or_used_once(book, outcome.0 is Ok, outcome.1, request.operation_id)
            &&& outcome.0 is Ok ==> reply is Ok
        }),
{
}

/// A confidential binding is refused without effect, or made once.
pub proof fn law_confidential_binding(
    book: BookState,
    operation_id: Identifier,
    hold_id: Identifier,
    exposure_id: Identifier,
    now: u64,
)
    ensures
        ({
            let outcome = book.confidential_guarantee_bound(operation_id, hold_id, exposure_id, now);
            &&& refused_or_used_once(book, outcome.0 is Ok, outcome.1, operation_id)
        }),
{
}

/// A confidential release is refused without effect, or carried out once on
/// evidence.
pub proof fn law_confidential_release(
    book: BookState,
    request: ConfidentialGuaranteeReleaseRequest,
    reply: Result<(), String>,
)
    requires
        book.confidential_release_refusal(request) is None,
    ensures
        ({
            let outcome = book.confidential_guarantee_released(request, reply);
            &&& refused_or_used_once(book, outcome.0 is Ok, outcome.1, request.operation_id)
            &&& outcome.0 is Ok ==> reply is Ok
        }),
{
}

/// A confidential claim is refused without effect, or paid once on evidence.
pub proof fn law_confidential_claim(
    book: BookState,
    request: ConfidentialGuaranteeClaimRequest,
    reply: Result<(), String>,
    now: u64,
)
    requires
        book.confidential_claim_refusal(request, now) is None,
    ensures
        ({
            let outcome = book.confidential_guarantee_consumed(request, reply);
            &&& refused_or_used_once(book, outcome.0 is Ok, outcome.1, request.operation_id)
            &&& outcome.0 is Ok ==> reply is Ok
        }),
{
}

/// A default declaration is refused without effect, or made once with the
/// approval of a quorum; the member can no longer act from then on.
pub proof fn law_declaration(
    book: BookState,
    operation_id: Identifier,
    case_id: Identifier,
    evidence: DefaultEvidence,
    approval: ApprovalView,
    now: u64,
)
    ensures
        ({
            let outcome = book.default_declared(operation_id, case_id, evidence, approval, now);
            &&& refused_or_used_once(book, outcome.0 is Ok, outcome.1, operation_id)
            &&& outcome.0 is Ok ==> {
                &&& approved(
                    book,
                    default_statement(operation_id, case_id, evidence, now),
                    approval,
                    now,
                )
                &&& forall|later: u64|
                    (#[trigger] outcome.1.inactivity(evidence.participant_id, later)) is Some
            }
        }),
{
}

/// A resolution of a valid book is refused without effect, or committed with the
/// approval of a quorum and evidence for a receipt that names its exact
/// settlement context.
pub proof fn law_resolution(
    book: BookState,
    resolution: ResolutionView,
    approval: ApprovalView,
    receipt: DefmiSettlementReceipt,
    reply: Result<(), String>,
    now: u64,
)
    requires
        book.valid(),
        book.resolution_refusal(resolution, approval, receipt, now) is None,
    ensures
        ({
            let outcome = book.resolution_committed(resolution, receipt, reply);
            &&& outcome.0 is Err ==> outcome.1 == book
            &&& outcome.0 is Ok ==> {
                &&& reply is Ok
                &&& approved(book, resolution.resolution_digest, approval, now)
                &&& receipt.context_digest == resolution.settlement_context_digest
                &&& book.resolution(resolution.case_id, resolution.shortfall) == Ok::<
                    ResolutionView,
                    DeCcpError,
                >(resolution)
            }
        }),
{
    super::defaults::law_resolution_is_payable(
        book,
        resolution.case_id,
        resolution.shortfall,
    );
}

/// A used operation is refused by every request, so nothing can be replayed.
pub proof fn law_used_operation_is_refused(
    book: BookState,
    operation: Identifier,
    approval: ApprovalView,
    now: u64,
)
    requires
        book.used_operations.contains(operation),
    ensures
        forall|request: ParticipantAdmission|
            request.operation_id == operation ==> (#[trigger] book.admission_refusal(
                request,
                approval,
                now,
            )) is Some,
        forall|lot: CollateralLot, reply: Result<(), String>|
            lot.operation_id == operation ==> (#[trigger] book.collateral_posted(
                lot,
                reply,
                now,
            )).0 is Err,
        forall|request: MarginUpdate|
            request.operation_id == operation ==> (#[trigger] book.margin_set(
                request,
                approval,
                now,
            )).0 is Err,
        forall|request: OpenCycleRequest|
            request.operation_id == operation ==> (#[trigger] book.cycle_opened(
                request,
                approval,
                now,
            )).0 is Err,
        forall|obligation: ClearingObligation, reply: Result<(), String>|
            obligation.operation_id == operation ==> (#[trigger] book.obligation_submitted(
                obligation,
                reply,
            )).0 is Err,
        forall|facility: GuaranteeFacility|
            (#[trigger] book.facility_refusal(operation, facility, now)) is Some,
        forall|request: GuaranteeReservation|
            request.operation_id == operation ==> (#[trigger] book.reservation_refusal(
                request,
                now,
            )) is Some,
        forall|hold: Identifier, exposure: Identifier|
            (#[trigger] book.guarantee_bound(operation, hold, exposure, now)).0 is Err,
        forall|hold: Identifier, receipt: DefmiSettlementReceipt|
            (#[trigger] book.release_refusal(operation, hold, receipt)) is Some,
        forall|request: GuaranteeClaimRequest|
            request.operation_id == operation ==> (#[trigger] book.claim_refusal(
                request,
            )) is Some,
        forall|facility: ConfidentialGuaranteeFacility|
            (#[trigger] book.confidential_facility_refusal(operation, facility, now)) is Some,
        forall|request: ConfidentialGuaranteeReservation|
            request.operation_id == operation ==> (
            #[trigger] book.confidential_reservation_refusal(request, now)) is Some,
        forall|hold: Identifier, exposure: Identifier|
            (#[trigger] book.confidential_guarantee_bound(
                operation,
                hold,
                exposure,
                now,
            )).0 is Err,
        forall|request: ConfidentialGuaranteeReleaseRequest|
            request.operation_id == operation ==> (
            #[trigger] book.confidential_release_refusal(request)) is Some,
        forall|request: ConfidentialGuaranteeClaimRequest|
            request.operation_id == operation ==> (#[trigger] book.confidential_claim_refusal(
                request,
                now,
            )) is Some,
        forall|case: Identifier, evidence: DefaultEvidence|
            (#[trigger] book.default_declared(
                operation,
                case,
                evidence,
                approval,
                now,
            )).0 is Err,
{
}

/// A member that is not active, or whose eligibility has expired, can neither
/// post collateral, be given margin, submit or receive obligations, register
/// facilities, reserve guarantees, nor be declared in default again.
pub proof fn law_inactive_member_is_refused(
    book: BookState,
    member: Identifier,
    approval: ApprovalView,
    now: u64,
)
    requires
        book.inactivity(member, now) is Some,
    ensures
        forall|lot: CollateralLot|
            lot.owner_id == member ==> (#[trigger] book.posting_refusal(lot, now)) is Some,
        forall|request: MarginUpdate|
            request.participant_id == member ==> (#[trigger] book.margin_set(
                request,
                approval,
                now,
            )).0 is Err,
        forall|obligation: ClearingObligation|
            obligation.payer_id == member || obligation.payee_id == member ==> (
            #[trigger] book.submission_refusal(obligation, now)) is Some,
        forall|operation: Identifier, facility: GuaranteeFacility|
            facility.guarantor_id == member ==> (#[trigger] book.facility_refusal(
                operation,
                facility,
                now,
            )) is Some,
        forall|request: GuaranteeReservation|
            book.guarantee_facilities[request.facility_id].guarantor_id == member ==> (
            #[trigger] book.reservation_refusal(request, now)) is Some,
        forall|operation: Identifier, facility: ConfidentialGuaranteeFacility|
            facility.guarantor_id == member ==> (#[trigger] book.confidential_facility_refusal(
                operation,
                facility,
                now,
            )) is Some,
        forall|request: ConfidentialGuaranteeReservation|
            book.confidential_guarantee_facilities[request.facility_id].guarantor_id == member
                ==> (#[trigger] book.confidential_reservation_refusal(request, now)) is Some,
        forall|operation: Identifier, case: Identifier, evidence: DefaultEvidence|
            evidence.participant_id == member ==> (#[trigger] book.default_declared(
                operation,
                case,
                evidence,
                approval,
                now,
            )).0 is Err,
{
}

/// An accepted approval is a quorum: it is for this set and this statement, at
/// least as many members as the threshold signed it, no member signed twice, and
/// every signature was accepted for the message that its member signs.
pub proof fn law_accepted_approval_is_a_quorum(
    authorities: AuthorityView,
    statement: Digest32,
    approval: ApprovalView,
    now: Option<u64>,
)
    requires
        authorities.refusal(statement, approval, now) is None,
    ensures
        approval.authority_digest == authorities.digest(),
        approval.statement_digest == statement,
        authorities.threshold <= approval.signatures.len() <= authorities.members.len(),
        forall|i: int, j: int|
            0 <= i < j < approval.signatures.len() ==> (#[trigger] approval.signatures[i]).member_id
                != (#[trigger] approval.signatures[j]).member_id,
        forall|i: int|
            0 <= i < approval.signatures.len() ==> authorities.accepts(
                statement,
                #[trigger] approval.signatures[i],
                now,
            ),
{
}

/// An approval that is accepted at an execution time is accepted for restoring
/// an archived snapshot, too.
pub proof fn law_timed_approval_is_archivable(
    authorities: AuthorityView,
    statement: Digest32,
    approval: ApprovalView,
    now: u64,
)
    requires
        authorities.refusal(statement, approval, Some(now)) is None,
    ensures
        authorities.refusal(statement, approval, None) is None,
{
    assert forall|i: int| 0 <= i < approval.signatures.len() implies authorities.accepts(
        statement,
        #[trigger] approval.signatures[i],
        None,
    ) by {
        assert(authorities.accepts(statement, approval.signatures[i], Some(now)));
        let signed = approval.signatures[i];
        let m = choose|m: int|
            {
                &&& 0 <= m < authorities.members.len()
                &&& (#[trigger] authorities.members[m]).member_id == signed.member_id
                &&& authorities.members[m].key.key_id == signed.key_id
                &&& authorities.members[m].key.key_version == signed.key_version
                &&& signed.key_valid_at == Some(now)
                &&& signed.verified_for == Some(
                    crate::authority::SubjectView {
                        purpose: crate::authority::KeyPurpose::Governance,
                        public_key: authorities.members[m].key.public_key,
                        message: authorities.signing_message(statement, signed.member_id),
                    },
                )
            };
        assert(authorities.members[m].member_id == signed.member_id);
    }
}

/// At most as many replies fit an authority set as it has members.
proof fn lemma_replies_fit_in(authorities: AuthorityView, replies: Seq<SignerReply>)
    requires
        replies_fit(replies, authorities),
    ensures
        replies.len() <= authorities.members.len(),
{
    let signers = replies.map_values(|r: SignerReply| r.member_id);
    let members = authorities.members.map_values(|m: MemberView| m.member_id);
    assert(signers.no_duplicates()) by {
        assert forall|i: int, j: int|
            0 <= i < signers.len() && 0 <= j < signers.len() && i != j implies signers[i]
            != signers[j] by {
            if i < j {
                assert(replies[i].member_id != replies[j].member_id);
            } else {
                assert(replies[j].member_id != replies[i].member_id);
            }
        }
    }
    assert(signers.to_set().subset_of(members.to_set())) by {
        assert forall|id: Identifier| signers.to_set().contains(id) implies members.to_set().contains(
            id,
        ) by {
            let i = choose|i: int| 0 <= i < signers.len() && signers[i] == id;
            assert(replies[i].fits(authorities));
            let m = choose|m: int|
                0 <= m < authorities.members.len() && (#[trigger] authorities.members[m]).member_id
                    == replies[i].member_id && authorities.members[m].key.public_key
                    == replies[i].public_key@;
            assert(members[m] == id);
        }
    }
    signers.unique_seq_to_set();
    members.lemma_cardinality_of_set();
    vstd::set_lib::lemma_len_subset(signers.to_set(), members.to_set());
}

/// Signed approvals verify: once the key service confirms every signature of an
/// approval that was assembled for a statement, at a time at which the keys are
/// in force, it is accepted for that statement if at least as many members signed
/// as the threshold asks for, and lacks a quorum otherwise; and it is no approval
/// of any other statement.
pub proof fn law_signed_approval_verifies(
    authorities: AuthorityView,
    statement: Digest32,
    replies: Seq<SignerReply>,
    signed: ApprovalView,
    confirmed: ApprovalView,
    now: u64,
)
    requires
        authorities.valid(),
        replies_fit(replies, authorities),
        signed.assembles(authorities, statement, replies),
        confirmed.confirms(signed, authorities, statement, replies, now),
    ensures
        authorities.refusal(statement, confirmed, Some(now)) == (if replies.len()
            >= authorities.threshold {
            None
        } else {
            Some(DeCcpError::InsufficientQuorum)
        }),
        forall|other: Digest32|
            other != statement ==> (#[trigger] authorities.refusal(other, confirmed, Some(now)))
                == Some(DeCcpError::InvalidQuorumApproval),
{
    lemma_replies_fit_in(authorities, replies);
    let signatures = confirmed.signatures;
    assert forall|i: int| 0 <= i < signatures.len() implies authorities.accepts(
        statement,
        #[trigger] signatures[i],
        Some(now),
    ) by {
        assert(replies[i].recorded_as(signed.signatures[i], authorities));
        assert(replies[i].fits(authorities));
        let m = choose|m: int|
            0 <= m < authorities.members.len() && (#[trigger] authorities.members[m]).member_id
                == replies[i].member_id && authorities.members[m].key.public_key
                == replies[i].public_key@;
        let k = choose|k: int|
            0 <= k < authorities.members.len() && (#[trigger] authorities.members[k]).member_id
                == replies[i].member_id && authorities.members[k].key.key_id
                == signed.signatures[i].key_id && authorities.members[k].key.key_version
                == signed.signatures[i].key_version;
        if m < k {
            assert(authorities.members[m].distinct_from(authorities.members[k]));
        }
        if k < m {
            assert(authorities.members[k].distinct_from(authorities.members[m]));
        }
        assert(authorities.members[m].member_id == signatures[i].member_id);
    }
    assert forall|i: int, j: int| 0 <= i < j < signatures.len() implies (
    #[trigger] signatures[i]).member_id != (#[trigger] signatures[j]).member_id by {
        assert(replies[i].recorded_as(signed.signatures[i], authorities));
        assert(replies[j].recorded_as(signed.signatures[j], authorities));
        assert(replies[i].member_id != replies[j].member_id);
    }
}

} // verus!
