//! The law of reachable books: whatever sequence of operations a book goes
//! through, its structural invariants hold.

use vstd::prelude::*;

use crate::authority::{ApprovalView, AuthorityView};
use crate::book::BookState;
use crate::cycles::{ClearingObligation, OpenCycleRequest, ProposalView};
use crate::defaults::{DefaultEvidence, ResolutionView, WaterfallDraw};
use crate::error::DeCcpError;
use crate::guarantees::{
    ConfidentialGuaranteeClaimRequest, ConfidentialGuaranteeFacility,
    ConfidentialGuaranteeReleaseRequest, ConfidentialGuaranteeReservation, DefmiSettlementReceipt,
    GuaranteeClaimRequest, GuaranteeFacility, GuaranteeReservation,
};
use crate::ident::{Digest32, Identifier};
use crate::laws::validity::{
    law_admission_keeps_valid, law_binding_keeps_valid, law_claim_keeps_valid,
    law_close_keeps_valid, law_confidential_binding_keeps_valid,
    law_confidential_claim_keeps_valid, law_confidential_registration_keeps_valid,
    law_confidential_release_keeps_valid, law_confidential_reservation_keeps_valid,
    law_cycle_settlement_keeps_valid, law_declaration_keeps_valid,
    law_facility_registration_keeps_valid, law_margin_keeps_valid, law_new_book_is_valid,
    law_opening_cycle_keeps_valid, law_posting_keeps_valid, law_release_keeps_valid,
    law_reservation_keeps_valid, law_resolution_keeps_valid, law_submission_keeps_valid,
};
use crate::members::{
    CcpCapitalization, CollateralLot, MarginUpdate, ParticipantAdmission, ParticipantStatus,
    VerifiedAdmission,
};

verus! {

/// One operation on a book, with what the evidence services reply to it.
pub enum Step {
    Admit(
        ParticipantAdmission,
        ApprovalView,
        u64,
        Result<VerifiedAdmission, String>,
        Result<(), String>,
    ),
    Post(CollateralLot, u64, Result<(), String>),
    SetMargin(MarginUpdate, ApprovalView, u64),
    OpenCycle(OpenCycleRequest, ApprovalView, u64),
    Submit(ClearingObligation, u64, Result<(), String>),
    Close(ProposalView, ApprovalView, u64),
    SettleCycle(Identifier, Digest32, DefmiSettlementReceipt, Result<(), String>),
    Register(Identifier, GuaranteeFacility, ApprovalView, u64, Result<(), String>),
    Reserve(GuaranteeReservation, u64, Result<(), String>),
    Bind(Identifier, Identifier, Identifier, u64),
    Release(Identifier, Identifier, DefmiSettlementReceipt, Result<(), String>),
    Claim(GuaranteeClaimRequest, u64, Result<(), String>),
    RegisterConfidential(
        Identifier,
        ConfidentialGuaranteeFacility,
        ApprovalView,
        u64,
        Result<(), String>,
    ),
    ReserveConfidential(ConfidentialGuaranteeReservation, u64, Result<(), String>),
    BindConfidential(Identifier, Identifier, Identifier, u64),
    ReleaseConfidential(ConfidentialGuaranteeReleaseRequest, Result<(), String>),
    ClaimConfidential(ConfidentialGuaranteeClaimRequest, u64, Result<(), String>),
    DeclareDefault(Identifier, Identifier, DefaultEvidence, ApprovalView, u64),
    Resolve(ResolutionView, ApprovalView, DefmiSettlementReceipt, u64, Result<(), String>),
}

impl Step {
    /// Why the operation is refused before any evidence service is asked, for
    /// the operations that ask one.
    pub open spec fn refusal(self, before: BookState) -> Option<DeCcpError> {
        match self {
            Step::Admit(request, approval, now, ..) => before.admission_refusal(
                request,
                approval,
                now,
            ),
            Step::Post(lot, now, _) => before.posting_refusal(lot, now),
            Step::Submit(obligation, now, _) => before.submission_refusal(obligation, now),
            Step::SettleCycle(_, digest, receipt, _) => before.settlement_refusal(digest, receipt),
            Step::Register(operation, facility, _, now, _) => before.facility_refusal(
                operation,
                facility,
                now,
            ),
            Step::Reserve(request, now, _) => before.reservation_refusal(request, now),
            Step::Release(operation, hold, receipt, _) => before.release_refusal(
                operation,
                hold,
                receipt,
            ),
            Step::Claim(request, ..) => before.claim_refusal(request),
            Step::RegisterConfidential(operation, facility, _, now, _) =>
            before.confidential_facility_refusal(operation, facility, now),
            Step::ReserveConfidential(request, now, _) => before.confidential_reservation_refusal(
                request,
                now,
            ),
            Step::ReleaseConfidential(request, _) => before.confidential_release_refusal(request),
            Step::ClaimConfidential(request, now, _) => before.confidential_claim_refusal(
                request,
                now,
            ),
            Step::Resolve(resolution, approval, receipt, now, _) => before.resolution_refusal(
                resolution,
                approval,
                receipt,
                now,
            ),
            _ => None,
        }
    }

    /// Whether the operation, once it is not refused at once, leads from one
    /// state to another.
    pub open spec fn carries(self, before: BookState, after: BookState) -> bool {
        match self {
            Step::Admit(request, approval, now, eligibility, fund) => match eligibility {
                Err(_) => after == before,
                Ok(verified) => exists|r: Result<(), DeCcpError>| #[trigger]
                    before.admission_ends(request, now, verified, fund, (r, after)),
            },
            Step::Post(lot, now, reply) => after == before.collateral_posted(lot, reply, now).1,
            Step::SetMargin(request, approval, now) => after == before.margin_set(
                request,
                approval,
                now,
            ).1,
            Step::OpenCycle(request, approval, now) => after == before.cycle_opened(
                request,
                approval,
                now,
            ).1,
            Step::Submit(obligation, now, reply) => after == before.obligation_submitted(
                obligation,
                reply,
            ).1,
            Step::Close(proposal, approval, now) => after == before.close_committed(
                proposal,
                approval,
                now,
            ).1,
            Step::SettleCycle(cycle, digest, receipt, reply) => after == before.cycle_settled(
                cycle,
                digest,
                receipt,
                reply,
            ).1,
            Step::Register(operation, facility, approval, now, reply) => after
                == before.facility_registered(operation, facility, approval, reply, now).1,
            Step::Reserve(request, now, reply) => after == before.guarantee_reserved(
                request,
                reply,
            ).1,
            Step::Bind(operation, hold, exposure, now) => after == before.guarantee_bound(
                operation,
                hold,
                exposure,
                now,
            ).1,
            Step::Release(operation, hold, receipt, reply) => after == before.guarantee_released(
                operation,
                hold,
                receipt,
                reply,
            ).1,
            Step::Claim(request, now, reply) => after == before.guarantee_consumed(
                request,
                reply,
                now,
            ).1,
            Step::RegisterConfidential(operation, facility, approval, now, reply) => after
                == before.confidential_facility_registered(
                operation,
                facility,
                approval,
                reply,
                now,
            ).1,
            Step::ReserveConfidential(request, now, reply) => after
                == before.confidential_guarantee_reserved(request, reply).1,
            Step::BindConfidential(operation, hold, exposure, now) => after
                == before.confidential_guarantee_bound(operation, hold, exposure, now).1,
            Step::ReleaseConfidential(request, reply) => after
                == before.confidential_guarantee_released(request, reply).1,
            Step::ClaimConfidential(request, now, reply) => after
                == before.confidential_guarantee_consumed(request, reply).1,
            Step::DeclareDefault(operation, case, evidence, approval, now) => after
                == before.default_declared(operation, case, evidence, approval, now).1,
            Step::Resolve(resolution, approval, receipt, now, reply) => after
                == before.resolution_committed(resolution, receipt, reply).1,
        }
    }

    /// Whether the operation leads from one state to another, be it carried out
    /// or refused.
    pub open spec fn leads(self, before: BookState, after: BookState) -> bool {
        match self.refusal(before) {
            Some(_) => after == before,
            None => self.carries(before, after),
        }
    }
}

/// Every operation keeps the structural invariants, be it carried out or refused.
pub proof fn law_every_step_keeps_valid(before: BookState, step: Step, after: BookState)
    requires
        before.valid(),
        step.leads(before, after),
    ensures
        after.valid(),
{
    if step.refusal(before) is None {
        lemma_carried_step_keeps_valid(before, step, after);
    }
}

proof fn lemma_carried_step_keeps_valid(before: BookState, step: Step, after: BookState)
    requires
        before.valid(),
        step.refusal(before) is None,
        step.carries(before, after),
    ensures
        after.valid(),
{
    match step {
        Step::Admit(request, approval, now, eligibility, fund) => match eligibility {
            Err(_) => {},
            Ok(verified) => {
                let r = choose|r: Result<(), DeCcpError>| #[trigger]
                    before.admission_ends(request, now, verified, fund, (r, after));
                law_admission_keeps_valid(
                    before,
                    request,
                    approval,
                    now,
                    verified,
                    fund,
                    (r, after),
                );
            },
        },
        Step::Post(lot, now, reply) => law_posting_keeps_valid(before, lot, reply, now),
        Step::SetMargin(request, approval, now) => law_margin_keeps_valid(
            before,
            request,
            approval,
            now,
        ),
        Step::OpenCycle(request, approval, now) => law_opening_cycle_keeps_valid(
            before,
            request,
            approval,
            now,
        ),
        Step::Submit(obligation, now, reply) => law_submission_keeps_valid(
            before,
            obligation,
            reply,
            now,
        ),
        Step::Close(proposal, approval, now) => law_close_keeps_valid(
            before,
            proposal,
            approval,
            now,
        ),
        Step::SettleCycle(cycle, digest, receipt, reply) => law_cycle_settlement_keeps_valid(
            before,
            cycle,
            digest,
            receipt,
            reply,
        ),
        Step::Register(operation, facility, approval, now, reply) =>
        law_facility_registration_keeps_valid(before, operation, facility, approval, reply, now),
        Step::Reserve(request, now, reply) => law_reservation_keeps_valid(
            before,
            request,
            reply,
            now,
        ),
        Step::Bind(operation, hold, exposure, now) => law_binding_keeps_valid(
            before,
            operation,
            hold,
            exposure,
            now,
        ),
        Step::Release(operation, hold, receipt, reply) => law_release_keeps_valid(
            before,
            operation,
            hold,
            receipt,
            reply,
        ),
        Step::Claim(request, now, reply) => law_claim_keeps_valid(before, request, reply, now),
        Step::RegisterConfidential(operation, facility, approval, now, reply) =>
        law_confidential_registration_keeps_valid(
            before,
            operation,
            facility,
            approval,
            reply,
            now,
        ),
        Step::ReserveConfidential(request, now, reply) => law_confidential_reservation_keeps_valid(
            before,
            request,
            reply,
            now,
        ),
        Step::BindConfidential(operation, hold, exposure, now) =>
        law_confidential_binding_keeps_valid(before, operation, hold, exposure, now),
        Step::ReleaseConfidential(request, reply) => law_confidential_release_keeps_valid(
            before,
            request,
            reply,
        ),
        Step::ClaimConfidential(request, now, reply) => law_confidential_claim_keeps_valid(
            before,
            request,
            reply,
            now,
        ),
        Step::DeclareDefault(operation, case, evidence, approval, now) =>
        law_declaration_keeps_valid(before, operation, case, evidence, approval, now),
        Step::Resolve(resolution, approval, receipt, now, reply) => law_resolution_keeps_valid(
            before,
            resolution,
            approval,
            receipt,
            reply,
            now,
        ),
    }
}

/// Whether a member's record keeps its eligibility from one state to another, and
/// its status once that is no longer active.
pub open spec fn member_kept(before: BookState, after: BookState, member: Identifier) -> bool {
    &&& after.participants.contains_key(member)
    &&& after.participants[member].eligibility == before.participants[member].eligibility
    &&& before.participants[member].status != ParticipantStatus::Active
        ==> after.participants[member].status == before.participants[member].status
}

/// Whether a step adds to the history of a book and takes nothing from it: the
/// authorities stay, used operations stay used, and members stay members.
pub open spec fn history_kept(before: BookState, after: BookState) -> bool {
    &&& after.authorities == before.authorities
    &&& before.used_operations.subset_of(after.used_operations)
    &&& forall|p: Identifier| #[trigger]
        before.participants.contains_key(p) ==> member_kept(before, after, p)
}

/// Whether a step leaves the capital and every member's fund alone.
pub open spec fn funds_kept(before: BookState, after: BookState) -> bool {
    &&& after.ccp_capital_remaining == before.ccp_capital_remaining
    &&& forall|p: Identifier| #[trigger]
        before.participants.contains_key(p) ==> after.participants.contains_key(p)
            && after.participants[p].default_fund_remaining
            == before.participants[p].default_fund_remaining
}

/// Whether a step leaves every member's margin account alone.
pub open spec fn margins_kept(before: BookState, after: BookState) -> bool {
    forall|p: Identifier| #[trigger]
        before.participants.contains_key(p) ==> after.margins[p] == before.margins[p]
}

proof fn lemma_membership_step(before: BookState, step: Step, after: BookState)
    requires
        step.leads(before, after),
        step is Admit || step is Post || step is SetMargin || step is DeclareDefault,
    ensures
        history_kept(before, after),
        funds_kept(before, after),
        !(step is SetMargin) ==> margins_kept(before, after),
{
}

proof fn lemma_cycle_step(before: BookState, step: Step, after: BookState)
    requires
        step.leads(before, after),
        step is OpenCycle || step is Submit || step is Close || step is SettleCycle,
    ensures
        history_kept(before, after),
        funds_kept(before, after),
        margins_kept(before, after),
{
}

proof fn lemma_guarantee_step(before: BookState, step: Step, after: BookState)
    requires
        step.leads(before, after),
        step is Register || step is Reserve || step is Bind || step is Release || step is Claim,
    ensures
        history_kept(before, after),
        funds_kept(before, after),
        margins_kept(before, after),
{
}

proof fn lemma_confidential_step(before: BookState, step: Step, after: BookState)
    requires
        step.leads(before, after),
        step is RegisterConfidential || step is ReserveConfidential || step is BindConfidential
            || step is ReleaseConfidential || step is ClaimConfidential,
    ensures
        history_kept(before, after),
        funds_kept(before, after),
        margins_kept(before, after),
{
}

proof fn lemma_draws_keep_history(book: BookState, draws: Seq<WaterfallDraw>)
    ensures
        history_kept(book, book.draws_applied(draws).1),
    decreases draws.len(),
{
    if draws.len() > 0 {
        let middle = book.draws_applied(draws.drop_last()).1;
        lemma_draws_keep_history(book, draws.drop_last());
        assert(history_kept(middle, book.draws_applied(draws).1));
        assert forall|p: Identifier| #[trigger] book.participants.contains_key(p) implies
            member_kept(book, book.draws_applied(draws).1, p) by {
            assert(member_kept(book, middle, p));
            assert(middle.participants.contains_key(p));
        }
    }
}

/// Operations only add: the authorities stay the same, a used operation stays
/// used, a member stays a member, and a member that is no longer active never
/// becomes active again.
pub proof fn law_history_is_kept(before: BookState, step: Step, after: BookState)
    requires
        step.leads(before, after),
    ensures
        history_kept(before, after),
{
    match step {
        Step::Admit(..) | Step::Post(..) | Step::SetMargin(..) | Step::DeclareDefault(..) => {
            lemma_membership_step(before, step, after);
        },
        Step::OpenCycle(..) | Step::Submit(..) | Step::Close(..) | Step::SettleCycle(..) => {
            lemma_cycle_step(before, step, after);
        },
        Step::Register(..) | Step::Reserve(..) | Step::Bind(..) | Step::Release(..)
        | Step::Claim(..) => {
            lemma_guarantee_step(before, step, after);
        },
        Step::RegisterConfidential(..) | Step::ReserveConfidential(..)
        | Step::BindConfidential(..) | Step::ReleaseConfidential(..)
        | Step::ClaimConfidential(..) => {
            lemma_confidential_step(before, step, after);
        },
        Step::Resolve(resolution, ..) => {
            lemma_draws_keep_history(before, resolution.draws);
        },
    }
}

/// Waterfall balances move only by a resolution. Every other operation keeps the
/// capital and each member's fund, and all but a margin update keep each margin
/// account.
pub proof fn law_balances_move_only_by_resolution(
    before: BookState,
    step: Step,
    after: BookState,
)
    requires
        step.leads(before, after),
        !(step is Resolve),
    ensures
        funds_kept(before, after),
        !(step is SetMargin) ==> margins_kept(before, after),
{
    match step {
        Step::Admit(..) | Step::Post(..) | Step::SetMargin(..) | Step::DeclareDefault(..) => {
            lemma_membership_step(before, step, after);
        },
        Step::OpenCycle(..) | Step::Submit(..) | Step::Close(..) | Step::SettleCycle(..) => {
            lemma_cycle_step(before, step, after);
        },
        Step::Register(..) | Step::Reserve(..) | Step::Bind(..) | Step::Release(..)
        | Step::Claim(..) => {
            lemma_guarantee_step(before, step, after);
        },
        Step::RegisterConfidential(..) | Step::ReserveConfidential(..)
        | Step::BindConfidential(..) | Step::ReleaseConfidential(..)
        | Step::ClaimConfidential(..) => {
            lemma_confidential_step(before, step, after);
        },
        Step::Resolve(..) => {},
    }
}

/// Every reachable book is valid: along any run of operations from a newly
/// opened book, carried out or refused, each state satisfies the structural
/// invariants, so that validating it finds no defect.
pub proof fn law_reachable_books_are_valid(
    authorities: AuthorityView,
    capital: CcpCapitalization,
    now: u64,
    states: Seq<BookState>,
    steps: Seq<Step>,
    i: int,
)
    requires
        BookState::opening_refusal(authorities, capital, now) is None,
        states.len() == steps.len() + 1,
        states[0] == BookState::opening(authorities, capital),
        forall|k: int|
            0 <= k < steps.len() ==> (#[trigger] steps[k]).leads(states[k], states[k + 1]),
        0 <= i < states.len(),
    ensures
        states[i].valid(),
        states[i].defect() is None,
    decreases i,
{
    if i == 0 {
        law_new_book_is_valid(authorities, capital, now);
    } else {
        law_reachable_books_are_valid(authorities, capital, now, states, steps, i - 1);
        assert(steps[i - 1].leads(states[i - 1], states[i - 1 + 1]));
        law_every_step_keeps_valid(states[i - 1], steps[i - 1], states[i]);
    }
    states[i].lemma_valid_without_defect();
}

} // verus!
