//! Laws of clearing: what opens, fills, closes, and settles a cycle, and the
//! margin that the risk of its obligations calls on.

use vstd::prelude::*;

use crate::authority::QuorumApproval;
use crate::book::{BookState, ClearingBook};
use crate::cycles::{
    ClearingObligation, CycleStatus, CycleView, NettingMode, NettingProposal, OpenCycleRequest,
};
use crate::error::DeCcpError;
use crate::guarantees::DefmiSettlementReceipt;
use crate::ident::{ascending, has_zero, Digest32, Identifier, ZERO};
use crate::laws::authority::{law_refusal_of_approval, sealed};
use crate::laws::members::may_act;
use crate::netting::{
    gross_risk, obligation_placed, obligations_in_order, risk_debit, risk_debits, risk_position,
};
use crate::ports::{DeFmiPort, InstructionPort};

verus! {

/// Without netting no asset is netted, with net settlement the settlement asset
/// alone is, and with full netting every asset is.
pub proof fn law_netted_assets(
    mode: NettingMode,
    asset: Identifier,
    settlement_asset: Identifier,
    r: bool,
)
    requires
        call_ensures(NettingMode::asset_is_net, (mode, &asset, &settlement_asset), r),
    ensures
        mode == NettingMode::GrossGross ==> !r,
        mode == NettingMode::GrossNet ==> (r <==> asset == settlement_asset),
        mode == NettingMode::NetNet ==> r,
{
}

/// Whether an obligation is complete: every identifier and digest is set, it runs
/// between two members, and its amount and its risk are positive.
pub open spec fn obligation_complete(o: ClearingObligation) -> bool {
    &&& o.operation_id != ZERO
    &&& o.obligation_id != ZERO
    &&& o.cycle_id != ZERO
    &&& o.payer_id != ZERO
    &&& o.payee_id != ZERO
    &&& o.asset_id != ZERO
    &&& o.zkpi_digest != ZERO
    &&& o.payer_id != o.payee_id
    &&& o.amount > 0
    &&& o.risk_value > 0
}

pub proof fn lemma_obligation_complete(o: ClearingObligation)
    ensures
        o.well_formed() <==> obligation_complete(o),
{
    let ids = seq![
        o.operation_id,
        o.obligation_id,
        o.cycle_id,
        o.payer_id,
        o.payee_id,
        o.asset_id,
        o.zkpi_digest,
    ];
    if !has_zero(ids) {
        assert(ids[0] != ZERO && ids[1] != ZERO && ids[2] != ZERO && ids[3] != ZERO && ids[4]
            != ZERO && ids[5] != ZERO && ids[6] != ZERO);
    }
}

/// An obligation passes exactly if it is complete.
pub proof fn law_obligation_validation(o: ClearingObligation, r: Result<(), DeCcpError>)
    requires
        call_ensures(ClearingObligation::validate, (&o,), r),
    ensures
        r is Ok <==> obligation_complete(o),
        r matches Err(error) ==> error == DeCcpError::InvalidObligation,
{
    lemma_obligation_complete(o);
}

/// Whether a cycle can be opened, apart from its approval: everything it names is
/// set, it opens now, and its operation and its identifier are unused.
pub open spec fn cycle_openable(book: BookState, request: OpenCycleRequest, now: u64) -> bool {
    &&& request.operation_id != ZERO
    &&& request.cycle_id != ZERO
    &&& request.settlement_asset_id != ZERO
    &&& request.policy_digest != ZERO
    &&& request.opened_at > 0
    &&& request.opened_at == now
    &&& !book.used_operations.contains(request.operation_id)
    &&& !book.cycles.contains_key(request.cycle_id)
}

/// A cycle is opened exactly when it can be and a quorum approved it; it is then
/// open and empty, and nothing else in the book changes.
pub proof fn law_cycle_opening_effect(
    book: &mut ClearingBook,
    request: OpenCycleRequest,
    approval: &QuorumApproval,
    now: u64,
    r: Result<(), DeCcpError>,
)
    requires
        call_ensures(ClearingBook::open_cycle, (book, request, approval, now), r),
    ensures
        r is Err ==> final(book)@ == old(book)@,
        r is Ok <==> cycle_openable(old(book)@, request, now) && sealed(
            old(book)@.authorities,
            request.statement(),
            approval@,
            Some(now),
        ),
        r == Err::<(), DeCcpError>(DeCcpError::InvalidCycle) <==> !cycle_openable(
            old(book)@,
            request,
            now,
        ),
        r is Ok ==> {
            let cycle = final(book)@.cycles[request.cycle_id];
            &&& final(book)@ == (BookState {
                cycles: old(book)@.cycles.insert(request.cycle_id, cycle),
                used_operations: old(book)@.used_operations.insert(request.operation_id),
                ..old(book)@
            })
            &&& cycle.cycle_id == request.cycle_id
            &&& cycle.mode == request.mode
            &&& cycle.settlement_asset_id == request.settlement_asset_id
            &&& cycle.policy_digest == request.policy_digest
            &&& cycle.status == CycleStatus::Open
            &&& cycle.opened_at == now
            &&& cycle.obligations.len() == 0
            &&& cycle.closed_proposal is None
            &&& cycle.defmi_settlement_receipt is None
        },
{
    law_refusal_of_approval(old(book)@.authorities, request.statement(), approval@, Some(now));
    let ids = seq![
        request.operation_id,
        request.cycle_id,
        request.settlement_asset_id,
        request.policy_digest,
    ];
    if !has_zero(ids) {
        assert(ids[0] != ZERO && ids[1] != ZERO && ids[2] != ZERO && ids[3] != ZERO);
    }
}

/// Whether an obligation can be booked, apart from its instruction: it is
/// complete, both parties may act, its operation and its identifier are unused,
/// and its cycle is open.
pub open spec fn submittable(book: BookState, o: ClearingObligation, now: u64) -> bool {
    &&& obligation_complete(o)
    &&& may_act(book, o.payer_id, now)
    &&& may_act(book, o.payee_id, now)
    &&& !book.used_operations.contains(o.operation_id)
    &&& !book.obligations.contains_key(o.obligation_id)
    &&& book.cycles.contains_key(o.cycle_id)
    &&& book.cycles[o.cycle_id].status == CycleStatus::Open
}

/// An obligation is booked exactly when it can be and its instruction is
/// confirmed; it is then recorded as given and listed last in its cycle, and
/// nothing else in the book changes.
pub proof fn law_submission_effect<P: InstructionPort>(
    book: &mut ClearingBook,
    o: ClearingObligation,
    instructions: &P,
    now: u64,
    r: Result<(), DeCcpError>,
)
    requires
        call_ensures(ClearingBook::submit_obligation::<P>, (book, o, instructions, now), r),
    ensures
        r is Err ==> final(book)@ == old(book)@,
        r matches Err(DeCcpError::InstructionRejected(message)) ==> exists|
            reply: Result<(), String>,
        |
            reply == Err::<(), String>(message) && #[trigger] call_ensures(
                P::verify_obligation,
                (instructions, &o, now),
                reply,
            ),
        r is Ok ==> {
            let before = old(book)@.cycles[o.cycle_id];
            &&& submittable(old(book)@, o, now)
            &&& exists|reply: Result<(), String>|
                reply is Ok && #[trigger] call_ensures(
                    P::verify_obligation,
                    (instructions, &o, now),
                    reply,
                )
            &&& final(book)@ == (BookState {
                cycles: old(book)@.cycles.insert(
                    o.cycle_id,
                    CycleView { obligations: before.obligations.push(o.obligation_id), ..before },
                ),
                obligations: old(book)@.obligations.insert(o.obligation_id, o),
                used_operations: old(book)@.used_operations.insert(o.operation_id),
                ..old(book)@
            })
        },
        submittable(old(book)@, o, now) && (forall|reply: Result<(), String>| #[trigger]
            call_ensures(P::verify_obligation, (instructions, &o, now), reply) ==> reply is Ok)
            ==> r is Ok,
        r matches Err(DeCcpError::InvalidObligation) ==> !obligation_complete(o),
        r matches Err(DeCcpError::UnknownParticipant) ==> !old(book)@.participants.contains_key(
            o.payer_id,
        ) || !old(book)@.participants.contains_key(o.payee_id),
        r matches Err(DeCcpError::ParticipantNotActive) ==> !may_act(old(book)@, o.payer_id, now)
            || !may_act(old(book)@, o.payee_id, now),
        r matches Err(DeCcpError::DuplicateObligation) ==> old(book)@.used_operations.contains(
            o.operation_id,
        ) || old(book)@.obligations.contains_key(o.obligation_id),
        r matches Err(DeCcpError::UnknownCycle) ==> !old(book)@.cycles.contains_key(o.cycle_id),
        r matches Err(DeCcpError::CycleNotOpen) ==> old(book)@.cycles.contains_key(o.cycle_id)
            && old(book)@.cycles[o.cycle_id].status != CycleStatus::Open,
        r matches Err(error) ==> error is InvalidObligation || error is UnknownParticipant
            || error is ParticipantNotActive || error is DuplicateObligation
            || error is UnknownCycle || error is CycleNotOpen || error is InstructionRejected,
{
    lemma_obligation_complete(o);
}

/// A cycle is closed exactly with a proposal that a quorum approved and that is
/// what the book prepares for it.
pub proof fn law_close_takes_the_prepared_proposal(
    book: &mut ClearingBook,
    proposal: NettingProposal,
    approval: &QuorumApproval,
    now: u64,
    r: Result<(), DeCcpError>,
    prepared: Result<NettingProposal, DeCcpError>,
)
    requires
        call_ensures(ClearingBook::commit_close, (book, proposal, approval, now), r),
        call_ensures(ClearingBook::prepare_close, (&*old(book), &proposal.cycle_id), prepared),
    ensures
        r is Ok <==> prepared is Ok && prepared->Ok_0@ == proposal@ && sealed(
            old(book)@.authorities,
            proposal.proposal_digest,
            approval@,
            Some(now),
        ),
        r matches Err(DeCcpError::InvalidNettingProposal) ==> prepared is Ok
            && prepared->Ok_0@ != proposal@,
        r is Err && sealed(
            old(book)@.authorities,
            proposal.proposal_digest,
            approval@,
            Some(now),
        ) && prepared is Err ==> r->Err_0 == prepared->Err_0,
{
    let before = old(book)@;
    law_refusal_of_approval(before.authorities, proposal.proposal_digest, approval@, Some(now));
    if prepared is Err {
        law_proposal_refusal(*old(book), proposal.cycle_id, prepared);
    }
    assert((r, final(book)@) == before.close_committed(proposal@, approval@, now));
}

/// A cycle that is closed was open before; it then holds the proposal, and
/// nothing else in the book changes.
pub proof fn law_close_effect(
    book: &mut ClearingBook,
    proposal: NettingProposal,
    approval: &QuorumApproval,
    now: u64,
    r: Result<(), DeCcpError>,
)
    requires
        call_ensures(ClearingBook::commit_close, (book, proposal, approval, now), r),
    ensures
        r is Err ==> final(book)@ == old(book)@,
        r is Ok ==> {
            let before = old(book)@.cycles[proposal.cycle_id];
            &&& old(book)@.cycles.contains_key(proposal.cycle_id)
            &&& before.status == CycleStatus::Open
            &&& final(book)@ == (BookState {
                cycles: old(book)@.cycles.insert(
                    proposal.cycle_id,
                    CycleView {
                        status: CycleStatus::Closed,
                        closed_proposal: Some(proposal@),
                        ..before
                    },
                ),
                ..old(book)@
            })
        },
{
    let before = old(book)@;
    assert((r, final(book)@) == before.close_committed(proposal@, approval@, now));
}

/// Whether the settlement of a cycle can be recorded, apart from the settlement
/// layer's word: the receipt is set and for the proposal that closed the cycle.
pub open spec fn settleable(
    book: BookState,
    cycle_id: Identifier,
    proposal_digest: Digest32,
    receipt: DefmiSettlementReceipt,
) -> bool {
    &&& receipt.receipt_digest != ZERO
    &&& receipt.context_digest == proposal_digest
    &&& book.cycles.contains_key(cycle_id)
    &&& book.cycles[cycle_id].status == CycleStatus::Closed
    &&& book.cycles[cycle_id].closed_proposal is Some
    &&& book.cycles[cycle_id].closed_proposal->0.proposal_digest == proposal_digest
}

/// A settlement is recorded exactly when it can be and the settlement layer
/// confirms the receipt for the proposal; the cycle is then settled with that
/// receipt, and nothing else in the book changes.
pub proof fn law_settlement_effect<P: DeFmiPort>(
    book: &mut ClearingBook,
    cycle_id: Identifier,
    proposal_digest: Digest32,
    receipt: DefmiSettlementReceipt,
    defmi: &P,
    now: u64,
    r: Result<(), DeCcpError>,
)
    requires
        call_ensures(
            ClearingBook::record_cycle_settlement::<P>,
            (book, &cycle_id, proposal_digest, receipt, defmi, now),
            r,
        ),
    ensures
        r is Err ==> final(book)@ == old(book)@,
        r matches Err(DeCcpError::DeFmiEvidenceRejected(message)) ==> exists|
            reply: Result<(), String>,
        |
            reply == Err::<(), String>(message) && #[trigger] call_ensures(
                P::verify_settlement,
                (defmi, &proposal_digest, &receipt, now),
                reply,
            ),
        r is Ok ==> {
            &&& settleable(old(book)@, cycle_id, proposal_digest, receipt)
            &&& exists|reply: Result<(), String>|
                reply is Ok && #[trigger] call_ensures(
                    P::verify_settlement,
                    (defmi, &proposal_digest, &receipt, now),
                    reply,
                )
            &&& final(book)@ == (BookState {
                cycles: old(book)@.cycles.insert(
                    cycle_id,
                    CycleView {
                        status: CycleStatus::Settled,
                        defmi_settlement_receipt: Some(receipt.receipt_digest),
                        ..old(book)@.cycles[cycle_id]
                    },
                ),
                ..old(book)@
            })
        },
        settleable(old(book)@, cycle_id, proposal_digest, receipt) && (forall|
            reply: Result<(), String>,
        | #[trigger]
            call_ensures(P::verify_settlement, (defmi, &proposal_digest, &receipt, now), reply)
                ==> reply is Ok) ==> r is Ok,
        r matches Err(DeCcpError::UnknownCycle) ==> !old(book)@.cycles.contains_key(cycle_id),
        r matches Err(DeCcpError::InvalidSettlementReceipt) ==> !settleable(
            old(book)@,
            cycle_id,
            proposal_digest,
            receipt,
        ),
        r matches Err(error) ==> error is UnknownCycle || error is InvalidSettlementReceipt
            || error is DeFmiEvidenceRejected,
{
}

/// The risk of the listed obligations that a member pays.
pub open spec fn risk_paid(
    filed: Map<Identifier, ClearingObligation>,
    ids: Seq<Identifier>,
    member: Identifier,
) -> int
    decreases ids.len(),
{
    if ids.len() == 0 {
        0
    } else {
        risk_paid(filed, ids.drop_last(), member) + if filed[ids.last()].payer_id == member {
            filed[ids.last()].risk_value as int
        } else {
            0
        }
    }
}

/// The risk of the listed obligations that a member receives.
pub open spec fn risk_received(
    filed: Map<Identifier, ClearingObligation>,
    ids: Seq<Identifier>,
    member: Identifier,
) -> int
    decreases ids.len(),
{
    if ids.len() == 0 {
        0
    } else {
        risk_received(filed, ids.drop_last(), member) + if filed[ids.last()].payee_id == member {
            filed[ids.last()].risk_value as int
        } else {
            0
        }
    }
}

/// What the risk of a cycle calls on a member's margin for: without netting, the
/// risk of all that it pays; with netting, what it pays beyond what it receives.
pub open spec fn risk_call(book: BookState, cycle: CycleView, member: Identifier) -> int {
    let paid = risk_paid(book.obligations, cycle.obligations, member);
    let received = risk_received(book.obligations, cycle.obligations, member);
    if cycle.mode == NettingMode::GrossGross {
        paid
    } else if received <= paid {
        paid - received
    } else {
        0
    }
}

proof fn lemma_placed_risk(s: Seq<ClearingObligation>, x: ClearingObligation, member: Identifier)
    ensures
        gross_risk(obligation_placed(s, x), member) == gross_risk(s, member) + gross_risk(
            seq![x],
            member,
        ),
        risk_position(obligation_placed(s, x), member) == risk_position(s, member) + risk_position(
            seq![x],
            member,
        ),
    decreases s.len(),
{
    reveal_with_fuel(gross_risk, 2);
    reveal_with_fuel(risk_position, 2);
    assert(seq![x].drop_last() =~= Seq::<ClearingObligation>::empty());
    assert(seq![x].last() == x);
    if s.len() == 0 || crate::ident::rank(s.last().obligation_id) <= crate::ident::rank(
        x.obligation_id,
    ) {
        assert(s.push(x).drop_last() =~= s);
    } else {
        lemma_placed_risk(s.drop_last(), x, member);
        let front = obligation_placed(s.drop_last(), x);
        assert(front.push(s.last()).drop_last() =~= front);
    }
}

proof fn lemma_listed_risk(book: BookState, ids: Seq<Identifier>, member: Identifier)
    requires
        forall|i: int|
            0 <= i < ids.len() ==> obligation_complete(book.obligations[#[trigger] ids[i]]),
    ensures
        ({
            let batch = obligations_in_order(ids.map_values(|id: Identifier| book.obligations[id]));
            &&& gross_risk(batch, member) == risk_paid(book.obligations, ids, member)
            &&& risk_position(batch, member) == risk_received(book.obligations, ids, member)
                - risk_paid(book.obligations, ids, member)
        }),
    decreases ids.len(),
{
    let found = |id: Identifier| book.obligations[id];
    let all = ids.map_values(found);
    if ids.len() > 0 {
        let front = ids.drop_last();
        assert forall|i: int| 0 <= i < front.len() implies obligation_complete(
            book.obligations[#[trigger] front[i]],
        ) by {
            assert(front[i] == ids[i]);
        }
        lemma_listed_risk(book, front, member);
        assert(all.drop_last() =~= front.map_values(found));
        let x = book.obligations[ids.last()];
        assert(all.last() == x);
        assert(obligation_complete(book.obligations[ids[ids.len() - 1]]));
        lemma_placed_risk(obligations_in_order(front.map_values(found)), x, member);
        reveal_with_fuel(gross_risk, 2);
        reveal_with_fuel(risk_position, 2);
        assert(seq![x].drop_last() =~= Seq::<ClearingObligation>::empty());
        assert(seq![x].last() == x);
    }
}

/// A member that a debit is called from has a margin account that covers it.
pub open spec fn covered(book: BookState, member: Identifier, debit: int) -> bool {
    book.margins.contains_key(member) && debit <= book.margins[member].encumbered_collateral
}

pub proof fn lemma_margin_refusal(
    book: BookState,
    members: Seq<Identifier>,
    debits: Map<Identifier, u128>,
)
    ensures
        match book.margin_refusal(members, debits) {
            None => forall|i: int|
                0 <= i < members.len() ==> covered(
                    book,
                    #[trigger] members[i],
                    debits[members[i]] as int,
                ),
            Some(error) => {
                ||| error is UnknownParticipant && exists|i: int|
                    0 <= i < members.len() && !book.margins.contains_key(#[trigger] members[i])
                ||| error is InsufficientMargin && exists|i: int|
                    0 <= i < members.len() && book.margins.contains_key(#[trigger] members[i])
                        && book.margins[members[i]].encumbered_collateral < debits[members[i]]
            },
        },
    decreases members.len(),
{
    if members.len() > 0 {
        let front = members.drop_last();
        lemma_margin_refusal(book, front, debits);
        assert(members[members.len() - 1] == members.last());
        assert forall|i: int| 0 <= i < front.len() implies #[trigger] members[i] == front[i] by {}
        match book.margin_refusal(front, debits) {
            None => {
                assert forall|i: int|
                    0 <= i < members.len() && i < members.len() - 1 implies covered(
                    book,
                    #[trigger] members[i],
                    debits[members[i]] as int,
                ) by {
                    assert(front[i] == members[i]);
                }
            },
            Some(error) => {
                if error is UnknownParticipant {
                    let i = choose|i: int|
                        0 <= i < front.len() && !book.margins.contains_key(#[trigger] front[i]);
                    assert(members[i] == front[i]);
                } else {
                    let i = choose|i: int|
                        0 <= i < front.len() && book.margins.contains_key(#[trigger] front[i])
                            && book.margins[front[i]].encumbered_collateral < debits[front[i]];
                    assert(members[i] == front[i]);
                }
            },
        }
    }
}

/// The members of a batch whose risk calls on margin are finitely many, as each
/// is a payer.
proof fn lemma_debtors_finite(s: Seq<ClearingObligation>, mode: NettingMode)
    ensures
        risk_debits(s, mode).dom().finite(),
{
    let payers = s.map_values(|o: ClearingObligation| o.payer_id);
    vstd::seq_lib::seq_to_set_is_finite(payers);
    assert forall|m: Identifier| risk_debits(s, mode).dom().contains(m) implies payers.to_set().contains(
        m,
    ) by {
        lemma_debtor_pays(s, mode, m);
        let i = choose|i: int| 0 <= i < s.len() && (#[trigger] s[i]).payer_id == m;
        assert(payers[i] == m);
        assert(payers.contains(m));
    }
    vstd::set_lib::lemma_set_subset_finite(payers.to_set(), risk_debits(s, mode).dom());
}

proof fn lemma_debtor_pays(s: Seq<ClearingObligation>, mode: NettingMode, m: Identifier)
    requires
        gross_risk(s, m) > 0 || risk_position(s, m) < 0,
    ensures
        exists|i: int| 0 <= i < s.len() && (#[trigger] s[i]).payer_id == m,
    decreases s.len(),
{
    if s.last().payer_id == m {
        assert(s[s.len() - 1].payer_id == m);
    } else {
        let front = s.drop_last();
        lemma_debtor_pays(front, mode, m);
        let i = choose|i: int| 0 <= i < front.len() && (#[trigger] front[i]).payer_id == m;
        assert(s[i] == front[i]);
    }
}

proof fn lemma_fitting_risk(
    s: Seq<ClearingObligation>,
    mode: NettingMode,
    settlement_asset: Identifier,
    k: int,
    m: Identifier,
)
    requires
        forall|j: int|
            0 <= j < s.len() ==> #[trigger] crate::netting::step_fits(s, j, mode, settlement_asset),
        forall|j: int| 0 <= j < s.len() ==> (#[trigger] s[j]).payer_id != s[j].payee_id,
        0 <= k <= s.len(),
    ensures
        risk_debit(s.take(k), mode, m) <= u128::MAX,
        mode != NettingMode::GrossGross ==> risk_position(s.take(k), m) >= i128::MIN,
    decreases k,
{
    if k > 0 {
        lemma_fitting_risk(s, mode, settlement_asset, k - 1, m);
        assert(crate::netting::step_fits(s, k - 1, mode, settlement_asset));
        assert(s.take(k).drop_last() =~= s.take(k - 1));
        assert(s.take(k).last() == s[k - 1]);
        assert(s.take(k - 1 + 1) == s.take(k));
    }
}

/// Every listed obligation of a cycle is on file, and complete.
pub open spec fn listing_sound(book: BookState, cycle: CycleView) -> bool {
    forall|i: int|
        0 <= i < cycle.obligations.len() ==> book.obligations.contains_key(
            #[trigger] cycle.obligations[i],
        ) && obligation_complete(book.obligations[cycle.obligations[i]])
}

pub proof fn lemma_batch_sound(book: BookState, cycle: CycleView)
    requires
        forall|i: int|
            0 <= i < cycle.obligations.len() ==> book.obligations.contains_key(
                #[trigger] cycle.obligations[i],
            ),
    ensures
        crate::netting::all_well_formed(book.batch(cycle)) <==> listing_sound(book, cycle),
        book.batch(cycle).len() == cycle.obligations.len(),
        listing_sound(book, cycle) ==> forall|i: int|
            0 <= i < book.batch(cycle).len() ==> obligation_complete(
                #[trigger] book.batch(cycle)[i],
            ),
{
    let all = cycle.obligations.map_values(|id: Identifier| book.obligations[id]);
    let batch = book.batch(cycle);
    crate::laws::order::law_obligations_in_order(all);
    assert(batch.to_multiset() == all.to_multiset());
    batch.to_multiset_ensures();
    all.to_multiset_ensures();
    if listing_sound(book, cycle) {
        assert forall|i: int| 0 <= i < batch.len() implies obligation_complete(#[trigger] batch[i])
            && batch[i].well_formed() by {
            assert(batch.contains(batch[i]));
            assert(all.to_multiset().count(batch[i]) > 0);
            assert(all.contains(batch[i]));
            let j = choose|j: int| 0 <= j < all.len() && all[j] == batch[i];
            assert(cycle.obligations[j] == cycle.obligations[j]);
            lemma_obligation_complete(batch[i]);
        }
    }
    if crate::netting::all_well_formed(batch) {
        assert forall|i: int| 0 <= i < cycle.obligations.len() implies obligation_complete(
            book.obligations[#[trigger] cycle.obligations[i]],
        ) by {
            assert(all[i] == book.obligations[cycle.obligations[i]]);
            assert(all.contains(all[i]));
            assert(batch.to_multiset().count(all[i]) > 0);
            assert(batch.contains(all[i]));
            let j = choose|j: int| 0 <= j < batch.len() && batch[j] == all[i];
            assert(batch[j].well_formed());
            lemma_obligation_complete(batch[j]);
        }
    }
}

/// A proposal is for an open cycle with obligations, all of them complete. It
/// calls on exactly the members whose risk asks for margin, for exactly that
/// risk, whatever the amounts are; and each such member's margin covers it.
pub proof fn law_proposal_debits(
    book: ClearingBook,
    cycle_id: Identifier,
    r: Result<NettingProposal, DeCcpError>,
    member: Identifier,
)
    requires
        call_ensures(ClearingBook::prepare_close, (&book, &cycle_id), r),
        r is Ok,
    ensures
        ({
            let cycle = book@.cycles[cycle_id];
            let proposal = r->Ok_0@;
            let debit = risk_call(book@, cycle, member);
            &&& book@.cycles.contains_key(cycle_id)
            &&& cycle.status == CycleStatus::Open
            &&& cycle.obligations.len() > 0
            &&& listing_sound(book@, cycle)
            &&& proposal.cycle_id == cycle_id
            &&& proposal.mode == cycle.mode
            &&& proposal.risk_debits.contains_key(member) <==> debit > 0
            &&& proposal.risk_debits.contains_key(member) ==> {
                &&& proposal.risk_debits[member] == debit
                &&& covered(book@, member, debit)
            }
        }),
{
    let cycle = book@.cycles[cycle_id];
    let batch = book@.batch(cycle);
    let debits = risk_debits(batch, cycle.mode);
    lemma_batch_sound(book@, cycle);
    lemma_listed_risk(book@, cycle.obligations, member);
    lemma_debtors_finite(batch, cycle.mode);
    crate::ident::lemma_ascending_exists(debits.dom());
    let members = ascending(debits.dom());
    lemma_margin_refusal(book@, members, debits);
    lemma_fitting_risk(batch, cycle.mode, cycle.settlement_asset_id, batch.len() as int, member);
    assert(batch.take(batch.len() as int) =~= batch);
    if debits.contains_key(member) {
        assert(members.to_set().contains(member));
        let i = choose|i: int| 0 <= i < members.len() && members[i] == member;
        assert(covered(book@, members[i], debits[members[i]] as int));
    }
}

/// The single obligation of a cycle without netting calls on its payer for its
/// risk value, and on nobody else.
pub proof fn law_gross_debit_of_one(
    book: ClearingBook,
    cycle_id: Identifier,
    r: Result<NettingProposal, DeCcpError>,
    o: ClearingObligation,
    member: Identifier,
)
    requires
        call_ensures(ClearingBook::prepare_close, (&book, &cycle_id), r),
        r is Ok,
        book@.cycles[cycle_id].mode == NettingMode::GrossGross,
        book@.cycles[cycle_id].obligations.len() == 1,
        o == book@.obligations[book@.cycles[cycle_id].obligations[0]],
    ensures
        r->Ok_0@.risk_debits.contains_key(member) <==> member == o.payer_id,
        r->Ok_0@.risk_debits[o.payer_id] == o.risk_value,
{
    let ids = book@.cycles[cycle_id].obligations;
    law_proposal_debits(book, cycle_id, r, member);
    law_proposal_debits(book, cycle_id, r, o.payer_id);
    reveal_with_fuel(risk_paid, 2);
    assert(obligation_complete(book@.obligations[ids[0]]));
}

/// What a proposal calls from a member, nothing where it does not name it.
pub open spec fn called(proposal: NettingProposal, member: Identifier) -> int {
    if proposal@.risk_debits.contains_key(member) {
        proposal@.risk_debits[member] as int
    } else {
        0
    }
}

proof fn lemma_filing_keeps_risk(
    filed: Map<Identifier, ClearingObligation>,
    more: Map<Identifier, ClearingObligation>,
    ids: Seq<Identifier>,
    member: Identifier,
)
    requires
        forall|i: int|
            0 <= i < ids.len() ==> {
                &&& filed[#[trigger] ids[i]].payer_id == more[ids[i]].payer_id
                &&& filed[ids[i]].payee_id == more[ids[i]].payee_id
                &&& filed[ids[i]].risk_value == more[ids[i]].risk_value
            },
    ensures
        risk_paid(filed, ids, member) == risk_paid(more, ids, member),
        risk_received(filed, ids, member) == risk_received(more, ids, member),
    decreases ids.len(),
{
    if ids.len() > 0 {
        let front = ids.drop_last();
        assert forall|i: int| 0 <= i < front.len() implies {
            &&& filed[#[trigger] front[i]].payer_id == more[front[i]].payer_id
            &&& filed[front[i]].payee_id == more[front[i]].payee_id
            &&& filed[front[i]].risk_value == more[front[i]].risk_value
        } by {
            assert(front[i] == ids[i]);
        }
        assert(ids[ids.len() - 1] == ids.last());
        lemma_filing_keeps_risk(filed, more, front, member);
    }
}

/// An obligation submitted to a cycle without netting raises what its payer is
/// called for by exactly its risk value, and what nobody else is called for.
pub proof fn law_gross_debit_grows(
    before: ClearingBook,
    after: ClearingBook,
    o: ClearingObligation,
    first: Result<NettingProposal, DeCcpError>,
    second: Result<NettingProposal, DeCcpError>,
    member: Identifier,
)
    requires
        call_ensures(ClearingBook::prepare_close, (&before, &o.cycle_id), first),
        call_ensures(ClearingBook::prepare_close, (&after, &o.cycle_id), second),
        first is Ok,
        second is Ok,
        before@.cycles[o.cycle_id].mode == NettingMode::GrossGross,
        !before@.obligations.contains_key(o.obligation_id),
        after@.cycles == before@.cycles.insert(
            o.cycle_id,
            (CycleView {
                obligations: before@.cycles[o.cycle_id].obligations.push(o.obligation_id),
                ..before@.cycles[o.cycle_id]
            }),
        ),
        after@.obligations == before@.obligations.insert(o.obligation_id, o),
    ensures
        called(second->Ok_0, member) == called(first->Ok_0, member) + if member == o.payer_id {
            o.risk_value as int
        } else {
            0
        },
{
    let ids = before@.cycles[o.cycle_id].obligations;
    let more = after@.cycles[o.cycle_id].obligations;
    law_proposal_debits(before, o.cycle_id, first, member);
    law_proposal_debits(after, o.cycle_id, second, member);
    assert forall|i: int| 0 <= i < ids.len() implies {
        &&& before@.obligations[#[trigger] ids[i]].payer_id == after@.obligations[ids[i]].payer_id
        &&& before@.obligations[ids[i]].payee_id == after@.obligations[ids[i]].payee_id
        &&& before@.obligations[ids[i]].risk_value == after@.obligations[ids[i]].risk_value
    } by {
        assert(before@.obligations.contains_key(ids[i]));
    }
    lemma_filing_keeps_risk(before@.obligations, after@.obligations, ids, member);
    assert(more.drop_last() =~= ids);
    lemma_risk_paid_positive(before@.obligations, ids, member);
    lemma_risk_paid_positive(after@.obligations, more, member);
}

proof fn lemma_risk_paid_positive(
    filed: Map<Identifier, ClearingObligation>,
    ids: Seq<Identifier>,
    member: Identifier,
)
    ensures
        risk_paid(filed, ids, member) >= 0,
    decreases ids.len(),
{
    if ids.len() > 0 {
        lemma_risk_paid_positive(filed, ids.drop_last(), member);
    }
}

/// What a cycle calls on margin for rests on who pays whom and on the risk
/// values alone: two books that agree in these for the listed obligations call
/// for the same, whatever the amounts and the assets are.
pub proof fn law_debits_ignore_amounts(
    one: ClearingBook,
    other: ClearingBook,
    cycle_id: Identifier,
    first: Result<NettingProposal, DeCcpError>,
    second: Result<NettingProposal, DeCcpError>,
    member: Identifier,
)
    requires
        call_ensures(ClearingBook::prepare_close, (&one, &cycle_id), first),
        call_ensures(ClearingBook::prepare_close, (&other, &cycle_id), second),
        first is Ok,
        second is Ok,
        one@.cycles[cycle_id].mode == other@.cycles[cycle_id].mode,
        one@.cycles[cycle_id].obligations == other@.cycles[cycle_id].obligations,
        forall|i: int|
            0 <= i < one@.cycles[cycle_id].obligations.len() ==> {
                let id = #[trigger] one@.cycles[cycle_id].obligations[i];
                &&& one@.obligations[id].payer_id == other@.obligations[id].payer_id
                &&& one@.obligations[id].payee_id == other@.obligations[id].payee_id
                &&& one@.obligations[id].risk_value == other@.obligations[id].risk_value
            },
    ensures
        called(first->Ok_0, member) == called(second->Ok_0, member),
{
    law_proposal_debits(one, cycle_id, first, member);
    law_proposal_debits(other, cycle_id, second, member);
    lemma_filing_keeps_risk(
        one@.obligations,
        other@.obligations,
        one@.cycles[cycle_id].obligations,
        member,
    );
}

/// Why a proposal cannot be prepared: the cycle is unknown, not open or empty, an
/// obligation is missing or incomplete, a called member has no account, or its
/// margin falls short of the call.
pub proof fn law_proposal_refusal(
    book: ClearingBook,
    cycle_id: Identifier,
    r: Result<NettingProposal, DeCcpError>,
)
    requires
        call_ensures(ClearingBook::prepare_close, (&book, &cycle_id), r),
        r is Err,
    ensures
        ({
            let cycle = book@.cycles[cycle_id];
            let error = r->Err_0;
            &&& error is UnknownCycle <==> !book@.cycles.contains_key(cycle_id)
            &&& error is CycleNotOpen <==> book@.cycles.contains_key(cycle_id) && (cycle.status
                != CycleStatus::Open || cycle.obligations.len() == 0)
            &&& error is InvalidState ==> exists|i: int|
                0 <= i < cycle.obligations.len() && !book@.obligations.contains_key(
                    #[trigger] cycle.obligations[i],
                )
            &&& error is InvalidObligation ==> !listing_sound(book@, cycle)
            &&& error is UnknownParticipant ==> exists|m: Identifier|
                #[trigger] risk_call(book@, cycle, m) > 0 && !book@.margins.contains_key(m)
            &&& error is InsufficientMargin ==> exists|m: Identifier|
                #[trigger] risk_call(book@, cycle, m) > 0 && book@.margins.contains_key(m)
                    && book@.margins[m].encumbered_collateral < risk_call(book@, cycle, m)
            &&& error is UnknownCycle || error is CycleNotOpen || error is InvalidState
                || error is InvalidObligation || error is ArithmeticOverflow
                || error is UnknownParticipant || error is InsufficientMargin
        }),
{
    let cycle = book@.cycles[cycle_id];
    let error = r->Err_0;
    let batch = book@.batch(cycle);
    let called = risk_debits(batch, cycle.mode);
    lemma_margin_refusal(book@, ascending(called.dom()), called);
    if error is UnknownParticipant || error is InsufficientMargin || error is InvalidObligation {
        lemma_batch_sound(book@, cycle);
        let debits = risk_debits(batch, cycle.mode);
        lemma_debtors_finite(batch, cycle.mode);
        crate::ident::lemma_ascending_exists(debits.dom());
        let members = ascending(debits.dom());
        lemma_margin_refusal(book@, members, debits);
        if error is UnknownParticipant {
            let i = choose|i: int|
                0 <= i < members.len() && !book@.margins.contains_key(#[trigger] members[i]);
            let m = members[i];
            assert(members.to_set().contains(m));
            lemma_listed_risk(book@, cycle.obligations, m);
            assert(risk_call(book@, cycle, m) > 0);
        } else if error is InsufficientMargin {
            let i = choose|i: int|
                0 <= i < members.len() && book@.margins.contains_key(#[trigger] members[i])
                    && book@.margins[members[i]].encumbered_collateral < debits[members[i]];
            let m = members[i];
            assert(members.to_set().contains(m));
            lemma_listed_risk(book@, cycle.obligations, m);
            lemma_fitting_risk(
                batch,
                cycle.mode,
                cycle.settlement_asset_id,
                batch.len() as int,
                m,
            );
            assert(batch.take(batch.len() as int) =~= batch);
            assert(risk_call(book@, cycle, m) > 0);
        }
    }
}

} // verus!
