//! Laws of cycles: they move forward from open to closed to settled and accept
//! obligations only while open.

use vstd::prelude::*;

use crate::authority::ApprovalView;
use crate::book::BookState;
use crate::cycles::{ClearingObligation, CycleStatus, ProposalView};
use crate::guarantees::DefmiSettlementReceipt;
use crate::ident::{Digest32, Identifier};

verus! {

/// A cycle that is no longer open accepts no obligation and cannot be closed
/// again.
pub proof fn law_closed_cycle_is_frozen(
    book: BookState,
    cycle_id: Identifier,
    obligation: ClearingObligation,
    reply: Result<(), String>,
    proposal: ProposalView,
    approval: ApprovalView,
    now: u64,
)
    requires
        book.cycles[cycle_id].status != CycleStatus::Open,
        obligation.cycle_id == cycle_id,
        proposal.cycle_id == cycle_id,
    ensures
        book.obligation_submitted(obligation, reply).0 is Err,
        book.closing(cycle_id) is Err,
        book.close_committed(proposal, approval, now).0 is Err,
{
}

/// A close stores the approved proposal; the cycle is then settled only by a
/// receipt for that proposal, and only once.
pub proof fn law_cycle_is_settled_once_for_its_proposal(
    book: BookState,
    proposal: ProposalView,
    approval: ApprovalView,
    now: u64,
    digest: Digest32,
    receipt: DefmiSettlementReceipt,
    reply: Result<(), String>,
    again: DefmiSettlementReceipt,
    later_reply: Result<(), String>,
)
    requires
        book.close_committed(proposal, approval, now).0 is Ok,
        book.settlement_refusal(digest, receipt) is None,
    ensures
        ({
            let closed = book.close_committed(proposal, approval, now).1;
            let settled = closed.cycle_settled(proposal.cycle_id, digest, receipt, reply);
            &&& closed.cycles[proposal.cycle_id].status == CycleStatus::Closed
            &&& closed.cycles[proposal.cycle_id].closed_proposal == Some(proposal)
            &&& settled.0 is Ok <==> reply is Ok && digest == proposal.proposal_digest
            &&& settled.0 is Ok ==> {
                &&& receipt.context_digest == proposal.proposal_digest
                &&& settled.1.cycles[proposal.cycle_id].status == CycleStatus::Settled
                &&& settled.1.cycles[proposal.cycle_id].defmi_settlement_receipt == Some(
                    receipt.receipt_digest,
                )
                &&& settled.1.cycle_settled(
                    proposal.cycle_id,
                    digest,
                    again,
                    later_reply,
                ).0 is Err
            }
        }),
{
}

/// A close changes no balance and touches nothing but its cycle: title stays
/// with the settlement layer.
pub proof fn law_close_touches_only_its_cycle(
    book: BookState,
    proposal: ProposalView,
    approval: ApprovalView,
    now: u64,
)
    ensures
        ({
            let after = book.close_committed(proposal, approval, now).1;
            &&& after == (BookState { cycles: after.cycles, ..book })
            &&& forall|c: Identifier|
                c != proposal.cycle_id ==> after.cycles.contains_key(c)
                    == #[trigger] book.cycles.contains_key(c) && after.cycles[c] == book.cycles[c]
        }),
{
}

} // verus!
