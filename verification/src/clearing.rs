//! Cycle operations of the clearing book: open, submit, close, settle.

use vstd::prelude::*;

use crate::authority::{ApprovalView, QuorumApproval};
use crate::book::{BookState, ClearingBook, Outcome};
use crate::cycles::{
    netting_proposal_digest, proposal_statement, ClearingObligation, CycleStatus, CycleView,
    NettingCycle, NettingMode, NettingProposal, OpenCycleRequest, ProposalView,
};
use crate::error::DeCcpError;
use crate::guarantees::DefmiSettlementReceipt;
use crate::ident::{any_zero, ascending, has_zero, is_zero, same_id, Digest32, Identifier, ZERO};
use crate::map::IdMap;
use crate::netting::{
    all_well_formed, book_batch, collect_debits, legs_for, netting_fits, obligation_root,
    obligations_in_order, place_obligation, risk_debits, root_of, settle_batch,
};
use crate::ports::{DeFmiPort, InstructionPort};

verus! {

impl BookState {
    /// Opens a cycle.
    pub open spec fn cycle_opened(
        self,
        request: OpenCycleRequest,
        approval: ApprovalView,
        now: u64,
    ) -> Outcome {
        if has_zero(
            seq![
                request.operation_id,
                request.cycle_id,
                request.settlement_asset_id,
                request.policy_digest,
            ],
        ) || request.opened_at == 0 || request.opened_at != now || self.used_operations.contains(
            request.operation_id,
        ) || self.cycles.contains_key(request.cycle_id) {
            (Err(DeCcpError::InvalidCycle), self)
        } else {
            match self.authorities.refusal(request.statement(), approval, Some(now)) {
                Some(error) => (Err(error), self),
                None => (
                    Ok(()),
                    BookState {
                        cycles: self.cycles.insert(
                            request.cycle_id,
                            CycleView {
                                cycle_id: request.cycle_id,
                                mode: request.mode,
                                settlement_asset_id: request.settlement_asset_id,
                                policy_digest: request.policy_digest,
                                status: CycleStatus::Open,
                                opened_at: request.opened_at,
                                obligations: Seq::empty(),
                                closed_proposal: None,
                                defmi_settlement_receipt: None,
                            },
                        ),
                        ..self
                    }.with_operation(request.operation_id),
                ),
            }
        }
    }

    /// Why an obligation is refused before its instruction is verified.
    pub open spec fn submission_refusal(self, obligation: ClearingObligation, now: u64) -> Option<
        DeCcpError,
    > {
        if !obligation.well_formed() {
            Some(DeCcpError::InvalidObligation)
        } else if self.inactivity(obligation.payer_id, now) is Some {
            self.inactivity(obligation.payer_id, now)
        } else {
            self.inactivity(obligation.payee_id, now)
        }
    }

    /// Books an obligation after its instruction was verified with a reply.
    pub open spec fn obligation_submitted(
        self,
        obligation: ClearingObligation,
        reply: Result<(), String>,
    ) -> Outcome {
        match reply {
            Err(message) => (Err(DeCcpError::InstructionRejected(message)), self),
            Ok(_) => if self.used_operations.contains(obligation.operation_id)
                || self.obligations.contains_key(obligation.obligation_id) {
                (Err(DeCcpError::DuplicateObligation), self)
            } else if !self.cycles.contains_key(obligation.cycle_id) {
                (Err(DeCcpError::UnknownCycle), self)
            } else if self.cycles[obligation.cycle_id].status != CycleStatus::Open {
                (Err(DeCcpError::CycleNotOpen), self)
            } else {
                let cycle = self.cycles[obligation.cycle_id];
                (
                    Ok(()),
                    BookState {
                        cycles: self.cycles.insert(
                            obligation.cycle_id,
                            CycleView {
                                obligations: cycle.obligations.push(obligation.obligation_id),
                                ..cycle
                            },
                        ),
                        obligations: self.obligations.insert(obligation.obligation_id, obligation),
                        ..self
                    }.with_operation(obligation.operation_id),
                )
            },
        }
    }

    /// The obligations of a cycle, ascending by identifier.
    pub open spec fn batch(self, cycle: CycleView) -> Seq<ClearingObligation> {
        obligations_in_order(cycle.obligations.map_values(|id: Identifier| self.obligations[id]))
    }

    /// The first listed member, in order, whose debit its margin does not cover.
    pub open spec fn margin_refusal(
        self,
        members: Seq<Identifier>,
        debits: Map<Identifier, u128>,
    ) -> Option<DeCcpError>
        decreases members.len(),
    {
        if members.len() == 0 {
            None
        } else if self.margin_refusal(members.drop_last(), debits) is Some {
            self.margin_refusal(members.drop_last(), debits)
        } else if !self.margins.contains_key(members.last()) {
            Some(DeCcpError::UnknownParticipant)
        } else if self.margins[members.last()].encumbered_collateral < debits[members.last()] {
            Some(DeCcpError::InsufficientMargin)
        } else {
            None
        }
    }

    /// How a batch of obligations closes a cycle.
    pub open spec fn proposal_for(
        cycle_id: Identifier,
        mode: NettingMode,
        settlement_asset: Identifier,
        batch: Seq<ClearingObligation>,
    ) -> ProposalView {
        let root = root_of(batch);
        let legs = legs_for(batch, mode, settlement_asset, cycle_id, root);
        let debits = risk_debits(batch, mode);
        ProposalView {
            cycle_id,
            mode,
            obligation_root: root,
            legs,
            risk_debits: debits,
            proposal_digest: proposal_statement(cycle_id, mode, root, legs, debits),
        }
    }

    /// How a cycle would be closed, or why it cannot be.
    pub open spec fn closing(self, cycle_id: Identifier) -> Result<ProposalView, DeCcpError> {
        let cycle = self.cycles[cycle_id];
        let batch = self.batch(cycle);
        let debits = risk_debits(batch, cycle.mode);
        if !self.cycles.contains_key(cycle_id) {
            Err(DeCcpError::UnknownCycle)
        } else if cycle.status != CycleStatus::Open || cycle.obligations.len() == 0 {
            Err(DeCcpError::CycleNotOpen)
        } else if exists|i: int|
            0 <= i < cycle.obligations.len() && !self.obligations.contains_key(
                #[trigger] cycle.obligations[i],
            ) {
            Err(DeCcpError::InvalidState)
        } else if !all_well_formed(batch) {
            Err(DeCcpError::InvalidObligation)
        } else if !netting_fits(batch, cycle.mode, cycle.settlement_asset_id) {
            Err(DeCcpError::ArithmeticOverflow)
        } else {
            match self.margin_refusal(ascending(debits.dom()), debits) {
                Some(error) => Err(error),
                None => Ok(
                    Self::proposal_for(cycle_id, cycle.mode, cycle.settlement_asset_id, batch),
                ),
            }
        }
    }

    /// Closes a cycle with an approved proposal.
    pub open spec fn close_committed(
        self,
        proposal: ProposalView,
        approval: ApprovalView,
        now: u64,
    ) -> Outcome {
        match self.authorities.refusal(proposal.proposal_digest, approval, Some(now)) {
            Some(error) => (Err(error), self),
            None => match self.closing(proposal.cycle_id) {
                Err(error) => (Err(error), self),
                Ok(expected) => if expected != proposal {
                    (Err(DeCcpError::InvalidNettingProposal), self)
                } else {
                    (
                        Ok(()),
                        BookState {
                            cycles: self.cycles.insert(
                                proposal.cycle_id,
                                CycleView {
                                    status: CycleStatus::Closed,
                                    closed_proposal: Some(proposal),
                                    ..self.cycles[proposal.cycle_id]
                                },
                            ),
                            ..self
                        },
                    )
                },
            },
        }
    }

    /// Why a settlement is refused before the settlement layer is asked: the
    /// receipt is empty or for another context.
    pub open spec fn settlement_refusal(
        self,
        proposal_digest: Digest32,
        receipt: DefmiSettlementReceipt,
    ) -> Option<DeCcpError> {
        if receipt.receipt_digest == ZERO || receipt.context_digest != proposal_digest {
            Some(DeCcpError::InvalidSettlementReceipt)
        } else {
            None
        }
    }

    /// Records the settlement of a cycle after the settlement layer replied.
    pub open spec fn cycle_settled(
        self,
        cycle_id: Identifier,
        proposal_digest: Digest32,
        receipt: DefmiSettlementReceipt,
        reply: Result<(), String>,
    ) -> Outcome {
        match reply {
            Err(message) => (Err(DeCcpError::DeFmiEvidenceRejected(message)), self),
            Ok(_) => if !self.cycles.contains_key(cycle_id) {
                (Err(DeCcpError::UnknownCycle), self)
            } else if self.cycles[cycle_id].status != CycleStatus::Closed || !(
            self.cycles[cycle_id].closed_proposal is Some
                && self.cycles[cycle_id].closed_proposal->0.proposal_digest == proposal_digest) {
                (Err(DeCcpError::InvalidSettlementReceipt), self)
            } else {
                (
                    Ok(()),
                    BookState {
                        cycles: self.cycles.insert(
                            cycle_id,
                            CycleView {
                                status: CycleStatus::Settled,
                                defmi_settlement_receipt: Some(receipt.receipt_digest),
                                ..self.cycles[cycle_id]
                            },
                        ),
                        ..self
                    },
                )
            },
        }
    }
}

impl ClearingBook {
    /// Opens a cycle that a quorum approved.
    pub fn open_cycle(
        &mut self,
        request: OpenCycleRequest,
        approval: &QuorumApproval,
        now: u64,
    ) -> (r: Result<(), DeCcpError>)
        ensures
            (r, final(self)@) == old(self)@.cycle_opened(request, approval@, now),
    {
        let required = [
            request.operation_id,
            request.cycle_id,
            request.settlement_asset_id,
            request.policy_digest,
        ];
        if any_zero(&required) || request.opened_at == 0 || request.opened_at != now
            || self.operation_used(&request.operation_id) || self.cycles.contains_key(
            &request.cycle_id,
        ) {
            return Err(DeCcpError::InvalidCycle);
        }
        assert(required@[0] != ZERO);
        let statement = request.statement_digest();
        self.authorities.verify(&statement, approval, now)?;
        let cycle = NettingCycle {
            cycle_id: request.cycle_id,
            mode: request.mode,
            settlement_asset_id: request.settlement_asset_id,
            policy_digest: request.policy_digest,
            status: CycleStatus::Open,
            opened_at: request.opened_at,
            obligations: Vec::new(),
            closed_proposal: None,
            defmi_settlement_receipt: None,
        };
        self.cycles.insert(request.cycle_id, cycle);
        self.consume_operation(&request.operation_id)
    }

    /// Books an obligation whose instruction the source verifies.
    pub fn submit_obligation<P: InstructionPort>(
        &mut self,
        obligation: ClearingObligation,
        instructions: &P,
        now: u64,
    ) -> (r: Result<(), DeCcpError>)
        ensures
            match old(self)@.submission_refusal(obligation, now) {
                Some(error) => r == Err::<(), DeCcpError>(error) && final(self)@ == old(self)@,
                None => exists|reply: Result<(), String>|
                    {
                        &&& #[trigger] call_ensures(
                            P::verify_obligation,
                            (instructions, &obligation, now),
                            reply,
                        )
                        &&& (r, final(self)@) == old(self)@.obligation_submitted(obligation, reply)
                    },
            },
    {
        obligation.validate()?;
        self.active_participant(&obligation.payer_id, now)?;
        self.active_participant(&obligation.payee_id, now)?;
        let reply = instructions.verify_obligation(&obligation, now);
        self.book_obligation(obligation, reply)
    }

    fn book_obligation(&mut self, obligation: ClearingObligation, reply: Result<(), String>) -> (r:
        Result<(), DeCcpError>)
        requires
            obligation.well_formed(),
        ensures
            (r, final(self)@) == old(self)@.obligation_submitted(obligation, reply),
    {
        if let Err(message) = reply {
            return Err(DeCcpError::InstructionRejected(message));
        }
        if self.operation_used(&obligation.operation_id) || self.obligations.contains_key(
            &obligation.obligation_id,
        ) {
            return Err(DeCcpError::DuplicateObligation);
        }
        match self.cycles.get(&obligation.cycle_id) {
            None => {
                return Err(DeCcpError::UnknownCycle);
            },
            Some(cycle) => {
                if cycle.status != CycleStatus::Open {
                    return Err(DeCcpError::CycleNotOpen);
                }
            },
        }
        let ghost before = self@;
        if let Some(mut cycle) = self.cycles.remove(&obligation.cycle_id) {
            cycle.obligations.push(obligation.obligation_id);
            self.cycles.insert(obligation.cycle_id, cycle);
        }
        self.obligations.insert(obligation.obligation_id, obligation);
        proof {
            let ids = seq![
                obligation.operation_id,
                obligation.obligation_id,
                obligation.cycle_id,
                obligation.payer_id,
                obligation.payee_id,
                obligation.asset_id,
                obligation.zkpi_digest,
            ];
            assert(!has_zero(ids));
            assert(ids[0] != ZERO);
            let cycle = before.cycles[obligation.cycle_id];
            assert(self@.cycles =~= before.cycles.insert(
                obligation.cycle_id,
                CycleView {
                    obligations: cycle.obligations.push(obligation.obligation_id),
                    ..cycle
                },
            ));
        }
        self.consume_operation(&obligation.operation_id)
    }

    /// The obligations of a cycle in order, if none is missing.
    fn gather(&self, ids: &Vec<Identifier>) -> (r: Option<Vec<ClearingObligation>>)
        ensures
            match r {
                Some(batch) => batch@ == obligations_in_order(
                    ids@.map_values(|id: Identifier| self@.obligations[id]),
                ) && forall|i: int|
                    0 <= i < ids@.len() ==> self@.obligations.contains_key(#[trigger] ids@[i]),
                None => exists|i: int|
                    0 <= i < ids@.len() && !self@.obligations.contains_key(#[trigger] ids@[i]),
            },
    {
        let ghost found_at = |id: Identifier| self@.obligations[id];
        let mut batch: Vec<ClearingObligation> = Vec::new();
        let mut i: usize = 0;
        while i < ids.len()
            invariant
                i <= ids@.len(),
                found_at == (|id: Identifier| self@.obligations[id]),
                batch@ == obligations_in_order(ids@.take(i as int).map_values(found_at)),
                forall|j: int| 0 <= j < i ==> self@.obligations.contains_key(#[trigger] ids@[j]),
            decreases ids@.len() - i,
        {
            match self.obligations.get(&ids[i]) {
                None => {
                    return None;
                },
                Some(found) => {
                    proof {
                        let more = ids@.take(i + 1).map_values(found_at);
                        assert(more.drop_last() =~= ids@.take(i as int).map_values(found_at));
                        assert(more.last() == *found);
                    }
                    place_obligation(&mut batch, *found);
                },
            }
            i = i + 1;
        }
        assert(ids@.take(i as int) =~= ids@);
        Some(batch)
    }

    /// Checks, in order, that margin covers each debit.
    fn check_margins(&self, debits: &IdMap<u128>) -> (r: Result<(), DeCcpError>)
        ensures
            r == (match self@.margin_refusal(ascending(debits@.dom()), debits@) {
                Some(error) => Err::<(), DeCcpError>(error),
                None => Ok(()),
            }),
    {
        let ghost members = ascending(debits@.dom());
        let count: usize = debits.len();
        let mut i: usize = 0;
        while i < count
            invariant
                i <= count,
                count == members.len(),
                count == debits@.dom().len(),
                members == ascending(debits@.dom()),
                self@.margin_refusal(members.take(i as int), debits@) is None,
            decreases count - i,
        {
            let member = debits.key_at(i);
            let debit: u128 = *debits.value_at(i);
            proof {
                assert(members.take(i + 1).drop_last() =~= members.take(i as int));
                assert(members.take(i + 1).last() == member);
            }
            match self.margins.get(&member) {
                None => {
                    proof {
                        self@.lemma_margin_refusal_stays(members, i + 1, debits@);
                    }
                    return Err(DeCcpError::UnknownParticipant);
                },
                Some(margin) => {
                    if margin.encumbered_collateral < debit {
                        proof {
                            self@.lemma_margin_refusal_stays(members, i + 1, debits@);
                        }
                        return Err(DeCcpError::InsufficientMargin);
                    }
                },
            }
            i = i + 1;
        }
        assert(members.take(i as int) =~= members);
        Ok(())
    }

    /// How a cycle would be closed: the legs that settle its obligations, and
    /// the margin that each debtor's risk calls on, which must be covered.
    pub fn prepare_close(&self, cycle_id: &Identifier) -> (r: Result<NettingProposal, DeCcpError>)
        ensures
            match self@.closing(*cycle_id) {
                Ok(proposal) => r is Ok && r->Ok_0@ == proposal,
                Err(error) => r == Err::<NettingProposal, DeCcpError>(error),
            },
    {
        match self.cycles.get(cycle_id) {
            None => Err(DeCcpError::UnknownCycle),
            Some(cycle) => {
                if cycle.status != CycleStatus::Open || cycle.obligations.len() == 0 {
                    return Err(DeCcpError::CycleNotOpen);
                }
                match self.gather(&cycle.obligations) {
                    None => Err(DeCcpError::InvalidState),
                    Some(batch) => self.propose(cycle_id, cycle, batch),
                }
            },
        }
    }

    fn propose(
        &self,
        cycle_id: &Identifier,
        cycle: &NettingCycle,
        batch: Vec<ClearingObligation>,
    ) -> (r: Result<NettingProposal, DeCcpError>)
        requires
            self@.cycles.contains_key(*cycle_id),
            cycle@ == self@.cycles[*cycle_id],
            cycle@.status == CycleStatus::Open,
            cycle@.obligations.len() != 0,
            forall|i: int|
                0 <= i < cycle@.obligations.len() ==> self@.obligations.contains_key(
                    #[trigger] cycle@.obligations[i],
                ),
            batch@ == self@.batch(cycle@),
        ensures
            match self@.closing(*cycle_id) {
                Ok(proposal) => r is Ok && r->Ok_0@ == proposal,
                Err(error) => r == Err::<NettingProposal, DeCcpError>(error),
            },
    {
        let root = obligation_root(&batch)?;
        let netting = book_batch(&batch, cycle.mode, &cycle.settlement_asset_id)?;
        let legs = settle_batch(
            &batch,
            &netting,
            cycle.mode,
            &cycle.settlement_asset_id,
            cycle_id,
            &root,
        )?;
        let debits = collect_debits(
            &netting,
            cycle.mode,
            Ghost(batch@),
            Ghost(cycle.settlement_asset_id),
        );
        self.check_margins(&debits)?;
        let proposal_digest = netting_proposal_digest(cycle_id, cycle.mode, &root, &legs, &debits);
        Ok(
            NettingProposal {
                cycle_id: *cycle_id,
                mode: cycle.mode,
                obligation_root: root,
                legs,
                risk_debits: debits,
                proposal_digest,
            },
        )
    }

    /// Closes a cycle with a proposal that a quorum approved and that is still
    /// the one the book prepares.
    pub fn commit_close(
        &mut self,
        proposal: NettingProposal,
        approval: &QuorumApproval,
        now: u64,
    ) -> (r: Result<(), DeCcpError>)
        ensures
            (r, final(self)@) == old(self)@.close_committed(proposal@, approval@, now),
    {
        self.authorities.verify(&proposal.proposal_digest, approval, now)?;
        let expected = self.prepare_close(&proposal.cycle_id)?;
        if !expected.matches(&proposal) {
            return Err(DeCcpError::InvalidNettingProposal);
        }
        let ghost before = self@;
        let ghost wanted = proposal@;
        let cycle_id = proposal.cycle_id;
        match self.cycles.remove(&cycle_id) {
            None => Err(DeCcpError::UnknownCycle),
            Some(mut cycle) => {
                cycle.status = CycleStatus::Closed;
                cycle.closed_proposal = Some(proposal);
                self.cycles.insert(cycle_id, cycle);
                proof {
                    assert(self@.cycles =~= before.cycles.insert(
                        cycle_id,
                        CycleView {
                            status: CycleStatus::Closed,
                            closed_proposal: Some(wanted),
                            ..before.cycles[cycle_id]
                        },
                    ));
                }
                Ok(())
            },
        }
    }

    /// Records that the settlement layer finalized a closed cycle.
    pub fn record_cycle_settlement<P: DeFmiPort>(
        &mut self,
        cycle_id: &Identifier,
        proposal_digest: Digest32,
        receipt: DefmiSettlementReceipt,
        defmi: &P,
        now: u64,
    ) -> (r: Result<(), DeCcpError>)
        ensures
            match old(self)@.settlement_refusal(proposal_digest, receipt) {
                Some(error) => r == Err::<(), DeCcpError>(error) && final(self)@ == old(self)@,
                None => exists|reply: Result<(), String>|
                    {
                        &&& #[trigger] call_ensures(
                            P::verify_settlement,
                            (defmi, &proposal_digest, &receipt, now),
                            reply,
                        )
                        &&& (r, final(self)@) == old(self)@.cycle_settled(
                            *cycle_id,
                            proposal_digest,
                            receipt,
                            reply,
                        )
                    },
            },
    {
        if is_zero(&receipt.receipt_digest) || !same_id(&receipt.context_digest, &proposal_digest) {
            return Err(DeCcpError::InvalidSettlementReceipt);
        }
        let reply = defmi.verify_settlement(&proposal_digest, &receipt, now);
        self.settle_cycle(cycle_id, proposal_digest, receipt, reply)
    }

    fn settle_cycle(
        &mut self,
        cycle_id: &Identifier,
        proposal_digest: Digest32,
        receipt: DefmiSettlementReceipt,
        reply: Result<(), String>,
    ) -> (r: Result<(), DeCcpError>)
        ensures
            (r, final(self)@) == old(self)@.cycle_settled(
                *cycle_id,
                proposal_digest,
                receipt,
                reply,
            ),
    {
        if let Err(message) = reply {
            return Err(DeCcpError::DeFmiEvidenceRejected(message));
        }
        match self.cycles.get(cycle_id) {
            None => {
                return Err(DeCcpError::UnknownCycle);
            },
            Some(cycle) => {
                let named = match &cycle.closed_proposal {
                    Some(proposal) => same_id(&proposal.proposal_digest, &proposal_digest),
                    None => false,
                };
                if cycle.status != CycleStatus::Closed || !named {
                    return Err(DeCcpError::InvalidSettlementReceipt);
                }
            },
        }
        let ghost before = self@;
        if let Some(mut cycle) = self.cycles.remove(cycle_id) {
            cycle.status = CycleStatus::Settled;
            cycle.defmi_settlement_receipt = Some(receipt.receipt_digest);
            self.cycles.insert(*cycle_id, cycle);
        }
        proof {
            assert(self@.cycles =~= before.cycles.insert(
                *cycle_id,
                CycleView {
                    status: CycleStatus::Settled,
                    defmi_settlement_receipt: Some(receipt.receipt_digest),
                    ..before.cycles[*cycle_id]
                },
            ));
        }
        Ok(())
    }
}

impl BookState {
    /// Once one debit is not covered, more members change nothing.
    proof fn lemma_margin_refusal_stays(
        self,
        members: Seq<Identifier>,
        from: int,
        debits: Map<Identifier, u128>,
    )
        requires
            0 <= from <= members.len(),
            self.margin_refusal(members.take(from), debits) is Some,
        ensures
            self.margin_refusal(members, debits) == self.margin_refusal(
                members.take(from),
                debits,
            ),
        decreases members.len(),
    {
        if from == members.len() {
            assert(members.take(from) =~= members);
        } else {
            assert(members.drop_last().take(from) =~= members.take(from));
            self.lemma_margin_refusal_stays(members.drop_last(), from, debits);
        }
    }
}

} // verus!
