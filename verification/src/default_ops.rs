//! Default operations of the clearing book: declare, resolve, commit.

use vstd::prelude::*;

use crate::authority::{ApprovalView, QuorumApproval};
use crate::book::{BookState, ClearingBook, Outcome};
use crate::defaults::{
    default_declaration_approval_digest, default_resolution_digest, default_settlement_context,
    default_statement, resolution_statement, settlement_context, CaseView, DefaultCase,
    DefaultEvidence, DefaultResolution, DefaultSourceKind, ResolutionView, WaterfallDraw,
};
use crate::error::DeCcpError;
use crate::guarantees::DefmiSettlementReceipt;
use crate::ident::{any_zero, ascending, has_zero, is_zero, same_id, Identifier, ZERO};
use crate::members::{MarginAccount, Participant, ParticipantStatus};
use crate::ports::DeFmiPort;

verus! {

/// What is still uncovered after drawing on sources in order, each up to its
/// amount.
pub open spec fn uncovered(sources: Seq<WaterfallDraw>, loss: int) -> int
    decreases sources.len(),
{
    if sources.len() == 0 {
        loss
    } else {
        let open = uncovered(sources.drop_last(), loss);
        if sources.last().amount <= open {
            open - sources.last().amount
        } else {
            0
        }
    }
}

/// What is drawn on sources in order: from each as much as it has and the loss
/// still needs. A source that pays nothing is left out.
pub open spec fn drawn(sources: Seq<WaterfallDraw>, loss: int) -> Seq<WaterfallDraw>
    decreases sources.len(),
{
    if sources.len() == 0 {
        Seq::empty()
    } else {
        let before = drawn(sources.drop_last(), loss);
        let open = uncovered(sources.drop_last(), loss);
        let amount = if sources.last().amount <= open {
            sources.last().amount as int
        } else {
            open
        };
        if amount > 0 {
            before.push(WaterfallDraw { amount: amount as u128, ..sources.last() })
        } else {
            before
        }
    }
}

/// Draws on one source.
fn draw_layer(
    draws: &mut Vec<WaterfallDraw>,
    source_kind: DefaultSourceKind,
    participant_id: Option<Identifier>,
    available: u128,
    remaining: &mut u128,
    Ghost(sources): Ghost<Seq<WaterfallDraw>>,
    Ghost(loss): Ghost<int>,
)
    requires
        old(draws)@ == drawn(sources, loss),
        *old(remaining) == uncovered(sources, loss),
    ensures
        final(draws)@ == drawn(
            sources.push(WaterfallDraw { source_kind, participant_id, amount: available }),
            loss,
        ),
        *final(remaining) == uncovered(
            sources.push(WaterfallDraw { source_kind, participant_id, amount: available }),
            loss,
        ),
{
    let ghost source = WaterfallDraw { source_kind, participant_id, amount: available };
    assert(sources.push(source).drop_last() =~= sources);
    let amount: u128 = if available <= *remaining {
        available
    } else {
        *remaining
    };
    if amount > 0 {
        draws.push(WaterfallDraw { source_kind, participant_id, amount });
        *remaining = *remaining - amount;
    }
}

impl BookState {
    /// Declares a member's default.
    pub open spec fn default_declared(
        self,
        operation_id: Identifier,
        case_id: Identifier,
        evidence: DefaultEvidence,
        approval: ApprovalView,
        now: u64,
    ) -> Outcome {
        let member = evidence.participant_id;
        if has_zero(
            seq![
                operation_id,
                case_id,
                evidence.event_id,
                evidence.source_id,
                evidence.participant_id,
                evidence.event_digest,
            ],
        ) || evidence.observed_at > now || self.used_operations.contains(operation_id)
            || self.defaults.contains_key(case_id) {
            (Err(DeCcpError::InvalidDefault), self)
        } else if self.inactivity(member, now) is Some {
            (Err(self.inactivity(member, now)->0), self)
        } else {
            match self.authorities.refusal(
                default_statement(operation_id, case_id, evidence, now),
                approval,
                Some(now),
            ) {
                Some(error) => (Err(error), self),
                None => (
                    Ok(()),
                    BookState {
                        participants: self.participants.insert(
                            member,
                            Participant {
                                status: ParticipantStatus::Defaulted,
                                ..self.participants[member]
                            },
                        ),
                        defaults: self.defaults.insert(
                            case_id,
                            CaseView {
                                case_id,
                                evidence,
                                declared_at: now,
                                resolution: None,
                                defmi_settlement_receipt: None,
                            },
                        ),
                        ..self
                    }.with_operation(operation_id),
                ),
            }
        }
    }

    /// What the active members under `keys` other than the defaulter have left
    /// in the default fund.
    pub open spec fn mutual_sources(
        self,
        keys: Seq<Identifier>,
        defaulter: Identifier,
    ) -> Seq<WaterfallDraw>
        decreases keys.len(),
    {
        if keys.len() == 0 {
            Seq::empty()
        } else {
            let before = self.mutual_sources(keys.drop_last(), defaulter);
            let member = self.participants[keys.last()];
            if member.participant_id != defaulter && member.status == ParticipantStatus::Active {
                before.push(
                    WaterfallDraw {
                        source_kind: DefaultSourceKind::MutualizedFund,
                        participant_id: Some(member.participant_id),
                        amount: member.default_fund_remaining,
                    },
                )
            } else {
                before
            }
        }
    }

    /// The two sources that the defaulter itself provides: its encumbered
    /// margin, then its own default-fund contribution.
    pub open spec fn own_sources(self, defaulter: Identifier) -> Seq<WaterfallDraw> {
        seq![
            WaterfallDraw {
                source_kind: DefaultSourceKind::DefaulterMargin,
                participant_id: Some(defaulter),
                amount: self.margins[defaulter].encumbered_collateral,
            },
            WaterfallDraw {
                source_kind: DefaultSourceKind::DefaulterFund,
                participant_id: Some(defaulter),
                amount: self.participants[defaulter].default_fund_remaining,
            },
        ]
    }

    /// The sources of the loss waterfall in order: the defaulter's margin, the
    /// defaulter's fund, the other active members' funds in ascending order, and
    /// the counterparty's own capital last.
    pub open spec fn waterfall(self, defaulter: Identifier) -> Seq<WaterfallDraw> {
        (self.own_sources(defaulter) + self.mutual_sources(
            ascending(self.participants.dom()),
            defaulter,
        )).push(
            WaterfallDraw {
                source_kind: DefaultSourceKind::CcpCapital,
                participant_id: None,
                amount: self.ccp_capital_remaining,
            },
        )
    }

    /// How a loss of a declared default would be covered, or why it cannot be.
    pub open spec fn resolution(self, case_id: Identifier, shortfall: u128) -> Result<
        ResolutionView,
        DeCcpError,
    > {
        let case = self.defaults[case_id];
        let defaulter = case.evidence.participant_id;
        let sources = self.waterfall(defaulter);
        let draws = drawn(sources, shortfall as int);
        let context = settlement_context(case_id, draws);
        if shortfall == 0 {
            Err(DeCcpError::InvalidDefault)
        } else if !self.defaults.contains_key(case_id) {
            Err(DeCcpError::UnknownDefault)
        } else if case.resolution is Some {
            Err(DeCcpError::DefaultAlreadyResolved)
        } else if self.ccp_capital_valid_until < case.declared_at {
            Err(DeCcpError::InvalidCapital)
        } else if !self.margins.contains_key(defaulter) || !self.participants.contains_key(
            defaulter,
        ) {
            Err(DeCcpError::UnknownParticipant)
        } else if uncovered(sources, shortfall as int) != 0 {
            Err(DeCcpError::WaterfallExhausted)
        } else {
            Ok(
                ResolutionView {
                    case_id,
                    participant_id: defaulter,
                    shortfall,
                    draws,
                    settlement_context_digest: context,
                    resolution_digest: resolution_statement(
                        case_id,
                        defaulter,
                        shortfall,
                        draws,
                        context,
                    ),
                },
            )
        }
    }

    /// Takes one draw from the account it names.
    pub open spec fn draw_applied(self, draw: WaterfallDraw) -> Outcome {
        match draw.source_kind {
            DefaultSourceKind::DefaulterMargin => match draw.participant_id {
                None => (Err(DeCcpError::InvalidState), self),
                Some(member) => if !self.margins.contains_key(member) {
                    (Err(DeCcpError::UnknownParticipant), self)
                } else if self.margins[member].encumbered_collateral < draw.amount {
                    (Err(DeCcpError::InvalidState), self)
                } else {
                    (
                        Ok(()),
                        BookState {
                            margins: self.margins.insert(
                                member,
                                MarginAccount {
                                    encumbered_collateral: (
                                    self.margins[member].encumbered_collateral
                                        - draw.amount) as u128,
                                    ..self.margins[member]
                                },
                            ),
                            ..self
                        },
                    )
                },
            },
            DefaultSourceKind::CcpCapital => if self.ccp_capital_remaining < draw.amount {
                (Err(DeCcpError::InvalidState), self)
            } else {
                (
                    Ok(()),
                    BookState {
                        ccp_capital_remaining: (self.ccp_capital_remaining - draw.amount) as u128,
                        ..self
                    },
                )
            },
            _ => match draw.participant_id {
                None => (Err(DeCcpError::InvalidState), self),
                Some(member) => if !self.participants.contains_key(member) {
                    (Err(DeCcpError::UnknownParticipant), self)
                } else if self.participants[member].default_fund_remaining < draw.amount {
                    (Err(DeCcpError::InvalidState), self)
                } else {
                    (
                        Ok(()),
                        BookState {
                            participants: self.participants.insert(
                                member,
                                Participant {
                                    default_fund_remaining: (
                                    self.participants[member].default_fund_remaining
                                        - draw.amount) as u128,
                                    ..self.participants[member]
                                },
                            ),
                            ..self
                        },
                    )
                },
            },
        }
    }

    /// Takes draws in order, up to the first that cannot be taken.
    pub open spec fn draws_applied(self, draws: Seq<WaterfallDraw>) -> Outcome
        decreases draws.len(),
    {
        if draws.len() == 0 {
            (Ok(()), self)
        } else {
            let before = self.draws_applied(draws.drop_last());
            match before.0 {
                Err(_) => before,
                Ok(_) => before.1.draw_applied(draws.last()),
            }
        }
    }

    /// Why a resolution is refused before the settlement layer is asked.
    pub open spec fn resolution_refusal(
        self,
        resolution: ResolutionView,
        approval: ApprovalView,
        receipt: DefmiSettlementReceipt,
        now: u64,
    ) -> Option<DeCcpError> {
        match self.authorities.refusal(resolution.resolution_digest, approval, Some(now)) {
            Some(error) => Some(error),
            None => match self.resolution(resolution.case_id, resolution.shortfall) {
                Err(error) => Some(error),
                Ok(expected) => if expected != resolution || receipt.receipt_digest == ZERO
                    || receipt.context_digest != resolution.settlement_context_digest
                    || self.ccp_capital_valid_until < now {
                    Some(DeCcpError::InvalidDefaultResolution)
                } else {
                    None
                },
            },
        }
    }

    /// Covers a loss after the settlement layer replied about the draws.
    pub open spec fn resolution_committed(
        self,
        resolution: ResolutionView,
        receipt: DefmiSettlementReceipt,
        reply: Result<(), String>,
    ) -> Outcome {
        match reply {
            Err(message) => (Err(DeCcpError::DeFmiEvidenceRejected(message)), self),
            Ok(_) => {
                let paid = self.draws_applied(resolution.draws);
                match paid.0 {
                    Err(_) => paid,
                    Ok(_) => (
                        Ok(()),
                        BookState {
                            defaults: paid.1.defaults.insert(
                                resolution.case_id,
                                CaseView {
                                    resolution: Some(resolution),
                                    defmi_settlement_receipt: Some(receipt.receipt_digest),
                                    ..paid.1.defaults[resolution.case_id]
                                },
                            ),
                            ..paid.1
                        },
                    ),
                }
            },
        }
    }

    /// Draws leave the default cases alone.
    proof fn lemma_draws_keep_cases(self, draws: Seq<WaterfallDraw>)
        ensures
            self.draws_applied(draws).1.defaults == self.defaults,
        decreases draws.len(),
    {
        if draws.len() > 0 {
            self.lemma_draws_keep_cases(draws.drop_last());
        }
    }

    /// Once a draw cannot be taken, more draws change nothing.
    proof fn lemma_failed_draws_stay(self, draws: Seq<WaterfallDraw>, from: int)
        requires
            0 <= from <= draws.len(),
            self.draws_applied(draws.take(from)).0 is Err,
        ensures
            self.draws_applied(draws) == self.draws_applied(draws.take(from)),
        decreases draws.len(),
    {
        if from == draws.len() {
            assert(draws.take(from) =~= draws);
        } else {
            assert(draws.drop_last().take(from) =~= draws.take(from));
            self.lemma_failed_draws_stay(draws.drop_last(), from);
        }
    }
}

impl ClearingBook {
    /// Declares the default of an active member, as a quorum approved.
    pub fn declare_default(
        &mut self,
        operation_id: Identifier,
        case_id: Identifier,
        evidence: DefaultEvidence,
        approval: &QuorumApproval,
        now: u64,
    ) -> (r: Result<(), DeCcpError>)
        ensures
            (r, final(self)@) == old(self)@.default_declared(
                operation_id,
                case_id,
                evidence,
                approval@,
                now,
            ),
    {
        let required = [
            operation_id,
            case_id,
            evidence.event_id,
            evidence.source_id,
            evidence.participant_id,
            evidence.event_digest,
        ];
        if any_zero(&required) || evidence.observed_at > now || self.operation_used(&operation_id)
            || self.defaults.contains_key(&case_id) {
            return Err(DeCcpError::InvalidDefault);
        }
        assert(required@[0] != ZERO);
        self.active_participant(&evidence.participant_id, now)?;
        let statement = default_declaration_approval_digest(
            &operation_id,
            &case_id,
            &evidence,
            now,
        );
        self.authorities.verify(&statement, approval, now)?;
        let mut member: Participant = match self.participants.get(&evidence.participant_id) {
            Some(found) => *found,
            None => {
                return Err(DeCcpError::UnknownParticipant);
            },
        };
        member.status = ParticipantStatus::Defaulted;
        self.participants.insert(evidence.participant_id, member);
        let case = DefaultCase {
            case_id,
            evidence,
            declared_at: now,
            resolution: None,
            defmi_settlement_receipt: None,
        };
        self.defaults.insert(case_id, case);
        self.consume_operation(&operation_id)
    }

    /// How a loss of a declared default would be covered: layer by layer, in
    /// the fixed order of the waterfall.
    pub fn prepare_default_resolution(&self, case_id: &Identifier, shortfall: u128) -> (r: Result<
        DefaultResolution,
        DeCcpError,
    >)
        ensures
            match self@.resolution(*case_id, shortfall) {
                Ok(resolution) => r is Ok && r->Ok_0@ == resolution,
                Err(error) => r == Err::<DefaultResolution, DeCcpError>(error),
            },
    {
        if shortfall == 0 {
            return Err(DeCcpError::InvalidDefault);
        }
        let defaulter: Identifier = match self.defaults.get(case_id) {
            None => {
                return Err(DeCcpError::UnknownDefault);
            },
            Some(case) => {
                if case.resolution.is_some() {
                    return Err(DeCcpError::DefaultAlreadyResolved);
                }
                if self.ccp_capital_valid_until < case.declared_at {
                    return Err(DeCcpError::InvalidCapital);
                }
                case.evidence.participant_id
            },
        };
        let margin: u128 = match self.margins.get(&defaulter) {
            Some(account) => account.encumbered_collateral,
            None => {
                return Err(DeCcpError::UnknownParticipant);
            },
        };
        let own_fund: u128 = match self.participants.get(&defaulter) {
            Some(member) => member.default_fund_remaining,
            None => {
                return Err(DeCcpError::UnknownParticipant);
            },
        };
        let (draws, remaining) = self.run_waterfall(&defaulter, margin, own_fund, shortfall);
        if remaining != 0 {
            return Err(DeCcpError::WaterfallExhausted);
        }
        let settlement_context_digest = default_settlement_context(case_id, &draws);
        let resolution_digest = default_resolution_digest(
            case_id,
            &defaulter,
            shortfall,
            &draws,
            &settlement_context_digest,
        );
        Ok(
            DefaultResolution {
                case_id: *case_id,
                participant_id: defaulter,
                shortfall,
                draws,
                settlement_context_digest,
                resolution_digest,
            },
        )
    }

    fn run_waterfall(
        &self,
        defaulter: &Identifier,
        margin: u128,
        own_fund: u128,
        shortfall: u128,
    ) -> (r: (Vec<WaterfallDraw>, u128))
        requires
            margin == self@.margins[*defaulter].encumbered_collateral,
            own_fund == self@.participants[*defaulter].default_fund_remaining,
        ensures
            r.0@ == drawn(self@.waterfall(*defaulter), shortfall as int),
            r.1 == uncovered(self@.waterfall(*defaulter), shortfall as int),
    {
        let ghost loss = shortfall as int;
        let ghost mut sources = Seq::<WaterfallDraw>::empty();
        let mut remaining: u128 = shortfall;
        let mut draws: Vec<WaterfallDraw> = Vec::new();
        draw_layer(
            &mut draws,
            DefaultSourceKind::DefaulterMargin,
            Some(*defaulter),
            margin,
            &mut remaining,
            Ghost(sources),
            Ghost(loss),
        );
        proof {
            sources = sources.push(
                WaterfallDraw {
                    source_kind: DefaultSourceKind::DefaulterMargin,
                    participant_id: Some(*defaulter),
                    amount: margin,
                },
            );
        }
        draw_layer(
            &mut draws,
            DefaultSourceKind::DefaulterFund,
            Some(*defaulter),
            own_fund,
            &mut remaining,
            Ghost(sources),
            Ghost(loss),
        );
        let ghost own = self@.own_sources(*defaulter);
        let ghost keys = ascending(self@.participants.dom());
        proof {
            sources = sources.push(
                WaterfallDraw {
                    source_kind: DefaultSourceKind::DefaulterFund,
                    participant_id: Some(*defaulter),
                    amount: own_fund,
                },
            );
            assert(sources =~= own + self@.mutual_sources(keys.take(0), *defaulter));
        }
        let count: usize = self.participants.len();
        let mut i: usize = 0;
        while i < count
            invariant
                i <= count,
                count == keys.len(),
                count == self@.participants.dom().len(),
                keys == ascending(self@.participants.dom()),
                sources == own + self@.mutual_sources(keys.take(i as int), *defaulter),
                draws@ == drawn(sources, loss),
                remaining == uncovered(sources, loss),
            decreases count - i,
        {
            let member = self.participants.value_at(i);
            proof {
                assert(keys.take(i + 1).drop_last() =~= keys.take(i as int));
                assert(keys.take(i + 1).last() == keys[i as int]);
            }
            if !same_id(&member.participant_id, defaulter) && member.status
                == ParticipantStatus::Active {
                draw_layer(
                    &mut draws,
                    DefaultSourceKind::MutualizedFund,
                    Some(member.participant_id),
                    member.default_fund_remaining,
                    &mut remaining,
                    Ghost(sources),
                    Ghost(loss),
                );
                proof {
                    sources = sources.push(
                        WaterfallDraw {
                            source_kind: DefaultSourceKind::MutualizedFund,
                            participant_id: Some(member.participant_id),
                            amount: member.default_fund_remaining,
                        },
                    );
                    assert(sources =~= own + self@.mutual_sources(keys.take(i + 1), *defaulter));
                }
            }
            i = i + 1;
        }
        assert(keys.take(i as int) =~= keys);
        draw_layer(
            &mut draws,
            DefaultSourceKind::CcpCapital,
            None,
            self.ccp_capital_remaining,
            &mut remaining,
            Ghost(sources),
            Ghost(loss),
        );
        (draws, remaining)
    }

    /// Covers a loss as a quorum approved, once the settlement layer confirms
    /// that the draws were settled.
    pub fn commit_default_resolution<P: DeFmiPort>(
        &mut self,
        resolution: DefaultResolution,
        approval: &QuorumApproval,
        receipt: DefmiSettlementReceipt,
        defmi: &P,
        now: u64,
    ) -> (r: Result<(), DeCcpError>)
        ensures
            match old(self)@.resolution_refusal(resolution@, approval@, receipt, now) {
                Some(error) => r == Err::<(), DeCcpError>(error) && final(self)@ == old(self)@,
                None => exists|reply: Result<(), String>|
                    {
                        &&& #[trigger] call_ensures(
                            P::verify_settlement,
                            (defmi, &resolution.settlement_context_digest, &receipt, now),
                            reply,
                        )
                        &&& (r, final(self)@) == old(self)@.resolution_committed(
                            resolution@,
                            receipt,
                            reply,
                        )
                    },
            },
    {
        self.authorities.verify(&resolution.resolution_digest, approval, now)?;
        let expected = self.prepare_default_resolution(&resolution.case_id, resolution.shortfall)?;
        if !expected.matches(&resolution) || is_zero(&receipt.receipt_digest) || !same_id(
            &receipt.context_digest,
            &resolution.settlement_context_digest,
        ) || self.ccp_capital_valid_until < now {
            return Err(DeCcpError::InvalidDefaultResolution);
        }
        let reply = defmi.verify_settlement(&resolution.settlement_context_digest, &receipt, now);
        self.book_resolution(resolution, receipt, reply)
    }

    fn book_resolution(
        &mut self,
        resolution: DefaultResolution,
        receipt: DefmiSettlementReceipt,
        reply: Result<(), String>,
    ) -> (r: Result<(), DeCcpError>)
        requires
            old(self)@.defaults.contains_key(resolution.case_id),
        ensures
            (r, final(self)@) == old(self)@.resolution_committed(resolution@, receipt, reply),
    {
        if let Err(message) = reply {
            return Err(DeCcpError::DeFmiEvidenceRejected(message));
        }
        let ghost start = self@;
        let ghost draws = resolution@.draws;
        let mut i: usize = 0;
        assert(draws.take(0) =~= Seq::<WaterfallDraw>::empty());
        while i < resolution.draws.len()
            invariant
                i <= resolution.draws@.len(),
                draws == resolution.draws@,
                reply is Ok,
                start == old(self)@,
                start.draws_applied(draws.take(i as int)) == (Ok::<(), DeCcpError>(()), self@),
            decreases resolution.draws@.len() - i,
        {
            let draw: WaterfallDraw = resolution.draws[i];
            proof {
                assert(draws.take(i + 1).drop_last() =~= draws.take(i as int));
                assert(draws.take(i + 1).last() == draw);
            }
            let step = self.take_draw(draw);
            if step.is_err() {
                proof {
                    start.lemma_failed_draws_stay(draws, i + 1);
                }
                return step;
            }
            i = i + 1;
        }
        assert(draws.take(i as int) =~= draws);
        let ghost paid = self@;
        let ghost wanted = resolution@;
        proof {
            start.lemma_draws_keep_cases(draws);
        }
        let case_id = resolution.case_id;
        match self.defaults.remove(&case_id) {
            None => Err(DeCcpError::UnknownDefault),
            Some(mut case) => {
                case.resolution = Some(resolution);
                case.defmi_settlement_receipt = Some(receipt.receipt_digest);
                self.defaults.insert(case_id, case);
                proof {
                    assert(self@.defaults =~= paid.defaults.insert(
                        case_id,
                        CaseView {
                            resolution: Some(wanted),
                            defmi_settlement_receipt: Some(receipt.receipt_digest),
                            ..paid.defaults[case_id]
                        },
                    ));
                }
                Ok(())
            },
        }
    }

    /// Takes one draw from the account it names.
    fn take_draw(&mut self, draw: WaterfallDraw) -> (r: Result<(), DeCcpError>)
        ensures
            (r, final(self)@) == old(self)@.draw_applied(draw),
    {
        match draw.source_kind {
            DefaultSourceKind::DefaulterMargin => match draw.participant_id {
                None => Err(DeCcpError::InvalidState),
                Some(member) => match self.margins.get(&member) {
                    None => Err(DeCcpError::UnknownParticipant),
                    Some(found) => {
                        let mut account: MarginAccount = *found;
                        if account.encumbered_collateral < draw.amount {
                            return Err(DeCcpError::InvalidState);
                        }
                        account.encumbered_collateral =
                        account.encumbered_collateral - draw.amount;
                        self.margins.insert(member, account);
                        Ok(())
                    },
                },
            },
            DefaultSourceKind::CcpCapital => {
                if self.ccp_capital_remaining < draw.amount {
                    return Err(DeCcpError::InvalidState);
                }
                self.ccp_capital_remaining = self.ccp_capital_remaining - draw.amount;
                Ok(())
            },
            _ => match draw.participant_id {
                None => Err(DeCcpError::InvalidState),
                Some(member) => match self.participants.get(&member) {
                    None => Err(DeCcpError::UnknownParticipant),
                    Some(found) => {
                        let mut account: Participant = *found;
                        if account.default_fund_remaining < draw.amount {
                            return Err(DeCcpError::InvalidState);
                        }
                        account.default_fund_remaining =
                        account.default_fund_remaining - draw.amount;
                        self.participants.insert(member, account);
                        Ok(())
                    },
                },
            },
        }
    }
}

} // verus!
