//! Member operations of the clearing book: admission, collateral, margin.

use vstd::prelude::*;

use crate::authority::{ApprovalView, QuorumApproval};
use crate::book::{BookState, ClearingBook, Outcome};
use crate::error::DeCcpError;
use crate::ident::{has_zero, is_zero, ZERO};
use crate::members::{
    CollateralLot, MarginAccount, MarginUpdate, Participant, ParticipantAdmission, ParticipantStatus,
    VerifiedAdmission,
};
use crate::ports::{DeFmiPort, EligibilityPort};

verus! {

impl BookState {
    /// Why an admission is refused before any evidence service is asked.
    pub open spec fn admission_refusal(
        self,
        request: ParticipantAdmission,
        approval: ApprovalView,
        now: u64,
    ) -> Option<DeCcpError> {
        if !request.well_formed() {
            Some(DeCcpError::InvalidParticipant)
        } else if self.authorities.refusal(request.statement(), approval, Some(now)) is Some {
            self.authorities.refusal(request.statement(), approval, Some(now))
        } else if request.admitted_at != now || self.used_operations.contains(
            request.operation_id,
        ) {
            Some(DeCcpError::ReplayOrStaleOperation)
        } else {
            None
        }
    }

    /// The state with a member added, or the refusal of one whose lock or
    /// identifier is taken.
    pub open spec fn member_added(self, request: ParticipantAdmission, now: u64) -> Outcome {
        if self.lock_taken(request.default_fund_defmi_lock_id) {
            (Err(DeCcpError::DuplicateDeFmiReference), self)
        } else if self.participants.contains_key(request.participant_id) {
            (Err(DeCcpError::DuplicateParticipant), self)
        } else {
            (
                Ok(()),
                BookState {
                    participants: self.participants.insert(
                        request.participant_id,
                        Participant {
                            participant_id: request.participant_id,
                            settlement_participant_id: request.settlement_participant_id,
                            eligibility: request.eligibility,
                            default_fund_remaining: request.default_fund_contribution,
                            default_fund_defmi_lock_id: request.default_fund_defmi_lock_id,
                            default_fund_proof_digest: request.default_fund_proof_digest,
                            status: ParticipantStatus::Active,
                            admitted_at: now,
                        },
                    ),
                    margins: self.margins.insert(request.participant_id, MarginAccount::opening()),
                    ..self
                }.with_operation(request.operation_id),
            )
        }
    }

    /// Whether an admission ends in `outcome` when the eligibility service
    /// found `verified` and the settlement layer replied about the default
    /// fund.
    pub open spec fn admission_ends(
        self,
        request: ParticipantAdmission,
        now: u64,
        verified: VerifiedAdmission,
        fund: Result<(), String>,
        outcome: Outcome,
    ) -> bool {
        match fund {
            Err(message) => outcome == (
                Err::<(), DeCcpError>(DeCcpError::DeFmiEvidenceRejected(message)),
                self,
            ),
            Ok(_) => if !verified.repeats(request.eligibility) || self.subject_line_taken(
                verified.subject_line_id,
            ) {
                &&& outcome.1 == self
                &&& outcome.0 matches Err(DeCcpError::EligibilityRejected(message)) && message@
                    == "verified eligibility does not match or is already admitted"@
            } else {
                outcome == self.member_added(request, now)
            },
        }
    }

    /// Why a lot is refused before the settlement layer is asked.
    pub open spec fn posting_refusal(self, lot: CollateralLot, now: u64) -> Option<DeCcpError> {
        if lot.posting_error() is Some {
            lot.posting_error()
        } else {
            self.inactivity(lot.owner_id, now)
        }
    }

    /// Posts a lot after the settlement layer replied about its lock.
    pub open spec fn collateral_posted(
        self,
        lot: CollateralLot,
        reply: Result<(), String>,
        now: u64,
    ) -> Outcome {
        match reply {
            Err(message) => (Err(DeCcpError::DeFmiEvidenceRejected(message)), self),
            Ok(_) => if self.used_operations.contains(lot.operation_id) {
                (Err(DeCcpError::ReplayOrStaleOperation), self)
            } else if lot.valid_until < now {
                (Err(DeCcpError::InvalidCollateral), self)
            } else if self.lock_taken(lot.defmi_lock_id) || self.collateral.contains_key(
                lot.lot_id,
            ) {
                (Err(DeCcpError::DuplicateDeFmiReference), self)
            } else {
                (
                    Ok(()),
                    BookState {
                        collateral: self.collateral.insert(lot.lot_id, lot),
                        ..self
                    }.with_operation(lot.operation_id),
                )
            },
        }
    }

    /// Why a margin update is refused.
    pub open spec fn margin_update_refusal(
        self,
        request: MarginUpdate,
        approval: ApprovalView,
        now: u64,
    ) -> Option<DeCcpError> {
        if self.inactivity(request.participant_id, now) is Some {
            self.inactivity(request.participant_id, now)
        } else if request.operation_id == ZERO || request.initial_margin == 0
            || self.used_operations.contains(request.operation_id) {
            Some(DeCcpError::InvalidMargin)
        } else if self.authorities.refusal(request.statement(), approval, Some(now)) is Some {
            self.authorities.refusal(request.statement(), approval, Some(now))
        } else if request.initial_margin + request.variation_margin > u128::MAX {
            Some(DeCcpError::ArithmeticOverflow)
        } else {
            match self.eligible_collateral(request.participant_id, now) {
                Err(error) => Some(error),
                Ok(worth) => if worth < request.initial_margin + request.variation_margin {
                    Some(DeCcpError::InsufficientCollateral)
                } else if !self.margins.contains_key(request.participant_id) {
                    Some(DeCcpError::UnknownParticipant)
                } else if self.margins[request.participant_id].sequence
                    != request.expected_sequence {
                    Some(DeCcpError::StaleSequence)
                } else {
                    None
                },
            }
        }
    }

    /// Sets a member's margin and advances the account's sequence, as long as
    /// that can still advance.
    pub open spec fn margin_set(
        self,
        request: MarginUpdate,
        approval: ApprovalView,
        now: u64,
    ) -> Outcome {
        match self.margin_update_refusal(request, approval, now) {
            Some(error) => (Err(error), self),
            None => {
                let sequence = self.margins[request.participant_id].sequence;
                let account = MarginAccount {
                    initial_margin: request.initial_margin,
                    variation_margin: request.variation_margin,
                    encumbered_collateral: (request.initial_margin
                        + request.variation_margin) as u128,
                    sequence,
                };
                if sequence == u64::MAX {
                    (Err(DeCcpError::ArithmeticOverflow), self)
                } else {
                    (
                        Ok(()),
                        BookState {
                            margins: self.margins.insert(
                                request.participant_id,
                                MarginAccount { sequence: (sequence + 1) as u64, ..account },
                            ),
                            ..self
                        }.with_operation(request.operation_id),
                    )
                }
            },
        }
    }
}

impl ClearingBook {
    /// Admits a member that a quorum approved, whose eligibility the provider
    /// confirms, and whose default-fund contribution the settlement layer has
    /// locked.
    pub fn admit_participant<V: EligibilityPort, P: DeFmiPort>(
        &mut self,
        request: ParticipantAdmission,
        verifier: &V,
        approval: &QuorumApproval,
        defmi: &P,
        now: u64,
    ) -> (r: Result<(), DeCcpError>)
        ensures
            match old(self)@.admission_refusal(request, approval@, now) {
                Some(error) => r == Err::<(), DeCcpError>(error) && final(self)@ == old(self)@,
                None => exists|found: Result<VerifiedAdmission, String>|
                    {
                        &&& #[trigger] call_ensures(
                            V::verify,
                            (verifier, &request.eligibility, now),
                            found,
                        )
                        &&& match found {
                            Err(message) => {
                                &&& r == Err::<(), DeCcpError>(
                                    DeCcpError::EligibilityRejected(message),
                                )
                                &&& final(self)@ == old(self)@
                            },
                            Ok(verified) => exists|fund: Result<(), String>|
                                {
                                    &&& #[trigger] call_ensures(
                                        P::verify_default_fund,
                                        (defmi, &request, now),
                                        fund,
                                    )
                                    &&& old(self)@.admission_ends(
                                        request,
                                        now,
                                        verified,
                                        fund,
                                        (r, final(self)@),
                                    )
                                },
                        }
                    },
            },
    {
        let statement = request.statement_digest()?;
        self.authorities.verify(&statement, approval, now)?;
        if request.admitted_at != now || self.operation_used(&request.operation_id) {
            return Err(DeCcpError::ReplayOrStaleOperation);
        }
        let found = verifier.verify(&request.eligibility, now);
        match found {
            Err(message) => Err(DeCcpError::EligibilityRejected(message)),
            Ok(verified) => {
                let fund = defmi.verify_default_fund(&request, now);
                self.end_admission(request, now, verified, fund)
            },
        }
    }

    fn end_admission(
        &mut self,
        request: ParticipantAdmission,
        now: u64,
        verified: VerifiedAdmission,
        fund: Result<(), String>,
    ) -> (r: Result<(), DeCcpError>)
        requires
            request.well_formed(),
            !old(self)@.used_operations.contains(request.operation_id),
        ensures
            old(self)@.admission_ends(request, now, verified, fund, (r, final(self)@)),
    {
        if let Err(message) = fund {
            return Err(DeCcpError::DeFmiEvidenceRejected(message));
        }
        if !verified.agrees_with(&request.eligibility) || self.subject_line_in_use(
            &verified.subject_line_id,
        ) {
            return Err(
                DeCcpError::EligibilityRejected(
                    "verified eligibility does not match or is already admitted".to_owned(),
                ),
            );
        }
        if self.lock_in_use(&request.default_fund_defmi_lock_id) {
            return Err(DeCcpError::DuplicateDeFmiReference);
        }
        if self.participants.contains_key(&request.participant_id) {
            return Err(DeCcpError::DuplicateParticipant);
        }
        self.participants.insert(
            request.participant_id,
            Participant {
                participant_id: request.participant_id,
                settlement_participant_id: request.settlement_participant_id,
                eligibility: request.eligibility,
                default_fund_remaining: request.default_fund_contribution,
                default_fund_defmi_lock_id: request.default_fund_defmi_lock_id,
                default_fund_proof_digest: request.default_fund_proof_digest,
                status: ParticipantStatus::Active,
                admitted_at: now,
            },
        );
        self.margins.insert(request.participant_id, MarginAccount::default());
        proof {
            let ids = seq![
                request.operation_id,
                request.participant_id,
                request.settlement_participant_id,
                request.eligibility.provider_id,
                request.eligibility.subject_line_id,
                request.eligibility.policy_digest,
                request.eligibility.evidence_digest,
                request.default_fund_defmi_lock_id,
                request.default_fund_proof_digest,
            ];
            assert(!has_zero(ids));
            assert(ids[0] != ZERO);
        }
        self.consume_operation(&request.operation_id)
    }

    /// Posts a collateral lot whose lock the settlement layer confirms.
    pub fn post_collateral<P: DeFmiPort>(
        &mut self,
        lot: CollateralLot,
        defmi: &P,
        now: u64,
    ) -> (r: Result<(), DeCcpError>)
        ensures
            match old(self)@.posting_refusal(lot, now) {
                Some(error) => r == Err::<(), DeCcpError>(error) && final(self)@ == old(self)@,
                None => exists|reply: Result<(), String>|
                    {
                        &&& #[trigger] call_ensures(
                            P::verify_collateral_lock,
                            (defmi, &lot, now),
                            reply,
                        )
                        &&& (r, final(self)@) == old(self)@.collateral_posted(lot, reply, now)
                    },
            },
    {
        lot.validate()?;
        self.active_participant(&lot.owner_id, now)?;
        let reply = defmi.verify_collateral_lock(&lot, now);
        self.book_collateral(lot, reply, now)
    }

    fn book_collateral(&mut self, lot: CollateralLot, reply: Result<(), String>, now: u64) -> (r:
        Result<(), DeCcpError>)
        requires
            lot.posting_error() is None,
        ensures
            (r, final(self)@) == old(self)@.collateral_posted(lot, reply, now),
    {
        if let Err(message) = reply {
            return Err(DeCcpError::DeFmiEvidenceRejected(message));
        }
        if self.operation_used(&lot.operation_id) {
            return Err(DeCcpError::ReplayOrStaleOperation);
        }
        if lot.valid_until < now {
            return Err(DeCcpError::InvalidCollateral);
        }
        if self.lock_in_use(&lot.defmi_lock_id) || self.collateral.contains_key(&lot.lot_id) {
            return Err(DeCcpError::DuplicateDeFmiReference);
        }
        self.collateral.insert(lot.lot_id, lot);
        proof {
            let ids = seq![
                lot.operation_id,
                lot.lot_id,
                lot.owner_id,
                lot.asset_id,
                lot.defmi_lock_id,
                lot.valuation_policy_digest,
                lot.valuation_proof_digest,
            ];
            assert(!has_zero(ids));
            assert(ids[0] != ZERO);
        }
        self.consume_operation(&lot.operation_id)
    }

    /// Sets a member's margin as a quorum approved it and encumbers the
    /// collateral that covers it.
    pub fn set_margin(
        &mut self,
        request: MarginUpdate,
        approval: &QuorumApproval,
        now: u64,
    ) -> (r: Result<(), DeCcpError>)
        ensures
            (r, final(self)@) == old(self)@.margin_set(request, approval@, now),
    {
        self.active_participant(&request.participant_id, now)?;
        if is_zero(&request.operation_id) || request.initial_margin == 0 || self.operation_used(
            &request.operation_id,
        ) {
            return Err(DeCcpError::InvalidMargin);
        }
        let statement = request.statement_digest();
        self.authorities.verify(&statement, approval, now)?;
        let required: u128 = match request.initial_margin.checked_add(request.variation_margin) {
            Some(sum) => sum,
            None => {
                return Err(DeCcpError::ArithmeticOverflow);
            },
        };
        let eligible: u128 = self.eligible_collateral(&request.participant_id, now)?;
        if eligible < required {
            return Err(DeCcpError::InsufficientCollateral);
        }
        let account: MarginAccount = match self.margins.get(&request.participant_id) {
            Some(found) => *found,
            None => {
                return Err(DeCcpError::UnknownParticipant);
            },
        };
        if account.sequence != request.expected_sequence {
            return Err(DeCcpError::StaleSequence);
        }
        let mut account = MarginAccount {
            initial_margin: request.initial_margin,
            variation_margin: request.variation_margin,
            encumbered_collateral: required,
            sequence: account.sequence,
        };
        match account.sequence.checked_add(1) {
            None => Err(DeCcpError::ArithmeticOverflow),
            Some(next) => {
                account.sequence = next;
                self.margins.insert(request.participant_id, account);
                self.consume_operation(&request.operation_id)
            },
        }
    }
}

} // verus!
