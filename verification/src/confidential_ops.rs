//! Confidential guarantee operations of the clearing book. Amounts stay hidden;
//! a sequence and a state digest serialize the changes of a facility.

use vstd::prelude::*;

use crate::authority::{ApprovalView, QuorumApproval};
use crate::book::{BookState, ClearingBook, Outcome};
use crate::error::DeCcpError;
use crate::guarantees::{
    confidential_claim_context, confidential_facility_statement,
    confidential_guarantee_claim_context, confidential_guarantee_facility_approval_digest,
    confidential_guarantee_release_context, confidential_release_context,
    ConfidentialGuaranteeClaimRequest, ConfidentialGuaranteeFacility, ConfidentialGuaranteeHold,
    ConfidentialGuaranteeReleaseRequest, ConfidentialGuaranteeReservation, GuaranteeFacilityStatus,
    GuaranteeHoldStatus,
};
use crate::ident::{any_zero, has_zero, holds_id, same_id, Digest32, Identifier, ZERO};
use crate::ports::DeFmiPort;

verus! {

/// Whether a confidential facility can be registered: every identifier and
/// commitment is set and nothing happened to it yet.
pub open spec fn confidential_facility_is_fresh(
    operation_id: Identifier,
    facility: ConfidentialGuaranteeFacility,
    now: u64,
) -> bool {
    &&& !has_zero(
        seq![
            operation_id,
            facility.facility_id,
            facility.guarantor_id,
            facility.beneficiary_subject_line_id,
            facility.settlement_asset_id,
            facility.capacity_commitment,
            facility.latest_facility_state_digest,
            facility.defmi_facility_id,
            facility.policy_digest,
        ],
    )
    &&& facility.sequence == 0
    &&& facility.valid_until >= now
    &&& facility.status == GuaranteeFacilityStatus::Active
}

/// Whether a confidential reservation is complete, changes the state digest, and
/// is not expired.
pub open spec fn confidential_reservation_is_complete(
    request: ConfidentialGuaranteeReservation,
    now: u64,
) -> bool {
    &&& !has_zero(
        seq![
            request.operation_id,
            request.hold_id,
            request.facility_id,
            request.purpose_digest,
            request.coverage_commitment,
            request.defmi_hold_id,
            request.relation_proof_digest,
            request.expected_facility_state_digest,
            request.after_facility_state_digest,
        ],
    )
    &&& request.expected_facility_state_digest != request.after_facility_state_digest
    &&& request.valid_until >= now
}

/// The hold that a confidential reservation creates.
pub open spec fn reserved_confidential_hold(
    request: ConfidentialGuaranteeReservation,
) -> ConfidentialGuaranteeHold {
    ConfidentialGuaranteeHold {
        hold_id: request.hold_id,
        facility_id: request.facility_id,
        purpose_digest: request.purpose_digest,
        coverage_commitment: request.coverage_commitment,
        defmi_hold_id: request.defmi_hold_id,
        relation_proof_digest: request.relation_proof_digest,
        reserved_state_digest: request.after_facility_state_digest,
        valid_until: request.valid_until,
        status: GuaranteeHoldStatus::Reserved,
        bound_exposure_id: None,
        defmi_settlement_receipt: None,
    }
}

impl ConfidentialGuaranteeFacility {
    /// The facility with its state digest replaced and its sequence advanced.
    pub open spec fn advanced(self, state: Digest32) -> ConfidentialGuaranteeFacility {
        ConfidentialGuaranteeFacility {
            latest_facility_state_digest: state,
            sequence: (self.sequence + 1) as u64,
            ..self
        }
    }

    /// Whether a request names the facility's present state: its sequence and
    /// its state digest.
    pub open spec fn is_at(self, sequence: u64, state: Digest32) -> bool {
        self.sequence == sequence && self.latest_facility_state_digest == state
    }
}

impl BookState {
    /// The state with one confidential facility replaced.
    pub open spec fn with_confidential_facility(
        self,
        facility: ConfidentialGuaranteeFacility,
        at: Identifier,
    ) -> BookState {
        BookState {
            confidential_guarantee_facilities: self.confidential_guarantee_facilities.insert(
                at,
                facility,
            ),
            ..self
        }
    }

    /// The state with one confidential hold replaced.
    pub open spec fn with_confidential_hold(
        self,
        hold: ConfidentialGuaranteeHold,
        at: Identifier,
    ) -> BookState {
        BookState {
            confidential_guarantee_holds: self.confidential_guarantee_holds.insert(at, hold),
            ..self
        }
    }

    /// The facility of a confidential hold.
    pub open spec fn facility_of(self, hold_id: Identifier) -> ConfidentialGuaranteeFacility {
        self.confidential_guarantee_facilities[self.confidential_guarantee_holds[hold_id].facility_id]
    }

    /// Why a confidential facility is refused before the settlement layer is
    /// asked.
    pub open spec fn confidential_facility_refusal(
        self,
        operation_id: Identifier,
        facility: ConfidentialGuaranteeFacility,
        now: u64,
    ) -> Option<DeCcpError> {
        if !confidential_facility_is_fresh(operation_id, facility, now)
            || self.used_operations.contains(operation_id) || self.facility_taken(
            facility.facility_id,
        ) {
            Some(DeCcpError::InvalidGuaranteeFacility)
        } else {
            self.inactivity(facility.guarantor_id, now)
        }
    }

    /// Registers a confidential facility after the settlement layer replied
    /// about it.
    pub open spec fn confidential_facility_registered(
        self,
        operation_id: Identifier,
        facility: ConfidentialGuaranteeFacility,
        approval: ApprovalView,
        reply: Result<(), String>,
        now: u64,
    ) -> Outcome {
        match reply {
            Err(message) => (Err(DeCcpError::DeFmiEvidenceRejected(message)), self),
            Ok(_) => match self.authorities.refusal(
                confidential_facility_statement(operation_id, facility),
                approval,
                Some(now),
            ) {
                Some(error) => (Err(error), self),
                None => (
                    Ok(()),
                    self.with_confidential_facility(
                        facility,
                        facility.facility_id,
                    ).with_operation(operation_id),
                ),
            },
        }
    }

    /// Why a confidential reservation is refused before the settlement layer is
    /// asked.
    pub open spec fn confidential_reservation_refusal(
        self,
        request: ConfidentialGuaranteeReservation,
        now: u64,
    ) -> Option<DeCcpError> {
        let facility = self.confidential_guarantee_facilities[request.facility_id];
        if !confidential_reservation_is_complete(request, now) || self.used_operations.contains(
            request.operation_id,
        ) || self.hold_taken(request.hold_id) || self.defmi_hold_taken(request.defmi_hold_id) {
            Some(DeCcpError::InvalidGuaranteeReservation)
        } else if !self.confidential_guarantee_facilities.contains_key(request.facility_id) {
            Some(DeCcpError::UnknownGuaranteeFacility)
        } else if facility.status != GuaranteeFacilityStatus::Active || facility.valid_until
            < request.valid_until || !facility.is_at(
            request.expected_facility_sequence,
            request.expected_facility_state_digest,
        ) {
            Some(DeCcpError::StaleSequence)
        } else {
            self.inactivity(facility.guarantor_id, now)
        }
    }

    /// Reserves a hidden part of a facility after the settlement layer replied
    /// about the transition, as long as the facility's sequence can advance.
    pub open spec fn confidential_guarantee_reserved(
        self,
        request: ConfidentialGuaranteeReservation,
        reply: Result<(), String>,
    ) -> (Result<ConfidentialGuaranteeHold, DeCcpError>, BookState) {
        let facility = self.confidential_guarantee_facilities[request.facility_id];
        match reply {
            Err(message) => (Err(DeCcpError::DeFmiEvidenceRejected(message)), self),
            Ok(_) => if facility.sequence == u64::MAX {
                (Err(DeCcpError::ArithmeticOverflow), self)
            } else {
                let hold = reserved_confidential_hold(request);
                (
                    Ok(hold),
                    self.with_confidential_facility(
                        facility.advanced(request.after_facility_state_digest),
                        request.facility_id,
                    ).with_confidential_hold(hold, request.hold_id).with_operation(
                        request.operation_id,
                    ),
                )
            },
        }
    }

    /// Binds a reserved confidential hold to an exposure.
    pub open spec fn confidential_guarantee_bound(
        self,
        operation_id: Identifier,
        hold_id: Identifier,
        exposure_id: Identifier,
        now: u64,
    ) -> Outcome {
        let hold = self.confidential_guarantee_holds[hold_id];
        if has_zero(seq![operation_id, hold_id, exposure_id]) || self.used_operations.contains(
            operation_id,
        ) {
            (Err(DeCcpError::InvalidGuaranteeReservation), self)
        } else if !self.confidential_guarantee_holds.contains_key(hold_id) {
            (Err(DeCcpError::UnknownGuaranteeHold), self)
        } else if hold.status != GuaranteeHoldStatus::Reserved || hold.valid_until < now {
            (Err(DeCcpError::GuaranteeHoldUnavailable), self)
        } else {
            (
                Ok(()),
                self.with_confidential_hold(
                    ConfidentialGuaranteeHold {
                        status: GuaranteeHoldStatus::Bound,
                        bound_exposure_id: Some(exposure_id),
                        ..hold
                    },
                    hold_id,
                ).with_operation(operation_id),
            )
        }
    }

    /// Why a confidential release is refused before the settlement layer is
    /// asked.
    pub open spec fn confidential_release_refusal(
        self,
        request: ConfidentialGuaranteeReleaseRequest,
    ) -> Option<DeCcpError> {
        let hold = self.confidential_guarantee_holds[request.hold_id];
        let facility = self.confidential_guarantee_facilities[hold.facility_id];
        if has_zero(
            seq![
                request.operation_id,
                request.hold_id,
                request.expected_facility_state_digest,
                request.after_facility_state_digest,
                request.transition_proof_digest,
                request.receipt.receipt_digest,
            ],
        ) || request.expected_facility_state_digest == request.after_facility_state_digest
            || self.used_operations.contains(request.operation_id)
            || request.receipt.context_digest != confidential_release_context(request) {
            Some(DeCcpError::ReplayOrStaleOperation)
        } else if !self.confidential_guarantee_holds.contains_key(request.hold_id) {
            Some(DeCcpError::UnknownGuaranteeHold)
        } else if !hold.status.live() {
            Some(DeCcpError::GuaranteeHoldUnavailable)
        } else if !self.confidential_guarantee_facilities.contains_key(hold.facility_id) {
            Some(DeCcpError::UnknownGuaranteeFacility)
        } else if !facility.is_at(
            request.expected_facility_sequence,
            request.expected_facility_state_digest,
        ) {
            Some(DeCcpError::StaleSequence)
        } else {
            None
        }
    }

    /// Gives a confidential hold back after the settlement layer replied about
    /// the transition.
    pub open spec fn confidential_guarantee_released(
        self,
        request: ConfidentialGuaranteeReleaseRequest,
        reply: Result<(), String>,
    ) -> Outcome {
        self.confidential_hold_ended(
            request.operation_id,
            request.hold_id,
            request.after_facility_state_digest,
            GuaranteeHoldStatus::Released,
            request.receipt.receipt_digest,
            reply,
        )
    }

    /// Why a confidential claim is refused before the settlement layer is asked.
    pub open spec fn confidential_claim_refusal(
        self,
        request: ConfidentialGuaranteeClaimRequest,
        now: u64,
    ) -> Option<DeCcpError> {
        let hold = self.confidential_guarantee_holds[request.hold_id];
        let facility = self.confidential_guarantee_facilities[hold.facility_id];
        if has_zero(
            seq![
                request.operation_id,
                request.hold_id,
                request.exposure_id,
                request.default_event_digest,
                request.expected_facility_state_digest,
                request.after_facility_state_digest,
                request.transition_proof_digest,
                request.receipt.receipt_digest,
            ],
        ) || request.expected_facility_state_digest == request.after_facility_state_digest
            || self.used_operations.contains(request.operation_id)
            || request.receipt.context_digest != confidential_claim_context(request) {
            Some(DeCcpError::InvalidGuaranteeClaim)
        } else if !self.confidential_guarantee_holds.contains_key(request.hold_id) {
            Some(DeCcpError::UnknownGuaranteeHold)
        } else if hold.status != GuaranteeHoldStatus::Bound || hold.bound_exposure_id != Some(
            request.exposure_id,
        ) || hold.valid_until < now {
            Some(DeCcpError::GuaranteeHoldUnavailable)
        } else if !self.confidential_guarantee_facilities.contains_key(hold.facility_id) {
            Some(DeCcpError::UnknownGuaranteeFacility)
        } else if !facility.is_at(
            request.expected_facility_sequence,
            request.expected_facility_state_digest,
        ) {
            Some(DeCcpError::StaleSequence)
        } else {
            None
        }
    }

    /// Pays a confidential hold out after the settlement layer replied about the
    /// transition.
    pub open spec fn confidential_guarantee_consumed(
        self,
        request: ConfidentialGuaranteeClaimRequest,
        reply: Result<(), String>,
    ) -> Outcome {
        self.confidential_hold_ended(
            request.operation_id,
            request.hold_id,
            request.after_facility_state_digest,
            GuaranteeHoldStatus::Consumed,
            request.receipt.receipt_digest,
            reply,
        )
    }

    /// Moves the facility of a confidential hold to its next state and ends the
    /// hold, as long as the facility's sequence can advance.
    pub open spec fn confidential_hold_ended(
        self,
        operation_id: Identifier,
        hold_id: Identifier,
        state: Digest32,
        status: GuaranteeHoldStatus,
        receipt_digest: Digest32,
        reply: Result<(), String>,
    ) -> Outcome {
        let hold = self.confidential_guarantee_holds[hold_id];
        let facility = self.confidential_guarantee_facilities[hold.facility_id];
        match reply {
            Err(message) => (Err(DeCcpError::DeFmiEvidenceRejected(message)), self),
            Ok(_) => if facility.sequence == u64::MAX {
                (Err(DeCcpError::ArithmeticOverflow), self)
            } else {
                (
                    Ok(()),
                    self.with_confidential_facility(
                        facility.advanced(state),
                        hold.facility_id,
                    ).with_confidential_hold(
                        ConfidentialGuaranteeHold {
                            status,
                            defmi_settlement_receipt: Some(receipt_digest),
                            ..hold
                        },
                        hold_id,
                    ).with_operation(operation_id),
                )
            },
        }
    }
}

impl ClearingBook {
    /// Registers a confidential guarantee facility that a quorum approved and
    /// the settlement layer confirms.
    pub fn register_confidential_guarantee_facility<P: DeFmiPort>(
        &mut self,
        operation_id: Identifier,
        facility: ConfidentialGuaranteeFacility,
        approval: &QuorumApproval,
        defmi: &P,
        now: u64,
    ) -> (r: Result<(), DeCcpError>)
        ensures
            match old(self)@.confidential_facility_refusal(operation_id, facility, now) {
                Some(error) => r == Err::<(), DeCcpError>(error) && final(self)@ == old(self)@,
                None => exists|reply: Result<(), String>|
                    {
                        &&& #[trigger] call_ensures(
                            P::verify_confidential_guarantee_facility,
                            (defmi, &facility, now),
                            reply,
                        )
                        &&& (r, final(self)@) == old(self)@.confidential_facility_registered(
                            operation_id,
                            facility,
                            approval@,
                            reply,
                            now,
                        )
                    },
            },
    {
        let required = [
            operation_id,
            facility.facility_id,
            facility.guarantor_id,
            facility.beneficiary_subject_line_id,
            facility.settlement_asset_id,
            facility.capacity_commitment,
            facility.latest_facility_state_digest,
            facility.defmi_facility_id,
            facility.policy_digest,
        ];
        if any_zero(&required) || facility.sequence != 0 || facility.valid_until < now
            || facility.status != GuaranteeFacilityStatus::Active || self.operation_used(
            &operation_id,
        ) || self.guarantee_facilities.contains_key(&facility.facility_id)
            || self.confidential_guarantee_facilities.contains_key(&facility.facility_id) {
            return Err(DeCcpError::InvalidGuaranteeFacility);
        }
        assert(required@[0] != ZERO);
        self.active_participant(&facility.guarantor_id, now)?;
        let reply = defmi.verify_confidential_guarantee_facility(&facility, now);
        if let Err(message) = reply {
            return Err(DeCcpError::DeFmiEvidenceRejected(message));
        }
        let statement = confidential_guarantee_facility_approval_digest(&operation_id, &facility);
        self.authorities.verify(&statement, approval, now)?;
        self.confidential_guarantee_facilities.insert(facility.facility_id, facility);
        self.consume_operation(&operation_id)
    }

    /// Reserves hidden guarantee capacity using a commitment transition that the
    /// settlement layer verifies. The sequence and state digest form a
    /// compare-and-swap, so concurrent reservations cannot both consume the same
    /// capacity state.
    pub fn reserve_confidential_guarantee<P: DeFmiPort>(
        &mut self,
        request: ConfidentialGuaranteeReservation,
        defmi: &P,
        now: u64,
    ) -> (r: Result<ConfidentialGuaranteeHold, DeCcpError>)
        ensures
            match old(self)@.confidential_reservation_refusal(request, now) {
                Some(error) => r == Err::<ConfidentialGuaranteeHold, DeCcpError>(error)
                    && final(self)@ == old(self)@,
                None => exists|reply: Result<(), String>|
                    {
                        &&& #[trigger] call_ensures(
                            P::verify_confidential_guarantee_hold,
                            (
                                defmi,
                                &old(self)@.confidential_guarantee_facilities[request.facility_id],
                                &request,
                                now,
                            ),
                            reply,
                        )
                        &&& (r, final(self)@) == old(self)@.confidential_guarantee_reserved(
                            request,
                            reply,
                        )
                    },
            },
    {
        let required = [
            request.operation_id,
            request.hold_id,
            request.facility_id,
            request.purpose_digest,
            request.coverage_commitment,
            request.defmi_hold_id,
            request.relation_proof_digest,
            request.expected_facility_state_digest,
            request.after_facility_state_digest,
        ];
        if any_zero(&required) || same_id(
            &request.expected_facility_state_digest,
            &request.after_facility_state_digest,
        ) || request.valid_until < now || self.operation_used(&request.operation_id)
            || self.guarantee_holds.contains_key(&request.hold_id)
            || self.confidential_guarantee_holds.contains_key(&request.hold_id)
            || self.defmi_hold_in_use(&request.defmi_hold_id) {
            return Err(DeCcpError::InvalidGuaranteeReservation);
        }
        assert(required@[0] != ZERO);
        let mut facility: ConfidentialGuaranteeFacility =
            match self.confidential_guarantee_facilities.get(&request.facility_id) {
            Some(found) => *found,
            None => {
                return Err(DeCcpError::UnknownGuaranteeFacility);
            },
        };
        if facility.status != GuaranteeFacilityStatus::Active || facility.valid_until
            < request.valid_until || facility.sequence != request.expected_facility_sequence
            || !same_id(
            &facility.latest_facility_state_digest,
            &request.expected_facility_state_digest,
        ) {
            return Err(DeCcpError::StaleSequence);
        }
        if let Err(error) = self.active_participant(&facility.guarantor_id, now) {
            return Err(error);
        }
        let reply = defmi.verify_confidential_guarantee_hold(&facility, &request, now);
        if let Err(message) = reply {
            return Err(DeCcpError::DeFmiEvidenceRejected(message));
        }
        facility.latest_facility_state_digest = request.after_facility_state_digest;
        match facility.sequence.checked_add(1) {
            None => {
                return Err(DeCcpError::ArithmeticOverflow);
            },
            Some(next) => {
                facility.sequence = next;
            },
        }
        self.confidential_guarantee_facilities.insert(request.facility_id, facility);
        let hold = ConfidentialGuaranteeHold {
            hold_id: request.hold_id,
            facility_id: request.facility_id,
            purpose_digest: request.purpose_digest,
            coverage_commitment: request.coverage_commitment,
            defmi_hold_id: request.defmi_hold_id,
            relation_proof_digest: request.relation_proof_digest,
            reserved_state_digest: request.after_facility_state_digest,
            valid_until: request.valid_until,
            status: GuaranteeHoldStatus::Reserved,
            bound_exposure_id: None,
            defmi_settlement_receipt: None,
        };
        self.confidential_guarantee_holds.insert(request.hold_id, hold);
        self.consume_operation(&request.operation_id)?;
        Ok(hold)
    }

    /// Binds a reserved confidential hold to an exposure.
    pub fn bind_confidential_guarantee(
        &mut self,
        operation_id: Identifier,
        hold_id: Identifier,
        exposure_id: Identifier,
        now: u64,
    ) -> (r: Result<(), DeCcpError>)
        ensures
            (r, final(self)@) == old(self)@.confidential_guarantee_bound(
                operation_id,
                hold_id,
                exposure_id,
                now,
            ),
    {
        let required = [operation_id, hold_id, exposure_id];
        if any_zero(&required) || self.operation_used(&operation_id) {
            return Err(DeCcpError::InvalidGuaranteeReservation);
        }
        assert(required@[0] != ZERO);
        let mut hold: ConfidentialGuaranteeHold = match self.confidential_guarantee_holds.get(
            &hold_id,
        ) {
            Some(found) => *found,
            None => {
                return Err(DeCcpError::UnknownGuaranteeHold);
            },
        };
        if hold.status != GuaranteeHoldStatus::Reserved || hold.valid_until < now {
            return Err(DeCcpError::GuaranteeHoldUnavailable);
        }
        hold.status = GuaranteeHoldStatus::Bound;
        hold.bound_exposure_id = Some(exposure_id);
        self.confidential_guarantee_holds.insert(hold_id, hold);
        self.consume_operation(&operation_id)
    }

    /// Gives a confidential hold back once the settlement layer confirms the
    /// transition.
    pub fn release_confidential_guarantee<P: DeFmiPort>(
        &mut self,
        request: ConfidentialGuaranteeReleaseRequest,
        defmi: &P,
        now: u64,
    ) -> (r: Result<(), DeCcpError>)
        ensures
            match old(self)@.confidential_release_refusal(request) {
                Some(error) => r == Err::<(), DeCcpError>(error) && final(self)@ == old(self)@,
                None => exists|reply: Result<(), String>|
                    {
                        &&& #[trigger] call_ensures(
                            P::verify_confidential_guarantee_release,
                            (
                                defmi,
                                &old(self)@.facility_of(request.hold_id),
                                &old(self)@.confidential_guarantee_holds[request.hold_id],
                                &request,
                                now,
                            ),
                            reply,
                        )
                        &&& (r, final(self)@) == old(self)@.confidential_guarantee_released(
                            request,
                            reply,
                        )
                    },
            },
    {
        let required = [
            request.operation_id,
            request.hold_id,
            request.expected_facility_state_digest,
            request.after_facility_state_digest,
            request.transition_proof_digest,
            request.receipt.receipt_digest,
        ];
        if any_zero(&required) || same_id(
            &request.expected_facility_state_digest,
            &request.after_facility_state_digest,
        ) || self.operation_used(&request.operation_id) || !same_id(
            &request.receipt.context_digest,
            &confidential_guarantee_release_context(&request),
        ) {
            return Err(DeCcpError::ReplayOrStaleOperation);
        }
        assert(required@[0] != ZERO);
        let hold: ConfidentialGuaranteeHold = match self.confidential_guarantee_holds.get(
            &request.hold_id,
        ) {
            Some(found) => *found,
            None => {
                return Err(DeCcpError::UnknownGuaranteeHold);
            },
        };
        if !hold.status.is_live() {
            return Err(DeCcpError::GuaranteeHoldUnavailable);
        }
        let facility: ConfidentialGuaranteeFacility =
            match self.confidential_guarantee_facilities.get(&hold.facility_id) {
            Some(found) => *found,
            None => {
                return Err(DeCcpError::UnknownGuaranteeFacility);
            },
        };
        if facility.sequence != request.expected_facility_sequence || !same_id(
            &facility.latest_facility_state_digest,
            &request.expected_facility_state_digest,
        ) {
            return Err(DeCcpError::StaleSequence);
        }
        let reply = defmi.verify_confidential_guarantee_release(&facility, &hold, &request, now);
        self.end_confidential_hold(
            request.operation_id,
            request.hold_id,
            request.after_facility_state_digest,
            GuaranteeHoldStatus::Released,
            request.receipt.receipt_digest,
            reply,
        )
    }

    /// Pays a bound confidential hold out once the settlement layer confirms the
    /// claim.
    pub fn consume_confidential_guarantee<P: DeFmiPort>(
        &mut self,
        request: ConfidentialGuaranteeClaimRequest,
        defmi: &P,
        now: u64,
    ) -> (r: Result<(), DeCcpError>)
        ensures
            match old(self)@.confidential_claim_refusal(request, now) {
                Some(error) => r == Err::<(), DeCcpError>(error) && final(self)@ == old(self)@,
                None => exists|reply: Result<(), String>|
                    {
                        &&& #[trigger] call_ensures(
                            P::verify_confidential_guarantee_claim,
                            (
                                defmi,
                                &old(self)@.facility_of(request.hold_id),
                                &old(self)@.confidential_guarantee_holds[request.hold_id],
                                &request,
                                now,
                            ),
                            reply,
                        )
                        &&& (r, final(self)@) == old(self)@.confidential_guarantee_consumed(
                            request,
                            reply,
                        )
                    },
            },
    {
        let required = [
            request.operation_id,
            request.hold_id,
            request.exposure_id,
            request.default_event_digest,
            request.expected_facility_state_digest,
            request.after_facility_state_digest,
            request.transition_proof_digest,
            request.receipt.receipt_digest,
        ];
        if any_zero(&required) || same_id(
            &request.expected_facility_state_digest,
            &request.after_facility_state_digest,
        ) || self.operation_used(&request.operation_id) || !same_id(
            &request.receipt.context_digest,
            &confidential_guarantee_claim_context(&request),
        ) {
            return Err(DeCcpError::InvalidGuaranteeClaim);
        }
        assert(required@[0] != ZERO);
        let hold: ConfidentialGuaranteeHold = match self.confidential_guarantee_holds.get(
            &request.hold_id,
        ) {
            Some(found) => *found,
            None => {
                return Err(DeCcpError::UnknownGuaranteeHold);
            },
        };
        if hold.status != GuaranteeHoldStatus::Bound || !holds_id(
            &hold.bound_exposure_id,
            &request.exposure_id,
        ) || hold.valid_until < now {
            return Err(DeCcpError::GuaranteeHoldUnavailable);
        }
        let facility: ConfidentialGuaranteeFacility =
            match self.confidential_guarantee_facilities.get(&hold.facility_id) {
            Some(found) => *found,
            None => {
                return Err(DeCcpError::UnknownGuaranteeFacility);
            },
        };
        if facility.sequence != request.expected_facility_sequence || !same_id(
            &facility.latest_facility_state_digest,
            &request.expected_facility_state_digest,
        ) {
            return Err(DeCcpError::StaleSequence);
        }
        let reply = defmi.verify_confidential_guarantee_claim(&facility, &hold, &request, now);
        self.end_confidential_hold(
            request.operation_id,
            request.hold_id,
            request.after_facility_state_digest,
            GuaranteeHoldStatus::Consumed,
            request.receipt.receipt_digest,
            reply,
        )
    }

    fn end_confidential_hold(
        &mut self,
        operation_id: Identifier,
        hold_id: Identifier,
        state: Digest32,
        status: GuaranteeHoldStatus,
        receipt_digest: Digest32,
        reply: Result<(), String>,
    ) -> (r: Result<(), DeCcpError>)
        requires
            operation_id != ZERO,
            !old(self)@.used_operations.contains(operation_id),
            old(self)@.confidential_guarantee_holds.contains_key(hold_id),
            old(self)@.confidential_guarantee_facilities.contains_key(
                old(self)@.confidential_guarantee_holds[hold_id].facility_id,
            ),
        ensures
            (r, final(self)@) == old(self)@.confidential_hold_ended(
                operation_id,
                hold_id,
                state,
                status,
                receipt_digest,
                reply,
            ),
    {
        if let Err(message) = reply {
            return Err(DeCcpError::DeFmiEvidenceRejected(message));
        }
        let mut hold: ConfidentialGuaranteeHold = match self.confidential_guarantee_holds.get(
            &hold_id,
        ) {
            Some(found) => *found,
            None => {
                return Err(DeCcpError::UnknownGuaranteeHold);
            },
        };
        let mut facility: ConfidentialGuaranteeFacility =
            match self.confidential_guarantee_facilities.get(&hold.facility_id) {
            Some(found) => *found,
            None => {
                return Err(DeCcpError::UnknownGuaranteeFacility);
            },
        };
        facility.latest_facility_state_digest = state;
        match facility.sequence.checked_add(1) {
            None => {
                return Err(DeCcpError::ArithmeticOverflow);
            },
            Some(next) => {
                facility.sequence = next;
            },
        }
        self.confidential_guarantee_facilities.insert(hold.facility_id, facility);
        hold.status = status;
        hold.defmi_settlement_receipt = Some(receipt_digest);
        self.confidential_guarantee_holds.insert(hold_id, hold);
        self.consume_operation(&operation_id)
    }
}

} // verus!
