//! Guarantee operations of the clearing book: register, reserve, bind, release,
//! consume.

use vstd::prelude::*;

use crate::authority::{ApprovalView, QuorumApproval};
use crate::book::{BookState, ClearingBook, Outcome};
use crate::error::DeCcpError;
use crate::guarantees::{
    claim_context, facility_statement, guarantee_claim_context, guarantee_facility_approval_digest,
    guarantee_release_context, release_context, DefmiSettlementReceipt, GuaranteeClaimRequest,
    GuaranteeFacility, GuaranteeFacilityStatus, GuaranteeHold, GuaranteeHoldStatus,
    GuaranteeReservation,
};
use crate::ident::{any_zero, has_zero, holds_id, is_zero, same_id, Identifier, ZERO};
use crate::ports::DeFmiPort;

verus! {

/// Whether a facility can be registered: every identifier is set, it has
/// capacity, and nothing of it is used.
pub open spec fn facility_is_fresh(
    operation_id: Identifier,
    facility: GuaranteeFacility,
    now: u64,
) -> bool {
    &&& !has_zero(
        seq![
            operation_id,
            facility.facility_id,
            facility.guarantor_id,
            facility.beneficiary_subject_line_id,
            facility.settlement_asset_id,
            facility.defmi_facility_id,
            facility.policy_digest,
        ],
    )
    &&& facility.capacity != 0
    &&& facility.reserved == 0
    &&& facility.consumed == 0
    &&& facility.sequence == 0
    &&& facility.valid_until >= now
    &&& facility.status == GuaranteeFacilityStatus::Active
}

/// Whether a reservation is complete and not expired.
pub open spec fn reservation_is_complete(request: GuaranteeReservation, now: u64) -> bool {
    &&& !has_zero(
        seq![
            request.operation_id,
            request.hold_id,
            request.facility_id,
            request.purpose_digest,
            request.defmi_hold_id,
            request.relation_proof_digest,
        ],
    )
    &&& request.amount != 0
    &&& request.valid_until >= now
}

/// The hold that a reservation creates.
pub open spec fn reserved_hold(request: GuaranteeReservation) -> GuaranteeHold {
    GuaranteeHold {
        hold_id: request.hold_id,
        facility_id: request.facility_id,
        purpose_digest: request.purpose_digest,
        amount: request.amount,
        defmi_hold_id: request.defmi_hold_id,
        relation_proof_digest: request.relation_proof_digest,
        valid_until: request.valid_until,
        status: GuaranteeHoldStatus::Reserved,
        bound_exposure_id: None,
        defmi_settlement_receipt: None,
    }
}

impl BookState {
    /// Whether a facility identifier is taken, by either kind of facility.
    pub open spec fn facility_taken(self, facility_id: Identifier) -> bool {
        self.guarantee_facilities.contains_key(facility_id)
            || self.confidential_guarantee_facilities.contains_key(facility_id)
    }

    /// Whether a hold identifier is taken, by either kind of hold.
    pub open spec fn hold_taken(self, hold_id: Identifier) -> bool {
        self.guarantee_holds.contains_key(hold_id)
            || self.confidential_guarantee_holds.contains_key(hold_id)
    }

    /// The state with one facility replaced.
    pub open spec fn with_facility(self, facility: GuaranteeFacility, at: Identifier) -> BookState {
        BookState { guarantee_facilities: self.guarantee_facilities.insert(at, facility), ..self }
    }

    /// The state with one hold replaced.
    pub open spec fn with_hold(self, hold: GuaranteeHold, at: Identifier) -> BookState {
        BookState { guarantee_holds: self.guarantee_holds.insert(at, hold), ..self }
    }

    /// Why a facility is refused before the settlement layer is asked.
    pub open spec fn facility_refusal(
        self,
        operation_id: Identifier,
        facility: GuaranteeFacility,
        now: u64,
    ) -> Option<DeCcpError> {
        if !facility_is_fresh(operation_id, facility, now) || self.used_operations.contains(
            operation_id,
        ) || self.facility_taken(facility.facility_id) {
            Some(DeCcpError::InvalidGuaranteeFacility)
        } else {
            self.inactivity(facility.guarantor_id, now)
        }
    }

    /// Registers a facility after the settlement layer replied about it.
    pub open spec fn facility_registered(
        self,
        operation_id: Identifier,
        facility: GuaranteeFacility,
        approval: ApprovalView,
        reply: Result<(), String>,
        now: u64,
    ) -> Outcome {
        match reply {
            Err(message) => (Err(DeCcpError::DeFmiEvidenceRejected(message)), self),
            Ok(_) => match self.authorities.refusal(
                facility_statement(operation_id, facility),
                approval,
                Some(now),
            ) {
                Some(error) => (Err(error), self),
                None => (
                    Ok(()),
                    self.with_facility(facility, facility.facility_id).with_operation(operation_id),
                ),
            },
        }
    }

    /// Why a reservation is refused before the settlement layer is asked.
    pub open spec fn reservation_refusal(self, request: GuaranteeReservation, now: u64) -> Option<
        DeCcpError,
    > {
        if !reservation_is_complete(request, now) || self.used_operations.contains(
            request.operation_id,
        ) || self.hold_taken(request.hold_id) || self.defmi_hold_taken(request.defmi_hold_id) {
            Some(DeCcpError::InvalidGuaranteeReservation)
        } else if !self.guarantee_facilities.contains_key(request.facility_id) {
            Some(DeCcpError::UnknownGuaranteeFacility)
        } else {
            self.inactivity(self.guarantee_facilities[request.facility_id].guarantor_id, now)
        }
    }

    /// Reserves part of a facility after the settlement layer replied about the
    /// hold, as long as the facility's sequence can advance.
    pub open spec fn guarantee_reserved(
        self,
        request: GuaranteeReservation,
        reply: Result<(), String>,
    ) -> (Result<GuaranteeHold, DeCcpError>, BookState) {
        let facility = self.guarantee_facilities[request.facility_id];
        let allocated = facility.reserved + facility.consumed + request.amount;
        match reply {
            Err(message) => (Err(DeCcpError::DeFmiEvidenceRejected(message)), self),
            Ok(_) => if facility.status != GuaranteeFacilityStatus::Active || facility.valid_until
                < request.valid_until || facility.sequence != request.expected_facility_sequence {
                (Err(DeCcpError::StaleSequence), self)
            } else if allocated > u128::MAX {
                (Err(DeCcpError::ArithmeticOverflow), self)
            } else if allocated > facility.capacity {
                (Err(DeCcpError::GuaranteeCapacityExceeded), self)
            } else {
                let charged = GuaranteeFacility {
                    reserved: (facility.reserved + request.amount) as u128,
                    ..facility
                };
                if facility.sequence == u64::MAX {
                    (Err(DeCcpError::ArithmeticOverflow), self)
                } else {
                    let hold = reserved_hold(request);
                    (
                        Ok(hold),
                        self.with_facility(
                            GuaranteeFacility {
                                sequence: (facility.sequence + 1) as u64,
                                ..charged
                            },
                            request.facility_id,
                        ).with_hold(hold, request.hold_id).with_operation(request.operation_id),
                    )
                }
            },
        }
    }

    /// Binds a reserved hold to an exposure.
    pub open spec fn guarantee_bound(
        self,
        operation_id: Identifier,
        hold_id: Identifier,
        exposure_id: Identifier,
        now: u64,
    ) -> Outcome {
        let hold = self.guarantee_holds[hold_id];
        if has_zero(seq![operation_id, hold_id, exposure_id]) || self.used_operations.contains(
            operation_id,
        ) {
            (Err(DeCcpError::InvalidGuaranteeReservation), self)
        } else if !self.guarantee_holds.contains_key(hold_id) {
            (Err(DeCcpError::UnknownGuaranteeHold), self)
        } else if hold.status != GuaranteeHoldStatus::Reserved || hold.valid_until < now {
            (Err(DeCcpError::GuaranteeHoldUnavailable), self)
        } else {
            (
                Ok(()),
                self.with_hold(
                    GuaranteeHold {
                        status: GuaranteeHoldStatus::Bound,
                        bound_exposure_id: Some(exposure_id),
                        ..hold
                    },
                    hold_id,
                ).with_operation(operation_id),
            )
        }
    }

    /// Why a release is refused before the settlement layer is asked.
    pub open spec fn release_refusal(
        self,
        operation_id: Identifier,
        hold_id: Identifier,
        receipt: DefmiSettlementReceipt,
    ) -> Option<DeCcpError> {
        if operation_id == ZERO || receipt.receipt_digest == ZERO || receipt.context_digest
            != release_context(hold_id) || self.used_operations.contains(operation_id) {
            Some(DeCcpError::ReplayOrStaleOperation)
        } else {
            None
        }
    }

    /// Gives a live hold back after the settlement layer replied about the
    /// release, as long as the facility's sequence can advance.
    pub open spec fn guarantee_released(
        self,
        operation_id: Identifier,
        hold_id: Identifier,
        receipt: DefmiSettlementReceipt,
        reply: Result<(), String>,
    ) -> Outcome {
        let hold = self.guarantee_holds[hold_id];
        let facility = self.guarantee_facilities[hold.facility_id];
        match reply {
            Err(message) => (Err(DeCcpError::DeFmiEvidenceRejected(message)), self),
            Ok(_) => if !self.guarantee_holds.contains_key(hold_id) {
                (Err(DeCcpError::UnknownGuaranteeHold), self)
            } else if !hold.status.live() {
                (Err(DeCcpError::GuaranteeHoldUnavailable), self)
            } else if !self.guarantee_facilities.contains_key(hold.facility_id) {
                (Err(DeCcpError::UnknownGuaranteeFacility), self)
            } else if facility.reserved < hold.amount {
                (Err(DeCcpError::InvalidState), self)
            } else {
                let relieved = GuaranteeFacility {
                    reserved: (facility.reserved - hold.amount) as u128,
                    ..facility
                };
                if facility.sequence == u64::MAX {
                    (Err(DeCcpError::ArithmeticOverflow), self)
                } else {
                    (
                        Ok(()),
                        self.with_facility(
                            GuaranteeFacility {
                                sequence: (facility.sequence + 1) as u64,
                                ..relieved
                            },
                            hold.facility_id,
                        ).with_hold(
                            GuaranteeHold {
                                status: GuaranteeHoldStatus::Released,
                                defmi_settlement_receipt: Some(receipt.receipt_digest),
                                ..hold
                            },
                            hold_id,
                        ).with_operation(operation_id),
                    )
                }
            },
        }
    }

    /// Why a claim is refused before the settlement layer is asked.
    pub open spec fn claim_refusal(self, request: GuaranteeClaimRequest) -> Option<DeCcpError> {
        if has_zero(
            seq![
                request.operation_id,
                request.hold_id,
                request.exposure_id,
                request.default_event_digest,
                request.receipt.receipt_digest,
            ],
        ) || self.used_operations.contains(request.operation_id) || request.receipt.context_digest
            != claim_context(request.hold_id, request.exposure_id, request.default_event_digest) {
            Some(DeCcpError::InvalidGuaranteeClaim)
        } else {
            None
        }
    }

    /// Pays a bound hold out after the settlement layer replied about the claim.
    /// A sum or a sequence that would leave its range is refused.
    pub open spec fn guarantee_consumed(
        self,
        request: GuaranteeClaimRequest,
        reply: Result<(), String>,
        now: u64,
    ) -> Outcome {
        let hold = self.guarantee_holds[request.hold_id];
        let facility = self.guarantee_facilities[hold.facility_id];
        match reply {
            Err(message) => (Err(DeCcpError::DeFmiEvidenceRejected(message)), self),
            Ok(_) => if !self.guarantee_holds.contains_key(request.hold_id) {
                (Err(DeCcpError::UnknownGuaranteeHold), self)
            } else if hold.status != GuaranteeHoldStatus::Bound || hold.bound_exposure_id != Some(
                request.exposure_id,
            ) || hold.valid_until < now {
                (Err(DeCcpError::GuaranteeHoldUnavailable), self)
            } else if !self.guarantee_facilities.contains_key(hold.facility_id) {
                (Err(DeCcpError::UnknownGuaranteeFacility), self)
            } else if facility.reserved < hold.amount {
                (Err(DeCcpError::InvalidState), self)
            } else {
                let relieved = GuaranteeFacility {
                    reserved: (facility.reserved - hold.amount) as u128,
                    ..facility
                };
                if facility.consumed + hold.amount > u128::MAX {
                    (Err(DeCcpError::ArithmeticOverflow), self)
                } else {
                    let charged = GuaranteeFacility {
                        consumed: (facility.consumed + hold.amount) as u128,
                        ..relieved
                    };
                    if facility.sequence == u64::MAX {
                        (Err(DeCcpError::ArithmeticOverflow), self)
                    } else {
                        (
                            Ok(()),
                            self.with_facility(
                                GuaranteeFacility {
                                    sequence: (facility.sequence + 1) as u64,
                                    status: if charged.consumed == charged.capacity {
                                        GuaranteeFacilityStatus::Exhausted
                                    } else {
                                        facility.status
                                    },
                                    ..charged
                                },
                                hold.facility_id,
                            ).with_hold(
                                GuaranteeHold {
                                    status: GuaranteeHoldStatus::Consumed,
                                    defmi_settlement_receipt: Some(request.receipt.receipt_digest),
                                    ..hold
                                },
                                request.hold_id,
                            ).with_operation(request.operation_id),
                        )
                    }
                }
            },
        }
    }
}

impl ClearingBook {
    /// Registers a guarantee facility that a quorum approved and the settlement
    /// layer confirms.
    pub fn register_guarantee_facility<P: DeFmiPort>(
        &mut self,
        operation_id: Identifier,
        facility: GuaranteeFacility,
        approval: &QuorumApproval,
        defmi: &P,
        now: u64,
    ) -> (r: Result<(), DeCcpError>)
        ensures
            match old(self)@.facility_refusal(operation_id, facility, now) {
                Some(error) => r == Err::<(), DeCcpError>(error) && final(self)@ == old(self)@,
                None => exists|reply: Result<(), String>|
                    {
                        &&& #[trigger] call_ensures(
                            P::verify_guarantee_facility,
                            (defmi, &facility, now),
                            reply,
                        )
                        &&& (r, final(self)@) == old(self)@.facility_registered(
                            operation_id,
                            facility,
                            approval@,
                            reply,
                            now,
                        )
                    },
            },
    {
        let required = [
            operation_id,
            facility.facility_id,
            facility.guarantor_id,
            facility.beneficiary_subject_line_id,
            facility.settlement_asset_id,
            facility.defmi_facility_id,
            facility.policy_digest,
        ];
        if any_zero(&required) || facility.capacity == 0 || facility.reserved != 0
            || facility.consumed != 0 || facility.sequence != 0 || facility.valid_until < now
            || facility.status != GuaranteeFacilityStatus::Active || self.operation_used(
            &operation_id,
        ) || self.guarantee_facilities.contains_key(&facility.facility_id)
            || self.confidential_guarantee_facilities.contains_key(&facility.facility_id) {
            return Err(DeCcpError::InvalidGuaranteeFacility);
        }
        assert(required@[0] != ZERO);
        self.active_participant(&facility.guarantor_id, now)?;
        let reply = defmi.verify_guarantee_facility(&facility, now);
        if let Err(message) = reply {
            return Err(DeCcpError::DeFmiEvidenceRejected(message));
        }
        let statement = guarantee_facility_approval_digest(&operation_id, &facility);
        self.authorities.verify(&statement, approval, now)?;
        self.guarantee_facilities.insert(facility.facility_id, facility);
        self.consume_operation(&operation_id)
    }

    /// Reserves part of a facility for a hold that the settlement layer
    /// confirms.
    pub fn reserve_guarantee<P: DeFmiPort>(
        &mut self,
        request: GuaranteeReservation,
        defmi: &P,
        now: u64,
    ) -> (r: Result<GuaranteeHold, DeCcpError>)
        ensures
            match old(self)@.reservation_refusal(request, now) {
                Some(error) => r == Err::<GuaranteeHold, DeCcpError>(error)
                    && final(self)@ == old(self)@,
                None => exists|reply: Result<(), String>|
                    {
                        &&& #[trigger] call_ensures(
                            P::verify_guarantee_hold,
                            (defmi, &request, now),
                            reply,
                        )
                        &&& (r, final(self)@) == old(self)@.guarantee_reserved(request, reply)
                    },
            },
    {
        let required = [
            request.operation_id,
            request.hold_id,
            request.facility_id,
            request.purpose_digest,
            request.defmi_hold_id,
            request.relation_proof_digest,
        ];
        if any_zero(&required) || request.amount == 0 || request.valid_until < now
            || self.operation_used(&request.operation_id) || self.guarantee_holds.contains_key(
            &request.hold_id,
        ) || self.confidential_guarantee_holds.contains_key(&request.hold_id)
            || self.defmi_hold_in_use(&request.defmi_hold_id) {
            return Err(DeCcpError::InvalidGuaranteeReservation);
        }
        assert(required@[0] != ZERO);
        let facility: GuaranteeFacility = match self.guarantee_facilities.get(
            &request.facility_id,
        ) {
            Some(found) => *found,
            None => {
                return Err(DeCcpError::UnknownGuaranteeFacility);
            },
        };
        if let Err(error) = self.active_participant(&facility.guarantor_id, now) {
            return Err(error);
        }
        let reply = defmi.verify_guarantee_hold(&request, now);
        self.book_reservation(request, facility, reply)
    }

    fn book_reservation(
        &mut self,
        request: GuaranteeReservation,
        facility: GuaranteeFacility,
        reply: Result<(), String>,
    ) -> (r: Result<GuaranteeHold, DeCcpError>)
        requires
            request.operation_id != ZERO,
            !old(self)@.used_operations.contains(request.operation_id),
            facility == old(self)@.guarantee_facilities[request.facility_id],
        ensures
            (r, final(self)@) == old(self)@.guarantee_reserved(request, reply),
    {
        if let Err(message) = reply {
            return Err(DeCcpError::DeFmiEvidenceRejected(message));
        }
        let mut facility = facility;
        if facility.status != GuaranteeFacilityStatus::Active || facility.valid_until
            < request.valid_until || facility.sequence != request.expected_facility_sequence {
            return Err(DeCcpError::StaleSequence);
        }
        let used: u128 = match facility.reserved.checked_add(facility.consumed) {
            Some(sum) => sum,
            None => {
                return Err(DeCcpError::ArithmeticOverflow);
            },
        };
        let allocated: u128 = match used.checked_add(request.amount) {
            Some(sum) => sum,
            None => {
                return Err(DeCcpError::ArithmeticOverflow);
            },
        };
        if allocated > facility.capacity {
            return Err(DeCcpError::GuaranteeCapacityExceeded);
        }
        facility.reserved = facility.reserved + request.amount;
        match facility.sequence.checked_add(1) {
            None => {
                return Err(DeCcpError::ArithmeticOverflow);
            },
            Some(next) => {
                facility.sequence = next;
            },
        }
        self.guarantee_facilities.insert(request.facility_id, facility);
        let hold = GuaranteeHold {
            hold_id: request.hold_id,
            facility_id: request.facility_id,
            purpose_digest: request.purpose_digest,
            amount: request.amount,
            defmi_hold_id: request.defmi_hold_id,
            relation_proof_digest: request.relation_proof_digest,
            valid_until: request.valid_until,
            status: GuaranteeHoldStatus::Reserved,
            bound_exposure_id: None,
            defmi_settlement_receipt: None,
        };
        self.guarantee_holds.insert(request.hold_id, hold);
        self.consume_operation(&request.operation_id)?;
        Ok(hold)
    }

    /// Binds a reserved hold to an exposure.
    pub fn bind_guarantee(
        &mut self,
        operation_id: Identifier,
        hold_id: Identifier,
        exposure_id: Identifier,
        now: u64,
    ) -> (r: Result<(), DeCcpError>)
        ensures
            (r, final(self)@) == old(self)@.guarantee_bound(
                operation_id,
                hold_id,
                exposure_id,
                now,
            ),
    {
        let required = [operation_id, hold_id, exposure_id];
        if any_zero(&required) || self.operation_used(&operation_id) {
            return Err(DeCcpError::InvalidGuaranteeReservation);
        }
        assert(required@[0] != ZERO);
        let mut hold: GuaranteeHold = match self.guarantee_holds.get(&hold_id) {
            Some(found) => *found,
            None => {
                return Err(DeCcpError::UnknownGuaranteeHold);
            },
        };
        if hold.status != GuaranteeHoldStatus::Reserved || hold.valid_until < now {
            return Err(DeCcpError::GuaranteeHoldUnavailable);
        }
        hold.status = GuaranteeHoldStatus::Bound;
        hold.bound_exposure_id = Some(exposure_id);
        self.guarantee_holds.insert(hold_id, hold);
        self.consume_operation(&operation_id)
    }

    /// Gives a hold back once the settlement layer confirms its release.
    pub fn release_guarantee<P: DeFmiPort>(
        &mut self,
        operation_id: Identifier,
        hold_id: Identifier,
        receipt: DefmiSettlementReceipt,
        defmi: &P,
        now: u64,
    ) -> (r: Result<(), DeCcpError>)
        ensures
            match old(self)@.release_refusal(operation_id, hold_id, receipt) {
                Some(error) => r == Err::<(), DeCcpError>(error) && final(self)@ == old(self)@,
                None => exists|reply: Result<(), String>|
                    {
                        &&& #[trigger] call_ensures(
                            P::verify_guarantee_release,
                            (defmi, &release_context(hold_id), &receipt, now),
                            reply,
                        )
                        &&& (r, final(self)@) == old(self)@.guarantee_released(
                            operation_id,
                            hold_id,
                            receipt,
                            reply,
                        )
                    },
            },
    {
        let expected_context = guarantee_release_context(&hold_id);
        if is_zero(&operation_id) || is_zero(&receipt.receipt_digest) || !same_id(
            &receipt.context_digest,
            &expected_context,
        ) || self.operation_used(&operation_id) {
            return Err(DeCcpError::ReplayOrStaleOperation);
        }
        let reply = defmi.verify_guarantee_release(&expected_context, &receipt, now);
        self.book_release(operation_id, hold_id, receipt, reply)
    }

    fn book_release(
        &mut self,
        operation_id: Identifier,
        hold_id: Identifier,
        receipt: DefmiSettlementReceipt,
        reply: Result<(), String>,
    ) -> (r: Result<(), DeCcpError>)
        requires
            operation_id != ZERO,
            !old(self)@.used_operations.contains(operation_id),
        ensures
            (r, final(self)@) == old(self)@.guarantee_released(
                operation_id,
                hold_id,
                receipt,
                reply,
            ),
    {
        if let Err(message) = reply {
            return Err(DeCcpError::DeFmiEvidenceRejected(message));
        }
        let mut hold: GuaranteeHold = match self.guarantee_holds.get(&hold_id) {
            Some(found) => *found,
            None => {
                return Err(DeCcpError::UnknownGuaranteeHold);
            },
        };
        if !hold.status.is_live() {
            return Err(DeCcpError::GuaranteeHoldUnavailable);
        }
        let mut facility: GuaranteeFacility = match self.guarantee_facilities.get(
            &hold.facility_id,
        ) {
            Some(found) => *found,
            None => {
                return Err(DeCcpError::UnknownGuaranteeFacility);
            },
        };
        if facility.reserved < hold.amount {
            return Err(DeCcpError::InvalidState);
        }
        facility.reserved = facility.reserved - hold.amount;
        match facility.sequence.checked_add(1) {
            None => {
                return Err(DeCcpError::ArithmeticOverflow);
            },
            Some(next) => {
                facility.sequence = next;
            },
        }
        self.guarantee_facilities.insert(hold.facility_id, facility);
        hold.status = GuaranteeHoldStatus::Released;
        hold.defmi_settlement_receipt = Some(receipt.receipt_digest);
        self.guarantee_holds.insert(hold_id, hold);
        self.consume_operation(&operation_id)
    }

    /// Pays a bound hold out once the settlement layer confirms the claim.
    pub fn consume_guarantee<P: DeFmiPort>(
        &mut self,
        request: GuaranteeClaimRequest,
        defmi: &P,
        now: u64,
    ) -> (r: Result<(), DeCcpError>)
        ensures
            match old(self)@.claim_refusal(request) {
                Some(error) => r == Err::<(), DeCcpError>(error) && final(self)@ == old(self)@,
                None => exists|reply: Result<(), String>|
                    {
                        &&& #[trigger] call_ensures(
                            P::verify_settlement,
                            (
                                defmi,
                                &claim_context(
                                    request.hold_id,
                                    request.exposure_id,
                                    request.default_event_digest,
                                ),
                                &request.receipt,
                                now,
                            ),
                            reply,
                        )
                        &&& (r, final(self)@) == old(self)@.guarantee_consumed(request, reply, now)
                    },
            },
    {
        let required = [
            request.operation_id,
            request.hold_id,
            request.exposure_id,
            request.default_event_digest,
            request.receipt.receipt_digest,
        ];
        if any_zero(&required) || self.operation_used(&request.operation_id) {
            return Err(DeCcpError::InvalidGuaranteeClaim);
        }
        assert(required@[0] != ZERO);
        let expected_context = guarantee_claim_context(
            &request.hold_id,
            &request.exposure_id,
            &request.default_event_digest,
        );
        if !same_id(&request.receipt.context_digest, &expected_context) {
            return Err(DeCcpError::InvalidGuaranteeClaim);
        }
        let reply = defmi.verify_settlement(&expected_context, &request.receipt, now);
        self.book_claim(request, reply, now)
    }

    fn book_claim(
        &mut self,
        request: GuaranteeClaimRequest,
        reply: Result<(), String>,
        now: u64,
    ) -> (r: Result<(), DeCcpError>)
        requires
            request.operation_id != ZERO,
            !old(self)@.used_operations.contains(request.operation_id),
        ensures
            (r, final(self)@) == old(self)@.guarantee_consumed(request, reply, now),
    {
        if let Err(message) = reply {
            return Err(DeCcpError::DeFmiEvidenceRejected(message));
        }
        let mut hold: GuaranteeHold = match self.guarantee_holds.get(&request.hold_id) {
            Some(found) => *found,
            None => {
                return Err(DeCcpError::UnknownGuaranteeHold);
            },
        };
        if hold.status != GuaranteeHoldStatus::Bound || !holds_id(
            &hold.bound_exposure_id,
            &request.exposure_id,
        ) || hold.valid_until < now {
            return Err(DeCcpError::GuaranteeHoldUnavailable);
        }
        let mut facility: GuaranteeFacility = match self.guarantee_facilities.get(
            &hold.facility_id,
        ) {
            Some(found) => *found,
            None => {
                return Err(DeCcpError::UnknownGuaranteeFacility);
            },
        };
        if facility.reserved < hold.amount {
            return Err(DeCcpError::InvalidState);
        }
        facility.reserved = facility.reserved - hold.amount;
        match facility.consumed.checked_add(hold.amount) {
            None => {
                return Err(DeCcpError::ArithmeticOverflow);
            },
            Some(sum) => {
                facility.consumed = sum;
            },
        }
        match facility.sequence.checked_add(1) {
            None => {
                return Err(DeCcpError::ArithmeticOverflow);
            },
            Some(next) => {
                facility.sequence = next;
            },
        }
        if facility.consumed == facility.capacity {
            facility.status = GuaranteeFacilityStatus::Exhausted;
        }
        self.guarantee_facilities.insert(hold.facility_id, facility);
        hold.status = GuaranteeHoldStatus::Consumed;
        hold.defmi_settlement_receipt = Some(request.receipt.receipt_digest);
        self.guarantee_holds.insert(request.hold_id, hold);
        self.consume_operation(&request.operation_id)
    }
}

} // verus!
