//! Laws of guarantees: capacity is never exceeded, a facility state is spent
//! once, and an ended hold stays ended.

use vstd::prelude::*;

use crate::book::BookState;
use crate::error::DeCcpError;
use crate::guarantees::{
    ConfidentialGuaranteeClaimRequest, ConfidentialGuaranteeReleaseRequest,
    ConfidentialGuaranteeReservation, DefmiSettlementReceipt, GuaranteeClaimRequest,
    GuaranteeHoldStatus, GuaranteeReservation,
};
use crate::ident::Identifier;

verus! {

/// A facility of a valid book never has more reserved and consumed together
/// than its capacity, and what it books is what its holds add up to.
pub proof fn law_capacity_is_never_exceeded(book: BookState, facility_id: Identifier)
    requires
        book.valid(),
        book.guarantee_facilities.contains_key(facility_id),
    ensures
        ({
            let facility = book.guarantee_facilities[facility_id];
            &&& facility.reserved + facility.consumed <= facility.capacity
            &&& facility.reserved == book.held(facility_id, false)
            &&& facility.consumed == book.held(facility_id, true)
        }),
{
    assert(book.facility_sound(facility_id));
}

/// A reservation moves exactly its amount into the reserved part, stays within
/// capacity, and advances the sequence; a reservation that names the same
/// sequence is then refused, so concurrent reservations cannot share a state.
pub proof fn law_one_reservation_per_sequence(
    book: BookState,
    first: GuaranteeReservation,
    second: GuaranteeReservation,
    reply: Result<(), String>,
    later_reply: Result<(), String>,
)
    requires
        book.guarantee_reserved(first, reply).0 is Ok,
        second.facility_id == first.facility_id,
        second.expected_facility_sequence == first.expected_facility_sequence,
    ensures
        ({
            let before = book.guarantee_facilities[first.facility_id];
            let middle = book.guarantee_reserved(first, reply).1;
            let after = middle.guarantee_facilities[first.facility_id];
            &&& after.reserved == before.reserved + first.amount
            &&& after.consumed == before.consumed
            &&& after.reserved + after.consumed <= after.capacity
            &&& after.sequence == before.sequence + 1
            &&& middle.guarantee_reserved(second, later_reply).0 is Err
            &&& later_reply is Ok ==> middle.guarantee_reserved(second, later_reply).0->Err_0
                == DeCcpError::StaleSequence
        }),
{
}

/// A confidential reservation is a compare-and-swap: once one succeeds, another
/// that names the same prior sequence and state digest is refused as stale.
pub proof fn law_confidential_state_is_spent_once(
    book: BookState,
    first: ConfidentialGuaranteeReservation,
    second: ConfidentialGuaranteeReservation,
    reply: Result<(), String>,
    now: u64,
    later: u64,
)
    requires
        book.confidential_reservation_refusal(first, now) is None,
        book.confidential_guarantee_reserved(first, reply).0 is Ok,
        second.facility_id == first.facility_id,
        second.expected_facility_sequence == first.expected_facility_sequence,
    ensures
        ({
            let before = book.confidential_guarantee_facilities[first.facility_id];
            let middle = book.confidential_guarantee_reserved(first, reply).1;
            let after = middle.confidential_guarantee_facilities[first.facility_id];
            &&& after.sequence == before.sequence + 1
            &&& before.latest_facility_state_digest == first.expected_facility_state_digest
            &&& after.latest_facility_state_digest == first.after_facility_state_digest
            &&& after.latest_facility_state_digest != before.latest_facility_state_digest
            &&& middle.confidential_reservation_refusal(second, later) is Some
        }),
{
}

/// A confidential release is a compare-and-swap, too: it advances the sequence
/// from the state that it names, and a reservation, release, or claim on the same
/// facility that names the prior sequence is refused from then on.
pub proof fn law_confidential_release_spends_the_state(
    book: BookState,
    release: ConfidentialGuaranteeReleaseRequest,
    reply: Result<(), String>,
    reservation: ConfidentialGuaranteeReservation,
    claim: ConfidentialGuaranteeClaimRequest,
    again: ConfidentialGuaranteeReleaseRequest,
    now: u64,
)
    requires
        book.confidential_release_refusal(release) is None,
        book.confidential_guarantee_released(release, reply).0 is Ok,
        reservation.facility_id == book.confidential_guarantee_holds[release.hold_id].facility_id,
        reservation.expected_facility_sequence == release.expected_facility_sequence,
        book.confidential_guarantee_holds[claim.hold_id].facility_id
            == book.confidential_guarantee_holds[release.hold_id].facility_id,
        claim.expected_facility_sequence == release.expected_facility_sequence,
        book.confidential_guarantee_holds[again.hold_id].facility_id
            == book.confidential_guarantee_holds[release.hold_id].facility_id,
        again.expected_facility_sequence == release.expected_facility_sequence,
    ensures
        ({
            let after = book.confidential_guarantee_released(release, reply).1;
            &&& book.facility_of(release.hold_id).latest_facility_state_digest
                == release.expected_facility_state_digest
            &&& after.facility_of(release.hold_id).latest_facility_state_digest
                == release.after_facility_state_digest
            &&& after.facility_of(release.hold_id).sequence == book.facility_of(
                release.hold_id,
            ).sequence + 1
            &&& after.confidential_reservation_refusal(reservation, now) is Some
            &&& after.confidential_claim_refusal(claim, now) is Some
            &&& after.confidential_release_refusal(again) is Some
        }),
{
}

/// A confidential claim is a compare-and-swap, too: it advances the sequence
/// from the state that it names, and a reservation, release, or claim on the same
/// facility that names the prior sequence is refused from then on.
pub proof fn law_confidential_claim_spends_the_state(
    book: BookState,
    claim: ConfidentialGuaranteeClaimRequest,
    reply: Result<(), String>,
    now: u64,
    reservation: ConfidentialGuaranteeReservation,
    release: ConfidentialGuaranteeReleaseRequest,
    again: ConfidentialGuaranteeClaimRequest,
    later: u64,
)
    requires
        book.confidential_claim_refusal(claim, now) is None,
        book.confidential_guarantee_consumed(claim, reply).0 is Ok,
        reservation.facility_id == book.confidential_guarantee_holds[claim.hold_id].facility_id,
        reservation.expected_facility_sequence == claim.expected_facility_sequence,
        book.confidential_guarantee_holds[release.hold_id].facility_id
            == book.confidential_guarantee_holds[claim.hold_id].facility_id,
        release.expected_facility_sequence == claim.expected_facility_sequence,
        book.confidential_guarantee_holds[again.hold_id].facility_id
            == book.confidential_guarantee_holds[claim.hold_id].facility_id,
        again.expected_facility_sequence == claim.expected_facility_sequence,
    ensures
        ({
            let after = book.confidential_guarantee_consumed(claim, reply).1;
            &&& book.facility_of(claim.hold_id).latest_facility_state_digest
                == claim.expected_facility_state_digest
            &&& after.facility_of(claim.hold_id).latest_facility_state_digest
                == claim.after_facility_state_digest
            &&& after.facility_of(claim.hold_id).sequence == book.facility_of(
                claim.hold_id,
            ).sequence + 1
            &&& after.confidential_reservation_refusal(reservation, later) is Some
            &&& after.confidential_release_refusal(release) is Some
            &&& after.confidential_claim_refusal(again, later) is Some
        }),
{
}

/// A released or consumed hold can be neither bound, released, nor claimed.
pub proof fn law_ended_hold_stays_ended(
    book: BookState,
    hold_id: Identifier,
    operation_id: Identifier,
    exposure_id: Identifier,
    receipt: DefmiSettlementReceipt,
    claim: GuaranteeClaimRequest,
    reply: Result<(), String>,
    now: u64,
)
    requires
        !book.guarantee_holds[hold_id].status.live(),
        claim.hold_id == hold_id,
    ensures
        book.guarantee_bound(operation_id, hold_id, exposure_id, now).0 is Err,
        book.guarantee_released(operation_id, hold_id, receipt, reply).0 is Err,
        book.guarantee_consumed(claim, reply, now).0 is Err,
{
}

/// A released or consumed confidential hold can be neither bound, released, nor
/// claimed.
pub proof fn law_ended_confidential_hold_stays_ended(
    book: BookState,
    hold_id: Identifier,
    operation_id: Identifier,
    exposure_id: Identifier,
    release: ConfidentialGuaranteeReleaseRequest,
    claim: ConfidentialGuaranteeClaimRequest,
    now: u64,
)
    requires
        !book.confidential_guarantee_holds[hold_id].status.live(),
        release.hold_id == hold_id,
        claim.hold_id == hold_id,
    ensures
        book.confidential_guarantee_bound(operation_id, hold_id, exposure_id, now).0 is Err,
        book.confidential_release_refusal(release) is Some,
        book.confidential_claim_refusal(claim, now) is Some,
{
}

/// A hold that has expired cannot be bound or claimed, only released.
pub proof fn law_expired_hold_cannot_be_claimed(
    book: BookState,
    hold_id: Identifier,
    operation_id: Identifier,
    exposure_id: Identifier,
    claim: GuaranteeClaimRequest,
    reply: Result<(), String>,
    now: u64,
)
    requires
        book.guarantee_holds[hold_id].valid_until < now,
        claim.hold_id == hold_id,
    ensures
        book.guarantee_bound(operation_id, hold_id, exposure_id, now).0 is Err,
        book.guarantee_consumed(claim, reply, now).0 is Err,
{
}

/// A confidential hold that has expired cannot be bound or claimed.
pub proof fn law_expired_confidential_hold_cannot_be_claimed(
    book: BookState,
    hold_id: Identifier,
    operation_id: Identifier,
    exposure_id: Identifier,
    claim: ConfidentialGuaranteeClaimRequest,
    now: u64,
)
    requires
        book.confidential_guarantee_holds[hold_id].valid_until < now,
        claim.hold_id == hold_id,
    ensures
        book.confidential_guarantee_bound(operation_id, hold_id, exposure_id, now).0 is Err,
        book.confidential_claim_refusal(claim, now) is Some,
{
}

/// A claim is paid only for the exposure that the hold was bound to, and moves
/// its amount from the reserved to the consumed part; a facility whose whole
/// capacity is consumed is exhausted.
pub proof fn law_claim_moves_the_amount(
    book: BookState,
    claim: GuaranteeClaimRequest,
    reply: Result<(), String>,
    now: u64,
)
    requires
        book.guarantee_consumed(claim, reply, now).0 is Ok,
    ensures
        ({
            let hold = book.guarantee_holds[claim.hold_id];
            let before = book.guarantee_facilities[hold.facility_id];
            let after = book.guarantee_consumed(claim, reply, now).1.guarantee_facilities[hold.facility_id];
            &&& hold.bound_exposure_id == Some(claim.exposure_id)
            &&& after.reserved == before.reserved - hold.amount
            &&& after.consumed == before.consumed + hold.amount
            &&& after.capacity == before.capacity
            &&& after.consumed == after.capacity ==> after.status
                == crate::guarantees::GuaranteeFacilityStatus::Exhausted
        }),
{
}

/// A release gives exactly the held amount back.
pub proof fn law_release_returns_the_amount(
    book: BookState,
    operation_id: Identifier,
    hold_id: Identifier,
    receipt: DefmiSettlementReceipt,
    reply: Result<(), String>,
)
    requires
        book.guarantee_released(operation_id, hold_id, receipt, reply).0 is Ok,
    ensures
        ({
            let hold = book.guarantee_holds[hold_id];
            let before = book.guarantee_facilities[hold.facility_id];
            let outcome = book.guarantee_released(operation_id, hold_id, receipt, reply);
            let after = outcome.1.guarantee_facilities[hold.facility_id];
            &&& after.reserved == before.reserved - hold.amount
            &&& after.consumed == before.consumed
            &&& outcome.1.guarantee_holds[hold_id].status == GuaranteeHoldStatus::Released
        }),
{
}

} // verus!
