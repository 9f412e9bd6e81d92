//! Laws of soundness: what a book has to keep to pass its own check, table by
//! table.

use vstd::prelude::*;

use crate::book::{BookState, ClearingBook};
use crate::cycles::CycleStatus;
use crate::error::DeCcpError;
use crate::guarantees::{GuaranteeHold, GuaranteeHoldStatus};
use crate::ident::{ascending, lemma_ascending_exists, Identifier, ZERO};
use crate::laws::authority::sound_set;
use crate::laws::clearing::{lemma_obligation_complete, obligation_complete};
use crate::laws::members::valuable;
use crate::members::ParticipantStatus;
use crate::validate::tally;

verus! {

/// Whether the counterparty's own capital has a lock, a proof, and an expiry.
pub open spec fn capital_kept(book: BookState) -> bool {
    book.ccp_capital_defmi_lock_id != ZERO && book.ccp_capital_proof_digest != ZERO
        && book.ccp_capital_valid_until > 0
}

/// Whether every member is filed under its identifier with a margin account, and
/// nobody else has one; and subject lines and locks are each used once, the
/// capital's lock by no member.
pub open spec fn members_kept(book: BookState) -> bool {
    &&& forall|m: Identifier| #[trigger]
        book.participants.contains_key(m) ==> book.participants[m].participant_id == m
            && book.margins.contains_key(m) && book.participants[m].default_fund_defmi_lock_id
            != book.ccp_capital_defmi_lock_id
    &&& forall|m: Identifier| #[trigger]
        book.margins.contains_key(m) ==> book.participants.contains_key(m)
    &&& forall|m: Identifier, n: Identifier| #[trigger]
        book.participants.contains_key(m) && #[trigger] book.participants.contains_key(n) && (
        book.participants[m].eligibility.subject_line_id
            == book.participants[n].eligibility.subject_line_id
            || book.participants[m].default_fund_defmi_lock_id
            == book.participants[n].default_fund_defmi_lock_id) ==> m == n
}

/// Whether every lot is filed under its identifier, belongs to a member, can be
/// valued, and has a lock that backs nothing else.
pub open spec fn lots_kept(book: BookState) -> bool {
    &&& forall|l: Identifier| #[trigger]
        book.collateral.contains_key(l) ==> {
            &&& book.collateral[l].lot_id == l
            &&& book.participants.contains_key(book.collateral[l].owner_id)
            &&& valuable(book.collateral[l])
            &&& book.collateral[l].defmi_lock_id != book.ccp_capital_defmi_lock_id
        }
    &&& forall|l: Identifier, m: Identifier| #[trigger]
        book.collateral.contains_key(l) && #[trigger] book.participants.contains_key(m)
            ==> book.collateral[l].defmi_lock_id
            != book.participants[m].default_fund_defmi_lock_id
    &&& forall|l: Identifier, k: Identifier| #[trigger]
        book.collateral.contains_key(l) && #[trigger] book.collateral.contains_key(k)
            && book.collateral[l].defmi_lock_id == book.collateral[k].defmi_lock_id ==> l == k
}

/// Whether every cycle is filed under its identifier, has a proposal exactly if it
/// is no longer open and a receipt exactly if it is settled, and lists obligations
/// on file that are its own.
pub open spec fn cycles_kept(book: BookState) -> bool {
    &&& forall|c: Identifier| #[trigger]
        book.cycles.contains_key(c) ==> {
            &&& book.cycles[c].cycle_id == c
            &&& book.cycles[c].closed_proposal is Some <==> book.cycles[c].status
                != CycleStatus::Open
            &&& book.cycles[c].defmi_settlement_receipt is Some <==> book.cycles[c].status
                == CycleStatus::Settled
        }
    &&& forall|c: Identifier, i: int|
        #![trigger book.cycles[c].obligations[i]]
        book.cycles.contains_key(c) && 0 <= i < book.cycles[c].obligations.len()
            ==> book.obligations.contains_key(book.cycles[c].obligations[i])
            && book.obligations[book.cycles[c].obligations[i]].cycle_id == c
}

/// Whether every obligation is filed under its identifier, complete, and listed by
/// its cycle.
pub open spec fn obligations_kept(book: BookState) -> bool {
    forall|o: Identifier| #[trigger]
        book.obligations.contains_key(o) ==> {
            &&& book.obligations[o].obligation_id == o
            &&& obligation_complete(book.obligations[o])
            &&& book.cycles.contains_key(book.obligations[o].cycle_id)
            &&& book.cycles[book.obligations[o].cycle_id].obligations.contains(o)
        }
}

/// Whether a hold has an exposure and a receipt as its status asks: none while it
/// is reserved, an exposure alone while it is bound, both once it is consumed, and
/// a receipt at least once it is released.
pub open spec fn hold_shaped(
    status: GuaranteeHoldStatus,
    exposed: bool,
    receipted: bool,
) -> bool {
    &&& status == GuaranteeHoldStatus::Reserved ==> !exposed && !receipted
    &&& status == GuaranteeHoldStatus::Bound ==> exposed && !receipted
    &&& status == GuaranteeHoldStatus::Consumed ==> exposed && receipted
    &&& status == GuaranteeHoldStatus::Released ==> receipted
}

/// Whether every hold is filed under its identifier, fits its status, is for some
/// amount of a facility on file, and has a settlement-layer hold of its own.
pub open spec fn holds_kept(book: BookState) -> bool {
    &&& forall|h: Identifier| #[trigger]
        book.guarantee_holds.contains_key(h) ==> {
            let hold = book.guarantee_holds[h];
            &&& hold.hold_id == h
            &&& hold_shaped(
                hold.status,
                hold.bound_exposure_id is Some,
                hold.defmi_settlement_receipt is Some,
            )
            &&& book.guarantee_facilities.contains_key(hold.facility_id)
            &&& hold.amount > 0
        }
    &&& forall|h: Identifier, k: Identifier| #[trigger]
        book.guarantee_holds.contains_key(h) && #[trigger] book.guarantee_holds.contains_key(k)
            && book.guarantee_holds[h].defmi_hold_id == book.guarantee_holds[k].defmi_hold_id
            ==> h == k
}

/// What the reserved and bound holds on a facility add up to.
pub open spec fn live_total(
    holds: Map<Identifier, GuaranteeHold>,
    keys: Seq<Identifier>,
    facility: Identifier,
) -> int
    decreases keys.len(),
{
    if keys.len() == 0 {
        0
    } else {
        let hold = holds[keys.last()];
        live_total(holds, keys.drop_last(), facility) + if hold.facility_id == facility && (
        hold.status == GuaranteeHoldStatus::Reserved || hold.status == GuaranteeHoldStatus::Bound) {
            hold.amount as int
        } else {
            0
        }
    }
}

/// What the consumed holds on a facility add up to.
pub open spec fn paid_total(
    holds: Map<Identifier, GuaranteeHold>,
    keys: Seq<Identifier>,
    facility: Identifier,
) -> int
    decreases keys.len(),
{
    if keys.len() == 0 {
        0
    } else {
        let hold = holds[keys.last()];
        paid_total(holds, keys.drop_last(), facility) + if hold.facility_id == facility
            && hold.status == GuaranteeHoldStatus::Consumed {
            hold.amount as int
        } else {
            0
        }
    }
}

/// Whether every facility is filed under its identifier with a guarantor on file,
/// has capacity, books as reserved what its reserved and bound holds add up to and
/// as consumed what its consumed holds add up to, and does not exceed its capacity.
pub open spec fn facilities_kept(book: BookState) -> bool {
    let keys = ascending(book.guarantee_holds.dom());
    forall|f: Identifier| #[trigger]
        book.guarantee_facilities.contains_key(f) ==> {
            let facility = book.guarantee_facilities[f];
            &&& facility.facility_id == f
            &&& book.participants.contains_key(facility.guarantor_id)
            &&& facility.capacity > 0
            &&& facility.reserved == live_total(book.guarantee_holds, keys, f)
            &&& facility.consumed == paid_total(book.guarantee_holds, keys, f)
            &&& facility.reserved + facility.consumed <= facility.capacity
        }
}

/// Whether every confidential facility is filed under an identifier of its own
/// with a guarantor on file and its commitments; and every confidential hold is
/// filed under its identifier, fits its status, has its commitments, is on a
/// facility on file, and has a settlement-layer hold that backs no other hold.
pub open spec fn confidential_kept(book: BookState) -> bool {
    &&& forall|f: Identifier| #[trigger]
        book.confidential_guarantee_facilities.contains_key(f) ==> {
            let facility = book.confidential_guarantee_facilities[f];
            &&& facility.facility_id == f
            &&& !book.guarantee_facilities.contains_key(f)
            &&& book.participants.contains_key(facility.guarantor_id)
            &&& facility.capacity_commitment != ZERO
            &&& facility.latest_facility_state_digest != ZERO
        }
    &&& forall|h: Identifier| #[trigger]
        book.confidential_guarantee_holds.contains_key(h) ==> {
            let hold = book.confidential_guarantee_holds[h];
            &&& hold.hold_id == h
            &&& hold_shaped(
                hold.status,
                hold.bound_exposure_id is Some,
                hold.defmi_settlement_receipt is Some,
            )
            &&& book.confidential_guarantee_facilities.contains_key(hold.facility_id)
            &&& hold.coverage_commitment != ZERO
            &&& hold.reserved_state_digest != ZERO
        }
    &&& forall|h: Identifier, k: Identifier| #[trigger]
        book.confidential_guarantee_holds.contains_key(h)
            && #[trigger] book.guarantee_holds.contains_key(k)
            ==> book.confidential_guarantee_holds[h].defmi_hold_id
            != book.guarantee_holds[k].defmi_hold_id
    &&& forall|h: Identifier, k: Identifier| #[trigger]
        book.confidential_guarantee_holds.contains_key(h)
            && #[trigger] book.confidential_guarantee_holds.contains_key(k)
            && book.confidential_guarantee_holds[h].defmi_hold_id
            == book.confidential_guarantee_holds[k].defmi_hold_id ==> h == k
}

/// Whether every case is filed under its identifier, is about a defaulted member,
/// and has a receipt exactly if it has a resolution, which is of this case and this
/// member.
pub open spec fn cases_kept(book: BookState) -> bool {
    forall|c: Identifier| #[trigger]
        book.defaults.contains_key(c) ==> {
            let case = book.defaults[c];
            &&& case.case_id == c
            &&& book.participants.contains_key(case.evidence.participant_id)
            &&& book.participants[case.evidence.participant_id].status
                == ParticipantStatus::Defaulted
            &&& case.resolution is Some <==> case.defmi_settlement_receipt is Some
            &&& case.resolution is Some ==> case.resolution->0.case_id == c
                && case.resolution->0.participant_id == case.evidence.participant_id
        }
}

/// Whether every table is finite.
pub open spec fn tables_finite(book: BookState) -> bool {
    &&& book.participants.dom().finite()
    &&& book.collateral.dom().finite()
    &&& book.margins.dom().finite()
    &&& book.cycles.dom().finite()
    &&& book.obligations.dom().finite()
    &&& book.guarantee_facilities.dom().finite()
    &&& book.guarantee_holds.dom().finite()
    &&& book.confidential_guarantee_facilities.dom().finite()
    &&& book.confidential_guarantee_holds.dom().finite()
    &&& book.defaults.dom().finite()
    &&& book.used_operations.finite()
}

proof fn lemma_totals(
    holds: Map<Identifier, GuaranteeHold>,
    keys: Seq<Identifier>,
    facility: Identifier,
)
    ensures
        tally(holds, keys, facility, false) == live_total(holds, keys, facility),
        tally(holds, keys, facility, true) == paid_total(holds, keys, facility),
    decreases keys.len(),
{
    if keys.len() > 0 {
        lemma_totals(holds, keys.drop_last(), facility);
    }
}

proof fn lemma_members_kept(book: BookState)
    ensures
        book.participants_sound() <==> members_kept(book),
{
}

proof fn lemma_lots_kept(book: BookState)
    ensures
        book.collateral_sound() <==> lots_kept(book),
{
    if book.collateral_sound() {
        assert forall|l: Identifier, m: Identifier| #[trigger]
            book.collateral.contains_key(l) && #[trigger] book.participants.contains_key(
                m,
            ) implies book.collateral[l].defmi_lock_id
            != book.participants[m].default_fund_defmi_lock_id by {
            assert(book.lot_sound(l));
        }
    }
    if lots_kept(book) {
        assert forall|l: Identifier| #[trigger] book.collateral.contains_key(l) implies book.lot_sound(
            l,
        ) && book.collateral[l].valuation_error() is None by {}
    }
}

proof fn lemma_cycles_kept(book: BookState)
    ensures
        book.cycles_sound() <==> cycles_kept(book),
{
    if book.cycles_sound() {
        assert forall|c: Identifier| #[trigger] book.cycles.contains_key(c) implies {
            &&& book.cycles[c].cycle_id == c
            &&& book.cycles[c].closed_proposal is Some <==> book.cycles[c].status
                != CycleStatus::Open
            &&& book.cycles[c].defmi_settlement_receipt is Some <==> book.cycles[c].status
                == CycleStatus::Settled
        } by {
            assert(book.cycle_sound(c));
        }
        assert forall|c: Identifier, i: int|
            #![trigger book.cycles[c].obligations[i]]
            book.cycles.contains_key(c) && 0 <= i
                < book.cycles[c].obligations.len() implies book.obligations.contains_key(
            book.cycles[c].obligations[i],
        ) && book.obligations[book.cycles[c].obligations[i]].cycle_id == c by {
            assert(book.cycle_sound(c));
        }
    }
    if cycles_kept(book) {
        assert forall|c: Identifier| #[trigger] book.cycles.contains_key(c) implies book.cycle_sound(
            c,
        ) by {
            let cycle = book.cycles[c];
            assert forall|i: int| 0 <= i < cycle.obligations.len() implies book.obligations.contains_key(
                #[trigger] cycle.obligations[i],
            ) && book.obligations[cycle.obligations[i]].cycle_id == cycle.cycle_id by {
                assert(book.cycles[c].obligations[i] == cycle.obligations[i]);
            }
        }
    }
}

proof fn lemma_obligations_kept(book: BookState)
    ensures
        book.obligations_sound() <==> obligations_kept(book),
{
    assert forall|o: Identifier| #[trigger]
        book.obligations.contains_key(o) implies book.obligations[o].well_formed()
        == obligation_complete(book.obligations[o]) by {
        lemma_obligation_complete(book.obligations[o]);
    }
}

proof fn lemma_holds_kept(book: BookState)
    ensures
        book.holds_sound() <==> holds_kept(book),
{
    if book.holds_sound() {
        assert forall|h: Identifier| #[trigger] book.guarantee_holds.contains_key(h) implies {
            let hold = book.guarantee_holds[h];
            &&& hold.hold_id == h
            &&& hold_shaped(
                hold.status,
                hold.bound_exposure_id is Some,
                hold.defmi_settlement_receipt is Some,
            )
            &&& book.guarantee_facilities.contains_key(hold.facility_id)
            &&& hold.amount > 0
        } by {
            assert(book.hold_sound(h));
        }
    }
    if holds_kept(book) {
        assert forall|h: Identifier| #[trigger]
            book.guarantee_holds.contains_key(h) implies book.hold_sound(h) by {}
    }
}

proof fn lemma_facilities_kept(book: BookState)
    ensures
        book.facilities_sound() <==> facilities_kept(book),
{
    let keys = ascending(book.guarantee_holds.dom());
    assert forall|f: Identifier| #[trigger] book.guarantee_facilities.contains_key(f) implies {
        &&& book.held(f, false) == live_total(book.guarantee_holds, keys, f)
        &&& book.held(f, true) == paid_total(book.guarantee_holds, keys, f)
    } by {
        lemma_totals(book.guarantee_holds, keys, f);
    }
    if book.facilities_sound() {
        assert forall|f: Identifier| #[trigger] book.guarantee_facilities.contains_key(f) implies {
            let facility = book.guarantee_facilities[f];
            &&& facility.facility_id == f
            &&& book.participants.contains_key(facility.guarantor_id)
            &&& facility.capacity > 0
            &&& facility.reserved == live_total(book.guarantee_holds, keys, f)
            &&& facility.consumed == paid_total(book.guarantee_holds, keys, f)
            &&& facility.reserved + facility.consumed <= facility.capacity
        } by {
            assert(book.facility_sound(f));
        }
    }
    if facilities_kept(book) {
        assert forall|f: Identifier| #[trigger]
            book.guarantee_facilities.contains_key(f) implies book.facility_sound(f) by {}
    }
}

proof fn lemma_confidential_kept(book: BookState)
    ensures
        book.confidential_facilities_sound() && book.confidential_holds_sound()
            <==> confidential_kept(book),
{
    if book.confidential_facilities_sound() && book.confidential_holds_sound() {
        assert forall|f: Identifier| #[trigger]
            book.confidential_guarantee_facilities.contains_key(f) implies {
            let facility = book.confidential_guarantee_facilities[f];
            &&& facility.facility_id == f
            &&& !book.guarantee_facilities.contains_key(f)
            &&& book.participants.contains_key(facility.guarantor_id)
            &&& facility.capacity_commitment != ZERO
            &&& facility.latest_facility_state_digest != ZERO
        } by {
            assert(book.confidential_facility_sound(f));
        }
        assert forall|h: Identifier| #[trigger]
            book.confidential_guarantee_holds.contains_key(h) implies {
            let hold = book.confidential_guarantee_holds[h];
            &&& hold.hold_id == h
            &&& hold_shaped(
                hold.status,
                hold.bound_exposure_id is Some,
                hold.defmi_settlement_receipt is Some,
            )
            &&& book.confidential_guarantee_facilities.contains_key(hold.facility_id)
            &&& hold.coverage_commitment != ZERO
            &&& hold.reserved_state_digest != ZERO
        } by {
            assert(book.confidential_hold_sound(h));
        }
        assert forall|h: Identifier, k: Identifier| #[trigger]
            book.confidential_guarantee_holds.contains_key(h)
                && #[trigger] book.guarantee_holds.contains_key(
                k,
            ) implies book.confidential_guarantee_holds[h].defmi_hold_id
            != book.guarantee_holds[k].defmi_hold_id by {
            assert(book.confidential_hold_sound(h));
        }
    }
    if confidential_kept(book) {
        assert forall|f: Identifier| #[trigger]
            book.confidential_guarantee_facilities.contains_key(
                f,
            ) implies book.confidential_facility_sound(f) by {}
        assert forall|h: Identifier| #[trigger]
            book.confidential_guarantee_holds.contains_key(
                h,
            ) implies book.confidential_hold_sound(h) by {}
    }
}

proof fn lemma_cases_kept(book: BookState)
    ensures
        book.defaults_sound() <==> cases_kept(book),
{
    if book.defaults_sound() {
        assert forall|c: Identifier| #[trigger] book.defaults.contains_key(c) implies {
            let case = book.defaults[c];
            &&& case.case_id == c
            &&& book.participants.contains_key(case.evidence.participant_id)
            &&& book.participants[case.evidence.participant_id].status
                == ParticipantStatus::Defaulted
            &&& case.resolution is Some <==> case.defmi_settlement_receipt is Some
            &&& case.resolution is Some ==> case.resolution->0.case_id == c
                && case.resolution->0.participant_id == case.evidence.participant_id
        } by {
            assert(book.default_sound(c));
        }
    }
    if cases_kept(book) {
        assert forall|c: Identifier| #[trigger]
            book.defaults.contains_key(c) implies book.default_sound(c) by {}
    }
}

/// Whether a book keeps all of its tables as it has to.
pub open spec fn all_kept(book: BookState) -> bool {
    &&& tables_finite(book)
    &&& sound_set(book.authorities)
    &&& capital_kept(book)
    &&& members_kept(book)
    &&& lots_kept(book)
    &&& cycles_kept(book)
    &&& obligations_kept(book)
    &&& holds_kept(book)
    &&& facilities_kept(book)
    &&& confidential_kept(book)
    &&& cases_kept(book)
}

/// A book is valid exactly if it keeps all of its tables as it has to.
pub proof fn law_valid_books(book: BookState)
    ensures
        book.valid() <==> all_kept(book),
{
    let approval = crate::authority::ApprovalView {
        version: crate::authority::Version::V1,
        suite: crate::authority::SuiteId::Ed25519MlDsa65,
        authority_epoch: 0,
        authority_digest: ZERO,
        statement_digest: ZERO,
        signatures: Seq::empty(),
    };
    crate::laws::authority::law_refusal_of_approval(book.authorities, ZERO, approval, None);
    lemma_members_kept(book);
    lemma_lots_kept(book);
    lemma_cycles_kept(book);
    lemma_obligations_kept(book);
    lemma_holds_kept(book);
    lemma_facilities_kept(book);
    lemma_confidential_kept(book);
    lemma_cases_kept(book);
}

/// A book passes its check exactly if it keeps all of its tables as it has to. A
/// set that is not sound is reported as such, and so is unusable capital.
pub proof fn law_book_check(book: ClearingBook, r: Result<(), DeCcpError>)
    requires
        call_ensures(ClearingBook::validate, (&book,), r),
    ensures
        r is Ok <==> all_kept(book@),
        r == Err::<(), DeCcpError>(DeCcpError::InvalidAuthoritySet) <==> !sound_set(
            book@.authorities,
        ),
        r == Err::<(), DeCcpError>(DeCcpError::InvalidCapital) <==> sound_set(book@.authorities)
            && !capital_kept(book@),
        sound_set(book@.authorities) && capital_kept(book@) && !members_kept(book@) ==> r == Err::<
            (),
            DeCcpError,
        >(DeCcpError::InvalidState),
        r matches Err(DeCcpError::InvalidCollateral) && tables_finite(book@) ==> exists|l: Identifier|
            #[trigger] book@.collateral.contains_key(l) && book@.collateral[l].haircut_basis_points
                >= 10_000,
        r matches Err(DeCcpError::InvalidObligation) && tables_finite(book@) ==> exists|o: Identifier|
            #[trigger] book@.obligations.contains_key(o) && !obligation_complete(
                book@.obligations[o],
            ),
        r matches Err(error) ==> error is InvalidAuthoritySet || error is InvalidCapital
            || error is InvalidState || error is InvalidCollateral || error is InvalidObligation
            || error is ArithmeticOverflow,
{
    law_valid_books(book@);
    let approval = crate::authority::ApprovalView {
        version: crate::authority::Version::V1,
        suite: crate::authority::SuiteId::Ed25519MlDsa65,
        authority_epoch: 0,
        authority_digest: ZERO,
        statement_digest: ZERO,
        signatures: Seq::empty(),
    };
    crate::laws::authority::law_refusal_of_approval(book@.authorities, ZERO, approval, None);
    lemma_members_kept(book@);
    lemma_defect_kinds(book@);
    let lots = ascending(book@.collateral.dom());
    let obligations = ascending(book@.obligations.dom());
    lemma_lot_defects(book@, lots);
    lemma_obligation_defects(book@, obligations);
    if r matches Err(DeCcpError::InvalidCollateral) && tables_finite(book@) {
        lemma_ascending_exists(book@.collateral.dom());
        let i = choose|i: int|
            0 <= i < lots.len() && book@.collateral[#[trigger] lots[i]].haircut_basis_points
                >= 10_000;
        assert(lots.to_set().contains(lots[i]));
        assert(book@.collateral.contains_key(lots[i]));
    }
    if r matches Err(DeCcpError::InvalidObligation) && tables_finite(book@) {
        lemma_ascending_exists(book@.obligations.dom());
        let i = choose|i: int|
            0 <= i < obligations.len() && !obligation_complete(
                book@.obligations[#[trigger] obligations[i]],
            );
        assert(obligations.to_set().contains(obligations[i]));
        assert(book@.obligations.contains_key(obligations[i]));
    }
}

proof fn lemma_defect_kinds(book: BookState)
    ensures
        ({
            let lots = book.collateral_defect(ascending(book.collateral.dom()));
            let obligations = book.obligations_defect(ascending(book.obligations.dom()));
            let holds = book.holds_defect(ascending(book.guarantee_holds.dom()));
            let facilities = book.facilities_defect(ascending(book.guarantee_facilities.dom()));
            &&& lots is Some ==> lots->0 is InvalidState || lots->0 is InvalidCollateral
                || lots->0 is ArithmeticOverflow
            &&& obligations is Some ==> obligations->0 is InvalidObligation
                || obligations->0 is InvalidState
            &&& holds is Some ==> holds->0 is InvalidState || holds->0 is ArithmeticOverflow
            &&& facilities is Some ==> facilities->0 is InvalidState
                || facilities->0 is ArithmeticOverflow
        }),
{
    lemma_lot_defects(book, ascending(book.collateral.dom()));
    lemma_obligation_defects(book, ascending(book.obligations.dom()));
    lemma_hold_defects(book, ascending(book.guarantee_holds.dom()));
    lemma_facility_defects(book, ascending(book.guarantee_facilities.dom()));
}

proof fn lemma_lot_defects(book: BookState, keys: Seq<Identifier>)
    ensures
        book.collateral_defect(keys) is Some ==> {
            let error = book.collateral_defect(keys)->0;
            &&& error is InvalidState || error is InvalidCollateral || error is ArithmeticOverflow
            &&& error is InvalidCollateral ==> exists|i: int|
                0 <= i < keys.len() && book.collateral[#[trigger] keys[i]].haircut_basis_points
                    >= 10_000
            &&& error is ArithmeticOverflow ==> exists|i: int|
                0 <= i < keys.len() && !valuable(book.collateral[#[trigger] keys[i]])
        },
    decreases keys.len(),
{
    if keys.len() > 0 {
        let front = keys.drop_last();
        lemma_lot_defects(book, front);
        assert(keys[keys.len() - 1] == keys.last());
        assert forall|i: int| 0 <= i < front.len() implies #[trigger] front[i] == keys[i] by {}
        if book.collateral_defect(front) is Some {
            let error = book.collateral_defect(front)->0;
            if error is InvalidCollateral {
                let i = choose|i: int|
                    0 <= i < front.len()
                        && book.collateral[#[trigger] front[i]].haircut_basis_points >= 10_000;
                assert(keys[i] == front[i]);
            } else if error is ArithmeticOverflow {
                let i = choose|i: int|
                    0 <= i < front.len() && !valuable(book.collateral[#[trigger] front[i]]);
                assert(keys[i] == front[i]);
            }
        }
    }
}

proof fn lemma_obligation_defects(book: BookState, keys: Seq<Identifier>)
    ensures
        book.obligations_defect(keys) is Some ==> {
            let error = book.obligations_defect(keys)->0;
            &&& error is InvalidObligation || error is InvalidState
            &&& error is InvalidObligation ==> exists|i: int|
                0 <= i < keys.len() && !obligation_complete(book.obligations[#[trigger] keys[i]])
        },
    decreases keys.len(),
{
    if keys.len() > 0 {
        let front = keys.drop_last();
        lemma_obligation_defects(book, front);
        lemma_obligation_complete(book.obligations[keys[keys.len() - 1]]);
        if book.obligations_defect(front) is Some
            && book.obligations_defect(front)->0 is InvalidObligation {
            let i = choose|i: int|
                0 <= i < front.len() && !obligation_complete(book.obligations[#[trigger] front[i]]);
            assert(keys[i] == front[i]);
        }
    }
}

proof fn lemma_hold_defects(book: BookState, keys: Seq<Identifier>)
    ensures
        book.holds_defect(keys) is Some ==> {
            let error = book.holds_defect(keys)->0;
            error is InvalidState || error is ArithmeticOverflow
        },
    decreases keys.len(),
{
    if keys.len() > 0 {
        lemma_hold_defects(book, keys.drop_last());
    }
}

proof fn lemma_facility_defects(book: BookState, keys: Seq<Identifier>)
    ensures
        book.facilities_defect(keys) is Some ==> {
            let error = book.facilities_defect(keys)->0;
            error is InvalidState || error is ArithmeticOverflow
        },
    decreases keys.len(),
{
    if keys.len() > 0 {
        lemma_facility_defects(book, keys.drop_last());
    }
}

} // verus!
