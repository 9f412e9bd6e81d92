//! Laws of validity: a newly opened book satisfies the structural invariants,
//! and every operation keeps them.

use vstd::prelude::*;

use crate::authority::{ApprovalView, AuthorityView};
use crate::book::{BookState, Outcome};
use crate::confidential_ops::reserved_confidential_hold;
use crate::cycles::{ClearingObligation, CycleView, OpenCycleRequest, ProposalView};
use crate::defaults::{DefaultEvidence, ResolutionView, WaterfallDraw};
use crate::guarantee_ops::reserved_hold;
use crate::guarantees::{
    ConfidentialGuaranteeClaimRequest, ConfidentialGuaranteeFacility, ConfidentialGuaranteeHold,
    ConfidentialGuaranteeReleaseRequest, ConfidentialGuaranteeReservation, DefmiSettlementReceipt,
    GuaranteeClaimRequest, GuaranteeFacility, GuaranteeHold, GuaranteeHoldStatus,
    GuaranteeReservation,
};
use crate::ident::{
    ascending, has_zero, is_ascending, lemma_ascending_exists, lemma_ascending_with, rank, Digest32,
    Identifier, ZERO,
};
use crate::members::{
    CcpCapitalization, CollateralLot, MarginUpdate, ParticipantAdmission, ParticipantStatus,
    VerifiedAdmission,
};
use crate::validate::{hold_weight, tally};

verus! {

/// Whether nothing changed but the margin amounts, fund balances, capital
/// balance, and used operations.
spec fn same_tables(a: BookState, b: BookState) -> bool {
    &&& b.authorities == a.authorities
    &&& b.ccp_capital_defmi_lock_id == a.ccp_capital_defmi_lock_id
    &&& b.ccp_capital_proof_digest == a.ccp_capital_proof_digest
    &&& b.ccp_capital_valid_until == a.ccp_capital_valid_until
    &&& b.collateral == a.collateral
    &&& b.cycles == a.cycles
    &&& b.obligations == a.obligations
    &&& b.guarantee_facilities == a.guarantee_facilities
    &&& b.guarantee_holds == a.guarantee_holds
    &&& b.confidential_guarantee_facilities == a.confidential_guarantee_facilities
    &&& b.confidential_guarantee_holds == a.confidential_guarantee_holds
    &&& b.defaults == a.defaults
}

proof fn lemma_members_frame(a: BookState, b: BookState)
    requires
        a.valid(),
        b.participants == a.participants,
        b.margins.dom() == a.margins.dom(),
        b.ccp_capital_defmi_lock_id == a.ccp_capital_defmi_lock_id,
    ensures
        b.participants_sound(),
{
    assert(forall|p: Identifier| b.margins.contains_key(p) == a.margins.contains_key(p)) by {
        assert(forall|p: Identifier|
            b.margins.contains_key(p) == #[trigger] b.margins.dom().contains(p));
    }
}

proof fn lemma_collateral_frame(a: BookState, b: BookState)
    requires
        a.valid(),
        b.participants == a.participants,
        b.collateral == a.collateral,
        b.ccp_capital_defmi_lock_id == a.ccp_capital_defmi_lock_id,
    ensures
        b.collateral_sound(),
{
    assert forall|l: Identifier| #[trigger] b.collateral.contains_key(l) implies b.lot_sound(l)
        && b.collateral[l].valuation_error() is None by {
        assert(a.lot_sound(l));
    }
}

proof fn lemma_cycles_frame(a: BookState, b: BookState)
    requires
        a.valid(),
        b.cycles == a.cycles,
        b.obligations == a.obligations,
    ensures
        b.cycles_sound(),
        b.obligations_sound(),
{
    assert forall|c: Identifier| #[trigger] b.cycles.contains_key(c) implies b.cycle_sound(c) by {
        assert(a.cycle_sound(c));
    }
    assert forall|o: Identifier| #[trigger] b.obligations.contains_key(o) implies
        b.obligations[o].well_formed() && b.obligation_listed(o) by {
        assert(a.obligation_listed(o));
    }
}

proof fn lemma_guarantees_frame(a: BookState, b: BookState)
    requires
        a.valid(),
        b.guarantee_facilities == a.guarantee_facilities,
        b.guarantee_holds == a.guarantee_holds,
        forall|p: Identifier| #[trigger]
            a.participants.contains_key(p) ==> b.participants.contains_key(p),
    ensures
        b.holds_sound(),
        b.facilities_sound(),
{
    assert forall|h: Identifier| #[trigger] b.guarantee_holds.contains_key(h) implies b.hold_sound(
        h,
    ) by {
        assert(a.hold_sound(h));
    }
    assert forall|f: Identifier| #[trigger] b.guarantee_facilities.contains_key(f) implies
        b.facility_sound(f) by {
        assert(a.facility_sound(f));
        assert(b.held(f, false) == a.held(f, false));
        assert(b.held(f, true) == a.held(f, true));
    }
}

proof fn lemma_confidential_frame(a: BookState, b: BookState)
    requires
        a.valid(),
        b.confidential_guarantee_facilities == a.confidential_guarantee_facilities,
        b.confidential_guarantee_holds == a.confidential_guarantee_holds,
        forall|p: Identifier| #[trigger]
            a.participants.contains_key(p) ==> b.participants.contains_key(p),
        forall|f: Identifier| #[trigger]
            b.guarantee_facilities.contains_key(f) ==> a.guarantee_facilities.contains_key(f)
                || !a.confidential_guarantee_facilities.contains_key(f),
        forall|h: Identifier| #[trigger]
            b.guarantee_holds.contains_key(h) ==> {
                ||| a.guarantee_holds.contains_key(h) && a.guarantee_holds[h].defmi_hold_id
                    == b.guarantee_holds[h].defmi_hold_id
                ||| !a.defmi_hold_taken(b.guarantee_holds[h].defmi_hold_id)
            },
    ensures
        b.confidential_facilities_sound(),
        b.confidential_holds_sound(),
{
    assert forall|f: Identifier| #[trigger]
        b.confidential_guarantee_facilities.contains_key(f) implies b.confidential_facility_sound(
        f,
    ) by {
        assert(a.confidential_facility_sound(f));
    }
    assert forall|h: Identifier| #[trigger]
        b.confidential_guarantee_holds.contains_key(h) implies b.confidential_hold_sound(h) by {
        assert(a.confidential_hold_sound(h));
        let hold = b.confidential_guarantee_holds[h];
        assert forall|k: Identifier| #[trigger] b.guarantee_holds.contains_key(k) implies
            b.guarantee_holds[k].defmi_hold_id != hold.defmi_hold_id by {
            if a.guarantee_holds.contains_key(k) && a.guarantee_holds[k].defmi_hold_id
                == b.guarantee_holds[k].defmi_hold_id {
            } else {
                assert(a.confidential_guarantee_holds.contains_key(h));
            }
        }
    }
}

proof fn lemma_defaults_frame(a: BookState, b: BookState)
    requires
        a.valid(),
        b.defaults == a.defaults,
        forall|p: Identifier| #[trigger]
            a.participants.contains_key(p) ==> {
                &&& b.participants.contains_key(p)
                &&& a.participants[p].status == ParticipantStatus::Defaulted
                    ==> b.participants[p].status == ParticipantStatus::Defaulted
            },
    ensures
        b.defaults_sound(),
{
    assert forall|c: Identifier| #[trigger] b.defaults.contains_key(c) implies b.default_sound(
        c,
    ) by {
        assert(a.default_sound(c));
    }
}

/// A newly opened book is valid.
pub proof fn law_new_book_is_valid(authorities: AuthorityView, capital: CcpCapitalization, now: u64)
    requires
        BookState::opening_refusal(authorities, capital, now) is None,
    ensures
        BookState::opening(authorities, capital).valid(),
{
}

/// Admitting a member keeps the book valid.
pub proof fn law_admission_keeps_valid(
    book: BookState,
    request: ParticipantAdmission,
    approval: ApprovalView,
    now: u64,
    verified: VerifiedAdmission,
    fund: Result<(), String>,
    outcome: Outcome,
)
    requires
        book.valid(),
        book.admission_refusal(request, approval, now) is None,
        book.admission_ends(request, now, verified, fund, outcome),
    ensures
        outcome.1.valid(),
{
    let after = outcome.1;
    if after != book {
        let id = request.participant_id;
        assert(outcome == book.member_added(request, now));
        assert(!book.lock_taken(request.default_fund_defmi_lock_id));
        assert(!book.subject_line_taken(request.eligibility.subject_line_id));
        assert forall|l: Identifier| #[trigger] after.collateral.contains_key(l) implies
            after.lot_sound(l) && after.collateral[l].valuation_error() is None by {
            assert(book.lot_sound(l));
            assert(book.collateral.contains_key(l));
        }
        lemma_cycles_frame(book, after);
        lemma_guarantees_frame(book, after);
        lemma_confidential_frame(book, after);
        lemma_defaults_frame(book, after);
    }
}

/// Posting collateral keeps the book valid.
pub proof fn law_posting_keeps_valid(
    book: BookState,
    lot: CollateralLot,
    reply: Result<(), String>,
    now: u64,
)
    requires
        book.valid(),
        book.posting_refusal(lot, now) is None,
    ensures
        book.collateral_posted(lot, reply, now).1.valid(),
{
    let after = book.collateral_posted(lot, reply, now).1;
    if after != book {
        assert(!book.lock_taken(lot.defmi_lock_id));
        lemma_members_frame(book, after);
        assert forall|l: Identifier| #[trigger] after.collateral.contains_key(l) implies
            after.lot_sound(l) && after.collateral[l].valuation_error() is None by {
            if l != lot.lot_id {
                assert(book.collateral.contains_key(l));
                assert(book.lot_sound(l));
            }
        }
        assert forall|l: Identifier, k: Identifier| #[trigger]
            after.collateral.contains_key(l) && #[trigger] after.collateral.contains_key(k) && l
                != k implies after.collateral[l].defmi_lock_id
            != after.collateral[k].defmi_lock_id by {
            if l != lot.lot_id {
                assert(book.collateral.contains_key(l));
            }
            if k != lot.lot_id {
                assert(book.collateral.contains_key(k));
            }
        }
        lemma_cycles_frame(book, after);
        lemma_guarantees_frame(book, after);
        lemma_confidential_frame(book, after);
        lemma_defaults_frame(book, after);
    }
}

/// Setting margin keeps the book valid.
pub proof fn law_margin_keeps_valid(
    book: BookState,
    request: MarginUpdate,
    approval: ApprovalView,
    now: u64,
)
    requires
        book.valid(),
    ensures
        book.margin_set(request, approval, now).1.valid(),
{
    let after = book.margin_set(request, approval, now).1;
    if after != book {
        assert(after.margins.dom() =~= book.margins.dom());
        lemma_members_frame(book, after);
        lemma_collateral_frame(book, after);
        lemma_cycles_frame(book, after);
        lemma_guarantees_frame(book, after);
        lemma_confidential_frame(book, after);
        lemma_defaults_frame(book, after);
    }
}

/// Opening a cycle keeps the book valid.
pub proof fn law_opening_cycle_keeps_valid(
    book: BookState,
    request: OpenCycleRequest,
    approval: ApprovalView,
    now: u64,
)
    requires
        book.valid(),
    ensures
        book.cycle_opened(request, approval, now).1.valid(),
{
    let after = book.cycle_opened(request, approval, now).1;
    if after != book {
        lemma_members_frame(book, after);
        lemma_collateral_frame(book, after);
        assert forall|c: Identifier| #[trigger] after.cycles.contains_key(c) implies
            after.cycle_sound(c) by {
            if c != request.cycle_id {
                assert(book.cycles.contains_key(c));
                assert(book.cycle_sound(c));
            }
        }
        assert forall|o: Identifier| #[trigger] after.obligations.contains_key(o) implies
            after.obligations[o].well_formed() && after.obligation_listed(o) by {
            assert(book.obligation_listed(o));
        }
        lemma_guarantees_frame(book, after);
        lemma_confidential_frame(book, after);
        lemma_defaults_frame(book, after);
    }
}

/// Submitting an obligation keeps the book valid.
pub proof fn law_submission_keeps_valid(
    book: BookState,
    obligation: ClearingObligation,
    reply: Result<(), String>,
    now: u64,
)
    requires
        book.valid(),
        book.submission_refusal(obligation, now) is None,
    ensures
        book.obligation_submitted(obligation, reply).1.valid(),
{
    let after = book.obligation_submitted(obligation, reply).1;
    if after != book {
        let id = obligation.obligation_id;
        let cycle = obligation.cycle_id;
        lemma_members_frame(book, after);
        lemma_collateral_frame(book, after);
        assert forall|c: Identifier| #[trigger] after.cycles.contains_key(c) implies
            after.cycle_sound(c) by {
            assert(book.cycles.contains_key(c));
            assert(book.cycle_sound(c));
            let old_list = book.cycles[c].obligations;
            let new_list = after.cycles[c].obligations;
            assert forall|i: int| 0 <= i < new_list.len() implies after.obligations.contains_key(
                #[trigger] new_list[i],
            ) && after.obligations[new_list[i]].cycle_id == c by {
                if i < old_list.len() {
                    assert(new_list[i] == old_list[i]);
                    assert(book.obligations.contains_key(old_list[i]));
                    assert(old_list[i] != id);
                } else {
                    assert(c == cycle && new_list[i] == id);
                }
            }
        }
        assert forall|o: Identifier| #[trigger] after.obligations.contains_key(o) implies
            after.obligations[o].well_formed() && after.obligation_listed(o) by {
            let old_list = book.cycles[cycle].obligations;
            let new_list = after.cycles[cycle].obligations;
            assert(new_list == old_list.push(id));
            if o == id {
                assert(new_list[old_list.len() as int] == id);
            } else {
                assert(book.obligations.contains_key(o));
                assert(book.obligation_listed(o));
                if book.obligations[o].cycle_id == cycle {
                    let i = choose|i: int| 0 <= i < old_list.len() && old_list[i] == o;
                    assert(new_list[i] == o);
                }
            }
        }
        lemma_guarantees_frame(book, after);
        lemma_confidential_frame(book, after);
        lemma_defaults_frame(book, after);
    }
}

proof fn lemma_cycle_replaced(book: BookState, after: BookState, id: Identifier, cycle: CycleView)
    requires
        book.valid(),
        book.cycles.contains_key(id),
        after == (BookState { cycles: book.cycles.insert(id, cycle), ..book }),
        cycle.cycle_id == book.cycles[id].cycle_id,
        cycle.obligations == book.cycles[id].obligations,
        cycle.consistent(),
    ensures
        after.valid(),
{
    lemma_members_frame(book, after);
    lemma_collateral_frame(book, after);
    assert forall|c: Identifier| #[trigger] after.cycles.contains_key(c) implies after.cycle_sound(
        c,
    ) by {
        assert(book.cycles.contains_key(c));
        assert(book.cycle_sound(c));
    }
    assert forall|o: Identifier| #[trigger] after.obligations.contains_key(o) implies
        after.obligations[o].well_formed() && after.obligation_listed(o) by {
        assert(book.obligation_listed(o));
    }
    lemma_guarantees_frame(book, after);
    lemma_confidential_frame(book, after);
    lemma_defaults_frame(book, after);
}

/// Closing a cycle keeps the book valid.
pub proof fn law_close_keeps_valid(
    book: BookState,
    proposal: ProposalView,
    approval: ApprovalView,
    now: u64,
)
    requires
        book.valid(),
    ensures
        book.close_committed(proposal, approval, now).1.valid(),
{
    let outcome = book.close_committed(proposal, approval, now);
    if outcome.0 is Ok {
        let id = proposal.cycle_id;
        assert(book.cycle_sound(id));
        lemma_cycle_replaced(book, outcome.1, id, outcome.1.cycles[id]);
    }
}

/// Settling a cycle keeps the book valid.
pub proof fn law_cycle_settlement_keeps_valid(
    book: BookState,
    cycle_id: Identifier,
    proposal_digest: Digest32,
    receipt: DefmiSettlementReceipt,
    reply: Result<(), String>,
)
    requires
        book.valid(),
    ensures
        book.cycle_settled(cycle_id, proposal_digest, receipt, reply).1.valid(),
{
    let outcome = book.cycle_settled(cycle_id, proposal_digest, receipt, reply);
    if outcome.0 is Ok {
        assert(book.cycle_sound(cycle_id));
        lemma_cycle_replaced(book, outcome.1, cycle_id, outcome.1.cycles[cycle_id]);
    }
}

proof fn lemma_tally_zero(
    holds: Map<Identifier, GuaranteeHold>,
    keys: Seq<Identifier>,
    facility: Identifier,
    consumed: bool,
)
    requires
        forall|i: int| 0 <= i < keys.len() ==> holds[#[trigger] keys[i]].facility_id != facility,
    ensures
        tally(holds, keys, facility, consumed) == 0,
    decreases keys.len(),
{
    if keys.len() > 0 {
        let rest = keys.drop_last();
        assert forall|i: int| 0 <= i < rest.len() implies holds[#[trigger] rest[i]].facility_id
            != facility by {
            assert(rest[i] == keys[i]);
        }
        lemma_tally_zero(holds, rest, facility, consumed);
        assert(holds[keys[keys.len() - 1]].facility_id != facility);
    }
}

proof fn lemma_tally_agrees(
    a: Map<Identifier, GuaranteeHold>,
    b: Map<Identifier, GuaranteeHold>,
    keys: Seq<Identifier>,
    facility: Identifier,
    consumed: bool,
)
    requires
        forall|i: int|
            0 <= i < keys.len() ==> hold_weight(a[#[trigger] keys[i]], facility, consumed)
                == hold_weight(b[keys[i]], facility, consumed),
    ensures
        tally(a, keys, facility, consumed) == tally(b, keys, facility, consumed),
    decreases keys.len(),
{
    if keys.len() > 0 {
        let rest = keys.drop_last();
        assert forall|i: int| 0 <= i < rest.len() implies hold_weight(
            a[#[trigger] rest[i]],
            facility,
            consumed,
        ) == hold_weight(b[rest[i]], facility, consumed) by {
            assert(rest[i] == keys[i]);
        }
        lemma_tally_agrees(a, b, rest, facility, consumed);
        assert(hold_weight(a[keys[keys.len() - 1]], facility, consumed) == hold_weight(
            b[keys[keys.len() - 1]],
            facility,
            consumed,
        ));
    }
}

/// Replacing one hold changes a total by the difference of its weights.
proof fn lemma_tally_replaced(
    holds: Map<Identifier, GuaranteeHold>,
    keys: Seq<Identifier>,
    key: Identifier,
    hold: GuaranteeHold,
    facility: Identifier,
    consumed: bool,
)
    requires
        is_ascending(keys),
        keys.contains(key),
    ensures
        tally(holds.insert(key, hold), keys, facility, consumed) == tally(
            holds,
            keys,
            facility,
            consumed,
        ) - hold_weight(holds[key], facility, consumed) + hold_weight(hold, facility, consumed),
    decreases keys.len(),
{
    let after = holds.insert(key, hold);
    let rest = keys.drop_last();
    if keys.last() == key {
        assert forall|i: int| 0 <= i < rest.len() implies hold_weight(
            after[#[trigger] rest[i]],
            facility,
            consumed,
        ) == hold_weight(holds[rest[i]], facility, consumed) by {
            assert(rest[i] == keys[i]);
            assert(rank(keys[i]) < rank(keys[keys.len() - 1]));
        }
        lemma_tally_agrees(after, holds, rest, facility, consumed);
    } else {
        let i = choose|i: int| 0 <= i < keys.len() && keys[i] == key;
        assert(rest[i] == key);
        lemma_tally_replaced(holds, rest, key, hold, facility, consumed);
    }
}

/// Adding one hold adds its weight.
proof fn lemma_tally_inserted(
    holds: Map<Identifier, GuaranteeHold>,
    keys: Seq<Identifier>,
    p: int,
    key: Identifier,
    facility: Identifier,
    consumed: bool,
)
    requires
        0 <= p <= keys.len(),
    ensures
        tally(holds, keys.insert(p, key), facility, consumed) == tally(
            holds,
            keys,
            facility,
            consumed,
        ) + hold_weight(holds[key], facility, consumed),
    decreases keys.len(),
{
    let more = keys.insert(p, key);
    if p == keys.len() {
        assert(more.drop_last() =~= keys);
        assert(more.last() == key);
    } else {
        assert(more.drop_last() =~= keys.drop_last().insert(p, key));
        assert(more.last() == keys.last());
        lemma_tally_inserted(holds, keys.drop_last(), p, key, facility, consumed);
    }
}

/// What one more hold does to the totals of a book.
proof fn lemma_held_with_new_hold(
    book: BookState,
    after: BookState,
    key: Identifier,
    hold: GuaranteeHold,
    facility: Identifier,
    consumed: bool,
)
    requires
        book.guarantee_holds.dom().finite(),
        !book.guarantee_holds.contains_key(key),
        after.guarantee_holds == book.guarantee_holds.insert(key, hold),
    ensures
        after.held(facility, consumed) == book.held(facility, consumed) + hold_weight(
            hold,
            facility,
            consumed,
        ),
{
    let dom = book.guarantee_holds.dom();
    let keys = ascending(dom);
    lemma_ascending_exists(dom);
    let p = lemma_ascending_with(dom, key);
    assert(after.guarantee_holds.dom() =~= dom.insert(key));
    lemma_tally_inserted(after.guarantee_holds, keys, p, key, facility, consumed);
    assert forall|i: int| 0 <= i < keys.len() implies hold_weight(
        after.guarantee_holds[#[trigger] keys[i]],
        facility,
        consumed,
    ) == hold_weight(book.guarantee_holds[keys[i]], facility, consumed) by {
        assert(keys.to_set().contains(keys[i]));
        assert(dom.contains(keys[i]));
        assert(keys[i] != key);
    }
    lemma_tally_agrees(after.guarantee_holds, book.guarantee_holds, keys, facility, consumed);
}

/// What a changed hold does to the totals of a book.
proof fn lemma_held_with_changed_hold(
    book: BookState,
    after: BookState,
    key: Identifier,
    hold: GuaranteeHold,
    facility: Identifier,
    consumed: bool,
)
    requires
        book.guarantee_holds.dom().finite(),
        book.guarantee_holds.contains_key(key),
        after.guarantee_holds == book.guarantee_holds.insert(key, hold),
    ensures
        after.held(facility, consumed) == book.held(facility, consumed) - hold_weight(
            book.guarantee_holds[key],
            facility,
            consumed,
        ) + hold_weight(hold, facility, consumed),
{
    let dom = book.guarantee_holds.dom();
    let keys = ascending(dom);
    lemma_ascending_exists(dom);
    assert(after.guarantee_holds.dom() =~= dom);
    assert(keys.to_set().contains(key));
    lemma_tally_replaced(book.guarantee_holds, keys, key, hold, facility, consumed);
}

/// Registering a facility keeps the book valid.
pub proof fn law_facility_registration_keeps_valid(
    book: BookState,
    operation_id: Identifier,
    facility: GuaranteeFacility,
    approval: ApprovalView,
    reply: Result<(), String>,
    now: u64,
)
    requires
        book.valid(),
        book.facility_refusal(operation_id, facility, now) is None,
    ensures
        book.facility_registered(operation_id, facility, approval, reply, now).1.valid(),
{
    let outcome = book.facility_registered(operation_id, facility, approval, reply, now);
    let after = outcome.1;
    if outcome.0 is Ok {
        let id = facility.facility_id;
        lemma_members_frame(book, after);
        lemma_collateral_frame(book, after);
        lemma_cycles_frame(book, after);
        assert forall|h: Identifier| #[trigger] after.guarantee_holds.contains_key(h) implies
            after.hold_sound(h) by {
            assert(book.hold_sound(h));
        }
        let holds = ascending(book.guarantee_holds.dom());
        lemma_ascending_exists(book.guarantee_holds.dom());
        assert forall|i: int| 0 <= i < holds.len() implies
            book.guarantee_holds[#[trigger] holds[i]].facility_id != id by {
            assert(holds.to_set().contains(holds[i]));
            assert(book.guarantee_holds.contains_key(holds[i]));
            assert(book.hold_sound(holds[i]));
        }
        lemma_tally_zero(book.guarantee_holds, holds, id, false);
        lemma_tally_zero(book.guarantee_holds, holds, id, true);
        assert forall|f: Identifier| #[trigger] after.guarantee_facilities.contains_key(f) implies
            after.facility_sound(f) by {
            assert(after.held(f, false) == book.held(f, false));
            assert(after.held(f, true) == book.held(f, true));
            if f != id {
                assert(book.guarantee_facilities.contains_key(f));
                assert(book.facility_sound(f));
            }
        }
        lemma_confidential_frame(book, after);
        lemma_defaults_frame(book, after);
    }
}

/// Reserving part of a facility keeps the book valid.
pub proof fn law_reservation_keeps_valid(
    book: BookState,
    request: GuaranteeReservation,
    reply: Result<(), String>,
    now: u64,
)
    requires
        book.valid(),
        book.reservation_refusal(request, now) is None,
    ensures
        book.guarantee_reserved(request, reply).1.valid(),
{
    let outcome = book.guarantee_reserved(request, reply);
    let after = outcome.1;
    if outcome.0 is Ok {
        let hold = reserved_hold(request);
        let id = request.hold_id;
        let fid = request.facility_id;
        assert(book.facility_sound(fid));
        lemma_members_frame(book, after);
        lemma_collateral_frame(book, after);
        lemma_cycles_frame(book, after);
        assert(after.guarantee_holds == book.guarantee_holds.insert(id, hold));
        assert forall|h: Identifier| #[trigger] after.guarantee_holds.contains_key(h) implies
            after.hold_sound(h) by {
            if h != id {
                assert(book.guarantee_holds.contains_key(h));
                assert(book.hold_sound(h));
            }
        }
        assert forall|h: Identifier, k: Identifier| #[trigger]
            after.guarantee_holds.contains_key(h) && #[trigger] after.guarantee_holds.contains_key(
                k,
            ) && h != k implies after.guarantee_holds[h].defmi_hold_id
            != after.guarantee_holds[k].defmi_hold_id by {
            if h != id {
                assert(book.guarantee_holds.contains_key(h));
            }
            if k != id {
                assert(book.guarantee_holds.contains_key(k));
            }
        }
        assert forall|f: Identifier| #[trigger] after.guarantee_facilities.contains_key(f) implies
            after.facility_sound(f) by {
            assert(book.guarantee_facilities.contains_key(f));
            assert(book.facility_sound(f));
            lemma_held_with_new_hold(book, after, id, hold, f, false);
            lemma_held_with_new_hold(book, after, id, hold, f, true);
        }
        lemma_confidential_frame(book, after);
        lemma_defaults_frame(book, after);
    }
}

/// Binding a hold keeps the book valid.
pub proof fn law_binding_keeps_valid(
    book: BookState,
    operation_id: Identifier,
    hold_id: Identifier,
    exposure_id: Identifier,
    now: u64,
)
    requires
        book.valid(),
    ensures
        book.guarantee_bound(operation_id, hold_id, exposure_id, now).1.valid(),
{
    let outcome = book.guarantee_bound(operation_id, hold_id, exposure_id, now);
    if outcome.0 is Ok {
        lemma_hold_changed(book, outcome.1, hold_id, outcome.1.guarantee_holds[hold_id]);
    }
}

/// A changed hold keeps the book valid when its facility books the change.
proof fn lemma_hold_changed(
    book: BookState,
    after: BookState,
    id: Identifier,
    hold: GuaranteeHold,
)
    requires
        book.valid(),
        book.guarantee_holds.contains_key(id),
        after == (BookState {
            guarantee_holds: book.guarantee_holds.insert(id, hold),
            guarantee_facilities: after.guarantee_facilities,
            used_operations: after.used_operations,
            ..book
        }),
        after.used_operations.finite(),
        hold.hold_id == book.guarantee_holds[id].hold_id,
        hold.facility_id == book.guarantee_holds[id].facility_id,
        hold.amount == book.guarantee_holds[id].amount,
        hold.defmi_hold_id == book.guarantee_holds[id].defmi_hold_id,
        hold.status.fits(hold.bound_exposure_id is Some, hold.defmi_settlement_receipt is Some),
        after.guarantee_facilities.dom() == book.guarantee_facilities.dom(),
        forall|f: Identifier| #[trigger]
            book.guarantee_facilities.contains_key(f) ==> {
                let old = book.guarantee_holds[id];
                let was = book.guarantee_facilities[f];
                let is = after.guarantee_facilities[f];
                &&& is.facility_id == was.facility_id
                &&& is.capacity == was.capacity
                &&& is.guarantor_id == was.guarantor_id
                &&& is.reserved == was.reserved - hold_weight(old, f, false) + hold_weight(
                    hold,
                    f,
                    false,
                )
                &&& is.consumed == was.consumed - hold_weight(old, f, true) + hold_weight(
                    hold,
                    f,
                    true,
                )
                &&& is.reserved + is.consumed <= was.reserved + was.consumed
            },
    ensures
        after.valid(),
{
    lemma_members_frame(book, after);
    lemma_collateral_frame(book, after);
    lemma_cycles_frame(book, after);
    assert(book.hold_sound(id));
    assert(after.guarantee_holds.dom() =~= book.guarantee_holds.dom());
    assert forall|f: Identifier| after.guarantee_facilities.contains_key(f)
        == book.guarantee_facilities.contains_key(f) by {
        assert(after.guarantee_facilities.dom().contains(f)
            == book.guarantee_facilities.dom().contains(f));
    }
    assert forall|h: Identifier| #[trigger] after.guarantee_holds.contains_key(h) implies
        after.hold_sound(h) by {
        assert(book.guarantee_holds.contains_key(h));
        assert(book.hold_sound(h));
    }
    assert forall|h: Identifier, k: Identifier| #[trigger]
        after.guarantee_holds.contains_key(h) && #[trigger] after.guarantee_holds.contains_key(k)
            && h != k implies after.guarantee_holds[h].defmi_hold_id
        != after.guarantee_holds[k].defmi_hold_id by {
        assert(book.guarantee_holds.contains_key(h));
        assert(book.guarantee_holds.contains_key(k));
    }
    assert forall|f: Identifier| #[trigger] after.guarantee_facilities.contains_key(f) implies
        after.facility_sound(f) by {
        assert(book.guarantee_facilities.contains_key(f));
        assert(book.facility_sound(f));
        lemma_held_with_changed_hold(book, after, id, hold, f, false);
        lemma_held_with_changed_hold(book, after, id, hold, f, true);
    }
    lemma_confidential_frame(book, after);
    lemma_defaults_frame(book, after);
}

/// Releasing a hold keeps the book valid.
pub proof fn law_release_keeps_valid(
    book: BookState,
    operation_id: Identifier,
    hold_id: Identifier,
    receipt: DefmiSettlementReceipt,
    reply: Result<(), String>,
)
    requires
        book.valid(),
    ensures
        book.guarantee_released(operation_id, hold_id, receipt, reply).1.valid(),
{
    let outcome = book.guarantee_released(operation_id, hold_id, receipt, reply);
    if outcome.0 is Ok {
        assert(book.hold_sound(hold_id));
        assert(outcome.1.guarantee_facilities.dom() =~= book.guarantee_facilities.dom());
        lemma_hold_changed(book, outcome.1, hold_id, outcome.1.guarantee_holds[hold_id]);
    }
}

/// Paying a hold out keeps the book valid.
pub proof fn law_claim_keeps_valid(
    book: BookState,
    request: GuaranteeClaimRequest,
    reply: Result<(), String>,
    now: u64,
)
    requires
        book.valid(),
    ensures
        book.guarantee_consumed(request, reply, now).1.valid(),
{
    let outcome = book.guarantee_consumed(request, reply, now);
    let hold = book.guarantee_holds[request.hold_id];
    if book.guarantee_holds.contains_key(request.hold_id) {
        assert(book.hold_sound(request.hold_id));
        assert(book.facility_sound(hold.facility_id));
    }
    if outcome.0 is Ok {
        assert(outcome.1.guarantee_facilities.dom() =~= book.guarantee_facilities.dom());
        lemma_hold_changed(
            book,
            outcome.1,
            request.hold_id,
            outcome.1.guarantee_holds[request.hold_id],
        );
    }
}

/// Registering a confidential facility keeps the book valid.
pub proof fn law_confidential_registration_keeps_valid(
    book: BookState,
    operation_id: Identifier,
    facility: ConfidentialGuaranteeFacility,
    approval: ApprovalView,
    reply: Result<(), String>,
    now: u64,
)
    requires
        book.valid(),
        book.confidential_facility_refusal(operation_id, facility, now) is None,
    ensures
        book.confidential_facility_registered(
            operation_id,
            facility,
            approval,
            reply,
            now,
        ).1.valid(),
{
    let outcome = book.confidential_facility_registered(
        operation_id,
        facility,
        approval,
        reply,
        now,
    );
    let after = outcome.1;
    if outcome.0 is Ok {
        let ids = seq![
            operation_id,
            facility.facility_id,
            facility.guarantor_id,
            facility.beneficiary_subject_line_id,
            facility.settlement_asset_id,
            facility.capacity_commitment,
            facility.latest_facility_state_digest,
            facility.defmi_facility_id,
            facility.policy_digest,
        ];
        assert(!has_zero(ids));
        assert(ids[5] != ZERO && ids[6] != ZERO);
        lemma_confidential_facility_changed(book, after, facility.facility_id, facility);
    }
}

/// A confidential facility that is new or changed keeps the book valid when it
/// is sound.
proof fn lemma_confidential_facility_changed(
    book: BookState,
    after: BookState,
    id: Identifier,
    facility: ConfidentialGuaranteeFacility,
)
    requires
        book.valid(),
        after == (BookState {
            confidential_guarantee_facilities: book.confidential_guarantee_facilities.insert(
                id,
                facility,
            ),
            used_operations: after.used_operations,
            ..book
        }),
        after.used_operations.finite(),
        facility.facility_id == id,
        !book.guarantee_facilities.contains_key(id),
        facility.capacity_commitment != ZERO,
        facility.latest_facility_state_digest != ZERO,
        book.participants.contains_key(facility.guarantor_id),
    ensures
        after.valid(),
{
    lemma_members_frame(book, after);
    lemma_collateral_frame(book, after);
    lemma_cycles_frame(book, after);
    lemma_guarantees_frame(book, after);
    assert forall|f: Identifier| #[trigger]
        after.confidential_guarantee_facilities.contains_key(f) implies
        after.confidential_facility_sound(f) by {
        if f != id {
            assert(book.confidential_guarantee_facilities.contains_key(f));
            assert(book.confidential_facility_sound(f));
        }
    }
    assert forall|h: Identifier| #[trigger]
        after.confidential_guarantee_holds.contains_key(h) implies after.confidential_hold_sound(
        h,
    ) by {
        assert(book.confidential_hold_sound(h));
    }
    lemma_defaults_frame(book, after);
}

/// A confidential hold that is new or changed keeps the book valid when it is
/// sound and its settlement-layer hold is its own.
proof fn lemma_confidential_hold_changed(
    book: BookState,
    after: BookState,
    id: Identifier,
    hold: ConfidentialGuaranteeHold,
)
    requires
        book.valid(),
        after == (BookState {
            confidential_guarantee_holds: book.confidential_guarantee_holds.insert(id, hold),
            used_operations: after.used_operations,
            ..book
        }),
        after.used_operations.finite(),
        hold.hold_id == id,
        hold.status.fits(hold.bound_exposure_id is Some, hold.defmi_settlement_receipt is Some),
        book.confidential_guarantee_facilities.contains_key(hold.facility_id),
        hold.coverage_commitment != ZERO,
        hold.reserved_state_digest != ZERO,
        book.confidential_guarantee_holds.contains_key(id)
            ==> book.confidential_guarantee_holds[id].defmi_hold_id == hold.defmi_hold_id,
        !book.confidential_guarantee_holds.contains_key(id) ==> !book.defmi_hold_taken(
            hold.defmi_hold_id,
        ),
    ensures
        after.valid(),
{
    lemma_members_frame(book, after);
    lemma_collateral_frame(book, after);
    lemma_cycles_frame(book, after);
    lemma_guarantees_frame(book, after);
    assert forall|f: Identifier| #[trigger]
        after.confidential_guarantee_facilities.contains_key(f) implies
        after.confidential_facility_sound(f) by {
        assert(book.confidential_facility_sound(f));
    }
    assert forall|h: Identifier| #[trigger]
        after.confidential_guarantee_holds.contains_key(h) implies after.confidential_hold_sound(
        h,
    ) by {
        if h != id || book.confidential_guarantee_holds.contains_key(id) {
            assert(book.confidential_guarantee_holds.contains_key(h));
            assert(book.confidential_hold_sound(h));
        }
    }
    assert forall|h: Identifier, k: Identifier| #[trigger]
        after.confidential_guarantee_holds.contains_key(h)
            && #[trigger] after.confidential_guarantee_holds.contains_key(k) && h != k implies
        after.confidential_guarantee_holds[h].defmi_hold_id
        != after.confidential_guarantee_holds[k].defmi_hold_id by {
        if h != id {
            assert(book.confidential_guarantee_holds.contains_key(h));
        }
        if k != id {
            assert(book.confidential_guarantee_holds.contains_key(k));
        }
    }
    lemma_defaults_frame(book, after);
}

/// Reserving a hidden part of a facility keeps the book valid.
pub proof fn law_confidential_reservation_keeps_valid(
    book: BookState,
    request: ConfidentialGuaranteeReservation,
    reply: Result<(), String>,
    now: u64,
)
    requires
        book.valid(),
        book.confidential_reservation_refusal(request, now) is None,
    ensures
        book.confidential_guarantee_reserved(request, reply).1.valid(),
{
    let outcome = book.confidential_guarantee_reserved(request, reply);
    let after = outcome.1;
    if outcome.0 is Ok {
        let ids = seq![
            request.operation_id,
            request.hold_id,
            request.facility_id,
            request.purpose_digest,
            request.coverage_commitment,
            request.defmi_hold_id,
            request.relation_proof_digest,
            request.expected_facility_state_digest,
            request.after_facility_state_digest,
        ];
        assert(!has_zero(ids));
        assert(ids[4] != ZERO && ids[8] != ZERO);
        let fid = request.facility_id;
        let facility = after.confidential_guarantee_facilities[fid];
        assert(book.confidential_facility_sound(fid));
        let moved = BookState {
            confidential_guarantee_facilities: after.confidential_guarantee_facilities,
            ..book
        };
        lemma_confidential_facility_changed(book, moved, fid, facility);
        lemma_confidential_hold_changed(
            moved,
            after,
            request.hold_id,
            reserved_confidential_hold(request),
        );
    }
}

/// Binding a confidential hold keeps the book valid.
pub proof fn law_confidential_binding_keeps_valid(
    book: BookState,
    operation_id: Identifier,
    hold_id: Identifier,
    exposure_id: Identifier,
    now: u64,
)
    requires
        book.valid(),
    ensures
        book.confidential_guarantee_bound(operation_id, hold_id, exposure_id, now).1.valid(),
{
    let outcome = book.confidential_guarantee_bound(operation_id, hold_id, exposure_id, now);
    if outcome.0 is Ok {
        assert(book.confidential_hold_sound(hold_id));
        lemma_confidential_hold_changed(
            book,
            outcome.1,
            hold_id,
            outcome.1.confidential_guarantee_holds[hold_id],
        );
    }
}

proof fn lemma_confidential_hold_ended(
    book: BookState,
    operation_id: Identifier,
    hold_id: Identifier,
    state: Digest32,
    status: GuaranteeHoldStatus,
    receipt_digest: Digest32,
    reply: Result<(), String>,
)
    requires
        book.valid(),
        book.confidential_guarantee_holds.contains_key(hold_id),
        state != ZERO,
        status == GuaranteeHoldStatus::Released || status == GuaranteeHoldStatus::Consumed
            && book.confidential_guarantee_holds[hold_id].bound_exposure_id is Some,
    ensures
        book.confidential_hold_ended(
            operation_id,
            hold_id,
            state,
            status,
            receipt_digest,
            reply,
        ).1.valid(),
{
    let outcome = book.confidential_hold_ended(
        operation_id,
        hold_id,
        state,
        status,
        receipt_digest,
        reply,
    );
    let after = outcome.1;
    if outcome.0 is Ok {
        assert(book.confidential_hold_sound(hold_id));
        let fid = book.confidential_guarantee_holds[hold_id].facility_id;
        assert(book.confidential_facility_sound(fid));
        let moved = BookState {
            confidential_guarantee_facilities: after.confidential_guarantee_facilities,
            ..book
        };
        lemma_confidential_facility_changed(
            book,
            moved,
            fid,
            after.confidential_guarantee_facilities[fid],
        );
        lemma_confidential_hold_changed(
            moved,
            after,
            hold_id,
            after.confidential_guarantee_holds[hold_id],
        );
    }
}

/// Releasing a confidential hold keeps the book valid.
pub proof fn law_confidential_release_keeps_valid(
    book: BookState,
    request: ConfidentialGuaranteeReleaseRequest,
    reply: Result<(), String>,
)
    requires
        book.valid(),
        book.confidential_release_refusal(request) is None,
    ensures
        book.confidential_guarantee_released(request, reply).1.valid(),
{
    let ids = seq![
        request.operation_id,
        request.hold_id,
        request.expected_facility_state_digest,
        request.after_facility_state_digest,
        request.transition_proof_digest,
        request.receipt.receipt_digest,
    ];
    assert(!has_zero(ids));
    assert(ids[3] != ZERO);
    lemma_confidential_hold_ended(
        book,
        request.operation_id,
        request.hold_id,
        request.after_facility_state_digest,
        GuaranteeHoldStatus::Released,
        request.receipt.receipt_digest,
        reply,
    );
}

/// Paying a confidential hold out keeps the book valid.
pub proof fn law_confidential_claim_keeps_valid(
    book: BookState,
    request: ConfidentialGuaranteeClaimRequest,
    reply: Result<(), String>,
    now: u64,
)
    requires
        book.valid(),
        book.confidential_claim_refusal(request, now) is None,
    ensures
        book.confidential_guarantee_consumed(request, reply).1.valid(),
{
    let ids = seq![
        request.operation_id,
        request.hold_id,
        request.exposure_id,
        request.default_event_digest,
        request.expected_facility_state_digest,
        request.after_facility_state_digest,
        request.transition_proof_digest,
        request.receipt.receipt_digest,
    ];
    assert(!has_zero(ids));
    assert(ids[5] != ZERO);
    lemma_confidential_hold_ended(
        book,
        request.operation_id,
        request.hold_id,
        request.after_facility_state_digest,
        GuaranteeHoldStatus::Consumed,
        request.receipt.receipt_digest,
        reply,
    );
}

/// Declaring a default keeps the book valid.
pub proof fn law_declaration_keeps_valid(
    book: BookState,
    operation_id: Identifier,
    case_id: Identifier,
    evidence: DefaultEvidence,
    approval: ApprovalView,
    now: u64,
)
    requires
        book.valid(),
    ensures
        book.default_declared(operation_id, case_id, evidence, approval, now).1.valid(),
{
    let outcome = book.default_declared(operation_id, case_id, evidence, approval, now);
    let after = outcome.1;
    if outcome.0 is Ok {
        let mid = BookState {
            defaults: book.defaults,
            used_operations: book.used_operations,
            ..after
        };
        assert(mid.participants.dom() =~= book.participants.dom());
        lemma_balances_changed(book, mid);
        assert forall|c: Identifier| #[trigger] after.defaults.contains_key(c) implies
            after.default_sound(c) by {
            if c != case_id {
                assert(book.defaults.contains_key(c));
                assert(book.default_sound(c));
            }
        }
        lemma_collateral_frame(mid, after);
        lemma_members_frame(mid, after);
        lemma_cycles_frame(mid, after);
        lemma_guarantees_frame(mid, after);
        lemma_confidential_frame(mid, after);
    }
}

/// Whether members kept everything but the fund balance, and defaulted ones
/// stayed so.
spec fn same_members(a: BookState, b: BookState) -> bool {
    &&& b.participants.dom() == a.participants.dom()
    &&& b.margins.dom() == a.margins.dom()
    &&& forall|p: Identifier| #[trigger]
        a.participants.contains_key(p) ==> {
            let was = a.participants[p];
            let is = b.participants[p];
            &&& is.participant_id == was.participant_id
            &&& is.eligibility == was.eligibility
            &&& is.default_fund_defmi_lock_id == was.default_fund_defmi_lock_id
            &&& was.status == ParticipantStatus::Defaulted ==> is.status
                == ParticipantStatus::Defaulted
        }
}

/// Balances and member status play no part in the other invariants.
proof fn lemma_balances_changed(book: BookState, after: BookState)
    requires
        book.valid(),
        same_tables(book, after),
        same_members(book, after),
        after.used_operations.finite(),
    ensures
        after.valid(),
{
    assert forall|p: Identifier| after.participants.contains_key(p)
        == book.participants.contains_key(p) by {
        assert(after.participants.dom().contains(p) == book.participants.dom().contains(p));
    }
    assert forall|p: Identifier| after.margins.contains_key(p) == book.margins.contains_key(p) by {
        assert(after.margins.dom().contains(p) == book.margins.dom().contains(p));
    }
    assert forall|p: Identifier| #[trigger] after.participants.contains_key(p) implies {
        &&& after.participants[p].participant_id == p
        &&& after.margins.contains_key(p)
        &&& after.participants[p].default_fund_defmi_lock_id != after.ccp_capital_defmi_lock_id
    } by {
        assert(book.participants.contains_key(p));
    }
    assert forall|p: Identifier, q: Identifier| #[trigger]
        after.participants.contains_key(p) && #[trigger] after.participants.contains_key(q) && p
            != q implies {
        &&& after.participants[p].eligibility.subject_line_id
            != after.participants[q].eligibility.subject_line_id
        &&& after.participants[p].default_fund_defmi_lock_id
            != after.participants[q].default_fund_defmi_lock_id
    } by {
        assert(book.participants.contains_key(p));
        assert(book.participants.contains_key(q));
    }
    assert forall|l: Identifier| #[trigger] after.collateral.contains_key(l) implies
        after.lot_sound(l) && after.collateral[l].valuation_error() is None by {
        assert(book.lot_sound(l));
        assert forall|p: Identifier| #[trigger] after.participants.contains_key(p) implies
            after.participants[p].default_fund_defmi_lock_id
            != after.collateral[l].defmi_lock_id by {
            assert(book.participants.contains_key(p));
        }
    }
    lemma_cycles_frame(book, after);
    lemma_guarantees_frame(book, after);
    lemma_confidential_frame(book, after);
    lemma_defaults_frame(book, after);
}

proof fn lemma_draws_keep_tables(book: BookState, draws: Seq<WaterfallDraw>)
    ensures
        same_tables(book, book.draws_applied(draws).1),
        same_members(book, book.draws_applied(draws).1),
        book.draws_applied(draws).1.used_operations == book.used_operations,
    decreases draws.len(),
{
    if draws.len() > 0 {
        lemma_draws_keep_tables(book, draws.drop_last());
        let before = book.draws_applied(draws.drop_last()).1;
        let after = book.draws_applied(draws).1;
        assert(after.participants.dom() =~= before.participants.dom());
        assert(after.margins.dom() =~= before.margins.dom());
        assert forall|p: Identifier| before.participants.contains_key(p)
            == book.participants.contains_key(p) by {
            assert(before.participants.dom().contains(p) == book.participants.dom().contains(p));
        }
    }
}

/// Committing a resolution keeps the book valid.
pub proof fn law_resolution_keeps_valid(
    book: BookState,
    resolution: ResolutionView,
    approval: ApprovalView,
    receipt: DefmiSettlementReceipt,
    reply: Result<(), String>,
    now: u64,
)
    requires
        book.valid(),
        book.resolution_refusal(resolution, approval, receipt, now) is None,
    ensures
        book.resolution_committed(resolution, receipt, reply).1.valid(),
{
    if reply is Ok {
        let paid = book.draws_applied(resolution.draws);
        let after = book.resolution_committed(resolution, receipt, reply).1;
        lemma_draws_keep_tables(book, resolution.draws);
        lemma_balances_changed(book, paid.1);
        if paid.0 is Ok {
            let mid = paid.1;
            lemma_members_frame(mid, after);
            lemma_collateral_frame(mid, after);
            lemma_cycles_frame(mid, after);
            lemma_guarantees_frame(mid, after);
            lemma_confidential_frame(mid, after);
            assert forall|c: Identifier| #[trigger] after.defaults.contains_key(c) implies
                after.default_sound(c) by {
                assert(mid.defaults.contains_key(c));
                assert(mid.default_sound(c));
            }
        }
    }
}

} // verus!
