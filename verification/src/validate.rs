//! The structural invariants of a clearing book, their check, and restoring.

use vstd::prelude::*;

use crate::authority::{ApprovalView, AuthorityView};
use crate::book::{BookState, ClearingBook};
use crate::cycles::NettingCycle;
use crate::error::DeCcpError;
use crate::guarantees::{hold_shape_is_consistent, GuaranteeHold, GuaranteeHoldStatus};
use crate::ident::{
    ascending, is_zero, lemma_ascending_exists, list_contains, same_id, Digest32, Identifier, ZERO,
};
use crate::map::{IdMap, IdSet};
use crate::members::ParticipantStatus;

verus! {

/// What a hold adds to the reserved, or to the consumed, amount of a facility.
pub open spec fn hold_weight(hold: GuaranteeHold, facility: Identifier, consumed: bool) -> int {
    if hold.facility_id == facility && (if consumed {
        hold.status == GuaranteeHoldStatus::Consumed
    } else {
        hold.status.live()
    }) {
        hold.amount as int
    } else {
        0
    }
}

/// The reserved, or the consumed, amount of a facility over the holds under
/// `keys`.
pub open spec fn tally(
    holds: Map<Identifier, GuaranteeHold>,
    keys: Seq<Identifier>,
    facility: Identifier,
    consumed: bool,
) -> int
    decreases keys.len(),
{
    if keys.len() == 0 {
        0
    } else {
        tally(holds, keys.drop_last(), facility, consumed) + hold_weight(
            holds[keys.last()],
            facility,
            consumed,
        )
    }
}

impl BookState {
    /// What is reserved, or consumed, of a facility over all holds.
    pub open spec fn held(self, facility: Identifier, consumed: bool) -> int {
        tally(self.guarantee_holds, ascending(self.guarantee_holds.dom()), facility, consumed)
    }

    /// The capital is backed by a lock with a proof that expires some time.
    pub open spec fn capital_sound(self) -> bool {
        &&& self.ccp_capital_defmi_lock_id != ZERO
        &&& self.ccp_capital_proof_digest != ZERO
        &&& self.ccp_capital_valid_until != 0
    }

    /// Every member stands under its identifier and has a margin account; no two
    /// share a subject line or a lock, and none uses the capital's lock.
    pub open spec fn participants_sound(self) -> bool {
        &&& forall|p: Identifier| #[trigger]
            self.participants.contains_key(p) ==> {
                &&& self.participants[p].participant_id == p
                &&& self.margins.contains_key(p)
                &&& self.participants[p].default_fund_defmi_lock_id
                    != self.ccp_capital_defmi_lock_id
            }
        &&& forall|p: Identifier, q: Identifier| #[trigger]
            self.participants.contains_key(p) && #[trigger] self.participants.contains_key(q) && p
                != q ==> {
                &&& self.participants[p].eligibility.subject_line_id
                    != self.participants[q].eligibility.subject_line_id
                &&& self.participants[p].default_fund_defmi_lock_id
                    != self.participants[q].default_fund_defmi_lock_id
            }
        &&& forall|p: Identifier| #[trigger]
            self.margins.contains_key(p) ==> self.participants.contains_key(p)
    }

    /// A lot stands under its identifier, belongs to a member, and its lock
    /// backs neither the capital nor a default-fund contribution.
    pub open spec fn lot_sound(self, l: Identifier) -> bool {
        let lot = self.collateral[l];
        &&& lot.lot_id == l
        &&& self.participants.contains_key(lot.owner_id)
        &&& lot.defmi_lock_id != self.ccp_capital_defmi_lock_id
        &&& forall|p: Identifier| #[trigger]
            self.participants.contains_key(p) ==> self.participants[p].default_fund_defmi_lock_id
                != lot.defmi_lock_id
    }

    /// Every lot is sound and has a value, and no two share a lock.
    pub open spec fn collateral_sound(self) -> bool {
        &&& forall|l: Identifier| #[trigger]
            self.collateral.contains_key(l) ==> self.lot_sound(l)
                && self.collateral[l].valuation_error() is None
        &&& forall|l: Identifier, k: Identifier| #[trigger]
            self.collateral.contains_key(l) && #[trigger] self.collateral.contains_key(k) && l != k
                ==> self.collateral[l].defmi_lock_id != self.collateral[k].defmi_lock_id
    }

    /// A cycle stands under its identifier, agrees with its status, and lists
    /// only known obligations of its own.
    pub open spec fn cycle_sound(self, c: Identifier) -> bool {
        let cycle = self.cycles[c];
        &&& cycle.cycle_id == c
        &&& cycle.consistent()
        &&& forall|i: int|
            0 <= i < cycle.obligations.len() ==> self.obligations.contains_key(
                #[trigger] cycle.obligations[i],
            ) && self.obligations[cycle.obligations[i]].cycle_id == cycle.cycle_id
    }

    /// Every cycle is sound.
    pub open spec fn cycles_sound(self) -> bool {
        forall|c: Identifier| #[trigger] self.cycles.contains_key(c) ==> self.cycle_sound(c)
    }

    /// An obligation stands under its identifier and its cycle lists it.
    pub open spec fn obligation_listed(self, o: Identifier) -> bool {
        let obligation = self.obligations[o];
        &&& obligation.obligation_id == o
        &&& self.cycles.contains_key(obligation.cycle_id)
        &&& self.cycles[obligation.cycle_id].obligations.contains(obligation.obligation_id)
    }

    /// Every obligation is well formed and listed.
    pub open spec fn obligations_sound(self) -> bool {
        forall|o: Identifier| #[trigger]
            self.obligations.contains_key(o) ==> self.obligations[o].well_formed()
                && self.obligation_listed(o)
    }

    /// A hold stands under its identifier, agrees with its status, and holds
    /// some amount of a known facility.
    pub open spec fn hold_sound(self, h: Identifier) -> bool {
        let hold = self.guarantee_holds[h];
        &&& hold.hold_id == h
        &&& hold.status.fits(
            hold.bound_exposure_id is Some,
            hold.defmi_settlement_receipt is Some,
        )
        &&& self.guarantee_facilities.contains_key(hold.facility_id)
        &&& hold.amount != 0
    }

    /// Every hold is sound, and no two share a settlement-layer hold.
    pub open spec fn holds_sound(self) -> bool {
        &&& forall|h: Identifier| #[trigger]
            self.guarantee_holds.contains_key(h) ==> self.hold_sound(h)
        &&& forall|h: Identifier, k: Identifier| #[trigger]
            self.guarantee_holds.contains_key(h) && #[trigger] self.guarantee_holds.contains_key(k)
                && h != k ==> self.guarantee_holds[h].defmi_hold_id
                != self.guarantee_holds[k].defmi_hold_id
    }

    /// A facility stands under its identifier, stays within its capacity, books
    /// exactly what its holds reserve and consume, and has a known guarantor.
    pub open spec fn facility_sound(self, f: Identifier) -> bool {
        let facility = self.guarantee_facilities[f];
        &&& facility.facility_id == f
        &&& facility.capacity != 0
        &&& facility.reserved + facility.consumed <= facility.capacity
        &&& facility.reserved == self.held(f, false)
        &&& facility.consumed == self.held(f, true)
        &&& self.participants.contains_key(facility.guarantor_id)
    }

    /// Every facility is sound.
    pub open spec fn facilities_sound(self) -> bool {
        forall|f: Identifier| #[trigger]
            self.guarantee_facilities.contains_key(f) ==> self.facility_sound(f)
    }

    /// A confidential facility stands under an identifier of its own, has its
    /// commitments, and has a known guarantor.
    pub open spec fn confidential_facility_sound(self, f: Identifier) -> bool {
        let facility = self.confidential_guarantee_facilities[f];
        &&& facility.facility_id == f
        &&& !self.guarantee_facilities.contains_key(facility.facility_id)
        &&& facility.capacity_commitment != ZERO
        &&& facility.latest_facility_state_digest != ZERO
        &&& self.participants.contains_key(facility.guarantor_id)
    }

    /// Every confidential facility is sound.
    pub open spec fn confidential_facilities_sound(self) -> bool {
        forall|f: Identifier| #[trigger]
            self.confidential_guarantee_facilities.contains_key(f)
                ==> self.confidential_facility_sound(f)
    }

    /// A confidential hold stands under its identifier, agrees with its status,
    /// belongs to a known facility, and its settlement-layer hold backs no other
    /// kind of hold.
    pub open spec fn confidential_hold_sound(self, h: Identifier) -> bool {
        let hold = self.confidential_guarantee_holds[h];
        &&& hold.hold_id == h
        &&& hold.status.fits(
            hold.bound_exposure_id is Some,
            hold.defmi_settlement_receipt is Some,
        )
        &&& self.confidential_guarantee_facilities.contains_key(hold.facility_id)
        &&& hold.coverage_commitment != ZERO
        &&& hold.reserved_state_digest != ZERO
        &&& forall|k: Identifier| #[trigger]
            self.guarantee_holds.contains_key(k) ==> self.guarantee_holds[k].defmi_hold_id
                != hold.defmi_hold_id
    }

    /// Every confidential hold is sound, and no two share a settlement-layer
    /// hold.
    pub open spec fn confidential_holds_sound(self) -> bool {
        &&& forall|h: Identifier| #[trigger]
            self.confidential_guarantee_holds.contains_key(h) ==> self.confidential_hold_sound(h)
        &&& forall|h: Identifier, k: Identifier| #[trigger]
            self.confidential_guarantee_holds.contains_key(h)
                && #[trigger] self.confidential_guarantee_holds.contains_key(k) && h != k
                ==> self.confidential_guarantee_holds[h].defmi_hold_id
                != self.confidential_guarantee_holds[k].defmi_hold_id
    }

    /// A default case stands under its identifier, concerns a defaulted member,
    /// and has a resolution of its own exactly if it has a receipt.
    pub open spec fn default_sound(self, c: Identifier) -> bool {
        let case = self.defaults[c];
        &&& self.participants.contains_key(case.evidence.participant_id)
        &&& self.participants[case.evidence.participant_id].status == ParticipantStatus::Defaulted
        &&& case.case_id == c
        &&& case.resolution is Some == case.defmi_settlement_receipt is Some
        &&& case.resolution is Some ==> {
            &&& case.resolution->0.case_id == case.case_id
            &&& case.resolution->0.participant_id == case.evidence.participant_id
        }
    }

    /// Every default case is sound.
    pub open spec fn defaults_sound(self) -> bool {
        forall|c: Identifier| #[trigger] self.defaults.contains_key(c) ==> self.default_sound(c)
    }

    /// Every table is finite.
    pub open spec fn finite(self) -> bool {
        &&& self.participants.dom().finite()
        &&& self.collateral.dom().finite()
        &&& self.margins.dom().finite()
        &&& self.cycles.dom().finite()
        &&& self.obligations.dom().finite()
        &&& self.guarantee_facilities.dom().finite()
        &&& self.guarantee_holds.dom().finite()
        &&& self.confidential_guarantee_facilities.dom().finite()
        &&& self.confidential_guarantee_holds.dom().finite()
        &&& self.defaults.dom().finite()
        &&& self.used_operations.finite()
    }

    /// The structural invariants of a clearing book.
    pub open spec fn valid(self) -> bool {
        &&& self.finite()
        &&& self.authorities.valid()
        &&& self.capital_sound()
        &&& self.participants_sound()
        &&& self.collateral_sound()
        &&& self.cycles_sound()
        &&& self.obligations_sound()
        &&& self.holds_sound()
        &&& self.facilities_sound()
        &&& self.confidential_facilities_sound()
        &&& self.confidential_holds_sound()
        &&& self.defaults_sound()
    }

    /// The first defect among the lots under `keys`, in order.
    pub open spec fn collateral_defect(self, keys: Seq<Identifier>) -> Option<DeCcpError>
        decreases keys.len(),
    {
        if keys.len() == 0 {
            None
        } else if self.collateral_defect(keys.drop_last()) is Some {
            self.collateral_defect(keys.drop_last())
        } else if !self.lot_sound(keys.last()) || exists|j: int|
            0 <= j < keys.len() - 1 && self.collateral[#[trigger] keys[j]].defmi_lock_id
                == self.collateral[keys.last()].defmi_lock_id {
            Some(DeCcpError::InvalidState)
        } else {
            self.collateral[keys.last()].valuation_error()
        }
    }

    /// The first defect among the obligations under `keys`, in order.
    pub open spec fn obligations_defect(self, keys: Seq<Identifier>) -> Option<DeCcpError>
        decreases keys.len(),
    {
        if keys.len() == 0 {
            None
        } else if self.obligations_defect(keys.drop_last()) is Some {
            self.obligations_defect(keys.drop_last())
        } else if !self.obligations[keys.last()].well_formed() {
            Some(DeCcpError::InvalidObligation)
        } else if !self.obligation_listed(keys.last()) {
            Some(DeCcpError::InvalidState)
        } else {
            None
        }
    }

    /// The first defect among the holds under `keys`, in order. A total that
    /// leaves its range counts as one.
    pub open spec fn holds_defect(self, keys: Seq<Identifier>) -> Option<DeCcpError>
        decreases keys.len(),
    {
        let hold = self.guarantee_holds[keys.last()];
        if keys.len() == 0 {
            None
        } else if self.holds_defect(keys.drop_last()) is Some {
            self.holds_defect(keys.drop_last())
        } else if !self.hold_sound(keys.last()) || exists|j: int|
            0 <= j < keys.len() - 1 && self.guarantee_holds[#[trigger] keys[j]].defmi_hold_id
                == hold.defmi_hold_id {
            Some(DeCcpError::InvalidState)
        } else if tally(self.guarantee_holds, keys, hold.facility_id, false) > u128::MAX || tally(
            self.guarantee_holds,
            keys,
            hold.facility_id,
            true,
        ) > u128::MAX {
            Some(DeCcpError::ArithmeticOverflow)
        } else {
            None
        }
    }

    /// The first defect among the facilities under `keys`, in order.
    pub open spec fn facilities_defect(self, keys: Seq<Identifier>) -> Option<DeCcpError>
        decreases keys.len(),
    {
        let facility = self.guarantee_facilities[keys.last()];
        if keys.len() == 0 {
            None
        } else if self.facilities_defect(keys.drop_last()) is Some {
            self.facilities_defect(keys.drop_last())
        } else if facility.reserved + facility.consumed > u128::MAX {
            Some(DeCcpError::ArithmeticOverflow)
        } else if !self.facility_sound(keys.last()) {
            Some(DeCcpError::InvalidState)
        } else {
            None
        }
    }

    /// What is reported of a book that breaks its invariants: the first broken
    /// one, table by table.
    pub open spec fn defect(self) -> Option<DeCcpError> {
        if !self.authorities.valid() {
            Some(DeCcpError::InvalidAuthoritySet)
        } else if !self.capital_sound() {
            Some(DeCcpError::InvalidCapital)
        } else if !self.participants_sound() {
            Some(DeCcpError::InvalidState)
        } else if self.collateral_defect(ascending(self.collateral.dom())) is Some {
            self.collateral_defect(ascending(self.collateral.dom()))
        } else if !self.cycles_sound() {
            Some(DeCcpError::InvalidState)
        } else if self.obligations_defect(ascending(self.obligations.dom())) is Some {
            self.obligations_defect(ascending(self.obligations.dom()))
        } else if self.holds_defect(ascending(self.guarantee_holds.dom())) is Some {
            self.holds_defect(ascending(self.guarantee_holds.dom()))
        } else if self.facilities_defect(ascending(self.guarantee_facilities.dom())) is Some {
            self.facilities_defect(ascending(self.guarantee_facilities.dom()))
        } else if !self.confidential_facilities_sound() || !self.confidential_holds_sound()
            || !self.defaults_sound() {
            Some(DeCcpError::InvalidState)
        } else {
            None
        }
    }

    /// What restoring a snapshot under a trusted authority set reports, if the
    /// snapshot's own invariants are not yet looked at.
    pub open spec fn restore_refusal(
        self,
        trusted: AuthorityView,
        approval: ApprovalView,
        digest: Digest32,
    ) -> Option<DeCcpError> {
        if !trusted.valid() || self.authorities != trusted {
            Some(DeCcpError::InvalidAuthoritySet)
        } else {
            trusted.refusal(digest, approval, None)
        }
    }
}

proof fn lemma_index_of(keys: Seq<Identifier>, ids: Set<Identifier>, id: Identifier) -> (j: int)
    requires
        keys.to_set() == ids,
        ids.contains(id),
    ensures
        0 <= j < keys.len(),
        keys[j] == id,
{
    assert(keys.to_set().contains(id));
    choose|j: int| 0 <= j < keys.len() && keys[j] == id
}

impl ClearingBook {
    /// Checks the members and collects the locks in use so far.
    fn check_participants(&self) -> (r: Result<IdSet, DeCcpError>)
        ensures
            match r {
                Ok(locks) => self@.participants_sound() && forall|x: Identifier| #[trigger]
                    locks@.contains(x) <==> x == self@.ccp_capital_defmi_lock_id || exists|
                        p: Identifier,
                    | #[trigger]
                        self@.participants.contains_key(p)
                            && self@.participants[p].default_fund_defmi_lock_id == x,
                Err(error) => error == DeCcpError::InvalidState && !self@.participants_sound(),
            },
    {
        let ghost book = self@;
        let ghost keys = ascending(book.participants.dom());
        let mut lines = IdSet::new();
        let mut locks = IdSet::new();
        locks.insert(self.ccp_capital_defmi_lock_id);
        let count: usize = self.participants.len();
        let mut i: usize = 0;
        while i < count
            invariant
                i <= count,
                book == self@,
                count == keys.len(),
                count == book.participants.dom().len(),
                keys == ascending(book.participants.dom()),
                keys.to_set() == book.participants.dom(),
                forall|a: int, b: int| 0 <= a < b < keys.len() ==> keys[a] != keys[b],
                forall|j: int|
                    0 <= j < i ==> {
                        let p = #[trigger] keys[j];
                        &&& book.participants[p].participant_id == p
                        &&& book.margins.contains_key(p)
                        &&& book.participants[p].default_fund_defmi_lock_id
                            != book.ccp_capital_defmi_lock_id
                    },
                forall|a: int, b: int|
                    0 <= a < b < i ==> {
                        let p = #[trigger] keys[a];
                        let q = #[trigger] keys[b];
                        &&& book.participants[p].eligibility.subject_line_id
                            != book.participants[q].eligibility.subject_line_id
                        &&& book.participants[p].default_fund_defmi_lock_id
                            != book.participants[q].default_fund_defmi_lock_id
                    },
                forall|x: Identifier| #[trigger]
                    lines@.contains(x) <==> exists|j: int|
                        0 <= j < i && book.participants[#[trigger] keys[j]].eligibility.subject_line_id
                            == x,
                forall|x: Identifier| #[trigger]
                    locks@.contains(x) <==> x == book.ccp_capital_defmi_lock_id || exists|j: int|
                        0 <= j < i
                            && book.participants[#[trigger] keys[j]].default_fund_defmi_lock_id == x,
            decreases count - i,
        {
            let key = self.participants.key_at(i);
            let member = self.participants.value_at(i);
            let ghost old_lines = lines@;
            let ghost old_locks = locks@;
            if !same_id(&key, &member.participant_id) || !self.margins.contains_key(&key) {
                return Err(DeCcpError::InvalidState);
            }
            if !lines.insert(member.eligibility.subject_line_id) {
                proof {
                    let j = choose|j: int|
                        0 <= j < i
                            && book.participants[#[trigger] keys[j]].eligibility.subject_line_id
                            == member.eligibility.subject_line_id;
                    assert(keys.to_set().contains(keys[j]));
                    assert(book.participants.contains_key(keys[j]));
                    assert(book.participants.contains_key(key));
                    assert(!book.participants_sound());
                }
                return Err(DeCcpError::InvalidState);
            }
            if !locks.insert(member.default_fund_defmi_lock_id) {
                proof {
                    if member.default_fund_defmi_lock_id != book.ccp_capital_defmi_lock_id {
                        let j = choose|j: int|
                            0 <= j < i
                                && book.participants[#[trigger] keys[j]].default_fund_defmi_lock_id
                                == member.default_fund_defmi_lock_id;
                        assert(keys.to_set().contains(keys[j]));
                        assert(book.participants.contains_key(keys[j]));
                    }
                    assert(book.participants.contains_key(key));
                    assert(!book.participants_sound());
                }
                return Err(DeCcpError::InvalidState);
            }
            proof {
                assert(key == keys[i as int]);
                assert forall|x: Identifier| #[trigger] lines@.contains(x) <==> exists|j: int|
                    0 <= j < i + 1
                        && book.participants[#[trigger] keys[j]].eligibility.subject_line_id == x by {
                    if old_lines.contains(x) {
                        let j = choose|j: int|
                            0 <= j < i
                                && book.participants[#[trigger] keys[j]].eligibility.subject_line_id
                                == x;
                        assert(0 <= j < i + 1);
                    }
                    if x == member.eligibility.subject_line_id {
                        assert(book.participants[keys[i as int]].eligibility.subject_line_id == x);
                    }
                }
                assert forall|x: Identifier| #[trigger] locks@.contains(x) <==> x
                    == book.ccp_capital_defmi_lock_id || exists|j: int|
                    0 <= j < i + 1
                        && book.participants[#[trigger] keys[j]].default_fund_defmi_lock_id == x by {
                    if old_locks.contains(x) && x != book.ccp_capital_defmi_lock_id {
                        let j = choose|j: int|
                            0 <= j < i
                                && book.participants[#[trigger] keys[j]].default_fund_defmi_lock_id
                                == x;
                        assert(0 <= j < i + 1);
                    }
                    if x == member.default_fund_defmi_lock_id {
                        assert(book.participants[keys[i as int]].default_fund_defmi_lock_id == x);
                    }
                }
            }
            i = i + 1;
        }
        let ghost accounts = ascending(book.margins.dom());
        let total: usize = self.margins.len();
        let mut k: usize = 0;
        while k < total
            invariant
                k <= total,
                book == self@,
                total == accounts.len(),
                total == book.margins.dom().len(),
                accounts == ascending(book.margins.dom()),
                forall|j: int|
                    0 <= j < k ==> book.participants.contains_key(#[trigger] accounts[j]),
            decreases total - k,
        {
            let key = self.margins.key_at(k);
            if !self.participants.contains_key(&key) {
                assert(book.margins.contains_key(key));
                return Err(DeCcpError::InvalidState);
            }
            k = k + 1;
        }
        proof {
            assert forall|p: Identifier| #[trigger] book.participants.contains_key(p) implies {
                &&& book.participants[p].participant_id == p
                &&& book.margins.contains_key(p)
                &&& book.participants[p].default_fund_defmi_lock_id
                    != book.ccp_capital_defmi_lock_id
            } by {
                let j = lemma_index_of(keys, book.participants.dom(), p);
                assert(keys[j] == p);
            }
            assert forall|p: Identifier, q: Identifier| #[trigger]
                book.participants.contains_key(p) && #[trigger] book.participants.contains_key(q)
                    && p != q implies {
                &&& book.participants[p].eligibility.subject_line_id
                    != book.participants[q].eligibility.subject_line_id
                &&& book.participants[p].default_fund_defmi_lock_id
                    != book.participants[q].default_fund_defmi_lock_id
            } by {
                let a = lemma_index_of(keys, book.participants.dom(), p);
                let b = lemma_index_of(keys, book.participants.dom(), q);
                if a < b {
                    assert(keys[a] == p && keys[b] == q);
                } else {
                    assert(keys[b] == q && keys[a] == p);
                }
            }
            assert forall|p: Identifier| #[trigger] book.margins.contains_key(p) implies
                book.participants.contains_key(p) by {
                let j = lemma_index_of(accounts, book.margins.dom(), p);
                assert(accounts[j] == p);
            }
            assert forall|x: Identifier| #[trigger] locks@.contains(x) <==> x
                == book.ccp_capital_defmi_lock_id || exists|p: Identifier| #[trigger]
                book.participants.contains_key(p)
                    && book.participants[p].default_fund_defmi_lock_id == x by {
                if exists|j: int|
                    0 <= j < i && book.participants[#[trigger] keys[j]].default_fund_defmi_lock_id
                        == x {
                    let j = choose|j: int|
                        0 <= j < i
                            && book.participants[#[trigger] keys[j]].default_fund_defmi_lock_id == x;
                    assert(keys.to_set().contains(keys[j]));
                    assert(book.participants.contains_key(keys[j]));
                }
                if exists|p: Identifier| #[trigger]
                    book.participants.contains_key(p)
                        && book.participants[p].default_fund_defmi_lock_id == x {
                    let p = choose|p: Identifier| #[trigger]
                        book.participants.contains_key(p)
                            && book.participants[p].default_fund_defmi_lock_id == x;
                    let j = lemma_index_of(keys, book.participants.dom(), p);
                    assert(book.participants[keys[j]].default_fund_defmi_lock_id == x);
                }
            }
        }
        Ok(locks)
    }

    /// Checks the lots against the locks in use.
    fn check_collateral(&self, locks: IdSet) -> (r: Result<(), DeCcpError>)
        requires
            forall|x: Identifier| #[trigger]
                locks@.contains(x) <==> x == self@.ccp_capital_defmi_lock_id || exists|
                    p: Identifier,
                | #[trigger]
                    self@.participants.contains_key(p)
                        && self@.participants[p].default_fund_defmi_lock_id == x,
        ensures
            r == (match self@.collateral_defect(ascending(self@.collateral.dom())) {
                Some(error) => Err::<(), DeCcpError>(error),
                None => Ok(()),
            }),
    {
        let ghost book = self@;
        let ghost keys = ascending(book.collateral.dom());
        let ghost base = locks@;
        let mut locks = locks;
        let count: usize = self.collateral.len();
        let mut i: usize = 0;
        while i < count
            invariant
                i <= count,
                book == self@,
                count == keys.len(),
                count == book.collateral.dom().len(),
                keys == ascending(book.collateral.dom()),
                book.collateral_defect(keys.take(i as int)) is None,
                forall|x: Identifier| #[trigger]
                    base.contains(x) <==> x == book.ccp_capital_defmi_lock_id || exists|
                        p: Identifier,
                    | #[trigger]
                        book.participants.contains_key(p)
                            && book.participants[p].default_fund_defmi_lock_id == x,
                forall|x: Identifier| #[trigger]
                    locks@.contains(x) <==> base.contains(x) || exists|j: int|
                        0 <= j < i && book.collateral[#[trigger] keys[j]].defmi_lock_id == x,
            decreases count - i,
        {
            let key = self.collateral.key_at(i);
            let lot = self.collateral.value_at(i);
            let ghost before = locks@;
            let ghost here = keys.take(i + 1);
            proof {
                assert(here.drop_last() =~= keys.take(i as int));
                assert(here.last() == key);
                assert forall|j: int| 0 <= j < i implies #[trigger] here[j] == keys[j] by {}
                if before.contains(lot.defmi_lock_id) {
                    if base.contains(lot.defmi_lock_id) {
                        assert(!book.lot_sound(key));
                    } else {
                        let j = choose|j: int|
                            0 <= j < i && book.collateral[#[trigger] keys[j]].defmi_lock_id
                                == lot.defmi_lock_id;
                        assert(book.collateral[here[j]].defmi_lock_id == lot.defmi_lock_id);
                    }
                    assert(book.collateral_defect(here) == Some(DeCcpError::InvalidState));
                }
            }
            if !same_id(&key, &lot.lot_id) || !self.participants.contains_key(&lot.owner_id)
                || !locks.insert(lot.defmi_lock_id) {
                proof {
                    book.lemma_collateral_defect_stays(keys, i + 1);
                }
                return Err(DeCcpError::InvalidState);
            }
            proof {
                assert(!base.contains(lot.defmi_lock_id));
                assert(book.lot_sound(key));
                assert forall|j: int| 0 <= j < here.len() - 1 implies
                    book.collateral[#[trigger] here[j]].defmi_lock_id
                    != book.collateral[here.last()].defmi_lock_id by {
                    assert(here[j] == keys[j]);
                    assert(book.collateral[keys[j]].defmi_lock_id != lot.defmi_lock_id);
                }
                assert(book.collateral_defect(here) == lot.valuation_error());
                assert forall|x: Identifier| #[trigger] locks@.contains(x) <==> base.contains(x)
                    || exists|j: int|
                    0 <= j < i + 1 && book.collateral[#[trigger] keys[j]].defmi_lock_id == x by {
                    if before.contains(x) && !base.contains(x) {
                        let j = choose|j: int|
                            0 <= j < i && book.collateral[#[trigger] keys[j]].defmi_lock_id == x;
                        assert(0 <= j < i + 1);
                    }
                    if x == lot.defmi_lock_id {
                        assert(book.collateral[keys[i as int]].defmi_lock_id == x);
                    }
                }
            }
            if let Err(error) = lot.eligible_value() {
                proof {
                    book.lemma_collateral_defect_stays(keys, i + 1);
                }
                return Err(error);
            }
            i = i + 1;
        }
        assert(keys.take(i as int) =~= keys);
        Ok(())
    }

    fn lists_own_obligations(&self, cycle: &NettingCycle) -> (r: bool)
        ensures
            r == (forall|i: int|
                0 <= i < cycle@.obligations.len() ==> self@.obligations.contains_key(
                    #[trigger] cycle@.obligations[i],
                ) && self@.obligations[cycle@.obligations[i]].cycle_id == cycle@.cycle_id),
    {
        let mut i: usize = 0;
        while i < cycle.obligations.len()
            invariant
                i <= cycle.obligations@.len(),
                forall|j: int|
                    0 <= j < i ==> self@.obligations.contains_key(#[trigger] cycle@.obligations[j])
                        && self@.obligations[cycle@.obligations[j]].cycle_id == cycle@.cycle_id,
            decreases cycle.obligations@.len() - i,
        {
            assert(cycle@.obligations[i as int] == cycle.obligations@[i as int]);
            match self.obligations.get(&cycle.obligations[i]) {
                None => {
                    return false;
                },
                Some(found) => {
                    if !same_id(&found.cycle_id, &cycle.cycle_id) {
                        return false;
                    }
                },
            }
            i = i + 1;
        }
        true
    }

    fn check_cycles(&self) -> (r: Result<(), DeCcpError>)
        ensures
            r == (if self@.cycles_sound() {
                Ok::<(), DeCcpError>(())
            } else {
                Err(DeCcpError::InvalidState)
            }),
    {
        let ghost book = self@;
        let ghost keys = ascending(book.cycles.dom());
        let count: usize = self.cycles.len();
        let mut i: usize = 0;
        while i < count
            invariant
                i <= count,
                book == self@,
                count == keys.len(),
                count == book.cycles.dom().len(),
                keys == ascending(book.cycles.dom()),
                forall|j: int| 0 <= j < i ==> book.cycle_sound(#[trigger] keys[j]),
            decreases count - i,
        {
            let key = self.cycles.key_at(i);
            let cycle = self.cycles.value_at(i);
            if !same_id(&key, &cycle.cycle_id) || !cycle.is_consistent()
                || !self.lists_own_obligations(cycle) {
                assert(!book.cycle_sound(key));
                return Err(DeCcpError::InvalidState);
            }
            assert(book.cycle_sound(key));
            i = i + 1;
        }
        proof {
            assert forall|c: Identifier| #[trigger] book.cycles.contains_key(c) implies
                book.cycle_sound(c) by {
                let j = lemma_index_of(keys, book.cycles.dom(), c);
                assert(book.cycle_sound(keys[j]));
            }
        }
        Ok(())
    }

    fn check_obligations(&self) -> (r: Result<(), DeCcpError>)
        ensures
            r == (match self@.obligations_defect(ascending(self@.obligations.dom())) {
                Some(error) => Err::<(), DeCcpError>(error),
                None => Ok(()),
            }),
    {
        let ghost book = self@;
        let ghost keys = ascending(book.obligations.dom());
        let count: usize = self.obligations.len();
        let mut i: usize = 0;
        while i < count
            invariant
                i <= count,
                book == self@,
                count == keys.len(),
                count == book.obligations.dom().len(),
                keys == ascending(book.obligations.dom()),
                book.obligations_defect(keys.take(i as int)) is None,
            decreases count - i,
        {
            let key = self.obligations.key_at(i);
            let obligation = self.obligations.value_at(i);
            proof {
                assert(keys.take(i + 1).drop_last() =~= keys.take(i as int));
                assert(keys.take(i + 1).last() == key);
            }
            if let Err(error) = obligation.validate() {
                proof {
                    book.lemma_obligations_defect_stays(keys, i + 1);
                }
                return Err(error);
            }
            let listed = match self.cycles.get(&obligation.cycle_id) {
                None => false,
                Some(cycle) => list_contains(&cycle.obligations, &obligation.obligation_id),
            };
            if !same_id(&key, &obligation.obligation_id) || !listed {
                proof {
                    book.lemma_obligations_defect_stays(keys, i + 1);
                }
                return Err(DeCcpError::InvalidState);
            }
            i = i + 1;
        }
        assert(keys.take(i as int) =~= keys);
        Ok(())
    }
}

impl BookState {
    proof fn lemma_collateral_defect_stays(self, keys: Seq<Identifier>, from: int)
        requires
            0 <= from <= keys.len(),
            self.collateral_defect(keys.take(from)) is Some,
        ensures
            self.collateral_defect(keys) == self.collateral_defect(keys.take(from)),
        decreases keys.len(),
    {
        if from == keys.len() {
            assert(keys.take(from) =~= keys);
        } else {
            assert(keys.drop_last().take(from) =~= keys.take(from));
            self.lemma_collateral_defect_stays(keys.drop_last(), from);
        }
    }

    proof fn lemma_obligations_defect_stays(self, keys: Seq<Identifier>, from: int)
        requires
            0 <= from <= keys.len(),
            self.obligations_defect(keys.take(from)) is Some,
        ensures
            self.obligations_defect(keys) == self.obligations_defect(keys.take(from)),
        decreases keys.len(),
    {
        if from == keys.len() {
            assert(keys.take(from) =~= keys);
        } else {
            assert(keys.drop_last().take(from) =~= keys.take(from));
            self.lemma_obligations_defect_stays(keys.drop_last(), from);
        }
    }

    proof fn lemma_holds_defect_stays(self, keys: Seq<Identifier>, from: int)
        requires
            0 <= from <= keys.len(),
            self.holds_defect(keys.take(from)) is Some,
        ensures
            self.holds_defect(keys) == self.holds_defect(keys.take(from)),
        decreases keys.len(),
    {
        if from == keys.len() {
            assert(keys.take(from) =~= keys);
        } else {
            assert(keys.drop_last().take(from) =~= keys.take(from));
            self.lemma_holds_defect_stays(keys.drop_last(), from);
        }
    }

    proof fn lemma_facilities_defect_stays(self, keys: Seq<Identifier>, from: int)
        requires
            0 <= from <= keys.len(),
            self.facilities_defect(keys.take(from)) is Some,
        ensures
            self.facilities_defect(keys) == self.facilities_defect(keys.take(from)),
        decreases keys.len(),
    {
        if from == keys.len() {
            assert(keys.take(from) =~= keys);
        } else {
            assert(keys.drop_last().take(from) =~= keys.take(from));
            self.lemma_facilities_defect_stays(keys.drop_last(), from);
        }
    }
}

/// The total under a key, or zero.
pub open spec fn total_at(totals: Map<Identifier, u128>, key: Identifier) -> int {
    if totals.contains_key(key) {
        totals[key] as int
    } else {
        0
    }
}

/// What the holds of a book add up to.
struct HoldTotals {
    reserved: IdMap<u128>,
    consumed: IdMap<u128>,
    defmi_holds: IdSet,
}

/// Adds to the total under a key, unless it leaves the range.
fn add_total(totals: &mut IdMap<u128>, key: Identifier, amount: u128) -> (r: Result<
    (),
    DeCcpError,
>)
    ensures
        total_at(old(totals)@, key) + amount <= u128::MAX ==> r is Ok && final(totals)@ == old(
            totals,
        )@.insert(key, (total_at(old(totals)@, key) + amount) as u128),
        total_at(old(totals)@, key) + amount > u128::MAX ==> r == Err::<(), DeCcpError>(
            DeCcpError::ArithmeticOverflow,
        ),
{
    let current: u128 = match totals.get(&key) {
        Some(found) => *found,
        None => 0,
    };
    match current.checked_add(amount) {
        None => Err(DeCcpError::ArithmeticOverflow),
        Some(next) => {
            totals.insert(key, next);
            Ok(())
        },
    }
}

impl ClearingBook {
    /// Checks the holds and adds up what they reserve and consume.
    fn check_holds(&self) -> (r: Result<HoldTotals, DeCcpError>)
        ensures
            match r {
                Ok(totals) => {
                    &&& self@.holds_defect(ascending(self@.guarantee_holds.dom())) is None
                    &&& forall|f: Identifier| #[trigger]
                        total_at(totals.reserved@, f) == self@.held(f, false)
                    &&& forall|f: Identifier| #[trigger]
                        total_at(totals.consumed@, f) == self@.held(f, true)
                    &&& forall|x: Identifier| #[trigger]
                        totals.defmi_holds@.contains(x) <==> exists|h: Identifier| #[trigger]
                            self@.guarantee_holds.contains_key(h)
                                && self@.guarantee_holds[h].defmi_hold_id == x
                },
                Err(error) => self@.holds_defect(ascending(self@.guarantee_holds.dom())) == Some(
                    error,
                ),
            },
    {
        let ghost book = self@;
        let ghost keys = ascending(book.guarantee_holds.dom());
        let mut totals = HoldTotals {
            reserved: IdMap::new(),
            consumed: IdMap::new(),
            defmi_holds: IdSet::new(),
        };
        let count: usize = self.guarantee_holds.len();
        let mut i: usize = 0;
        while i < count
            invariant
                i <= count,
                book == self@,
                count == keys.len(),
                count == book.guarantee_holds.dom().len(),
                keys == ascending(book.guarantee_holds.dom()),
                book.holds_defect(keys.take(i as int)) is None,
                forall|f: Identifier| #[trigger]
                    total_at(totals.reserved@, f) == tally(
                        book.guarantee_holds,
                        keys.take(i as int),
                        f,
                        false,
                    ),
                forall|f: Identifier| #[trigger]
                    total_at(totals.consumed@, f) == tally(
                        book.guarantee_holds,
                        keys.take(i as int),
                        f,
                        true,
                    ),
                forall|x: Identifier| #[trigger]
                    totals.defmi_holds@.contains(x) <==> exists|j: int|
                        0 <= j < i && book.guarantee_holds[#[trigger] keys[j]].defmi_hold_id == x,
            decreases count - i,
        {
            let key = self.guarantee_holds.key_at(i);
            let hold = self.guarantee_holds.value_at(i);
            let ghost here = keys.take(i + 1);
            let ghost before = totals;
            proof {
                assert(here.drop_last() =~= keys.take(i as int));
                assert(here.last() == key);
                assert forall|j: int| 0 <= j < i implies #[trigger] here[j] == keys[j] by {}
                if before.defmi_holds@.contains(hold.defmi_hold_id) {
                    let j = choose|j: int|
                        0 <= j < i && book.guarantee_holds[#[trigger] keys[j]].defmi_hold_id
                            == hold.defmi_hold_id;
                    assert(book.guarantee_holds[here[j]].defmi_hold_id == hold.defmi_hold_id);
                    assert(book.holds_defect(here) == Some(DeCcpError::InvalidState));
                }
                assert(total_at(before.reserved@, hold.facility_id) == tally(
                    book.guarantee_holds,
                    keys.take(i as int),
                    hold.facility_id,
                    false,
                ));
                assert(total_at(before.consumed@, hold.facility_id) == tally(
                    book.guarantee_holds,
                    keys.take(i as int),
                    hold.facility_id,
                    true,
                ));
            }
            if !same_id(&key, &hold.hold_id) || !hold_shape_is_consistent(
                hold.status,
                hold.bound_exposure_id.is_some(),
                hold.defmi_settlement_receipt.is_some(),
            ) || !self.guarantee_facilities.contains_key(&hold.facility_id)
                || !totals.defmi_holds.insert(hold.defmi_hold_id) || hold.amount == 0 {
                proof {
                    if !before.defmi_holds@.contains(hold.defmi_hold_id) {
                        assert(!book.hold_sound(key));
                    }
                    book.lemma_holds_defect_stays(keys, i + 1);
                }
                return Err(DeCcpError::InvalidState);
            }
            proof {
                assert(book.hold_sound(key));
                assert forall|j: int| 0 <= j < here.len() - 1 implies
                    book.guarantee_holds[#[trigger] here[j]].defmi_hold_id != hold.defmi_hold_id by {
                    assert(here[j] == keys[j]);
                    assert(book.guarantee_holds[keys[j]].defmi_hold_id != hold.defmi_hold_id);
                }
            }
            let added = match hold.status {
                GuaranteeHoldStatus::Reserved => add_total(
                    &mut totals.reserved,
                    hold.facility_id,
                    hold.amount,
                ),
                GuaranteeHoldStatus::Bound => add_total(
                    &mut totals.reserved,
                    hold.facility_id,
                    hold.amount,
                ),
                GuaranteeHoldStatus::Consumed => add_total(
                    &mut totals.consumed,
                    hold.facility_id,
                    hold.amount,
                ),
                GuaranteeHoldStatus::Released => Ok(()),
            };
            if let Err(error) = added {
                proof {
                    assert(book.holds_defect(here) == Some(DeCcpError::ArithmeticOverflow));
                    book.lemma_holds_defect_stays(keys, i + 1);
                }
                return Err(error);
            }
            proof {
                assert forall|f: Identifier| #[trigger]
                    total_at(totals.reserved@, f) == tally(
                        book.guarantee_holds,
                        here,
                        f,
                        false,
                    ) by {
                    assert(total_at(before.reserved@, f) == tally(
                        book.guarantee_holds,
                        keys.take(i as int),
                        f,
                        false,
                    ));
                }
                assert forall|f: Identifier| #[trigger]
                    total_at(totals.consumed@, f) == tally(
                        book.guarantee_holds,
                        here,
                        f,
                        true,
                    ) by {
                    assert(total_at(before.consumed@, f) == tally(
                        book.guarantee_holds,
                        keys.take(i as int),
                        f,
                        true,
                    ));
                }
                assert(total_at(totals.reserved@, hold.facility_id) <= u128::MAX);
                assert(total_at(totals.consumed@, hold.facility_id) <= u128::MAX);
                assert(book.holds_defect(here) is None);
                assert forall|x: Identifier| #[trigger]
                    totals.defmi_holds@.contains(x) <==> exists|j: int|
                        0 <= j < i + 1 && book.guarantee_holds[#[trigger] keys[j]].defmi_hold_id
                            == x by {
                    if before.defmi_holds@.contains(x) {
                        let j = choose|j: int|
                            0 <= j < i && book.guarantee_holds[#[trigger] keys[j]].defmi_hold_id
                                == x;
                        assert(0 <= j < i + 1);
                    }
                    if x == hold.defmi_hold_id {
                        assert(book.guarantee_holds[keys[i as int]].defmi_hold_id == x);
                    }
                }
            }
            i = i + 1;
        }
        proof {
            assert(keys.take(i as int) =~= keys);
            assert forall|x: Identifier| #[trigger] totals.defmi_holds@.contains(x) <==> exists|
                h: Identifier,
            | #[trigger]
                book.guarantee_holds.contains_key(h) && book.guarantee_holds[h].defmi_hold_id
                    == x by {
                if totals.defmi_holds@.contains(x) {
                    let j = choose|j: int|
                        0 <= j < i && book.guarantee_holds[#[trigger] keys[j]].defmi_hold_id == x;
                    assert(keys.to_set().contains(keys[j]));
                    assert(book.guarantee_holds.contains_key(keys[j]));
                }
                if exists|h: Identifier| #[trigger]
                    book.guarantee_holds.contains_key(h) && book.guarantee_holds[h].defmi_hold_id
                        == x {
                    let h = choose|h: Identifier| #[trigger]
                        book.guarantee_holds.contains_key(h)
                            && book.guarantee_holds[h].defmi_hold_id == x;
                    let j = lemma_index_of(keys, book.guarantee_holds.dom(), h);
                    assert(book.guarantee_holds[keys[j]].defmi_hold_id == x);
                }
            }
        }
        Ok(totals)
    }

    fn check_facilities(&self, totals: &HoldTotals) -> (r: Result<(), DeCcpError>)
        requires
            forall|f: Identifier| #[trigger]
                total_at(totals.reserved@, f) == self@.held(f, false),
            forall|f: Identifier| #[trigger]
                total_at(totals.consumed@, f) == self@.held(f, true),
        ensures
            r == (match self@.facilities_defect(ascending(self@.guarantee_facilities.dom())) {
                Some(error) => Err::<(), DeCcpError>(error),
                None => Ok(()),
            }),
    {
        let ghost book = self@;
        let ghost keys = ascending(book.guarantee_facilities.dom());
        let count: usize = self.guarantee_facilities.len();
        let mut i: usize = 0;
        while i < count
            invariant
                i <= count,
                book == self@,
                count == keys.len(),
                count == book.guarantee_facilities.dom().len(),
                keys == ascending(book.guarantee_facilities.dom()),
                book.facilities_defect(keys.take(i as int)) is None,
                forall|f: Identifier| #[trigger]
                    total_at(totals.reserved@, f) == book.held(f, false),
                forall|f: Identifier| #[trigger]
                    total_at(totals.consumed@, f) == book.held(f, true),
            decreases count - i,
        {
            let key = self.guarantee_facilities.key_at(i);
            let facility = self.guarantee_facilities.value_at(i);
            proof {
                assert(keys.take(i + 1).drop_last() =~= keys.take(i as int));
                assert(keys.take(i + 1).last() == key);
                assert(total_at(totals.reserved@, key) == book.held(key, false));
                assert(total_at(totals.consumed@, key) == book.held(key, true));
            }
            let allocated: u128 = match facility.reserved.checked_add(facility.consumed) {
                Some(sum) => sum,
                None => {
                    proof {
                        book.lemma_facilities_defect_stays(keys, i + 1);
                    }
                    return Err(DeCcpError::ArithmeticOverflow);
                },
            };
            let reserved: u128 = match totals.reserved.get(&key) {
                Some(found) => *found,
                None => 0,
            };
            let consumed: u128 = match totals.consumed.get(&key) {
                Some(found) => *found,
                None => 0,
            };
            if !same_id(&key, &facility.facility_id) || facility.capacity == 0 || allocated
                > facility.capacity || reserved != facility.reserved || consumed
                != facility.consumed || !self.participants.contains_key(&facility.guarantor_id) {
                proof {
                    assert(!book.facility_sound(key));
                    book.lemma_facilities_defect_stays(keys, i + 1);
                }
                return Err(DeCcpError::InvalidState);
            }
            assert(book.facility_sound(key));
            i = i + 1;
        }
        assert(keys.take(i as int) =~= keys);
        Ok(())
    }

    fn check_confidential_facilities(&self) -> (r: Result<(), DeCcpError>)
        ensures
            r == (if self@.confidential_facilities_sound() {
                Ok::<(), DeCcpError>(())
            } else {
                Err(DeCcpError::InvalidState)
            }),
    {
        let ghost book = self@;
        let ghost keys = ascending(book.confidential_guarantee_facilities.dom());
        let count: usize = self.confidential_guarantee_facilities.len();
        let mut i: usize = 0;
        while i < count
            invariant
                i <= count,
                book == self@,
                count == keys.len(),
                count == book.confidential_guarantee_facilities.dom().len(),
                keys == ascending(book.confidential_guarantee_facilities.dom()),
                forall|j: int| 0 <= j < i ==> book.confidential_facility_sound(#[trigger] keys[j]),
            decreases count - i,
        {
            let key = self.confidential_guarantee_facilities.key_at(i);
            let facility = self.confidential_guarantee_facilities.value_at(i);
            if !same_id(&key, &facility.facility_id) || self.guarantee_facilities.contains_key(
                &facility.facility_id,
            ) || is_zero(&facility.capacity_commitment) || is_zero(
                &facility.latest_facility_state_digest,
            ) || !self.participants.contains_key(&facility.guarantor_id) {
                assert(!book.confidential_facility_sound(key));
                return Err(DeCcpError::InvalidState);
            }
            assert(book.confidential_facility_sound(key));
            i = i + 1;
        }
        proof {
            assert forall|f: Identifier| #[trigger]
                book.confidential_guarantee_facilities.contains_key(f) implies
                book.confidential_facility_sound(f) by {
                let j = lemma_index_of(keys, book.confidential_guarantee_facilities.dom(), f);
                assert(book.confidential_facility_sound(keys[j]));
            }
        }
        Ok(())
    }

    fn check_confidential_holds(&self, defmi_holds: IdSet) -> (r: Result<(), DeCcpError>)
        requires
            forall|x: Identifier| #[trigger]
                defmi_holds@.contains(x) <==> exists|h: Identifier| #[trigger]
                    self@.guarantee_holds.contains_key(h) && self@.guarantee_holds[h].defmi_hold_id
                        == x,
        ensures
            r == (if self@.confidential_holds_sound() {
                Ok::<(), DeCcpError>(())
            } else {
                Err(DeCcpError::InvalidState)
            }),
    {
        let ghost book = self@;
        let ghost keys = ascending(book.confidential_guarantee_holds.dom());
        let ghost base = defmi_holds@;
        let mut defmi_holds = defmi_holds;
        let count: usize = self.confidential_guarantee_holds.len();
        let mut i: usize = 0;
        while i < count
            invariant
                i <= count,
                book == self@,
                count == keys.len(),
                count == book.confidential_guarantee_holds.dom().len(),
                keys == ascending(book.confidential_guarantee_holds.dom()),
                keys.to_set() == book.confidential_guarantee_holds.dom(),
                forall|a: int, b: int| 0 <= a < b < keys.len() ==> keys[a] != keys[b],
                forall|x: Identifier| #[trigger]
                    base.contains(x) <==> exists|h: Identifier| #[trigger]
                        book.guarantee_holds.contains_key(h)
                            && book.guarantee_holds[h].defmi_hold_id == x,
                forall|x: Identifier| #[trigger]
                    defmi_holds@.contains(x) <==> base.contains(x) || exists|j: int|
                        0 <= j < i
                            && book.confidential_guarantee_holds[#[trigger] keys[j]].defmi_hold_id
                            == x,
                forall|j: int| 0 <= j < i ==> book.confidential_hold_sound(#[trigger] keys[j]),
                forall|a: int, b: int|
                    0 <= a < b < i
                        ==> book.confidential_guarantee_holds[#[trigger] keys[a]].defmi_hold_id
                        != book.confidential_guarantee_holds[#[trigger] keys[b]].defmi_hold_id,
            decreases count - i,
        {
            let key = self.confidential_guarantee_holds.key_at(i);
            let hold = self.confidential_guarantee_holds.value_at(i);
            let ghost before = defmi_holds@;
            if !same_id(&key, &hold.hold_id) || !hold_shape_is_consistent(
                hold.status,
                hold.bound_exposure_id.is_some(),
                hold.defmi_settlement_receipt.is_some(),
            ) || !self.confidential_guarantee_facilities.contains_key(&hold.facility_id)
                || is_zero(&hold.coverage_commitment) || is_zero(&hold.reserved_state_digest) {
                assert(!book.confidential_hold_sound(key));
                return Err(DeCcpError::InvalidState);
            }
            if !defmi_holds.insert(hold.defmi_hold_id) {
                proof {
                    if base.contains(hold.defmi_hold_id) {
                        assert(!book.confidential_hold_sound(key));
                    } else {
                        let j = choose|j: int|
                            0 <= j < i
                                && book.confidential_guarantee_holds[#[trigger] keys[j]].defmi_hold_id
                                == hold.defmi_hold_id;
                        assert(keys[j] != keys[i as int]);
                        assert(keys.to_set().contains(keys[j]));
                        assert(book.confidential_guarantee_holds.contains_key(keys[j]));
                        assert(book.confidential_guarantee_holds.contains_key(key));
                    }
                    assert(!book.confidential_holds_sound());
                }
                return Err(DeCcpError::InvalidState);
            }
            proof {
                assert(key == keys[i as int]);
                assert(!base.contains(hold.defmi_hold_id));
                assert(book.confidential_hold_sound(key));
                assert forall|a: int| 0 <= a < i implies
                    book.confidential_guarantee_holds[#[trigger] keys[a]].defmi_hold_id
                    != hold.defmi_hold_id by {
                    if book.confidential_guarantee_holds[keys[a]].defmi_hold_id
                        == hold.defmi_hold_id {
                        assert(before.contains(hold.defmi_hold_id));
                    }
                }
                assert forall|x: Identifier| #[trigger]
                    defmi_holds@.contains(x) <==> base.contains(x) || exists|j: int|
                        0 <= j < i + 1
                            && book.confidential_guarantee_holds[#[trigger] keys[j]].defmi_hold_id
                            == x by {
                    if before.contains(x) && !base.contains(x) {
                        let j = choose|j: int|
                            0 <= j < i
                                && book.confidential_guarantee_holds[#[trigger] keys[j]].defmi_hold_id
                                == x;
                        assert(0 <= j < i + 1);
                    }
                    if x == hold.defmi_hold_id {
                        assert(book.confidential_guarantee_holds[keys[i as int]].defmi_hold_id
                            == x);
                    }
                }
            }
            i = i + 1;
        }
        proof {
            assert forall|h: Identifier| #[trigger]
                book.confidential_guarantee_holds.contains_key(h) implies
                book.confidential_hold_sound(h) by {
                let j = lemma_index_of(keys, book.confidential_guarantee_holds.dom(), h);
                assert(book.confidential_hold_sound(keys[j]));
            }
            assert forall|h: Identifier, k: Identifier| #[trigger]
                book.confidential_guarantee_holds.contains_key(h)
                    && #[trigger] book.confidential_guarantee_holds.contains_key(k) && h
                    != k implies book.confidential_guarantee_holds[h].defmi_hold_id
                != book.confidential_guarantee_holds[k].defmi_hold_id by {
                let a = lemma_index_of(keys, book.confidential_guarantee_holds.dom(), h);
                let b = lemma_index_of(keys, book.confidential_guarantee_holds.dom(), k);
                if a < b {
                    assert(keys[a] == h && keys[b] == k);
                } else {
                    assert(keys[b] == k && keys[a] == h);
                }
            }
        }
        Ok(())
    }

    fn check_defaults(&self) -> (r: Result<(), DeCcpError>)
        ensures
            r == (if self@.defaults_sound() {
                Ok::<(), DeCcpError>(())
            } else {
                Err(DeCcpError::InvalidState)
            }),
    {
        let ghost book = self@;
        let ghost keys = ascending(book.defaults.dom());
        let count: usize = self.defaults.len();
        let mut i: usize = 0;
        while i < count
            invariant
                i <= count,
                book == self@,
                count == keys.len(),
                count == book.defaults.dom().len(),
                keys == ascending(book.defaults.dom()),
                forall|j: int| 0 <= j < i ==> book.default_sound(#[trigger] keys[j]),
            decreases count - i,
        {
            let key = self.defaults.key_at(i);
            let case = self.defaults.value_at(i);
            let defaulted = match self.participants.get(&case.evidence.participant_id) {
                None => {
                    assert(!book.default_sound(key));
                    return Err(DeCcpError::InvalidState);
                },
                Some(member) => member.status == ParticipantStatus::Defaulted,
            };
            let own = match &case.resolution {
                None => true,
                Some(resolution) => same_id(&resolution.case_id, &case.case_id) && same_id(
                    &resolution.participant_id,
                    &case.evidence.participant_id,
                ),
            };
            if !same_id(&key, &case.case_id) || !defaulted || case.resolution.is_some()
                != case.defmi_settlement_receipt.is_some() || !own {
                assert(!book.default_sound(key));
                return Err(DeCcpError::InvalidState);
            }
            assert(book.default_sound(key));
            i = i + 1;
        }
        proof {
            assert forall|c: Identifier| #[trigger] book.defaults.contains_key(c) implies
                book.default_sound(c) by {
                let j = lemma_index_of(keys, book.defaults.dom(), c);
                assert(book.default_sound(keys[j]));
            }
        }
        Ok(())
    }

    /// The sizes of the tables, which are therefore finite.
    fn measure(&self)
        ensures
            self@.finite(),
    {
        self.participants.len();
        self.collateral.len();
        self.margins.len();
        self.cycles.len();
        self.obligations.len();
        self.guarantee_facilities.len();
        self.guarantee_holds.len();
        self.confidential_guarantee_facilities.len();
        self.confidential_guarantee_holds.len();
        self.defaults.len();
        self.used_operations.len();
    }

    /// Structural invariants that every reachable book satisfies. They are
    /// re-checked on restore so persisted input cannot bypass the operations.
    pub fn validate(&self) -> (r: Result<(), DeCcpError>)
        ensures
            r == (match self@.defect() {
                Some(error) => Err::<(), DeCcpError>(error),
                None => Ok(()),
            }),
            r is Ok <==> self@.valid(),
    {
        self.measure();
        proof {
            self@.lemma_valid_without_defect();
        }
        self.authorities.validate()?;
        if is_zero(&self.ccp_capital_defmi_lock_id) || is_zero(&self.ccp_capital_proof_digest)
            || self.ccp_capital_valid_until == 0 {
            return Err(DeCcpError::InvalidCapital);
        }
        let locks = self.check_participants()?;
        self.check_collateral(locks)?;
        self.check_cycles()?;
        self.check_obligations()?;
        let totals = self.check_holds()?;
        self.check_facilities(&totals)?;
        self.check_confidential_facilities()?;
        self.check_confidential_holds(totals.defmi_holds)?;
        self.check_defaults()
    }
}

proof fn lemma_member(keys: Seq<Identifier>, ids: Set<Identifier>, i: int)
    requires
        keys.to_set() == ids,
        0 <= i < keys.len(),
    ensures
        ids.contains(keys[i]),
{
    assert(keys.to_set().contains(keys[i]));
}

pub proof fn lemma_tally_grows(
    holds: Map<Identifier, GuaranteeHold>,
    keys: Seq<Identifier>,
    i: int,
    facility: Identifier,
    consumed: bool,
)
    requires
        0 <= i <= keys.len(),
    ensures
        0 <= tally(holds, keys.take(i), facility, consumed) <= tally(
            holds,
            keys,
            facility,
            consumed,
        ),
    decreases keys.len(),
{
    if i == keys.len() {
        assert(keys.take(i) =~= keys);
        if keys.len() > 0 {
            lemma_tally_grows(holds, keys.drop_last(), i - 1, facility, consumed);
            assert(keys.drop_last().take(i - 1) =~= keys.drop_last());
        }
    } else {
        lemma_tally_grows(holds, keys.drop_last(), i, facility, consumed);
        assert(keys.drop_last().take(i) =~= keys.take(i));
    }
}

impl BookState {
    proof fn lemma_collateral_clean(self, keys: Seq<Identifier>)
        ensures
            self.collateral_defect(keys) is None <==> {
                &&& forall|i: int|
                    0 <= i < keys.len() ==> self.lot_sound(#[trigger] keys[i])
                        && self.collateral[keys[i]].valuation_error() is None
                &&& forall|j: int, i: int|
                    0 <= j < i < keys.len() ==> self.collateral[#[trigger] keys[j]].defmi_lock_id
                        != self.collateral[#[trigger] keys[i]].defmi_lock_id
            },
        decreases keys.len(),
    {
        if keys.len() > 0 {
            let rest = keys.drop_last();
            self.lemma_collateral_clean(rest);
            assert(forall|i: int| 0 <= i < rest.len() ==> #[trigger] rest[i] == keys[i]);
            if self.collateral_defect(keys) is None {
                assert forall|i: int| 0 <= i < keys.len() implies self.lot_sound(
                    #[trigger] keys[i],
                ) && self.collateral[keys[i]].valuation_error() is None by {
                    if i < rest.len() {
                        assert(self.lot_sound(rest[i]));
                    }
                }
                assert forall|j: int, i: int| 0 <= j < i < keys.len() implies
                    self.collateral[#[trigger] keys[j]].defmi_lock_id
                    != self.collateral[#[trigger] keys[i]].defmi_lock_id by {
                    if i < rest.len() {
                        assert(rest[j] == keys[j] && rest[i] == keys[i]);
                    }
                }
            } else if self.collateral_defect(rest) is None {
                assert(keys[keys.len() - 1] == keys.last());
            } else {
                if exists|i: int|
                    0 <= i < rest.len() && !(self.lot_sound(#[trigger] rest[i])
                        && self.collateral[rest[i]].valuation_error() is None) {
                    let i = choose|i: int|
                        0 <= i < rest.len() && !(self.lot_sound(#[trigger] rest[i])
                            && self.collateral[rest[i]].valuation_error() is None);
                    assert(keys[i] == rest[i]);
                } else {
                    let (j, i) = choose|j: int, i: int|
                        0 <= j < i < rest.len()
                            && self.collateral[#[trigger] rest[j]].defmi_lock_id
                            == self.collateral[#[trigger] rest[i]].defmi_lock_id;
                    assert(keys[i] == rest[i] && keys[j] == rest[j]);
                }
            }
        }
    }

    proof fn lemma_obligations_clean(self, keys: Seq<Identifier>)
        ensures
            self.obligations_defect(keys) is None <==> forall|i: int|
                0 <= i < keys.len() ==> self.obligations[#[trigger] keys[i]].well_formed()
                    && self.obligation_listed(keys[i]),
        decreases keys.len(),
    {
        if keys.len() > 0 {
            let rest = keys.drop_last();
            self.lemma_obligations_clean(rest);
            assert(forall|i: int| 0 <= i < rest.len() ==> #[trigger] rest[i] == keys[i]);
            if self.obligations_defect(keys) is None {
                assert forall|i: int| 0 <= i < keys.len() implies
                    self.obligations[#[trigger] keys[i]].well_formed() && self.obligation_listed(
                    keys[i],
                ) by {
                    if i < rest.len() {
                        assert(self.obligation_listed(rest[i]));
                    }
                }
            } else if self.obligations_defect(rest) is None {
                assert(keys[keys.len() - 1] == keys.last());
            } else {
                let i = choose|i: int|
                    0 <= i < rest.len() && !(self.obligations[#[trigger] rest[i]].well_formed()
                        && self.obligation_listed(rest[i]));
                assert(keys[i] == rest[i]);
            }
        }
    }

    proof fn lemma_facilities_clean(self, keys: Seq<Identifier>)
        ensures
            self.facilities_defect(keys) is None <==> forall|i: int|
                0 <= i < keys.len() ==> self.facility_sound(#[trigger] keys[i]),
        decreases keys.len(),
    {
        if keys.len() > 0 {
            let rest = keys.drop_last();
            self.lemma_facilities_clean(rest);
            assert(forall|i: int| 0 <= i < rest.len() ==> #[trigger] rest[i] == keys[i]);
            if self.facilities_defect(keys) is None {
                assert forall|i: int| 0 <= i < keys.len() implies self.facility_sound(
                    #[trigger] keys[i],
                ) by {
                    if i < rest.len() {
                        assert(self.facility_sound(rest[i]));
                    }
                }
            } else if self.facilities_defect(rest) is None {
                assert(keys[keys.len() - 1] == keys.last());
            } else {
                let i = choose|i: int| 0 <= i < rest.len() && !self.facility_sound(#[trigger] rest[i]);
                assert(keys[i] == rest[i]);
            }
        }
    }

    /// Whether the totals after each hold of a list stay in range.
    spec fn totals_fit(self, keys: Seq<Identifier>) -> bool {
        forall|i: int|
            0 <= i < keys.len() ==> {
                let f = self.guarantee_holds[#[trigger] keys[i]].facility_id;
                &&& tally(self.guarantee_holds, keys.take(i + 1), f, false) <= u128::MAX
                &&& tally(self.guarantee_holds, keys.take(i + 1), f, true) <= u128::MAX
            }
    }

    proof fn lemma_holds_clean(self, keys: Seq<Identifier>)
        ensures
            self.holds_defect(keys) is None <==> {
                &&& forall|i: int| 0 <= i < keys.len() ==> self.hold_sound(#[trigger] keys[i])
                &&& forall|j: int, i: int|
                    0 <= j < i < keys.len()
                        ==> self.guarantee_holds[#[trigger] keys[j]].defmi_hold_id
                        != self.guarantee_holds[#[trigger] keys[i]].defmi_hold_id
                &&& self.totals_fit(keys)
            },
        decreases keys.len(),
    {
        if keys.len() > 0 {
            let rest = keys.drop_last();
            self.lemma_holds_clean(rest);
            assert(forall|i: int| 0 <= i < rest.len() ==> #[trigger] rest[i] == keys[i]);
            assert forall|i: int| 0 <= i < rest.len() implies #[trigger] rest.take(i + 1)
                == keys.take(i + 1) by {
                assert(rest.take(i + 1) =~= keys.take(i + 1));
            }
            assert(keys.take(keys.len() as int) =~= keys);
            if self.holds_defect(keys) is None {
                assert forall|i: int| 0 <= i < keys.len() implies self.hold_sound(
                    #[trigger] keys[i],
                ) by {
                    if i < rest.len() {
                        assert(self.hold_sound(rest[i]));
                    }
                }
                assert forall|j: int, i: int| 0 <= j < i < keys.len() implies
                    self.guarantee_holds[#[trigger] keys[j]].defmi_hold_id
                    != self.guarantee_holds[#[trigger] keys[i]].defmi_hold_id by {
                    if i < rest.len() {
                        assert(rest[j] == keys[j] && rest[i] == keys[i]);
                    }
                }
                assert forall|i: int| 0 <= i < keys.len() implies {
                    let f = self.guarantee_holds[#[trigger] keys[i]].facility_id;
                    &&& tally(self.guarantee_holds, keys.take(i + 1), f, false) <= u128::MAX
                    &&& tally(self.guarantee_holds, keys.take(i + 1), f, true) <= u128::MAX
                } by {
                    if i < rest.len() {
                        assert(rest[i] == keys[i]);
                        assert(rest.take(i + 1) == keys.take(i + 1));
                    }
                }
            } else if self.holds_defect(rest) is None {
                assert(keys[keys.len() - 1] == keys.last());
            } else {
                if exists|i: int| 0 <= i < rest.len() && !self.hold_sound(#[trigger] rest[i]) {
                    let i = choose|i: int| 0 <= i < rest.len() && !self.hold_sound(#[trigger] rest[i]);
                    assert(keys[i] == rest[i]);
                } else if exists|j: int, i: int|
                    0 <= j < i < rest.len()
                        && self.guarantee_holds[#[trigger] rest[j]].defmi_hold_id
                        == self.guarantee_holds[#[trigger] rest[i]].defmi_hold_id {
                    let (j, i) = choose|j: int, i: int|
                        0 <= j < i < rest.len()
                            && self.guarantee_holds[#[trigger] rest[j]].defmi_hold_id
                            == self.guarantee_holds[#[trigger] rest[i]].defmi_hold_id;
                    assert(keys[i] == rest[i] && keys[j] == rest[j]);
                } else {
                    let i = choose|i: int|
                        0 <= i < rest.len() && !{
                            let f = self.guarantee_holds[#[trigger] rest[i]].facility_id;
                            &&& tally(self.guarantee_holds, rest.take(i + 1), f, false)
                                <= u128::MAX
                            &&& tally(self.guarantee_holds, rest.take(i + 1), f, true) <= u128::MAX
                        };
                    assert(keys[i] == rest[i]);
                    assert(rest.take(i + 1) == keys.take(i + 1));
                }
            }
        }
    }

    /// A book has no defect exactly if its invariants hold.
    pub proof fn lemma_valid_without_defect(self)
        requires
            self.finite(),
        ensures
            self.defect() is None <==> self.valid(),
    {
        let lots = ascending(self.collateral.dom());
        let obligations = ascending(self.obligations.dom());
        let holds = ascending(self.guarantee_holds.dom());
        let facilities = ascending(self.guarantee_facilities.dom());
        lemma_ascending_exists(self.collateral.dom());
        lemma_ascending_exists(self.obligations.dom());
        lemma_ascending_exists(self.guarantee_holds.dom());
        lemma_ascending_exists(self.guarantee_facilities.dom());
        self.lemma_collateral_clean(lots);
        self.lemma_obligations_clean(obligations);
        self.lemma_holds_clean(holds);
        self.lemma_facilities_clean(facilities);
        if self.collateral_defect(lots) is None {
            assert forall|l: Identifier| #[trigger] self.collateral.contains_key(l) implies
                self.lot_sound(l) && self.collateral[l].valuation_error() is None by {
                let j = lemma_index_of(lots, self.collateral.dom(), l);
                assert(self.lot_sound(lots[j]));
            }
            assert forall|l: Identifier, k: Identifier| #[trigger]
                self.collateral.contains_key(l) && #[trigger] self.collateral.contains_key(k) && l
                    != k implies self.collateral[l].defmi_lock_id
                != self.collateral[k].defmi_lock_id by {
                let a = lemma_index_of(lots, self.collateral.dom(), l);
                let b = lemma_index_of(lots, self.collateral.dom(), k);
                assert(lots[a] == l && lots[b] == k);
            }
            assert(self.collateral_sound());
        }
        if self.collateral_sound() {
            assert forall|i: int| 0 <= i < lots.len() implies self.lot_sound(#[trigger] lots[i])
                && self.collateral[lots[i]].valuation_error() is None by {
                lemma_member(lots, self.collateral.dom(), i);
                assert(self.collateral.contains_key(lots[i]));
            }
            assert forall|j: int, i: int| 0 <= j < i < lots.len() implies
                self.collateral[#[trigger] lots[j]].defmi_lock_id
                != self.collateral[#[trigger] lots[i]].defmi_lock_id by {
                lemma_member(lots, self.collateral.dom(), i);
                lemma_member(lots, self.collateral.dom(), j);
                assert(self.collateral.contains_key(lots[j]));
                assert(self.collateral.contains_key(lots[i]));
            }
            assert(self.collateral_defect(lots) is None);
        }
        if self.obligations_defect(obligations) is None {
            assert forall|o: Identifier| #[trigger] self.obligations.contains_key(o) implies
                self.obligations[o].well_formed() && self.obligation_listed(o) by {
                let j = lemma_index_of(obligations, self.obligations.dom(), o);
                assert(self.obligation_listed(obligations[j]));
            }
        }
        if self.obligations_sound() {
            assert forall|i: int| 0 <= i < obligations.len() implies
                self.obligations[#[trigger] obligations[i]].well_formed() && self.obligation_listed(
                obligations[i],
            ) by {
                lemma_member(obligations, self.obligations.dom(), i);
                assert(self.obligations.contains_key(obligations[i]));
            }
        }
        if self.facilities_defect(facilities) is None {
            assert forall|f: Identifier| #[trigger] self.guarantee_facilities.contains_key(f) implies
                self.facility_sound(f) by {
                let j = lemma_index_of(facilities, self.guarantee_facilities.dom(), f);
                assert(self.facility_sound(facilities[j]));
            }
        }
        if self.facilities_sound() {
            assert forall|i: int| 0 <= i < facilities.len() implies self.facility_sound(
                #[trigger] facilities[i],
            ) by {
                lemma_member(facilities, self.guarantee_facilities.dom(), i);
                assert(self.guarantee_facilities.contains_key(facilities[i]));
            }
        }
        if self.holds_defect(holds) is None {
            assert forall|h: Identifier| #[trigger] self.guarantee_holds.contains_key(h) implies
                self.hold_sound(h) by {
                let j = lemma_index_of(holds, self.guarantee_holds.dom(), h);
                assert(self.hold_sound(holds[j]));
            }
            assert forall|h: Identifier, k: Identifier| #[trigger]
                self.guarantee_holds.contains_key(h)
                    && #[trigger] self.guarantee_holds.contains_key(k) && h != k implies
                self.guarantee_holds[h].defmi_hold_id != self.guarantee_holds[k].defmi_hold_id by {
                let a = lemma_index_of(holds, self.guarantee_holds.dom(), h);
                let b = lemma_index_of(holds, self.guarantee_holds.dom(), k);
                assert(holds[a] == h && holds[b] == k);
            }
            assert(self.holds_sound());
        }
        if self.holds_sound() && self.facilities_sound() {
            assert forall|i: int| 0 <= i < holds.len() implies self.hold_sound(
                #[trigger] holds[i],
            ) by {
                lemma_member(holds, self.guarantee_holds.dom(), i);
                assert(self.guarantee_holds.contains_key(holds[i]));
            }
            assert forall|j: int, i: int| 0 <= j < i < holds.len() implies
                self.guarantee_holds[#[trigger] holds[j]].defmi_hold_id
                != self.guarantee_holds[#[trigger] holds[i]].defmi_hold_id by {
                lemma_member(holds, self.guarantee_holds.dom(), i);
                lemma_member(holds, self.guarantee_holds.dom(), j);
                assert(self.guarantee_holds.contains_key(holds[j]));
                assert(self.guarantee_holds.contains_key(holds[i]));
            }
            assert forall|i: int| 0 <= i < holds.len() implies {
                let f = self.guarantee_holds[#[trigger] holds[i]].facility_id;
                &&& tally(self.guarantee_holds, holds.take(i + 1), f, false) <= u128::MAX
                &&& tally(self.guarantee_holds, holds.take(i + 1), f, true) <= u128::MAX
            } by {
                assert(self.hold_sound(holds[i]));
                let f = self.guarantee_holds[holds[i]].facility_id;
                assert(self.facility_sound(f));
                lemma_tally_grows(self.guarantee_holds, holds, i + 1, f, false);
                lemma_tally_grows(self.guarantee_holds, holds, i + 1, f, true);
            }
            assert(self.holds_defect(holds) is None);
        }
    }
}

} // verus!
