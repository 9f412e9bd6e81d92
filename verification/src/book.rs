//! The clearing book, its state, and what can be read of it.

use vstd::prelude::*;

use crate::authority::{AuthoritySet, AuthorityView};
use crate::cycles::{ClearingObligation, CycleView, NettingCycle};
use crate::defaults::{CaseView, DefaultCase};
use crate::error::DeCcpError;
use crate::guarantees::{
    ConfidentialGuaranteeFacility, ConfidentialGuaranteeHold, GuaranteeFacility, GuaranteeHold,
};
use crate::ident::{ascending, is_zero, same_id, Digest32, Identifier, ZERO};
use crate::map::{IdMap, IdSet, Record};
use crate::members::{
    CcpCapitalization, CollateralLot, CollateralStatus, MarginAccount, Participant, ParticipantStatus,
};
use crate::ports::DeFmiPort;

verus! {

/// Everything a clearing book records.
#[verifier::ext_equal]
pub struct BookState {
    pub authorities: AuthorityView,
    pub participants: Map<Identifier, Participant>,
    pub collateral: Map<Identifier, CollateralLot>,
    pub margins: Map<Identifier, MarginAccount>,
    pub cycles: Map<Identifier, CycleView>,
    pub obligations: Map<Identifier, ClearingObligation>,
    pub guarantee_facilities: Map<Identifier, GuaranteeFacility>,
    pub guarantee_holds: Map<Identifier, GuaranteeHold>,
    pub confidential_guarantee_facilities: Map<Identifier, ConfidentialGuaranteeFacility>,
    pub confidential_guarantee_holds: Map<Identifier, ConfidentialGuaranteeHold>,
    pub defaults: Map<Identifier, CaseView>,
    pub ccp_capital_remaining: u128,
    pub ccp_capital_defmi_lock_id: Identifier,
    pub ccp_capital_proof_digest: Digest32,
    pub ccp_capital_valid_until: u64,
    pub used_operations: Set<Identifier>,
}

/// Persisted form of [`ClearingBook`]. It is plain data; only
/// [`ClearingBook::restore`] turns it back into a book, and that requires a
/// quorum approval of the snapshot digest by a trusted authority set plus a
/// full invariant check.
#[derive(Debug, PartialEq, Eq)]
pub struct ClearingSnapshot {
    pub authorities: AuthoritySet,
    pub participants: IdMap<Participant>,
    pub collateral: IdMap<CollateralLot>,
    pub margins: IdMap<MarginAccount>,
    pub cycles: IdMap<NettingCycle>,
    pub obligations: IdMap<ClearingObligation>,
    pub guarantee_facilities: IdMap<GuaranteeFacility>,
    pub guarantee_holds: IdMap<GuaranteeHold>,
    pub confidential_guarantee_facilities: IdMap<ConfidentialGuaranteeFacility>,
    pub confidential_guarantee_holds: IdMap<ConfidentialGuaranteeHold>,
    pub defaults: IdMap<DefaultCase>,
    pub ccp_capital_remaining: u128,
    pub ccp_capital_defmi_lock_id: Identifier,
    pub ccp_capital_proof_digest: Digest32,
    pub ccp_capital_valid_until: u64,
    pub used_operations: IdSet,
}

impl View for ClearingSnapshot {
    type V = BookState;

    open spec fn view(&self) -> BookState {
        BookState {
            authorities: self.authorities@,
            participants: self.participants@,
            collateral: self.collateral@,
            margins: self.margins@,
            cycles: self.cycles@,
            obligations: self.obligations@,
            guarantee_facilities: self.guarantee_facilities@,
            guarantee_holds: self.guarantee_holds@,
            confidential_guarantee_facilities: self.confidential_guarantee_facilities@,
            confidential_guarantee_holds: self.confidential_guarantee_holds@,
            defaults: self.defaults@,
            ccp_capital_remaining: self.ccp_capital_remaining,
            ccp_capital_defmi_lock_id: self.ccp_capital_defmi_lock_id,
            ccp_capital_proof_digest: self.ccp_capital_proof_digest,
            ccp_capital_valid_until: self.ccp_capital_valid_until,
            used_operations: self.used_operations@,
        }
    }
}

impl Clone for ClearingSnapshot {
    fn clone(&self) -> (r: Self)
        ensures
            r@ == self@,
    {
        ClearingSnapshot {
            authorities: self.authorities.duplicate(),
            participants: self.participants.duplicate(),
            collateral: self.collateral.duplicate(),
            margins: self.margins.duplicate(),
            cycles: self.cycles.duplicate(),
            obligations: self.obligations.duplicate(),
            guarantee_facilities: self.guarantee_facilities.duplicate(),
            guarantee_holds: self.guarantee_holds.duplicate(),
            confidential_guarantee_facilities: self.confidential_guarantee_facilities.duplicate(),
            confidential_guarantee_holds: self.confidential_guarantee_holds.duplicate(),
            defaults: self.defaults.duplicate(),
            ccp_capital_remaining: self.ccp_capital_remaining,
            ccp_capital_defmi_lock_id: self.ccp_capital_defmi_lock_id,
            ccp_capital_proof_digest: self.ccp_capital_proof_digest,
            ccp_capital_valid_until: self.ccp_capital_valid_until,
            used_operations: self.used_operations.duplicate(),
        }
    }
}

/// Runtime aggregate. Its fields are out of reach: building one from persisted
/// data directly would bypass quorum, eligibility, and settlement-layer
/// verification.
#[derive(Debug, PartialEq, Eq)]
pub struct ClearingBook {
    pub(crate) authorities: AuthoritySet,
    pub(crate) participants: IdMap<Participant>,
    pub(crate) collateral: IdMap<CollateralLot>,
    pub(crate) margins: IdMap<MarginAccount>,
    pub(crate) cycles: IdMap<NettingCycle>,
    pub(crate) obligations: IdMap<ClearingObligation>,
    pub(crate) guarantee_facilities: IdMap<GuaranteeFacility>,
    pub(crate) guarantee_holds: IdMap<GuaranteeHold>,
    pub(crate) confidential_guarantee_facilities: IdMap<ConfidentialGuaranteeFacility>,
    pub(crate) confidential_guarantee_holds: IdMap<ConfidentialGuaranteeHold>,
    pub(crate) defaults: IdMap<DefaultCase>,
    pub(crate) ccp_capital_remaining: u128,
    pub(crate) ccp_capital_defmi_lock_id: Identifier,
    pub(crate) ccp_capital_proof_digest: Digest32,
    pub(crate) ccp_capital_valid_until: u64,
    pub(crate) used_operations: IdSet,
}

impl View for ClearingBook {
    type V = BookState;

    open(crate) spec fn view(&self) -> BookState {
        BookState {
            authorities: self.authorities@,
            participants: self.participants@,
            collateral: self.collateral@,
            margins: self.margins@,
            cycles: self.cycles@,
            obligations: self.obligations@,
            guarantee_facilities: self.guarantee_facilities@,
            guarantee_holds: self.guarantee_holds@,
            confidential_guarantee_facilities: self.confidential_guarantee_facilities@,
            confidential_guarantee_holds: self.confidential_guarantee_holds@,
            defaults: self.defaults@,
            ccp_capital_remaining: self.ccp_capital_remaining,
            ccp_capital_defmi_lock_id: self.ccp_capital_defmi_lock_id,
            ccp_capital_proof_digest: self.ccp_capital_proof_digest,
            ccp_capital_valid_until: self.ccp_capital_valid_until,
            used_operations: self.used_operations@,
        }
    }
}

impl Clone for ClearingBook {
    fn clone(&self) -> (r: Self)
        ensures
            r@ == self@,
    {
        ClearingBook {
            authorities: self.authorities.duplicate(),
            participants: self.participants.duplicate(),
            collateral: self.collateral.duplicate(),
            margins: self.margins.duplicate(),
            cycles: self.cycles.duplicate(),
            obligations: self.obligations.duplicate(),
            guarantee_facilities: self.guarantee_facilities.duplicate(),
            guarantee_holds: self.guarantee_holds.duplicate(),
            confidential_guarantee_facilities: self.confidential_guarantee_facilities.duplicate(),
            confidential_guarantee_holds: self.confidential_guarantee_holds.duplicate(),
            defaults: self.defaults.duplicate(),
            ccp_capital_remaining: self.ccp_capital_remaining,
            ccp_capital_defmi_lock_id: self.ccp_capital_defmi_lock_id,
            ccp_capital_proof_digest: self.ccp_capital_proof_digest,
            ccp_capital_valid_until: self.ccp_capital_valid_until,
            used_operations: self.used_operations.duplicate(),
        }
    }
}

/// The result of a state transition: what is returned, and the state after.
pub type Outcome = (Result<(), DeCcpError>, BookState);

impl BookState {
    /// The state of a newly opened book.
    pub open spec fn opening(authorities: AuthorityView, capital: CcpCapitalization) -> BookState {
        BookState {
            authorities,
            participants: Map::empty(),
            collateral: Map::empty(),
            margins: Map::empty(),
            cycles: Map::empty(),
            obligations: Map::empty(),
            guarantee_facilities: Map::empty(),
            guarantee_holds: Map::empty(),
            confidential_guarantee_facilities: Map::empty(),
            confidential_guarantee_holds: Map::empty(),
            defaults: Map::empty(),
            ccp_capital_remaining: capital.amount,
            ccp_capital_defmi_lock_id: capital.defmi_lock_id,
            ccp_capital_proof_digest: capital.proof_digest,
            ccp_capital_valid_until: capital.valid_until,
            used_operations: Set::empty(),
        }
    }

    /// Why a book cannot be opened, before the settlement layer is asked.
    pub open spec fn opening_refusal(
        authorities: AuthorityView,
        capital: CcpCapitalization,
        now: u64,
    ) -> Option<DeCcpError> {
        if !authorities.valid() {
            Some(DeCcpError::InvalidAuthoritySet)
        } else if capital.amount == 0 || capital.defmi_lock_id == ZERO || capital.proof_digest
            == ZERO || capital.valid_until < now || capital.valid_until == 0 {
            Some(DeCcpError::InvalidCapital)
        } else {
            None
        }
    }

    /// Why a member cannot act: it is unknown, not active, or its eligibility
    /// has expired.
    pub open spec fn inactivity(self, member: Identifier, now: u64) -> Option<DeCcpError> {
        if !self.participants.contains_key(member) {
            Some(DeCcpError::UnknownParticipant)
        } else if self.participants[member].status != ParticipantStatus::Active
            || self.participants[member].eligibility.valid_until < now {
            Some(DeCcpError::ParticipantNotActive)
        } else {
            None
        }
    }

    /// Whether a lot counts towards a member's margin.
    pub open spec fn lot_counts(lot: CollateralLot, member: Identifier, now: u64) -> bool {
        lot.owner_id == member && lot.status == CollateralStatus::Available && lot.valid_until
            >= now
    }

    /// What the lots under `keys` are worth as margin of a member, or why that
    /// cannot be told.
    pub open spec fn collateral_worth(
        self,
        keys: Seq<Identifier>,
        member: Identifier,
        now: u64,
    ) -> Result<int, DeCcpError>
        decreases keys.len(),
    {
        if keys.len() == 0 {
            Ok(0)
        } else {
            let lot = self.collateral[keys.last()];
            match self.collateral_worth(keys.drop_last(), member, now) {
                Err(error) => Err(error),
                Ok(sum) => if !Self::lot_counts(lot, member, now) {
                    Ok(sum)
                } else {
                    match lot.valuation_error() {
                        Some(error) => Err(error),
                        None => if sum + lot.value_after_haircut() > u128::MAX {
                            Err(DeCcpError::ArithmeticOverflow)
                        } else {
                            Ok(sum + lot.value_after_haircut())
                        },
                    }
                },
            }
        }
    }

    /// What a member's available collateral is worth as margin.
    pub open spec fn eligible_collateral(self, member: Identifier, now: u64) -> Result<
        int,
        DeCcpError,
    > {
        self.collateral_worth(ascending(self.collateral.dom()), member, now)
    }

    /// Whether a settlement-layer lock already backs something in the book.
    pub open spec fn lock_taken(self, lock: Identifier) -> bool {
        ||| lock == self.ccp_capital_defmi_lock_id
        ||| exists|p: Identifier|
            #[trigger] self.participants.contains_key(p)
                && self.participants[p].default_fund_defmi_lock_id == lock
        ||| exists|l: Identifier|
            #[trigger] self.collateral.contains_key(l) && self.collateral[l].defmi_lock_id == lock
    }

    /// Whether a subject line already belongs to a member.
    pub open spec fn subject_line_taken(self, line: Digest32) -> bool {
        exists|p: Identifier|
            #[trigger] self.participants.contains_key(p)
                && self.participants[p].eligibility.subject_line_id == line
    }

    /// Whether a settlement-layer hold already backs a guarantee hold.
    pub open spec fn defmi_hold_taken(self, id: Identifier) -> bool {
        ||| exists|h: Identifier|
            #[trigger] self.guarantee_holds.contains_key(h)
                && self.guarantee_holds[h].defmi_hold_id == id
        ||| exists|h: Identifier|
            #[trigger] self.confidential_guarantee_holds.contains_key(h)
                && self.confidential_guarantee_holds[h].defmi_hold_id == id
    }

    /// The state with an operation marked as used.
    pub open spec fn with_operation(self, operation: Identifier) -> BookState {
        BookState { used_operations: self.used_operations.insert(operation), ..self }
    }
}

impl ClearingBook {
    /// Opens a book for an authority set with capital that the settlement
    /// layer confirms.
    pub fn new<P: DeFmiPort>(
        authorities: AuthoritySet,
        capitalization: CcpCapitalization,
        defmi: &P,
        now: u64,
    ) -> (r: Result<Self, DeCcpError>)
        ensures
            match BookState::opening_refusal(authorities@, capitalization, now) {
                Some(error) => r == Err::<Self, DeCcpError>(error),
                None => exists|reply: Result<(), String>|
                    {
                        &&& #[trigger] call_ensures(
                            P::verify_ccp_capital,
                            (defmi, &capitalization, now),
                            reply,
                        )
                        &&& match reply {
                            Err(message) => r == Err::<Self, DeCcpError>(
                                DeCcpError::DeFmiEvidenceRejected(message),
                            ),
                            Ok(_) => r is Ok && r->Ok_0@ == BookState::opening(
                                authorities@,
                                capitalization,
                            ),
                        }
                    },
            },
    {
        authorities.validate()?;
        if capitalization.amount == 0 || is_zero(&capitalization.defmi_lock_id) || is_zero(
            &capitalization.proof_digest,
        ) || capitalization.valid_until < now || capitalization.valid_until == 0 {
            return Err(DeCcpError::InvalidCapital);
        }
        match defmi.verify_ccp_capital(&capitalization, now) {
            Err(message) => Err(DeCcpError::DeFmiEvidenceRejected(message)),
            Ok(_) => Ok(
                ClearingBook {
                    authorities,
                    participants: IdMap::new(),
                    collateral: IdMap::new(),
                    margins: IdMap::new(),
                    cycles: IdMap::new(),
                    obligations: IdMap::new(),
                    guarantee_facilities: IdMap::new(),
                    guarantee_holds: IdMap::new(),
                    confidential_guarantee_facilities: IdMap::new(),
                    confidential_guarantee_holds: IdMap::new(),
                    defaults: IdMap::new(),
                    ccp_capital_remaining: capitalization.amount,
                    ccp_capital_defmi_lock_id: capitalization.defmi_lock_id,
                    ccp_capital_proof_digest: capitalization.proof_digest,
                    ccp_capital_valid_until: capitalization.valid_until,
                    used_operations: IdSet::new(),
                },
            ),
        }
    }

    /// The authorities of the book.
    pub fn authority_set(&self) -> (r: &AuthoritySet)
        ensures
            r@ == self@.authorities,
    {
        &self.authorities
    }

    /// The member under an identifier.
    pub fn participant(&self, participant_id: &Identifier) -> (r: Option<&Participant>)
        ensures
            match r {
                Some(found) => self@.participants.contains_key(*participant_id) && *found
                    == self@.participants[*participant_id],
                None => !self@.participants.contains_key(*participant_id),
            },
    {
        self.participants.get(participant_id)
    }

    /// The margin account of a member.
    pub fn margin(&self, participant_id: &Identifier) -> (r: Option<&MarginAccount>)
        ensures
            match r {
                Some(found) => self@.margins.contains_key(*participant_id) && *found
                    == self@.margins[*participant_id],
                None => !self@.margins.contains_key(*participant_id),
            },
    {
        self.margins.get(participant_id)
    }

    /// The cycle under an identifier.
    pub fn cycle(&self, cycle_id: &Identifier) -> (r: Option<&NettingCycle>)
        ensures
            match r {
                Some(found) => self@.cycles.contains_key(*cycle_id) && found@
                    == self@.cycles[*cycle_id],
                None => !self@.cycles.contains_key(*cycle_id),
            },
    {
        self.cycles.get(cycle_id)
    }

    /// The guarantee facility under an identifier.
    pub fn guarantee_facility(&self, facility_id: &Identifier) -> (r: Option<&GuaranteeFacility>)
        ensures
            match r {
                Some(found) => self@.guarantee_facilities.contains_key(*facility_id) && *found
                    == self@.guarantee_facilities[*facility_id],
                None => !self@.guarantee_facilities.contains_key(*facility_id),
            },
    {
        self.guarantee_facilities.get(facility_id)
    }

    /// The guarantee hold under an identifier.
    pub fn guarantee_hold(&self, hold_id: &Identifier) -> (r: Option<&GuaranteeHold>)
        ensures
            match r {
                Some(found) => self@.guarantee_holds.contains_key(*hold_id) && *found
                    == self@.guarantee_holds[*hold_id],
                None => !self@.guarantee_holds.contains_key(*hold_id),
            },
    {
        self.guarantee_holds.get(hold_id)
    }

    /// The confidential guarantee facility under an identifier.
    pub fn confidential_guarantee_facility(&self, facility_id: &Identifier) -> (r: Option<
        &ConfidentialGuaranteeFacility,
    >)
        ensures
            match r {
                Some(found) => self@.confidential_guarantee_facilities.contains_key(*facility_id)
                    && *found == self@.confidential_guarantee_facilities[*facility_id],
                None => !self@.confidential_guarantee_facilities.contains_key(*facility_id),
            },
    {
        self.confidential_guarantee_facilities.get(facility_id)
    }

    /// The confidential guarantee hold under an identifier.
    pub fn confidential_guarantee_hold(&self, hold_id: &Identifier) -> (r: Option<
        &ConfidentialGuaranteeHold,
    >)
        ensures
            match r {
                Some(found) => self@.confidential_guarantee_holds.contains_key(*hold_id) && *found
                    == self@.confidential_guarantee_holds[*hold_id],
                None => !self@.confidential_guarantee_holds.contains_key(*hold_id),
            },
    {
        self.confidential_guarantee_holds.get(hold_id)
    }

    /// The default case under an identifier.
    pub fn default_case(&self, case_id: &Identifier) -> (r: Option<&DefaultCase>)
        ensures
            match r {
                Some(found) => self@.defaults.contains_key(*case_id) && found@
                    == self@.defaults[*case_id],
                None => !self@.defaults.contains_key(*case_id),
            },
    {
        self.defaults.get(case_id)
    }

    /// What is left of the counterparty's own capital.
    pub fn ccp_capital_remaining(&self) -> (r: u128)
        ensures
            r == self@.ccp_capital_remaining,
    {
        self.ccp_capital_remaining
    }

    /// The lock, the proof, and the expiry of the counterparty's own capital.
    pub fn ccp_capital_lock(&self) -> (r: (Identifier, Digest32, u64))
        ensures
            r == (
                self@.ccp_capital_defmi_lock_id,
                self@.ccp_capital_proof_digest,
                self@.ccp_capital_valid_until,
            ),
    {
        (
            self.ccp_capital_defmi_lock_id,
            self.ccp_capital_proof_digest,
            self.ccp_capital_valid_until,
        )
    }

    /// The state of the book as plain data.
    pub fn snapshot(&self) -> (r: ClearingSnapshot)
        ensures
            r@ == self@,
    {
        ClearingSnapshot {
            authorities: self.authorities.duplicate(),
            participants: self.participants.duplicate(),
            collateral: self.collateral.duplicate(),
            margins: self.margins.duplicate(),
            cycles: self.cycles.duplicate(),
            obligations: self.obligations.duplicate(),
            guarantee_facilities: self.guarantee_facilities.duplicate(),
            guarantee_holds: self.guarantee_holds.duplicate(),
            confidential_guarantee_facilities: self.confidential_guarantee_facilities.duplicate(),
            confidential_guarantee_holds: self.confidential_guarantee_holds.duplicate(),
            defaults: self.defaults.duplicate(),
            ccp_capital_remaining: self.ccp_capital_remaining,
            ccp_capital_defmi_lock_id: self.ccp_capital_defmi_lock_id,
            ccp_capital_proof_digest: self.ccp_capital_proof_digest,
            ccp_capital_valid_until: self.ccp_capital_valid_until,
            used_operations: self.used_operations.duplicate(),
        }
    }

    pub(crate) fn active_participant(&self, participant_id: &Identifier, now: u64) -> (r: Result<
        (),
        DeCcpError,
    >)
        ensures
            r == (match self@.inactivity(*participant_id, now) {
                Some(error) => Err::<(), DeCcpError>(error),
                None => Ok(()),
            }),
    {
        match self.participants.get(participant_id) {
            None => Err(DeCcpError::UnknownParticipant),
            Some(participant) => if participant.status != ParticipantStatus::Active
                || participant.eligibility.valid_until < now {
                Err(DeCcpError::ParticipantNotActive)
            } else {
                Ok(())
            },
        }
    }

    pub(crate) fn eligible_collateral(&self, participant_id: &Identifier, now: u64) -> (r: Result<
        u128,
        DeCcpError,
    >)
        ensures
            match self@.eligible_collateral(*participant_id, now) {
                Ok(worth) => r is Ok && r->Ok_0 == worth,
                Err(error) => r == Err::<u128, DeCcpError>(error),
            },
    {
        let ghost keys = ascending(self@.collateral.dom());
        let count: usize = self.collateral.len();
        let mut sum: u128 = 0;
        let mut i: usize = 0;
        while i < count
            invariant
                i <= count,
                count == keys.len(),
                count == self@.collateral.dom().len(),
                keys == ascending(self@.collateral.dom()),
                self@.collateral_worth(keys.take(i as int), *participant_id, now) == Ok::<
                    int,
                    DeCcpError,
                >(sum as int),
            decreases count - i,
        {
            let lot = self.collateral.value_at(i);
            proof {
                assert(keys.take(i + 1).drop_last() =~= keys.take(i as int));
                assert(keys.take(i + 1).last() == keys[i as int]);
            }
            if same_id(&lot.owner_id, participant_id) && lot.status == CollateralStatus::Available
                && lot.valid_until >= now {
                match lot.eligible_value() {
                    Err(error) => {
                        proof {
                            self@.lemma_worth_error_stays(keys, i + 1, *participant_id, now);
                        }
                        return Err(error);
                    },
                    Ok(value) => match sum.checked_add(value) {
                        None => {
                            proof {
                                self@.lemma_worth_error_stays(keys, i + 1, *participant_id, now);
                            }
                            return Err(DeCcpError::ArithmeticOverflow);
                        },
                        Some(total) => {
                            sum = total;
                        },
                    },
                }
            }
            i = i + 1;
        }
        assert(keys.take(i as int) =~= keys);
        Ok(sum)
    }

    pub(crate) fn operation_used(&self, operation: &Identifier) -> (r: bool)
        ensures
            r == self@.used_operations.contains(*operation),
    {
        self.used_operations.contains(operation)
    }

    /// Marks an operation as used. An operation can be used once.
    pub(crate) fn consume_operation(&mut self, operation: &Identifier) -> (r: Result<
        (),
        DeCcpError,
    >)
        requires
            *operation != ZERO,
            !old(self)@.used_operations.contains(*operation),
        ensures
            r == Ok::<(), DeCcpError>(()),
            final(self)@ == old(self)@.with_operation(*operation),
    {
        if is_zero(operation) || !self.used_operations.insert(*operation) {
            return Err(DeCcpError::ReplayOrStaleOperation);
        }
        Ok(())
    }

    /// Whether a settlement-layer lock already backs something in the book.
    pub(crate) fn lock_in_use(&self, lock: &Identifier) -> (r: bool)
        ensures
            r == self@.lock_taken(*lock),
    {
        if same_id(lock, &self.ccp_capital_defmi_lock_id) {
            return true;
        }
        let ghost members = ascending(self@.participants.dom());
        let count: usize = self.participants.len();
        let mut i: usize = 0;
        while i < count
            invariant
                i <= count,
                count == members.len(),
                count == self@.participants.dom().len(),
                members == ascending(self@.participants.dom()),
                forall|j: int|
                    0 <= j < i ==> self@.participants[#[trigger] members[j]].default_fund_defmi_lock_id
                        != *lock,
            decreases count - i,
        {
            if same_id(&self.participants.value_at(i).default_fund_defmi_lock_id, lock) {
                return true;
            }
            i = i + 1;
        }
        proof {
            assert forall|p: Identifier| #[trigger] self@.participants.contains_key(p) implies
                self@.participants[p].default_fund_defmi_lock_id != *lock by {
                assert(members.to_set().contains(p));
                let j = choose|j: int| 0 <= j < members.len() && members[j] == p;
                assert(self@.participants[members[j]].default_fund_defmi_lock_id != *lock);
            }
        }
        let ghost lots = ascending(self@.collateral.dom());
        let total: usize = self.collateral.len();
        let mut k: usize = 0;
        while k < total
            invariant
                k <= total,
                total == lots.len(),
                total == self@.collateral.dom().len(),
                lots == ascending(self@.collateral.dom()),
                forall|j: int|
                    0 <= j < k ==> self@.collateral[#[trigger] lots[j]].defmi_lock_id != *lock,
            decreases total - k,
        {
            if same_id(&self.collateral.value_at(k).defmi_lock_id, lock) {
                return true;
            }
            k = k + 1;
        }
        proof {
            assert forall|l: Identifier| #[trigger] self@.collateral.contains_key(l) implies
                self@.collateral[l].defmi_lock_id != *lock by {
                assert(lots.to_set().contains(l));
                let j = choose|j: int| 0 <= j < lots.len() && lots[j] == l;
                assert(self@.collateral[lots[j]].defmi_lock_id != *lock);
            }
        }
        false
    }

    /// Whether a subject line already belongs to a member.
    pub(crate) fn subject_line_in_use(&self, line: &Digest32) -> (r: bool)
        ensures
            r == self@.subject_line_taken(*line),
    {
        let ghost members = ascending(self@.participants.dom());
        let count: usize = self.participants.len();
        let mut i: usize = 0;
        while i < count
            invariant
                i <= count,
                count == members.len(),
                count == self@.participants.dom().len(),
                members == ascending(self@.participants.dom()),
                forall|j: int|
                    0 <= j < i
                        ==> self@.participants[#[trigger] members[j]].eligibility.subject_line_id
                        != *line,
            decreases count - i,
        {
            if same_id(&self.participants.value_at(i).eligibility.subject_line_id, line) {
                return true;
            }
            i = i + 1;
        }
        proof {
            assert forall|p: Identifier| #[trigger] self@.participants.contains_key(p) implies
                self@.participants[p].eligibility.subject_line_id != *line by {
                assert(members.to_set().contains(p));
                let j = choose|j: int| 0 <= j < members.len() && members[j] == p;
                assert(self@.participants[members[j]].eligibility.subject_line_id != *line);
            }
        }
        false
    }

    /// Whether a settlement-layer hold already backs a guarantee hold.
    pub(crate) fn defmi_hold_in_use(&self, id: &Identifier) -> (r: bool)
        ensures
            r == self@.defmi_hold_taken(*id),
    {
        let ghost holds = ascending(self@.guarantee_holds.dom());
        let count: usize = self.guarantee_holds.len();
        let mut i: usize = 0;
        while i < count
            invariant
                i <= count,
                count == holds.len(),
                count == self@.guarantee_holds.dom().len(),
                holds == ascending(self@.guarantee_holds.dom()),
                forall|j: int|
                    0 <= j < i ==> self@.guarantee_holds[#[trigger] holds[j]].defmi_hold_id != *id,
            decreases count - i,
        {
            if same_id(&self.guarantee_holds.value_at(i).defmi_hold_id, id) {
                return true;
            }
            i = i + 1;
        }
        proof {
            assert forall|h: Identifier| #[trigger] self@.guarantee_holds.contains_key(h) implies
                self@.guarantee_holds[h].defmi_hold_id != *id by {
                assert(holds.to_set().contains(h));
                let j = choose|j: int| 0 <= j < holds.len() && holds[j] == h;
                assert(self@.guarantee_holds[holds[j]].defmi_hold_id != *id);
            }
        }
        let ghost hidden = ascending(self@.confidential_guarantee_holds.dom());
        let total: usize = self.confidential_guarantee_holds.len();
        let mut k: usize = 0;
        while k < total
            invariant
                k <= total,
                total == hidden.len(),
                total == self@.confidential_guarantee_holds.dom().len(),
                hidden == ascending(self@.confidential_guarantee_holds.dom()),
                forall|j: int|
                    0 <= j < k
                        ==> self@.confidential_guarantee_holds[#[trigger] hidden[j]].defmi_hold_id
                        != *id,
            decreases total - k,
        {
            if same_id(&self.confidential_guarantee_holds.value_at(k).defmi_hold_id, id) {
                return true;
            }
            k = k + 1;
        }
        proof {
            assert forall|h: Identifier|
                #[trigger] self@.confidential_guarantee_holds.contains_key(h) implies
                self@.confidential_guarantee_holds[h].defmi_hold_id != *id by {
                assert(hidden.to_set().contains(h));
                let j = choose|j: int| 0 <= j < hidden.len() && hidden[j] == h;
                assert(self@.confidential_guarantee_holds[hidden[j]].defmi_hold_id != *id);
            }
        }
        false
    }
}

impl BookState {
    /// Once the worth of some lots cannot be told, neither can that of more.
    proof fn lemma_worth_error_stays(
        self,
        keys: Seq<Identifier>,
        from: int,
        member: Identifier,
        now: u64,
    )
        requires
            0 <= from <= keys.len(),
            self.collateral_worth(keys.take(from), member, now) is Err,
        ensures
            self.collateral_worth(keys, member, now) == self.collateral_worth(
                keys.take(from),
                member,
                now,
            ),
        decreases keys.len(),
    {
        if from == keys.len() {
            assert(keys.take(from) =~= keys);
        } else {
            assert(keys.drop_last().take(from) =~= keys.take(from));
            self.lemma_worth_error_stays(keys.drop_last(), from, member, now);
        }
    }
}

} // verus!
