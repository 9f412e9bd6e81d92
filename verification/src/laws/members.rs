//! Laws of members: what opens a book, who is admitted, which collateral counts,
//! and what a margin update leaves behind.

use vstd::prelude::*;

use crate::authority::{AuthoritySet, QuorumApproval};
use crate::book::{BookState, ClearingBook};
use crate::error::DeCcpError;
use crate::ident::{ascending, has_zero, Identifier, ZERO};
use crate::laws::authority::{law_refusal_of_approval, sealed, sound_set};
use crate::members::{
    CcpCapitalization, CollateralLot, CollateralStatus, EligibilityAttestation, MarginAccount,
    MarginUpdate, ParticipantAdmission, ParticipantStatus, VerifiedAdmission,
};
use crate::ports::{DeFmiPort, EligibilityPort};

verus! {

/// Whether a member may act at a time: it is in the book, it is active, and its
/// eligibility has not run out.
pub open spec fn may_act(book: BookState, member: Identifier, now: u64) -> bool {
    &&& book.participants.contains_key(member)
    &&& book.participants[member].status == ParticipantStatus::Active
    &&& now <= book.participants[member].eligibility.valid_until
}

/// Whether a settlement-layer lock backs nothing in a book yet.
pub open spec fn lock_free(book: BookState, lock: Identifier) -> bool {
    &&& lock != book.ccp_capital_defmi_lock_id
    &&& forall|p: Identifier| #[trigger]
        book.participants.contains_key(p) ==> book.participants[p].default_fund_defmi_lock_id
            != lock
    &&& forall|l: Identifier| #[trigger]
        book.collateral.contains_key(l) ==> book.collateral[l].defmi_lock_id != lock
}

/// Whether capital opens a book: it is positive, it names a lock and a proof, and
/// it is good at the opening time.
pub open spec fn capital_usable(capital: CcpCapitalization, now: u64) -> bool {
    &&& capital.amount > 0
    &&& capital.defmi_lock_id != ZERO
    &&& capital.proof_digest != ZERO
    &&& capital.valid_until > 0
    &&& now <= capital.valid_until
}

/// A book opens exactly with a sound authority set and usable capital that the
/// settlement layer confirms; it holds nothing but that capital.
pub proof fn law_opening<P: DeFmiPort>(
    authorities: AuthoritySet,
    capital: CcpCapitalization,
    defmi: &P,
    now: u64,
    r: Result<ClearingBook, DeCcpError>,
)
    requires
        call_ensures(ClearingBook::new::<P>, (authorities, capital, defmi, now), r),
    ensures
        match r {
            Ok(book) => {
                &&& sound_set(authorities@)
                &&& capital_usable(capital, now)
                &&& exists|reply: Result<(), String>|
                    reply is Ok && #[trigger] call_ensures(
                        P::verify_ccp_capital,
                        (defmi, &capital, now),
                        reply,
                    )
                &&& book@.authorities == authorities@
                &&& book@.ccp_capital_remaining == capital.amount
                &&& book@.ccp_capital_defmi_lock_id == capital.defmi_lock_id
                &&& book@.ccp_capital_proof_digest == capital.proof_digest
                &&& book@.ccp_capital_valid_until == capital.valid_until
                &&& forall|id: Identifier|
                    {
                        &&& !#[trigger] book@.participants.contains_key(id)
                        &&& !book@.collateral.contains_key(id)
                        &&& !book@.margins.contains_key(id)
                        &&& !book@.cycles.contains_key(id)
                        &&& !book@.obligations.contains_key(id)
                        &&& !book@.guarantee_facilities.contains_key(id)
                        &&& !book@.guarantee_holds.contains_key(id)
                        &&& !book@.confidential_guarantee_facilities.contains_key(id)
                        &&& !book@.confidential_guarantee_holds.contains_key(id)
                        &&& !book@.defaults.contains_key(id)
                        &&& !book@.used_operations.contains(id)
                    }
            },
            Err(DeCcpError::InvalidAuthoritySet) => !sound_set(authorities@),
            Err(DeCcpError::InvalidCapital) => sound_set(authorities@) && !capital_usable(
                capital,
                now,
            ),
            Err(DeCcpError::DeFmiEvidenceRejected(message)) => {
                &&& sound_set(authorities@)
                &&& capital_usable(capital, now)
                &&& exists|reply: Result<(), String>|
                    reply == Err::<(), String>(message) && #[trigger] call_ensures(
                        P::verify_ccp_capital,
                        (defmi, &capital, now),
                        reply,
                    )
            },
            Err(_) => false,
        },
{
    lemma_sound(authorities);
}

proof fn lemma_sound(set: AuthoritySet)
    ensures
        set@.valid() <==> sound_set(set@),
{
    let empty = crate::authority::ApprovalView {
        version: crate::authority::Version::V1,
        suite: crate::authority::SuiteId::Ed25519MlDsa65,
        authority_epoch: 0,
        authority_digest: ZERO,
        statement_digest: ZERO,
        signatures: Seq::empty(),
    };
    law_refusal_of_approval(set@, ZERO, empty, None);
}

/// Whether an admission request is complete: every identifier and digest is set,
/// the contribution is positive, and the eligibility reaches to the admission.
pub open spec fn admission_complete(request: ParticipantAdmission) -> bool {
    &&& request.operation_id != ZERO
    &&& request.participant_id != ZERO
    &&& request.settlement_participant_id != ZERO
    &&& request.eligibility.provider_id != ZERO
    &&& request.eligibility.subject_line_id != ZERO
    &&& request.eligibility.policy_digest != ZERO
    &&& request.eligibility.evidence_digest != ZERO
    &&& request.default_fund_defmi_lock_id != ZERO
    &&& request.default_fund_proof_digest != ZERO
    &&& request.default_fund_contribution > 0
    &&& request.admitted_at > 0
    &&& request.admitted_at <= request.eligibility.valid_until
}

/// Whether a finding of the eligibility service is the attestation again.
pub open spec fn found_again(
    found: VerifiedAdmission,
    evidence: EligibilityAttestation,
) -> bool {
    &&& found.provider_id == evidence.provider_id
    &&& found.subject_line_id == evidence.subject_line_id
    &&& found.policy_digest == evidence.policy_digest
    &&& found.evidence_digest == evidence.evidence_digest
    &&& found.valid_until == evidence.valid_until
}

/// Whether a book has room for a new member: its operation, its identifier, its
/// lock, and its subject line are all unused.
pub open spec fn admission_open(book: BookState, request: ParticipantAdmission) -> bool {
    &&& !book.used_operations.contains(request.operation_id)
    &&& !book.participants.contains_key(request.participant_id)
    &&& lock_free(book, request.default_fund_defmi_lock_id)
    &&& forall|p: Identifier| #[trigger]
        book.participants.contains_key(p) ==> book.participants[p].eligibility.subject_line_id
            != request.eligibility.subject_line_id
}

pub proof fn lemma_admission_complete(request: ParticipantAdmission)
    ensures
        request.well_formed() <==> admission_complete(request),
{
    let ids = seq![
        request.operation_id,
        request.participant_id,
        request.settlement_participant_id,
        request.eligibility.provider_id,
        request.eligibility.subject_line_id,
        request.eligibility.policy_digest,
        request.eligibility.evidence_digest,
        request.default_fund_defmi_lock_id,
        request.default_fund_proof_digest,
    ];
    if !has_zero(ids) {
        assert(ids[0] != ZERO && ids[1] != ZERO && ids[2] != ZERO && ids[3] != ZERO && ids[4]
            != ZERO && ids[5] != ZERO && ids[6] != ZERO && ids[7] != ZERO && ids[8] != ZERO);
    }
}

/// A member is admitted only when it is complete, approved for this very moment,
/// new to the book, confirmed by both services, and found to be what it attests;
/// it starts active with its whole contribution and an empty margin account, and
/// nothing else in the book changes.
pub proof fn law_admission_effect<V: EligibilityPort, P: DeFmiPort>(
    book: &mut ClearingBook,
    request: ParticipantAdmission,
    verifier: &V,
    approval: &QuorumApproval,
    defmi: &P,
    now: u64,
    r: Result<(), DeCcpError>,
)
    requires
        call_ensures(
            ClearingBook::admit_participant::<V, P>,
            (book, request, verifier, approval, defmi, now),
            r,
        ),
    ensures
        r is Err ==> final(book)@ == old(book)@,
        r matches Err(DeCcpError::DeFmiEvidenceRejected(message)) ==> exists|
            reply: Result<(), String>,
        |
            reply == Err::<(), String>(message) && #[trigger] call_ensures(
                P::verify_default_fund,
                (defmi, &request, now),
                reply,
            ),
        r is Ok ==> {
            let before = old(book)@;
            let after = final(book)@;
            let member = after.participants[request.participant_id];
            let account = after.margins[request.participant_id];
            &&& admission_complete(request)
            &&& sealed(before.authorities, request.statement(), approval@, Some(now))
            &&& request.admitted_at == now
            &&& admission_open(before, request)
            &&& exists|found: Result<VerifiedAdmission, String>|
                found is Ok && found_again(found->Ok_0, request.eligibility)
                    && #[trigger] call_ensures(
                    V::verify,
                    (verifier, &request.eligibility, now),
                    found,
                )
            &&& exists|reply: Result<(), String>|
                reply is Ok && #[trigger] call_ensures(
                    P::verify_default_fund,
                    (defmi, &request, now),
                    reply,
                )
            &&& after == (BookState {
                participants: before.participants.insert(request.participant_id, member),
                margins: before.margins.insert(request.participant_id, account),
                used_operations: before.used_operations.insert(request.operation_id),
                ..before
            })
            &&& member.participant_id == request.participant_id
            &&& member.settlement_participant_id == request.settlement_participant_id
            &&& member.eligibility == request.eligibility
            &&& member.default_fund_remaining == request.default_fund_contribution
            &&& member.default_fund_defmi_lock_id == request.default_fund_defmi_lock_id
            &&& member.default_fund_proof_digest == request.default_fund_proof_digest
            &&& member.status == ParticipantStatus::Active
            &&& member.admitted_at == now
            &&& account.initial_margin == 0
            &&& account.variation_margin == 0
            &&& account.encumbered_collateral == 0
            &&& account.sequence == 0
        },
{
    lemma_admission_complete(request);
    law_refusal_of_approval(old(book)@.authorities, request.statement(), approval@, Some(now));
}

/// An admission that is complete, approved, timely, and new to the book is
/// carried out whenever both services confirm it, and what stands in the way of
/// any other is what its refusal names.
pub proof fn law_admission_is_owed<V: EligibilityPort, P: DeFmiPort>(
    book: &mut ClearingBook,
    request: ParticipantAdmission,
    verifier: &V,
    approval: &QuorumApproval,
    defmi: &P,
    now: u64,
    r: Result<(), DeCcpError>,
)
    requires
        call_ensures(
            ClearingBook::admit_participant::<V, P>,
            (book, request, verifier, approval, defmi, now),
            r,
        ),
    ensures
        ({
            &&& admission_complete(request)
            &&& sealed(old(book)@.authorities, request.statement(), approval@, Some(now))
            &&& request.admitted_at == now
            &&& admission_open(old(book)@, request)
            &&& forall|found: Result<VerifiedAdmission, String>| #[trigger]
                call_ensures(V::verify, (verifier, &request.eligibility, now), found) ==> found is Ok
                    && found_again(found->Ok_0, request.eligibility)
            &&& forall|reply: Result<(), String>| #[trigger]
                call_ensures(P::verify_default_fund, (defmi, &request, now), reply) ==> reply is Ok
        }) ==> r is Ok,
        r matches Err(DeCcpError::EligibilityRejected(message)) ==> {
            ||| exists|found: Result<VerifiedAdmission, String>|
                found == Err::<VerifiedAdmission, String>(message) && #[trigger] call_ensures(
                    V::verify,
                    (verifier, &request.eligibility, now),
                    found,
                )
            ||| message@ == "verified eligibility does not match or is already admitted"@
                && exists|found: Result<VerifiedAdmission, String>|
                found is Ok && (!found_again(found->Ok_0, request.eligibility) || !admission_open(
                    old(book)@,
                    request,
                )) && #[trigger] call_ensures(
                    V::verify,
                    (verifier, &request.eligibility, now),
                    found,
                )
        },
        r matches Err(DeCcpError::InvalidParticipant) ==> !admission_complete(request),
        r matches Err(DeCcpError::InsufficientQuorum) ==> !sealed(
            old(book)@.authorities,
            request.statement(),
            approval@,
            Some(now),
        ),
        r matches Err(DeCcpError::InvalidQuorumApproval) ==> !sealed(
            old(book)@.authorities,
            request.statement(),
            approval@,
            Some(now),
        ),
        r matches Err(DeCcpError::InvalidAuthoritySet) ==> !sound_set(old(book)@.authorities),
        r matches Err(DeCcpError::ReplayOrStaleOperation) ==> request.admitted_at != now || old(
            book,
        )@.used_operations.contains(request.operation_id),
        r matches Err(DeCcpError::DuplicateDeFmiReference) ==> !lock_free(
            old(book)@,
            request.default_fund_defmi_lock_id,
        ),
        r matches Err(DeCcpError::DuplicateParticipant) ==> old(book)@.participants.contains_key(
            request.participant_id,
        ),
        r matches Err(error) ==> error is InvalidParticipant || error is InsufficientQuorum
            || error is InvalidQuorumApproval || error is InvalidAuthoritySet
            || error is ReplayOrStaleOperation || error is DuplicateDeFmiReference
            || error is DuplicateParticipant || error is EligibilityRejected
            || error is DeFmiEvidenceRejected,
{
    lemma_admission_complete(request);
    law_refusal_of_approval(old(book)@.authorities, request.statement(), approval@, Some(now));
}

/// Whether a lot can be valued: its haircut leaves something, and the product of
/// what it leaves with the market value fits.
pub open spec fn valuable(lot: CollateralLot) -> bool {
    &&& lot.haircut_basis_points < 10_000
    &&& lot.market_value * (10_000 - lot.haircut_basis_points) <= u128::MAX
}

/// The eligible value of a lot is the largest whole amount that is not more than
/// the market value less the haircut, which is given in ten-thousandths.
pub proof fn law_haircut(lot: CollateralLot, r: Result<u128, DeCcpError>)
    requires
        call_ensures(CollateralLot::eligible_value, (&lot,), r),
    ensures
        r is Ok <==> valuable(lot),
        r matches Ok(value) ==> {
            let kept = lot.market_value * (10_000 - lot.haircut_basis_points);
            value * 10_000 <= kept && kept < (value + 1) * 10_000
        },
        lot.haircut_basis_points == 0 && r is Ok ==> r->Ok_0 == lot.market_value,
        r matches Ok(value) ==> value <= lot.market_value,
        lot.haircut_basis_points >= 10_000 <==> r == Err::<u128, DeCcpError>(
            DeCcpError::InvalidCollateral,
        ),
        r matches Err(error) ==> error == DeCcpError::InvalidCollateral || error
            == DeCcpError::ArithmeticOverflow,
{
    if r is Ok {
        let m = lot.market_value as int;
        let k = 10_000 - lot.haircut_basis_points;
        assert(m * k <= m * 10_000) by (nonlinear_arith)
            requires
                k <= 10_000,
                m >= 0,
        ;
    }
}

/// Whether a lot can be posted, apart from its value: every identifier and digest
/// is set, it has a market value and an expiry, and it is available.
pub open spec fn lot_complete(lot: CollateralLot) -> bool {
    &&& lot.operation_id != ZERO
    &&& lot.lot_id != ZERO
    &&& lot.owner_id != ZERO
    &&& lot.asset_id != ZERO
    &&& lot.defmi_lock_id != ZERO
    &&& lot.valuation_policy_digest != ZERO
    &&& lot.valuation_proof_digest != ZERO
    &&& lot.market_value > 0
    &&& lot.valid_until > 0
    &&& lot.status == CollateralStatus::Available
}

pub proof fn lemma_lot_complete(lot: CollateralLot)
    ensures
        lot.posting_error() is None <==> lot_complete(lot) && valuable(lot),
        lot.posting_error() == Some(DeCcpError::InvalidCollateral) <==> !lot_complete(lot)
            || lot.haircut_basis_points >= 10_000,
{
    let ids = seq![
        lot.operation_id,
        lot.lot_id,
        lot.owner_id,
        lot.asset_id,
        lot.defmi_lock_id,
        lot.valuation_policy_digest,
        lot.valuation_proof_digest,
    ];
    if !has_zero(ids) {
        assert(ids[0] != ZERO && ids[1] != ZERO && ids[2] != ZERO && ids[3] != ZERO && ids[4]
            != ZERO && ids[5] != ZERO && ids[6] != ZERO);
    }
}

/// A lot passes exactly if it is complete and can be valued.
pub proof fn law_lot_validation(lot: CollateralLot, r: Result<(), DeCcpError>)
    requires
        call_ensures(CollateralLot::validate, (&lot,), r),
    ensures
        r is Ok <==> lot_complete(lot) && valuable(lot),
        r == Err::<(), DeCcpError>(DeCcpError::InvalidCollateral) <==> !lot_complete(lot)
            || lot.haircut_basis_points >= 10_000,
        r matches Err(error) ==> error == DeCcpError::InvalidCollateral || error
            == DeCcpError::ArithmeticOverflow,
{
    lemma_lot_complete(lot);
}

/// Whether a lot could be posted to a book at a time, were its lock confirmed.
pub open spec fn postable(book: BookState, lot: CollateralLot, now: u64) -> bool {
    &&& lot_complete(lot)
    &&& valuable(lot)
    &&& may_act(book, lot.owner_id, now)
    &&& !book.used_operations.contains(lot.operation_id)
    &&& now <= lot.valid_until
    &&& lock_free(book, lot.defmi_lock_id)
    &&& !book.collateral.contains_key(lot.lot_id)
}

/// A lot is posted exactly when it could be and the settlement layer confirms its
/// lock; it is then in the book as it was given, and nothing else changes.
pub proof fn law_posting_effect<P: DeFmiPort>(
    book: &mut ClearingBook,
    lot: CollateralLot,
    defmi: &P,
    now: u64,
    r: Result<(), DeCcpError>,
)
    requires
        call_ensures(ClearingBook::post_collateral::<P>, (book, lot, defmi, now), r),
    ensures
        r is Err ==> final(book)@ == old(book)@,
        r matches Err(DeCcpError::DeFmiEvidenceRejected(message)) ==> exists|
            reply: Result<(), String>,
        |
            reply == Err::<(), String>(message) && #[trigger] call_ensures(
                P::verify_collateral_lock,
                (defmi, &lot, now),
                reply,
            ),
        r is Ok ==> {
            &&& postable(old(book)@, lot, now)
            &&& exists|reply: Result<(), String>|
                reply is Ok && #[trigger] call_ensures(
                    P::verify_collateral_lock,
                    (defmi, &lot, now),
                    reply,
                )
            &&& final(book)@ == (BookState {
                collateral: old(book)@.collateral.insert(lot.lot_id, lot),
                used_operations: old(book)@.used_operations.insert(lot.operation_id),
                ..old(book)@
            })
        },
        postable(old(book)@, lot, now) && (forall|reply: Result<(), String>| #[trigger]
            call_ensures(P::verify_collateral_lock, (defmi, &lot, now), reply) ==> reply is Ok)
            ==> r is Ok,
        r matches Err(DeCcpError::InvalidCollateral) ==> !lot_complete(lot)
            || lot.haircut_basis_points >= 10_000 || lot.valid_until < now,
        r matches Err(DeCcpError::ArithmeticOverflow) ==> !valuable(lot),
        r matches Err(DeCcpError::UnknownParticipant) ==> !old(book)@.participants.contains_key(
            lot.owner_id,
        ),
        r matches Err(DeCcpError::ParticipantNotActive) ==> old(book)@.participants.contains_key(
            lot.owner_id,
        ) && !may_act(old(book)@, lot.owner_id, now),
        r matches Err(DeCcpError::ReplayOrStaleOperation) ==> old(
            book,
        )@.used_operations.contains(lot.operation_id),
        r matches Err(DeCcpError::DuplicateDeFmiReference) ==> !lock_free(
            old(book)@,
            lot.defmi_lock_id,
        ) || old(book)@.collateral.contains_key(lot.lot_id),
        r matches Err(error) ==> error is InvalidCollateral || error is ArithmeticOverflow
            || error is UnknownParticipant || error is ParticipantNotActive
            || error is ReplayOrStaleOperation || error is DuplicateDeFmiReference
            || error is DeFmiEvidenceRejected,
{
    lemma_lot_complete(lot);
}

/// Whether a lot counts towards the margin of a member.
pub open spec fn backs(lot: CollateralLot, member: Identifier, now: u64) -> bool {
    lot.owner_id == member && lot.status == CollateralStatus::Available && now <= lot.valid_until
}

/// What the lots under `keys` that back a member add up to after their haircuts.
pub open spec fn backing(
    lots: Map<Identifier, CollateralLot>,
    keys: Seq<Identifier>,
    member: Identifier,
    now: u64,
) -> int
    decreases keys.len(),
{
    if keys.len() == 0 {
        0
    } else {
        let lot = lots[keys.last()];
        backing(lots, keys.drop_last(), member, now) + if backs(lot, member, now) {
            (lot.market_value * (10_000 - lot.haircut_basis_points)) / 10_000
        } else {
            0
        }
    }
}

/// Whether the collateral that backs a member is worth at least an amount: each
/// such lot can be valued, and together they reach it without leaving the range.
pub open spec fn backed(book: BookState, member: Identifier, now: u64, amount: int) -> bool {
    let keys = ascending(book.collateral.dom());
    &&& forall|i: int|
        0 <= i < keys.len() && backs(book.collateral[#[trigger] keys[i]], member, now) ==> valuable(
            book.collateral[keys[i]],
        )
    &&& amount <= backing(book.collateral, keys, member, now) <= u128::MAX
}

pub proof fn lemma_backing(book: BookState, keys: Seq<Identifier>, member: Identifier, now: u64)
    ensures
        match book.collateral_worth(keys, member, now) {
            Ok(worth) => {
                &&& worth == backing(book.collateral, keys, member, now)
                &&& worth <= u128::MAX
                &&& forall|i: int|
                    0 <= i < keys.len() && backs(book.collateral[#[trigger] keys[i]], member, now)
                        ==> valuable(book.collateral[keys[i]])
            },
            Err(error) => {
                &&& error is InvalidCollateral || error is ArithmeticOverflow
                &&& backing(book.collateral, keys, member, now) > u128::MAX || exists|i: int|
                    0 <= i < keys.len() && backs(book.collateral[#[trigger] keys[i]], member, now)
                        && !valuable(book.collateral[keys[i]])
            },
        },
    decreases keys.len(),
{
    if keys.len() > 0 {
        let front = keys.drop_last();
        let lot = book.collateral[keys.last()];
        lemma_backing(book, front, member, now);
        assert(keys[keys.len() - 1] == keys.last());
        assert forall|i: int| 0 <= i < front.len() implies #[trigger] keys[i] == front[i] by {}
        match book.collateral_worth(front, member, now) {
            Ok(_) => {
                assert forall|i: int|
                    0 <= i < keys.len() && backs(book.collateral[#[trigger] keys[i]], member, now)
                        && i < keys.len() - 1 implies valuable(book.collateral[keys[i]]) by {
                    assert(front[i] == keys[i]);
                }
            },
            Err(_) => {
                if backing(book.collateral, front, member, now) > u128::MAX {
                    if backs(lot, member, now) && valuable(lot) {
                        let m = lot.market_value as int;
                        let k = 10_000 - lot.haircut_basis_points;
                        assert(m * k >= 0) by (nonlinear_arith)
                            requires
                                m >= 0,
                                k >= 0,
                        ;
                    }
                } else {
                    let i = choose|i: int|
                        0 <= i < front.len() && backs(
                            book.collateral[#[trigger] front[i]],
                            member,
                            now,
                        ) && !valuable(book.collateral[front[i]]);
                    assert(keys[i] == front[i]);
                }
            },
        }
    }
}

/// Whether a margin update can be carried out, apart from its approval: the
/// member may act, the operation is set and unused, there is some initial margin,
/// the member's collateral covers both margins together, and the update names the
/// account's sequence, which can still advance.
pub open spec fn margin_settable(book: BookState, request: MarginUpdate, now: u64) -> bool {
    &&& may_act(book, request.participant_id, now)
    &&& request.operation_id != ZERO
    &&& !book.used_operations.contains(request.operation_id)
    &&& request.initial_margin > 0
    &&& request.initial_margin + request.variation_margin <= u128::MAX
    &&& backed(
        book,
        request.participant_id,
        now,
        request.initial_margin + request.variation_margin,
    )
    &&& book.margins.contains_key(request.participant_id)
    &&& book.margins[request.participant_id].sequence == request.expected_sequence
    &&& request.expected_sequence < u64::MAX
}

/// A margin update is carried out exactly when it can be and a quorum approved
/// it. The account then holds the requested initial and variation margin, sets
/// aside exactly their sum, and moves on by one; nothing else changes.
pub proof fn law_margin_update_effect(
    book: &mut ClearingBook,
    request: MarginUpdate,
    approval: &QuorumApproval,
    now: u64,
    r: Result<(), DeCcpError>,
)
    requires
        call_ensures(ClearingBook::set_margin, (book, request, approval, now), r),
    ensures
        r is Err ==> final(book)@ == old(book)@,
        r is Ok <==> margin_settable(old(book)@, request, now) && sealed(
            old(book)@.authorities,
            request.statement(),
            approval@,
            Some(now),
        ),
        r is Ok ==> {
            let before = old(book)@;
            let after = final(book)@;
            let account = after.margins[request.participant_id];
            &&& account.initial_margin == request.initial_margin
            &&& account.variation_margin == request.variation_margin
            &&& account.encumbered_collateral == account.initial_margin + account.variation_margin
            &&& account.sequence == before.margins[request.participant_id].sequence + 1
            &&& backed(before, request.participant_id, now, account.encumbered_collateral as int)
            &&& after == (BookState {
                margins: before.margins.insert(request.participant_id, account),
                used_operations: before.used_operations.insert(request.operation_id),
                ..before
            })
        },
        r matches Err(DeCcpError::UnknownParticipant) ==> !old(book)@.participants.contains_key(
            request.participant_id,
        ) || !old(book)@.margins.contains_key(request.participant_id),
        r matches Err(DeCcpError::ParticipantNotActive) ==> old(book)@.participants.contains_key(
            request.participant_id,
        ) && !may_act(old(book)@, request.participant_id, now),
        r matches Err(DeCcpError::InvalidMargin) ==> request.operation_id == ZERO
            || request.initial_margin == 0 || old(book)@.used_operations.contains(
            request.operation_id,
        ),
        r matches Err(DeCcpError::StaleSequence) ==> old(
            book,
        )@.margins[request.participant_id].sequence != request.expected_sequence,
        r matches Err(DeCcpError::InsufficientCollateral) ==> !backed(
            old(book)@,
            request.participant_id,
            now,
            request.initial_margin + request.variation_margin,
        ) && backed(old(book)@, request.participant_id, now, 0),
        r matches Err(DeCcpError::InvalidCollateral) ==> !backed(
            old(book)@,
            request.participant_id,
            now,
            0,
        ),
        r matches Err(DeCcpError::ArithmeticOverflow) ==> request.initial_margin
            + request.variation_margin > u128::MAX || !backed(
            old(book)@,
            request.participant_id,
            now,
            0,
        ) || request.expected_sequence == u64::MAX,
        r matches Err(error) ==> error is UnknownParticipant || error is ParticipantNotActive
            || error is InvalidMargin || error is StaleSequence || error is InsufficientCollateral
            || error is InvalidCollateral || error is ArithmeticOverflow
            || error is InsufficientQuorum || error is InvalidQuorumApproval
            || error is InvalidAuthoritySet,
{
    let before = old(book)@;
    let keys = ascending(before.collateral.dom());
    lemma_backing(before, keys, request.participant_id, now);
    if before.collateral_worth(keys, request.participant_id, now) is Ok {
        lemma_backing_positive(before, keys, request.participant_id, now);
    }
    law_refusal_of_approval(before.authorities, request.statement(), approval@, Some(now));
}

pub proof fn lemma_backing_positive(
    book: BookState,
    keys: Seq<Identifier>,
    member: Identifier,
    now: u64,
)
    requires
        forall|i: int|
            0 <= i < keys.len() && backs(book.collateral[#[trigger] keys[i]], member, now)
                ==> valuable(book.collateral[keys[i]]),
    ensures
        backing(book.collateral, keys, member, now) >= 0,
    decreases keys.len(),
{
    if keys.len() > 0 {
        let front = keys.drop_last();
        let lot = book.collateral[keys.last()];
        assert(keys[keys.len() - 1] == keys.last());
        assert forall|i: int|
            0 <= i < front.len() && backs(book.collateral[#[trigger] front[i]], member, now) implies valuable(
            book.collateral[front[i]],
        ) by {
            assert(keys[i] == front[i]);
        }
        lemma_backing_positive(book, front, member, now);
        if backs(lot, member, now) {
            let m = lot.market_value as int;
            let k = 10_000 - lot.haircut_basis_points;
            assert(m * k >= 0) by (nonlinear_arith)
                requires
                    m >= 0,
                    k >= 0,
            ;
        }
    }
}

/// Required margin is initial plus variation margin, where that fits.
pub proof fn law_required_margin(account: MarginAccount, r: Result<u128, DeCcpError>)
    requires
        call_ensures(MarginAccount::required, (&account,), r),
    ensures
        r is Ok <==> account.initial_margin + account.variation_margin <= u128::MAX,
        r matches Ok(total) ==> total - account.variation_margin == account.initial_margin,
        r matches Err(error) ==> error == DeCcpError::ArithmeticOverflow,
{
}

} // verus!
