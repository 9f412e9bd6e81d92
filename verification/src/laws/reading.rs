//! Laws of reading: what is read of a book, what a snapshot gives back, and how
//! identifiers compare and are written.

use vstd::prelude::*;

use crate::authority::{AuthoritySet, KeyPurpose, KeyRecord, QuorumApproval, SuiteId};
use crate::book::{ClearingBook, ClearingSnapshot};
use crate::cycles::NettingCycle;
use crate::defaults::DefaultCase;
use crate::error::DeCcpError;
use crate::guarantees::{
    ConfidentialGuaranteeFacility, ConfidentialGuaranteeHold, GuaranteeFacility, GuaranteeHold,
};
use crate::ident::{
    any_zero, ascending, holds_id, is_zero, lemma_ascending_exists,
    lemma_magnitude_first_difference, precedes, rank, same_id, Digest32, Identifier, ZERO,
};
use crate::json::{id_key, lemma_hex_injective, parse_id_key, valid_hex_id};
use crate::laws::authority::{law_refusal_of_approval, sealed, sound_set};
use crate::laws::proposals::{digits, law_hexadecimal};
use crate::laws::soundness::{all_kept, law_valid_books};
use crate::members::{MarginAccount, Participant};

verus! {

/// Whether all bytes of an identifier are zero.
pub open spec fn blank(id: Identifier) -> bool {
    forall|i: int| 0 <= i < 32 ==> id[i] == 0
}

proof fn lemma_blank(id: Identifier)
    ensures
        id == ZERO <==> blank(id),
{
    if blank(id) {
        assert(id =~= ZERO);
    }
}

/// An identifier is unset exactly if all of its bytes are zero.
pub proof fn law_unset(id: Identifier, r: bool)
    requires
        call_ensures(is_zero, (&id,), r),
    ensures
        r <==> blank(id),
{
    lemma_blank(id);
}

/// A list has an unset identifier exactly if one of its identifiers has only zero
/// bytes.
pub proof fn law_any_unset(ids: &[Identifier], r: bool)
    requires
        call_ensures(any_zero, (ids,), r),
    ensures
        r <==> exists|k: int| 0 <= k < ids@.len() && blank(#[trigger] ids@[k]),
{
    assert forall|k: int| 0 <= k < ids@.len() implies (#[trigger] ids@[k] == ZERO <==> blank(
        ids@[k],
    )) by {
        lemma_blank(ids@[k]);
    }
}

/// Identifiers are the same exactly if all of their bytes are.
pub proof fn law_sameness(a: Identifier, b: Identifier, r: bool)
    requires
        call_ensures(same_id, (&a, &b), r),
    ensures
        r <==> forall|i: int| 0 <= i < 32 ==> a[i] == b[i],
{
    if forall|i: int| 0 <= i < 32 ==> a[i] == b[i] {
        assert(a =~= b);
    }
}

/// A slot holds an identifier exactly if it is filled with it.
pub proof fn law_held(slot: Option<Identifier>, id: Identifier, r: bool)
    requires
        call_ensures(holds_id, (&slot, &id), r),
    ensures
        slot is None ==> !r,
        slot is Some ==> (r <==> slot->0 == id),
{
}

/// Identifiers are ordered byte by byte: one comes before another exactly if it is
/// smaller in the first byte in which they differ.
pub proof fn law_byte_order(a: Identifier, b: Identifier, r: bool)
    requires
        call_ensures(precedes, (&a, &b), r),
    ensures
        r <==> rank(a) < rank(b),
        r <==> exists|i: int|
            0 <= i < 32 && #[trigger] a[i] < b[i] && forall|j: int| 0 <= j < i ==> a[j] == b[j],
{
    if exists|i: int|
        0 <= i < 32 && #[trigger] a[i] < b[i] && forall|j: int| 0 <= j < i ==> a[j] == b[j] {
        let i = choose|i: int|
            0 <= i < 32 && #[trigger] a[i] < b[i] && forall|j: int| 0 <= j < i ==> a[j] == b[j];
        lemma_magnitude_first_difference(a@, b@, i);
    }
    if r {
        let i = lemma_first_difference(a, b, 0);
        if b[i] < a[i] {
            lemma_magnitude_first_difference(b@, a@, i);
        }
        assert(a[i] < b[i]);
    }
}

proof fn lemma_first_difference(a: Identifier, b: Identifier, from: int) -> (i: int)
    requires
        a != b,
        0 <= from <= 32,
        forall|j: int| 0 <= j < from ==> a[j] == b[j],
    ensures
        0 <= i < 32,
        a[i] != b[i],
        forall|j: int| 0 <= j < i ==> a[j] == b[j],
    decreases 32 - from,
{
    if from == 32 {
        assert(a =~= b);
        from
    } else if a[from] != b[from] {
        from
    } else {
        lemma_first_difference(a, b, from + 1)
    }
}

/// A finite set of identifiers has one ascending order, in which each stands once.
pub proof fn law_ascending_order(ids: Set<Identifier>, i: int, j: int)
    requires
        ids.finite(),
    ensures
        ascending(ids).len() == ids.len(),
        ascending(ids).to_set() == ids,
        0 <= i < j < ascending(ids).len() ==> rank(ascending(ids)[i]) < rank(ascending(ids)[j]),
{
    lemma_ascending_exists(ids);
}

/// The key of an identifier is its bytes in hexadecimal digits.
pub proof fn law_key_of(id: Identifier, r: Vec<u8>)
    requires
        call_ensures(id_key, (&id,), r),
    ensures
        r@ == digits(id@),
        r@.len() == 64,
{
    law_hexadecimal(id@);
}

/// A key is valid exactly if it has 64 digits, each in lower-case hexadecimal.
pub proof fn law_valid_keys(value: &[u8], r: bool)
    requires
        call_ensures(valid_hex_id, (value,), r),
    ensures
        r <==> value@.len() == 64 && forall|i: int|
            0 <= i < 64 ==> (48 <= #[trigger] value@[i] <= 57 || 97 <= value@[i] <= 102),
{
}

/// A key is read exactly if it is valid, and gives the identifier that has it.
pub proof fn law_keys_are_read(value: &[u8], r: Option<Identifier>, id: Identifier)
    requires
        call_ensures(parse_id_key, (value,), r),
    ensures
        r is Some <==> value@.len() == 64 && forall|i: int|
            0 <= i < 64 ==> (48 <= #[trigger] value@[i] <= 57 || 97 <= value@[i] <= 102),
        r is Some ==> digits(r->0@) == value@,
        value@ == digits(id@) ==> r == Some(id),
{
    law_hexadecimal(id@);
    if r is Some {
        law_hexadecimal(r->0@);
    }
    if value@ == digits(id@) {
        crate::json::lemma_hex_shape(id@);
        assert(crate::json::is_hex_key(value@));
        lemma_hex_injective(r->0@, id@);
        assert forall|i: int| 0 <= i < 32 implies r->0[i] == id[i] by {
            assert(r->0@[i] == id@[i]);
        }
        assert(r->0 =~= id);
    }
}

/// A key serves an authority exactly if its record passed, it is a governance key
/// of the hybrid suite, and both of its halves are present and usable.
pub proof fn law_usable_keys(key: KeyRecord, r: bool)
    requires
        call_ensures(KeyRecord::is_usable, (&key,), r),
    ensures
        r ==> key@.passed_record_check && key@.suite == SuiteId::Ed25519MlDsa65 && key@.purpose
            == KeyPurpose::Governance && key@.public_key.len() > 32,
        r <==> {
            &&& key@.passed_record_check
            &&& key@.suite == SuiteId::Ed25519MlDsa65
            &&& key@.purpose == KeyPurpose::Governance
            &&& key@.public_key.len() >= 32
            &&& key@.public_key.take(32) != ZERO@
            &&& crate::authority::ed25519_key_decodes(key@.public_key.take(32))
            &&& exists|i: int| 32 <= i < key@.public_key.len() && key@.public_key[i] != 0
        },
{
    let half = key@.post_quantum();
    if key@.public_key.len() >= 32 {
        if exists|i: int| 0 <= i < half.len() && half[i] != 0 {
            let i = choose|i: int| 0 <= i < half.len() && half[i] != 0;
            assert(key@.public_key[i + 32] == half[i]);
        }
        if exists|i: int| 32 <= i < key@.public_key.len() && key@.public_key[i] != 0 {
            let i = choose|i: int| 32 <= i < key@.public_key.len() && key@.public_key[i] != 0;
            assert(half[i - 32] == key@.public_key[i]);
            assert(half[i - 32] != 0);
        }
    }
    assert(key@.classical() == key@.public_key.take(32));
}

/// Two authority sets are the same exactly if their epochs, their thresholds, and
/// their members one by one are.
pub proof fn law_same_authorities(a: AuthoritySet, b: AuthoritySet, r: bool)
    requires
        call_ensures(AuthoritySet::matches, (&a, &b), r),
    ensures
        r <==> {
            &&& a@.epoch == b@.epoch
            &&& a@.threshold == b@.threshold
            &&& a@.members.len() == b@.members.len()
            &&& forall|i: int|
                0 <= i < a@.members.len() ==> #[trigger] a@.members[i] == b@.members[i]
        },
{
    if a@.members.len() == b@.members.len() && forall|i: int|
        0 <= i < a@.members.len() ==> #[trigger] a@.members[i] == b@.members[i] {
        assert(a@.members =~= b@.members);
    }
}

/// A snapshot holds the state of the book.
pub proof fn law_snapshot(book: ClearingBook, r: ClearingSnapshot)
    requires
        call_ensures(ClearingBook::snapshot, (&book,), r),
    ensures
        r@ == book@,
{
}

/// A snapshot is restored exactly if the trusted set is sound, the snapshot names
/// it, a quorum of it approved the snapshot's digest whenever that was, and the
/// snapshot keeps all of its tables; the book then has exactly its state.
pub proof fn law_restoring(
    trusted: AuthoritySet,
    snapshot: ClearingSnapshot,
    approval: QuorumApproval,
    r: Result<ClearingBook, DeCcpError>,
    digest: Result<Digest32, DeCcpError>,
)
    requires
        call_ensures(ClearingBook::restore, (&trusted, snapshot, &approval), r),
        call_ensures(ClearingSnapshot::digest, (&snapshot,), digest),
    ensures
        digest is Ok,
        r is Ok <==> {
            &&& sound_set(trusted@)
            &&& snapshot@.authorities == trusted@
            &&& sealed(trusted@, digest->Ok_0, approval@, None)
            &&& all_kept(snapshot@)
        },
        r matches Ok(book) ==> book@ == snapshot@,
        !sound_set(trusted@) || snapshot@.authorities != trusted@ ==> r == Err::<
            ClearingBook,
            DeCcpError,
        >(DeCcpError::InvalidAuthoritySet),
{
    law_refusal_of_approval(trusted@, snapshot@.digest(), approval@, None);
    law_valid_books(snapshot@);
    snapshot@.lemma_valid_without_defect();
}

/// A snapshot that is authenticated elsewhere is restored exactly if it keeps all
/// of its tables; the book then has exactly its state.
pub proof fn law_restoring_authenticated(
    snapshot: ClearingSnapshot,
    r: Result<ClearingBook, DeCcpError>,
)
    requires
        call_ensures(ClearingBook::restore_authenticated, (snapshot,), r),
    ensures
        r is Ok <==> all_kept(snapshot@),
        r matches Ok(book) ==> book@ == snapshot@,
{
    law_valid_books(snapshot@);
}

/// A book that keeps all of its tables comes back from its own snapshot.
pub proof fn law_snapshots_come_back(
    book: ClearingBook,
    snapshot: ClearingSnapshot,
    r: Result<ClearingBook, DeCcpError>,
)
    requires
        all_kept(book@),
        call_ensures(ClearingBook::snapshot, (&book,), snapshot),
        call_ensures(ClearingBook::restore_authenticated, (snapshot,), r),
    ensures
        r is Ok,
        r->Ok_0@ == book@,
{
    law_snapshot(book, snapshot);
    law_restoring_authenticated(snapshot, r);
}

/// Whether what was read of a table is its entry.
pub open spec fn read_of<T: View>(
    table: Map<Identifier, T::V>,
    id: Identifier,
    r: Option<&T>,
) -> bool {
    &&& r is Some <==> table.contains_key(id)
    &&& r is Some ==> r->0@ == table[id]
}

/// Members and their margin are read as they are on file.
pub proof fn law_members_are_read(
    book: ClearingBook,
    id: Identifier,
    member: Option<&Participant>,
    account: Option<&MarginAccount>,
    set: &AuthoritySet,
)
    requires
        call_ensures(ClearingBook::participant, (&book, &id), member),
        call_ensures(ClearingBook::margin, (&book, &id), account),
        call_ensures(ClearingBook::authority_set, (&book,), set),
    ensures
        read_of::<Participant>(book@.participants, id, member),
        read_of::<MarginAccount>(book@.margins, id, account),
        set@ == book@.authorities,
{
}

/// Cycles and default cases are read as they are on file.
pub proof fn law_cycles_are_read(
    book: ClearingBook,
    id: Identifier,
    cycle: Option<&NettingCycle>,
    case: Option<&DefaultCase>,
)
    requires
        call_ensures(ClearingBook::cycle, (&book, &id), cycle),
        call_ensures(ClearingBook::default_case, (&book, &id), case),
    ensures
        read_of::<NettingCycle>(book@.cycles, id, cycle),
        read_of::<DefaultCase>(book@.defaults, id, case),
{
}

/// Facilities and holds of both kinds are read as they are on file.
pub proof fn law_guarantees_are_read(
    book: ClearingBook,
    id: Identifier,
    facility: Option<&GuaranteeFacility>,
    hold: Option<&GuaranteeHold>,
    hidden: Option<&ConfidentialGuaranteeFacility>,
    hidden_hold: Option<&ConfidentialGuaranteeHold>,
)
    requires
        call_ensures(ClearingBook::guarantee_facility, (&book, &id), facility),
        call_ensures(ClearingBook::guarantee_hold, (&book, &id), hold),
        call_ensures(ClearingBook::confidential_guarantee_facility, (&book, &id), hidden),
        call_ensures(ClearingBook::confidential_guarantee_hold, (&book, &id), hidden_hold),
    ensures
        read_of::<GuaranteeFacility>(book@.guarantee_facilities, id, facility),
        read_of::<GuaranteeHold>(book@.guarantee_holds, id, hold),
        read_of::<ConfidentialGuaranteeFacility>(
            book@.confidential_guarantee_facilities,
            id,
            hidden,
        ),
        read_of::<ConfidentialGuaranteeHold>(
            book@.confidential_guarantee_holds,
            id,
            hidden_hold,
        ),
{
}

/// The counterparty's own capital is read as it is on file.
pub proof fn law_capital_is_read(
    book: ClearingBook,
    amount: u128,
    lock: (Identifier, Digest32, u64),
)
    requires
        call_ensures(ClearingBook::ccp_capital_remaining, (&book,), amount),
        call_ensures(ClearingBook::ccp_capital_lock, (&book,), lock),
    ensures
        amount == book@.ccp_capital_remaining,
        lock.0 == book@.ccp_capital_defmi_lock_id,
        lock.1 == book@.ccp_capital_proof_digest,
        lock.2 == book@.ccp_capital_valid_until,
{
}

/// What each refusal says.
pub proof fn law_messages(error: DeCcpError, r: String)
    requires
        call_ensures(DeCcpError::message, (&error,), r),
    ensures
        error is InvalidAuthoritySet ==> r@ == "authority set is invalid"@,
        error is InvalidQuorumApproval ==> r@ == "quorum approval is invalid"@,
        error is InsufficientQuorum ==> r@ == "quorum threshold is not met"@,
        error is InvalidCapital ==> r@ == "CCP capital must be positive"@,
        error is InvalidParticipant ==> r@ == "participant admission is invalid"@,
        error is DuplicateParticipant ==> r@ == "participant is already registered"@,
        error is UnknownParticipant ==> r@ == "participant is unknown"@,
        error is ParticipantNotActive ==> r@
            == "participant is not active or its eligibility expired"@,
        error is InvalidCollateral ==> r@ == "collateral is invalid"@,
        error is DuplicateDeFmiReference ==> r@
            == "DeFMI lock or hold reference is already assigned to another resource"@,
        error is InvalidMargin ==> r@ == "margin request is invalid"@,
        error is InsufficientCollateral ==> r@ == "eligible collateral is insufficient"@,
        error is InsufficientMargin ==> r@ == "net exposure exceeds encumbered margin"@,
        error is StaleSequence ==> r@ == "state sequence is stale"@,
        error is InvalidCycle ==> r@ == "cycle is invalid"@,
        error is UnknownCycle ==> r@ == "cycle is unknown"@,
        error is CycleNotOpen ==> r@ == "cycle is not open"@,
        error is InvalidObligation ==> r@ == "obligation is invalid"@,
        error is DuplicateObligation ==> r@ == "obligation is duplicate"@,
        error is InvalidNettingProposal ==> r@ == "netting proposal is invalid"@,
        error is ConservationFailure ==> r@ == "netting conservation failed"@,
        error is InvalidSettlementReceipt ==> r@ == "DeFMI settlement receipt is invalid"@,
        error is InvalidGuaranteeFacility ==> r@ == "guarantee facility is invalid"@,
        error is UnknownGuaranteeFacility ==> r@ == "guarantee facility is unknown"@,
        error is InvalidGuaranteeReservation ==> r@ == "guarantee reservation is invalid"@,
        error is GuaranteeCapacityExceeded ==> r@ == "guarantee capacity is exceeded"@,
        error is UnknownGuaranteeHold ==> r@ == "guarantee hold is unknown"@,
        error is GuaranteeHoldUnavailable ==> r@ == "guarantee hold is unavailable"@,
        error is InvalidGuaranteeClaim ==> r@ == "guarantee claim is invalid"@,
        error is InvalidDefault ==> r@ == "default declaration is invalid"@,
        error is UnknownDefault ==> r@ == "default case is unknown"@,
        error is DefaultAlreadyResolved ==> r@ == "default case is already resolved"@,
        error is InvalidDefaultResolution ==> r@ == "default resolution is invalid"@,
        error is WaterfallExhausted ==> r@ == "loss exceeds all waterfall resources"@,
        error is ReplayOrStaleOperation ==> r@ == "operation was replayed or stale"@,
        error is ArithmeticOverflow ==> r@ == "arithmetic overflow"@,
        error is InvalidState ==> r@ == "stored clearing state is inconsistent"@,
        error matches DeCcpError::EligibilityRejected(reason) ==> r@ == "eligibility rejected: "@
            + reason@,
        error matches DeCcpError::DeFmiEvidenceRejected(reason) ==> r@
            == "DeFMI evidence rejected: "@ + reason@,
        error matches DeCcpError::InstructionRejected(reason) ==> r@
            == "settlement instruction rejected: "@ + reason@,
{
}

} // verus!
