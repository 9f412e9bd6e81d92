//! Laws of authority: which sets can approve, what a quorum is, and what signing
//! gives.

use vstd::prelude::*;

use crate::authority::{
    ed25519_key_decodes, ApprovalView, AuthoritySet, AuthorityView, KeyPurpose, QuorumApproval,
    SignatureView, SignerReply, SuiteId, Version,
};
use crate::error::DeCcpError;
use crate::ident::{Digest32, ZERO};
use crate::transcript::{big_endian, bytes_of, framed_all, sha256_of};

verus! {

/// Whether a set can approve anything: it has an epoch, between one and 64
/// members, and a threshold that they can reach; every member has an identifier
/// and a checked hybrid governance key with two usable halves; and no two members
/// share an identifier, a participant, a key identifier, or either half of a key.
pub open spec fn sound_set(set: AuthorityView) -> bool {
    &&& set.epoch > 0
    &&& 1 <= set.threshold <= set.members.len() <= 64
    &&& forall|i: int|
        0 <= i < set.members.len() ==> {
            let key = (#[trigger] set.members[i]).key;
            &&& set.members[i].member_id != ZERO
            &&& key.passed_record_check
            &&& key.suite == SuiteId::Ed25519MlDsa65
            &&& key.purpose == KeyPurpose::Governance
            &&& key.public_key.len() > 32
            &&& key.public_key.subrange(0, 32) != ZERO@
            &&& ed25519_key_decodes(key.public_key.subrange(0, 32))
            &&& exists|j: int| 32 <= j < key.public_key.len() && key.public_key[j] != 0
        }
    &&& forall|i: int, j: int|
        0 <= i < j < set.members.len() ==> {
            let a = #[trigger] set.members[i];
            let b = #[trigger] set.members[j];
            &&& a.member_id != b.member_id
            &&& a.key.participant_id != b.key.participant_id
            &&& a.key.key_id != b.key.key_id
            &&& a.key.public_key.subrange(0, 32) != b.key.public_key.subrange(0, 32)
            &&& a.key.public_key.subrange(32, a.key.public_key.len() as int)
                != b.key.public_key.subrange(32, b.key.public_key.len() as int)
        }
}

/// Whether one signature of an approval counts: it names a member of the set and
/// the member's present key, the verifier accepted it as a governance signature
/// under that key of exactly this member's message, and the key is in force at
/// the execution time, where one is given.
pub open spec fn counts(
    set: AuthorityView,
    statement: Digest32,
    signed: SignatureView,
    now: Option<u64>,
) -> bool {
    exists|m: int|
        {
            &&& 0 <= m < set.members.len()
            &&& (#[trigger] set.members[m]).member_id == signed.member_id
            &&& set.members[m].key.key_id == signed.key_id
            &&& set.members[m].key.key_version == signed.key_version
            &&& signed.verified_for is Some
            &&& signed.verified_for->0.purpose == KeyPurpose::Governance
            &&& signed.verified_for->0.public_key == set.members[m].key.public_key
            &&& signed.verified_for->0.message == set.signing_message(statement, signed.member_id)
            &&& now is Some ==> signed.key_valid_at == now
        }
}

/// Whether an approval is for this set and this statement and every signature of
/// it counts, no member signing twice.
pub open spec fn addressed(
    set: AuthorityView,
    statement: Digest32,
    approval: ApprovalView,
    now: Option<u64>,
) -> bool {
    &&& approval.suite == SuiteId::Ed25519MlDsa65
    &&& approval.authority_epoch == set.epoch
    &&& approval.authority_digest == set.digest()
    &&& approval.statement_digest == statement
    &&& approval.signatures.len() <= set.members.len()
    &&& forall|i: int, j: int|
        0 <= i < j < approval.signatures.len() ==> (#[trigger] approval.signatures[i]).member_id
            != (#[trigger] approval.signatures[j]).member_id
    &&& forall|i: int|
        0 <= i < approval.signatures.len() ==> counts(
            set,
            statement,
            #[trigger] approval.signatures[i],
            now,
        )
}

/// Whether a quorum of a sound set approved a statement.
pub open spec fn sealed(
    set: AuthorityView,
    statement: Digest32,
    approval: ApprovalView,
    now: Option<u64>,
) -> bool {
    &&& sound_set(set)
    &&& addressed(set, statement, approval, now)
    &&& set.threshold <= approval.signatures.len()
}

proof fn lemma_halves(key: Seq<u8>)
    requires
        key.len() >= 32,
    ensures
        key.take(32) == key.subrange(0, 32),
        key.skip(32) == key.subrange(32, key.len() as int),
{
    assert(key.take(32) =~= key.subrange(0, 32));
    assert(key.skip(32) =~= key.subrange(32, key.len() as int));
}

proof fn lemma_sound_set(set: AuthorityView)
    ensures
        set.valid() <==> sound_set(set),
{
    assert forall|i: int| 0 <= i < set.members.len() implies (#[trigger] set.members[i]).key.usable()
        == ({
        let key = set.members[i].key;
        &&& key.passed_record_check
        &&& key.suite == SuiteId::Ed25519MlDsa65
        &&& key.purpose == KeyPurpose::Governance
        &&& key.public_key.len() > 32
        &&& key.public_key.subrange(0, 32) != ZERO@
        &&& ed25519_key_decodes(key.public_key.subrange(0, 32))
        &&& exists|j: int| 32 <= j < key.public_key.len() && key.public_key[j] != 0
    }) by {
        let key = set.members[i].key;
        if key.public_key.len() >= 32 {
            lemma_halves(key.public_key);
            let half = key.post_quantum();
            if exists|j: int| 0 <= j < half.len() && half[j] != 0 {
                let j = choose|j: int| 0 <= j < half.len() && half[j] != 0;
                assert(key.public_key[j + 32] == half[j]);
            }
            if exists|j: int| 32 <= j < key.public_key.len() && key.public_key[j] != 0 {
                let j = choose|j: int| 32 <= j < key.public_key.len() && key.public_key[j] != 0;
                assert(half[j - 32] == key.public_key[j]);
            }
        }
    }
    if set.valid() {
        assert forall|i: int, j: int| 0 <= i < j < set.members.len() implies {
            let a = #[trigger] set.members[i];
            let b = #[trigger] set.members[j];
            &&& a.member_id != b.member_id
            &&& a.key.participant_id != b.key.participant_id
            &&& a.key.key_id != b.key.key_id
            &&& a.key.public_key.subrange(0, 32) != b.key.public_key.subrange(0, 32)
            &&& a.key.public_key.subrange(32, a.key.public_key.len() as int)
                != b.key.public_key.subrange(32, b.key.public_key.len() as int)
        } by {
            assert(set.members[i].distinct_from(set.members[j]));
            lemma_halves(set.members[i].key.public_key);
            lemma_halves(set.members[j].key.public_key);
        }
        assert(sound_set(set));
    }
    if sound_set(set) {
        assert forall|i: int, j: int| 0 <= i < j < set.members.len() implies (
        #[trigger] set.members[i]).distinct_from(#[trigger] set.members[j]) by {
            lemma_halves(set.members[i].key.public_key);
            lemma_halves(set.members[j].key.public_key);
        }
        assert(set.valid());
    }
}

/// What an approval is refused for.
pub proof fn law_refusal_of_approval(
    set: AuthorityView,
    statement: Digest32,
    approval: ApprovalView,
    now: Option<u64>,
)
    ensures
        set.refusal(statement, approval, now) is None <==> sealed(set, statement, approval, now),
        set.refusal(statement, approval, now) == Some(DeCcpError::InvalidAuthoritySet)
            <==> !sound_set(set),
        set.refusal(statement, approval, now) == Some(DeCcpError::InsufficientQuorum) <==> sound_set(
            set,
        ) && addressed(set, statement, approval, now) && approval.signatures.len() < set.threshold,
        set.refusal(statement, approval, now) == Some(DeCcpError::InvalidQuorumApproval)
            <==> sound_set(set) && !addressed(set, statement, approval, now),
{
    lemma_sound_set(set);
    assert forall|i: int| 0 <= i < approval.signatures.len() implies set.accepts(
        statement,
        #[trigger] approval.signatures[i],
        now,
    ) == counts(set, statement, approval.signatures[i], now) by {
        let signed = approval.signatures[i];
        if set.accepts(statement, signed, now) {
            let m = choose|m: int|
                {
                    &&& 0 <= m < set.members.len()
                    &&& (#[trigger] set.members[m]).member_id == signed.member_id
                    &&& set.members[m].key.key_id == signed.key_id
                    &&& set.members[m].key.key_version == signed.key_version
                    &&& now is Some ==> signed.key_valid_at == now
                    &&& signed.verified_for == Some(
                        crate::authority::SubjectView {
                            purpose: KeyPurpose::Governance,
                            public_key: set.members[m].key.public_key,
                            message: set.signing_message(statement, signed.member_id),
                        },
                    )
                };
            assert(set.members[m].member_id == signed.member_id);
        }
        if counts(set, statement, signed, now) {
            let m = choose|m: int|
                {
                    &&& 0 <= m < set.members.len()
                    &&& (#[trigger] set.members[m]).member_id == signed.member_id
                    &&& set.members[m].key.key_id == signed.key_id
                    &&& set.members[m].key.key_version == signed.key_version
                    &&& signed.verified_for is Some
                    &&& signed.verified_for->0.purpose == KeyPurpose::Governance
                    &&& signed.verified_for->0.public_key == set.members[m].key.public_key
                    &&& signed.verified_for->0.message == set.signing_message(
                        statement,
                        signed.member_id,
                    )
                    &&& now is Some ==> signed.key_valid_at == now
                };
            assert(signed.verified_for->0 =~= crate::authority::SubjectView {
                purpose: KeyPurpose::Governance,
                public_key: set.members[m].key.public_key,
                message: set.signing_message(statement, signed.member_id),
            });
            assert(set.members[m].member_id == signed.member_id);
        }
    }
}

/// A set is accepted exactly if it is sound.
pub proof fn law_set_validation(set: AuthoritySet, r: Result<(), DeCcpError>)
    requires
        call_ensures(AuthoritySet::validate, (&set,), r),
    ensures
        r is Ok <==> sound_set(set@),
        r is Err ==> r->Err_0 == DeCcpError::InvalidAuthoritySet,
{
    lemma_sound_set(set@);
}

/// The digest of a sound set commits to its whole text.
pub proof fn law_set_digest(set: AuthoritySet, r: Result<Digest32, DeCcpError>)
    requires
        call_ensures(AuthoritySet::digest, (&set,), r),
    ensures
        r is Ok <==> sound_set(set@),
        r is Err ==> r->Err_0 == DeCcpError::InvalidAuthoritySet,
        r is Ok ==> r->Ok_0 == sha256_of(
            bytes_of("DECCP:HYBRID-AUTHORITY:v2") + big_endian(
                set@.encoding().len() as u32 as nat,
                4,
            ) + set@.encoding(),
        ),
{
    lemma_sound_set(set@);
    let text = set@.encoding();
    reveal_with_fuel(framed_all, 2);
    let fields = seq![text];
    assert(fields.drop_last() =~= Seq::<Seq<u8>>::empty());
    assert(fields.last() == text);
    assert(bytes_of("DECCP:HYBRID-AUTHORITY:v2") + framed_all(fields) =~= bytes_of(
        "DECCP:HYBRID-AUTHORITY:v2",
    ) + big_endian(text.len() as u32 as nat, 4) + text);
}

/// An approval is accepted at a time exactly if a quorum of a sound set gave it
/// with keys in force at that time.
pub proof fn law_verification(
    set: AuthoritySet,
    statement: Digest32,
    approval: QuorumApproval,
    now: u64,
    r: Result<(), DeCcpError>,
)
    requires
        call_ensures(AuthoritySet::verify, (&set, &statement, &approval, now), r),
    ensures
        r is Ok <==> sealed(set@, statement, approval@, Some(now)),
        r is Err ==> r->Err_0 == (if !sound_set(set@) {
            DeCcpError::InvalidAuthoritySet
        } else if !addressed(set@, statement, approval@, Some(now)) {
            DeCcpError::InvalidQuorumApproval
        } else {
            DeCcpError::InsufficientQuorum
        }),
{
    law_refusal_of_approval(set@, statement, approval@, Some(now));
}

/// An archived approval is accepted exactly if a quorum of a sound set gave it,
/// whenever that was.
pub proof fn law_archived_verification(
    set: AuthoritySet,
    statement: Digest32,
    approval: QuorumApproval,
    r: Result<(), DeCcpError>,
)
    requires
        call_ensures(AuthoritySet::verify_archived, (&set, &statement, &approval), r),
    ensures
        r is Ok <==> sealed(set@, statement, approval@, None),
        r is Err ==> r->Err_0 == (if !sound_set(set@) {
            DeCcpError::InvalidAuthoritySet
        } else if !addressed(set@, statement, approval@, None) {
            DeCcpError::InvalidQuorumApproval
        } else {
            DeCcpError::InsufficientQuorum
        }),
{
    law_refusal_of_approval(set@, statement, approval@, None);
}

/// Signing works for a sound set exactly if every reply holds a signature from
/// the key of a member and no member replies twice; it then gives an approval of
/// the statement with one signature for each reply, under the members' keys, that
/// nobody has verified yet.
pub proof fn law_signing(
    set: AuthoritySet,
    statement: Digest32,
    replies: Vec<SignerReply>,
    r: Result<QuorumApproval, DeCcpError>,
)
    requires
        call_ensures(QuorumApproval::sign, (&set, statement, &replies), r),
    ensures
        r is Ok <==> {
            &&& sound_set(set@)
            &&& forall|i: int|
                0 <= i < replies@.len() ==> {
                    &&& (#[trigger] replies@[i]).signature is Some
                    &&& exists|m: int|
                        0 <= m < set@.members.len() && (#[trigger] set@.members[m]).member_id
                            == replies@[i].member_id && set@.members[m].key.public_key
                            == replies@[i].public_key@
                }
            &&& forall|i: int, j: int|
                0 <= i < j < replies@.len() ==> (#[trigger] replies@[i]).member_id != (
                #[trigger] replies@[j]).member_id
        },
        r is Err ==> r->Err_0 == (if sound_set(set@) {
            DeCcpError::InvalidQuorumApproval
        } else {
            DeCcpError::InvalidAuthoritySet
        }),
        r is Ok ==> {
            let approval = r->Ok_0@;
            &&& approval.version == Version::V1
            &&& approval.suite == SuiteId::Ed25519MlDsa65
            &&& approval.authority_epoch == set@.epoch
            &&& approval.authority_digest == set@.digest()
            &&& approval.statement_digest == statement
            &&& approval.signatures.len() == replies@.len()
            &&& forall|i: int|
                0 <= i < replies@.len() ==> {
                    let signed = #[trigger] approval.signatures[i];
                    &&& signed.member_id == replies@[i].member_id
                    &&& replies@[i].signature is Some
                    &&& signed.signature == replies@[i].signature->0@
                    &&& signed.verified_for is None
                    &&& signed.key_valid_at is None
                    &&& exists|m: int|
                        0 <= m < set@.members.len() && (#[trigger] set@.members[m]).member_id
                            == signed.member_id && set@.members[m].key.key_id == signed.key_id
                            && set@.members[m].key.key_version == signed.key_version
                }
        },
{
    lemma_sound_set(set@);
    if r is Ok {
        assert forall|i: int| 0 <= i < replies@.len() implies {
            let signed = #[trigger] r->Ok_0@.signatures[i];
            &&& signed.member_id == replies@[i].member_id
            &&& replies@[i].signature is Some
            &&& signed.signature == replies@[i].signature->0@
            &&& signed.verified_for is None
            &&& signed.key_valid_at is None
            &&& exists|m: int|
                0 <= m < set@.members.len() && (#[trigger] set@.members[m]).member_id
                    == signed.member_id && set@.members[m].key.key_id == signed.key_id
                    && set@.members[m].key.key_version == signed.key_version
        } by {
            assert(replies@[i].recorded_as(r->Ok_0@.signatures[i], set@));
        }
        assert forall|i: int| 0 <= i < replies@.len() implies {
            &&& (#[trigger] replies@[i]).signature is Some
            &&& exists|m: int|
                0 <= m < set@.members.len() && (#[trigger] set@.members[m]).member_id
                    == replies@[i].member_id && set@.members[m].key.public_key
                    == replies@[i].public_key@
        } by {
            assert(replies@[i].fits(set@));
        }
    }
}

} // verus!
