//! The threshold authority set and its quorum approvals.
//!
//! Key records and hybrid signatures belong to the host's key service. The
//! records here hold what the clearing rules read of them, together with what
//! the key service reported: whether a key record passed its own check, which
//! message a signature was verified over, and when its key was in force.

use vstd::prelude::*;

use crate::error::DeCcpError;
use crate::ident::{is_zero, same_id, Digest32, Identifier, ZERO};
use crate::json::{
    bytes_text, decimal, json_array, json_bytes, json_member, json_object, number_text, JsonList,
};
use crate::map::Record;
use crate::transcript::{bytes_of, digest_of_fields, FieldDigest};

verus! {

/// The signature suite of a key or an approval.
#[derive(Clone, Copy, Debug, PartialEq, Eq, Structural)]
pub enum SuiteId {
    /// Ed25519 and ML-DSA-65 together; both components are mandatory.
    Ed25519MlDsa65,
    /// Any other suite of the key service.
    Other,
}

/// What a key may be used for.
#[derive(Clone, Copy, Debug, PartialEq, Eq, Structural)]
pub enum KeyPurpose {
    Governance,
    /// Any other purpose of the key service.
    Other,
}

/// The format version of an approval.
#[derive(Clone, Copy, Debug, PartialEq, Eq, Structural)]
pub enum Version {
    V1,
}

/// A key record of the key service, as far as the clearing rules read it.
#[derive(Debug, PartialEq, Eq)]
pub struct KeyRecord {
    pub participant_id: String,
    pub key_id: String,
    pub key_version: u32,
    pub suite: SuiteId,
    pub purpose: KeyPurpose,
    /// The Ed25519 key in the first 32 bytes, the ML-DSA-65 key in the rest.
    pub public_key: Vec<u8>,
    /// Whether the record passed the key service's own check when it was read.
    pub passed_record_check: bool,
    /// The JSON text of the whole record, as the key service writes it.
    pub encoding: Vec<u8>,
}

/// What a key record stands for.
#[verifier::ext_equal]
pub struct KeyView {
    pub participant_id: Seq<char>,
    pub key_id: Seq<char>,
    pub key_version: u32,
    pub suite: SuiteId,
    pub purpose: KeyPurpose,
    pub public_key: Seq<u8>,
    pub passed_record_check: bool,
    pub encoding: Seq<u8>,
}

impl View for KeyRecord {
    type V = KeyView;

    open spec fn view(&self) -> KeyView {
        KeyView {
            participant_id: self.participant_id@,
            key_id: self.key_id@,
            key_version: self.key_version,
            suite: self.suite,
            purpose: self.purpose,
            public_key: self.public_key@,
            passed_record_check: self.passed_record_check,
            encoding: self.encoding@,
        }
    }
}

impl Record for KeyRecord {
    fn duplicate(&self) -> (r: Self) {
        KeyRecord {
            participant_id: self.participant_id.clone(),
            key_id: self.key_id.clone(),
            key_version: self.key_version,
            suite: self.suite,
            purpose: self.purpose,
            public_key: copy_bytes(&self.public_key),
            passed_record_check: self.passed_record_check,
            encoding: copy_bytes(&self.encoding),
        }
    }
}

impl Clone for KeyRecord {
    fn clone(&self) -> (r: Self)
        ensures
            r@ == self@,
    {
        self.duplicate()
    }
}

/// A member of the authority set and its governance key.
#[derive(Debug, PartialEq, Eq)]
pub struct AuthorityMember {
    pub member_id: Identifier,
    pub key: KeyRecord,
}

/// What an authority member stands for.
#[verifier::ext_equal]
pub struct MemberView {
    pub member_id: Identifier,
    pub key: KeyView,
}

impl View for AuthorityMember {
    type V = MemberView;

    open spec fn view(&self) -> MemberView {
        MemberView { member_id: self.member_id, key: self.key@ }
    }
}

impl Clone for AuthorityMember {
    fn clone(&self) -> (r: Self)
        ensures
            r@ == self@,
    {
        AuthorityMember { member_id: self.member_id, key: self.key.duplicate() }
    }
}

/// The authorities that approve material changes of the clearing state, and
/// how many of them must sign.
#[derive(Debug, PartialEq, Eq)]
pub struct AuthoritySet {
    pub epoch: u64,
    pub threshold: u16,
    pub members: Vec<AuthorityMember>,
}

/// What an authority set stands for.
#[verifier::ext_equal]
pub struct AuthorityView {
    pub epoch: u64,
    pub threshold: u16,
    pub members: Seq<MemberView>,
}

impl View for AuthoritySet {
    type V = AuthorityView;

    open spec fn view(&self) -> AuthorityView {
        AuthorityView {
            epoch: self.epoch,
            threshold: self.threshold,
            members: self.members@.map_values(|m: AuthorityMember| m@),
        }
    }
}

impl Record for AuthoritySet {
    fn duplicate(&self) -> (r: Self) {
        let mut members: Vec<AuthorityMember> = Vec::new();
        let mut i: usize = 0;
        while i < self.members.len()
            invariant
                i <= self.members@.len(),
                members@.len() == i,
                forall|j: int| 0 <= j < i ==> (#[trigger] members@[j])@ == self.members@[j]@,
            decreases self.members@.len() - i,
        {
            members.push(self.members[i].clone());
            i = i + 1;
        }
        let r = AuthoritySet { epoch: self.epoch, threshold: self.threshold, members };
        assert(r@ =~= self@);
        r
    }
}

impl Clone for AuthoritySet {
    fn clone(&self) -> (r: Self)
        ensures
            r@ == self@,
    {
        self.duplicate()
    }
}

/// The bytes of a hybrid signature. Both components are mandatory; a 64-byte
/// Ed25519 signature alone is not one.
pub type SignatureBytes = Vec<u8>;

/// What the hybrid verifier was given when it accepted a signature.
#[derive(Debug, PartialEq, Eq)]
pub struct SignedSubject {
    pub purpose: KeyPurpose,
    pub public_key: Vec<u8>,
    pub message: Digest32,
}

/// What the key service reported about a signature and its key.
#[derive(Debug, PartialEq, Eq)]
pub struct SignatureVerdict {
    /// The purpose, key, and message for which the hybrid verifier accepted
    /// the signature, or nothing if it was not accepted.
    pub verified_for: Option<SignedSubject>,
    /// The time at which the signer's key record was found to be in force.
    pub key_valid_at: Option<u64>,
}

/// One authority's signature of an approval.
#[derive(Debug, PartialEq, Eq)]
pub struct AuthoritySignature {
    pub member_id: Identifier,
    pub key_id: String,
    pub key_version: u32,
    pub signature: SignatureBytes,
    pub verdict: SignatureVerdict,
}

/// What a verified subject stands for.
#[verifier::ext_equal]
pub struct SubjectView {
    pub purpose: KeyPurpose,
    pub public_key: Seq<u8>,
    pub message: Digest32,
}

/// What a signature stands for.
#[verifier::ext_equal]
pub struct SignatureView {
    pub member_id: Identifier,
    pub key_id: Seq<char>,
    pub key_version: u32,
    pub signature: Seq<u8>,
    pub verified_for: Option<SubjectView>,
    pub key_valid_at: Option<u64>,
}

impl View for SignedSubject {
    type V = SubjectView;

    open spec fn view(&self) -> SubjectView {
        SubjectView {
            purpose: self.purpose,
            public_key: self.public_key@,
            message: self.message,
        }
    }
}

impl View for AuthoritySignature {
    type V = SignatureView;

    open spec fn view(&self) -> SignatureView {
        SignatureView {
            member_id: self.member_id,
            key_id: self.key_id@,
            key_version: self.key_version,
            signature: self.signature@,
            verified_for: match self.verdict.verified_for {
                Some(subject) => Some(subject@),
                None => None,
            },
            key_valid_at: self.verdict.key_valid_at,
        }
    }
}

/// Signatures of authorities over the digest of a statement.
#[derive(Debug, PartialEq, Eq)]
pub struct QuorumApproval {
    pub version: Version,
    pub suite: SuiteId,
    pub authority_epoch: u64,
    pub authority_digest: Digest32,
    pub statement_digest: Digest32,
    pub signatures: Vec<AuthoritySignature>,
}

/// What an approval stands for.
#[verifier::ext_equal]
pub struct ApprovalView {
    pub version: Version,
    pub suite: SuiteId,
    pub authority_epoch: u64,
    pub authority_digest: Digest32,
    pub statement_digest: Digest32,
    pub signatures: Seq<SignatureView>,
}

impl View for QuorumApproval {
    type V = ApprovalView;

    open spec fn view(&self) -> ApprovalView {
        ApprovalView {
            version: self.version,
            suite: self.suite,
            authority_epoch: self.authority_epoch,
            authority_digest: self.authority_digest,
            statement_digest: self.statement_digest,
            signatures: self.signatures@.map_values(|s: AuthoritySignature| s@),
        }
    }
}

/// Whether 32 bytes are the encoding of a curve point, as the `ed25519-dalek`
/// crate decides it.
pub uninterp spec fn ed25519_key_decodes(key: Seq<u8>) -> bool;

/// Calls `ed25519_dalek::VerifyingKey::from_bytes` and reports whether it
/// accepted the bytes. That is taken to be a function of the bytes alone, named
/// `ed25519_key_decodes`.
#[verifier::external_body]
fn ed25519_key_is_valid(key: &[u8; 32]) -> (r: bool)
    ensures
        r == ed25519_key_decodes(key@),
{
    ed25519_dalek::VerifyingKey::from_bytes(key).is_ok()
}

impl KeyView {
    /// The Ed25519 half of the public key.
    pub open spec fn classical(self) -> Seq<u8> {
        self.public_key.take(32)
    }

    /// The ML-DSA-65 half of the public key.
    pub open spec fn post_quantum(self) -> Seq<u8> {
        self.public_key.skip(32)
    }

    /// Whether the key can serve an authority: a checked governance key of the
    /// hybrid suite whose two halves are both present and usable.
    pub open spec fn usable(self) -> bool {
        &&& self.passed_record_check
        &&& self.suite == SuiteId::Ed25519MlDsa65
        &&& self.purpose == KeyPurpose::Governance
        &&& self.public_key.len() >= 32
        &&& self.classical() != ZERO@
        &&& ed25519_key_decodes(self.classical())
        &&& exists|i: int| 0 <= i < self.post_quantum().len() && self.post_quantum()[i] != 0
    }
}

impl KeyRecord {
    /// Whether the key can serve an authority.
    pub fn is_usable(&self) -> (r: bool)
        ensures
            r == self@.usable(),
    {
        if !self.passed_record_check || self.suite != SuiteId::Ed25519MlDsa65 || self.purpose
            != KeyPurpose::Governance || self.public_key.len() < 32 {
            return false;
        }
        let mut public: [u8; 32] = ZERO;
        let mut i: usize = 0;
        while i < 32
            invariant
                i <= 32,
                self.public_key@.len() >= 32,
                forall|j: int| 0 <= j < i ==> public@[j] == self.public_key@[j],
            decreases 32 - i,
        {
            public[i] = self.public_key[i];
            i = i + 1;
        }
        assert(public@ =~= self@.classical());
        proof {
            if public@ == ZERO@ {
                assert(public =~= ZERO);
            }
        }
        if is_zero(&public) || !ed25519_key_is_valid(&public) {
            return false;
        }
        let mut k: usize = 32;
        while k < self.public_key.len()
            invariant
                32 <= k <= self.public_key@.len(),
                self.passed_record_check,
                self.suite == SuiteId::Ed25519MlDsa65,
                self.purpose == KeyPurpose::Governance,
                self@.classical() != ZERO@,
                ed25519_key_decodes(self@.classical()),
                forall|j: int| 32 <= j < k ==> self.public_key@[j] == 0,
            decreases self.public_key@.len() - k,
        {
            if self.public_key[k] != 0 {
                assert(self@.post_quantum()[k - 32] == self.public_key@[k as int]);
                return true;
            }
            k = k + 1;
        }
        assert forall|j: int| 0 <= j < self@.post_quantum().len() implies self@.post_quantum()[j]
            == 0 by {
            assert(self@.post_quantum()[j] == self.public_key@[j + 32]);
        }
        false
    }
}

impl MemberView {
    /// Whether two members have nothing in common: neither identifier,
    /// participant, key identifier, nor either half of the public key.
    pub open spec fn distinct_from(self, other: MemberView) -> bool {
        &&& self.member_id != other.member_id
        &&& self.key.participant_id != other.key.participant_id
        &&& self.key.key_id != other.key.key_id
        &&& self.key.classical() != other.key.classical()
        &&& self.key.post_quantum() != other.key.post_quantum()
    }

    /// The members of the JSON text of an authority member.
    pub open spec fn members_text(self) -> Seq<(Seq<u8>, Seq<u8>)> {
        seq![
            (bytes_of("memberId"), json_bytes(self.member_id@)),
            (bytes_of("key"), self.key.encoding),
        ]
    }
}

impl AuthorityView {
    /// Whether the set can approve anything: between one and 64 distinct
    /// members with usable keys, and a threshold that they can reach.
    pub open spec fn valid(self) -> bool {
        &&& self.epoch != 0
        &&& self.threshold != 0
        &&& self.threshold <= self.members.len()
        &&& self.members.len() <= 64
        &&& forall|i: int|
            0 <= i < self.members.len() ==> (#[trigger] self.members[i]).member_id != ZERO
                && self.members[i].key.usable()
        &&& forall|i: int, j: int|
            0 <= i < j < self.members.len() ==> (#[trigger] self.members[i]).distinct_from(
                #[trigger] self.members[j],
            )
    }

    /// The members of the JSON text of the set.
    pub open spec fn members_text(self) -> Seq<(Seq<u8>, Seq<u8>)> {
        seq![
            (bytes_of("epoch"), decimal(self.epoch as nat)),
            (bytes_of("threshold"), decimal(self.threshold as nat)),
            (
                bytes_of("members"),
                json_array(self.members.map_values(|m: MemberView| json_object(m.members_text()))),
            ),
        ]
    }

    /// The JSON text of the set.
    pub open spec fn encoding(self) -> Seq<u8> {
        json_object(self.members_text())
    }

    /// The digest that names the set.
    pub open spec fn digest(self) -> Digest32 {
        digest_of_fields("DECCP:HYBRID-AUTHORITY:v2", seq![self.encoding()])
    }

    /// What one member signs to approve a statement.
    pub open spec fn signing_message(self, statement: Digest32, member: Identifier) -> Digest32 {
        digest_of_fields("DECCP:HYBRID-APPROVAL:v2", seq![self.digest()@, member@, statement@])
    }

    /// Whether a signature of an approval counts: it names a member and that
    /// member's current key, the hybrid verifier accepted it for the message
    /// that this member signs, and, where an execution time is given, the key
    /// was in force at that time.
    pub open spec fn accepts(
        self,
        statement: Digest32,
        signed: SignatureView,
        now: Option<u64>,
    ) -> bool {
        exists|m: int|
            {
                &&& 0 <= m < self.members.len()
                &&& (#[trigger] self.members[m]).member_id == signed.member_id
                &&& self.members[m].key.key_id == signed.key_id
                &&& self.members[m].key.key_version == signed.key_version
                &&& now is Some ==> signed.key_valid_at == now
                &&& signed.verified_for == Some(
                    SubjectView {
                        purpose: KeyPurpose::Governance,
                        public_key: self.members[m].key.public_key,
                        message: self.signing_message(statement, signed.member_id),
                    },
                )
            }
    }

    /// Whether an approval is this set's approval of a statement, whatever the
    /// number of its signatures.
    pub open spec fn endorses(
        self,
        statement: Digest32,
        approval: ApprovalView,
        now: Option<u64>,
    ) -> bool {
        &&& approval.suite == SuiteId::Ed25519MlDsa65
        &&& approval.authority_epoch == self.epoch
        &&& approval.authority_digest == self.digest()
        &&& approval.statement_digest == statement
        &&& approval.signatures.len() <= self.members.len()
        &&& forall|i: int, j: int|
            0 <= i < j < approval.signatures.len() ==> (#[trigger] approval.signatures[i]).member_id
                != (#[trigger] approval.signatures[j]).member_id
        &&& forall|i: int|
            0 <= i < approval.signatures.len() ==> self.accepts(
                statement,
                #[trigger] approval.signatures[i],
                now,
            )
    }

    /// Why an approval is refused.
    pub open spec fn refusal(
        self,
        statement: Digest32,
        approval: ApprovalView,
        now: Option<u64>,
    ) -> Option<DeCcpError> {
        if !self.valid() {
            Some(DeCcpError::InvalidAuthoritySet)
        } else if !self.endorses(statement, approval, now) {
            Some(DeCcpError::InvalidQuorumApproval)
        } else if approval.signatures.len() < self.threshold {
            Some(DeCcpError::InsufficientQuorum)
        } else {
            None
        }
    }
}

fn same_bytes(a: &Vec<u8>, b: &Vec<u8>) -> (r: bool)
    ensures
        r == (a@ == b@),
{
    if a.len() != b.len() {
        return false;
    }
    let mut i: usize = 0;
    while i < a.len()
        invariant
            a@.len() == b@.len(),
            i <= a@.len(),
            forall|j: int| 0 <= j < i ==> a@[j] == b@[j],
        decreases a@.len() - i,
    {
        if a[i] != b[i] {
            return false;
        }
        i = i + 1;
    }
    assert(a@ =~= b@);
    true
}

fn copy_bytes(a: &Vec<u8>) -> (r: Vec<u8>)
    ensures
        r@ == a@,
{
    let mut out: Vec<u8> = Vec::new();
    let mut i: usize = 0;
    while i < a.len()
        invariant
            i <= a@.len(),
            out@ == a@.take(i as int),
        decreases a@.len() - i,
    {
        out.push(a[i]);
        i = i + 1;
        assert(out@ =~= a@.take(i as int));
    }
    assert(a@.take(i as int) =~= a@);
    out
}

/// Whether two byte strings agree from index `from` up to index `to`, or up to
/// their common end.
fn same_range(a: &Vec<u8>, b: &Vec<u8>, from: usize, to: usize) -> (r: bool)
    requires
        from <= to <= a@.len(),
        to <= b@.len(),
    ensures
        r == (a@.subrange(from as int, to as int) == b@.subrange(from as int, to as int)),
{
    let mut i: usize = from;
    while i < to
        invariant
            from <= i <= to,
            to <= a@.len(),
            to <= b@.len(),
            forall|j: int| from <= j < i ==> a@[j] == b@[j],
        decreases to - i,
    {
        if a[i] != b[i] {
            assert(a@.subrange(from as int, to as int)[i - from] == a@[i as int]);
            assert(b@.subrange(from as int, to as int)[i - from] == b@[i as int]);
            return false;
        }
        i = i + 1;
    }
    assert(a@.subrange(from as int, to as int) =~= b@.subrange(from as int, to as int));
    true
}

impl AuthorityMember {
    fn is_distinct_from(&self, other: &AuthorityMember) -> (r: bool)
        requires
            self@.key.public_key.len() >= 32,
            other@.key.public_key.len() >= 32,
        ensures
            r == self@.distinct_from(other@),
    {
        let a = &self.key.public_key;
        let b = &other.key.public_key;
        let same_classical = same_range(a, b, 0, 32);
        assert(self@.key.classical() =~= a@.subrange(0, 32));
        assert(other@.key.classical() =~= b@.subrange(0, 32));
        let same_post_quantum = a.len() == b.len() && same_range(a, b, 32, a.len());
        proof {
            assert(self@.key.post_quantum() =~= a@.subrange(32, a@.len() as int));
            assert(other@.key.post_quantum() =~= b@.subrange(32, b@.len() as int));
            if a@.len() != b@.len() {
                assert(self@.key.post_quantum().len() != other@.key.post_quantum().len());
            }
        }
        !same_id(&self.member_id, &other.member_id) && self.key.participant_id
            != other.key.participant_id && self.key.key_id != other.key.key_id && !same_classical
            && !same_post_quantum
    }
}

impl AuthoritySet {
    /// Checks that the set can approve anything.
    pub fn validate(&self) -> (r: Result<(), DeCcpError>)
        ensures
            r == (if self@.valid() {
                Ok::<(), DeCcpError>(())
            } else {
                Err(DeCcpError::InvalidAuthoritySet)
            }),
    {
        if self.epoch == 0 || self.threshold == 0 || self.threshold as usize > self.members.len()
            || self.members.len() == 0 || self.members.len() > 64 {
            return Err(DeCcpError::InvalidAuthoritySet);
        }
        let mut i: usize = 0;
        while i < self.members.len()
            invariant
                i <= self.members@.len(),
                forall|k: int|
                    0 <= k < i ==> (#[trigger] self@.members[k]).member_id != ZERO
                        && self@.members[k].key.usable(),
                forall|k: int, l: int|
                    0 <= k < l < i ==> (#[trigger] self@.members[k]).distinct_from(
                        #[trigger] self@.members[l],
                    ),
            decreases self.members@.len() - i,
        {
            let member = &self.members[i];
            assert(self@.members[i as int] == member@);
            if is_zero(&member.member_id) || !member.key.is_usable() {
                return Err(DeCcpError::InvalidAuthoritySet);
            }
            let mut j: usize = 0;
            while j < i
                invariant
                    j <= i < self.members@.len(),
                    *member == self.members@[i as int],
                    self@.members[i as int] == member@,
                    member@.key.usable(),
                    forall|k: int| 0 <= k < i ==> (#[trigger] self@.members[k]).key.usable(),
                    forall|k: int|
                        0 <= k < j ==> (#[trigger] self@.members[k]).distinct_from(member@),
                decreases i - j,
            {
                assert(self@.members[j as int] == self.members@[j as int]@);
                if !self.members[j].is_distinct_from(member) {
                    assert(!self@.members[j as int].distinct_from(self@.members[i as int]));
                    return Err(DeCcpError::InvalidAuthoritySet);
                }
                j = j + 1;
            }
            i = i + 1;
        }
        Ok(())
    }

    pub(crate) fn encode(&self) -> (r: Vec<u8>)
        ensures
            r@ == self@.encoding(),
            r@.len() > 0,
    {
        let mut members = JsonList::new();
        let ghost texts = |m: MemberView| json_object(m.members_text());
        let mut i: usize = 0;
        while i < self.members.len()
            invariant
                i <= self.members@.len(),
                members.wf(),
                texts == (|m: MemberView| json_object(m.members_text())),
                members.items() == self@.members.take(i as int).map_values(texts),
            decreases self.members@.len() - i,
        {
            let member = &self.members[i];
            let mut list = JsonList::new();
            list.member("memberId", bytes_text(&member.member_id).as_slice());
            list.member("key", member.key.encoding.as_slice());
            assert(list.items() =~= member@.members_text().map_values(
                |m: (Seq<u8>, Seq<u8>)| json_member(m.0, m.1),
            ));
            members.item(list.object(Ghost(member@.members_text())).as_slice());
            i = i + 1;
            assert(members.items() =~= self@.members.take(i as int).map_values(texts));
        }
        assert(self@.members.take(i as int) =~= self@.members);
        let mut list = JsonList::new();
        list.member("epoch", number_text(self.epoch as u128).as_slice());
        list.member("threshold", number_text(self.threshold as u128).as_slice());
        list.member("members", members.array().as_slice());
        assert(list.items() =~= self@.members_text().map_values(
            |m: (Seq<u8>, Seq<u8>)| json_member(m.0, m.1),
        ));
        list.object(Ghost(self@.members_text()))
    }

    fn digest_unchecked(&self) -> (r: Digest32)
        ensures
            r == self@.digest(),
    {
        let mut digest = FieldDigest::new("DECCP:HYBRID-AUTHORITY:v2");
        digest.field(self.encode().as_slice());
        assert(digest.fields() =~= seq![self@.encoding()]);
        digest.finish()
    }

    /// The digest that names the set.
    pub fn digest(&self) -> (r: Result<Digest32, DeCcpError>)
        ensures
            r == (if self@.valid() {
                Ok::<Digest32, DeCcpError>(self@.digest())
            } else {
                Err(DeCcpError::InvalidAuthoritySet)
            }),
    {
        self.validate()?;
        Ok(self.digest_unchecked())
    }

    /// What one member signs to approve a statement.
    pub fn signing_message(&self, statement: &Digest32, member: &Identifier) -> (r: Result<
        Digest32,
        DeCcpError,
    >)
        ensures
            r == (if self@.valid() {
                Ok::<Digest32, DeCcpError>(self@.signing_message(*statement, *member))
            } else {
                Err(DeCcpError::InvalidAuthoritySet)
            }),
    {
        let set_digest = self.digest()?;
        Ok(Self::message_for(&set_digest, statement, member, Ghost(self@)))
    }

    fn message_for(
        set_digest: &Digest32,
        statement: &Digest32,
        member: &Identifier,
        Ghost(set): Ghost<AuthorityView>,
    ) -> (r: Digest32)
        requires
            *set_digest == set.digest(),
        ensures
            r == set.signing_message(*statement, *member),
    {
        let mut digest = FieldDigest::new("DECCP:HYBRID-APPROVAL:v2");
        digest.field(set_digest);
        digest.field(member);
        digest.field(statement);
        assert(digest.fields() =~= seq![set.digest()@, member@, statement@]);
        digest.finish()
    }

    /// The index of a member.
    fn find(&self, member_id: &Identifier) -> (r: Option<usize>)
        ensures
            match r {
                Some(m) => m < self@.members.len() && self@.members[m as int].member_id == *member_id,
                None => forall|m: int|
                    0 <= m < self@.members.len() ==> (#[trigger] self@.members[m]).member_id
                        != *member_id,
            },
    {
        let mut m: usize = 0;
        while m < self.members.len()
            invariant
                m <= self.members@.len(),
                forall|k: int|
                    0 <= k < m ==> (#[trigger] self@.members[k]).member_id != *member_id,
            decreases self.members@.len() - m,
        {
            assert(self@.members[m as int] == self.members@[m as int]@);
            if same_id(&self.members[m].member_id, member_id) {
                return Some(m);
            }
            m = m + 1;
        }
        None
    }

    /// Checks that an approval is a quorum's approval of a statement. The
    /// caller supplies the authoritative execution time, never a request
    /// timestamp.
    pub fn verify(&self, statement: &Digest32, approval: &QuorumApproval, now: u64) -> (r: Result<
        (),
        DeCcpError,
    >)
        ensures
            r == (match self@.refusal(*statement, approval@, Some(now)) {
                Some(error) => Err::<(), DeCcpError>(error),
                None => Ok(()),
            }),
    {
        self.verify_at(statement, approval, Some(now))
    }

    /// Integrity-only verification for explicitly requested snapshot
    /// restoration. Every later operation still uses the current
    /// execution-time key checks.
    pub fn verify_archived(&self, statement: &Digest32, approval: &QuorumApproval) -> (r: Result<
        (),
        DeCcpError,
    >)
        ensures
            r == (match self@.refusal(*statement, approval@, None) {
                Some(error) => Err::<(), DeCcpError>(error),
                None => Ok(()),
            }),
    {
        self.verify_at(statement, approval, None)
    }

    fn verify_at(&self, statement: &Digest32, approval: &QuorumApproval, now: Option<u64>) -> (r:
        Result<(), DeCcpError>)
        ensures
            r == (match self@.refusal(*statement, approval@, now) {
                Some(error) => Err::<(), DeCcpError>(error),
                None => Ok(()),
            }),
    {
        self.validate()?;
        let set_digest = self.digest_unchecked();
        if approval.suite != SuiteId::Ed25519MlDsa65 || approval.authority_epoch != self.epoch
            || !same_id(&approval.authority_digest, &set_digest) || !same_id(
            &approval.statement_digest,
            statement,
        ) || approval.signatures.len() > self.members.len() {
            return Err(DeCcpError::InvalidQuorumApproval);
        }
        let mut i: usize = 0;
        while i < approval.signatures.len()
            invariant
                i <= approval.signatures@.len(),
                self@.valid(),
                set_digest == self@.digest(),
                forall|k: int, l: int|
                    0 <= k < l < i ==> (#[trigger] approval@.signatures[k]).member_id != (
                    #[trigger] approval@.signatures[l]).member_id,
                forall|k: int|
                    0 <= k < i ==> self@.accepts(*statement, #[trigger] approval@.signatures[k], now),
            decreases approval.signatures@.len() - i,
        {
            let signed = &approval.signatures[i];
            assert(approval@.signatures[i as int] == signed@);
            let mut j: usize = 0;
            while j < i
                invariant
                    j <= i < approval.signatures@.len(),
                    self@.valid(),
                    *signed == approval.signatures@[i as int],
                    approval@.signatures[i as int] == signed@,
                    forall|k: int|
                        0 <= k < j ==> (#[trigger] approval@.signatures[k]).member_id
                            != signed.member_id,
                decreases i - j,
            {
                assert(approval@.signatures[j as int] == approval.signatures@[j as int]@);
                if same_id(&approval.signatures[j].member_id, &signed.member_id) {
                    assert(approval@.signatures[j as int].member_id
                        == approval@.signatures[i as int].member_id);
                    return Err(DeCcpError::InvalidQuorumApproval);
                }
                j = j + 1;
            }
            if !self.accepts_signature(&set_digest, statement, signed, now) {
                return Err(DeCcpError::InvalidQuorumApproval);
            }
            i = i + 1;
        }
        if approval.signatures.len() < self.threshold as usize {
            return Err(DeCcpError::InsufficientQuorum);
        }
        Ok(())
    }

    fn accepts_signature(
        &self,
        set_digest: &Digest32,
        statement: &Digest32,
        signed: &AuthoritySignature,
        now: Option<u64>,
    ) -> (r: bool)
        requires
            self@.valid(),
            *set_digest == self@.digest(),
        ensures
            r == self@.accepts(*statement, signed@, now),
    {
        let found = self.find(&signed.member_id);
        if found.is_none() {
            return false;
        }
        let m: usize = found.unwrap();
        let key = &self.members[m].key;
        assert(self@.members[m as int] == self.members@[m as int]@);
        assert forall|k: int| 0 <= k < self@.members.len() && k != m implies (
        #[trigger] self@.members[k]).member_id != signed.member_id by {
            if k < m {
                assert(self@.members[k].distinct_from(self@.members[m as int]));
            } else {
                assert(self@.members[m as int].distinct_from(self@.members[k]));
            }
        }
        if signed.key_id != key.key_id || signed.key_version != key.key_version {
            return false;
        }
        if now.is_some() && signed.verdict.key_valid_at != now {
            return false;
        }
        match &signed.verdict.verified_for {
            None => false,
            Some(subject) => {
                let message = Self::message_for(
                    set_digest,
                    statement,
                    &signed.member_id,
                    Ghost(self@),
                );
                let r = subject.purpose == KeyPurpose::Governance && same_bytes(
                    &subject.public_key,
                    &key.public_key,
                ) && same_id(&subject.message, &message);
                assert(r == (signed@.verified_for == Some(
                    SubjectView {
                        purpose: KeyPurpose::Governance,
                        public_key: self@.members[m as int].key.public_key,
                        message: self@.signing_message(*statement, signed@.member_id),
                    },
                )));
                r
            },
        }
    }

    /// Whether two sets stand for the same authorities.
    pub fn matches(&self, other: &AuthoritySet) -> (r: bool)
        ensures
            r == (self@ == other@),
    {
        if self.epoch != other.epoch || self.threshold != other.threshold || self.members.len()
            != other.members.len() {
            assert(self@.members.len() == self.members@.len());
            assert(other@.members.len() == other.members@.len());
            return false;
        }
        let mut i: usize = 0;
        while i < self.members.len()
            invariant
                self.members@.len() == other.members@.len(),
                i <= self.members@.len(),
                forall|k: int| 0 <= k < i ==> self@.members[k] == other@.members[k],
            decreases self.members@.len() - i,
        {
            let a = &self.members[i];
            let b = &other.members[i];
            assert(self@.members[i as int] == a@);
            assert(other@.members[i as int] == b@);
            if !same_id(&a.member_id, &b.member_id) || a.key.participant_id != b.key.participant_id
                || a.key.key_id != b.key.key_id || a.key.key_version != b.key.key_version
                || a.key.suite != b.key.suite || a.key.purpose != b.key.purpose || !same_bytes(
                &a.key.public_key,
                &b.key.public_key,
            ) || a.key.passed_record_check != b.key.passed_record_check || !same_bytes(
                &a.key.encoding,
                &b.key.encoding,
            ) {
                return false;
            }
            assert(a@ =~= b@);
            i = i + 1;
        }
        assert(self@ =~= other@);
        true
    }
}

/// What one signer's hybrid key answered to a request to sign.
#[derive(Debug, PartialEq, Eq)]
pub struct SignerReply {
    pub member_id: Identifier,
    /// The public key of the signer.
    pub public_key: Vec<u8>,
    /// The signature over the member's message, or nothing if signing failed.
    pub signature: Option<SignatureBytes>,
}

impl SignerReply {
    /// Whether the reply can stand in an approval of the set: it comes from a
    /// member's key and holds a signature.
    pub open spec fn fits(self, authorities: AuthorityView) -> bool {
        &&& self.signature is Some
        &&& exists|m: int|
            0 <= m < authorities.members.len() && (#[trigger] authorities.members[m]).member_id
                == self.member_id && authorities.members[m].key.public_key == self.public_key@
    }

    /// Whether a signature records this reply under the member's key.
    pub open spec fn recorded_as(self, signed: SignatureView, authorities: AuthorityView) -> bool {
        &&& signed.member_id == self.member_id
        &&& self.signature is Some && signed.signature == self.signature->0@
        &&& signed.verified_for is None
        &&& signed.key_valid_at is None
        &&& exists|m: int|
            0 <= m < authorities.members.len() && (#[trigger] authorities.members[m]).member_id
                == self.member_id && authorities.members[m].key.key_id == signed.key_id
                && authorities.members[m].key.key_version == signed.key_version
    }
}

/// Whether a list of replies can form an approval: each fits the set and no
/// member appears twice.
pub open spec fn replies_fit(replies: Seq<SignerReply>, authorities: AuthorityView) -> bool {
    &&& forall|i: int| 0 <= i < replies.len() ==> (#[trigger] replies[i]).fits(authorities)
    &&& forall|i: int, j: int|
        0 <= i < j < replies.len() ==> (#[trigger] replies[i]).member_id != (
        #[trigger] replies[j]).member_id
}

impl ApprovalView {
    /// Whether the approval is what the replies of signers form for a statement:
    /// one signature for each reply, in order, that nothing was found of yet.
    pub open spec fn assembles(
        self,
        authorities: AuthorityView,
        statement: Digest32,
        replies: Seq<SignerReply>,
    ) -> bool {
        &&& self.version == Version::V1
        &&& self.suite == SuiteId::Ed25519MlDsa65
        &&& self.authority_epoch == authorities.epoch
        &&& self.authority_digest == authorities.digest()
        &&& self.statement_digest == statement
        &&& self.signatures.len() == replies.len()
        &&& forall|i: int|
            0 <= i < replies.len() ==> replies[i].recorded_as(
                #[trigger] self.signatures[i],
                authorities,
            )
    }

    /// Whether the approval is another one with the key service's verdict on
    /// each signature: verified under the signer's key for the message that the
    /// member signs, by a key in force at a time.
    pub open spec fn confirms(
        self,
        signed: ApprovalView,
        authorities: AuthorityView,
        statement: Digest32,
        replies: Seq<SignerReply>,
        now: u64,
    ) -> bool {
        &&& self.signatures.len() == signed.signatures.len()
        &&& self == (ApprovalView { signatures: self.signatures, ..signed })
        &&& forall|i: int|
            0 <= i < self.signatures.len() ==> #[trigger] self.signatures[i] == (SignatureView {
                verified_for: Some(
                    SubjectView {
                        purpose: KeyPurpose::Governance,
                        public_key: replies[i].public_key@,
                        message: authorities.signing_message(statement, replies[i].member_id),
                    },
                ),
                key_valid_at: Some(now),
                ..signed.signatures[i]
            })
    }
}

impl QuorumApproval {
    /// Assembles an approval from the signers' replies. The signatures carry no
    /// verdict until the key service has verified them.
    pub fn sign(
        authorities: &AuthoritySet,
        statement_digest: Digest32,
        replies: &Vec<SignerReply>,
    ) -> (r: Result<Self, DeCcpError>)
        ensures
            !authorities@.valid() ==> r == Err::<Self, DeCcpError>(DeCcpError::InvalidAuthoritySet),
            authorities@.valid() && !replies_fit(replies@, authorities@) ==> r == Err::<
                Self,
                DeCcpError,
            >(DeCcpError::InvalidQuorumApproval),
            authorities@.valid() && replies_fit(replies@, authorities@) ==> r is Ok
                && r->Ok_0@.assembles(authorities@, statement_digest, replies@),
    {
        authorities.validate()?;
        let mut signatures: Vec<AuthoritySignature> = Vec::new();
        let mut i: usize = 0;
        while i < replies.len()
            invariant
                i <= replies@.len(),
                authorities@.valid(),
                signatures@.len() == i,
                forall|k: int| 0 <= k < i ==> (#[trigger] replies@[k]).fits(authorities@),
                forall|k: int, l: int|
                    0 <= k < l < i ==> (#[trigger] replies@[k]).member_id != (
                    #[trigger] replies@[l]).member_id,
                forall|k: int|
                    0 <= k < i ==> replies@[k].recorded_as(
                        (#[trigger] signatures@[k])@,
                        authorities@,
                    ),
            decreases replies@.len() - i,
        {
            let reply = &replies[i];
            let found = authorities.find(&reply.member_id);
            if found.is_none() {
                assert(!replies@[i as int].fits(authorities@));
                return Err(DeCcpError::InvalidQuorumApproval);
            }
            let m: usize = found.unwrap();
            let member = &authorities.members[m];
            assert(authorities@.members[m as int] == member@);
            let mut j: usize = 0;
            while j < i
                invariant
                    j <= i < replies@.len(),
                    authorities@.valid(),
                    *reply == replies@[i as int],
                    forall|k: int|
                        0 <= k < j ==> (#[trigger] replies@[k]).member_id != reply.member_id,
                decreases i - j,
            {
                if same_id(&replies[j].member_id, &reply.member_id) {
                    assert(replies@[j as int].member_id == replies@[i as int].member_id);
                    return Err(DeCcpError::InvalidQuorumApproval);
                }
                j = j + 1;
            }
            assert forall|k: int| 0 <= k < authorities@.members.len() && k != m implies (
            #[trigger] authorities@.members[k]).member_id != reply.member_id by {
                if k < m {
                    assert(authorities@.members[k].distinct_from(authorities@.members[m as int]));
                } else {
                    assert(authorities@.members[m as int].distinct_from(authorities@.members[k]));
                }
            }
            if !same_bytes(&reply.public_key, &member.key.public_key) {
                assert(!replies@[i as int].fits(authorities@));
                return Err(DeCcpError::InvalidQuorumApproval);
            }
            match &reply.signature {
                None => {
                    assert(!replies@[i as int].fits(authorities@));
                    return Err(DeCcpError::InvalidQuorumApproval);
                },
                Some(signature) => {
                    let signed = AuthoritySignature {
                        member_id: reply.member_id,
                        key_id: member.key.key_id.clone(),
                        key_version: member.key.key_version,
                        signature: copy_bytes(signature),
                        verdict: SignatureVerdict { verified_for: None, key_valid_at: None },
                    };
                    assert(replies@[i as int].fits(authorities@));
                    assert(replies@[i as int].recorded_as(signed@, authorities@));
                    signatures.push(signed);
                },
            }
            i = i + 1;
        }
        let r = QuorumApproval {
            version: Version::V1,
            suite: SuiteId::Ed25519MlDsa65,
            authority_epoch: authorities.epoch,
            authority_digest: authorities.digest_unchecked(),
            statement_digest,
            signatures,
        };
        assert forall|k: int| 0 <= k < replies@.len() implies replies@[k].recorded_as(
            #[trigger] r@.signatures[k],
            authorities@,
        ) by {
            assert(r@.signatures[k] == signatures@[k]@);
        }
        Ok(r)
    }
}

} // verus!
