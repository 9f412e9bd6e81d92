//! Laws of restoring: what a snapshot of a valid book gives back, and what a
//! restored book has passed.

use vstd::prelude::*;

use crate::authority::{ApprovalView, AuthorityView};
use crate::book::BookState;
use crate::error::DeCcpError;
use crate::ident::Identifier;
use crate::json::{hex, is_hex_key, lemma_hex_injective, lemma_hex_shape};
use crate::laws::encoding::lemma_state_text;
use crate::transcript::{bytes_of, lemma_big_endian_length, sha256_of};

verus! {

/// A valid book restores to itself: with its own authority set trusted and a
/// quorum's approval of its digest, restoring gives exactly its state back.
pub proof fn law_valid_book_restores(book: BookState, approval: ApprovalView)
    requires
        book.valid(),
        book.authorities.refusal(book.digest(), approval, None) is None,
    ensures
        book.restored(book.authorities, approval) == Ok::<BookState, DeCcpError>(book),
{
    book.lemma_valid_without_defect();
}

/// Restoring fails closed: it succeeds only for a state that names the trusted
/// authority set, whose digest a quorum of that set approved, and that satisfies
/// every structural invariant; and it then gives exactly that state.
pub proof fn law_restore_fails_closed(
    book: BookState,
    trusted: AuthorityView,
    approval: ApprovalView,
)
    requires
        book.finite(),
    ensures
        book.restored(trusted, approval) is Ok <==> {
            &&& book.authorities == trusted
            &&& trusted.refusal(book.digest(), approval, None) is None
            &&& book.valid()
        },
        book.restored(trusted, approval) is Ok ==> {
            &&& book.restored(trusted, approval)->Ok_0 == book
            &&& approval.statement_digest == book.digest()
        },
{
    book.lemma_valid_without_defect();
}

/// A state is restored only under its own authority set: any other trusted set
/// is refused as such.
pub proof fn law_other_authorities_are_refused(
    book: BookState,
    trusted: AuthorityView,
    approval: ApprovalView,
)
    requires
        trusted != book.authorities,
    ensures
        book.restored(trusted, approval) == Err::<BookState, DeCcpError>(
            DeCcpError::InvalidAuthoritySet,
        ),
{
}

/// The digest covers every field: two states with the same authorities and the
/// same canonical text are the same state.
pub proof fn law_text_determines_state(a: BookState, b: BookState)
    requires
        a.finite_throughout(),
        b.finite_throughout(),
        a.authorities == b.authorities,
        a.encoding() == b.encoding(),
    ensures
        a == b,
{
    lemma_state_text(a, b);
}

/// A tampered snapshot is refused: with an approval of one state, a state that
/// differs from it in any field but its authorities is answered with an invalid
/// approval, unless the two have different digest texts with the same SHA-256
/// value.
pub proof fn law_tampered_snapshot_is_refused(
    book: BookState,
    tampered: BookState,
    approval: ApprovalView,
)
    requires
        book.finite_throughout(),
        tampered.finite_throughout(),
        book.authorities.refusal(book.digest(), approval, None) is None,
        tampered.authorities == book.authorities,
        tampered != book,
    ensures
        ({
            ||| tampered.restored(book.authorities, approval) == Err::<BookState, DeCcpError>(
                DeCcpError::InvalidQuorumApproval,
            )
            ||| tampered.digest_text() != book.digest_text() && sha256_of(tampered.digest_text())
                == sha256_of(book.digest_text())
        }),
{
    if tampered.digest_text() == book.digest_text() {
        let tag = bytes_of("DECCP:SNAPSHOT:v1").len() as int;
        lemma_big_endian_length(tampered.encoding().len() as u64 as nat, 8);
        lemma_big_endian_length(book.encoding().len() as u64 as nat, 8);
        assert(tampered.encoding() =~= tampered.digest_text().skip(tag + 8));
        assert(book.encoding() =~= book.digest_text().skip(tag + 8));
        law_text_determines_state(tampered, book);
    }
}

/// Persisted keys round-trip: the key of an identifier is a valid key, and no
/// two identifiers share one.
pub proof fn law_keys_round_trip(a: Identifier, b: Identifier)
    ensures
        is_hex_key(hex(a@)),
        hex(a@) == hex(b@) ==> a == b,
{
    lemma_hex_shape(a@);
    if hex(a@) == hex(b@) {
        lemma_hex_injective(a@, b@);
        assert(a =~= b) by {
            assert forall|i: int| 0 <= i < 32 implies a[i] == b[i] by {
                assert(a@[i] == b@[i]);
            }
        }
    }
}

} // verus!
