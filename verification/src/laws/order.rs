//! Laws of order: what putting a batch in order means, and that the order of
//! submission does not matter to a close.

use vstd::prelude::*;

use crate::book::BookState;
use crate::cycles::{ClearingObligation, CycleView};
use crate::ident::{ascending, lemma_rank_injective, rank, Digest32, Identifier};
use crate::laws::validity::law_submission_keeps_valid;
use crate::netting::{
    digest_placed, digests_in_order, obligation_placed, obligations_in_order, risk_debits,
};

verus! {

/// Whether digests ascend in byte order.
pub open spec fn digests_ascend(s: Seq<Digest32>) -> bool {
    forall|i: int, j: int|
        0 <= i < j < s.len() ==> rank(#[trigger] s[i]) <= rank(#[trigger] s[j])
}

proof fn lemma_digest_placed(s: Seq<Digest32>, x: Digest32)
    ensures
        digest_placed(s, x).to_multiset() == s.to_multiset().insert(x),
    decreases s.len(),
{
    s.to_multiset_ensures();
    if s.len() > 0 && rank(s.last()) > rank(x) {
        let rest = s.drop_last();
        lemma_digest_placed(rest, x);
        rest.to_multiset_ensures();
        digest_placed(rest, x).to_multiset_ensures();
        assert(rest.push(s.last()) =~= s);
        assert(rest.to_multiset().insert(x).insert(s.last()) =~= rest.to_multiset().insert(
            s.last(),
        ).insert(x));
    }
}

proof fn lemma_digest_placed_below(s: Seq<Digest32>, x: Digest32, bound: nat)
    requires
        forall|i: int| 0 <= i < s.len() ==> rank(#[trigger] s[i]) <= bound,
        rank(x) <= bound,
    ensures
        forall|i: int|
            0 <= i < digest_placed(s, x).len() ==> rank(
                #[trigger] digest_placed(s, x)[i],
            ) <= bound,
    decreases s.len(),
{
    let t = digest_placed(s, x);
    if s.len() > 0 && rank(s.last()) > rank(x) {
        let before = digest_placed(s.drop_last(), x);
        lemma_digest_placed_below(s.drop_last(), x, bound);
        assert forall|i: int| 0 <= i < t.len() implies rank(#[trigger] t[i]) <= bound by {
            if i < before.len() {
                assert(rank(before[i]) <= bound);
            } else {
                assert(rank(s[s.len() - 1]) <= bound);
            }
        }
    } else {
        assert forall|i: int| 0 <= i < t.len() implies rank(#[trigger] t[i]) <= bound by {
            if i < s.len() {
                assert(rank(s[i]) <= bound);
            }
        }
    }
}

proof fn lemma_digest_placed_ascends(s: Seq<Digest32>, x: Digest32)
    requires
        digests_ascend(s),
    ensures
        digests_ascend(digest_placed(s, x)),
    decreases s.len(),
{
    let t = digest_placed(s, x);
    if s.len() > 0 && rank(s.last()) > rank(x) {
        let rest = s.drop_last();
        let before = digest_placed(rest, x);
        lemma_digest_placed_ascends(rest, x);
        assert forall|i: int| 0 <= i < rest.len() implies rank(#[trigger] rest[i]) <= rank(
            s.last(),
        ) by {
            assert(rank(s[i]) <= rank(s[s.len() - 1]));
        }
        lemma_digest_placed_below(rest, x, rank(s.last()));
        assert forall|i: int, j: int| 0 <= i < j < t.len() implies rank(#[trigger] t[i])
            <= rank(#[trigger] t[j]) by {
            assert(t[i] == before[i]);
            if j < before.len() {
                assert(t[j] == before[j]);
            }
        }
    } else {
        assert forall|i: int, j: int| 0 <= i < j < t.len() implies rank(#[trigger] t[i])
            <= rank(#[trigger] t[j]) by {
            assert(t[i] == s[i]);
            if j < s.len() {
                assert(t[j] == s[j]);
            } else if i < s.len() - 1 {
                assert(rank(s[i]) <= rank(s[s.len() - 1]));
            }
        }
    }
}

/// Digests in order are the same digests, ascending.
pub proof fn law_digests_in_order(s: Seq<Digest32>)
    ensures
        digests_in_order(s).to_multiset() == s.to_multiset(),
        digests_ascend(digests_in_order(s)),
    decreases s.len(),
{
    if s.len() > 0 {
        let rest = s.drop_last();
        law_digests_in_order(rest);
        lemma_digest_placed(digests_in_order(rest), s.last());
        lemma_digest_placed_ascends(digests_in_order(rest), s.last());
        rest.to_multiset_ensures();
        assert(rest.push(s.last()) =~= s);
    }
}

/// Whether obligations ascend by identifier.
pub open spec fn obligations_ascend(s: Seq<ClearingObligation>) -> bool {
    forall|i: int, j: int|
        0 <= i < j < s.len() ==> rank((#[trigger] s[i]).obligation_id) <= rank((#[trigger] s[j]).obligation_id)
}

proof fn lemma_obligation_placed(s: Seq<ClearingObligation>, x: ClearingObligation)
    ensures
        obligation_placed(s, x).to_multiset() == s.to_multiset().insert(x),
    decreases s.len(),
{
    s.to_multiset_ensures();
    if s.len() > 0 && rank(s.last().obligation_id) > rank(x.obligation_id) {
        let rest = s.drop_last();
        lemma_obligation_placed(rest, x);
        rest.to_multiset_ensures();
        obligation_placed(rest, x).to_multiset_ensures();
        assert(rest.push(s.last()) =~= s);
        assert(rest.to_multiset().insert(x).insert(s.last()) =~= rest.to_multiset().insert(
            s.last(),
        ).insert(x));
    }
}

proof fn lemma_obligation_placed_below(s: Seq<ClearingObligation>, x: ClearingObligation, bound: nat)
    requires
        forall|i: int| 0 <= i < s.len() ==> rank((#[trigger] s[i]).obligation_id) <= bound,
        rank(x.obligation_id) <= bound,
    ensures
        forall|i: int|
            0 <= i < obligation_placed(s, x).len() ==> rank(
                (#[trigger] obligation_placed(s, x)[i]).obligation_id,
            ) <= bound,
    decreases s.len(),
{
    let t = obligation_placed(s, x);
    if s.len() > 0 && rank(s.last().obligation_id) > rank(x.obligation_id) {
        let before = obligation_placed(s.drop_last(), x);
        lemma_obligation_placed_below(s.drop_last(), x, bound);
        assert forall|i: int| 0 <= i < t.len() implies rank((#[trigger] t[i]).obligation_id) <= bound by {
            if i < before.len() {
                assert(rank(before[i].obligation_id) <= bound);
            } else {
                assert(rank(s[s.len() - 1].obligation_id) <= bound);
            }
        }
    } else {
        assert forall|i: int| 0 <= i < t.len() implies rank((#[trigger] t[i]).obligation_id) <= bound by {
            if i < s.len() {
                assert(rank(s[i].obligation_id) <= bound);
            }
        }
    }
}

proof fn lemma_obligation_placed_ascends(s: Seq<ClearingObligation>, x: ClearingObligation)
    requires
        obligations_ascend(s),
    ensures
        obligations_ascend(obligation_placed(s, x)),
    decreases s.len(),
{
    let t = obligation_placed(s, x);
    if s.len() > 0 && rank(s.last().obligation_id) > rank(x.obligation_id) {
        let rest = s.drop_last();
        let before = obligation_placed(rest, x);
        lemma_obligation_placed_ascends(rest, x);
        assert forall|i: int| 0 <= i < rest.len() implies rank((#[trigger] rest[i]).obligation_id) <= rank(
            s.last().obligation_id,
        ) by {
            assert(rank(s[i].obligation_id) <= rank(s[s.len() - 1].obligation_id));
        }
        lemma_obligation_placed_below(rest, x, rank(s.last().obligation_id));
        assert forall|i: int, j: int| 0 <= i < j < t.len() implies rank((#[trigger] t[i]).obligation_id)
            <= rank((#[trigger] t[j]).obligation_id) by {
            assert(t[i] == before[i]);
            if j < before.len() {
                assert(t[j] == before[j]);
            }
        }
    } else {
        assert forall|i: int, j: int| 0 <= i < j < t.len() implies rank((#[trigger] t[i]).obligation_id)
            <= rank((#[trigger] t[j]).obligation_id) by {
            assert(t[i] == s[i]);
            if j < s.len() {
                assert(t[j] == s[j]);
            } else if i < s.len() - 1 {
                assert(rank(s[i].obligation_id) <= rank(s[s.len() - 1].obligation_id));
            }
        }
    }
}

/// Obligations in order are the same obligations, ascending by identifier.
pub proof fn law_obligations_in_order(s: Seq<ClearingObligation>)
    ensures
        obligations_in_order(s).to_multiset() == s.to_multiset(),
        obligations_ascend(obligations_in_order(s)),
    decreases s.len(),
{
    if s.len() > 0 {
        let rest = s.drop_last();
        law_obligations_in_order(rest);
        lemma_obligation_placed(obligations_in_order(rest), s.last());
        lemma_obligation_placed_ascends(obligations_in_order(rest), s.last());
        rest.to_multiset_ensures();
        assert(rest.push(s.last()) =~= s);
    }
}

/// The order of digests is determined by which digests there are.
pub proof fn law_order_is_unique(a: Seq<Digest32>, b: Seq<Digest32>)
    requires
        a.to_multiset() == b.to_multiset(),
    ensures
        digests_in_order(a) == digests_in_order(b),
{
    law_digests_in_order(a);
    law_digests_in_order(b);
    let leq = |x: Digest32, y: Digest32| rank(x) <= rank(y);
    assert forall|x: Digest32, y: Digest32| #[trigger] leq(x, y) && #[trigger] leq(y, x) implies x
        == y by {
        lemma_rank_injective(x, y);
    }
    assert(vstd::relations::sorted_by(digests_in_order(a), leq));
    assert(vstd::relations::sorted_by(digests_in_order(b), leq));
    assert(vstd::relations::total_ordering(leq));
    vstd::seq_lib::lemma_sorted_unique(digests_in_order(a), digests_in_order(b), leq);
}

/// Whether a list holds only obligations that stand under their identifiers.
spec fn all_filed(ids: Seq<Identifier>, filed: Map<Identifier, ClearingObligation>) -> bool {
    forall|i: int| 0 <= i < ids.len() ==> filed[#[trigger] ids[i]].obligation_id == ids[i]
}

proof fn lemma_placing_commutes(
    ids: Seq<Identifier>,
    x: Identifier,
    filed: Map<Identifier, ClearingObligation>,
)
    requires
        all_filed(ids, filed),
        filed[x].obligation_id == x,
    ensures
        obligation_placed(ids.map_values(|id: Identifier| filed[id]), filed[x]) == digest_placed(
            ids,
            x,
        ).map_values(|id: Identifier| filed[id]),
    decreases ids.len(),
{
    let look = |id: Identifier| filed[id];
    let records = ids.map_values(look);
    if ids.len() == 0 {
        assert(records.push(filed[x]) =~= ids.push(x).map_values(look));
    } else {
        assert(filed[ids[ids.len() - 1]].obligation_id == ids[ids.len() - 1]);
        if rank(ids.last()) <= rank(x) {
            assert(records.push(filed[x]) =~= ids.push(x).map_values(look));
        } else {
            let rest = ids.drop_last();
            assert forall|i: int| 0 <= i < rest.len() implies filed[#[trigger] rest[i]].obligation_id
                == rest[i] by {
                assert(filed[ids[i]].obligation_id == ids[i]);
            }
            lemma_placing_commutes(rest, x, filed);
            assert(records.drop_last() =~= rest.map_values(look));
            assert(digest_placed(rest, x).push(ids.last()).map_values(look) =~= digest_placed(
                rest,
                x,
            ).map_values(look).push(filed[ids.last()]));
        }
    }
}

proof fn lemma_ordering_commutes(ids: Seq<Identifier>, filed: Map<Identifier, ClearingObligation>)
    requires
        all_filed(ids, filed),
    ensures
        obligations_in_order(ids.map_values(|id: Identifier| filed[id])) == digests_in_order(
            ids,
        ).map_values(|id: Identifier| filed[id]),
    decreases ids.len(),
{
    let look = |id: Identifier| filed[id];
    let records = ids.map_values(look);
    if ids.len() == 0 {
        assert(records =~= digests_in_order(ids).map_values(look));
    } else {
        let rest = ids.drop_last();
        assert forall|i: int| 0 <= i < rest.len() implies filed[#[trigger] rest[i]].obligation_id
            == rest[i] by {
            assert(filed[ids[i]].obligation_id == ids[i]);
        }
        lemma_ordering_commutes(rest, filed);
        assert(records.drop_last() =~= rest.map_values(look));
        let ordered = digests_in_order(rest);
        law_digests_in_order(rest);
        ordered.to_multiset_ensures();
        rest.to_multiset_ensures();
        assert forall|i: int| 0 <= i < ordered.len() implies filed[#[trigger] ordered[i]].obligation_id
            == ordered[i] by {
            assert(ordered.contains(ordered[i]));
            assert(ordered.to_multiset().count(ordered[i]) > 0);
            assert(rest.contains(ordered[i]));
        }
        assert(filed[ids[ids.len() - 1]].obligation_id == ids[ids.len() - 1]);
        lemma_placing_commutes(ordered, ids.last(), filed);
    }
}

proof fn lemma_margin_refusal_of(
    a: BookState,
    b: BookState,
    members: Seq<Identifier>,
    debits: Map<Identifier, u128>,
)
    requires
        a.margins == b.margins,
    ensures
        a.margin_refusal(members, debits) == b.margin_refusal(members, debits),
    decreases members.len(),
{
    if members.len() > 0 {
        lemma_margin_refusal_of(a, b, members.drop_last(), debits);
    }
}

/// The state with the obligations of a cycle listed in another order.
pub open spec fn listed_as(
    book: BookState,
    cycle_id: Identifier,
    order: Seq<Identifier>,
) -> BookState {
    BookState {
        cycles: book.cycles.insert(
            cycle_id,
            CycleView { obligations: order, ..book.cycles[cycle_id] },
        ),
        ..book
    }
}

/// The order of submission does not matter: a cycle of a valid book closes the
/// same way in whatever order its obligations are listed.
pub proof fn law_listing_order_is_irrelevant(
    book: BookState,
    cycle_id: Identifier,
    order: Seq<Identifier>,
)
    requires
        book.valid(),
        book.cycles.contains_key(cycle_id),
        order.to_multiset() == book.cycles[cycle_id].obligations.to_multiset(),
    ensures
        listed_as(book, cycle_id, order).closing(cycle_id) == book.closing(cycle_id),
{
    let other = listed_as(book, cycle_id, order);
    let ids = book.cycles[cycle_id].obligations;
    let filed = book.obligations;
    assert(book.cycle_sound(cycle_id));
    ids.to_multiset_ensures();
    order.to_multiset_ensures();
    assert forall|i: int| 0 <= i < ids.len() implies filed.contains_key(#[trigger] ids[i])
        && filed[ids[i]].obligation_id == ids[i] by {
        assert(book.obligation_listed(ids[i]));
    }
    assert forall|i: int| 0 <= i < order.len() implies filed.contains_key(#[trigger] order[i])
        && filed[order[i]].obligation_id == order[i] by {
        assert(order.contains(order[i]));
        assert(order.to_multiset().count(order[i]) > 0);
        assert(ids.contains(order[i]));
        let j = choose|j: int| 0 <= j < ids.len() && ids[j] == order[i];
        assert(filed.contains_key(ids[j]));
    }
    lemma_ordering_commutes(ids, filed);
    lemma_ordering_commutes(order, filed);
    law_order_is_unique(ids, order);
    assert(ids.map_values(|id: Identifier| book.obligations[id]) =~= ids.map_values(
        |id: Identifier| filed[id],
    ));
    assert(order.map_values(|id: Identifier| other.obligations[id]) =~= order.map_values(
        |id: Identifier| filed[id],
    ));
    let batch = book.batch(book.cycles[cycle_id]);
    assert(other.batch(other.cycles[cycle_id]) == batch);
    let debits = risk_debits(batch, book.cycles[cycle_id].mode);
    lemma_margin_refusal_of(other, book, ascending(debits.dom()), debits);
}

/// Submissions commute: two obligations of a cycle that are accepted one after
/// the other are accepted the other way round, too, and the cycle then closes the
/// same way.
pub proof fn law_submissions_commute(
    book: BookState,
    x: ClearingObligation,
    y: ClearingObligation,
    now: u64,
)
    requires
        book.valid(),
        book.submission_refusal(x, now) is None,
        book.submission_refusal(y, now) is None,
        x.cycle_id == y.cycle_id,
        book.obligation_submitted(x, Ok(())).0 is Ok,
        book.obligation_submitted(x, Ok(())).1.obligation_submitted(y, Ok(())).0 is Ok,
    ensures
        ({
            let one = book.obligation_submitted(x, Ok(())).1.obligation_submitted(y, Ok(()));
            let first = book.obligation_submitted(y, Ok(()));
            let two = first.1.obligation_submitted(x, Ok(()));
            &&& first.0 is Ok
            &&& two.0 is Ok
            &&& two.1.closing(x.cycle_id) == one.1.closing(x.cycle_id)
        }),
{
    let c = x.cycle_id;
    let middle = book.obligation_submitted(x, Ok(())).1;
    let one = middle.obligation_submitted(y, Ok(())).1;
    let two = book.obligation_submitted(y, Ok(())).1.obligation_submitted(x, Ok(())).1;
    law_submission_keeps_valid(book, x, Ok(()), now);
    assert(middle.submission_refusal(y, now) is None);
    law_submission_keeps_valid(middle, y, Ok(()), now);
    let ids = book.cycles[c].obligations;
    let order = ids.push(y.obligation_id).push(x.obligation_id);
    assert(one.cycles[c].obligations == ids.push(x.obligation_id).push(y.obligation_id));
    ids.to_multiset_ensures();
    ids.push(x.obligation_id).to_multiset_ensures();
    ids.push(y.obligation_id).to_multiset_ensures();
    assert(order.to_multiset() =~= one.cycles[c].obligations.to_multiset());
    law_listing_order_is_irrelevant(one, c, order);
    assert(two.cycles =~= listed_as(one, c, order).cycles);
    assert(two.obligations =~= one.obligations);
    assert(two.used_operations =~= one.used_operations);
    assert(two == listed_as(one, c, order));
}

} // verus!
