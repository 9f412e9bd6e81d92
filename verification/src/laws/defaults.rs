//! Laws of the loss waterfall: it covers the loss exactly, layer by layer, and
//! committing it takes exactly what was drawn.

use vstd::prelude::*;

use crate::authority::ApprovalView;
use crate::book::BookState;
use crate::default_ops::{drawn, uncovered};
use crate::defaults::{DefaultSourceKind, ResolutionView, WaterfallDraw};
use crate::error::DeCcpError;
use crate::guarantees::DefmiSettlementReceipt;
use crate::ident::{ascending, is_ascending, lemma_ascending_exists, rank, Identifier};

verus! {

/// The sum of what draws take.
pub open spec fn drawn_total(draws: Seq<WaterfallDraw>) -> int
    decreases draws.len(),
{
    if draws.len() == 0 {
        0
    } else {
        drawn_total(draws.drop_last()) + draws.last().amount
    }
}

/// What draws take from a member's margin.
pub open spec fn margin_drawn(draws: Seq<WaterfallDraw>, member: Identifier) -> int
    decreases draws.len(),
{
    if draws.len() == 0 {
        0
    } else {
        margin_drawn(draws.drop_last(), member) + (if draws.last().source_kind
            == DefaultSourceKind::DefaulterMargin && draws.last().participant_id == Some(member) {
            draws.last().amount as int
        } else {
            0
        })
    }
}

/// What draws take from a member's default-fund contribution.
pub open spec fn fund_drawn(draws: Seq<WaterfallDraw>, member: Identifier) -> int
    decreases draws.len(),
{
    if draws.len() == 0 {
        0
    } else {
        fund_drawn(draws.drop_last(), member) + (if is_fund(draws.last().source_kind)
            && draws.last().participant_id == Some(member) {
            draws.last().amount as int
        } else {
            0
        })
    }
}

/// Whether a layer draws on default-fund contributions.
pub open spec fn is_fund(kind: DefaultSourceKind) -> bool {
    kind == DefaultSourceKind::DefaulterFund || kind == DefaultSourceKind::MutualizedFund
}

/// What draws take from the counterparty's own capital.
pub open spec fn capital_drawn(draws: Seq<WaterfallDraw>) -> int
    decreases draws.len(),
{
    if draws.len() == 0 {
        0
    } else {
        capital_drawn(draws.drop_last()) + (if draws.last().source_kind
            == DefaultSourceKind::CcpCapital {
            draws.last().amount as int
        } else {
            0
        })
    }
}

proof fn lemma_uncovered_in_range(sources: Seq<WaterfallDraw>, loss: int)
    requires
        0 <= loss <= u128::MAX,
    ensures
        0 <= uncovered(sources, loss) <= loss,
    decreases sources.len(),
{
    if sources.len() > 0 {
        lemma_uncovered_in_range(sources.drop_last(), loss);
    }
}

proof fn lemma_drawn_total(sources: Seq<WaterfallDraw>, loss: int)
    requires
        0 <= loss <= u128::MAX,
    ensures
        drawn_total(drawn(sources, loss)) + uncovered(sources, loss) == loss,
    decreases sources.len(),
{
    if sources.len() > 0 {
        let rest = sources.drop_last();
        lemma_drawn_total(rest, loss);
        lemma_uncovered_in_range(rest, loss);
        let open = uncovered(rest, loss);
        let amount = if sources.last().amount <= open {
            sources.last().amount as int
        } else {
            open
        };
        if amount > 0 {
            let draw = WaterfallDraw { amount: amount as u128, ..sources.last() };
            assert(drawn(rest, loss).push(draw).drop_last() =~= drawn(rest, loss));
        }
    }
}

/// The draws of a resolution add up to the loss, no more and no less.
pub proof fn law_draws_cover_the_loss(book: BookState, case_id: Identifier, shortfall: u128)
    requires
        book.resolution(case_id, shortfall) is Ok,
    ensures
        drawn_total(book.resolution(case_id, shortfall)->Ok_0.draws) == shortfall,
{
    let sources = book.waterfall(book.defaults[case_id].evidence.participant_id);
    lemma_drawn_total(sources, shortfall as int);
}

/// The sum of what sources have.
pub open spec fn available_total(sources: Seq<WaterfallDraw>) -> int
    decreases sources.len(),
{
    if sources.len() == 0 {
        0
    } else {
        available_total(sources.drop_last()) + sources.last().amount
    }
}

proof fn lemma_uncovered_is_excess(sources: Seq<WaterfallDraw>, loss: int)
    requires
        0 <= loss,
    ensures
        uncovered(sources, loss) == (if available_total(sources) <= loss {
            loss - available_total(sources)
        } else {
            0
        }),
        available_total(sources) >= 0,
    decreases sources.len(),
{
    if sources.len() > 0 {
        lemma_uncovered_is_excess(sources.drop_last(), loss);
    }
}

/// The waterfall is exhausted exactly if the loss exceeds everything that its
/// sources have.
pub proof fn law_exhausted_when_loss_exceeds_resources(
    book: BookState,
    case_id: Identifier,
    shortfall: u128,
)
    requires
        book.defaults.contains_key(case_id),
        book.defaults[case_id].resolution is None,
        book.ccp_capital_valid_until >= book.defaults[case_id].declared_at,
        book.margins.contains_key(book.defaults[case_id].evidence.participant_id),
        book.participants.contains_key(book.defaults[case_id].evidence.participant_id),
        shortfall != 0,
    ensures
        book.resolution(case_id, shortfall) is Err <==> shortfall > available_total(
            book.waterfall(book.defaults[case_id].evidence.participant_id),
        ),
        book.resolution(case_id, shortfall) is Err ==> book.resolution(case_id, shortfall)->Err_0
            == DeCcpError::WaterfallExhausted,
{
    lemma_uncovered_is_excess(
        book.waterfall(book.defaults[case_id].evidence.participant_id),
        shortfall as int,
    );
}

/// A source is drawn on only once every source before it is used up, and never
/// for more than it has: when a draw from the source at `k` is needed, all
/// sources before it have been drawn in full.
pub proof fn law_layers_are_drawn_in_order(sources: Seq<WaterfallDraw>, loss: int, k: int)
    requires
        0 <= loss <= u128::MAX,
        0 <= k < sources.len(),
        drawn(sources.take(k + 1), loss).len() > drawn(sources.take(k), loss).len(),
    ensures
        available_total(sources.take(k)) < loss,
        uncovered(sources.take(k), loss) == loss - available_total(sources.take(k)),
        drawn(sources.take(k + 1), loss).last().source_kind == sources[k].source_kind,
        drawn(sources.take(k + 1), loss).last().participant_id == sources[k].participant_id,
        drawn(sources.take(k + 1), loss).last().amount <= sources[k].amount,
{
    assert(sources.take(k + 1).drop_last() =~= sources.take(k));
    assert(sources.take(k + 1).last() == sources[k]);
    lemma_uncovered_is_excess(sources.take(k), loss);
    lemma_uncovered_in_range(sources.take(k), loss);
}

proof fn lemma_mutual_kinds(book: BookState, keys: Seq<Identifier>, defaulter: Identifier)
    ensures
        forall|i: int|
            0 <= i < book.mutual_sources(keys, defaulter).len() ==> (
            #[trigger] book.mutual_sources(keys, defaulter)[i]).source_kind
                == DefaultSourceKind::MutualizedFund,
    decreases keys.len(),
{
    if keys.len() > 0 {
        lemma_mutual_kinds(book, keys.drop_last(), defaulter);
        let before = book.mutual_sources(keys.drop_last(), defaulter);
        let all = book.mutual_sources(keys, defaulter);
        assert forall|i: int| 0 <= i < all.len() implies (#[trigger] all[i]).source_kind
            == DefaultSourceKind::MutualizedFund by {
            if i < before.len() {
                assert(all[i] == before[i]);
            }
        }
    }
}

/// The waterfall has its layers in order: the defaulter's margin first, then the
/// defaulter's fund, then only other members' funds, and the counterparty's own
/// capital last.
pub proof fn law_waterfall_order(book: BookState, defaulter: Identifier, i: int)
    requires
        0 <= i < book.waterfall(defaulter).len(),
    ensures
        book.waterfall(defaulter)[i].source_kind == (if i == 0 {
            DefaultSourceKind::DefaulterMargin
        } else if i == 1 {
            DefaultSourceKind::DefaulterFund
        } else if i < book.waterfall(defaulter).len() - 1 {
            DefaultSourceKind::MutualizedFund
        } else {
            DefaultSourceKind::CcpCapital
        }),
{
    let mutual = book.mutual_sources(ascending(book.participants.dom()), defaulter);
    lemma_mutual_kinds(book, ascending(book.participants.dom()), defaulter);
    assert(book.own_sources(defaulter).len() == 2);
    if 2 <= i < book.waterfall(defaulter).len() - 1 {
        assert(book.waterfall(defaulter)[i] == mutual[i - 2]);
    }
}

/// Taking draws lowers each balance by exactly what was drawn on it.
pub proof fn law_draws_lower_balances(
    book: BookState,
    draws: Seq<WaterfallDraw>,
    member: Identifier,
)
    requires
        book.draws_applied(draws).0 is Ok,
    ensures
        ({
            let after = book.draws_applied(draws).1;
            &&& after.margins.dom() == book.margins.dom()
            &&& after.participants.dom() == book.participants.dom()
            &&& after.ccp_capital_remaining == book.ccp_capital_remaining - capital_drawn(draws)
            &&& book.margins.contains_key(member)
                ==> after.margins[member].encumbered_collateral
                == book.margins[member].encumbered_collateral - margin_drawn(draws, member)
            &&& book.participants.contains_key(member)
                ==> after.participants[member].default_fund_remaining
                == book.participants[member].default_fund_remaining - fund_drawn(draws, member)
        }),
    decreases draws.len(),
{
    if draws.len() > 0 {
        let rest = draws.drop_last();
        law_draws_lower_balances(book, rest, member);
        let before = book.draws_applied(rest).1;
        let after = book.draws_applied(draws).1;
        assert(after.margins.dom() =~= before.margins.dom());
        assert(after.participants.dom() =~= before.participants.dom());
        assert(before.margins.contains_key(member) == book.margins.contains_key(member)) by {
            assert(before.margins.dom().contains(member) == book.margins.dom().contains(member));
        }
        assert(before.participants.contains_key(member) == book.participants.contains_key(member))
            by {
            assert(before.participants.dom().contains(member) == book.participants.dom().contains(
                member,
            ));
        }
    }
}

proof fn lemma_joined_offers(
    a: Seq<WaterfallDraw>,
    b: Seq<WaterfallDraw>,
    member: Identifier,
)
    ensures
        fund_drawn(a + b, member) == fund_drawn(a, member) + fund_drawn(b, member),
        margin_drawn(a + b, member) == margin_drawn(a, member) + margin_drawn(b, member),
        capital_drawn(a + b) == capital_drawn(a) + capital_drawn(b),
    decreases b.len(),
{
    if b.len() == 0 {
        assert(a + b =~= a);
    } else {
        assert((a + b).drop_last() =~= a + b.drop_last());
        lemma_joined_offers(a, b.drop_last(), member);
    }
}

/// What other members' funds offer: each its own balance, once.
proof fn lemma_mutual_offers(
    book: BookState,
    keys: Seq<Identifier>,
    defaulter: Identifier,
    member: Identifier,
)
    requires
        is_ascending(keys),
        forall|i: int|
            0 <= i < keys.len() ==> book.participants[#[trigger] keys[i]].participant_id == keys[i],
    ensures
        margin_drawn(book.mutual_sources(keys, defaulter), member) == 0,
        capital_drawn(book.mutual_sources(keys, defaulter)) == 0,
        0 <= fund_drawn(book.mutual_sources(keys, defaulter), member) <= (if keys.contains(member)
            && member != defaulter {
            book.participants[member].default_fund_remaining as int
        } else {
            0
        }),
    decreases keys.len(),
{
    if keys.len() > 0 {
        let rest = keys.drop_last();
        assert forall|i: int| 0 <= i < rest.len() implies
            book.participants[#[trigger] rest[i]].participant_id == rest[i] by {
            assert(rest[i] == keys[i]);
        }
        lemma_mutual_offers(book, rest, defaulter, member);
        let before = book.mutual_sources(rest, defaulter);
        let all = book.mutual_sources(keys, defaulter);
        let last = keys[keys.len() - 1];
        assert(book.participants[last].participant_id == last);
        if all != before {
            assert(all.drop_last() =~= before);
        }
        if rest.contains(member) {
            let i = choose|i: int| 0 <= i < rest.len() && rest[i] == member;
            assert(keys[i] == member);
            assert(rank(keys[i]) < rank(last));
        }
        if last == member {
            assert(keys.contains(member));
        }
    }
}

/// Draws take no more from an account than the sources offer from it.
proof fn lemma_draws_within_offers(
    sources: Seq<WaterfallDraw>,
    loss: int,
    member: Identifier,
)
    requires
        0 <= loss <= u128::MAX,
    ensures
        fund_drawn(drawn(sources, loss), member) <= fund_drawn(sources, member),
        margin_drawn(drawn(sources, loss), member) <= margin_drawn(sources, member),
        capital_drawn(drawn(sources, loss)) <= capital_drawn(sources),
    decreases sources.len(),
{
    if sources.len() > 0 {
        let rest = sources.drop_last();
        lemma_draws_within_offers(rest, loss, member);
        lemma_uncovered_in_range(rest, loss);
        let open = uncovered(rest, loss);
        let amount = if sources.last().amount <= open {
            sources.last().amount as int
        } else {
            open
        };
        if amount > 0 {
            let draw = WaterfallDraw { amount: amount as u128, ..sources.last() };
            assert(drawn(rest, loss).push(draw).drop_last() =~= drawn(rest, loss));
        }
    }
}

/// Whether draws name accounts that exist and take no more from any of them
/// than it holds.
spec fn payable(book: BookState, draws: Seq<WaterfallDraw>) -> bool {
    &&& capital_drawn(draws) <= book.ccp_capital_remaining
    &&& forall|i: int|
        0 <= i < draws.len() ==> {
            let d = #[trigger] draws[i];
            &&& d.source_kind == DefaultSourceKind::DefaulterMargin ==> d.participant_id is Some
                && book.margins.contains_key(d.participant_id->0)
            &&& is_fund(d.source_kind) ==> d.participant_id is Some
                && book.participants.contains_key(d.participant_id->0)
        }
    &&& forall|m: Identifier| #[trigger]
        book.margins.contains_key(m) ==> margin_drawn(draws, m)
            <= book.margins[m].encumbered_collateral
    &&& forall|m: Identifier| #[trigger]
        book.participants.contains_key(m) ==> fund_drawn(draws, m)
            <= book.participants[m].default_fund_remaining
}

proof fn lemma_payable_draws_are_paid(book: BookState, draws: Seq<WaterfallDraw>)
    requires
        payable(book, draws),
    ensures
        book.draws_applied(draws).0 is Ok,
    decreases draws.len(),
{
    if draws.len() > 0 {
        let rest = draws.drop_last();
        let last = draws[draws.len() - 1];
        assert(payable(book, rest)) by {
            assert forall|i: int| 0 <= i < rest.len() implies {
                let d = #[trigger] rest[i];
                &&& d.source_kind == DefaultSourceKind::DefaulterMargin ==> d.participant_id is Some
                    && book.margins.contains_key(d.participant_id->0)
                &&& is_fund(d.source_kind) ==> d.participant_id is Some
                    && book.participants.contains_key(d.participant_id->0)
            } by {
                assert(rest[i] == draws[i]);
            }
        }
        lemma_payable_draws_are_paid(book, rest);
        let before = book.draws_applied(rest).1;
        let who = if last.participant_id is Some {
            last.participant_id->0
        } else {
            crate::ident::ZERO
        };
        law_draws_lower_balances(book, rest, who);
        assert(before.margins.contains_key(who) == book.margins.contains_key(who)) by {
            assert(before.margins.dom().contains(who) == book.margins.dom().contains(who));
        }
        assert(before.participants.contains_key(who) == book.participants.contains_key(who)) by {
            assert(before.participants.dom().contains(who) == book.participants.dom().contains(
                who,
            ));
        }
    }
}

/// Every draw names an account of its layer that a source names too.
proof fn lemma_draws_name_sources(sources: Seq<WaterfallDraw>, loss: int)
    ensures
        forall|i: int|
            0 <= i < drawn(sources, loss).len() ==> exists|j: int|
                0 <= j < sources.len() && (#[trigger] sources[j]).source_kind
                    == (#[trigger] drawn(sources, loss)[i]).source_kind && sources[j].participant_id
                    == drawn(sources, loss)[i].participant_id,
    decreases sources.len(),
{
    if sources.len() > 0 {
        let rest = sources.drop_last();
        lemma_draws_name_sources(rest, loss);
        let before = drawn(rest, loss);
        let all = drawn(sources, loss);
        assert forall|i: int| 0 <= i < all.len() implies exists|j: int|
            0 <= j < sources.len() && (#[trigger] sources[j]).source_kind == (
            #[trigger] all[i]).source_kind && sources[j].participant_id
                == all[i].participant_id by {
            if i < before.len() {
                assert(all[i] == before[i]);
                let j = choose|j: int|
                    0 <= j < rest.len() && (#[trigger] rest[j]).source_kind
                        == before[i].source_kind && rest[j].participant_id
                        == before[i].participant_id;
                assert(sources[j] == rest[j]);
            } else {
                assert(sources[sources.len() - 1].source_kind == all[i].source_kind);
            }
        }
    }
}

proof fn lemma_mutual_members(book: BookState, keys: Seq<Identifier>, defaulter: Identifier)
    requires
        forall|i: int|
            0 <= i < keys.len() ==> book.participants.contains_key(#[trigger] keys[i])
                && book.participants[keys[i]].participant_id == keys[i],
    ensures
        forall|i: int|
            0 <= i < book.mutual_sources(keys, defaulter).len() ==> {
                let d = #[trigger] book.mutual_sources(keys, defaulter)[i];
                d.participant_id is Some && book.participants.contains_key(d.participant_id->0)
                    && d.source_kind == DefaultSourceKind::MutualizedFund
            },
    decreases keys.len(),
{
    if keys.len() > 0 {
        let rest = keys.drop_last();
        assert forall|i: int| 0 <= i < rest.len() implies book.participants.contains_key(
            #[trigger] rest[i],
        ) && book.participants[rest[i]].participant_id == rest[i] by {
            assert(rest[i] == keys[i]);
        }
        lemma_mutual_members(book, rest, defaulter);
        let before = book.mutual_sources(rest, defaulter);
        let all = book.mutual_sources(keys, defaulter);
        assert(book.participants.contains_key(keys[keys.len() - 1]));
        assert forall|i: int| 0 <= i < all.len() implies {
            let d = #[trigger] all[i];
            d.participant_id is Some && book.participants.contains_key(d.participant_id->0)
                && d.source_kind == DefaultSourceKind::MutualizedFund
        } by {
            if i < before.len() {
                assert(all[i] == before[i]);
            }
        }
    }
}

/// A resolution of a valid book can always be paid: no draw exceeds the balance
/// that it is taken from.
pub proof fn law_resolution_is_payable(book: BookState, case_id: Identifier, shortfall: u128)
    requires
        book.valid(),
        book.resolution(case_id, shortfall) is Ok,
    ensures
        book.draws_applied(book.resolution(case_id, shortfall)->Ok_0.draws).0 is Ok,
{
    let defaulter = book.defaults[case_id].evidence.participant_id;
    let sources = book.waterfall(defaulter);
    let loss = shortfall as int;
    let draws = drawn(sources, loss);
    let keys = ascending(book.participants.dom());
    lemma_ascending_exists(book.participants.dom());
    assert forall|i: int| 0 <= i < keys.len() implies book.participants.contains_key(
        #[trigger] keys[i],
    ) && book.participants[keys[i]].participant_id == keys[i] by {
        assert(keys.to_set().contains(keys[i]));
    }
    let own = book.own_sources(defaulter);
    let mutual = book.mutual_sources(keys, defaulter);
    let capital = WaterfallDraw {
        source_kind: DefaultSourceKind::CcpCapital,
        participant_id: None,
        amount: book.ccp_capital_remaining,
    };
    assert(sources == (own + mutual).push(capital));
    assert(sources.drop_last() =~= own + mutual);
    assert forall|m: Identifier| {
        &&& margin_drawn(sources, m) == (if m == defaulter {
            book.margins[defaulter].encumbered_collateral as int
        } else {
            0
        })
        &&& #[trigger] fund_drawn(sources, m) <= (if book.participants.contains_key(m) {
            book.participants[m].default_fund_remaining as int
        } else {
            0
        })
        &&& capital_drawn(sources) == book.ccp_capital_remaining
    } by {
        lemma_joined_offers(own, mutual, m);
        lemma_mutual_offers(book, keys, defaulter, m);
        assert(own.drop_last() =~= seq![own[0]]);
        assert(own.drop_last().drop_last() =~= Seq::empty());
        assert(own.len() == 2);
        assert(margin_drawn(own.drop_last().drop_last(), m) == 0);
        assert(fund_drawn(own.drop_last().drop_last(), m) == 0);
        assert(capital_drawn(own.drop_last().drop_last()) == 0);
        assert(margin_drawn(own.drop_last(), m) == (if m == defaulter {
            book.margins[defaulter].encumbered_collateral as int
        } else {
            0
        }));
        assert(fund_drawn(own.drop_last(), m) == 0);
        assert(capital_drawn(own.drop_last()) == 0);
        if keys.contains(m) {
            assert(keys.to_set().contains(m));
        }
        if book.participants.contains_key(m) {
            assert(keys.to_set().contains(m));
        }
    }
    assert(payable(book, draws)) by {
        lemma_draws_within_offers(sources, loss, defaulter);
        lemma_draws_name_sources(sources, loss);
        lemma_mutual_members(book, keys, defaulter);
        assert(fund_drawn(sources, defaulter) <= u128::MAX);
        assert forall|i: int| 0 <= i < draws.len() implies {
            let d = #[trigger] draws[i];
            &&& d.source_kind == DefaultSourceKind::DefaulterMargin ==> d.participant_id is Some
                && book.margins.contains_key(d.participant_id->0)
            &&& is_fund(d.source_kind) ==> d.participant_id is Some
                && book.participants.contains_key(d.participant_id->0)
        } by {
            let j = choose|j: int|
                0 <= j < sources.len() && (#[trigger] sources[j]).source_kind
                    == draws[i].source_kind && sources[j].participant_id
                    == draws[i].participant_id;
            if 2 <= j < sources.len() - 1 {
                assert(sources[j] == mutual[j - 2]);
            } else if j < 2 {
                assert(sources[j] == own[j]);
            }
        }
        assert forall|m: Identifier| #[trigger] book.margins.contains_key(m) implies margin_drawn(
            draws,
            m,
        ) <= book.margins[m].encumbered_collateral by {
            lemma_draws_within_offers(sources, loss, m);
            assert(fund_drawn(sources, m) <= u128::MAX);
        }
        assert forall|m: Identifier| #[trigger]
            book.participants.contains_key(m) implies fund_drawn(draws, m)
            <= book.participants[m].default_fund_remaining by {
            lemma_draws_within_offers(sources, loss, m);
            assert(fund_drawn(sources, m) <= u128::MAX);
        }
    }
    lemma_payable_draws_are_paid(book, draws);
}

/// Committing an approved resolution of a valid book, once its settlement is
/// confirmed, succeeds, takes exactly the draws from the balances they name, and
/// records the resolution.
pub proof fn law_commit_takes_exactly_the_draws(
    book: BookState,
    resolution: ResolutionView,
    approval: ApprovalView,
    receipt: DefmiSettlementReceipt,
    now: u64,
    member: Identifier,
)
    requires
        book.valid(),
        book.resolution_refusal(resolution, approval, receipt, now) is None,
    ensures
        ({
            let outcome = book.resolution_committed(resolution, receipt, Ok(()));
            let after = outcome.1;
            &&& outcome.0 is Ok
            &&& after.ccp_capital_remaining == book.ccp_capital_remaining - capital_drawn(
                resolution.draws,
            )
            &&& book.margins.contains_key(member) ==> after.margins[member].encumbered_collateral
                == book.margins[member].encumbered_collateral - margin_drawn(
                resolution.draws,
                member,
            )
            &&& book.participants.contains_key(member)
                ==> after.participants[member].default_fund_remaining
                == book.participants[member].default_fund_remaining - fund_drawn(
                resolution.draws,
                member,
            )
            &&& after.defaults[resolution.case_id].resolution == Some(resolution)
            &&& drawn_total(resolution.draws) == resolution.shortfall
        }),
{
    law_resolution_is_payable(book, resolution.case_id, resolution.shortfall);
    law_draws_lower_balances(book, resolution.draws, member);
    law_draws_cover_the_loss(book, resolution.case_id, resolution.shortfall);
}

/// Once a default is resolved it stays resolved: another resolution of the same
/// case is refused.
pub proof fn law_default_is_resolved_once(
    book: BookState,
    case_id: Identifier,
    shortfall: u128,
)
    requires
        shortfall != 0,
        book.defaults.contains_key(case_id),
        book.defaults[case_id].resolution is Some,
    ensures
        book.resolution(case_id, shortfall) == Err::<ResolutionView, DeCcpError>(
            DeCcpError::DefaultAlreadyResolved,
        ),
{
}

} // verus!
