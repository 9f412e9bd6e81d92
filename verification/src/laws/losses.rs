//! Laws of losses: who is declared in default, whose resources cover a loss, in
//! which order and how far, and what a committed resolution takes.

use vstd::prelude::*;

use crate::authority::QuorumApproval;
use crate::book::{BookState, ClearingBook};
use crate::default_ops::{drawn, uncovered};
use crate::defaults::{
    default_statement, draws_bytes, CaseView, DefaultEvidence, DefaultResolution, DefaultSourceKind,
    WaterfallDraw,
};
use crate::error::DeCcpError;
use crate::guarantees::DefmiSettlementReceipt;
use crate::ident::{
    ascending, has_zero, is_ascending, lemma_ascending_exists, rank, Identifier, ZERO,
};
use crate::laws::authority::{law_refusal_of_approval, sealed};
use crate::laws::defaults::{
    capital_drawn, drawn_total, fund_drawn, law_draws_cover_the_loss, law_draws_lower_balances,
    margin_drawn,
};
use crate::laws::members::may_act;
use crate::laws::statements::{law_numbers_are_big_endian, wide};
use crate::members::{MarginAccount, Participant, ParticipantStatus};
use crate::ports::DeFmiPort;
use crate::transcript::{bytes_of, sha256_of};

verus! {

/// Whether a default can be declared, apart from its approval: everything it
/// names is set, it was observed by now, its operation and its case are unused,
/// and the member may still act.
pub open spec fn declarable(
    book: BookState,
    operation_id: Identifier,
    case_id: Identifier,
    evidence: DefaultEvidence,
    now: u64,
) -> bool {
    &&& operation_id != ZERO
    &&& case_id != ZERO
    &&& evidence.event_id != ZERO
    &&& evidence.source_id != ZERO
    &&& evidence.participant_id != ZERO
    &&& evidence.event_digest != ZERO
    &&& evidence.observed_at <= now
    &&& !book.used_operations.contains(operation_id)
    &&& !book.defaults.contains_key(case_id)
    &&& may_act(book, evidence.participant_id, now)
}

/// A default is declared exactly when it can be and a quorum approved it. The
/// member is then defaulted, the case is open, and nothing else changes.
pub proof fn law_declaration_effect(
    book: &mut ClearingBook,
    operation_id: Identifier,
    case_id: Identifier,
    evidence: DefaultEvidence,
    approval: &QuorumApproval,
    now: u64,
    r: Result<(), DeCcpError>,
)
    requires
        call_ensures(
            ClearingBook::declare_default,
            (book, operation_id, case_id, evidence, approval, now),
            r,
        ),
    ensures
        r is Err ==> final(book)@ == old(book)@,
        r is Ok <==> declarable(old(book)@, operation_id, case_id, evidence, now) && sealed(
            old(book)@.authorities,
            default_statement(operation_id, case_id, evidence, now),
            approval@,
            Some(now),
        ),
        r is Ok ==> {
            let member = old(book)@.participants[evidence.participant_id];
            let case = final(book)@.defaults[case_id];
            &&& final(book)@ == (BookState {
                participants: old(book)@.participants.insert(
                    evidence.participant_id,
                    Participant { status: ParticipantStatus::Defaulted, ..member },
                ),
                defaults: old(book)@.defaults.insert(case_id, case),
                used_operations: old(book)@.used_operations.insert(operation_id),
                ..old(book)@
            })
            &&& case.case_id == case_id
            &&& case.evidence == evidence
            &&& case.declared_at == now
            &&& case.resolution is None
            &&& case.defmi_settlement_receipt is None
        },
        r matches Err(DeCcpError::UnknownParticipant) ==> !old(book)@.participants.contains_key(
            evidence.participant_id,
        ),
        r matches Err(DeCcpError::ParticipantNotActive) ==> old(book)@.participants.contains_key(
            evidence.participant_id,
        ) && !may_act(old(book)@, evidence.participant_id, now),
        r matches Err(DeCcpError::InvalidDefault) ==> !declarable(
            old(book)@,
            operation_id,
            case_id,
            evidence,
            now,
        ) && (may_act(old(book)@, evidence.participant_id, now) || operation_id == ZERO || case_id
            == ZERO || evidence.event_id == ZERO || evidence.source_id == ZERO
            || evidence.participant_id == ZERO || evidence.event_digest == ZERO
            || evidence.observed_at > now || old(book)@.used_operations.contains(operation_id)
            || old(book)@.defaults.contains_key(case_id)),
        r matches Err(error) ==> error is UnknownParticipant || error is ParticipantNotActive
            || error is InvalidDefault || error is InsufficientQuorum
            || error is InvalidQuorumApproval || error is InvalidAuthoritySet,
{
    let statement = default_statement(operation_id, case_id, evidence, now);
    law_refusal_of_approval(old(book)@.authorities, statement, approval@, Some(now));
    let ids = seq![
        operation_id,
        case_id,
        evidence.event_id,
        evidence.source_id,
        evidence.participant_id,
        evidence.event_digest,
    ];
    if !has_zero(ids) {
        assert(ids[0] != ZERO && ids[1] != ZERO && ids[2] != ZERO && ids[3] != ZERO && ids[4]
            != ZERO && ids[5] != ZERO);
    }
}

/// Whether the members of a book are filed under their own identifiers.
pub open spec fn members_filed(book: BookState) -> bool {
    &&& book.participants.dom().finite()
    &&& forall|m: Identifier| #[trigger]
        book.participants.contains_key(m) ==> book.participants[m].participant_id == m
}

/// Whether a member shares the losses of a defaulter: it is another member, and
/// it is active.
pub open spec fn shares_losses(book: BookState, defaulter: Identifier, m: Identifier) -> bool {
    &&& book.participants.contains_key(m)
    &&& book.participants[m].status == ParticipantStatus::Active
    &&& m != defaulter
}

/// Whether a draw is on a resource that a loss of a defaulter may be covered
/// with, for no more than there is of it.
pub open spec fn draw_allowed(book: BookState, defaulter: Identifier, d: WaterfallDraw) -> bool {
    &&& d.amount > 0
    &&& d.source_kind == DefaultSourceKind::DefaulterMargin ==> {
        &&& d.participant_id == Some(defaulter)
        &&& d.amount <= book.margins[defaulter].encumbered_collateral
    }
    &&& d.source_kind == DefaultSourceKind::DefaulterFund ==> {
        &&& d.participant_id == Some(defaulter)
        &&& d.amount <= book.participants[defaulter].default_fund_remaining
    }
    &&& d.source_kind == DefaultSourceKind::MutualizedFund ==> {
        &&& d.participant_id is Some
        &&& shares_losses(book, defaulter, d.participant_id->0)
        &&& d.amount <= book.participants[d.participant_id->0].default_fund_remaining
    }
    &&& d.source_kind == DefaultSourceKind::CcpCapital ==> {
        &&& d.participant_id is None
        &&& d.amount <= book.ccp_capital_remaining
    }
}

/// Whether one resource is called on before another: the defaulter's margin
/// first, its fund second, then the other members' funds in ascending order, the
/// counterparty's own capital last.
pub open spec fn called_before(a: WaterfallDraw, b: WaterfallDraw) -> bool {
    match a.source_kind {
        DefaultSourceKind::DefaulterMargin => b.source_kind != DefaultSourceKind::DefaulterMargin,
        DefaultSourceKind::DefaulterFund => b.source_kind == DefaultSourceKind::MutualizedFund
            || b.source_kind == DefaultSourceKind::CcpCapital,
        DefaultSourceKind::MutualizedFund => b.source_kind == DefaultSourceKind::CcpCapital || (
        b.source_kind == DefaultSourceKind::MutualizedFund && a.participant_id is Some
            && b.participant_id is Some && rank(a.participant_id->0) < rank(b.participant_id->0)),
        DefaultSourceKind::CcpCapital => false,
    }
}

/// Whether a resource is among the draws before `i`, drawn to the last unit.
pub open spec fn used_up(draws: Seq<WaterfallDraw>, i: int, whole: WaterfallDraw) -> bool {
    exists|j: int| 0 <= j < i && #[trigger] draws[j] == whole
}

/// All that a defaulter's own margin is good for.
pub open spec fn whole_margin(book: BookState, defaulter: Identifier) -> WaterfallDraw {
    WaterfallDraw {
        source_kind: DefaultSourceKind::DefaulterMargin,
        participant_id: Some(defaulter),
        amount: book.margins[defaulter].encumbered_collateral,
    }
}

/// All that a defaulter's own contribution is good for.
pub open spec fn whole_fund(book: BookState, defaulter: Identifier) -> WaterfallDraw {
    WaterfallDraw {
        source_kind: DefaultSourceKind::DefaulterFund,
        participant_id: Some(defaulter),
        amount: book.participants[defaulter].default_fund_remaining,
    }
}

/// All that another member's contribution is good for.
pub open spec fn whole_share(book: BookState, m: Identifier) -> WaterfallDraw {
    WaterfallDraw {
        source_kind: DefaultSourceKind::MutualizedFund,
        participant_id: Some(m),
        amount: book.participants[m].default_fund_remaining,
    }
}

/// What the members under `keys` that share a defaulter's losses have in the
/// default fund.
pub open spec fn shared_total(
    book: BookState,
    keys: Seq<Identifier>,
    defaulter: Identifier,
) -> int
    decreases keys.len(),
{
    if keys.len() == 0 {
        0
    } else {
        shared_total(book, keys.drop_last(), defaulter) + if shares_losses(
            book,
            defaulter,
            keys.last(),
        ) {
            book.participants[keys.last()].default_fund_remaining as int
        } else {
            0
        }
    }
}

/// Everything that a loss of a defaulter can be covered with.
pub open spec fn resources(book: BookState, defaulter: Identifier) -> int {
    book.margins[defaulter].encumbered_collateral
        + book.participants[defaulter].default_fund_remaining + shared_total(
        book,
        ascending(book.participants.dom()),
        defaulter,
    ) + book.ccp_capital_remaining
}

/// Which of the members under `keys` the shared layer takes, in order.
proof fn lemma_sharers(book: BookState, keys: Seq<Identifier>, defaulter: Identifier) -> (g: Seq<
    int,
>)
    requires
        is_ascending(keys),
        forall|i: int|
            0 <= i < keys.len() ==> book.participants.contains_key(#[trigger] keys[i])
                && book.participants[keys[i]].participant_id == keys[i],
    ensures
        g.len() == book.mutual_sources(keys, defaulter).len(),
        forall|t: int|
            0 <= t < g.len() ==> {
                &&& 0 <= #[trigger] g[t] < keys.len()
                &&& shares_losses(book, defaulter, keys[g[t]])
                &&& book.mutual_sources(keys, defaulter)[t] == whole_share(book, keys[g[t]])
            },
        forall|s: int, t: int| 0 <= s < t < g.len() ==> #[trigger] g[s] < #[trigger] g[t],
        forall|k: int|
            0 <= k < keys.len() && shares_losses(book, defaulter, #[trigger] keys[k])
                ==> g.contains(k),
        crate::laws::defaults::available_total(book.mutual_sources(keys, defaulter))
            == shared_total(book, keys, defaulter),
    decreases keys.len(),
{
    if keys.len() == 0 {
        Seq::empty()
    } else {
        let front = keys.drop_last();
        let last = keys[keys.len() - 1];
        assert forall|i: int| 0 <= i < front.len() implies book.participants.contains_key(
            #[trigger] front[i],
        ) && book.participants[front[i]].participant_id == front[i] by {
            assert(front[i] == keys[i]);
        }
        let h = lemma_sharers(book, front, defaulter);
        let before = book.mutual_sources(front, defaulter);
        let all = book.mutual_sources(keys, defaulter);
        assert(book.participants[last].participant_id == last);
        if shares_losses(book, defaulter, last) {
            let g = h.push(keys.len() - 1);
            assert(all == before.push(whole_share(book, last)));
            assert(all.drop_last() =~= before);
            assert forall|t: int| 0 <= t < g.len() implies {
                &&& 0 <= #[trigger] g[t] < keys.len()
                &&& shares_losses(book, defaulter, keys[g[t]])
                &&& all[t] == whole_share(book, keys[g[t]])
            } by {
                if t < h.len() {
                    assert(g[t] == h[t]);
                    assert(front[h[t]] == keys[g[t]]);
                }
            }
            assert forall|k: int|
                0 <= k < keys.len() && shares_losses(
                    book,
                    defaulter,
                    #[trigger] keys[k],
                ) implies g.contains(k) by {
                if k < front.len() {
                    assert(front[k] == keys[k]);
                    let t = choose|t: int| 0 <= t < h.len() && h[t] == k;
                    assert(g[t] == k);
                } else {
                    assert(g[h.len() as int] == k);
                }
            }
            g
        } else {
            assert(all == before);
            assert forall|t: int| 0 <= t < h.len() implies {
                &&& 0 <= #[trigger] h[t] < keys.len()
                &&& shares_losses(book, defaulter, keys[h[t]])
                &&& all[t] == whole_share(book, keys[h[t]])
            } by {
                assert(front[h[t]] == keys[h[t]]);
            }
            assert forall|k: int|
                0 <= k < keys.len() && shares_losses(
                    book,
                    defaulter,
                    #[trigger] keys[k],
                ) implies h.contains(k) by {
                if k < front.len() {
                    assert(front[k] == keys[k]);
                }
            }
            h
        }
    }
}

/// Which source each draw is from.
proof fn lemma_draws_from(sources: Seq<WaterfallDraw>, loss: int) -> (f: Seq<int>)
    requires
        0 <= loss <= u128::MAX,
    ensures
        f.len() == drawn(sources, loss).len(),
        uncovered(sources, loss) >= 0,
        forall|i: int|
            0 <= i < f.len() ==> {
                let d = drawn(sources, loss)[i];
                &&& 0 <= #[trigger] f[i] < sources.len()
                &&& d.source_kind == sources[f[i]].source_kind
                &&& d.participant_id == sources[f[i]].participant_id
                &&& 0 < d.amount <= sources[f[i]].amount
            },
        forall|i: int, j: int| 0 <= i < j < f.len() ==> #[trigger] f[i] < #[trigger] f[j],
        forall|i: int, s: int|
            #![trigger f[i], sources[s]]
            0 <= i < f.len() && 0 <= s < f[i] && sources[s].amount > 0 ==> used_up(
                drawn(sources, loss),
                i,
                sources[s],
            ),
        uncovered(sources, loss) > 0 ==> forall|s: int|
            0 <= s < sources.len() && (#[trigger] sources[s]).amount > 0 ==> used_up(
                drawn(sources, loss),
                f.len() as int,
                sources[s],
            ),
    decreases sources.len(),
{
    if sources.len() == 0 {
        Seq::empty()
    } else {
        let front = sources.drop_last();
        let h = lemma_draws_from(front, loss);
        let before = drawn(front, loss);
        let all = drawn(sources, loss);
        let open = uncovered(front, loss);
        let last = sources.last();
        let amount = if last.amount <= open {
            last.amount as int
        } else {
            open
        };
        lemma_open_bound(front, loss);
        assert forall|s: int| 0 <= s < front.len() implies #[trigger] sources[s] == front[s] by {}
        if amount > 0 {
            let f = h.push(sources.len() - 1);
            let draw = WaterfallDraw { amount: amount as u128, ..last };
            assert(all == before.push(draw));
            assert forall|i: int| 0 <= i < f.len() implies {
                &&& 0 <= #[trigger] f[i] < sources.len()
                &&& all[i].source_kind == sources[f[i]].source_kind
                &&& all[i].participant_id == sources[f[i]].participant_id
                &&& 0 < all[i].amount <= sources[f[i]].amount
            } by {
                if i < h.len() {
                    assert(f[i] == h[i]);
                    assert(all[i] == before[i]);
                    assert(sources[f[i]] == front[h[i]]);
                }
            }
            assert forall|i: int, s: int|
                #![trigger f[i], sources[s]]
                0 <= i < f.len() && 0 <= s < f[i] && sources[s].amount > 0 implies used_up(
                all,
                i,
                sources[s],
            ) by {
                assert(front[s] == sources[s]);
                if i < h.len() {
                    assert(h[i] == f[i]);
                    assert(used_up(before, i, front[s]));
                }
                let j = choose|j: int| 0 <= j < i && #[trigger] before[j] == front[s];
                assert(all[j] == sources[s]);
            }
            if uncovered(sources, loss) > 0 {
                assert(draw == last);
                assert forall|s: int|
                    0 <= s < sources.len() && (#[trigger] sources[s]).amount > 0 implies used_up(
                    all,
                    f.len() as int,
                    sources[s],
                ) by {
                    if s < front.len() {
                        assert(front[s] == sources[s]);
                        let j = choose|j: int|
                            0 <= j < h.len() && #[trigger] before[j] == front[s];
                        assert(all[j] == sources[s]);
                    } else {
                        assert(all[h.len() as int] == sources[s]);
                    }
                }
            }
            f
        } else {
            assert(all == before);
            assert forall|i: int| 0 <= i < h.len() implies {
                &&& 0 <= #[trigger] h[i] < sources.len()
                &&& all[i].source_kind == sources[h[i]].source_kind
                &&& all[i].participant_id == sources[h[i]].participant_id
                &&& 0 < all[i].amount <= sources[h[i]].amount
            } by {
                assert(sources[h[i]] == front[h[i]]);
            }
            assert forall|i: int, s: int|
                #![trigger h[i], sources[s]]
                0 <= i < h.len() && 0 <= s < h[i] && sources[s].amount > 0 implies used_up(
                all,
                i,
                sources[s],
            ) by {
                assert(front[s] == sources[s]);
            }
            if uncovered(sources, loss) > 0 {
                assert forall|s: int|
                    0 <= s < sources.len() && (#[trigger] sources[s]).amount > 0 implies used_up(
                    all,
                    h.len() as int,
                    sources[s],
                ) by {
                    if s < front.len() {
                        assert(front[s] == sources[s]);
                    }
                }
            }
            h
        }
    }
}

proof fn lemma_open_bound(sources: Seq<WaterfallDraw>, loss: int)
    requires
        0 <= loss <= u128::MAX,
    ensures
        0 <= uncovered(sources, loss) <= loss,
    decreases sources.len(),
{
    if sources.len() > 0 {
        lemma_open_bound(sources.drop_last(), loss);
    }
}

/// The waterfall of a defaulter, source by source: its margin, its fund, the
/// shares that `g` lists, and the counterparty's own capital.
proof fn lemma_sources(book: BookState, defaulter: Identifier) -> (g: Seq<int>)
    requires
        members_filed(book),
    ensures
        ({
            let keys = ascending(book.participants.dom());
            let sources = book.waterfall(defaulter);
            &&& is_ascending(keys)
            &&& keys.to_set() == book.participants.dom()
            &&& sources.len() == g.len() + 3
            &&& sources[0] == whole_margin(book, defaulter)
            &&& sources[1] == whole_fund(book, defaulter)
            &&& sources[sources.len() - 1].source_kind == DefaultSourceKind::CcpCapital
            &&& sources[sources.len() - 1].participant_id is None
            &&& sources[sources.len() - 1].amount == book.ccp_capital_remaining
            &&& forall|t: int|
                0 <= t < g.len() ==> {
                    &&& 0 <= #[trigger] g[t] < keys.len()
                    &&& shares_losses(book, defaulter, keys[g[t]])
                    &&& sources[t + 2] == whole_share(book, keys[g[t]])
                }
            &&& forall|s: int, t: int| 0 <= s < t < g.len() ==> #[trigger] g[s] < #[trigger] g[t]
            &&& forall|k: int|
                0 <= k < keys.len() && shares_losses(book, defaulter, #[trigger] keys[k])
                    ==> g.contains(k)
            &&& crate::laws::defaults::available_total(sources) == resources(book, defaulter)
        }),
{
    let keys = ascending(book.participants.dom());
    lemma_ascending_exists(book.participants.dom());
    assert forall|i: int| 0 <= i < keys.len() implies book.participants.contains_key(
        #[trigger] keys[i],
    ) && book.participants[keys[i]].participant_id == keys[i] by {
        assert(keys.to_set().contains(keys[i]));
    }
    let g = lemma_sharers(book, keys, defaulter);
    let own = book.own_sources(defaulter);
    let mutual = book.mutual_sources(keys, defaulter);
    let sources = book.waterfall(defaulter);
    assert(own.len() == 2);
    assert(sources.drop_last() =~= own + mutual);
    assert forall|t: int| 0 <= t < g.len() implies {
        &&& 0 <= #[trigger] g[t] < keys.len()
        &&& shares_losses(book, defaulter, keys[g[t]])
        &&& sources[t + 2] == whole_share(book, keys[g[t]])
    } by {
        assert(sources[t + 2] == mutual[t]);
    }
    lemma_joined_total(own, mutual);
    assert(own.drop_last() =~= seq![own[0]]);
    assert(own.drop_last().drop_last() =~= Seq::empty());
    reveal_with_fuel(crate::laws::defaults::available_total, 3);
    g
}

proof fn lemma_joined_total(a: Seq<WaterfallDraw>, b: Seq<WaterfallDraw>)
    ensures
        crate::laws::defaults::available_total(a + b) == crate::laws::defaults::available_total(a)
            + crate::laws::defaults::available_total(b),
    decreases b.len(),
{
    if b.len() == 0 {
        assert(a + b =~= a);
    } else {
        assert((a + b).drop_last() =~= a + b.drop_last());
        lemma_joined_total(a, b.drop_last());
    }
}

/// Every draw of a resolution is on a resource that the loss may be covered with,
/// for no more than there is of it: a draw on another member's contribution names
/// a member that is active and not the defaulter. Together the draws are the loss.
pub proof fn law_draws_are_allowed(
    book: ClearingBook,
    case_id: Identifier,
    shortfall: u128,
    r: Result<DefaultResolution, DeCcpError>,
    i: int,
)
    requires
        call_ensures(ClearingBook::prepare_default_resolution, (&book, &case_id, shortfall), r),
        r is Ok,
        members_filed(book@),
        0 <= i < r->Ok_0@.draws.len(),
    ensures
        draw_allowed(
            book@,
            book@.defaults[case_id].evidence.participant_id,
            r->Ok_0@.draws[i],
        ),
        drawn_total(r->Ok_0@.draws) == shortfall,
{
    let defaulter = book@.defaults[case_id].evidence.participant_id;
    let sources = book@.waterfall(defaulter);
    let g = lemma_sources(book@, defaulter);
    let f = lemma_draws_from(sources, shortfall as int);
    law_draws_cover_the_loss(book@, case_id, shortfall);
    let s = f[i];
    if 2 <= s < sources.len() - 1 {
        assert(sources[(s - 2) + 2] == whole_share(
            book@,
            ascending(book@.participants.dom())[g[s - 2]],
        ));
    }
}

/// The draws of a resolution come in the order in which resources are called on,
/// so that no resource is drawn on twice.
pub proof fn law_draws_are_in_order(
    book: ClearingBook,
    case_id: Identifier,
    shortfall: u128,
    r: Result<DefaultResolution, DeCcpError>,
    i: int,
    j: int,
)
    requires
        call_ensures(ClearingBook::prepare_default_resolution, (&book, &case_id, shortfall), r),
        r is Ok,
        members_filed(book@),
        0 <= i < j < r->Ok_0@.draws.len(),
    ensures
        called_before(r->Ok_0@.draws[i], r->Ok_0@.draws[j]),
{
    let defaulter = book@.defaults[case_id].evidence.participant_id;
    let sources = book@.waterfall(defaulter);
    let keys = ascending(book@.participants.dom());
    let g = lemma_sources(book@, defaulter);
    let f = lemma_draws_from(sources, shortfall as int);
    let s = f[i];
    let t = f[j];
    assert(s < t);
    if 2 <= s < sources.len() - 1 {
        assert(sources[(s - 2) + 2] == whole_share(book@, keys[g[s - 2]]));
    }
    if 2 <= t < sources.len() - 1 {
        assert(sources[(t - 2) + 2] == whole_share(book@, keys[g[t - 2]]));
        if 2 <= s {
            assert(g[s - 2] < g[t - 2]);
            assert(rank(keys[g[s - 2]]) < rank(keys[g[t - 2]]));
        }
    }
}

/// No resource is drawn on before those in front of it are used up: beyond the
/// defaulter's margin only once all of it is drawn, beyond its fund only once all
/// of that is, and beyond the contribution of a member that shares the loss only
/// once all of that is. In particular a draw on the counterparty's own capital
/// finds every such member among the draws, with its whole contribution.
pub proof fn law_senior_resources_are_used_up(
    book: ClearingBook,
    case_id: Identifier,
    shortfall: u128,
    r: Result<DefaultResolution, DeCcpError>,
    i: int,
    m: Identifier,
)
    requires
        call_ensures(ClearingBook::prepare_default_resolution, (&book, &case_id, shortfall), r),
        r is Ok,
        members_filed(book@),
        0 <= i < r->Ok_0@.draws.len(),
    ensures
        ({
            let defaulter = book@.defaults[case_id].evidence.participant_id;
            let draws = r->Ok_0@.draws;
            &&& draws[i].source_kind != DefaultSourceKind::DefaulterMargin
                && book@.margins[defaulter].encumbered_collateral > 0 ==> used_up(
                draws,
                i,
                whole_margin(book@, defaulter),
            )
            &&& called_before(whole_fund(book@, defaulter), draws[i])
                && book@.participants[defaulter].default_fund_remaining > 0 ==> used_up(
                draws,
                i,
                whole_fund(book@, defaulter),
            )
            &&& shares_losses(book@, defaulter, m) && called_before(
                whole_share(book@, m),
                draws[i],
            ) && book@.participants[m].default_fund_remaining > 0 ==> used_up(
                draws,
                i,
                whole_share(book@, m),
            )
        }),
{
    let defaulter = book@.defaults[case_id].evidence.participant_id;
    let sources = book@.waterfall(defaulter);
    let keys = ascending(book@.participants.dom());
    let g = lemma_sources(book@, defaulter);
    let f = lemma_draws_from(sources, shortfall as int);
    let t = f[i];
    assert(sources[0] == whole_margin(book@, defaulter));
    assert(sources[1] == whole_fund(book@, defaulter));
    if 2 <= t < sources.len() - 1 {
        assert(sources[(t - 2) + 2] == whole_share(book@, keys[g[t - 2]]));
    }
    if shares_losses(book@, defaulter, m) {
        assert(keys.to_set().contains(m));
        let k = choose|k: int| 0 <= k < keys.len() && keys[k] == m;
        assert(g.contains(k));
        let u = choose|u: int| 0 <= u < g.len() && g[u] == k;
        assert(sources[u + 2] == whole_share(book@, m));
        if 2 <= t < sources.len() - 1 && called_before(
            whole_share(book@, m),
            drawn(sources, shortfall as int)[i],
        ) {
            assert(rank(m) < rank(keys[g[t - 2]]));
            if g[t - 2] <= k {
                if g[t - 2] < k {
                    assert(rank(keys[g[t - 2]]) < rank(keys[k]));
                }
                assert(false);
            }
            if t - 2 <= u {
                if t - 2 < u {
                    assert(g[t - 2] < g[u]);
                }
                assert(false);
            }
        }
    }
}

/// Whether a loss of a case can be resolved at all: there is a loss, the case is
/// open, the capital was good when it was declared, and the defaulter has an
/// account and a record.
pub open spec fn resolvable(book: BookState, case_id: Identifier, shortfall: u128) -> bool {
    &&& shortfall > 0
    &&& book.defaults.contains_key(case_id)
    &&& book.defaults[case_id].resolution is None
    &&& book.defaults[case_id].declared_at <= book.ccp_capital_valid_until
    &&& book.margins.contains_key(book.defaults[case_id].evidence.participant_id)
    &&& book.participants.contains_key(book.defaults[case_id].evidence.participant_id)
}

/// A loss is resolved exactly when it can be and all resources together reach it;
/// the resolution names the case, the defaulter, and the loss.
pub proof fn law_resolution_is_owed(
    book: ClearingBook,
    case_id: Identifier,
    shortfall: u128,
    r: Result<DefaultResolution, DeCcpError>,
)
    requires
        call_ensures(ClearingBook::prepare_default_resolution, (&book, &case_id, shortfall), r),
        members_filed(book@),
    ensures
        ({
            let case = book@.defaults[case_id];
            let defaulter = case.evidence.participant_id;
            &&& r is Ok <==> resolvable(book@, case_id, shortfall) && shortfall <= resources(
                book@,
                defaulter,
            )
            &&& r matches Ok(resolution) ==> {
                &&& resolution.case_id == case_id
                &&& resolution.participant_id == defaulter
                &&& resolution.shortfall == shortfall
            }
            &&& r matches Err(error) ==> {
                &&& error is InvalidDefault <==> shortfall == 0
                &&& error is UnknownDefault ==> !book@.defaults.contains_key(case_id)
                &&& error is DefaultAlreadyResolved ==> case.resolution is Some
                &&& error is InvalidCapital ==> book@.ccp_capital_valid_until < case.declared_at
                &&& error is UnknownParticipant ==> !book@.margins.contains_key(defaulter)
                    || !book@.participants.contains_key(defaulter)
                &&& error is WaterfallExhausted <==> resolvable(book@, case_id, shortfall)
                &&& error is InvalidDefault || error is UnknownDefault
                    || error is DefaultAlreadyResolved || error is InvalidCapital
                    || error is UnknownParticipant || error is WaterfallExhausted
            }
        }),
{
    let defaulter = book@.defaults[case_id].evidence.participant_id;
    let g = lemma_sources(book@, defaulter);
    if resolvable(book@, case_id, shortfall) {
        crate::laws::defaults::law_exhausted_when_loss_exceeds_resources(
            book@,
            case_id,
            shortfall,
        );
    }
}

/// The bytes of draws: for each one byte for its kind, the member that it is on
/// or 32 zero bytes, and the amount in sixteen bytes.
pub open spec fn draws_written(draws: Seq<WaterfallDraw>) -> Seq<u8>
    decreases draws.len(),
{
    if draws.len() == 0 {
        Seq::empty()
    } else {
        let d = draws.last();
        draws_written(draws.drop_last()) + seq![
            if d.source_kind == DefaultSourceKind::DefaulterMargin {
                1u8
            } else if d.source_kind == DefaultSourceKind::DefaulterFund {
                2u8
            } else if d.source_kind == DefaultSourceKind::MutualizedFund {
                3u8
            } else {
                4u8
            },
        ] + (if d.participant_id is Some {
            d.participant_id->0@
        } else {
            ZERO@
        }) + wide(d.amount as nat, 16)
    }
}

proof fn lemma_draws_written(draws: Seq<WaterfallDraw>)
    ensures
        draws_bytes(draws) == draws_written(draws),
    decreases draws.len(),
{
    if draws.len() > 0 {
        lemma_draws_written(draws.drop_last());
        law_numbers_are_big_endian(draws.last().amount as nat, 16);
        assert(draws_bytes(draws) =~= draws_written(draws));
    }
}

/// The settlement of a resolution is bound to the case and every draw; what the
/// authorities approve commits to the defaulter and the loss as well.
pub proof fn law_resolution_digests(
    book: ClearingBook,
    case_id: Identifier,
    shortfall: u128,
    r: Result<DefaultResolution, DeCcpError>,
)
    requires
        call_ensures(ClearingBook::prepare_default_resolution, (&book, &case_id, shortfall), r),
        r is Ok,
    ensures
        ({
            let resolution = r->Ok_0@;
            &&& resolution.settlement_context_digest == sha256_of(
                bytes_of("DECCP:DEFAULT-SETTLEMENT-CONTEXT:v1") + case_id@ + draws_written(
                    resolution.draws,
                ),
            )
            &&& resolution.resolution_digest == sha256_of(
                bytes_of("DECCP:DEFAULT-RESOLUTION:v1") + case_id@ + resolution.participant_id@
                    + wide(shortfall as nat, 16) + resolution.settlement_context_digest@
                    + draws_written(resolution.draws),
            )
        }),
{
    lemma_draws_written(r->Ok_0@.draws);
    law_numbers_are_big_endian(shortfall as nat, 16);
}

/// Taking draws changes nothing but the balances that they are taken from.
proof fn lemma_draws_touch_balances(book: BookState, draws: Seq<WaterfallDraw>, m: Identifier)
    requires
        book.draws_applied(draws).0 is Ok,
    ensures
        ({
            let after = book.draws_applied(draws).1;
            &&& after == (BookState {
                participants: after.participants,
                margins: after.margins,
                ccp_capital_remaining: after.ccp_capital_remaining,
                ..book
            })
            &&& book.participants.contains_key(m) ==> after.participants[m] == (Participant {
                default_fund_remaining: after.participants[m].default_fund_remaining,
                ..book.participants[m]
            })
            &&& book.margins.contains_key(m) ==> after.margins[m] == (MarginAccount {
                encumbered_collateral: after.margins[m].encumbered_collateral,
                ..book.margins[m]
            })
        }),
    decreases draws.len(),
{
    if draws.len() > 0 {
        let rest = draws.drop_last();
        lemma_draws_touch_balances(book, rest, m);
        law_draws_lower_balances(book, rest, m);
        let before = book.draws_applied(rest).1;
        assert(before.participants.dom().contains(m) == book.participants.dom().contains(m));
        assert(before.margins.dom().contains(m) == book.margins.dom().contains(m));
    }
}

/// A resolution is committed only if a quorum approved it, it is what the book
/// prepares for its case and its loss, the receipt is set and for its settlement
/// context, the capital is still good, and the settlement layer confirms. Every
/// balance then falls by exactly what was drawn on it, the case holds the
/// resolution and the receipt, and nothing else changes.
pub proof fn law_commit_effect<P: DeFmiPort>(
    book: &mut ClearingBook,
    resolution: DefaultResolution,
    approval: &QuorumApproval,
    receipt: DefmiSettlementReceipt,
    defmi: &P,
    now: u64,
    r: Result<(), DeCcpError>,
    prepared: Result<DefaultResolution, DeCcpError>,
    m: Identifier,
)
    requires
        call_ensures(
            ClearingBook::commit_default_resolution::<P>,
            (book, resolution, approval, receipt, defmi, now),
            r,
        ),
        call_ensures(
            ClearingBook::prepare_default_resolution,
            (&*old(book), &resolution.case_id, resolution.shortfall),
            prepared,
        ),
        r is Ok,
    ensures
        ({
            let before = old(book)@;
            let after = final(book)@;
            let draws = resolution@.draws;
            let id = resolution.case_id;
            &&& sealed(before.authorities, resolution.resolution_digest, approval@, Some(now))
            &&& prepared is Ok
            &&& prepared->Ok_0@ == resolution@
            &&& receipt.receipt_digest != ZERO
            &&& receipt.context_digest == resolution.settlement_context_digest
            &&& now <= before.ccp_capital_valid_until
            &&& exists|reply: Result<(), String>|
                reply is Ok && #[trigger] call_ensures(
                    P::verify_settlement,
                    (defmi, &resolution.settlement_context_digest, &receipt, now),
                    reply,
                )
            &&& after == (BookState {
                participants: after.participants,
                margins: after.margins,
                ccp_capital_remaining: after.ccp_capital_remaining,
                defaults: before.defaults.insert(
                    id,
                    CaseView {
                        resolution: Some(resolution@),
                        defmi_settlement_receipt: Some(receipt.receipt_digest),
                        ..before.defaults[id]
                    },
                ),
                ..before
            })
            &&& after.ccp_capital_remaining == before.ccp_capital_remaining - capital_drawn(draws)
            &&& after.participants.dom() == before.participants.dom()
            &&& after.margins.dom() == before.margins.dom()
            &&& before.participants.contains_key(m) ==> {
                &&& after.participants[m] == (Participant {
                    default_fund_remaining: after.participants[m].default_fund_remaining,
                    ..before.participants[m]
                })
                &&& after.participants[m].default_fund_remaining
                    == before.participants[m].default_fund_remaining - fund_drawn(draws, m)
            }
            &&& before.margins.contains_key(m) ==> {
                &&& after.margins[m] == (MarginAccount {
                    encumbered_collateral: after.margins[m].encumbered_collateral,
                    ..before.margins[m]
                })
                &&& after.margins[m].encumbered_collateral
                    == before.margins[m].encumbered_collateral - margin_drawn(draws, m)
            }
        }),
{
    let before = old(book)@;
    law_refusal_of_approval(
        before.authorities,
        resolution.resolution_digest,
        approval@,
        Some(now),
    );
    lemma_draws_touch_balances(before, resolution@.draws, m);
    law_draws_lower_balances(before, resolution@.draws, m);
}

/// A resolution of a valid book that is approved, still what the book prepares,
/// for its settlement context, and in time is committed whenever the settlement
/// layer confirms it.
pub proof fn law_commit_is_owed<P: DeFmiPort>(
    book: &mut ClearingBook,
    resolution: DefaultResolution,
    approval: &QuorumApproval,
    receipt: DefmiSettlementReceipt,
    defmi: &P,
    now: u64,
    r: Result<(), DeCcpError>,
    prepared: Result<DefaultResolution, DeCcpError>,
)
    requires
        call_ensures(
            ClearingBook::commit_default_resolution::<P>,
            (book, resolution, approval, receipt, defmi, now),
            r,
        ),
        call_ensures(
            ClearingBook::prepare_default_resolution,
            (&*old(book), &resolution.case_id, resolution.shortfall),
            prepared,
        ),
        old(book)@.valid(),
    ensures
        r is Err ==> final(book)@ == old(book)@,
        r matches Err(DeCcpError::DeFmiEvidenceRejected(message)) ==> exists|
            reply: Result<(), String>,
        |
            reply == Err::<(), String>(message) && #[trigger] call_ensures(
                P::verify_settlement,
                (defmi, &resolution.settlement_context_digest, &receipt, now),
                reply,
            ),
        ({
            &&& sealed(old(book)@.authorities, resolution.resolution_digest, approval@, Some(now))
            &&& prepared is Ok
            &&& prepared->Ok_0@ == resolution@
            &&& receipt.receipt_digest != ZERO
            &&& receipt.context_digest == resolution.settlement_context_digest
            &&& now <= old(book)@.ccp_capital_valid_until
            &&& forall|reply: Result<(), String>| #[trigger]
                call_ensures(
                    P::verify_settlement,
                    (defmi, &resolution.settlement_context_digest, &receipt, now),
                    reply,
                ) ==> reply is Ok
        }) ==> r is Ok,
        r matches Err(DeCcpError::InvalidDefaultResolution) ==> prepared is Ok && (
        prepared->Ok_0@ != resolution@ || receipt.receipt_digest == ZERO || receipt.context_digest
            != resolution.settlement_context_digest || old(book)@.ccp_capital_valid_until < now),
{
    let before = old(book)@;
    law_refusal_of_approval(
        before.authorities,
        resolution.resolution_digest,
        approval@,
        Some(now),
    );
    if before.resolution(resolution.case_id, resolution.shortfall) is Ok {
        crate::laws::defaults::law_resolution_is_payable(
            before,
            resolution.case_id,
            resolution.shortfall,
        );
    }
}

} // verus!
