//! Laws of proposals: the legs that settle a cycle, what they are bound to, and
//! what the authorities approve of it.

use vstd::prelude::*;

use crate::book::{BookState, ClearingBook};
use crate::cycles::{
    debits_bytes, legs_bytes, ClearingLeg, ClearingObligation, CycleView, NettingMode,
    NettingProposal,
};
use crate::error::DeCcpError;
use crate::ident::{ascending, is_ascending, lemma_ascending_exists, rank, Digest32, Identifier};
use crate::json::hex;
use crate::laws::clearing::{law_proposal_debits, obligation_complete};
use crate::laws::netting::{
    law_closing_conserves_positions, law_netted_legs_go_one_way, legs_position,
};
use crate::laws::order::{
    digests_ascend, law_digests_in_order, law_obligations_in_order, obligations_ascend,
};
use crate::laws::statements::{
    law_leg_context, law_numbers_are_big_endian, law_obligation_leaf, mode_byte, tagged, wide,
};
use crate::netting::{
    asset_legs, balance, balances, credits, debts, gross_legs, joined,
    lemma_positive_balances_finite, net_legs, net_position, netted_assets, paired, reduced, root_of,
    total,
};
use crate::transcript::{bytes_of, sha256_of};

verus! {

/// What a member pays in an asset over the listed obligations.
pub open spec fn amount_paid(
    filed: Map<Identifier, ClearingObligation>,
    ids: Seq<Identifier>,
    asset: Identifier,
    member: Identifier,
) -> int
    decreases ids.len(),
{
    if ids.len() == 0 {
        0
    } else {
        let o = filed[ids.last()];
        amount_paid(filed, ids.drop_last(), asset, member) + if o.asset_id == asset && o.payer_id
            == member {
            o.amount as int
        } else {
            0
        }
    }
}

/// What a member receives in an asset over the listed obligations.
pub open spec fn amount_received(
    filed: Map<Identifier, ClearingObligation>,
    ids: Seq<Identifier>,
    asset: Identifier,
    member: Identifier,
) -> int
    decreases ids.len(),
{
    if ids.len() == 0 {
        0
    } else {
        let o = filed[ids.last()];
        amount_received(filed, ids.drop_last(), asset, member) + if o.asset_id == asset
            && o.payee_id == member {
            o.amount as int
        } else {
            0
        }
    }
}

/// What a member receives less what it pays in an asset over a cycle.
pub open spec fn position(
    book: BookState,
    cycle: CycleView,
    asset: Identifier,
    member: Identifier,
) -> int {
    amount_received(book.obligations, cycle.obligations, asset, member) - amount_paid(
        book.obligations,
        cycle.obligations,
        asset,
        member,
    )
}

proof fn lemma_position(
    filed: Map<Identifier, ClearingObligation>,
    ids: Seq<Identifier>,
    asset: Identifier,
    member: Identifier,
)
    requires
        forall|i: int| 0 <= i < ids.len() ==> obligation_complete(filed[#[trigger] ids[i]]),
    ensures
        net_position(ids.map_values(|id: Identifier| filed[id]), asset, member) == amount_received(
            filed,
            ids,
            asset,
            member,
        ) - amount_paid(filed, ids, asset, member),
    decreases ids.len(),
{
    let found = |id: Identifier| filed[id];
    if ids.len() > 0 {
        let front = ids.drop_last();
        assert forall|i: int| 0 <= i < front.len() implies obligation_complete(
            filed[#[trigger] front[i]],
        ) by {
            assert(front[i] == ids[i]);
        }
        lemma_position(filed, front, asset, member);
        assert(obligation_complete(filed[ids[ids.len() - 1]]));
        assert(ids.map_values(found).drop_last() =~= front.map_values(found));
        assert(ids.map_values(found).last() == filed[ids.last()]);
    }
}

/// The legs of a proposal settle the cycle: over them every member receives, less
/// what it pays, in every asset exactly what it does over the obligations.
pub proof fn law_legs_settle_the_cycle(
    book: ClearingBook,
    cycle_id: Identifier,
    r: Result<NettingProposal, DeCcpError>,
    asset: Identifier,
    member: Identifier,
)
    requires
        call_ensures(ClearingBook::prepare_close, (&book, &cycle_id), r),
        r is Ok,
    ensures
        legs_position(r->Ok_0@.legs, asset, member) == position(
            book@,
            book@.cycles[cycle_id],
            asset,
            member,
        ),
{
    law_proposal_debits(book, cycle_id, r, member);
    law_closing_conserves_positions(book@, cycle_id, asset, member);
    lemma_position(book@.obligations, book@.cycles[cycle_id].obligations, asset, member);
}

/// Whether obligations in an asset are netted in a cycle.
pub open spec fn netted_in(cycle: CycleView, asset: Identifier) -> bool {
    cycle.mode == NettingMode::NetNet || (cycle.mode == NettingMode::GrossNet && asset
        == cycle.settlement_asset_id)
}

/// Whether a leg carries an obligation over as it is.
pub open spec fn carries_over(leg: ClearingLeg, o: ClearingObligation) -> bool {
    &&& leg.payer_id == o.payer_id
    &&& leg.payee_id == o.payee_id
    &&& leg.asset_id == o.asset_id
    &&& leg.amount == o.amount
}

/// Whether one netted leg stands in front of another: assets ascend, and within
/// an asset payers and payees ascend, at least one of them moving on.
pub open spec fn steps_down(a: ClearingLeg, b: ClearingLeg) -> bool {
    ||| rank(a.asset_id) < rank(b.asset_id)
    ||| a.asset_id == b.asset_id && rank(a.payer_id) <= rank(b.payer_id) && rank(a.payee_id)
        <= rank(b.payee_id) && (a.payer_id != b.payer_id || a.payee_id != b.payee_id)
}

/// Whether balances name members in ascending order, each with something.
spec fn tidy(list: Seq<(Identifier, int)>) -> bool {
    &&& forall|i: int| 0 <= i < list.len() ==> (#[trigger] list[i]).1 > 0
    &&& forall|i: int, j: int|
        0 <= i < j < list.len() ==> rank((#[trigger] list[i]).0) < rank((#[trigger] list[j]).0)
}

proof fn lemma_tidy_balances(s: Seq<ClearingObligation>, asset: Identifier, paying: bool)
    ensures
        tidy(balances(s, asset, paying)),
{
    let set = Set::new(|m: Identifier| balance(s, asset, m, paying) > 0);
    lemma_positive_balances_finite(s, asset, paying);
    lemma_ascending_exists(set);
    let keys = ascending(set);
    let list = balances(s, asset, paying);
    assert forall|i: int| 0 <= i < list.len() implies (#[trigger] list[i]).1 > 0 by {
        assert(keys.to_set().contains(keys[i]));
        assert(set.contains(keys[i]));
    }
    assert forall|i: int, j: int| 0 <= i < j < list.len() implies rank((#[trigger] list[i]).0)
        < rank((#[trigger] list[j]).0) by {
        assert(rank(keys[i]) < rank(keys[j]));
    }
}

proof fn lemma_tidy_reduced(list: Seq<(Identifier, int)>, amount: int)
    requires
        tidy(list),
        list.len() > 0,
        0 < amount <= list[0].1,
    ensures
        tidy(reduced(list, amount)),
        forall|i: int|
            0 <= i < reduced(list, amount).len() ==> rank(list[0].0) <= rank(
                (#[trigger] reduced(list, amount)[i]).0,
            ),
        list[0].1 == amount ==> forall|i: int|
            0 <= i < reduced(list, amount).len() ==> rank(list[0].0) < rank(
                (#[trigger] reduced(list, amount)[i]).0,
            ),
{
    let less = reduced(list, amount);
    if list[0].1 == amount {
        assert forall|i: int| 0 <= i < less.len() implies #[trigger] less[i] == list[i + 1] by {}
    } else {
        assert forall|i: int| 0 <= i < less.len() implies (#[trigger] less[i]).0 == list[i].0
            && less[i].1 > 0 by {
            if i > 0 {
                assert(less[i] == list[i]);
            }
        }
        assert forall|i: int, j: int| 0 <= i < j < less.len() implies rank((#[trigger] less[i]).0)
            < rank((#[trigger] less[j]).0) by {
            assert(rank(list[i].0) < rank(list[j].0));
        }
        assert forall|i: int| 0 <= i < less.len() implies rank(list[0].0) <= rank(
            (#[trigger] less[i]).0,
        ) by {
            if i > 0 {
                assert(rank(list[0].0) < rank(list[i].0));
            }
        }
    }
}

/// Whether one payment stands in front of another between the same lists.
spec fn payment_before(
    p: (Identifier, Identifier, int),
    q: (Identifier, Identifier, int),
) -> bool {
    rank(p.0) <= rank(q.0) && rank(p.1) <= rank(q.1) && (rank(p.0) < rank(q.0) || rank(p.1)
        < rank(q.1))
}

proof fn lemma_paired_in_order(owed: Seq<(Identifier, int)>, due: Seq<(Identifier, int)>)
    requires
        tidy(owed),
        tidy(due),
    ensures
        forall|k: int|
            0 <= k < paired(owed, due).len() ==> {
                let p = #[trigger] paired(owed, due)[k];
                &&& owed.len() > 0 && due.len() > 0
                &&& rank(owed[0].0) <= rank(p.0)
                &&& rank(due[0].0) <= rank(p.1)
            },
        forall|k: int, l: int|
            0 <= k < l < paired(owed, due).len() ==> payment_before(
                #[trigger] paired(owed, due)[k],
                #[trigger] paired(owed, due)[l],
            ),
    decreases owed.len() + due.len(),
{
    if owed.len() > 0 && due.len() > 0 {
        let amount = if owed[0].1 <= due[0].1 {
            owed[0].1
        } else {
            due[0].1
        };
        lemma_tidy_reduced(owed, amount);
        lemma_tidy_reduced(due, amount);
        let owed2 = reduced(owed, amount);
        let due2 = reduced(due, amount);
        lemma_paired_in_order(owed2, due2);
        let rest = paired(owed2, due2);
        let all = paired(owed, due);
        assert forall|k: int| 0 < k < all.len() implies #[trigger] all[k] == rest[k - 1]
            && rank(owed2[0].0) <= rank(all[k].0) && rank(due2[0].0) <= rank(all[k].1)
            && owed2.len() > 0 && due2.len() > 0 by {
            assert(all[k] == rest[k - 1]);
        }
        assert forall|k: int| 0 <= k < all.len() implies {
            let p = #[trigger] all[k];
            &&& owed.len() > 0 && due.len() > 0
            &&& rank(owed[0].0) <= rank(p.0)
            &&& rank(due[0].0) <= rank(p.1)
        } by {
            if k > 0 {
                assert(rank(owed[0].0) <= rank(owed2[0].0));
                assert(rank(due[0].0) <= rank(due2[0].0));
            }
        }
        assert forall|k: int, l: int| 0 <= k < l < all.len() implies payment_before(
            #[trigger] all[k],
            #[trigger] all[l],
        ) by {
            if k > 0 {
                assert(all[k] == rest[k - 1]);
                assert(all[l] == rest[l - 1]);
            } else {
                assert(rank(owed[0].0) <= rank(owed2[0].0));
                assert(rank(due[0].0) <= rank(due2[0].0));
            }
        }
    }
}

/// Whether a netted leg is for a positive amount, goes from a member that pays on
/// balance to one that receives on balance, and is bound to its cycle.
spec fn leg_proper(
    s: Seq<ClearingObligation>,
    leg: ClearingLeg,
    cycle_id: Identifier,
    root: Digest32,
) -> bool {
    &&& leg.amount > 0
    &&& net_position(s, leg.asset_id, leg.payer_id) < 0
    &&& net_position(s, leg.asset_id, leg.payee_id) > 0
    &&& leg == ClearingLeg::between(
        cycle_id,
        leg.payer_id,
        leg.payee_id,
        leg.asset_id,
        leg.amount,
        root,
    )
}

proof fn lemma_asset_legs_in_order(
    s: Seq<ClearingObligation>,
    asset: Identifier,
    cycle_id: Identifier,
    root: Digest32,
)
    requires
        crate::netting::all_well_formed(s),
        total(debts(s, asset)) <= u128::MAX,
    ensures
        forall|k: int|
            0 <= k < asset_legs(s, asset, cycle_id, root).len() ==> {
                let leg = #[trigger] asset_legs(s, asset, cycle_id, root)[k];
                leg.asset_id == asset && leg_proper(s, leg, cycle_id, root)
            },
        forall|k: int, l: int|
            0 <= k < l < asset_legs(s, asset, cycle_id, root).len() ==> steps_down(
                #[trigger] asset_legs(s, asset, cycle_id, root)[k],
                #[trigger] asset_legs(s, asset, cycle_id, root)[l],
            ),
{
    let legs = asset_legs(s, asset, cycle_id, root);
    let owed = debts(s, asset);
    let due = credits(s, asset);
    lemma_tidy_balances(s, asset, true);
    lemma_tidy_balances(s, asset, false);
    lemma_paired_in_order(owed, due);
    let payments = paired(owed, due);
    assert forall|k: int| 0 <= k < legs.len() implies {
        let leg = #[trigger] legs[k];
        leg.asset_id == asset && leg_proper(s, leg, cycle_id, root)
    } by {
        law_netted_legs_go_one_way(s, asset, cycle_id, root, k);
        let p = payments[k];
        assert(legs[k] == ClearingLeg::between(cycle_id, p.0, p.1, asset, p.2 as u128, root));
    }
    assert forall|k: int, l: int| 0 <= k < l < legs.len() implies steps_down(
        #[trigger] legs[k],
        #[trigger] legs[l],
    ) by {
        assert(payment_before(payments[k], payments[l]));
    }
}

proof fn lemma_net_legs_in_order(
    s: Seq<ClearingObligation>,
    assets: Seq<Identifier>,
    cycle_id: Identifier,
    root: Digest32,
)
    requires
        crate::netting::all_well_formed(s),
        is_ascending(assets),
        forall|i: int| 0 <= i < assets.len() ==> total(debts(s, #[trigger] assets[i])) <= u128::MAX,
    ensures
        forall|k: int|
            0 <= k < net_legs(s, assets, cycle_id, root).len() ==> {
                let leg = #[trigger] net_legs(s, assets, cycle_id, root)[k];
                assets.contains(leg.asset_id) && leg_proper(s, leg, cycle_id, root)
            },
        forall|k: int, l: int|
            0 <= k < l < net_legs(s, assets, cycle_id, root).len() ==> steps_down(
                #[trigger] net_legs(s, assets, cycle_id, root)[k],
                #[trigger] net_legs(s, assets, cycle_id, root)[l],
            ),
    decreases assets.len(),
{
    if assets.len() > 0 {
        let front = assets.drop_last();
        let last = assets[assets.len() - 1];
        assert forall|i: int| 0 <= i < front.len() implies total(debts(s, #[trigger] front[i]))
            <= u128::MAX by {
            assert(front[i] == assets[i]);
        }
        lemma_net_legs_in_order(s, front, cycle_id, root);
        lemma_asset_legs_in_order(s, last, cycle_id, root);
        let before = net_legs(s, front, cycle_id, root);
        let more = asset_legs(s, last, cycle_id, root);
        let all = net_legs(s, assets, cycle_id, root);
        assert(all == before + more);
        assert forall|k: int| 0 <= k < all.len() implies {
            let leg = #[trigger] all[k];
            assets.contains(leg.asset_id) && leg_proper(s, leg, cycle_id, root)
        } by {
            if k < before.len() {
                assert(all[k] == before[k]);
                let a = choose|a: int| 0 <= a < front.len() && front[a] == before[k].asset_id;
                assert(assets[a] == all[k].asset_id);
            } else {
                assert(all[k] == more[k - before.len()]);
                assert(assets[assets.len() - 1] == all[k].asset_id);
            }
        }
        assert forall|k: int, l: int| 0 <= k < l < all.len() implies steps_down(
            #[trigger] all[k],
            #[trigger] all[l],
        ) by {
            if l < before.len() {
                assert(all[k] == before[k] && all[l] == before[l]);
            } else if k < before.len() {
                assert(all[k] == before[k]);
                assert(all[l] == more[l - before.len()]);
                let a = choose|a: int| 0 <= a < front.len() && front[a] == before[k].asset_id;
                assert(assets[a] == front[a]);
                assert(rank(assets[a]) < rank(last));
            } else {
                assert(all[k] == more[k - before.len()] && all[l] == more[l - before.len()]);
            }
        }
    }
}

proof fn lemma_gross_legs_carry(
    s: Seq<ClearingObligation>,
    cycle: CycleView,
    cycle_id: Identifier,
    root: Digest32,
)
    ensures
        ({
            let kept = s.filter(|o: ClearingObligation| !netted_in(cycle, o.asset_id));
            let legs = gross_legs(s, cycle.mode, cycle.settlement_asset_id, cycle_id, root);
            &&& legs.len() == kept.len()
            &&& forall|i: int|
                0 <= i < kept.len() ==> #[trigger] legs[i] == ClearingLeg::between(
                    cycle_id,
                    kept[i].payer_id,
                    kept[i].payee_id,
                    kept[i].asset_id,
                    kept[i].amount,
                    root,
                )
        }),
    decreases s.len(),
{
    reveal(Seq::filter);
    let keep = |o: ClearingObligation| !netted_in(cycle, o.asset_id);
    if s.len() > 0 {
        lemma_gross_legs_carry(s.drop_last(), cycle, cycle_id, root);
        let before = s.drop_last().filter(keep);
        let all = s.filter(keep);
        if keep(s.last()) {
            assert(all == before.push(s.last()));
        } else {
            assert(all == before);
        }
    }
}

proof fn lemma_kept_complete(s: Seq<ClearingObligation>, cycle: CycleView)
    requires
        forall|i: int| 0 <= i < s.len() ==> obligation_complete(#[trigger] s[i]),
    ensures
        ({
            let kept = s.filter(|o: ClearingObligation| !netted_in(cycle, o.asset_id));
            forall|i: int|
                0 <= i < kept.len() ==> obligation_complete(#[trigger] kept[i]) && !netted_in(
                    cycle,
                    kept[i].asset_id,
                )
        }),
    decreases s.len(),
{
    reveal(Seq::filter);
    let keep = |o: ClearingObligation| !netted_in(cycle, o.asset_id);
    if s.len() > 0 {
        let front = s.drop_last();
        assert forall|i: int| 0 <= i < front.len() implies obligation_complete(#[trigger] front[i]) by {
            assert(front[i] == s[i]);
        }
        lemma_kept_complete(front, cycle);
        assert(obligation_complete(s[s.len() - 1]));
        let before = front.filter(keep);
        let all = s.filter(keep);
        if keep(s.last()) {
            assert(all == before.push(s.last()));
        } else {
            assert(all == before);
        }
    }
}

/// The legs of a proposal, one by one. In front stand the obligations in assets
/// that are not netted, each as it is, in ascending order of the obligations;
/// behind them the legs of netted assets, each from a member that pays on balance
/// to one that receives on balance, in ascending order of asset, payer, and payee.
/// Every leg moves a positive amount between two members, and its instruction is
/// bound to the cycle, the leg, and the root of the obligations.
pub proof fn law_legs_in_detail(
    book: ClearingBook,
    cycle_id: Identifier,
    r: Result<NettingProposal, DeCcpError>,
) -> (ordered: Seq<ClearingObligation>)
    requires
        call_ensures(ClearingBook::prepare_close, (&book, &cycle_id), r),
        r is Ok,
    ensures
        ({
            let cycle = book@.cycles[cycle_id];
            let legs = r->Ok_0@.legs;
            let listed = cycle.obligations.map_values(|id: Identifier| book@.obligations[id]);
            let kept = ordered.filter(|o: ClearingObligation| !netted_in(cycle, o.asset_id));
            &&& obligations_ascend(ordered)
            &&& ordered.to_multiset() == listed.to_multiset()
            &&& kept.len() <= legs.len()
            &&& forall|i: int|
                0 <= i < kept.len() ==> carries_over(#[trigger] legs[i], kept[i])
            &&& forall|i: int|
                kept.len() <= i < legs.len() ==> {
                    &&& netted_in(cycle, (#[trigger] legs[i]).asset_id)
                    &&& position(book@, cycle, legs[i].asset_id, legs[i].payer_id) < 0
                    &&& position(book@, cycle, legs[i].asset_id, legs[i].payee_id) > 0
                }
            &&& forall|i: int, j: int|
                kept.len() <= i < j < legs.len() ==> steps_down(
                    #[trigger] legs[i],
                    #[trigger] legs[j],
                )
            &&& forall|i: int|
                0 <= i < legs.len() ==> {
                    let leg = #[trigger] legs[i];
                    &&& leg.amount > 0
                    &&& leg.payer_id != leg.payee_id
                    &&& leg.instruction_context_digest == tagged(
                        "DECCP:ZKPI-CONTEXT:v1",
                        seq![
                            cycle_id@,
                            leg.payer_id@,
                            leg.payee_id@,
                            leg.asset_id@,
                            wide(leg.amount as nat, 16),
                            r->Ok_0@.obligation_root@,
                        ],
                    )
                }
        }),
{
    let cycle = book@.cycles[cycle_id];
    let batch = book@.batch(cycle);
    let root = root_of(batch);
    let listed = cycle.obligations.map_values(|id: Identifier| book@.obligations[id]);
    let legs = r->Ok_0@.legs;
    let kept = batch.filter(|o: ClearingObligation| !netted_in(cycle, o.asset_id));
    law_proposal_debits(book, cycle_id, r, cycle_id);
    law_obligations_in_order(listed);
    crate::laws::clearing::lemma_batch_sound(book@, cycle);
    lemma_gross_legs_carry(batch, cycle, cycle_id, root);
    lemma_kept_complete(batch, cycle);
    let set = netted_assets(batch, cycle.mode, cycle.settlement_asset_id);
    let seen = batch.map_values(|o: ClearingObligation| o.asset_id);
    vstd::seq_lib::seq_to_set_is_finite(seen);
    assert forall|a: Identifier| set.contains(a) implies seen.to_set().contains(a) by {
        let i = choose|i: int| 0 <= i < batch.len() && (#[trigger] batch[i]).asset_id == a;
        assert(seen[i] == a);
    }
    vstd::set_lib::lemma_set_subset_finite(seen.to_set(), set);
    lemma_ascending_exists(set);
    let assets = ascending(set);
    assert forall|i: int| 0 <= i < assets.len() implies total(debts(batch, #[trigger] assets[i]))
        <= u128::MAX by {
        assert(assets.to_set().contains(assets[i]));
        assert(set.contains(assets[i]));
    }
    lemma_net_legs_in_order(batch, assets, cycle_id, root);
    let gross = gross_legs(batch, cycle.mode, cycle.settlement_asset_id, cycle_id, root);
    let net = net_legs(batch, assets, cycle_id, root);
    assert(legs == gross + net);
    assert forall|i: int| kept.len() <= i < legs.len() implies {
        &&& netted_in(cycle, (#[trigger] legs[i]).asset_id)
        &&& position(book@, cycle, legs[i].asset_id, legs[i].payer_id) < 0
        &&& position(book@, cycle, legs[i].asset_id, legs[i].payee_id) > 0
    } by {
        let leg = net[i - gross.len()];
        assert(legs[i] == leg);
        assert(leg_proper(batch, leg, cycle_id, root));
        let a = choose|a: int| 0 <= a < assets.len() && assets[a] == leg.asset_id;
        assert(assets.to_set().contains(assets[a]));
        assert(set.contains(leg.asset_id));
        lemma_position(book@.obligations, cycle.obligations, leg.asset_id, leg.payer_id);
        lemma_position(book@.obligations, cycle.obligations, leg.asset_id, leg.payee_id);
        crate::laws::netting::law_order_keeps_positions(listed, leg.asset_id, leg.payer_id);
        crate::laws::netting::law_order_keeps_positions(listed, leg.asset_id, leg.payee_id);
    }
    assert forall|i: int, j: int| kept.len() <= i < j < legs.len() implies steps_down(
        #[trigger] legs[i],
        #[trigger] legs[j],
    ) by {
        assert(legs[i] == net[i - gross.len()]);
        assert(legs[j] == net[j - gross.len()]);
    }
    assert forall|i: int| 0 <= i < legs.len() implies {
        let leg = #[trigger] legs[i];
        &&& leg.amount > 0
        &&& leg.payer_id != leg.payee_id
        &&& leg.instruction_context_digest == tagged(
            "DECCP:ZKPI-CONTEXT:v1",
            seq![
                cycle_id@,
                leg.payer_id@,
                leg.payee_id@,
                leg.asset_id@,
                wide(leg.amount as nat, 16),
                root@,
            ],
        )
    } by {
        let leg = legs[i];
        law_leg_context(
            cycle_id,
            leg.payer_id,
            leg.payee_id,
            leg.asset_id,
            leg.amount,
            root,
        );
        if i < gross.len() {
            assert(legs[i] == gross[i]);
            assert(obligation_complete(kept[i]));
        } else {
            assert(legs[i] == net[i - gross.len()]);
            assert(leg_proper(batch, leg, cycle_id, root));
        }
    }
    assert forall|i: int| 0 <= i < kept.len() implies carries_over(#[trigger] legs[i], kept[i]) by {
        assert(legs[i] == gross[i]);
    }
    batch
}

/// The leaf of an obligation commits to each of its fields.
pub open spec fn leaf_of(o: ClearingObligation) -> Digest32 {
    tagged(
        "DECCP:OBLIGATION:v1",
        seq![
            o.operation_id@,
            o.obligation_id@,
            o.cycle_id@,
            o.payer_id@,
            o.payee_id@,
            o.asset_id@,
            wide(o.amount as nat, 16),
            wide(o.risk_value as nat, 16),
            o.zkpi_digest@,
        ],
    )
}

/// Digests one after another.
pub open spec fn run_together(digests: Seq<Digest32>) -> Seq<u8>
    decreases digests.len(),
{
    if digests.len() == 0 {
        Seq::empty()
    } else {
        run_together(digests.drop_last()) + digests.last()@
    }
}

proof fn lemma_run_together(digests: Seq<Digest32>)
    ensures
        joined(digests) == run_together(digests),
    decreases digests.len(),
{
    if digests.len() > 0 {
        lemma_run_together(digests.drop_last());
    }
}

/// The root of a batch is taken over the number of its obligations and their
/// leaves in ascending order; a batch has one exactly if every obligation is
/// complete.
pub proof fn law_obligation_root(
    batch: Vec<ClearingObligation>,
    r: Result<Digest32, DeCcpError>,
) -> (leaves: Seq<Digest32>)
    requires
        call_ensures(crate::netting::obligation_root, (&batch,), r),
    ensures
        r is Ok <==> forall|i: int|
            0 <= i < batch@.len() ==> obligation_complete(#[trigger] batch@[i]),
        r matches Err(error) ==> error == DeCcpError::InvalidObligation,
        digests_ascend(leaves),
        leaves.to_multiset() == batch@.map_values(|o: ClearingObligation| leaf_of(o)).to_multiset(),
        r is Ok ==> r->Ok_0 == sha256_of(
            bytes_of("DECCP:OBLIGATION-ROOT:v1") + wide(batch@.len() as u32 as nat, 4)
                + run_together(leaves),
        ),
{
    let all = batch@.map_values(|o: ClearingObligation| o.leaf());
    assert(all =~= batch@.map_values(|o: ClearingObligation| leaf_of(o))) by {
        assert forall|i: int| 0 <= i < batch@.len() implies (#[trigger] batch@[i]).leaf()
            == leaf_of(batch@[i]) by {
            law_obligation_leaf(batch@[i]);
        }
    }
    let leaves = crate::netting::digests_in_order(all);
    law_digests_in_order(all);
    lemma_run_together(leaves);
    law_numbers_are_big_endian(batch@.len() as u32 as nat, 4);
    assert forall|i: int| 0 <= i < batch@.len() implies (#[trigger] batch@[i]).well_formed()
        == obligation_complete(batch@[i]) by {
        crate::laws::clearing::lemma_obligation_complete(batch@[i]);
    }
    leaves
}

/// The root of a proposal commits to the listed obligations: their number, and
/// their leaves in ascending order.
pub proof fn law_proposal_root(
    book: ClearingBook,
    cycle_id: Identifier,
    r: Result<NettingProposal, DeCcpError>,
) -> (leaves: Seq<Digest32>)
    requires
        call_ensures(ClearingBook::prepare_close, (&book, &cycle_id), r),
        r is Ok,
    ensures
        ({
            let cycle = book@.cycles[cycle_id];
            let listed = cycle.obligations.map_values(|id: Identifier| book@.obligations[id]);
            &&& digests_ascend(leaves)
            &&& leaves.to_multiset() == listed.map_values(
                |o: ClearingObligation| leaf_of(o),
            ).to_multiset()
            &&& r->Ok_0@.obligation_root == sha256_of(
                bytes_of("DECCP:OBLIGATION-ROOT:v1") + wide(
                    cycle.obligations.len() as u32 as nat,
                    4,
                ) + run_together(leaves),
            )
        }),
{
    let cycle = book@.cycles[cycle_id];
    let listed = cycle.obligations.map_values(|id: Identifier| book@.obligations[id]);
    let batch = book@.batch(cycle);
    law_proposal_debits(book, cycle_id, r, cycle_id);
    crate::laws::clearing::lemma_batch_sound(book@, cycle);
    law_obligations_in_order(listed);
    let all = batch.map_values(|o: ClearingObligation| o.leaf());
    let raw = |o: ClearingObligation| leaf_of(o);
    assert(all =~= batch.map_values(raw)) by {
        assert forall|i: int| 0 <= i < batch.len() implies (#[trigger] batch[i]).leaf() == leaf_of(
            batch[i],
        ) by {
            law_obligation_leaf(batch[i]);
        }
    }
    lemma_mapped_multiset(batch, listed, raw);
    let leaves = crate::netting::digests_in_order(all);
    law_digests_in_order(all);
    lemma_run_together(leaves);
    law_numbers_are_big_endian(batch.len() as u32 as nat, 4);
    leaves
}

/// Mapping keeps which elements there are.
proof fn lemma_mapped_multiset(
    a: Seq<ClearingObligation>,
    b: Seq<ClearingObligation>,
    f: spec_fn(ClearingObligation) -> Digest32,
)
    requires
        a.to_multiset() == b.to_multiset(),
    ensures
        a.map_values(f).to_multiset() == b.map_values(f).to_multiset(),
    decreases a.len(),
{
    a.to_multiset_ensures();
    b.to_multiset_ensures();
    assert(a.len() == b.len());
    if a.len() > 0 {
        let x = a.last();
        assert(a.contains(x));
        assert(b.to_multiset().count(x) > 0);
        assert(b.contains(x));
        let j = choose|j: int| 0 <= j < b.len() && b[j] == x;
        let front = a.drop_last();
        let rest = b.remove(j);
        assert(front.to_multiset() =~= a.to_multiset().remove(x)) by {
            assert(front.push(x) =~= a);
            front.to_multiset_ensures();
        }
        assert(rest.to_multiset() =~= b.to_multiset().remove(x));
        lemma_mapped_multiset(front, rest, f);
        front.map_values(f).to_multiset_ensures();
        b.map_values(f).to_multiset_ensures();
        assert(front.map_values(f).push(f(x)) =~= a.map_values(f));
        assert(b.map_values(f).remove(j) =~= rest.map_values(f));
        assert(b.map_values(f)[j] == f(x));
        assert(b.map_values(f).contains(f(x)));
        assert(b.map_values(f).to_multiset() =~= rest.map_values(f).to_multiset().insert(f(x)));
        assert(a.map_values(f).to_multiset() =~= front.map_values(f).to_multiset().insert(f(x)));
    } else {
        assert(a.map_values(f) =~= b.map_values(f));
    }
}

/// The bytes of legs in what the authorities approve: payer, payee, and asset, the
/// amount in sixteen bytes, and the context of the instruction.
pub open spec fn legs_written(legs: Seq<ClearingLeg>) -> Seq<u8>
    decreases legs.len(),
{
    if legs.len() == 0 {
        Seq::empty()
    } else {
        let leg = legs.last();
        legs_written(legs.drop_last()) + leg.payer_id@ + leg.payee_id@ + leg.asset_id@ + wide(
            leg.amount as nat,
            16,
        ) + leg.instruction_context_digest@
    }
}

proof fn lemma_legs_written(legs: Seq<ClearingLeg>)
    ensures
        legs_bytes(legs) == legs_written(legs),
    decreases legs.len(),
{
    if legs.len() > 0 {
        lemma_legs_written(legs.drop_last());
        law_numbers_are_big_endian(legs.last().amount as nat, 16);
        assert(legs_bytes(legs) =~= legs_written(legs));
    }
}

/// A byte string in hexadecimal digits, two for each byte, in lower case.
pub open spec fn digits(data: Seq<u8>) -> Seq<u8> {
    Seq::new(
        2 * data.len(),
        |i: int|
            {
                let half = if i % 2 == 0 {
                    data[i / 2] / 16
                } else {
                    data[i / 2] % 16
                };
                if half < 10 {
                    (48 + half) as u8
                } else {
                    (97 + (half - 10)) as u8
                }
            },
    )
}

/// Keys are written in lower-case hexadecimal digits.
pub proof fn law_hexadecimal(data: Seq<u8>)
    ensures
        hex(data) == digits(data),
    decreases data.len(),
{
    if data.len() > 0 {
        law_hexadecimal(data.drop_last());
        let before = digits(data.drop_last());
        assert forall|i: int| 0 <= i < digits(data).len() implies hex(data)[i] == digits(data)[i] by {
            if i < before.len() {
                assert(data.drop_last()[i / 2] == data[i / 2]);
                assert(hex(data)[i] == before[i]);
            }
        }
        assert(hex(data) =~= digits(data));
    } else {
        assert(hex(data) =~= digits(data));
    }
}

/// The bytes of risk debits in what the authorities approve: for each member in
/// order the length of its key, the key in hexadecimal digits, and the amount in
/// sixteen bytes.
pub open spec fn debits_written(members: Seq<Identifier>, debits: Map<Identifier, u128>) -> Seq<u8>
    decreases members.len(),
{
    if members.len() == 0 {
        Seq::empty()
    } else {
        let m = members.last();
        debits_written(members.drop_last(), debits) + seq![0u8, 0, 0, 64] + digits(m@) + wide(
            debits[m] as nat,
            16,
        )
    }
}

proof fn lemma_debits_written(members: Seq<Identifier>, debits: Map<Identifier, u128>)
    ensures
        debits_bytes(members, debits) == debits_written(members, debits),
    decreases members.len(),
{
    if members.len() > 0 {
        let m = members.last();
        lemma_debits_written(members.drop_last(), debits);
        law_numbers_are_big_endian(debits[m] as nat, 16);
        law_hexadecimal(m@);
        assert(crate::transcript::big_endian(64, 4) =~= seq![0u8, 0, 0, 64]) by {
            reveal_with_fuel(crate::transcript::big_endian, 5);
        }
        assert(debits_bytes(members, debits) =~= debits_written(members, debits));
    }
}

/// What the authorities approve of a proposal commits to the cycle, the mode, the
/// root, every leg in order, and every risk debit in ascending order of member.
pub proof fn law_proposal_digest(
    book: ClearingBook,
    cycle_id: Identifier,
    r: Result<NettingProposal, DeCcpError>,
)
    requires
        call_ensures(ClearingBook::prepare_close, (&book, &cycle_id), r),
        r is Ok,
    ensures
        ({
            let proposal = r->Ok_0@;
            proposal.proposal_digest == sha256_of(
                bytes_of("DECCP:NETTING-PROPOSAL:v1") + cycle_id@ + seq![
                    mode_byte(book@.cycles[cycle_id].mode),
                ] + proposal.obligation_root@ + wide(proposal.legs.len() as u32 as nat, 4)
                    + legs_written(proposal.legs) + debits_written(
                    ascending(proposal.risk_debits.dom()),
                    proposal.risk_debits,
                ),
            )
        }),
{
    let proposal = r->Ok_0@;
    lemma_legs_written(proposal.legs);
    lemma_debits_written(ascending(proposal.risk_debits.dom()), proposal.risk_debits);
    law_numbers_are_big_endian(proposal.legs.len() as u32 as nat, 4);
}

/// The amounts, and the risk values, of obligations added up.
pub open spec fn volume(s: Seq<ClearingObligation>) -> (int, int)
    decreases s.len(),
{
    if s.len() == 0 {
        (0, 0)
    } else {
        let before = volume(s.drop_last());
        (before.0 + s.last().amount, before.1 + s.last().risk_value)
    }
}

proof fn lemma_volume_bounds(s: Seq<ClearingObligation>, k: int, asset: Identifier, m: Identifier)
    requires
        0 <= k <= s.len(),
    ensures
        0 <= volume(s.take(k)).0 <= volume(s).0,
        0 <= volume(s.take(k)).1 <= volume(s).1,
        k < s.len() ==> s[k].amount <= volume(s).0 && s[k].risk_value <= volume(s).1,
        -volume(s).0 <= net_position(s, asset, m) <= volume(s).0,
        -volume(s).1 <= crate::netting::risk_position(s, m) <= volume(s).1,
        0 <= crate::netting::gross_risk(s, m) <= volume(s).1,
    decreases s.len(),
{
    if s.len() > 0 {
        let front = s.drop_last();
        if k == s.len() {
            lemma_volume_bounds(front, 0, asset, m);
            assert(s.take(k) =~= s);
        } else {
            lemma_volume_bounds(front, k, asset, m);
            assert(front.take(k) =~= s.take(k));
        }
    } else {
        assert(s.take(k) =~= s);
    }
}

/// What the members under `keys` pay on balance in an asset, added up.
spec fn owed_by(s: Seq<ClearingObligation>, asset: Identifier, keys: Seq<Identifier>) -> int
    decreases keys.len(),
{
    if keys.len() == 0 {
        0
    } else {
        owed_by(s, asset, keys.drop_last()) + if net_position(s, asset, keys.last()) < 0 {
            -net_position(s, asset, keys.last())
        } else {
            0
        }
    }
}

proof fn lemma_owed_grows(s: Seq<ClearingObligation>, asset: Identifier, keys: Seq<Identifier>)
    requires
        s.len() > 0,
        is_ascending(keys),
    ensures
        owed_by(s, asset, keys) <= owed_by(s.drop_last(), asset, keys) + (if keys.contains(
            s.last().payer_id,
        ) {
            s.last().amount as int
        } else {
            0
        }),
    decreases keys.len(),
{
    if keys.len() > 0 {
        let front = keys.drop_last();
        let last = keys[keys.len() - 1];
        lemma_owed_grows(s, asset, front);
        if front.contains(s.last().payer_id) {
            let i = choose|i: int| 0 <= i < front.len() && front[i] == s.last().payer_id;
            assert(keys[i] == s.last().payer_id);
            assert(rank(keys[i]) < rank(last));
        }
        if last == s.last().payer_id {
            assert(keys.contains(last));
        }
    }
}

proof fn lemma_owed_within_volume(
    s: Seq<ClearingObligation>,
    asset: Identifier,
    keys: Seq<Identifier>,
)
    requires
        is_ascending(keys),
    ensures
        owed_by(s, asset, keys) <= volume(s).0,
    decreases s.len(),
{
    if s.len() > 0 {
        lemma_owed_within_volume(s.drop_last(), asset, keys);
        lemma_owed_grows(s, asset, keys);
    } else {
        lemma_nothing_owed(s, asset, keys);
    }
}

proof fn lemma_nothing_owed(s: Seq<ClearingObligation>, asset: Identifier, keys: Seq<Identifier>)
    requires
        s.len() == 0,
    ensures
        owed_by(s, asset, keys) == 0,
    decreases keys.len(),
{
    if keys.len() > 0 {
        lemma_nothing_owed(s, asset, keys.drop_last());
    }
}

proof fn lemma_debts_are_owed(s: Seq<ClearingObligation>, asset: Identifier, keys: Seq<Identifier>)
    requires
        forall|i: int| 0 <= i < keys.len() ==> balance(s, asset, #[trigger] keys[i], true) > 0,
    ensures
        total(keys.map_values(|m: Identifier| (m, balance(s, asset, m, true)))) == owed_by(
            s,
            asset,
            keys,
        ),
    decreases keys.len(),
{
    let entry = |m: Identifier| (m, balance(s, asset, m, true));
    if keys.len() > 0 {
        let front = keys.drop_last();
        assert forall|i: int| 0 <= i < front.len() implies balance(
            s,
            asset,
            #[trigger] front[i],
            true,
        ) > 0 by {
            assert(front[i] == keys[i]);
        }
        lemma_debts_are_owed(s, asset, front);
        assert(keys.map_values(entry).drop_last() =~= front.map_values(entry));
        assert(keys.map_values(entry).last() == entry(keys[keys.len() - 1]));
    }
}

proof fn lemma_debts_within_volume(s: Seq<ClearingObligation>, asset: Identifier)
    ensures
        total(debts(s, asset)) <= volume(s).0,
{
    let set = Set::new(|m: Identifier| balance(s, asset, m, true) > 0);
    lemma_positive_balances_finite(s, asset, true);
    lemma_ascending_exists(set);
    let keys = ascending(set);
    assert forall|i: int| 0 <= i < keys.len() implies balance(
        s,
        asset,
        #[trigger] keys[i],
        true,
    ) > 0 by {
        assert(keys.to_set().contains(keys[i]));
        assert(set.contains(keys[i]));
    }
    lemma_debts_are_owed(s, asset, keys);
    lemma_owed_within_volume(s, asset, keys);
}

proof fn lemma_placed_volume(s: Seq<ClearingObligation>, x: ClearingObligation)
    ensures
        volume(crate::netting::obligation_placed(s, x)).0 == volume(s).0 + x.amount,
        volume(crate::netting::obligation_placed(s, x)).1 == volume(s).1 + x.risk_value,
    decreases s.len(),
{
    if s.len() == 0 || rank(s.last().obligation_id) <= rank(x.obligation_id) {
        assert(s.push(x).drop_last() =~= s);
    } else {
        lemma_placed_volume(s.drop_last(), x);
        let front = crate::netting::obligation_placed(s.drop_last(), x);
        assert(front.push(s.last()).drop_last() =~= front);
    }
}

proof fn lemma_ordered_volume(s: Seq<ClearingObligation>)
    ensures
        volume(crate::netting::obligations_in_order(s)) == volume(s),
    decreases s.len(),
{
    if s.len() > 0 {
        lemma_ordered_volume(s.drop_last());
        lemma_placed_volume(crate::netting::obligations_in_order(s.drop_last()), s.last());
    }
}

/// A cycle whose amounts and whose risk values each add up within 127 bits is
/// never refused for its size.
pub proof fn law_modest_cycles_fit(
    book: ClearingBook,
    cycle_id: Identifier,
    r: Result<NettingProposal, DeCcpError>,
)
    requires
        call_ensures(ClearingBook::prepare_close, (&book, &cycle_id), r),
        ({
            let ids = book@.cycles[cycle_id].obligations;
            let listed = ids.map_values(|id: Identifier| book@.obligations[id]);
            volume(listed).0 <= i128::MAX && volume(listed).1 <= i128::MAX
        }),
    ensures
        !(r matches Err(DeCcpError::ArithmeticOverflow)),
{
    let cycle = book@.cycles[cycle_id];
    let listed = cycle.obligations.map_values(|id: Identifier| book@.obligations[id]);
    let batch = book@.batch(cycle);
    lemma_ordered_volume(listed);
    assert forall|k: int| 0 <= k < batch.len() implies #[trigger] crate::netting::step_fits(
        batch,
        k,
        cycle.mode,
        cycle.settlement_asset_id,
    ) by {
        let o = batch[k];
        let booked = batch.take(k + 1);
        lemma_volume_bounds(batch, k, o.asset_id, o.payer_id);
        lemma_volume_bounds(batch, k + 1, o.asset_id, o.payer_id);
        lemma_volume_bounds(booked, 0, o.asset_id, o.payer_id);
        lemma_volume_bounds(booked, 0, o.asset_id, o.payee_id);
    }
    assert forall|asset: Identifier| #[trigger]
        netted_assets(batch, cycle.mode, cycle.settlement_asset_id).contains(
            asset,
        ) implies total(debts(batch, asset)) <= u128::MAX by {
        lemma_debts_within_volume(batch, asset);
    }
    let called = crate::netting::risk_debits(batch, cycle.mode);
    crate::laws::clearing::lemma_margin_refusal(book@, ascending(called.dom()), called);
}

/// A cycle with an obligation whose amount or risk does not fit in 127 bits gets
/// no proposal.
pub proof fn law_oversized_obligations_are_refused(
    book: ClearingBook,
    cycle_id: Identifier,
    r: Result<NettingProposal, DeCcpError>,
    i: int,
)
    requires
        call_ensures(ClearingBook::prepare_close, (&book, &cycle_id), r),
        0 <= i < book@.cycles[cycle_id].obligations.len(),
        ({
            let o = book@.obligations[book@.cycles[cycle_id].obligations[i]];
            o.amount > i128::MAX || o.risk_value > i128::MAX
        }),
    ensures
        r is Err,
{
    let cycle = book@.cycles[cycle_id];
    let listed = cycle.obligations.map_values(|id: Identifier| book@.obligations[id]);
    let batch = book@.batch(cycle);
    law_obligations_in_order(listed);
    batch.to_multiset_ensures();
    listed.to_multiset_ensures();
    assert(listed.contains(listed[i]));
    assert(batch.to_multiset().count(listed[i]) > 0);
    assert(batch.contains(listed[i]));
    let k = choose|k: int| 0 <= k < batch.len() && batch[k] == listed[i];
    if r is Ok {
        assert(crate::netting::step_fits(batch, k, cycle.mode, cycle.settlement_asset_id));
    }
}

} // verus!
