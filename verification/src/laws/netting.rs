//! Laws of netting: positions are conserved, risk is covered, and each mode
//! keeps what it must keep.

use vstd::prelude::*;

use crate::book::BookState;
use crate::cycles::{ClearingLeg, ClearingObligation, NettingMode};
use crate::ident::{ascending, is_ascending, lemma_ascending_exists, rank, Digest32, Identifier};
use crate::netting::{
    all_well_formed, asset_legs, balance, balances, contribution, credits, debts, gross_legs,
    lemma_debts_equal_credits, lemma_positive_balances_finite, legs_for, net_legs, net_position,
    netted_assets, netting_fits, obligation_placed, obligations_in_order, paired, reduced,
    risk_debit, risk_debits, root_of, total,
};

verus! {

/// What a member receives less what it pays in an asset over legs.
pub open spec fn legs_position(legs: Seq<ClearingLeg>, asset: Identifier, member: Identifier) -> int
    decreases legs.len(),
{
    if legs.len() == 0 {
        0
    } else {
        legs_position(legs.drop_last(), asset, member) + leg_contribution(
            legs.last(),
            asset,
            member,
        )
    }
}

/// What a leg adds to a member's position in an asset.
pub open spec fn leg_contribution(leg: ClearingLeg, asset: Identifier, member: Identifier) -> int {
    if leg.asset_id != asset {
        0
    } else if member == leg.payer_id {
        -leg.amount
    } else if member == leg.payee_id {
        leg.amount as int
    } else {
        0
    }
}

proof fn lemma_legs_position_joined(
    a: Seq<ClearingLeg>,
    b: Seq<ClearingLeg>,
    asset: Identifier,
    member: Identifier,
)
    ensures
        legs_position(a + b, asset, member) == legs_position(a, asset, member) + legs_position(
            b,
            asset,
            member,
        ),
    decreases b.len(),
{
    if b.len() == 0 {
        assert(a + b =~= a);
    } else {
        assert((a + b).drop_last() =~= a + b.drop_last());
        lemma_legs_position_joined(a, b.drop_last(), asset, member);
    }
}

/// What members pay, or receive, over a list of balances.
spec fn listed(list: Seq<(Identifier, int)>, member: Identifier) -> int
    decreases list.len(),
{
    if list.len() == 0 {
        0
    } else {
        listed(list.drop_last(), member) + (if list.last().0 == member {
            list.last().1
        } else {
            0
        })
    }
}

/// What a member receives less what it pays over payments.
spec fn payments_position(
    payments: Seq<(Identifier, Identifier, int)>,
    member: Identifier,
) -> int
    decreases payments.len(),
{
    if payments.len() == 0 {
        0
    } else {
        payments_position(payments.drop_last(), member) + payment_contribution(
            payments.last(),
            member,
        )
    }
}

spec fn payment_contribution(payment: (Identifier, Identifier, int), member: Identifier) -> int {
    (if payment.1 == member {
        payment.2
    } else {
        0
    }) - (if payment.0 == member {
        payment.2
    } else {
        0
    })
}

proof fn lemma_payments_front(payments: Seq<(Identifier, Identifier, int)>, member: Identifier)
    requires
        payments.len() > 0,
    ensures
        payments_position(payments, member) == payment_contribution(payments[0], member)
            + payments_position(payments.skip(1), member),
    decreases payments.len(),
{
    if payments.len() == 1 {
        assert(payments.drop_last() =~= Seq::empty());
        assert(payments.skip(1) =~= Seq::empty());
    } else {
        lemma_payments_front(payments.drop_last(), member);
        assert(payments.drop_last().skip(1) =~= payments.skip(1).drop_last());
    }
}

proof fn lemma_listed_front(list: Seq<(Identifier, int)>, member: Identifier)
    requires
        list.len() > 0,
    ensures
        listed(list, member) == (if list[0].0 == member {
            list[0].1
        } else {
            0
        }) + listed(list.skip(1), member),
        total(list) == list[0].1 + total(list.skip(1)),
    decreases list.len(),
{
    if list.len() == 1 {
        assert(list.drop_last() =~= Seq::empty());
        assert(list.skip(1) =~= Seq::empty());
    } else {
        lemma_listed_front(list.drop_last(), member);
        assert(list.drop_last().skip(1) =~= list.skip(1).drop_last());
    }
}

spec fn all_positive(list: Seq<(Identifier, int)>) -> bool {
    forall|i: int| 0 <= i < list.len() ==> (#[trigger] list[i]).1 > 0
}

proof fn lemma_total_positive(list: Seq<(Identifier, int)>)
    requires
        all_positive(list),
        list.len() > 0,
    ensures
        total(list) > 0,
    decreases list.len(),
{
    let rest = list.drop_last();
    assert(all_positive(rest)) by {
        assert forall|i: int| 0 <= i < rest.len() implies (#[trigger] rest[i]).1 > 0 by {
            assert(rest[i] == list[i]);
        }
    }
    assert(list[list.len() - 1].1 > 0);
    if rest.len() > 0 {
        lemma_total_positive(rest);
    } else {
        assert(total(rest) == 0);
    }
}

proof fn lemma_reduced(list: Seq<(Identifier, int)>, amount: int, member: Identifier)
    requires
        list.len() > 0,
        all_positive(list),
        0 < amount <= list[0].1,
    ensures
        all_positive(reduced(list, amount)),
        total(reduced(list, amount)) == total(list) - amount,
        listed(reduced(list, amount), member) == listed(list, member) - (if list[0].0 == member {
            amount
        } else {
            0
        }),
{
    let after = reduced(list, amount);
    lemma_listed_front(list, member);
    if list[0].1 == amount {
        assert forall|i: int| 0 <= i < after.len() implies (#[trigger] after[i]).1 > 0 by {
            assert(after[i] == list[i + 1]);
        }
    } else {
        lemma_listed_front(after, member);
        assert(after.skip(1) =~= list.skip(1));
        assert forall|i: int| 0 <= i < after.len() implies (#[trigger] after[i]).1 > 0 by {
            if i > 0 {
                assert(after[i] == list[i]);
            }
        }
    }
}

/// Payments that pair off equal totals give every creditor its due and take
/// from every debtor what it owes.
proof fn lemma_paired_settles(
    owed: Seq<(Identifier, int)>,
    due: Seq<(Identifier, int)>,
    member: Identifier,
)
    requires
        all_positive(owed),
        all_positive(due),
        total(owed) == total(due),
    ensures
        payments_position(paired(owed, due), member) == listed(due, member) - listed(owed, member),
    decreases owed.len() + due.len(),
{
    if owed.len() == 0 || due.len() == 0 {
        if owed.len() > 0 {
            lemma_total_positive(owed);
        }
        if due.len() > 0 {
            lemma_total_positive(due);
        }
    } else {
        let amount = if owed[0].1 <= due[0].1 {
            owed[0].1
        } else {
            due[0].1
        };
        lemma_reduced(owed, amount, member);
        lemma_reduced(due, amount, member);
        lemma_paired_settles(reduced(owed, amount), reduced(due, amount), member);
        let payments = paired(owed, due);
        lemma_payments_front(payments, member);
        assert(payments.skip(1) =~= paired(reduced(owed, amount), reduced(due, amount)));
    }
}

/// Every payment is positive, is no more than the largest total, and goes from
/// a debtor to a creditor.
proof fn lemma_paired_parties(
    owed: Seq<(Identifier, int)>,
    due: Seq<(Identifier, int)>,
    owing: spec_fn(Identifier) -> bool,
    receiving: spec_fn(Identifier) -> bool,
    limit: int,
)
    requires
        all_positive(owed),
        all_positive(due),
        total(owed) <= limit,
        forall|i: int| 0 <= i < owed.len() ==> owing((#[trigger] owed[i]).0),
        forall|i: int| 0 <= i < due.len() ==> receiving((#[trigger] due[i]).0),
    ensures
        forall|k: int|
            0 <= k < paired(owed, due).len() ==> {
                let p = #[trigger] paired(owed, due)[k];
                owing(p.0) && receiving(p.1) && 0 < p.2 <= limit
            },
    decreases owed.len() + due.len(),
{
    if owed.len() > 0 && due.len() > 0 {
        let amount = if owed[0].1 <= due[0].1 {
            owed[0].1
        } else {
            due[0].1
        };
        assert(owed[0].1 > 0 && due[0].1 > 0);
        lemma_reduced(owed, amount, owed[0].0);
        lemma_reduced(due, amount, due[0].0);
        let owed2 = reduced(owed, amount);
        let due2 = reduced(due, amount);
        assert forall|i: int| 0 <= i < owed2.len() implies owing((#[trigger] owed2[i]).0) by {
            if owed[0].1 == amount {
                assert(owed2[i] == owed[i + 1]);
            } else {
                assert(owed2[i].0 == owed[i].0);
            }
        }
        assert forall|i: int| 0 <= i < due2.len() implies receiving((#[trigger] due2[i]).0) by {
            if due[0].1 == amount {
                assert(due2[i] == due[i + 1]);
            } else {
                assert(due2[i].0 == due[i].0);
            }
        }
        lemma_paired_parties(owed2, due2, owing, receiving, limit);
        lemma_listed_front(owed, owed[0].0);
        if owed.skip(1).len() > 0 {
            assert(all_positive(owed.skip(1))) by {
                assert forall|i: int| 0 <= i < owed.skip(1).len() implies (
                #[trigger] owed.skip(1)[i]).1 > 0 by {
                    assert(owed.skip(1)[i] == owed[i + 1]);
                }
            }
            lemma_total_positive(owed.skip(1));
        }
        assert(amount <= limit);
        let rest = paired(owed2, due2);
        let all = paired(owed, due);
        assert forall|k: int| 0 <= k < all.len() implies {
            let p = #[trigger] all[k];
            owing(p.0) && receiving(p.1) && 0 < p.2 <= limit
        } by {
            if k == 0 {
                assert(owing(owed[0].0) && receiving(due[0].0));
            } else {
                assert(all[k] == rest[k - 1]);
            }
        }
    }
}

proof fn lemma_balances(s: Seq<ClearingObligation>, asset: Identifier, paying: bool)
    ensures
        all_positive(balances(s, asset, paying)),
        forall|i: int|
            0 <= i < balances(s, asset, paying).len() ==> {
                let e = #[trigger] balances(s, asset, paying)[i];
                balance(s, asset, e.0, paying) > 0 && e.1 == balance(s, asset, e.0, paying)
            },
        forall|m: Identifier| #[trigger]
            listed(balances(s, asset, paying), m) == (if balance(s, asset, m, paying) > 0 {
                balance(s, asset, m, paying)
            } else {
                0
            }),
{
    let set = Set::new(|m: Identifier| balance(s, asset, m, paying) > 0);
    lemma_positive_balances_finite(s, asset, paying);
    lemma_ascending_exists(set);
    let ids = ascending(set);
    let list = balances(s, asset, paying);
    assert forall|i: int| 0 <= i < list.len() implies {
        let e = #[trigger] list[i];
        balance(s, asset, e.0, paying) > 0 && e.1 == balance(s, asset, e.0, paying)
    } by {
        assert(ids.to_set().contains(ids[i]));
        assert(set.contains(ids[i]));
    }
    assert forall|m: Identifier| #[trigger] listed(list, m) == (if balance(s, asset, m, paying) > 0 {
        balance(s, asset, m, paying)
    } else {
        0
    }) by {
        lemma_listed_of(ids, s, asset, paying, m);
        if balance(s, asset, m, paying) > 0 {
            assert(set.contains(m));
            assert(ids.to_set().contains(m));
        } else if ids.contains(m) {
            assert(ids.to_set().contains(m));
            assert(set.contains(m));
        }
    }
}

proof fn lemma_listed_of(
    ids: Seq<Identifier>,
    s: Seq<ClearingObligation>,
    asset: Identifier,
    paying: bool,
    m: Identifier,
)
    requires
        is_ascending(ids),
    ensures
        listed(ids.map_values(|x: Identifier| (x, balance(s, asset, x, paying))), m) == (
        if ids.contains(m) {
            balance(s, asset, m, paying)
        } else {
            0
        }),
    decreases ids.len(),
{
    let entry = |x: Identifier| (x, balance(s, asset, x, paying));
    if ids.len() > 0 {
        let rest = ids.drop_last();
        lemma_listed_of(rest, s, asset, paying, m);
        assert(ids.map_values(entry).drop_last() =~= rest.map_values(entry));
        if rest.contains(m) {
            let i = choose|i: int| 0 <= i < rest.len() && rest[i] == m;
            assert(ids[i] == m);
            assert(rank(ids[i]) < rank(ids[ids.len() - 1]));
        }
        if ids.last() == m {
            assert(ids[ids.len() - 1] == m);
        }
        if ids.contains(m) && ids.last() != m {
            let i = choose|i: int| 0 <= i < ids.len() && ids[i] == m;
            assert(rest[i] == m);
        }
    }
}

/// The legs of one netted asset give every member its position in that asset
/// and nothing in any other.
proof fn lemma_asset_legs(
    s: Seq<ClearingObligation>,
    asset: Identifier,
    cycle_id: Identifier,
    root: Digest32,
    other: Identifier,
    member: Identifier,
)
    requires
        all_well_formed(s),
        total(debts(s, asset)) <= u128::MAX,
    ensures
        legs_position(asset_legs(s, asset, cycle_id, root), other, member) == (if other == asset {
            net_position(s, asset, member)
        } else {
            0
        }),
{
    let owed = debts(s, asset);
    let due = credits(s, asset);
    lemma_balances(s, asset, true);
    lemma_balances(s, asset, false);
    lemma_debts_equal_credits(s, asset);
    lemma_paired_settles(owed, due, member);
    let owing = |m: Identifier| net_position(s, asset, m) < 0;
    let receiving = |m: Identifier| net_position(s, asset, m) > 0;
    assert forall|i: int| 0 <= i < owed.len() implies owing((#[trigger] owed[i]).0) by {
        assert(balances(s, asset, true)[i] == owed[i]);
    }
    assert forall|i: int| 0 <= i < due.len() implies receiving((#[trigger] due[i]).0) by {
        assert(balances(s, asset, false)[i] == due[i]);
    }
    lemma_paired_parties(owed, due, owing, receiving, u128::MAX as int);
    let payments = paired(owed, due);
    assert forall|k: int| 0 <= k < payments.len() implies 0 < (#[trigger] payments[k]).2
        <= u128::MAX && payments[k].0 != payments[k].1 by {
        let p = payments[k];
        assert(owing(p.0) && receiving(p.1));
    }
    lemma_legs_of_payments(payments, asset, cycle_id, root, other, member);
    assert(listed(owed, member) == (if balance(s, asset, member, true) > 0 {
        balance(s, asset, member, true)
    } else {
        0
    }));
    assert(listed(due, member) == (if balance(s, asset, member, false) > 0 {
        balance(s, asset, member, false)
    } else {
        0
    }));
}

proof fn lemma_legs_of_payments(
    payments: Seq<(Identifier, Identifier, int)>,
    asset: Identifier,
    cycle_id: Identifier,
    root: Digest32,
    other: Identifier,
    member: Identifier,
)
    requires
        forall|k: int|
            0 <= k < payments.len() ==> 0 < (#[trigger] payments[k]).2 <= u128::MAX
                && payments[k].0 != payments[k].1,
    ensures
        legs_position(
            payments.map_values(
                |p: (Identifier, Identifier, int)|
                    ClearingLeg::between(cycle_id, p.0, p.1, asset, p.2 as u128, root),
            ),
            other,
            member,
        ) == (if other == asset {
            payments_position(payments, member)
        } else {
            0
        }),
    decreases payments.len(),
{
    let leg_of = |p: (Identifier, Identifier, int)|
        ClearingLeg::between(cycle_id, p.0, p.1, asset, p.2 as u128, root);
    if payments.len() > 0 {
        let rest = payments.drop_last();
        assert forall|k: int| 0 <= k < rest.len() implies 0 < (#[trigger] rest[k]).2 <= u128::MAX
            && rest[k].0 != rest[k].1 by {
            assert(rest[k] == payments[k]);
        }
        lemma_legs_of_payments(rest, asset, cycle_id, root, other, member);
        assert(payments.map_values(leg_of).drop_last() =~= rest.map_values(leg_of));
        let p = payments[payments.len() - 1];
        assert(payments.map_values(leg_of).last() == leg_of(p));
    }
}

proof fn lemma_net_legs(
    s: Seq<ClearingObligation>,
    assets: Seq<Identifier>,
    cycle_id: Identifier,
    root: Digest32,
    asset: Identifier,
    member: Identifier,
)
    requires
        all_well_formed(s),
        is_ascending(assets),
        forall|i: int| 0 <= i < assets.len() ==> total(debts(s, #[trigger] assets[i])) <= u128::MAX,
    ensures
        legs_position(net_legs(s, assets, cycle_id, root), asset, member) == (if assets.contains(
            asset,
        ) {
            net_position(s, asset, member)
        } else {
            0
        }),
    decreases assets.len(),
{
    if assets.len() > 0 {
        let rest = assets.drop_last();
        let last = assets.last();
        assert forall|i: int| 0 <= i < rest.len() implies total(debts(s, #[trigger] rest[i]))
            <= u128::MAX by {
            assert(rest[i] == assets[i]);
        }
        lemma_net_legs(s, rest, cycle_id, root, asset, member);
        assert(total(debts(s, assets[assets.len() - 1])) <= u128::MAX);
        lemma_asset_legs(s, last, cycle_id, root, asset, member);
        lemma_legs_position_joined(
            net_legs(s, rest, cycle_id, root),
            asset_legs(s, last, cycle_id, root),
            asset,
            member,
        );
        if rest.contains(asset) {
            let i = choose|i: int| 0 <= i < rest.len() && rest[i] == asset;
            assert(assets[i] == asset);
            assert(rank(assets[i]) < rank(assets[assets.len() - 1]));
        }
        if asset == last {
            assert(assets[assets.len() - 1] == asset);
        }
        if assets.contains(asset) && asset != last {
            let i = choose|i: int| 0 <= i < assets.len() && assets[i] == asset;
            assert(rest[i] == asset);
        }
    }
}

proof fn lemma_gross_legs(
    s: Seq<ClearingObligation>,
    mode: NettingMode,
    settlement_asset: Identifier,
    cycle_id: Identifier,
    root: Digest32,
    asset: Identifier,
    member: Identifier,
)
    requires
        all_well_formed(s),
    ensures
        legs_position(gross_legs(s, mode, settlement_asset, cycle_id, root), asset, member) == (
        if mode.nets(asset, settlement_asset) {
            0
        } else {
            net_position(s, asset, member)
        }),
    decreases s.len(),
{
    if s.len() > 0 {
        let rest = s.drop_last();
        assert forall|i: int| 0 <= i < rest.len() implies (#[trigger] rest[i]).well_formed() by {
            assert(rest[i] == s[i]);
        }
        lemma_gross_legs(rest, mode, settlement_asset, cycle_id, root, asset, member);
        let o = s.last();
        let before = gross_legs(rest, mode, settlement_asset, cycle_id, root);
        if !mode.nets(o.asset_id, settlement_asset) {
            let leg = ClearingLeg::between(
                cycle_id,
                o.payer_id,
                o.payee_id,
                o.asset_id,
                o.amount,
                root,
            );
            assert(before.push(leg).drop_last() =~= before);
        }
    }
}

proof fn lemma_netted_assets_finite(
    s: Seq<ClearingObligation>,
    mode: NettingMode,
    settlement_asset: Identifier,
)
    ensures
        netted_assets(s, mode, settlement_asset).finite(),
{
    let assets = s.map_values(|o: ClearingObligation| o.asset_id);
    vstd::seq_lib::seq_to_set_is_finite(assets);
    assert forall|a: Identifier| netted_assets(s, mode, settlement_asset).contains(a) implies
        assets.to_set().contains(a) by {
        let i = choose|i: int| 0 <= i < s.len() && (#[trigger] s[i]).asset_id == a;
        assert(assets[i] == a);
    }
    vstd::set_lib::lemma_set_subset_finite(
        assets.to_set(),
        netted_assets(s, mode, settlement_asset),
    );
}

/// A position that nothing contributes to is zero.
proof fn lemma_no_position(s: Seq<ClearingObligation>, asset: Identifier, member: Identifier)
    requires
        forall|i: int| 0 <= i < s.len() ==> (#[trigger] s[i]).asset_id != asset,
    ensures
        net_position(s, asset, member) == 0,
    decreases s.len(),
{
    if s.len() > 0 {
        let rest = s.drop_last();
        assert forall|i: int| 0 <= i < rest.len() implies (#[trigger] rest[i]).asset_id
            != asset by {
            assert(rest[i] == s[i]);
        }
        lemma_no_position(rest, asset, member);
        assert(s[s.len() - 1].asset_id != asset);
    }
}

/// Legs conserve positions: in every asset, every member receives over the legs
/// of a batch, less what it pays, exactly what it does over the obligations.
pub proof fn law_legs_conserve_positions(
    s: Seq<ClearingObligation>,
    mode: NettingMode,
    settlement_asset: Identifier,
    cycle_id: Identifier,
    root: Digest32,
    asset: Identifier,
    member: Identifier,
)
    requires
        all_well_formed(s),
        netting_fits(s, mode, settlement_asset),
    ensures
        legs_position(legs_for(s, mode, settlement_asset, cycle_id, root), asset, member)
            == net_position(s, asset, member),
{
    let set = netted_assets(s, mode, settlement_asset);
    lemma_netted_assets_finite(s, mode, settlement_asset);
    lemma_ascending_exists(set);
    let assets = ascending(set);
    assert forall|i: int| 0 <= i < assets.len() implies total(debts(s, #[trigger] assets[i]))
        <= u128::MAX by {
        assert(assets.to_set().contains(assets[i]));
        assert(set.contains(assets[i]));
    }
    lemma_gross_legs(s, mode, settlement_asset, cycle_id, root, asset, member);
    lemma_net_legs(s, assets, cycle_id, root, asset, member);
    lemma_legs_position_joined(
        gross_legs(s, mode, settlement_asset, cycle_id, root),
        net_legs(s, assets, cycle_id, root),
        asset,
        member,
    );
    if assets.contains(asset) {
        assert(assets.to_set().contains(asset));
        assert(set.contains(asset));
    } else if mode.nets(asset, settlement_asset) {
        assert forall|i: int| 0 <= i < s.len() implies (#[trigger] s[i]).asset_id != asset by {
            if s[i].asset_id == asset {
                assert(set.contains(asset));
                assert(assets.to_set().contains(asset));
            }
        }
        lemma_no_position(s, asset, member);
    }
}

proof fn lemma_placed_position(
    s: Seq<ClearingObligation>,
    x: ClearingObligation,
    asset: Identifier,
    member: Identifier,
)
    ensures
        net_position(obligation_placed(s, x), asset, member) == net_position(s, asset, member)
            + contribution(x, asset, member),
    decreases s.len(),
{
    if s.len() == 0 || rank(s.last().obligation_id) <= rank(x.obligation_id) {
        assert(s.push(x).drop_last() =~= s);
    } else {
        lemma_placed_position(s.drop_last(), x, asset, member);
        let before = obligation_placed(s.drop_last(), x);
        assert(before.push(s.last()).drop_last() =~= before);
    }
}

/// Ordering a batch does not change anybody's position.
pub proof fn law_order_keeps_positions(
    s: Seq<ClearingObligation>,
    asset: Identifier,
    member: Identifier,
)
    ensures
        net_position(obligations_in_order(s), asset, member) == net_position(s, asset, member),
    decreases s.len(),
{
    if s.len() > 0 {
        law_order_keeps_positions(s.drop_last(), asset, member);
        lemma_placed_position(obligations_in_order(s.drop_last()), s.last(), asset, member);
    }
}

/// A proposal conserves positions: its legs give every member in every asset
/// what the obligations submitted to the cycle give it.
pub proof fn law_closing_conserves_positions(
    book: BookState,
    cycle_id: Identifier,
    asset: Identifier,
    member: Identifier,
)
    requires
        book.closing(cycle_id) is Ok,
    ensures
        legs_position(book.closing(cycle_id)->Ok_0.legs, asset, member) == net_position(
            book.cycles[cycle_id].obligations.map_values(|id: Identifier| book.obligations[id]),
            asset,
            member,
        ),
{
    let cycle = book.cycles[cycle_id];
    let submitted = cycle.obligations.map_values(|id: Identifier| book.obligations[id]);
    let batch = book.batch(cycle);
    law_order_keeps_positions(submitted, asset, member);
    law_legs_conserve_positions(
        batch,
        cycle.mode,
        cycle.settlement_asset_id,
        cycle_id,
        root_of(batch),
        asset,
        member,
    );
}

proof fn lemma_margins_cover(
    book: BookState,
    members: Seq<Identifier>,
    debits: Map<Identifier, u128>,
    i: int,
)
    requires
        book.margin_refusal(members, debits) is None,
        0 <= i < members.len(),
    ensures
        book.margins.contains_key(members[i]),
        book.margins[members[i]].encumbered_collateral >= debits[members[i]],
    decreases members.len(),
{
    if i < members.len() - 1 {
        lemma_margins_cover(book, members.drop_last(), debits, i);
    }
}

/// The debtors of a batch are among its parties.
proof fn lemma_debit_of_payer(s: Seq<ClearingObligation>, mode: NettingMode, m: Identifier)
    requires
        risk_debit(s, mode, m) > 0,
    ensures
        exists|i: int| 0 <= i < s.len() && (#[trigger] s[i]).payer_id == m,
    decreases s.len(),
{
    if s.len() > 0 {
        if s.last().payer_id == m {
            assert(s[s.len() - 1].payer_id == m);
        } else {
            lemma_debit_of_payer(s.drop_last(), mode, m);
            let i = choose|i: int|
                0 <= i < s.drop_last().len() && (#[trigger] s.drop_last()[i]).payer_id == m;
            assert(s[i].payer_id == m);
        }
    }
}

/// Every risk debit of a proposal fits inside the encumbered margin of the
/// member it falls on, and every member whose risk calls on margin has one.
pub proof fn law_closing_covers_risk(book: BookState, cycle_id: Identifier, member: Identifier)
    requires
        book.closing(cycle_id) is Ok,
    ensures
        ({
            let proposal = book.closing(cycle_id)->Ok_0;
            let cycle = book.cycles[cycle_id];
            let debit = risk_debit(book.batch(cycle), cycle.mode, member);
            &&& proposal.risk_debits.contains_key(member) <==> debit > 0
            &&& debit > 0 ==> {
                &&& book.margins.contains_key(member)
                &&& proposal.risk_debits[member] == debit
                &&& debit <= book.margins[member].encumbered_collateral
            }
        }),
{
    let cycle = book.cycles[cycle_id];
    let batch = book.batch(cycle);
    let debits = risk_debits(batch, cycle.mode);
    if risk_debit(batch, cycle.mode, member) > 0 {
        let payers = batch.map_values(|o: ClearingObligation| o.payer_id);
        vstd::seq_lib::seq_to_set_is_finite(payers);
        assert forall|m: Identifier| debits.dom().contains(m) implies payers.to_set().contains(
            m,
        ) by {
            lemma_debit_of_payer(batch, cycle.mode, m);
            let i = choose|i: int| 0 <= i < batch.len() && (#[trigger] batch[i]).payer_id == m;
            assert(payers[i] == m);
        }
        vstd::set_lib::lemma_set_subset_finite(payers.to_set(), debits.dom());
        lemma_ascending_exists(debits.dom());
        let members = ascending(debits.dom());
        assert(members.to_set().contains(member));
        let i = choose|i: int| 0 <= i < members.len() && members[i] == member;
        lemma_margins_cover(book, members, debits, i);
        lemma_debits_fit(batch, cycle.mode, cycle.settlement_asset_id, member);
    }
}

/// Debits stay in range when the running positions do.
proof fn lemma_debits_fit(
    s: Seq<ClearingObligation>,
    mode: NettingMode,
    settlement_asset: Identifier,
    m: Identifier,
)
    requires
        all_well_formed(s),
        netting_fits(s, mode, settlement_asset),
    ensures
        risk_debit(s, mode, m) <= u128::MAX,
{
    lemma_running_debits_fit(s, s.len() as int, mode, settlement_asset, m);
    assert(s.take(s.len() as int) =~= s);
}

proof fn lemma_running_debits_fit(
    s: Seq<ClearingObligation>,
    k: int,
    mode: NettingMode,
    settlement_asset: Identifier,
    m: Identifier,
)
    requires
        all_well_formed(s),
        netting_fits(s, mode, settlement_asset),
        0 <= k <= s.len(),
    ensures
        mode == NettingMode::GrossGross ==> 0 <= crate::netting::gross_risk(s.take(k), m)
            <= u128::MAX,
        mode != NettingMode::GrossGross ==> i128::MIN <= crate::netting::risk_position(
            s.take(k),
            m,
        ),
    decreases k,
{
    if k == 0 {
        assert(s.take(0) =~= Seq::empty());
    } else {
        lemma_running_debits_fit(s, k - 1, mode, settlement_asset, m);
        assert(s.take(k).drop_last() =~= s.take(k - 1));
        assert(s.take(k).last() == s[k - 1]);
        assert(crate::netting::step_fits(s, k - 1, mode, settlement_asset));
    }
}

/// Without netting, every obligation keeps its own leg: same parties, same
/// asset, same amount, in ascending order of obligation identifier.
pub proof fn law_gross_gross_keeps_each_leg(book: BookState, cycle_id: Identifier, i: int)
    requires
        book.closing(cycle_id) is Ok,
        book.cycles[cycle_id].mode == NettingMode::GrossGross,
        0 <= i < book.cycles[cycle_id].obligations.len(),
    ensures
        book.closing(cycle_id)->Ok_0.legs.len() == book.cycles[cycle_id].obligations.len(),
        ({
            let leg = book.closing(cycle_id)->Ok_0.legs[i];
            let o = book.batch(book.cycles[cycle_id])[i];
            &&& leg.payer_id == o.payer_id
            &&& leg.payee_id == o.payee_id
            &&& leg.asset_id == o.asset_id
            &&& leg.amount == o.amount
        }),
{
    let cycle = book.cycles[cycle_id];
    let batch = book.batch(cycle);
    let submitted = cycle.obligations.map_values(|id: Identifier| book.obligations[id]);
    let root = root_of(batch);
    let set = netted_assets(batch, cycle.mode, cycle.settlement_asset_id);
    assert(set =~= Set::empty());
    lemma_ascending_exists(set);
    assert(ascending(set) =~= Seq::empty());
    assert(net_legs(batch, ascending(set), cycle_id, root) =~= Seq::empty());
    lemma_ordered_length(submitted);
    lemma_gross_gross_legs(batch, cycle.settlement_asset_id, cycle_id, root, i);
    assert(book.closing(cycle_id)->Ok_0.legs =~= gross_legs(
        batch,
        cycle.mode,
        cycle.settlement_asset_id,
        cycle_id,
        root,
    ));
}

proof fn lemma_placed_length(s: Seq<ClearingObligation>, x: ClearingObligation)
    ensures
        obligation_placed(s, x).len() == s.len() + 1,
    decreases s.len(),
{
    if s.len() > 0 && rank(s.last().obligation_id) > rank(x.obligation_id) {
        lemma_placed_length(s.drop_last(), x);
    }
}

proof fn lemma_ordered_length(s: Seq<ClearingObligation>)
    ensures
        obligations_in_order(s).len() == s.len(),
    decreases s.len(),
{
    if s.len() > 0 {
        lemma_ordered_length(s.drop_last());
        lemma_placed_length(obligations_in_order(s.drop_last()), s.last());
    }
}

proof fn lemma_gross_gross_legs(
    s: Seq<ClearingObligation>,
    settlement_asset: Identifier,
    cycle_id: Identifier,
    root: Digest32,
    i: int,
)
    requires
        0 <= i < s.len(),
    ensures
        gross_legs(s, NettingMode::GrossGross, settlement_asset, cycle_id, root).len() == s.len(),
        gross_legs(s, NettingMode::GrossGross, settlement_asset, cycle_id, root)[i]
            == ClearingLeg::between(
            cycle_id,
            s[i].payer_id,
            s[i].payee_id,
            s[i].asset_id,
            s[i].amount,
            root,
        ),
    decreases s.len(),
{
    if s.len() > 1 {
        if i < s.len() - 1 {
            lemma_gross_gross_legs(s.drop_last(), settlement_asset, cycle_id, root, i);
        } else {
            lemma_gross_gross_legs(s.drop_last(), settlement_asset, cycle_id, root, 0);
        }
    } else {
        assert(s.drop_last() =~= Seq::empty());
        assert(gross_legs(
            s.drop_last(),
            NettingMode::GrossGross,
            settlement_asset,
            cycle_id,
            root,
        ) =~= Seq::empty());
    }
}

/// In a netted asset nobody both pays and receives: every leg goes from a
/// member that owes on balance to one that is owed on balance, and its amount
/// is positive.
pub proof fn law_netted_legs_go_one_way(
    s: Seq<ClearingObligation>,
    asset: Identifier,
    cycle_id: Identifier,
    root: Digest32,
    i: int,
)
    requires
        all_well_formed(s),
        total(debts(s, asset)) <= u128::MAX,
        0 <= i < asset_legs(s, asset, cycle_id, root).len(),
    ensures
        ({
            let leg = asset_legs(s, asset, cycle_id, root)[i];
            &&& leg.asset_id == asset
            &&& leg.amount > 0
            &&& net_position(s, asset, leg.payer_id) < 0
            &&& net_position(s, asset, leg.payee_id) > 0
        }),
{
    let owed = debts(s, asset);
    let due = credits(s, asset);
    lemma_balances(s, asset, true);
    lemma_balances(s, asset, false);
    let owing = |m: Identifier| net_position(s, asset, m) < 0;
    let receiving = |m: Identifier| net_position(s, asset, m) > 0;
    assert forall|k: int| 0 <= k < owed.len() implies owing((#[trigger] owed[k]).0) by {
        assert(balances(s, asset, true)[k] == owed[k]);
    }
    assert forall|k: int| 0 <= k < due.len() implies receiving((#[trigger] due[k]).0) by {
        assert(balances(s, asset, false)[k] == due[k]);
    }
    lemma_paired_parties(owed, due, owing, receiving, u128::MAX as int);
    let p = paired(owed, due)[i];
    assert(owing(p.0) && receiving(p.1));
}

proof fn lemma_gross_legs_filtered(
    s: Seq<ClearingObligation>,
    mode: NettingMode,
    settlement_asset: Identifier,
    cycle_id: Identifier,
    root: Digest32,
)
    ensures
        gross_legs(s, mode, settlement_asset, cycle_id, root) == s.filter(
            |o: ClearingObligation| !mode.nets(o.asset_id, settlement_asset),
        ).map_values(
            |o: ClearingObligation|
                ClearingLeg::between(
                    cycle_id,
                    o.payer_id,
                    o.payee_id,
                    o.asset_id,
                    o.amount,
                    root,
                ),
        ),
    decreases s.len(),
{
    reveal(Seq::filter);
    let keep = |o: ClearingObligation| !mode.nets(o.asset_id, settlement_asset);
    let leg_of = |o: ClearingObligation|
        ClearingLeg::between(cycle_id, o.payer_id, o.payee_id, o.asset_id, o.amount, root);
    if s.len() == 0 {
        assert(s.filter(keep).map_values(leg_of) =~= Seq::empty());
    } else {
        lemma_gross_legs_filtered(s.drop_last(), mode, settlement_asset, cycle_id, root);
        let before = s.drop_last().filter(keep);
        if keep(s.last()) {
            assert(before.push(s.last()).map_values(leg_of) =~= before.map_values(leg_of).push(
                leg_of(s.last()),
            ));
        }
    }
}

/// Netting only the settlement asset, every obligation in another asset keeps
/// its own leg: those legs come first, in order, and all legs behind them are in
/// the settlement asset.
pub proof fn law_gross_net_keeps_other_assets(
    s: Seq<ClearingObligation>,
    settlement_asset: Identifier,
    cycle_id: Identifier,
    root: Digest32,
    i: int,
)
    requires
        0 <= i < legs_for(s, NettingMode::GrossNet, settlement_asset, cycle_id, root).len(),
    ensures
        ({
            let kept = s.filter(|o: ClearingObligation| o.asset_id != settlement_asset);
            let legs = legs_for(s, NettingMode::GrossNet, settlement_asset, cycle_id, root);
            &&& legs.len() >= kept.len()
            &&& i < kept.len() ==> legs[i] == ClearingLeg::between(
                cycle_id,
                kept[i].payer_id,
                kept[i].payee_id,
                kept[i].asset_id,
                kept[i].amount,
                root,
            )
            &&& i >= kept.len() ==> legs[i].asset_id == settlement_asset
        }),
{
    let mode = NettingMode::GrossNet;
    let keep = |o: ClearingObligation| !mode.nets(o.asset_id, settlement_asset);
    let other = |o: ClearingObligation| o.asset_id != settlement_asset;
    lemma_gross_legs_filtered(s, mode, settlement_asset, cycle_id, root);
    assert(keep =~= other);
    let set = netted_assets(s, mode, settlement_asset);
    lemma_netted_assets_finite(s, mode, settlement_asset);
    lemma_ascending_exists(set);
    let assets = ascending(set);
    assert forall|k: int| 0 <= k < assets.len() implies #[trigger] assets[k] == settlement_asset by {
        assert(assets.to_set().contains(assets[k]));
        assert(set.contains(assets[k]));
    }
    lemma_net_legs_in_asset(s, assets, settlement_asset, cycle_id, root);
    let gross = gross_legs(s, mode, settlement_asset, cycle_id, root);
    if i >= gross.len() {
        assert(legs_for(s, mode, settlement_asset, cycle_id, root)[i] == net_legs(
            s,
            assets,
            cycle_id,
            root,
        )[i - gross.len()]);
    }
}

proof fn lemma_net_legs_in_asset(
    s: Seq<ClearingObligation>,
    assets: Seq<Identifier>,
    asset: Identifier,
    cycle_id: Identifier,
    root: Digest32,
)
    requires
        forall|k: int| 0 <= k < assets.len() ==> #[trigger] assets[k] == asset,
    ensures
        forall|k: int|
            0 <= k < net_legs(s, assets, cycle_id, root).len() ==> (#[trigger] net_legs(
                s,
                assets,
                cycle_id,
                root,
            )[k]).asset_id == asset,
    decreases assets.len(),
{
    if assets.len() > 0 {
        let rest = assets.drop_last();
        assert forall|k: int| 0 <= k < rest.len() implies #[trigger] rest[k] == asset by {
            assert(rest[k] == assets[k]);
        }
        lemma_net_legs_in_asset(s, rest, asset, cycle_id, root);
        assert(assets[assets.len() - 1] == asset);
        let before = net_legs(s, rest, cycle_id, root);
        let last = asset_legs(s, asset, cycle_id, root);
        let all = net_legs(s, assets, cycle_id, root);
        assert forall|k: int| 0 <= k < all.len() implies (#[trigger] all[k]).asset_id == asset by {
            if k < before.len() {
                assert(all[k] == before[k]);
            } else {
                assert(all[k] == last[k - before.len()]);
            }
        }
    }
}

/// Netting every asset, all legs are netted: there is no gross leg.
pub proof fn law_net_net_nets_every_asset(
    s: Seq<ClearingObligation>,
    settlement_asset: Identifier,
    cycle_id: Identifier,
    root: Digest32,
)
    ensures
        gross_legs(s, NettingMode::NetNet, settlement_asset, cycle_id, root).len() == 0,
    decreases s.len(),
{
    if s.len() > 0 {
        law_net_net_nets_every_asset(s.drop_last(), settlement_asset, cycle_id, root);
    }
}

} // verus!
