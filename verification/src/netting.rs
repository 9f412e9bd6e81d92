//! Netting: from the obligations of a cycle to the legs that settle it.

use vstd::prelude::*;

use crate::cycles::{ClearingLeg, ClearingObligation, NettingMode};
use crate::error::DeCcpError;
use crate::ident::{
    ascending, is_ascending, lemma_ascending_is, precedes, rank, Digest32, Identifier,
};
use crate::map::IdMap;
use crate::transcript::{big_endian, bytes_of, sha256_of, Transcript};

verus! {

/// A digest placed behind every digest of an ascending list that is not above
/// it.
pub open spec fn digest_placed(s: Seq<Digest32>, x: Digest32) -> Seq<Digest32>
    decreases s.len(),
{
    if s.len() == 0 || rank(s.last()) <= rank(x) {
        s.push(x)
    } else {
        digest_placed(s.drop_last(), x).push(s.last())
    }
}

/// Digests in ascending byte order.
pub open spec fn digests_in_order(s: Seq<Digest32>) -> Seq<Digest32>
    decreases s.len(),
{
    if s.len() == 0 {
        s
    } else {
        digest_placed(digests_in_order(s.drop_last()), s.last())
    }
}

/// An obligation placed behind every obligation of an ascending list whose
/// identifier is not above its own.
pub open spec fn obligation_placed(
    s: Seq<ClearingObligation>,
    x: ClearingObligation,
) -> Seq<ClearingObligation>
    decreases s.len(),
{
    if s.len() == 0 || rank(s.last().obligation_id) <= rank(x.obligation_id) {
        s.push(x)
    } else {
        obligation_placed(s.drop_last(), x).push(s.last())
    }
}

/// Obligations in ascending order of their identifiers; those with the same
/// identifier keep the order in which they were submitted.
pub open spec fn obligations_in_order(s: Seq<ClearingObligation>) -> Seq<ClearingObligation>
    decreases s.len(),
{
    if s.len() == 0 {
        s
    } else {
        obligation_placed(obligations_in_order(s.drop_last()), s.last())
    }
}

/// Digests one after another.
pub open spec fn joined(s: Seq<Digest32>) -> Seq<u8>
    decreases s.len(),
{
    if s.len() == 0 {
        Seq::empty()
    } else {
        joined(s.drop_last()) + s.last()@
    }
}

/// The digest that commits to a batch of obligations, taken over their leaf
/// digests in ascending order.
pub open spec fn root_of(batch: Seq<ClearingObligation>) -> Digest32 {
    sha256_of(
        bytes_of("DECCP:OBLIGATION-ROOT:v1") + big_endian(batch.len() as u32 as nat, 4) + joined(
            digests_in_order(batch.map_values(|o: ClearingObligation| o.leaf())),
        ),
    )
}

/// What an obligation adds to a member's position in an asset.
pub open spec fn contribution(o: ClearingObligation, asset: Identifier, member: Identifier) -> int {
    if o.asset_id != asset {
        0
    } else if member == o.payer_id {
        -o.amount
    } else if member == o.payee_id {
        o.amount as int
    } else {
        0
    }
}

/// What a member receives less what it pays in an asset.
pub open spec fn net_position(
    s: Seq<ClearingObligation>,
    asset: Identifier,
    member: Identifier,
) -> int
    decreases s.len(),
{
    if s.len() == 0 {
        0
    } else {
        net_position(s.drop_last(), asset, member) + contribution(s.last(), asset, member)
    }
}

/// The risk that a member receives less the risk that it pays, over all assets.
pub open spec fn risk_position(s: Seq<ClearingObligation>, member: Identifier) -> int
    decreases s.len(),
{
    if s.len() == 0 {
        0
    } else {
        let o = s.last();
        risk_position(s.drop_last(), member) + (if member == o.payer_id {
            -o.risk_value
        } else if member == o.payee_id {
            o.risk_value as int
        } else {
            0
        })
    }
}

/// The risk of everything that a member pays.
pub open spec fn gross_risk(s: Seq<ClearingObligation>, member: Identifier) -> int
    decreases s.len(),
{
    if s.len() == 0 {
        0
    } else {
        gross_risk(s.drop_last(), member) + (if member == s.last().payer_id {
            s.last().risk_value as int
        } else {
            0
        })
    }
}

/// The margin that a member's risk in a batch calls on. Without any netting
/// that is the risk of everything it pays, else the risk it pays on balance.
pub open spec fn risk_debit(
    s: Seq<ClearingObligation>,
    mode: NettingMode,
    member: Identifier,
) -> int {
    if mode == NettingMode::GrossGross {
        gross_risk(s, member)
    } else if risk_position(s, member) < 0 {
        -risk_position(s, member)
    } else {
        0
    }
}

/// The members whose risk calls on margin, with the amounts.
pub open spec fn risk_debits(s: Seq<ClearingObligation>, mode: NettingMode) -> Map<
    Identifier,
    u128,
> {
    Map::new(
        |member: Identifier| risk_debit(s, mode, member) > 0,
        |member: Identifier| risk_debit(s, mode, member) as u128,
    )
}

/// What a member pays on balance in an asset, or receives on balance.
pub open spec fn balance(
    s: Seq<ClearingObligation>,
    asset: Identifier,
    member: Identifier,
    paying: bool,
) -> int {
    if paying {
        -net_position(s, asset, member)
    } else {
        net_position(s, asset, member)
    }
}

/// The members that pay, or receive, on balance in an asset, ascending, with the
/// amounts.
pub open spec fn balances(s: Seq<ClearingObligation>, asset: Identifier, paying: bool) -> Seq<
    (Identifier, int),
> {
    ascending(Set::new(|m: Identifier| balance(s, asset, m, paying) > 0)).map_values(
        |m: Identifier| (m, balance(s, asset, m, paying)),
    )
}

/// The members that pay on balance in an asset.
pub open spec fn debts(s: Seq<ClearingObligation>, asset: Identifier) -> Seq<(Identifier, int)> {
    balances(s, asset, true)
}

/// The members that receive on balance in an asset.
pub open spec fn credits(s: Seq<ClearingObligation>, asset: Identifier) -> Seq<(Identifier, int)> {
    balances(s, asset, false)
}

/// The sum of the amounts of a list.
pub open spec fn total(list: Seq<(Identifier, int)>) -> int
    decreases list.len(),
{
    if list.len() == 0 {
        0
    } else {
        total(list.drop_last()) + list.last().1
    }
}

/// A list with `amount` taken from its first entry, which leaves the list when
/// nothing remains of it.
pub open spec fn reduced(list: Seq<(Identifier, int)>, amount: int) -> Seq<(Identifier, int)> {
    if list[0].1 == amount {
        list.skip(1)
    } else {
        list.update(0, (list[0].0, list[0].1 - amount))
    }
}

/// Payments that settle debts against credits: the first debtor pays the first
/// creditor as much as both allow, and so on.
pub open spec fn paired(owed: Seq<(Identifier, int)>, due: Seq<(Identifier, int)>) -> Seq<
    (Identifier, Identifier, int),
>
    decreases owed.len() + due.len(),
{
    if owed.len() == 0 || due.len() == 0 {
        Seq::empty()
    } else {
        let amount = if owed[0].1 <= due[0].1 {
            owed[0].1
        } else {
            due[0].1
        };
        seq![(owed[0].0, due[0].0, amount)] + paired(reduced(owed, amount), reduced(due, amount))
    }
}

/// The assets of a batch that are netted.
pub open spec fn netted_assets(
    s: Seq<ClearingObligation>,
    mode: NettingMode,
    settlement_asset: Identifier,
) -> Set<Identifier> {
    Set::new(
        |asset: Identifier|
            mode.nets(asset, settlement_asset) && exists|i: int|
                0 <= i < s.len() && (#[trigger] s[i]).asset_id == asset,
    )
}

/// One leg for each obligation that is not netted, in order.
pub open spec fn gross_legs(
    s: Seq<ClearingObligation>,
    mode: NettingMode,
    settlement_asset: Identifier,
    cycle_id: Identifier,
    root: Digest32,
) -> Seq<ClearingLeg>
    decreases s.len(),
{
    if s.len() == 0 {
        Seq::empty()
    } else {
        let o = s.last();
        let before = gross_legs(s.drop_last(), mode, settlement_asset, cycle_id, root);
        if mode.nets(o.asset_id, settlement_asset) {
            before
        } else {
            before.push(
                ClearingLeg::between(
                    cycle_id,
                    o.payer_id,
                    o.payee_id,
                    o.asset_id,
                    o.amount,
                    root,
                ),
            )
        }
    }
}

/// The legs that settle one netted asset.
pub open spec fn asset_legs(
    s: Seq<ClearingObligation>,
    asset: Identifier,
    cycle_id: Identifier,
    root: Digest32,
) -> Seq<ClearingLeg> {
    paired(debts(s, asset), credits(s, asset)).map_values(
        |p: (Identifier, Identifier, int)|
            ClearingLeg::between(cycle_id, p.0, p.1, asset, p.2 as u128, root),
    )
}

/// The legs that settle netted assets, one asset after another.
pub open spec fn net_legs(
    s: Seq<ClearingObligation>,
    assets: Seq<Identifier>,
    cycle_id: Identifier,
    root: Digest32,
) -> Seq<ClearingLeg>
    decreases assets.len(),
{
    if assets.len() == 0 {
        Seq::empty()
    } else {
        net_legs(s, assets.drop_last(), cycle_id, root) + asset_legs(s, assets.last(), cycle_id, root)
    }
}

/// The legs that settle a batch: the gross ones first, then those of each netted
/// asset in ascending order.
pub open spec fn legs_for(
    s: Seq<ClearingObligation>,
    mode: NettingMode,
    settlement_asset: Identifier,
    cycle_id: Identifier,
    root: Digest32,
) -> Seq<ClearingLeg> {
    gross_legs(s, mode, settlement_asset, cycle_id, root) + net_legs(
        s,
        ascending(netted_assets(s, mode, settlement_asset)),
        cycle_id,
        root,
    )
}

/// Whether the running positions stay in range when one more obligation is
/// booked.
pub open spec fn step_fits(
    s: Seq<ClearingObligation>,
    k: int,
    mode: NettingMode,
    settlement_asset: Identifier,
) -> bool {
    let o = s[k];
    let booked = s.take(k + 1);
    &&& o.amount <= i128::MAX
    &&& o.risk_value <= i128::MAX
    &&& mode.nets(o.asset_id, settlement_asset) ==> {
        &&& net_position(booked, o.asset_id, o.payer_id) >= i128::MIN
        &&& net_position(booked, o.asset_id, o.payee_id) <= i128::MAX
    }
    &&& if mode == NettingMode::GrossGross {
        gross_risk(booked, o.payer_id) <= u128::MAX
    } else {
        &&& risk_position(booked, o.payer_id) >= i128::MIN
        &&& risk_position(booked, o.payee_id) <= i128::MAX
    }
}

/// Whether a batch can be netted without leaving the range of the arithmetic:
/// every running position fits in 128 signed bits, and what is owed in each
/// netted asset fits in 128 bits.
pub open spec fn netting_fits(
    s: Seq<ClearingObligation>,
    mode: NettingMode,
    settlement_asset: Identifier,
) -> bool {
    &&& forall|k: int| 0 <= k < s.len() ==> #[trigger] step_fits(s, k, mode, settlement_asset)
    &&& forall|asset: Identifier| #[trigger]
        netted_assets(s, mode, settlement_asset).contains(asset) ==> total(debts(s, asset))
            <= u128::MAX
}

/// Whether every obligation of a batch is well formed.
pub open spec fn all_well_formed(s: Seq<ClearingObligation>) -> bool {
    forall|i: int| 0 <= i < s.len() ==> (#[trigger] s[i]).well_formed()
}

/// Places an obligation behind those whose identifier is not above its own.
pub(crate) fn place_obligation(list: &mut Vec<ClearingObligation>, x: ClearingObligation)
    ensures
        final(list)@ == obligation_placed(old(list)@, x),
{
    let mut i: usize = list.len();
    let ghost s = list@;
    assert(s.take(i as int) =~= s);
    assert(obligation_placed(s, x) =~= obligation_placed(s.take(i as int), x) + s.skip(i as int));
    while i > 0 && precedes(&x.obligation_id, &list[i - 1].obligation_id)
        invariant
            i <= list@.len(),
            list@ == s,
            obligation_placed(s, x) == obligation_placed(s.take(i as int), x) + s.skip(i as int),
        decreases i,
    {
        proof {
            let head = s.take(i as int);
            assert(head.drop_last() =~= s.take(i - 1));
            assert(head.last() == s[i - 1]);
            assert(obligation_placed(s.take(i - 1), x).push(s[i - 1]) + s.skip(i as int)
                =~= obligation_placed(s.take(i - 1), x) + s.skip(i - 1));
        }
        i = i - 1;
    }
    proof {
        let head = s.take(i as int);
        if i > 0 {
            assert(head.last() == s[i - 1]);
        }
        assert(head.push(x) + s.skip(i as int) =~= s.insert(i as int, x));
    }
    list.insert(i, x);
}

fn place_digest(list: &mut Vec<Digest32>, x: Digest32)
    ensures
        final(list)@ == digest_placed(old(list)@, x),
{
    let mut i: usize = list.len();
    let ghost s = list@;
    assert(s.take(i as int) =~= s);
    assert(digest_placed(s, x) =~= digest_placed(s.take(i as int), x) + s.skip(i as int));
    while i > 0 && precedes(&x, &list[i - 1])
        invariant
            i <= list@.len(),
            list@ == s,
            digest_placed(s, x) == digest_placed(s.take(i as int), x) + s.skip(i as int),
        decreases i,
    {
        proof {
            let head = s.take(i as int);
            assert(head.drop_last() =~= s.take(i - 1));
            assert(head.last() == s[i - 1]);
            assert(digest_placed(s.take(i - 1), x).push(s[i - 1]) + s.skip(i as int)
                =~= digest_placed(s.take(i - 1), x) + s.skip(i - 1));
        }
        i = i - 1;
    }
    proof {
        let head = s.take(i as int);
        if i > 0 {
            assert(head.last() == s[i - 1]);
        }
        assert(head.push(x) + s.skip(i as int) =~= s.insert(i as int, x));
    }
    list.insert(i, x);
}

proof fn lemma_digests_in_order_length(s: Seq<Digest32>)
    ensures
        digests_in_order(s).len() == s.len(),
    decreases s.len(),
{
    if s.len() > 0 {
        lemma_digests_in_order_length(s.drop_last());
        lemma_digest_placed_length(digests_in_order(s.drop_last()), s.last());
    }
}

proof fn lemma_digest_placed_length(s: Seq<Digest32>, x: Digest32)
    ensures
        digest_placed(s, x).len() == s.len() + 1,
    decreases s.len(),
{
    if s.len() > 0 && rank(s.last()) > rank(x) {
        lemma_digest_placed_length(s.drop_last(), x);
    }
}

/// The digest that commits to a batch of obligations, or the refusal of a batch
/// in which one is not well formed.
pub fn obligation_root(batch: &Vec<ClearingObligation>) -> (r: Result<Digest32, DeCcpError>)
    ensures
        r == (if all_well_formed(batch@) {
            Ok::<Digest32, DeCcpError>(root_of(batch@))
        } else {
            Err(DeCcpError::InvalidObligation)
        }),
{
    let ghost leaf_of = |o: ClearingObligation| o.leaf();
    let mut leaves: Vec<Digest32> = Vec::new();
    let mut i: usize = 0;
    while i < batch.len()
        invariant
            i <= batch@.len(),
            leaf_of == (|o: ClearingObligation| o.leaf()),
            leaves@ == digests_in_order(batch@.take(i as int).map_values(leaf_of)),
            forall|j: int| 0 <= j < i ==> (#[trigger] batch@[j]).well_formed(),
        decreases batch@.len() - i,
    {
        batch[i].validate()?;
        place_digest(&mut leaves, batch[i].leaf_digest());
        proof {
            let more = batch@.take(i + 1).map_values(leaf_of);
            assert(more.drop_last() =~= batch@.take(i as int).map_values(leaf_of));
            assert(more.last() == batch@[i as int].leaf());
        }
        i = i + 1;
    }
    assert(batch@.take(i as int) =~= batch@);
    proof {
        lemma_digests_in_order_length(batch@.map_values(leaf_of));
    }
    let mut transcript = Transcript::new("DECCP:OBLIGATION-ROOT:v1");
    transcript.put_number(leaves.len() as u32 as u128, 4);
    let ghost head = transcript@;
    let mut k: usize = 0;
    assert(transcript@ =~= head + joined(leaves@.take(0)));
    while k < leaves.len()
        invariant
            k <= leaves@.len(),
            transcript@ == head + joined(leaves@.take(k as int)),
        decreases leaves@.len() - k,
    {
        transcript.put(&leaves[k]);
        proof {
            assert(leaves@.take(k + 1).drop_last() =~= leaves@.take(k as int));
            assert(leaves@.take(k + 1).last() == leaves@[k as int]);
            assert(transcript@ =~= head + (joined(leaves@.take(k as int)) + leaves@[k as int]@));
        }
        k = k + 1;
    }
    assert(leaves@.take(k as int) =~= leaves@);
    Ok(transcript.digest())
}

/// The amount under a key, or zero.
pub open spec fn amount_at(amounts: Map<Identifier, i128>, key: Identifier) -> int {
    if amounts.contains_key(key) {
        amounts[key] as int
    } else {
        0
    }
}

/// The position of a member in an asset, or zero.
pub open spec fn position_at(
    positions: Map<Identifier, Map<Identifier, i128>>,
    asset: Identifier,
    member: Identifier,
) -> int {
    if positions.contains_key(asset) {
        amount_at(positions[asset], member)
    } else {
        0
    }
}

/// Adds to a member's amount, unless the sum leaves the range.
fn checked_risk_add(risks: &mut IdMap<i128>, member: Identifier, delta: i128) -> (r: Result<
    (),
    DeCcpError,
>)
    ensures
        i128::MIN <= amount_at(old(risks)@, member) + delta <= i128::MAX ==> {
            &&& r is Ok
            &&& final(risks)@ == old(risks)@.insert(
                member,
                (amount_at(old(risks)@, member) + delta) as i128,
            )
        },
        !(i128::MIN <= amount_at(old(risks)@, member) + delta <= i128::MAX) ==> {
            &&& r == Err::<(), DeCcpError>(DeCcpError::ArithmeticOverflow)
            &&& final(risks)@ == old(risks)@
        },
{
    let current: i128 = match risks.get(&member) {
        Some(found) => *found,
        None => 0,
    };
    match current.checked_add(delta) {
        None => Err(DeCcpError::ArithmeticOverflow),
        Some(next) => {
            risks.insert(member, next);
            Ok(())
        },
    }
}

/// Adds to a member's position in an asset, unless the sum leaves the range.
fn checked_position_add(
    positions: &mut IdMap<IdMap<i128>>,
    asset: Identifier,
    member: Identifier,
    delta: i128,
) -> (r: Result<(), DeCcpError>)
    ensures
        i128::MIN <= position_at(old(positions)@, asset, member) + delta <= i128::MAX ==> {
            &&& r is Ok
            &&& final(positions)@.dom() == old(positions)@.dom().insert(asset)
            &&& forall|a: Identifier, m: Identifier| #[trigger]
                position_at(final(positions)@, a, m) == position_at(old(positions)@, a, m) + (if a
                    == asset && m == member {
                    delta as int
                } else {
                    0
                })
        },
        !(i128::MIN <= position_at(old(positions)@, asset, member) + delta <= i128::MAX) ==> r
            == Err::<(), DeCcpError>(DeCcpError::ArithmeticOverflow),
{
    let ghost before = positions@;
    let mut inner: IdMap<i128> = match positions.remove(&asset) {
        Some(found) => found,
        None => IdMap::new(),
    };
    let ghost was = inner@;
    assert(forall|m: Identifier| #[trigger] amount_at(was, m) == position_at(before, asset, m));
    checked_risk_add(&mut inner, member, delta)?;
    let ghost now = inner@;
    positions.insert(asset, inner);
    proof {
        assert(positions@.dom() =~= before.dom().insert(asset));
        assert forall|a: Identifier, m: Identifier| #[trigger]
            position_at(positions@, a, m) == position_at(before, a, m) + (if a == asset && m
                == member {
                delta as int
            } else {
                0
            }) by {
            assert(amount_at(was, m) == position_at(before, asset, m));
            if a == asset {
                assert(positions@[a] == now);
            } else {
                assert(positions@[a] == before[a] || !before.contains_key(a));
            }
        }
    }
    Ok(())
}

/// The running positions of a batch.
pub(crate) struct Netting {
    /// The position of each member in each netted asset.
    pub(crate) positions: IdMap<IdMap<i128>>,
    /// The risk position of each member, unless nothing is netted.
    pub(crate) risks: IdMap<i128>,
    /// The risk of everything each member pays, if nothing is netted.
    pub(crate) gross: IdMap<u128>,
}

impl Netting {
    /// Whether these are the positions of a batch.
    pub(crate) open spec fn books(
        &self,
        s: Seq<ClearingObligation>,
        mode: NettingMode,
        settlement_asset: Identifier,
    ) -> bool {
        &&& self.positions@.dom() == netted_assets(s, mode, settlement_asset)
        &&& forall|a: Identifier, m: Identifier|
            mode.nets(a, settlement_asset) ==> #[trigger] position_at(self.positions@, a, m)
                == net_position(s, a, m)
        &&& mode != NettingMode::GrossGross ==> forall|m: Identifier| #[trigger]
            amount_at(self.risks@, m) == risk_position(s, m)
        &&& mode == NettingMode::GrossGross ==> forall|m: Identifier|
            (if self.gross@.contains_key(m) {
                self.gross@[m] as int
            } else {
                0
            }) == #[trigger] gross_risk(s, m)
        &&& mode == NettingMode::GrossGross ==> forall|m: Identifier| #[trigger]
            self.gross@.contains_key(m) ==> gross_risk(s, m) > 0
    }
}

/// Books one more obligation.
proof fn lemma_booked(s: Seq<ClearingObligation>, k: int)
    requires
        0 <= k < s.len(),
    ensures
        s.take(k + 1).drop_last() == s.take(k),
        s.take(k + 1).last() == s[k],
{
    assert(s.take(k + 1).drop_last() =~= s.take(k));
}

proof fn lemma_netted_assets_step(
    s: Seq<ClearingObligation>,
    k: int,
    mode: NettingMode,
    settlement_asset: Identifier,
)
    requires
        0 <= k < s.len(),
    ensures
        netted_assets(s.take(k + 1), mode, settlement_asset) == (if mode.nets(
            s[k].asset_id,
            settlement_asset,
        ) {
            netted_assets(s.take(k), mode, settlement_asset).insert(s[k].asset_id)
        } else {
            netted_assets(s.take(k), mode, settlement_asset)
        }),
{
    let after = netted_assets(s.take(k + 1), mode, settlement_asset);
    let before = netted_assets(s.take(k), mode, settlement_asset);
    assert forall|a: Identifier| after.contains(a) implies before.contains(a) || a
        == s[k].asset_id by {
        let i = choose|i: int|
            0 <= i < s.take(k + 1).len() && (#[trigger] s.take(k + 1)[i]).asset_id == a;
        if i < k {
            assert(s.take(k)[i].asset_id == a);
        }
    }
    assert forall|a: Identifier| before.contains(a) implies after.contains(a) by {
        let i = choose|i: int| 0 <= i < s.take(k).len() && (#[trigger] s.take(k)[i]).asset_id == a;
        assert(s.take(k + 1)[i].asset_id == a);
    }
    assert(s.take(k + 1)[k].asset_id == s[k].asset_id);
    if mode.nets(s[k].asset_id, settlement_asset) {
        assert(after =~= before.insert(s[k].asset_id));
    } else {
        assert(after =~= before);
    }
}

/// Books a batch of well-formed obligations.
pub(crate) fn book_batch(
    batch: &Vec<ClearingObligation>,
    mode: NettingMode,
    settlement_asset: &Identifier,
) -> (r: Result<Netting, DeCcpError>)
    requires
        all_well_formed(batch@),
    ensures
        match r {
            Ok(netting) => netting.books(batch@, mode, *settlement_asset) && forall|k: int|
                0 <= k < batch@.len() ==> #[trigger] step_fits(batch@, k, mode, *settlement_asset),
            Err(error) => error == DeCcpError::ArithmeticOverflow && exists|k: int|
                0 <= k < batch@.len() && !#[trigger] step_fits(batch@, k, mode, *settlement_asset),
        },
{
    let mut netting = Netting {
        positions: IdMap::new(),
        risks: IdMap::new(),
        gross: IdMap::new(),
    };
    assert(batch@.take(0) =~= Seq::<ClearingObligation>::empty());
    assert(netting.positions@.dom() =~= netted_assets(batch@.take(0), mode, *settlement_asset));
    let mut k: usize = 0;
    while k < batch.len()
        invariant
            k <= batch@.len(),
            all_well_formed(batch@),
            netting.books(batch@.take(k as int), mode, *settlement_asset),
            forall|j: int|
                0 <= j < k ==> #[trigger] step_fits(batch@, j, mode, *settlement_asset),
        decreases batch@.len() - k,
    {
        let o = &batch[k];
        assert(batch@[k as int].well_formed());
        let ghost s = batch@;
        let ghost before = netting;
        proof {
            lemma_booked(s, k as int);
            lemma_netted_assets_step(s, k as int, mode, *settlement_asset);
        }
        if o.amount > i128::MAX as u128 || o.risk_value > i128::MAX as u128 {
            assert(!step_fits(s, k as int, mode, *settlement_asset));
            return Err(DeCcpError::ArithmeticOverflow);
        }
        let amount: i128 = o.amount as i128;
        let risk: i128 = o.risk_value as i128;
        if mode.asset_is_net(&o.asset_id, settlement_asset) {
            proof {
                assert(position_at(netting.positions@, o.asset_id, o.payer_id) == net_position(
                    s.take(k as int),
                    o.asset_id,
                    o.payer_id,
                ));
                assert(position_at(netting.positions@, o.asset_id, o.payee_id) == net_position(
                    s.take(k as int),
                    o.asset_id,
                    o.payee_id,
                ));
                if net_position(s.take(k as int), o.asset_id, o.payer_id) - amount < i128::MIN
                    || net_position(s.take(k as int), o.asset_id, o.payee_id) + amount
                    > i128::MAX {
                    assert(!step_fits(s, k as int, mode, *settlement_asset));
                }
            }
            checked_position_add(&mut netting.positions, o.asset_id, o.payer_id, -amount)?;
            checked_position_add(&mut netting.positions, o.asset_id, o.payee_id, amount)?;
        }
        assert(netting.positions@.dom() =~= netted_assets(
            s.take(k + 1),
            mode,
            *settlement_asset,
        ));
        if mode == NettingMode::GrossGross {
            let current: u128 = match netting.gross.get(&o.payer_id) {
                Some(found) => *found,
                None => 0,
            };
            assert(current == gross_risk(s.take(k as int), o.payer_id));
            match current.checked_add(o.risk_value) {
                None => {
                    assert(!step_fits(s, k as int, mode, *settlement_asset));
                    return Err(DeCcpError::ArithmeticOverflow);
                },
                Some(next) => {
                    netting.gross.insert(o.payer_id, next);
                },
            }
        } else {
            proof {
                assert(amount_at(netting.risks@, o.payer_id) == risk_position(
                    s.take(k as int),
                    o.payer_id,
                ));
                assert(amount_at(netting.risks@, o.payee_id) == risk_position(
                    s.take(k as int),
                    o.payee_id,
                ));
                if risk_position(s.take(k as int), o.payer_id) - risk < i128::MIN || risk_position(
                    s.take(k as int),
                    o.payee_id,
                ) + risk > i128::MAX {
                    assert(!step_fits(s, k as int, mode, *settlement_asset));
                }
            }
            checked_risk_add(&mut netting.risks, o.payer_id, -risk)?;
            checked_risk_add(&mut netting.risks, o.payee_id, risk)?;
        }
        proof {
            assert forall|a: Identifier, m: Identifier|
                mode.nets(a, *settlement_asset) implies #[trigger] position_at(
                netting.positions@,
                a,
                m,
            ) == net_position(s.take(k + 1), a, m) by {
                assert(position_at(before.positions@, a, m) == net_position(s.take(k as int), a, m));
            }
            if mode != NettingMode::GrossGross {
                assert forall|m: Identifier| #[trigger]
                    amount_at(netting.risks@, m) == risk_position(s.take(k + 1), m) by {
                    assert(amount_at(before.risks@, m) == risk_position(s.take(k as int), m));
                }
            } else {
                assert forall|m: Identifier|
                    (if netting.gross@.contains_key(m) {
                        netting.gross@[m] as int
                    } else {
                        0
                    }) == #[trigger] gross_risk(s.take(k + 1), m) by {
                    assert((if before.gross@.contains_key(m) {
                        before.gross@[m] as int
                    } else {
                        0
                    }) == gross_risk(s.take(k as int), m));
                }
                assert forall|m: Identifier| #[trigger]
                    netting.gross@.contains_key(m) implies gross_risk(s.take(k + 1), m) > 0 by {
                    assert(before.gross@.contains_key(m) ==> gross_risk(s.take(k as int), m) > 0);
                    assert((if before.gross@.contains_key(m) {
                        before.gross@[m] as int
                    } else {
                        0
                    }) == gross_risk(s.take(k as int), m));
                }
            }
        }
        k = k + 1;
    }
    assert(batch@.take(k as int) =~= batch@);
    Ok(netting)
}

/// The balances of the listed members that are positive.
spec fn picked(
    keys: Seq<Identifier>,
    s: Seq<ClearingObligation>,
    asset: Identifier,
    paying: bool,
) -> Seq<(Identifier, int)>
    decreases keys.len(),
{
    if keys.len() == 0 {
        Seq::empty()
    } else {
        let before = picked(keys.drop_last(), s, asset, paying);
        if balance(s, asset, keys.last(), paying) > 0 {
            before.push((keys.last(), balance(s, asset, keys.last(), paying)))
        } else {
            before
        }
    }
}

proof fn lemma_picked_entries(
    keys: Seq<Identifier>,
    s: Seq<ClearingObligation>,
    asset: Identifier,
    paying: bool,
)
    requires
        is_ascending(keys),
    ensures
        forall|j: int|
            0 <= j < picked(keys, s, asset, paying).len() ==> {
                let e = #[trigger] picked(keys, s, asset, paying)[j];
                keys.contains(e.0) && e.1 == balance(s, asset, e.0, paying) && e.1 > 0
            },
        forall|k: int|
            0 <= k < keys.len() && balance(s, asset, #[trigger] keys[k], paying) > 0
                ==> exists|j: int|
                0 <= j < picked(keys, s, asset, paying).len() && picked(
                    keys,
                    s,
                    asset,
                    paying,
                )[j].0 == keys[k],
        forall|i: int, j: int|
            0 <= i < j < picked(keys, s, asset, paying).len() ==> rank(
                picked(keys, s, asset, paying)[i].0,
            ) < rank(picked(keys, s, asset, paying)[j].0),
    decreases keys.len(),
{
    if keys.len() > 0 {
        let rest = keys.drop_last();
        let before = picked(rest, s, asset, paying);
        let list = picked(keys, s, asset, paying);
        lemma_picked_entries(rest, s, asset, paying);
        assert forall|j: int| 0 <= j < list.len() implies {
            let e = #[trigger] list[j];
            keys.contains(e.0) && e.1 == balance(s, asset, e.0, paying) && e.1 > 0
        } by {
            if j < before.len() {
                assert(list[j] == before[j]);
                assert(rest.contains(before[j].0));
                let i = choose|i: int| 0 <= i < rest.len() && rest[i] == before[j].0;
                assert(keys[i] == before[j].0);
            } else {
                assert(keys[keys.len() - 1] == list[j].0);
            }
        }
        assert forall|k: int|
            0 <= k < keys.len() && balance(s, asset, #[trigger] keys[k], paying) > 0 implies exists|
            j: int,
        | 0 <= j < list.len() && list[j].0 == keys[k] by {
            if k < rest.len() {
                assert(rest[k] == keys[k]);
                let j = choose|j: int| 0 <= j < before.len() && before[j].0 == rest[k];
                assert(list[j].0 == keys[k]);
            } else {
                assert(list[list.len() - 1].0 == keys[k]);
            }
        }
        assert forall|i: int, j: int| 0 <= i < j < list.len() implies rank(list[i].0) < rank(
            list[j].0,
        ) by {
            assert(list[i] == before[i]);
            if j < before.len() {
                assert(list[j] == before[j]);
            } else {
                assert(rest.contains(before[i].0));
                let m = choose|m: int| 0 <= m < rest.len() && rest[m] == before[i].0;
                assert(keys[m] == before[i].0);
            }
        }
    }
}

/// The positive balances of an ascending list that misses nobody are the
/// balances.
proof fn lemma_picked_all(
    keys: Seq<Identifier>,
    s: Seq<ClearingObligation>,
    asset: Identifier,
    paying: bool,
)
    requires
        is_ascending(keys),
        forall|m: Identifier| #[trigger]
            balance(s, asset, m, paying) > 0 ==> keys.contains(m),
    ensures
        picked(keys, s, asset, paying) == balances(s, asset, paying),
{
    lemma_picked_entries(keys, s, asset, paying);
    let list = picked(keys, s, asset, paying);
    let ids = list.map_values(|e: (Identifier, int)| e.0);
    let set = Set::new(|m: Identifier| balance(s, asset, m, paying) > 0);
    assert forall|m: Identifier| set.contains(m) implies ids.to_set().contains(m) by {
        assert(balance(s, asset, m, paying) > 0);
        let k = choose|k: int| 0 <= k < keys.len() && keys[k] == m;
        assert(balance(s, asset, keys[k], paying) > 0);
        let j = choose|j: int| 0 <= j < list.len() && list[j].0 == keys[k];
        assert(ids[j] == m);
    }
    assert forall|m: Identifier| ids.to_set().contains(m) implies set.contains(m) by {
        let j = choose|j: int| 0 <= j < ids.len() && ids[j] == m;
        assert(list[j].0 == m);
    }
    assert(ids.to_set() =~= set);
    lemma_ascending_is(ids, set);
    assert(list =~= ids.map_values(|m: Identifier| (m, balance(s, asset, m, paying))));
}

/// The sum of the positions of the listed members.
spec fn position_sum(
    keys: Seq<Identifier>,
    s: Seq<ClearingObligation>,
    asset: Identifier,
) -> int
    decreases keys.len(),
{
    if keys.len() == 0 {
        0
    } else {
        position_sum(keys.drop_last(), s, asset) + net_position(s, asset, keys.last())
    }
}

spec fn contribution_sum(keys: Seq<Identifier>, o: ClearingObligation, asset: Identifier) -> int
    decreases keys.len(),
{
    if keys.len() == 0 {
        0
    } else {
        contribution_sum(keys.drop_last(), o, asset) + contribution(o, asset, keys.last())
    }
}

proof fn lemma_contribution_sum(keys: Seq<Identifier>, o: ClearingObligation, asset: Identifier)
    requires
        is_ascending(keys),
        o.payer_id != o.payee_id,
        o.asset_id == asset,
    ensures
        contribution_sum(keys, o, asset) == (if keys.contains(o.payee_id) {
            o.amount as int
        } else {
            0
        }) - (if keys.contains(o.payer_id) {
            o.amount as int
        } else {
            0
        }),
    decreases keys.len(),
{
    if keys.len() > 0 {
        let rest = keys.drop_last();
        lemma_contribution_sum(rest, o, asset);
        assert forall|x: Identifier| keys.contains(x) == (rest.contains(x) || x == keys.last()) by {
            if keys.contains(x) {
                let i = choose|i: int| 0 <= i < keys.len() && keys[i] == x;
                if i < rest.len() {
                    assert(rest[i] == x);
                }
            }
            if rest.contains(x) {
                let i = choose|i: int| 0 <= i < rest.len() && rest[i] == x;
                assert(keys[i] == x);
            }
            if x == keys.last() {
                assert(keys[keys.len() - 1] == x);
            }
        }
        if rest.contains(keys.last()) {
            let i = choose|i: int| 0 <= i < rest.len() && rest[i] == keys.last();
            assert(rank(keys[i]) < rank(keys[keys.len() - 1]));
        }
        assert(keys.contains(o.payee_id) == (rest.contains(o.payee_id) || o.payee_id
            == keys.last()));
        assert(keys.contains(o.payer_id) == (rest.contains(o.payer_id) || o.payer_id
            == keys.last()));
    }
}

proof fn lemma_foreign_contribution_sum(
    keys: Seq<Identifier>,
    o: ClearingObligation,
    asset: Identifier,
)
    requires
        o.asset_id != asset,
    ensures
        contribution_sum(keys, o, asset) == 0,
    decreases keys.len(),
{
    if keys.len() > 0 {
        lemma_foreign_contribution_sum(keys.drop_last(), o, asset);
    }
}

proof fn lemma_position_sum_step(
    keys: Seq<Identifier>,
    s: Seq<ClearingObligation>,
    asset: Identifier,
)
    requires
        s.len() > 0,
    ensures
        position_sum(keys, s, asset) == position_sum(keys, s.drop_last(), asset)
            + contribution_sum(keys, s.last(), asset),
    decreases keys.len(),
{
    if keys.len() > 0 {
        lemma_position_sum_step(keys.drop_last(), s, asset);
    }
}

proof fn lemma_no_positions(keys: Seq<Identifier>, asset: Identifier)
    ensures
        position_sum(keys, Seq::empty(), asset) == 0,
    decreases keys.len(),
{
    if keys.len() > 0 {
        lemma_no_positions(keys.drop_last(), asset);
    }
}

/// Whether a list holds both parties of every obligation of a batch.
spec fn covers(keys: Seq<Identifier>, s: Seq<ClearingObligation>) -> bool {
    forall|i: int|
        0 <= i < s.len() ==> keys.contains((#[trigger] s[i]).payer_id) && keys.contains(
            s[i].payee_id,
        )
}

/// The positions of all parties cancel out.
proof fn lemma_positions_cancel(
    keys: Seq<Identifier>,
    s: Seq<ClearingObligation>,
    asset: Identifier,
)
    requires
        is_ascending(keys),
        covers(keys, s),
        all_well_formed(s),
    ensures
        position_sum(keys, s, asset) == 0,
    decreases s.len(),
{
    if s.len() == 0 {
        assert(s =~= Seq::empty());
        lemma_no_positions(keys, asset);
    } else {
        let rest = s.drop_last();
        assert forall|i: int| 0 <= i < rest.len() implies keys.contains((#[trigger] rest[i]).payer_id)
            && keys.contains(rest[i].payee_id) by {
            assert(rest[i] == s[i]);
        }
        assert forall|i: int| 0 <= i < rest.len() implies (#[trigger] rest[i]).well_formed() by {
            assert(rest[i] == s[i]);
        }
        lemma_positions_cancel(keys, rest, asset);
        lemma_position_sum_step(keys, s, asset);
        let o = s[s.len() - 1];
        assert(o.well_formed());
        if o.asset_id == asset {
            lemma_contribution_sum(keys, o, asset);
        } else {
            lemma_foreign_contribution_sum(keys, o, asset);
        }
    }
}

proof fn lemma_picked_difference(
    keys: Seq<Identifier>,
    s: Seq<ClearingObligation>,
    asset: Identifier,
)
    ensures
        position_sum(keys, s, asset) == total(picked(keys, s, asset, false)) - total(
            picked(keys, s, asset, true),
        ),
    decreases keys.len(),
{
    if keys.len() > 0 {
        let rest = keys.drop_last();
        lemma_picked_difference(rest, s, asset);
        let m = keys.last();
        if net_position(s, asset, m) > 0 {
            let entry = (m, balance(s, asset, m, false));
            assert(picked(rest, s, asset, false).push(entry).drop_last() =~= picked(
                rest,
                s,
                asset,
                false,
            ));
        } else if net_position(s, asset, m) < 0 {
            let entry = (m, balance(s, asset, m, true));
            assert(picked(rest, s, asset, true).push(entry).drop_last() =~= picked(
                rest,
                s,
                asset,
                true,
            ));
        }
    }
}

/// A member whose position is not zero is a party to some obligation.
proof fn lemma_position_of_party(
    keys: Seq<Identifier>,
    s: Seq<ClearingObligation>,
    asset: Identifier,
    member: Identifier,
)
    requires
        covers(keys, s),
        net_position(s, asset, member) != 0,
    ensures
        keys.contains(member),
    decreases s.len(),
{
    if s.len() > 0 {
        let rest = s.drop_last();
        assert forall|i: int| 0 <= i < rest.len() implies keys.contains((#[trigger] rest[i]).payer_id)
            && keys.contains(rest[i].payee_id) by {
            assert(rest[i] == s[i]);
        }
        assert(keys.contains(s[s.len() - 1].payer_id));
        if net_position(rest, asset, member) != 0 {
            lemma_position_of_party(keys, rest, asset, member);
        }
    }
}

/// The parties of a batch, ascending.
spec fn parties(s: Seq<ClearingObligation>) -> Seq<Identifier> {
    ascending(
        (s.map_values(|o: ClearingObligation| o.payer_id) + s.map_values(
            |o: ClearingObligation| o.payee_id,
        )).to_set(),
    )
}

proof fn lemma_parties(s: Seq<ClearingObligation>)
    ensures
        is_ascending(parties(s)),
        covers(parties(s), s),
{
    let payers = s.map_values(|o: ClearingObligation| o.payer_id);
    let payees = s.map_values(|o: ClearingObligation| o.payee_id);
    let both = payers + payees;
    vstd::seq_lib::seq_to_set_is_finite(both);
    crate::ident::lemma_ascending_exists(both.to_set());
    assert forall|i: int| 0 <= i < s.len() implies parties(s).contains((#[trigger] s[i]).payer_id)
        && parties(s).contains(s[i].payee_id) by {
        assert(both[i] == s[i].payer_id);
        assert(both[s.len() + i] == s[i].payee_id);
        assert(parties(s).to_set().contains(s[i].payer_id));
        assert(parties(s).to_set().contains(s[i].payee_id));
    }
}

/// Only finitely many members pay, or receive, on balance.
pub proof fn lemma_positive_balances_finite(
    s: Seq<ClearingObligation>,
    asset: Identifier,
    paying: bool,
)
    ensures
        Set::new(|m: Identifier| balance(s, asset, m, paying) > 0).finite(),
{
    let keys = parties(s);
    lemma_parties(s);
    vstd::seq_lib::seq_to_set_is_finite(keys);
    let set = Set::new(|m: Identifier| balance(s, asset, m, paying) > 0);
    assert forall|m: Identifier| set.contains(m) implies keys.to_set().contains(m) by {
        lemma_position_of_party(keys, s, asset, m);
    }
    vstd::set_lib::lemma_set_subset_finite(keys.to_set(), set);
}

/// In every asset, what is paid on balance equals what is received on balance.
pub proof fn lemma_debts_equal_credits(s: Seq<ClearingObligation>, asset: Identifier)
    requires
        all_well_formed(s),
    ensures
        total(debts(s, asset)) == total(credits(s, asset)),
{
    let keys = parties(s);
    lemma_parties(s);
    assert forall|m: Identifier| #[trigger] balance(s, asset, m, true) > 0 implies keys.contains(
        m,
    ) by {
        lemma_position_of_party(keys, s, asset, m);
    }
    assert forall|m: Identifier| #[trigger] balance(s, asset, m, false) > 0 implies keys.contains(
        m,
    ) by {
        lemma_position_of_party(keys, s, asset, m);
    }
    lemma_picked_all(keys, s, asset, true);
    lemma_picked_all(keys, s, asset, false);
    lemma_picked_difference(keys, s, asset);
    lemma_positions_cancel(keys, s, asset);
}

/// The amounts of an executable list.
pub(crate) open spec fn amounts(list: Seq<(Identifier, u128)>) -> Seq<(Identifier, int)> {
    list.map_values(|e: (Identifier, u128)| (e.0, e.1 as int))
}

/// The absolute value of a negative number.
fn absolute(value: i128) -> (r: u128)
    requires
        value < 0,
    ensures
        r == -value,
{
    (-(value + 1)) as u128 + 1
}

/// The members that pay, or receive, on balance.
fn balance_list(
    positions: &IdMap<i128>,
    paying: bool,
    Ghost(s): Ghost<Seq<ClearingObligation>>,
    Ghost(asset): Ghost<Identifier>,
) -> (r: Vec<(Identifier, u128)>)
    requires
        forall|m: Identifier| #[trigger]
            amount_at(positions@, m) == net_position(s, asset, m),
    ensures
        amounts(r@) == balances(s, asset, paying),
{
    let ghost keys = ascending(positions@.dom());
    let count: usize = positions.len();
    let mut list: Vec<(Identifier, u128)> = Vec::new();
    let mut i: usize = 0;
    assert(amounts(list@) =~= picked(keys.take(0), s, asset, paying));
    while i < count
        invariant
            i <= count,
            count == keys.len(),
            count == positions@.dom().len(),
            keys == ascending(positions@.dom()),
            forall|m: Identifier| #[trigger]
                amount_at(positions@, m) == net_position(s, asset, m),
            amounts(list@) == picked(keys.take(i as int), s, asset, paying),
        decreases count - i,
    {
        let member = positions.key_at(i);
        let value: i128 = *positions.value_at(i);
        proof {
            assert(amount_at(positions@, member) == net_position(s, asset, member));
            assert(keys.take(i + 1).drop_last() =~= keys.take(i as int));
            assert(keys.take(i + 1).last() == member);
        }
        let ghost before = list@;
        if paying && value < 0 {
            list.push((member, absolute(value)));
            assert(amounts(list@) =~= amounts(before).push((member, -value as int)));
        } else if !paying && value > 0 {
            list.push((member, value as u128));
            assert(amounts(list@) =~= amounts(before).push((member, value as int)));
        }
        i = i + 1;
    }
    proof {
        assert(keys.take(i as int) =~= keys);
        assert forall|m: Identifier| #[trigger] balance(s, asset, m, paying) > 0 implies keys.contains(
            m,
        ) by {
            assert(amount_at(positions@, m) == net_position(s, asset, m));
            assert(keys.to_set().contains(m));
        }
        lemma_picked_all(keys, s, asset, paying);
    }
    list
}

proof fn lemma_total_grows(list: Seq<(Identifier, int)>, i: int)
    requires
        0 <= i <= list.len(),
        forall|j: int| 0 <= j < list.len() ==> (#[trigger] list[j]).1 >= 0,
    ensures
        0 <= total(list.take(i)) <= total(list),
    decreases list.len(),
{
    if i == list.len() {
        assert(list.take(i) =~= list);
        if list.len() > 0 {
            let rest = list.drop_last();
            assert forall|j: int| 0 <= j < rest.len() implies (#[trigger] rest[j]).1 >= 0 by {
                assert(rest[j] == list[j]);
            }
            lemma_total_grows(rest, rest.len() as int);
            assert(rest.take(rest.len() as int) =~= rest);
            assert(list[list.len() - 1].1 >= 0);
        }
    } else {
        let rest = list.drop_last();
        assert forall|j: int| 0 <= j < rest.len() implies (#[trigger] rest[j]).1 >= 0 by {
            assert(rest[j] == list[j]);
        }
        lemma_total_grows(rest, i);
        assert(rest.take(i) =~= list.take(i));
        assert(list[list.len() - 1].1 >= 0);
    }
}

/// The sum of the amounts of a list, unless it leaves the range.
fn sum_of(list: &Vec<(Identifier, u128)>) -> (r: Result<u128, DeCcpError>)
    ensures
        match r {
            Ok(sum) => sum == total(amounts(list@)),
            Err(error) => error == DeCcpError::ArithmeticOverflow && total(amounts(list@))
                > u128::MAX,
        },
{
    let ghost all = amounts(list@);
    let mut sum: u128 = 0;
    let mut i: usize = 0;
    while i < list.len()
        invariant
            i <= list@.len(),
            all == amounts(list@),
            sum == total(all.take(i as int)),
        decreases list@.len() - i,
    {
        proof {
            assert(all.take(i + 1).drop_last() =~= all.take(i as int));
            assert(all.take(i + 1).last() == all[i as int]);
        }
        match sum.checked_add(list[i].1) {
            None => {
                proof {
                    lemma_total_grows(all, i + 1);
                }
                return Err(DeCcpError::ArithmeticOverflow);
            },
            Some(next) => {
                sum = next;
            },
        }
        i = i + 1;
    }
    assert(all.take(i as int) =~= all);
    Ok(sum)
}

/// Adds the legs that settle debts against credits.
fn push_paired(
    legs: &mut Vec<ClearingLeg>,
    debtors: Vec<(Identifier, u128)>,
    creditors: Vec<(Identifier, u128)>,
    asset: &Identifier,
    cycle_id: &Identifier,
    root: &Digest32,
)
    ensures
        final(legs)@ == old(legs)@ + paired(amounts(debtors@), amounts(creditors@)).map_values(
            |p: (Identifier, Identifier, int)|
                ClearingLeg::between(*cycle_id, p.0, p.1, *asset, p.2 as u128, *root),
        ),
{
    let ghost leg_of = |p: (Identifier, Identifier, int)|
        ClearingLeg::between(*cycle_id, p.0, p.1, *asset, p.2 as u128, *root);
    let ghost goal = legs@ + paired(amounts(debtors@), amounts(creditors@)).map_values(leg_of);
    let mut debtors = debtors;
    let mut creditors = creditors;
    let mut debit_at: usize = 0;
    let mut credit_at: usize = 0;
    assert(amounts(debtors@).skip(0) =~= amounts(debtors@));
    assert(amounts(creditors@).skip(0) =~= amounts(creditors@));
    while debit_at < debtors.len() && credit_at < creditors.len()
        invariant
            debit_at <= debtors@.len(),
            credit_at <= creditors@.len(),
            leg_of == (|p: (Identifier, Identifier, int)|
                ClearingLeg::between(*cycle_id, p.0, p.1, *asset, p.2 as u128, *root)),
            goal == legs@ + paired(
                amounts(debtors@).skip(debit_at as int),
                amounts(creditors@).skip(credit_at as int),
            ).map_values(leg_of),
        decreases debtors@.len() - debit_at + creditors@.len() - credit_at,
    {
        let payer: Identifier = debtors[debit_at].0;
        let payee: Identifier = creditors[credit_at].0;
        let debit: u128 = debtors[debit_at].1;
        let credit: u128 = creditors[credit_at].1;
        let amount: u128 = if debit <= credit {
            debit
        } else {
            credit
        };
        let ghost owed = amounts(debtors@).skip(debit_at as int);
        let ghost due = amounts(creditors@).skip(credit_at as int);
        let ghost before = legs@;
        legs.push(ClearingLeg::make(cycle_id, &payer, &payee, asset, amount, root));
        debtors.set(debit_at, (payer, debit - amount));
        creditors.set(credit_at, (payee, credit - amount));
        if debit == amount {
            debit_at = debit_at + 1;
        }
        if credit == amount {
            credit_at = credit_at + 1;
        }
        proof {
            let more = paired(reduced(owed, amount as int), reduced(due, amount as int));
            assert(amounts(debtors@).skip(debit_at as int) =~= reduced(owed, amount as int));
            assert(amounts(creditors@).skip(credit_at as int) =~= reduced(due, amount as int));
            assert(paired(owed, due) == seq![(payer, payee, amount as int)] + more);
            assert(before + (seq![(payer, payee, amount as int)] + more).map_values(leg_of)
                =~= before.push(leg_of((payer, payee, amount as int))) + more.map_values(leg_of));
        }
    }
    assert(legs@ =~= goal);
}

/// Adds the legs that settle one netted asset.
fn push_asset_legs(
    legs: &mut Vec<ClearingLeg>,
    positions: &IdMap<i128>,
    asset: &Identifier,
    cycle_id: &Identifier,
    root: &Digest32,
    Ghost(s): Ghost<Seq<ClearingObligation>>,
) -> (r: Result<(), DeCcpError>)
    requires
        all_well_formed(s),
        forall|m: Identifier| #[trigger]
            amount_at(positions@, m) == net_position(s, *asset, m),
    ensures
        total(debts(s, *asset)) <= u128::MAX ==> r is Ok && final(legs)@ == old(legs)@ + asset_legs(
            s,
            *asset,
            *cycle_id,
            *root,
        ),
        total(debts(s, *asset)) > u128::MAX ==> r == Err::<(), DeCcpError>(
            DeCcpError::ArithmeticOverflow,
        ),
{
    let debtors = balance_list(positions, true, Ghost(s), Ghost(*asset));
    let creditors = balance_list(positions, false, Ghost(s), Ghost(*asset));
    let total_debit: u128 = sum_of(&debtors)?;
    proof {
        lemma_debts_equal_credits(s, *asset);
    }
    let total_credit: u128 = sum_of(&creditors)?;
    if total_debit != total_credit {
        return Err(DeCcpError::ConservationFailure);
    }
    push_paired(legs, debtors, creditors, asset, cycle_id, root);
    Ok(())
}

/// The legs that settle a batch.
pub(crate) fn settle_batch(
    batch: &Vec<ClearingObligation>,
    netting: &Netting,
    mode: NettingMode,
    settlement_asset: &Identifier,
    cycle_id: &Identifier,
    root: &Digest32,
) -> (r: Result<Vec<ClearingLeg>, DeCcpError>)
    requires
        all_well_formed(batch@),
        netting.books(batch@, mode, *settlement_asset),
    ensures
        match r {
            Ok(legs) => legs@ == legs_for(batch@, mode, *settlement_asset, *cycle_id, *root)
                && forall|asset: Identifier| #[trigger]
                netted_assets(batch@, mode, *settlement_asset).contains(asset) ==> total(
                    debts(batch@, asset),
                ) <= u128::MAX,
            Err(error) => error == DeCcpError::ArithmeticOverflow && exists|asset: Identifier| #[trigger]
                netted_assets(batch@, mode, *settlement_asset).contains(asset) && total(
                    debts(batch@, asset),
                ) > u128::MAX,
        },
{
    let ghost s = batch@;
    let mut legs: Vec<ClearingLeg> = Vec::new();
    let mut k: usize = 0;
    while k < batch.len()
        invariant
            k <= batch@.len(),
            s == batch@,
            legs@ == gross_legs(s.take(k as int), mode, *settlement_asset, *cycle_id, *root),
        decreases batch@.len() - k,
    {
        let o = &batch[k];
        proof {
            lemma_booked(s, k as int);
        }
        if !mode.asset_is_net(&o.asset_id, settlement_asset) {
            legs.push(
                ClearingLeg::make(
                    cycle_id,
                    &o.payer_id,
                    &o.payee_id,
                    &o.asset_id,
                    o.amount,
                    root,
                ),
            );
        }
        k = k + 1;
    }
    assert(s.take(k as int) =~= s);
    let ghost head = legs@;
    let ghost assets = ascending(netting.positions@.dom());
    let count: usize = netting.positions.len();
    let mut i: usize = 0;
    assert(legs@ =~= head + net_legs(s, assets.take(0), *cycle_id, *root));
    while i < count
        invariant
            i <= count,
            count == assets.len(),
            count == netting.positions@.dom().len(),
            assets == ascending(netting.positions@.dom()),
            s == batch@,
            all_well_formed(s),
            netting.books(s, mode, *settlement_asset),
            legs@ == head + net_legs(s, assets.take(i as int), *cycle_id, *root),
            forall|j: int| 0 <= j < i ==> total(debts(s, #[trigger] assets[j])) <= u128::MAX,
        decreases count - i,
    {
        let asset = netting.positions.key_at(i);
        let positions = netting.positions.value_at(i);
        proof {
            assert(netted_assets(s, mode, *settlement_asset).contains(asset));
            assert forall|m: Identifier| #[trigger]
                amount_at(positions@, m) == net_position(s, asset, m) by {
                assert(position_at(netting.positions@, asset, m) == net_position(s, asset, m));
            }
            assert(assets.take(i + 1).drop_last() =~= assets.take(i as int));
            assert(assets.take(i + 1).last() == asset);
        }
        push_asset_legs(&mut legs, positions, &asset, cycle_id, root, Ghost(s))?;
        proof {
            assert(legs@ =~= head + (net_legs(s, assets.take(i as int), *cycle_id, *root)
                + asset_legs(s, asset, *cycle_id, *root)));
        }
        i = i + 1;
    }
    proof {
        assert(assets.take(i as int) =~= assets);
        assert forall|asset: Identifier| #[trigger]
            netted_assets(s, mode, *settlement_asset).contains(asset) implies total(
            debts(s, asset),
        ) <= u128::MAX by {
            assert(assets.to_set().contains(asset));
            let j = choose|j: int| 0 <= j < assets.len() && assets[j] == asset;
            assert(total(debts(s, assets[j])) <= u128::MAX);
        }
    }
    Ok(legs)
}

/// The members whose risk calls on margin, with the amounts.
pub(crate) fn collect_debits(
    netting: &Netting,
    mode: NettingMode,
    Ghost(s): Ghost<Seq<ClearingObligation>>,
    Ghost(settlement_asset): Ghost<Identifier>,
) -> (r: IdMap<u128>)
    requires
        netting.books(s, mode, settlement_asset),
    ensures
        r@ == risk_debits(s, mode),
{
    if mode == NettingMode::GrossGross {
        let debits = crate::map::Record::duplicate(&netting.gross);
        proof {
            assert forall|m: Identifier| debits@.contains_key(m) == (risk_debit(s, mode, m) > 0) by {
                assert((if netting.gross@.contains_key(m) {
                    netting.gross@[m] as int
                } else {
                    0
                }) == gross_risk(s, m));
            }
            assert forall|m: Identifier| #[trigger] debits@.contains_key(m) implies debits@[m]
                == risk_debit(s, mode, m) as u128 by {
                assert((if netting.gross@.contains_key(m) {
                    netting.gross@[m] as int
                } else {
                    0
                }) == gross_risk(s, m));
            }
            assert(debits@ =~= risk_debits(s, mode));
        }
        return debits;
    }
    let ghost keys = ascending(netting.risks@.dom());
    let count: usize = netting.risks.len();
    let mut debits: IdMap<u128> = IdMap::new();
    let mut i: usize = 0;
    while i < count
        invariant
            i <= count,
            count == keys.len(),
            count == netting.risks@.dom().len(),
            keys == ascending(netting.risks@.dom()),
            mode != NettingMode::GrossGross,
            netting.books(s, mode, settlement_asset),
            forall|m: Identifier| #[trigger]
                debits@.contains_key(m) <==> keys.take(i as int).contains(m) && risk_debit(
                    s,
                    mode,
                    m,
                ) > 0,
            forall|m: Identifier| #[trigger]
                debits@.contains_key(m) ==> debits@[m] == risk_debit(s, mode, m),
        decreases count - i,
    {
        let member = netting.risks.key_at(i);
        let risk: i128 = *netting.risks.value_at(i);
        proof {
            assert(amount_at(netting.risks@, member) == risk_position(s, member));
            let head = keys.take(i as int);
            let more = keys.take(i + 1);
            assert(more =~= head.push(member));
            assert forall|m: Identifier| #[trigger] more.contains(m) == (head.contains(m) || m
                == member) by {
                if head.contains(m) {
                    let j = choose|j: int| 0 <= j < head.len() && head[j] == m;
                    assert(more[j] == m);
                }
                assert(more[i as int] == member);
            }
        }
        if risk < 0 {
            debits.insert(member, absolute(risk));
        }
        i = i + 1;
    }
    proof {
        assert(keys.take(i as int) =~= keys);
        assert forall|m: Identifier| risk_debit(s, mode, m) > 0 implies keys.contains(m) by {
            assert(amount_at(netting.risks@, m) == risk_position(s, m));
            assert(keys.to_set().contains(m));
        }
        assert(debits@ =~= risk_debits(s, mode));
    }
    debits
}

} // verus!
