//! Netting cycles, the obligations submitted to them, and their proposals.

use vstd::prelude::*;

use crate::error::DeCcpError;
use crate::ident::{any_zero, copy_ids, has_zero, same_id, Digest32, Identifier};
use crate::json::{hex, id_key};
use crate::map::{same_amounts, IdMap, Record};
use crate::transcript::{big_endian, bytes_of, digest_of_fields, sha256_of, FieldDigest, Transcript};

verus! {

/// How the obligations of a cycle are turned into legs.
#[derive(Clone, Copy, Debug, PartialEq, Eq, Structural)]
pub enum NettingMode {
    /// Every obligation keeps its own leg.
    GrossGross,
    /// Only obligations in the settlement asset are netted.
    GrossNet,
    /// Every asset is netted.
    NetNet,
}

/// Where a cycle stands.
#[derive(Clone, Copy, Debug, PartialEq, Eq, Structural)]
pub enum CycleStatus {
    Open,
    Closed,
    Settled,
}

impl NettingMode {
    /// The byte that stands for the mode in a digest.
    pub open spec fn tag(self) -> u8 {
        match self {
            NettingMode::GrossGross => 1u8,
            NettingMode::GrossNet => 2u8,
            NettingMode::NetNet => 3u8,
        }
    }

    /// Whether obligations in an asset are netted.
    pub open spec fn nets(self, asset: Identifier, settlement_asset: Identifier) -> bool {
        match self {
            NettingMode::GrossGross => false,
            NettingMode::GrossNet => asset == settlement_asset,
            NettingMode::NetNet => true,
        }
    }

    pub(crate) fn mode_tag(self) -> (r: u8)
        ensures
            r == self.tag(),
    {
        match self {
            NettingMode::GrossGross => 1,
            NettingMode::GrossNet => 2,
            NettingMode::NetNet => 3,
        }
    }

    /// Whether obligations in an asset are netted.
    pub fn asset_is_net(self, asset: &Identifier, settlement_asset: &Identifier) -> (r: bool)
        ensures
            r == self.nets(*asset, *settlement_asset),
    {
        match self {
            NettingMode::GrossGross => false,
            NettingMode::GrossNet => same_id(asset, settlement_asset),
            NettingMode::NetNet => true,
        }
    }
}

/// A request to open a cycle.
#[derive(Clone, Copy, Debug, PartialEq, Eq)]
pub struct OpenCycleRequest {
    pub operation_id: Identifier,
    pub cycle_id: Identifier,
    pub mode: NettingMode,
    pub settlement_asset_id: Identifier,
    pub policy_digest: Digest32,
    pub opened_at: u64,
}

impl OpenCycleRequest {
    /// The digest that the authorities approve.
    pub open spec fn statement(self) -> Digest32 {
        open_cycle_statement(
            self.operation_id,
            self.cycle_id,
            self.mode,
            self.settlement_asset_id,
            self.policy_digest,
            self.opened_at,
        )
    }

    /// The digest that the authorities approve.
    pub fn statement_digest(&self) -> (r: Digest32)
        ensures
            r == self.statement(),
    {
        open_cycle_approval_digest(
            &self.operation_id,
            &self.cycle_id,
            self.mode,
            &self.settlement_asset_id,
            &self.policy_digest,
            self.opened_at,
        )
    }
}

/// The fields that the digest of a new cycle covers.
pub open spec fn open_cycle_fields(
    operation_id: Identifier,
    cycle_id: Identifier,
    mode: NettingMode,
    settlement_asset_id: Identifier,
    policy_digest: Digest32,
    opened_at: u64,
) -> Seq<Seq<u8>> {
    seq![
        operation_id@,
        cycle_id@,
        seq![mode.tag()],
        settlement_asset_id@,
        policy_digest@,
        big_endian(opened_at as nat, 8),
    ]
}

/// The digest that the authorities approve for a new cycle.
pub open spec fn open_cycle_statement(
    operation_id: Identifier,
    cycle_id: Identifier,
    mode: NettingMode,
    settlement_asset_id: Identifier,
    policy_digest: Digest32,
    opened_at: u64,
) -> Digest32 {
    digest_of_fields(
        "DECCP:OPEN-CYCLE:v1",
        open_cycle_fields(
            operation_id,
            cycle_id,
            mode,
            settlement_asset_id,
            policy_digest,
            opened_at,
        ),
    )
}

/// The digest that the authorities approve for a new cycle.
pub fn open_cycle_approval_digest(
    operation_id: &Identifier,
    cycle_id: &Identifier,
    mode: NettingMode,
    settlement_asset_id: &Identifier,
    policy_digest: &Digest32,
    opened_at: u64,
) -> (r: Digest32)
    ensures
        r == open_cycle_statement(
            *operation_id,
            *cycle_id,
            mode,
            *settlement_asset_id,
            *policy_digest,
            opened_at,
        ),
{
    let tag = [mode.mode_tag()];
    let mut digest = FieldDigest::new("DECCP:OPEN-CYCLE:v1");
    digest.field(operation_id);
    digest.field(cycle_id);
    assert(tag@ =~= seq![mode.tag()]);
    digest.field(&tag);
    digest.field(settlement_asset_id);
    digest.field(policy_digest);
    digest.number(opened_at as u128, 8);
    assert(digest.fields() =~= open_cycle_fields(
        *operation_id,
        *cycle_id,
        mode,
        *settlement_asset_id,
        *policy_digest,
        opened_at,
    ));
    digest.finish()
}

/// What one member owes another in a cycle.
#[derive(Clone, Copy, Debug, PartialEq, Eq)]
pub struct ClearingObligation {
    pub operation_id: Identifier,
    pub obligation_id: Identifier,
    pub cycle_id: Identifier,
    pub payer_id: Identifier,
    pub payee_id: Identifier,
    pub asset_id: Identifier,
    pub amount: u128,
    pub risk_value: u128,
    pub zkpi_digest: Digest32,
}

impl View for ClearingObligation {
    type V = ClearingObligation;

    open spec fn view(&self) -> ClearingObligation {
        *self
    }
}

impl Record for ClearingObligation {
    fn duplicate(&self) -> (r: Self) {
        *self
    }
}

impl ClearingObligation {
    /// Whether every identifier is set, the parties differ, and the amount and
    /// the risk value are positive.
    pub open spec fn well_formed(self) -> bool {
        &&& !has_zero(
            seq![
                self.operation_id,
                self.obligation_id,
                self.cycle_id,
                self.payer_id,
                self.payee_id,
                self.asset_id,
                self.zkpi_digest,
            ],
        )
        &&& self.payer_id != self.payee_id
        &&& self.amount != 0
        &&& self.risk_value != 0
    }

    /// Checks that the obligation is well formed.
    pub fn validate(&self) -> (r: Result<(), DeCcpError>)
        ensures
            r == (if self.well_formed() {
                Ok::<(), DeCcpError>(())
            } else {
                Err(DeCcpError::InvalidObligation)
            }),
    {
        let required = [
            self.operation_id,
            self.obligation_id,
            self.cycle_id,
            self.payer_id,
            self.payee_id,
            self.asset_id,
            self.zkpi_digest,
        ];
        if any_zero(&required) || same_id(&self.payer_id, &self.payee_id) || self.amount == 0
            || self.risk_value == 0 {
            return Err(DeCcpError::InvalidObligation);
        }
        Ok(())
    }

    /// The fields that the leaf digest covers.
    pub open spec fn leaf_fields(self) -> Seq<Seq<u8>> {
        seq![
            self.operation_id@,
            self.obligation_id@,
            self.cycle_id@,
            self.payer_id@,
            self.payee_id@,
            self.asset_id@,
            big_endian(self.amount as nat, 16),
            big_endian(self.risk_value as nat, 16),
            self.zkpi_digest@,
        ]
    }

    /// The digest of the obligation as a leaf of the obligation root.
    pub open spec fn leaf(self) -> Digest32 {
        digest_of_fields("DECCP:OBLIGATION:v1", self.leaf_fields())
    }

    pub(crate) fn leaf_digest(&self) -> (r: Digest32)
        ensures
            r == self.leaf(),
    {
        let mut digest = FieldDigest::new("DECCP:OBLIGATION:v1");
        digest.field(&self.operation_id);
        digest.field(&self.obligation_id);
        digest.field(&self.cycle_id);
        digest.field(&self.payer_id);
        digest.field(&self.payee_id);
        digest.field(&self.asset_id);
        digest.number(self.amount, 16);
        digest.number(self.risk_value, 16);
        digest.field(&self.zkpi_digest);
        assert(digest.fields() =~= self.leaf_fields());
        digest.finish()
    }
}

/// A payment that settles part of a cycle.
#[derive(Clone, Copy, Debug, PartialEq, Eq)]
pub struct ClearingLeg {
    pub payer_id: Identifier,
    pub payee_id: Identifier,
    pub asset_id: Identifier,
    pub amount: u128,
    /// Exact public context a zkPI builder must bind.
    pub instruction_context_digest: Digest32,
}

impl View for ClearingLeg {
    type V = ClearingLeg;

    open spec fn view(&self) -> ClearingLeg {
        *self
    }
}

/// The fields that the context of a leg covers.
pub open spec fn leg_fields(
    cycle_id: Identifier,
    payer_id: Identifier,
    payee_id: Identifier,
    asset_id: Identifier,
    amount: u128,
    obligation_root: Digest32,
) -> Seq<Seq<u8>> {
    seq![
        cycle_id@,
        payer_id@,
        payee_id@,
        asset_id@,
        big_endian(amount as nat, 16),
        obligation_root@,
    ]
}

impl ClearingLeg {
    /// The leg between two members of a cycle, with the context that its
    /// instruction must bind.
    pub open spec fn between(
        cycle_id: Identifier,
        payer_id: Identifier,
        payee_id: Identifier,
        asset_id: Identifier,
        amount: u128,
        obligation_root: Digest32,
    ) -> ClearingLeg {
        ClearingLeg {
            payer_id,
            payee_id,
            asset_id,
            amount,
            instruction_context_digest: digest_of_fields(
                "DECCP:ZKPI-CONTEXT:v1",
                leg_fields(cycle_id, payer_id, payee_id, asset_id, amount, obligation_root),
            ),
        }
    }

    /// The leg between two members of a cycle.
    pub(crate) fn make(
        cycle_id: &Identifier,
        payer_id: &Identifier,
        payee_id: &Identifier,
        asset_id: &Identifier,
        amount: u128,
        obligation_root: &Digest32,
    ) -> (r: ClearingLeg)
        ensures
            r == ClearingLeg::between(
                *cycle_id,
                *payer_id,
                *payee_id,
                *asset_id,
                amount,
                *obligation_root,
            ),
    {
        let mut digest = FieldDigest::new("DECCP:ZKPI-CONTEXT:v1");
        digest.field(cycle_id);
        digest.field(payer_id);
        digest.field(payee_id);
        digest.field(asset_id);
        digest.number(amount, 16);
        digest.field(obligation_root);
        assert(digest.fields() =~= leg_fields(
            *cycle_id,
            *payer_id,
            *payee_id,
            *asset_id,
            amount,
            *obligation_root,
        ));
        ClearingLeg {
            payer_id: *payer_id,
            payee_id: *payee_id,
            asset_id: *asset_id,
            amount,
            instruction_context_digest: digest.finish(),
        }
    }

    fn same(&self, other: &ClearingLeg) -> (r: bool)
        ensures
            r == (*self == *other),
    {
        same_id(&self.payer_id, &other.payer_id) && same_id(&self.payee_id, &other.payee_id)
            && same_id(&self.asset_id, &other.asset_id) && self.amount == other.amount && same_id(
            &self.instruction_context_digest,
            &other.instruction_context_digest,
        )
    }
}

/// How a cycle would be closed: the legs that settle it and the margin that
/// each debtor's risk calls on.
#[derive(Debug, PartialEq, Eq)]
pub struct NettingProposal {
    pub cycle_id: Identifier,
    pub mode: NettingMode,
    pub obligation_root: Digest32,
    pub legs: Vec<ClearingLeg>,
    pub risk_debits: IdMap<u128>,
    pub proposal_digest: Digest32,
}

/// What a proposal stands for.
#[verifier::ext_equal]
pub struct ProposalView {
    pub cycle_id: Identifier,
    pub mode: NettingMode,
    pub obligation_root: Digest32,
    pub legs: Seq<ClearingLeg>,
    pub risk_debits: Map<Identifier, u128>,
    pub proposal_digest: Digest32,
}

impl View for NettingProposal {
    type V = ProposalView;

    open spec fn view(&self) -> ProposalView {
        ProposalView {
            cycle_id: self.cycle_id,
            mode: self.mode,
            obligation_root: self.obligation_root,
            legs: self.legs@,
            risk_debits: self.risk_debits@,
            proposal_digest: self.proposal_digest,
        }
    }
}

fn copy_legs(legs: &Vec<ClearingLeg>) -> (r: Vec<ClearingLeg>)
    ensures
        r@ == legs@,
{
    let mut out: Vec<ClearingLeg> = Vec::new();
    let mut i: usize = 0;
    while i < legs.len()
        invariant
            i <= legs@.len(),
            out@ == legs@.take(i as int),
        decreases legs@.len() - i,
    {
        out.push(legs[i]);
        i = i + 1;
        assert(out@ =~= legs@.take(i as int));
    }
    assert(legs@.take(i as int) =~= legs@);
    out
}

impl Record for NettingProposal {
    fn duplicate(&self) -> (r: Self) {
        NettingProposal {
            cycle_id: self.cycle_id,
            mode: self.mode,
            obligation_root: self.obligation_root,
            legs: copy_legs(&self.legs),
            risk_debits: self.risk_debits.duplicate(),
            proposal_digest: self.proposal_digest,
        }
    }
}

impl Clone for NettingProposal {
    fn clone(&self) -> (r: Self)
        ensures
            r@ == self@,
    {
        self.duplicate()
    }
}

impl NettingProposal {
    /// Whether two proposals are the same.
    pub fn matches(&self, other: &NettingProposal) -> (r: bool)
        ensures
            r == (self@ == other@),
    {
        if !same_id(&self.cycle_id, &other.cycle_id) || self.mode != other.mode || !same_id(
            &self.obligation_root,
            &other.obligation_root,
        ) || !same_id(&self.proposal_digest, &other.proposal_digest) || self.legs.len()
            != other.legs.len() || !same_amounts(&self.risk_debits, &other.risk_debits) {
            return false;
        }
        let mut i: usize = 0;
        while i < self.legs.len()
            invariant
                self.legs@.len() == other.legs@.len(),
                i <= self.legs@.len(),
                forall|j: int| 0 <= j < i ==> self.legs@[j] == other.legs@[j],
            decreases self.legs@.len() - i,
        {
            if !self.legs[i].same(&other.legs[i]) {
                return false;
            }
            i = i + 1;
        }
        assert(self@ =~= other@);
        true
    }
}

/// The bytes of a leg in the digest of a proposal.
pub open spec fn leg_bytes(leg: ClearingLeg) -> Seq<u8> {
    leg.payer_id@ + leg.payee_id@ + leg.asset_id@ + big_endian(leg.amount as nat, 16)
        + leg.instruction_context_digest@
}

/// The bytes of legs, one after another.
pub open spec fn legs_bytes(legs: Seq<ClearingLeg>) -> Seq<u8>
    decreases legs.len(),
{
    if legs.len() == 0 {
        Seq::empty()
    } else {
        legs_bytes(legs.drop_last()) + leg_bytes(legs.last())
    }
}

/// The bytes of one risk debit: the member's framed hexadecimal key, then the
/// amount.
pub open spec fn debit_bytes(member: Identifier, amount: u128) -> Seq<u8> {
    big_endian(64, 4) + hex(member@) + big_endian(amount as nat, 16)
}

/// The bytes of risk debits in the order of `members`.
pub open spec fn debits_bytes(members: Seq<Identifier>, debits: Map<Identifier, u128>) -> Seq<u8>
    decreases members.len(),
{
    if members.len() == 0 {
        Seq::empty()
    } else {
        debits_bytes(members.drop_last(), debits) + debit_bytes(members.last(), debits[members.last()])
    }
}

/// The digest that names a proposal.
pub open spec fn proposal_statement(
    cycle_id: Identifier,
    mode: NettingMode,
    obligation_root: Digest32,
    legs: Seq<ClearingLeg>,
    risk_debits: Map<Identifier, u128>,
) -> Digest32 {
    sha256_of(
        bytes_of("DECCP:NETTING-PROPOSAL:v1") + cycle_id@ + seq![mode.tag()] + obligation_root@
            + big_endian(legs.len() as u32 as nat, 4) + legs_bytes(legs) + debits_bytes(
            crate::ident::ascending(risk_debits.dom()),
            risk_debits,
        ),
    )
}

pub(crate) fn netting_proposal_digest(
    cycle_id: &Identifier,
    mode: NettingMode,
    obligation_root: &Digest32,
    legs: &Vec<ClearingLeg>,
    risk_debits: &IdMap<u128>,
) -> (r: Digest32)
    ensures
        r == proposal_statement(*cycle_id, mode, *obligation_root, legs@, risk_debits@),
{
    let tag = [mode.mode_tag()];
    assert(tag@ =~= seq![mode.tag()]);
    let mut transcript = Transcript::new("DECCP:NETTING-PROPOSAL:v1");
    transcript.put(cycle_id);
    transcript.put(&tag);
    transcript.put(obligation_root);
    transcript.put_number(legs.len() as u32 as u128, 4);
    let ghost head = transcript@;
    let mut i: usize = 0;
    assert(transcript@ =~= head + legs_bytes(legs@.take(0)));
    while i < legs.len()
        invariant
            i <= legs@.len(),
            transcript@ == head + legs_bytes(legs@.take(i as int)),
        decreases legs@.len() - i,
    {
        let leg = &legs[i];
        transcript.put(&leg.payer_id);
        transcript.put(&leg.payee_id);
        transcript.put(&leg.asset_id);
        transcript.put_number(leg.amount, 16);
        transcript.put(&leg.instruction_context_digest);
        proof {
            assert(legs@.take(i + 1).drop_last() =~= legs@.take(i as int));
            assert(legs@.take(i + 1).last() == *leg);
            assert(transcript@ =~= head + (legs_bytes(legs@.take(i as int)) + leg_bytes(*leg)));
        }
        i = i + 1;
    }
    assert(legs@.take(i as int) =~= legs@);
    let ghost body = transcript@;
    let ghost members = crate::ident::ascending(risk_debits@.dom());
    let count: usize = risk_debits.len();
    let mut j: usize = 0;
    assert(transcript@ =~= body + debits_bytes(members.take(0), risk_debits@));
    while j < count
        invariant
            j <= count,
            count == members.len(),
            count == risk_debits@.dom().len(),
            members == crate::ident::ascending(risk_debits@.dom()),
            transcript@ == body + debits_bytes(members.take(j as int), risk_debits@),
        decreases count - j,
    {
        let member = risk_debits.key_at(j);
        let debit: u128 = *risk_debits.value_at(j);
        let key = id_key(&member);
        transcript.put_number(key.len() as u32 as u128, 4);
        transcript.put(key.as_slice());
        transcript.put_number(debit, 16);
        proof {
            assert(members.take(j + 1).drop_last() =~= members.take(j as int));
            assert(members.take(j + 1).last() == member);
            assert(transcript@ =~= body + (debits_bytes(members.take(j as int), risk_debits@)
                + debit_bytes(member, debit)));
        }
        j = j + 1;
    }
    proof {
        assert(members.take(j as int) =~= members);
        assert(transcript@ =~= bytes_of("DECCP:NETTING-PROPOSAL:v1") + cycle_id@ + seq![mode.tag()]
            + obligation_root@ + big_endian(legs@.len() as u32 as nat, 4) + legs_bytes(legs@)
            + debits_bytes(members, risk_debits@));
    }
    transcript.digest()
}

/// A cycle in which obligations are collected, netted, and settled.
#[derive(Debug, PartialEq, Eq)]
pub struct NettingCycle {
    pub cycle_id: Identifier,
    pub mode: NettingMode,
    pub settlement_asset_id: Identifier,
    pub policy_digest: Digest32,
    pub status: CycleStatus,
    pub opened_at: u64,
    pub obligations: Vec<Identifier>,
    pub closed_proposal: Option<NettingProposal>,
    pub defmi_settlement_receipt: Option<Digest32>,
}

/// What a cycle stands for.
#[verifier::ext_equal]
pub struct CycleView {
    pub cycle_id: Identifier,
    pub mode: NettingMode,
    pub settlement_asset_id: Identifier,
    pub policy_digest: Digest32,
    pub status: CycleStatus,
    pub opened_at: u64,
    pub obligations: Seq<Identifier>,
    pub closed_proposal: Option<ProposalView>,
    pub defmi_settlement_receipt: Option<Digest32>,
}

impl View for NettingCycle {
    type V = CycleView;

    open spec fn view(&self) -> CycleView {
        CycleView {
            cycle_id: self.cycle_id,
            mode: self.mode,
            settlement_asset_id: self.settlement_asset_id,
            policy_digest: self.policy_digest,
            status: self.status,
            opened_at: self.opened_at,
            obligations: self.obligations@,
            closed_proposal: match self.closed_proposal {
                Some(proposal) => Some(proposal@),
                None => None,
            },
            defmi_settlement_receipt: self.defmi_settlement_receipt,
        }
    }
}

impl Record for NettingCycle {
    fn duplicate(&self) -> (r: Self) {
        NettingCycle {
            cycle_id: self.cycle_id,
            mode: self.mode,
            settlement_asset_id: self.settlement_asset_id,
            policy_digest: self.policy_digest,
            status: self.status,
            opened_at: self.opened_at,
            obligations: copy_ids(&self.obligations),
            closed_proposal: match &self.closed_proposal {
                Some(proposal) => Some(proposal.duplicate()),
                None => None,
            },
            defmi_settlement_receipt: self.defmi_settlement_receipt,
        }
    }
}

impl Clone for NettingCycle {
    fn clone(&self) -> (r: Self)
        ensures
            r@ == self@,
    {
        self.duplicate()
    }
}

impl CycleView {
    /// Whether a proposal and a settlement receipt are present exactly when the
    /// status says so.
    pub open spec fn consistent(self) -> bool {
        match self.status {
            CycleStatus::Open => self.closed_proposal is None
                && self.defmi_settlement_receipt is None,
            CycleStatus::Closed => self.closed_proposal is Some
                && self.defmi_settlement_receipt is None,
            CycleStatus::Settled => self.closed_proposal is Some
                && self.defmi_settlement_receipt is Some,
        }
    }
}

impl NettingCycle {
    pub(crate) fn is_consistent(&self) -> (r: bool)
        ensures
            r == self@.consistent(),
    {
        match self.status {
            CycleStatus::Open => self.closed_proposal.is_none()
                && self.defmi_settlement_receipt.is_none(),
            CycleStatus::Closed => self.closed_proposal.is_some()
                && self.defmi_settlement_receipt.is_none(),
            CycleStatus::Settled => self.closed_proposal.is_some()
                && self.defmi_settlement_receipt.is_some(),
        }
    }
}

} // verus!
