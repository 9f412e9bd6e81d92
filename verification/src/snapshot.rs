//! The canonical JSON text of the records of a book, and its digest.
//!
//! Members keep their declared order, names are in camel case, tables are keyed
//! by hexadecimal identifiers in ascending order, and states are written as
//! snake-case names.

use vstd::prelude::*;

use crate::authority::{ApprovalView, AuthoritySet, AuthorityView, QuorumApproval};
use crate::book::{BookState, ClearingBook, ClearingSnapshot};
use crate::cycles::{
    ClearingLeg, ClearingObligation, CycleStatus, CycleView, NettingCycle, NettingMode,
    NettingProposal, ProposalView,
};
use crate::defaults::{
    CaseView, DefaultCase, DefaultEvidence, DefaultResolution, DefaultSourceKind, ResolutionView,
    WaterfallDraw,
};
use crate::error::DeCcpError;
use crate::guarantees::{
    ConfidentialGuaranteeFacility, ConfidentialGuaranteeHold, GuaranteeFacility,
    GuaranteeFacilityStatus, GuaranteeHold, GuaranteeHoldStatus,
};
use crate::ident::{ascending, Digest32, Identifier};
use crate::json::{
    bytes_text, decimal, hex, id_key, json_array, json_bytes, json_member, json_object, json_slot,
    lemma_decimal_nonempty, literal_text, number_text, slot_text, JsonList,
};
use crate::map::{IdMap, IdSet};
use crate::members::{
    CollateralLot, CollateralStatus, EligibilityAttestation, MarginAccount, Participant,
    ParticipantStatus,
};
use crate::transcript::{big_endian, bytes_of, sha256_of, Transcript};

verus! {

/// A record with a JSON text.
pub trait Encoded: View {
    /// The JSON text of a value.
    spec fn text(value: <Self as View>::V) -> Seq<u8>;

    /// Whether the tables inside a value are finite.
    spec fn tables_finite(value: <Self as View>::V) -> bool;

    /// The JSON text of the record.
    fn encode(&self) -> (r: Vec<u8>)
        ensures
            r@ == Self::text(self@),
            r@.len() > 0,
            Self::tables_finite(self@),
    ;
}

impl Encoded for u128 {
    open spec fn text(value: u128) -> Seq<u8> {
        decimal(value as nat)
    }

    open spec fn tables_finite(value: u128) -> bool {
        true
    }

    fn encode(&self) -> (r: Vec<u8>) {
        proof {
            lemma_decimal_nonempty(*self as nat);
        }
        number_text(*self)
    }
}

/// The JSON text of a table: an object keyed by hexadecimal identifiers.
#[verifier::opaque]
pub open spec fn table_text<T: Encoded>(table: Map<Identifier, T::V>) -> Seq<u8> {
    json_object(
        ascending(table.dom()).map_values(|key: Identifier| (hex(key@), T::text(table[key]))),
    )
}

fn encode_table<T: Encoded>(table: &IdMap<T>) -> (r: Vec<u8>)
    ensures
        r@ == table_text::<T>(table@),
        table@.dom().finite(),
        forall|key: Identifier| #[trigger]
            table@.contains_key(key) ==> T::tables_finite(table@[key]),
{
    proof {
        reveal(table_text);
    }
    let ghost keys = ascending(table@.dom());
    let ghost member_of = |key: Identifier| (hex(key@), T::text(table@[key]));
    let ghost text_of = |m: (Seq<u8>, Seq<u8>)| json_member(m.0, m.1);
    let count: usize = table.len();
    let mut list = JsonList::new();
    let mut i: usize = 0;
    assert(list.items() =~= keys.take(0).map_values(member_of).map_values(text_of));
    while i < count
        invariant
            i <= count,
            count == keys.len(),
            count == table@.dom().len(),
            keys == ascending(table@.dom()),
            member_of == (|key: Identifier| (hex(key@), T::text(table@[key]))),
            text_of == (|m: (Seq<u8>, Seq<u8>)| json_member(m.0, m.1)),
            list.wf(),
            list.items() == keys.take(i as int).map_values(member_of).map_values(text_of),
            forall|j: int| 0 <= j < i ==> T::tables_finite(table@[#[trigger] keys[j]]),
        decreases count - i,
    {
        let key = table.key_at(i);
        let value = table.value_at(i).encode();
        list.keyed(id_key(&key).as_slice(), value.as_slice());
        i = i + 1;
        assert(list.items() =~= keys.take(i as int).map_values(member_of).map_values(text_of));
    }
    assert(keys.take(i as int) =~= keys);
    assert forall|key: Identifier| #[trigger] table@.contains_key(key) implies T::tables_finite(
        table@[key],
    ) by {
        assert(keys.to_set().contains(key));
        let j = choose|j: int| 0 <= j < keys.len() && keys[j] == key;
        assert(T::tables_finite(table@[keys[j]]));
    }
    list.object(Ghost(keys.map_values(member_of)))
}

/// The JSON text of a record, or `null`.
#[verifier::opaque]
pub open spec fn optional_text<T: Encoded>(value: Option<T::V>) -> Seq<u8> {
    match value {
        Some(x) => T::text(x),
        None => bytes_of("null"),
    }
}

/// What an optional record stands for.
pub open spec fn optional_view<T: Encoded>(record: Option<T>) -> Option<T::V> {
    match record {
        Some(x) => Some(x@),
        None => None,
    }
}

fn encode_optional<T: Encoded>(record: &Option<T>) -> (r: Vec<u8>)
    ensures
        r@ == optional_text::<T>(optional_view(*record)),
        *record is Some ==> T::tables_finite(optional_view(*record)->0),
{
    proof {
        reveal(optional_text);
    }
    match record {
        Some(x) => x.encode(),
        None => literal_text("null"),
    }
}

/// The JSON text of a list of records.
fn encode_list<T: Encoded>(records: &Vec<T>) -> (r: Vec<u8>)
    ensures
        r@ == json_array(records@.map_values(|x: T| T::text(x@))),
{
    let ghost text_of = |x: T| T::text(x@);
    let mut list = JsonList::new();
    let mut i: usize = 0;
    while i < records.len()
        invariant
            i <= records@.len(),
            text_of == (|x: T| T::text(x@)),
            list.wf(),
            list.items() == records@.take(i as int).map_values(text_of),
        decreases records@.len() - i,
    {
        list.item(records[i].encode().as_slice());
        i = i + 1;
        assert(list.items() =~= records@.take(i as int).map_values(text_of));
    }
    assert(records@.take(i as int) =~= records@);
    list.array()
}

/// The JSON text of a list of identifiers.
pub open spec fn ids_text(ids: Seq<Identifier>) -> Seq<u8> {
    json_array(ids.map_values(|id: Identifier| json_bytes(id@)))
}

fn encode_ids(ids: &Vec<Identifier>) -> (r: Vec<u8>)
    ensures
        r@ == ids_text(ids@),
{
    let ghost text_of = |id: Identifier| json_bytes(id@);
    let mut list = JsonList::new();
    let mut i: usize = 0;
    while i < ids.len()
        invariant
            i <= ids@.len(),
            text_of == (|id: Identifier| json_bytes(id@)),
            list.wf(),
            list.items() == ids@.take(i as int).map_values(text_of),
        decreases ids@.len() - i,
    {
        list.item(bytes_text(&ids[i]).as_slice());
        i = i + 1;
        assert(list.items() =~= ids@.take(i as int).map_values(text_of));
    }
    assert(ids@.take(i as int) =~= ids@);
    list.array()
}

/// The JSON text of a set of identifiers: their hexadecimal forms, ascending.
pub open spec fn set_text(ids: Set<Identifier>) -> Seq<u8> {
    json_array(ascending(ids).map_values(|id: Identifier| crate::json::quoted(hex(id@))))
}

fn encode_set(ids: &IdSet) -> (r: Vec<u8>)
    ensures
        r@ == set_text(ids@),
        ids@.finite(),
{
    let ghost all = ascending(ids@);
    let ghost text_of = |id: Identifier| crate::json::quoted(hex(id@));
    let count: usize = ids.len();
    let mut list = JsonList::new();
    let mut i: usize = 0;
    while i < count
        invariant
            i <= count,
            count == all.len(),
            count == ids@.len(),
            all == ascending(ids@),
            text_of == (|id: Identifier| crate::json::quoted(hex(id@))),
            list.wf(),
            list.items() == all.take(i as int).map_values(text_of),
        decreases count - i,
    {
        let key = id_key(&ids.member_at(i));
        list.quoted_item(key.as_slice());
        i = i + 1;
        assert(list.items() =~= all.take(i as int).map_values(text_of));
    }
    assert(all.take(i as int) =~= all);
    list.array()
}

impl ParticipantStatus {
    /// The JSON text of the value.
    pub open spec fn text(self) -> Seq<u8> {
        match self {
            ParticipantStatus::Active => bytes_of("\"active\""),
            ParticipantStatus::Suspended => bytes_of("\"suspended\""),
            ParticipantStatus::Defaulted => bytes_of("\"defaulted\""),
            ParticipantStatus::Exited => bytes_of("\"exited\""),
        }
    }

    fn encode(self) -> (r: Vec<u8>)
        ensures
            r@ == self.text(),
    {
        match self {
            ParticipantStatus::Active => literal_text("\"active\""),
            ParticipantStatus::Suspended => literal_text("\"suspended\""),
            ParticipantStatus::Defaulted => literal_text("\"defaulted\""),
            ParticipantStatus::Exited => literal_text("\"exited\""),
        }
    }
}

impl CollateralStatus {
    /// The JSON text of the value.
    pub open spec fn text(self) -> Seq<u8> {
        match self {
            CollateralStatus::Available => bytes_of("\"available\""),
            CollateralStatus::Released => bytes_of("\"released\""),
            CollateralStatus::Seized => bytes_of("\"seized\""),
        }
    }

    fn encode(self) -> (r: Vec<u8>)
        ensures
            r@ == self.text(),
    {
        match self {
            CollateralStatus::Available => literal_text("\"available\""),
            CollateralStatus::Released => literal_text("\"released\""),
            CollateralStatus::Seized => literal_text("\"seized\""),
        }
    }
}

impl NettingMode {
    /// The JSON text of the value.
    pub open spec fn text(self) -> Seq<u8> {
        match self {
            NettingMode::GrossGross => bytes_of("\"gross_gross\""),
            NettingMode::GrossNet => bytes_of("\"gross_net\""),
            NettingMode::NetNet => bytes_of("\"net_net\""),
        }
    }

    fn encode(self) -> (r: Vec<u8>)
        ensures
            r@ == self.text(),
    {
        match self {
            NettingMode::GrossGross => literal_text("\"gross_gross\""),
            NettingMode::GrossNet => literal_text("\"gross_net\""),
            NettingMode::NetNet => literal_text("\"net_net\""),
        }
    }
}

impl CycleStatus {
    /// The JSON text of the value.
    pub open spec fn text(self) -> Seq<u8> {
        match self {
            CycleStatus::Open => bytes_of("\"open\""),
            CycleStatus::Closed => bytes_of("\"closed\""),
            CycleStatus::Settled => bytes_of("\"settled\""),
        }
    }

    fn encode(self) -> (r: Vec<u8>)
        ensures
            r@ == self.text(),
    {
        match self {
            CycleStatus::Open => literal_text("\"open\""),
            CycleStatus::Closed => literal_text("\"closed\""),
            CycleStatus::Settled => literal_text("\"settled\""),
        }
    }
}

impl GuaranteeFacilityStatus {
    /// The JSON text of the value.
    pub open spec fn text(self) -> Seq<u8> {
        match self {
            GuaranteeFacilityStatus::Active => bytes_of("\"active\""),
            GuaranteeFacilityStatus::Suspended => bytes_of("\"suspended\""),
            GuaranteeFacilityStatus::Exhausted => bytes_of("\"exhausted\""),
            GuaranteeFacilityStatus::Closed => bytes_of("\"closed\""),
        }
    }

    fn encode(self) -> (r: Vec<u8>)
        ensures
            r@ == self.text(),
    {
        match self {
            GuaranteeFacilityStatus::Active => literal_text("\"active\""),
            GuaranteeFacilityStatus::Suspended => literal_text("\"suspended\""),
            GuaranteeFacilityStatus::Exhausted => literal_text("\"exhausted\""),
            GuaranteeFacilityStatus::Closed => literal_text("\"closed\""),
        }
    }
}

impl GuaranteeHoldStatus {
    /// The JSON text of the value.
    pub open spec fn text(self) -> Seq<u8> {
        match self {
            GuaranteeHoldStatus::Reserved => bytes_of("\"reserved\""),
            GuaranteeHoldStatus::Bound => bytes_of("\"bound\""),
            GuaranteeHoldStatus::Consumed => bytes_of("\"consumed\""),
            GuaranteeHoldStatus::Released => bytes_of("\"released\""),
        }
    }

    fn encode(self) -> (r: Vec<u8>)
        ensures
            r@ == self.text(),
    {
        match self {
            GuaranteeHoldStatus::Reserved => literal_text("\"reserved\""),
            GuaranteeHoldStatus::Bound => literal_text("\"bound\""),
            GuaranteeHoldStatus::Consumed => literal_text("\"consumed\""),
            GuaranteeHoldStatus::Released => literal_text("\"released\""),
        }
    }
}

impl DefaultSourceKind {
    /// The JSON text of the value.
    pub open spec fn text(self) -> Seq<u8> {
        match self {
            DefaultSourceKind::DefaulterMargin => bytes_of("\"defaulter_margin\""),
            DefaultSourceKind::DefaulterFund => bytes_of("\"defaulter_fund\""),
            DefaultSourceKind::MutualizedFund => bytes_of("\"mutualized_fund\""),
            DefaultSourceKind::CcpCapital => bytes_of("\"ccp_capital\""),
        }
    }

    fn encode(self) -> (r: Vec<u8>)
        ensures
            r@ == self.text(),
    {
        match self {
            DefaultSourceKind::DefaulterMargin => literal_text("\"defaulter_margin\""),
            DefaultSourceKind::DefaulterFund => literal_text("\"defaulter_fund\""),
            DefaultSourceKind::MutualizedFund => literal_text("\"mutualized_fund\""),
            DefaultSourceKind::CcpCapital => literal_text("\"ccp_capital\""),
        }
    }
}

impl EligibilityAttestation {
    /// The members of the JSON text.
    pub open spec fn json_members(self) -> Seq<(Seq<u8>, Seq<u8>)> {
        seq![
            (bytes_of("providerId"), json_bytes(self.provider_id@)),
            (bytes_of("subjectLineId"), json_bytes(self.subject_line_id@)),
            (bytes_of("policyDigest"), json_bytes(self.policy_digest@)),
            (bytes_of("evidenceDigest"), json_bytes(self.evidence_digest@)),
            (bytes_of("validUntil"), decimal(self.valid_until as nat)),
        ]
    }
}

impl Encoded for EligibilityAttestation {
    open spec fn text(value: EligibilityAttestation) -> Seq<u8> {
        json_object(value.json_members())
    }

    open spec fn tables_finite(value: EligibilityAttestation) -> bool {
        true
    }

    fn encode(&self) -> (r: Vec<u8>) {
        let mut list = JsonList::new();
        list.member("providerId", bytes_text(&self.provider_id).as_slice());
        list.member("subjectLineId", bytes_text(&self.subject_line_id).as_slice());
        list.member("policyDigest", bytes_text(&self.policy_digest).as_slice());
        list.member("evidenceDigest", bytes_text(&self.evidence_digest).as_slice());
        list.member("validUntil", number_text(self.valid_until as u128).as_slice());
        assert(list.items() =~= self@.json_members().map_values(
            |m: (Seq<u8>, Seq<u8>)| json_member(m.0, m.1),
        ));
        list.object(Ghost(self@.json_members()))
    }
}

impl Participant {
    /// The members of the JSON text.
    pub open spec fn json_members(self) -> Seq<(Seq<u8>, Seq<u8>)> {
        seq![
            (bytes_of("participantId"), json_bytes(self.participant_id@)),
            (bytes_of("settlementParticipantId"), json_bytes(self.settlement_participant_id@)),
            (bytes_of("eligibility"), EligibilityAttestation::text(self.eligibility)),
            (bytes_of("defaultFundRemaining"), decimal(self.default_fund_remaining as nat)),
            (bytes_of("defaultFundDefmiLockId"), json_bytes(self.default_fund_defmi_lock_id@)),
            (bytes_of("defaultFundProofDigest"), json_bytes(self.default_fund_proof_digest@)),
            (bytes_of("status"), self.status.text()),
            (bytes_of("admittedAt"), decimal(self.admitted_at as nat)),
        ]
    }
}

impl Encoded for Participant {
    open spec fn text(value: Participant) -> Seq<u8> {
        json_object(value.json_members())
    }

    open spec fn tables_finite(value: Participant) -> bool {
        true
    }

    fn encode(&self) -> (r: Vec<u8>) {
        let mut list = JsonList::new();
        list.member("participantId", bytes_text(&self.participant_id).as_slice());
        list.member(
            "settlementParticipantId",
            bytes_text(&self.settlement_participant_id).as_slice(),
        );
        list.member("eligibility", self.eligibility.encode().as_slice());
        list.member("defaultFundRemaining", number_text(self.default_fund_remaining).as_slice());
        list.member(
            "defaultFundDefmiLockId",
            bytes_text(&self.default_fund_defmi_lock_id).as_slice(),
        );
        list.member(
            "defaultFundProofDigest",
            bytes_text(&self.default_fund_proof_digest).as_slice(),
        );
        list.member("status", self.status.encode().as_slice());
        list.member("admittedAt", number_text(self.admitted_at as u128).as_slice());
        assert(list.items() =~= self@.json_members().map_values(
            |m: (Seq<u8>, Seq<u8>)| json_member(m.0, m.1),
        ));
        list.object(Ghost(self@.json_members()))
    }
}

impl CollateralLot {
    /// The members of the JSON text.
    pub open spec fn json_members(self) -> Seq<(Seq<u8>, Seq<u8>)> {
        seq![
            (bytes_of("operationId"), json_bytes(self.operation_id@)),
            (bytes_of("lotId"), json_bytes(self.lot_id@)),
            (bytes_of("ownerId"), json_bytes(self.owner_id@)),
            (bytes_of("assetId"), json_bytes(self.asset_id@)),
            (bytes_of("defmiLockId"), json_bytes(self.defmi_lock_id@)),
            (bytes_of("marketValue"), decimal(self.market_value as nat)),
            (bytes_of("haircutBasisPoints"), decimal(self.haircut_basis_points as nat)),
            (bytes_of("valuationPolicyDigest"), json_bytes(self.valuation_policy_digest@)),
            (bytes_of("valuationProofDigest"), json_bytes(self.valuation_proof_digest@)),
            (bytes_of("validUntil"), decimal(self.valid_until as nat)),
            (bytes_of("status"), self.status.text()),
        ]
    }
}

impl Encoded for CollateralLot {
    open spec fn text(value: CollateralLot) -> Seq<u8> {
        json_object(value.json_members())
    }

    open spec fn tables_finite(value: CollateralLot) -> bool {
        true
    }

    fn encode(&self) -> (r: Vec<u8>) {
        let mut list = JsonList::new();
        list.member("operationId", bytes_text(&self.operation_id).as_slice());
        list.member("lotId", bytes_text(&self.lot_id).as_slice());
        list.member("ownerId", bytes_text(&self.owner_id).as_slice());
        list.member("assetId", bytes_text(&self.asset_id).as_slice());
        list.member("defmiLockId", bytes_text(&self.defmi_lock_id).as_slice());
        list.member("marketValue", number_text(self.market_value).as_slice());
        list.member(
            "haircutBasisPoints",
            number_text(self.haircut_basis_points as u128).as_slice(),
        );
        list.member("valuationPolicyDigest", bytes_text(&self.valuation_policy_digest).as_slice());
        list.member("valuationProofDigest", bytes_text(&self.valuation_proof_digest).as_slice());
        list.member("validUntil", number_text(self.valid_until as u128).as_slice());
        list.member("status", self.status.encode().as_slice());
        assert(list.items() =~= self@.json_members().map_values(
            |m: (Seq<u8>, Seq<u8>)| json_member(m.0, m.1),
        ));
        list.object(Ghost(self@.json_members()))
    }
}

impl MarginAccount {
    /// The members of the JSON text.
    pub open spec fn json_members(self) -> Seq<(Seq<u8>, Seq<u8>)> {
        seq![
            (bytes_of("initialMargin"), decimal(self.initial_margin as nat)),
            (bytes_of("variationMargin"), decimal(self.variation_margin as nat)),
            (bytes_of("encumberedCollateral"), decimal(self.encumbered_collateral as nat)),
            (bytes_of("sequence"), decimal(self.sequence as nat)),
        ]
    }
}

impl Encoded for MarginAccount {
    open spec fn text(value: MarginAccount) -> Seq<u8> {
        json_object(value.json_members())
    }

    open spec fn tables_finite(value: MarginAccount) -> bool {
        true
    }

    fn encode(&self) -> (r: Vec<u8>) {
        let mut list = JsonList::new();
        list.member("initialMargin", number_text(self.initial_margin).as_slice());
        list.member("variationMargin", number_text(self.variation_margin).as_slice());
        list.member("encumberedCollateral", number_text(self.encumbered_collateral).as_slice());
        list.member("sequence", number_text(self.sequence as u128).as_slice());
        assert(list.items() =~= self@.json_members().map_values(
            |m: (Seq<u8>, Seq<u8>)| json_member(m.0, m.1),
        ));
        list.object(Ghost(self@.json_members()))
    }
}

impl ClearingLeg {
    /// The members of the JSON text.
    pub open spec fn json_members(self) -> Seq<(Seq<u8>, Seq<u8>)> {
        seq![
            (bytes_of("payerId"), json_bytes(self.payer_id@)),
            (bytes_of("payeeId"), json_bytes(self.payee_id@)),
            (bytes_of("assetId"), json_bytes(self.asset_id@)),
            (bytes_of("amount"), decimal(self.amount as nat)),
            (bytes_of("instructionContextDigest"), json_bytes(self.instruction_context_digest@)),
        ]
    }
}

impl Encoded for ClearingLeg {
    open spec fn text(value: ClearingLeg) -> Seq<u8> {
        json_object(value.json_members())
    }

    open spec fn tables_finite(value: ClearingLeg) -> bool {
        true
    }

    fn encode(&self) -> (r: Vec<u8>) {
        let mut list = JsonList::new();
        list.member("payerId", bytes_text(&self.payer_id).as_slice());
        list.member("payeeId", bytes_text(&self.payee_id).as_slice());
        list.member("assetId", bytes_text(&self.asset_id).as_slice());
        list.member("amount", number_text(self.amount).as_slice());
        list.member(
            "instructionContextDigest",
            bytes_text(&self.instruction_context_digest).as_slice(),
        );
        assert(list.items() =~= self@.json_members().map_values(
            |m: (Seq<u8>, Seq<u8>)| json_member(m.0, m.1),
        ));
        list.object(Ghost(self@.json_members()))
    }
}

impl ProposalView {
    /// The members of the JSON text.
    pub open spec fn json_members(self) -> Seq<(Seq<u8>, Seq<u8>)> {
        seq![
            (bytes_of("cycleId"), json_bytes(self.cycle_id@)),
            (bytes_of("mode"), self.mode.text()),
            (bytes_of("obligationRoot"), json_bytes(self.obligation_root@)),
            (
                bytes_of("legs"),
                json_array(self.legs.map_values(|x: ClearingLeg| ClearingLeg::text(x))),
            ),
            (bytes_of("riskDebits"), table_text::<u128>(self.risk_debits)),
            (bytes_of("proposalDigest"), json_bytes(self.proposal_digest@)),
        ]
    }
}

impl Encoded for NettingProposal {
    open spec fn text(value: ProposalView) -> Seq<u8> {
        json_object(value.json_members())
    }

    open spec fn tables_finite(value: ProposalView) -> bool {
        value.risk_debits.dom().finite()
    }

    fn encode(&self) -> (r: Vec<u8>) {
        let mut list = JsonList::new();
        list.member("cycleId", bytes_text(&self.cycle_id).as_slice());
        list.member("mode", self.mode.encode().as_slice());
        list.member("obligationRoot", bytes_text(&self.obligation_root).as_slice());
        assert(self.legs@.map_values(|x: ClearingLeg| ClearingLeg::text(x@)) =~= self.legs@.map_values(
            |x: ClearingLeg| ClearingLeg::text(x),
        ));
        list.member("legs", encode_list(&self.legs).as_slice());
        list.member("riskDebits", encode_table(&self.risk_debits).as_slice());
        list.member("proposalDigest", bytes_text(&self.proposal_digest).as_slice());
        assert(list.items() =~= self@.json_members().map_values(
            |m: (Seq<u8>, Seq<u8>)| json_member(m.0, m.1),
        ));
        list.object(Ghost(self@.json_members()))
    }
}

impl CycleView {
    /// The members of the JSON text.
    pub open spec fn json_members(self) -> Seq<(Seq<u8>, Seq<u8>)> {
        seq![
            (bytes_of("cycleId"), json_bytes(self.cycle_id@)),
            (bytes_of("mode"), self.mode.text()),
            (bytes_of("settlementAssetId"), json_bytes(self.settlement_asset_id@)),
            (bytes_of("policyDigest"), json_bytes(self.policy_digest@)),
            (bytes_of("status"), self.status.text()),
            (bytes_of("openedAt"), decimal(self.opened_at as nat)),
            (bytes_of("obligations"), ids_text(self.obligations)),
            (bytes_of("closedProposal"), optional_text::<NettingProposal>(self.closed_proposal)),
            (bytes_of("defmiSettlementReceipt"), json_slot(self.defmi_settlement_receipt)),
        ]
    }
}

impl Encoded for NettingCycle {
    open spec fn text(value: CycleView) -> Seq<u8> {
        json_object(value.json_members())
    }

    open spec fn tables_finite(value: CycleView) -> bool {
        value.closed_proposal is Some ==> NettingProposal::tables_finite(
            value.closed_proposal->0,
        )
    }

    fn encode(&self) -> (r: Vec<u8>) {
        let mut list = JsonList::new();
        list.member("cycleId", bytes_text(&self.cycle_id).as_slice());
        list.member("mode", self.mode.encode().as_slice());
        list.member("settlementAssetId", bytes_text(&self.settlement_asset_id).as_slice());
        list.member("policyDigest", bytes_text(&self.policy_digest).as_slice());
        list.member("status", self.status.encode().as_slice());
        list.member("openedAt", number_text(self.opened_at as u128).as_slice());
        list.member("obligations", encode_ids(&self.obligations).as_slice());
        list.member("closedProposal", encode_optional(&self.closed_proposal).as_slice());
        list.member("defmiSettlementReceipt", slot_text(&self.defmi_settlement_receipt).as_slice());
        assert(list.items() =~= self@.json_members().map_values(
            |m: (Seq<u8>, Seq<u8>)| json_member(m.0, m.1),
        ));
        list.object(Ghost(self@.json_members()))
    }
}

impl ClearingObligation {
    /// The members of the JSON text.
    pub open spec fn json_members(self) -> Seq<(Seq<u8>, Seq<u8>)> {
        seq![
            (bytes_of("operationId"), json_bytes(self.operation_id@)),
            (bytes_of("obligationId"), json_bytes(self.obligation_id@)),
            (bytes_of("cycleId"), json_bytes(self.cycle_id@)),
            (bytes_of("payerId"), json_bytes(self.payer_id@)),
            (bytes_of("payeeId"), json_bytes(self.payee_id@)),
            (bytes_of("assetId"), json_bytes(self.asset_id@)),
            (bytes_of("amount"), decimal(self.amount as nat)),
            (bytes_of("riskValue"), decimal(self.risk_value as nat)),
            (bytes_of("zkpiDigest"), json_bytes(self.zkpi_digest@)),
        ]
    }
}

impl Encoded for ClearingObligation {
    open spec fn text(value: ClearingObligation) -> Seq<u8> {
        json_object(value.json_members())
    }

    open spec fn tables_finite(value: ClearingObligation) -> bool {
        true
    }

    fn encode(&self) -> (r: Vec<u8>) {
        let mut list = JsonList::new();
        list.member("operationId", bytes_text(&self.operation_id).as_slice());
        list.member("obligationId", bytes_text(&self.obligation_id).as_slice());
        list.member("cycleId", bytes_text(&self.cycle_id).as_slice());
        list.member("payerId", bytes_text(&self.payer_id).as_slice());
        list.member("payeeId", bytes_text(&self.payee_id).as_slice());
        list.member("assetId", bytes_text(&self.asset_id).as_slice());
        list.member("amount", number_text(self.amount).as_slice());
        list.member("riskValue", number_text(self.risk_value).as_slice());
        list.member("zkpiDigest", bytes_text(&self.zkpi_digest).as_slice());
        assert(list.items() =~= self@.json_members().map_values(
            |m: (Seq<u8>, Seq<u8>)| json_member(m.0, m.1),
        ));
        list.object(Ghost(self@.json_members()))
    }
}

impl GuaranteeFacility {
    /// The members of the JSON text.
    pub open spec fn json_members(self) -> Seq<(Seq<u8>, Seq<u8>)> {
        seq![
            (bytes_of("facilityId"), json_bytes(self.facility_id@)),
            (bytes_of("guarantorId"), json_bytes(self.guarantor_id@)),
            (bytes_of("beneficiarySubjectLineId"), json_bytes(self.beneficiary_subject_line_id@)),
            (bytes_of("settlementAssetId"), json_bytes(self.settlement_asset_id@)),
            (bytes_of("capacity"), decimal(self.capacity as nat)),
            (bytes_of("reserved"), decimal(self.reserved as nat)),
            (bytes_of("consumed"), decimal(self.consumed as nat)),
            (bytes_of("defmiFacilityId"), json_bytes(self.defmi_facility_id@)),
            (bytes_of("policyDigest"), json_bytes(self.policy_digest@)),
            (bytes_of("validUntil"), decimal(self.valid_until as nat)),
            (bytes_of("sequence"), decimal(self.sequence as nat)),
            (bytes_of("status"), self.status.text()),
        ]
    }
}

impl Encoded for GuaranteeFacility {
    open spec fn text(value: GuaranteeFacility) -> Seq<u8> {
        json_object(value.json_members())
    }

    open spec fn tables_finite(value: GuaranteeFacility) -> bool {
        true
    }

    fn encode(&self) -> (r: Vec<u8>) {
        let mut list = JsonList::new();
        list.member("facilityId", bytes_text(&self.facility_id).as_slice());
        list.member("guarantorId", bytes_text(&self.guarantor_id).as_slice());
        list.member(
            "beneficiarySubjectLineId",
            bytes_text(&self.beneficiary_subject_line_id).as_slice(),
        );
        list.member("settlementAssetId", bytes_text(&self.settlement_asset_id).as_slice());
        list.member("capacity", number_text(self.capacity).as_slice());
        list.member("reserved", number_text(self.reserved).as_slice());
        list.member("consumed", number_text(self.consumed).as_slice());
        list.member("defmiFacilityId", bytes_text(&self.defmi_facility_id).as_slice());
        list.member("policyDigest", bytes_text(&self.policy_digest).as_slice());
        list.member("validUntil", number_text(self.valid_until as u128).as_slice());
        list.member("sequence", number_text(self.sequence as u128).as_slice());
        list.member("status", self.status.encode().as_slice());
        assert(list.items() =~= self@.json_members().map_values(
            |m: (Seq<u8>, Seq<u8>)| json_member(m.0, m.1),
        ));
        list.object(Ghost(self@.json_members()))
    }
}

impl GuaranteeHold {
    /// The members of the JSON text.
    pub open spec fn json_members(self) -> Seq<(Seq<u8>, Seq<u8>)> {
        seq![
            (bytes_of("holdId"), json_bytes(self.hold_id@)),
            (bytes_of("facilityId"), json_bytes(self.facility_id@)),
            (bytes_of("purposeDigest"), json_bytes(self.purpose_digest@)),
            (bytes_of("amount"), decimal(self.amount as nat)),
            (bytes_of("defmiHoldId"), json_bytes(self.defmi_hold_id@)),
            (bytes_of("relationProofDigest"), json_bytes(self.relation_proof_digest@)),
            (bytes_of("validUntil"), decimal(self.valid_until as nat)),
            (bytes_of("status"), self.status.text()),
            (bytes_of("boundExposureId"), json_slot(self.bound_exposure_id)),
            (bytes_of("defmiSettlementReceipt"), json_slot(self.defmi_settlement_receipt)),
        ]
    }
}

impl Encoded for GuaranteeHold {
    open spec fn text(value: GuaranteeHold) -> Seq<u8> {
        json_object(value.json_members())
    }

    open spec fn tables_finite(value: GuaranteeHold) -> bool {
        true
    }

    fn encode(&self) -> (r: Vec<u8>) {
        let mut list = JsonList::new();
        list.member("holdId", bytes_text(&self.hold_id).as_slice());
        list.member("facilityId", bytes_text(&self.facility_id).as_slice());
        list.member("purposeDigest", bytes_text(&self.purpose_digest).as_slice());
        list.member("amount", number_text(self.amount).as_slice());
        list.member("defmiHoldId", bytes_text(&self.defmi_hold_id).as_slice());
        list.member("relationProofDigest", bytes_text(&self.relation_proof_digest).as_slice());
        list.member("validUntil", number_text(self.valid_until as u128).as_slice());
        list.member("status", self.status.encode().as_slice());
        list.member("boundExposureId", slot_text(&self.bound_exposure_id).as_slice());
        list.member("defmiSettlementReceipt", slot_text(&self.defmi_settlement_receipt).as_slice());
        assert(list.items() =~= self@.json_members().map_values(
            |m: (Seq<u8>, Seq<u8>)| json_member(m.0, m.1),
        ));
        list.object(Ghost(self@.json_members()))
    }
}

impl ConfidentialGuaranteeFacility {
    /// The members of the JSON text.
    pub open spec fn json_members(self) -> Seq<(Seq<u8>, Seq<u8>)> {
        seq![
            (bytes_of("facilityId"), json_bytes(self.facility_id@)),
            (bytes_of("guarantorId"), json_bytes(self.guarantor_id@)),
            (bytes_of("beneficiarySubjectLineId"), json_bytes(self.beneficiary_subject_line_id@)),
            (bytes_of("settlementAssetId"), json_bytes(self.settlement_asset_id@)),
            (bytes_of("capacityCommitment"), json_bytes(self.capacity_commitment@)),
            (bytes_of("latestFacilityStateDigest"), json_bytes(self.latest_facility_state_digest@)),
            (bytes_of("defmiFacilityId"), json_bytes(self.defmi_facility_id@)),
            (bytes_of("policyDigest"), json_bytes(self.policy_digest@)),
            (bytes_of("validUntil"), decimal(self.valid_until as nat)),
            (bytes_of("sequence"), decimal(self.sequence as nat)),
            (bytes_of("status"), self.status.text()),
        ]
    }
}

impl Encoded for ConfidentialGuaranteeFacility {
    open spec fn text(value: ConfidentialGuaranteeFacility) -> Seq<u8> {
        json_object(value.json_members())
    }

    open spec fn tables_finite(value: ConfidentialGuaranteeFacility) -> bool {
        true
    }

    fn encode(&self) -> (r: Vec<u8>) {
        let mut list = JsonList::new();
        list.member("facilityId", bytes_text(&self.facility_id).as_slice());
        list.member("guarantorId", bytes_text(&self.guarantor_id).as_slice());
        list.member(
            "beneficiarySubjectLineId",
            bytes_text(&self.beneficiary_subject_line_id).as_slice(),
        );
        list.member("settlementAssetId", bytes_text(&self.settlement_asset_id).as_slice());
        list.member("capacityCommitment", bytes_text(&self.capacity_commitment).as_slice());
        list.member(
            "latestFacilityStateDigest",
            bytes_text(&self.latest_facility_state_digest).as_slice(),
        );
        list.member("defmiFacilityId", bytes_text(&self.defmi_facility_id).as_slice());
        list.member("policyDigest", bytes_text(&self.policy_digest).as_slice());
        list.member("validUntil", number_text(self.valid_until as u128).as_slice());
        list.member("sequence", number_text(self.sequence as u128).as_slice());
        list.member("status", self.status.encode().as_slice());
        assert(list.items() =~= self@.json_members().map_values(
            |m: (Seq<u8>, Seq<u8>)| json_member(m.0, m.1),
        ));
        list.object(Ghost(self@.json_members()))
    }
}

impl ConfidentialGuaranteeHold {
    /// The members of the JSON text.
    pub open spec fn json_members(self) -> Seq<(Seq<u8>, Seq<u8>)> {
        seq![
            (bytes_of("holdId"), json_bytes(self.hold_id@)),
            (bytes_of("facilityId"), json_bytes(self.facility_id@)),
            (bytes_of("purposeDigest"), json_bytes(self.purpose_digest@)),
            (bytes_of("coverageCommitment"), json_bytes(self.coverage_commitment@)),
            (bytes_of("defmiHoldId"), json_bytes(self.defmi_hold_id@)),
            (bytes_of("relationProofDigest"), json_bytes(self.relation_proof_digest@)),
            (bytes_of("reservedStateDigest"), json_bytes(self.reserved_state_digest@)),
            (bytes_of("validUntil"), decimal(self.valid_until as nat)),
            (bytes_of("status"), self.status.text()),
            (bytes_of("boundExposureId"), json_slot(self.bound_exposure_id)),
            (bytes_of("defmiSettlementReceipt"), json_slot(self.defmi_settlement_receipt)),
        ]
    }
}

impl Encoded for ConfidentialGuaranteeHold {
    open spec fn text(value: ConfidentialGuaranteeHold) -> Seq<u8> {
        json_object(value.json_members())
    }

    open spec fn tables_finite(value: ConfidentialGuaranteeHold) -> bool {
        true
    }

    fn encode(&self) -> (r: Vec<u8>) {
        let mut list = JsonList::new();
        list.member("holdId", bytes_text(&self.hold_id).as_slice());
        list.member("facilityId", bytes_text(&self.facility_id).as_slice());
        list.member("purposeDigest", bytes_text(&self.purpose_digest).as_slice());
        list.member("coverageCommitment", bytes_text(&self.coverage_commitment).as_slice());
        list.member("defmiHoldId", bytes_text(&self.defmi_hold_id).as_slice());
        list.member("relationProofDigest", bytes_text(&self.relation_proof_digest).as_slice());
        list.member("reservedStateDigest", bytes_text(&self.reserved_state_digest).as_slice());
        list.member("validUntil", number_text(self.valid_until as u128).as_slice());
        list.member("status", self.status.encode().as_slice());
        list.member("boundExposureId", slot_text(&self.bound_exposure_id).as_slice());
        list.member("defmiSettlementReceipt", slot_text(&self.defmi_settlement_receipt).as_slice());
        assert(list.items() =~= self@.json_members().map_values(
            |m: (Seq<u8>, Seq<u8>)| json_member(m.0, m.1),
        ));
        list.object(Ghost(self@.json_members()))
    }
}

impl DefaultEvidence {
    /// The members of the JSON text.
    pub open spec fn json_members(self) -> Seq<(Seq<u8>, Seq<u8>)> {
        seq![
            (bytes_of("eventId"), json_bytes(self.event_id@)),
            (bytes_of("sourceId"), json_bytes(self.source_id@)),
            (bytes_of("participantId"), json_bytes(self.participant_id@)),
            (bytes_of("eventDigest"), json_bytes(self.event_digest@)),
            (bytes_of("observedAt"), decimal(self.observed_at as nat)),
        ]
    }
}

impl Encoded for DefaultEvidence {
    open spec fn text(value: DefaultEvidence) -> Seq<u8> {
        json_object(value.json_members())
    }

    open spec fn tables_finite(value: DefaultEvidence) -> bool {
        true
    }

    fn encode(&self) -> (r: Vec<u8>) {
        let mut list = JsonList::new();
        list.member("eventId", bytes_text(&self.event_id).as_slice());
        list.member("sourceId", bytes_text(&self.source_id).as_slice());
        list.member("participantId", bytes_text(&self.participant_id).as_slice());
        list.member("eventDigest", bytes_text(&self.event_digest).as_slice());
        list.member("observedAt", number_text(self.observed_at as u128).as_slice());
        assert(list.items() =~= self@.json_members().map_values(
            |m: (Seq<u8>, Seq<u8>)| json_member(m.0, m.1),
        ));
        list.object(Ghost(self@.json_members()))
    }
}

impl WaterfallDraw {
    /// The members of the JSON text.
    pub open spec fn json_members(self) -> Seq<(Seq<u8>, Seq<u8>)> {
        seq![
            (bytes_of("sourceKind"), self.source_kind.text()),
            (bytes_of("participantId"), json_slot(self.participant_id)),
            (bytes_of("amount"), decimal(self.amount as nat)),
        ]
    }
}

impl Encoded for WaterfallDraw {
    open spec fn text(value: WaterfallDraw) -> Seq<u8> {
        json_object(value.json_members())
    }

    open spec fn tables_finite(value: WaterfallDraw) -> bool {
        true
    }

    fn encode(&self) -> (r: Vec<u8>) {
        let mut list = JsonList::new();
        list.member("sourceKind", self.source_kind.encode().as_slice());
        list.member("participantId", slot_text(&self.participant_id).as_slice());
        list.member("amount", number_text(self.amount).as_slice());
        assert(list.items() =~= self@.json_members().map_values(
            |m: (Seq<u8>, Seq<u8>)| json_member(m.0, m.1),
        ));
        list.object(Ghost(self@.json_members()))
    }
}

impl ResolutionView {
    /// The members of the JSON text.
    pub open spec fn json_members(self) -> Seq<(Seq<u8>, Seq<u8>)> {
        seq![
            (bytes_of("caseId"), json_bytes(self.case_id@)),
            (bytes_of("participantId"), json_bytes(self.participant_id@)),
            (bytes_of("shortfall"), decimal(self.shortfall as nat)),
            (
                bytes_of("draws"),
                json_array(self.draws.map_values(|x: WaterfallDraw| WaterfallDraw::text(x))),
            ),
            (bytes_of("settlementContextDigest"), json_bytes(self.settlement_context_digest@)),
            (bytes_of("resolutionDigest"), json_bytes(self.resolution_digest@)),
        ]
    }
}

impl Encoded for DefaultResolution {
    open spec fn text(value: ResolutionView) -> Seq<u8> {
        json_object(value.json_members())
    }

    open spec fn tables_finite(value: ResolutionView) -> bool {
        true
    }

    fn encode(&self) -> (r: Vec<u8>) {
        let mut list = JsonList::new();
        list.member("caseId", bytes_text(&self.case_id).as_slice());
        list.member("participantId", bytes_text(&self.participant_id).as_slice());
        list.member("shortfall", number_text(self.shortfall).as_slice());
        assert(self.draws@.map_values(|x: WaterfallDraw| WaterfallDraw::text(x@)) =~= self.draws@.map_values(
            |x: WaterfallDraw| WaterfallDraw::text(x),
        ));
        list.member("draws", encode_list(&self.draws).as_slice());
        list.member(
            "settlementContextDigest",
            bytes_text(&self.settlement_context_digest).as_slice(),
        );
        list.member("resolutionDigest", bytes_text(&self.resolution_digest).as_slice());
        assert(list.items() =~= self@.json_members().map_values(
            |m: (Seq<u8>, Seq<u8>)| json_member(m.0, m.1),
        ));
        list.object(Ghost(self@.json_members()))
    }
}

impl CaseView {
    /// The members of the JSON text.
    pub open spec fn json_members(self) -> Seq<(Seq<u8>, Seq<u8>)> {
        seq![
            (bytes_of("caseId"), json_bytes(self.case_id@)),
            (bytes_of("evidence"), DefaultEvidence::text(self.evidence)),
            (bytes_of("declaredAt"), decimal(self.declared_at as nat)),
            (bytes_of("resolution"), optional_text::<DefaultResolution>(self.resolution)),
            (bytes_of("defmiSettlementReceipt"), json_slot(self.defmi_settlement_receipt)),
        ]
    }
}

impl Encoded for DefaultCase {
    open spec fn text(value: CaseView) -> Seq<u8> {
        json_object(value.json_members())
    }

    open spec fn tables_finite(value: CaseView) -> bool {
        true
    }

    fn encode(&self) -> (r: Vec<u8>) {
        let mut list = JsonList::new();
        list.member("caseId", bytes_text(&self.case_id).as_slice());
        list.member("evidence", self.evidence.encode().as_slice());
        list.member("declaredAt", number_text(self.declared_at as u128).as_slice());
        list.member("resolution", encode_optional(&self.resolution).as_slice());
        list.member("defmiSettlementReceipt", slot_text(&self.defmi_settlement_receipt).as_slice());
        assert(list.items() =~= self@.json_members().map_values(
            |m: (Seq<u8>, Seq<u8>)| json_member(m.0, m.1),
        ));
        list.object(Ghost(self@.json_members()))
    }
}

impl BookState {
    /// The members of the JSON text.
    pub open spec fn json_members(self) -> Seq<(Seq<u8>, Seq<u8>)> {
        seq![
            (bytes_of("authorities"), self.authorities.encoding()),
            (bytes_of("participants"), table_text::<Participant>(self.participants)),
            (bytes_of("collateral"), table_text::<CollateralLot>(self.collateral)),
            (bytes_of("margins"), table_text::<MarginAccount>(self.margins)),
            (bytes_of("cycles"), table_text::<NettingCycle>(self.cycles)),
            (bytes_of("obligations"), table_text::<ClearingObligation>(self.obligations)),
            (
                bytes_of("guaranteeFacilities"),
                table_text::<GuaranteeFacility>(self.guarantee_facilities),
            ),
            (bytes_of("guaranteeHolds"), table_text::<GuaranteeHold>(self.guarantee_holds)),
            (
                bytes_of("confidentialGuaranteeFacilities"),
                table_text::<ConfidentialGuaranteeFacility>(self.confidential_guarantee_facilities),
            ),
            (
                bytes_of("confidentialGuaranteeHolds"),
                table_text::<ConfidentialGuaranteeHold>(self.confidential_guarantee_holds),
            ),
            (bytes_of("defaults"), table_text::<DefaultCase>(self.defaults)),
            (bytes_of("ccpCapitalRemaining"), decimal(self.ccp_capital_remaining as nat)),
            (bytes_of("ccpCapitalDefmiLockId"), json_bytes(self.ccp_capital_defmi_lock_id@)),
            (bytes_of("ccpCapitalProofDigest"), json_bytes(self.ccp_capital_proof_digest@)),
            (bytes_of("ccpCapitalValidUntil"), decimal(self.ccp_capital_valid_until as nat)),
            (bytes_of("usedOperations"), set_text(self.used_operations)),
        ]
    }

    /// Every table is finite, and so are the tables inside its records.
    pub open spec fn finite_throughout(self) -> bool {
        &&& self.finite()
        &&& forall|c: Identifier| #[trigger]
            self.cycles.contains_key(c) ==> NettingCycle::tables_finite(self.cycles[c])
    }

    /// The canonical JSON text of the state.
    pub open spec fn encoding(self) -> Seq<u8> {
        json_object(self.json_members())
    }

    /// What the digest of the state is taken over: a domain tag, the length of the
    /// JSON text, and the text.
    pub open spec fn digest_text(self) -> Seq<u8> {
        bytes_of("DECCP:SNAPSHOT:v1") + big_endian(self.encoding().len() as u64 as nat, 8)
            + self.encoding()
    }

    /// The digest of the state.
    pub open spec fn digest(self) -> Digest32 {
        sha256_of(self.digest_text())
    }

    /// What restoring this state under a trusted authority set and an approval
    /// gives: the state itself, or why it is refused.
    pub open spec fn restored(
        self,
        trusted: AuthorityView,
        approval: ApprovalView,
    ) -> Result<BookState, DeCcpError> {
        match self.restore_refusal(trusted, approval, self.digest()) {
            Some(error) => Err(error),
            None => match self.defect() {
                Some(error) => Err(error),
                None => Ok(self),
            },
        }
    }
}

impl ClearingSnapshot {
    /// The canonical JSON text of the snapshot (all tables are ordered).
    pub fn encode(&self) -> (r: Vec<u8>)
        ensures
            r@ == self@.encoding(),
            self@.finite_throughout(),
    {
        let mut list = JsonList::new();
        list.member("authorities", self.authorities.encode().as_slice());
        list.member("participants", encode_table(&self.participants).as_slice());
        list.member("collateral", encode_table(&self.collateral).as_slice());
        list.member("margins", encode_table(&self.margins).as_slice());
        list.member("cycles", encode_table(&self.cycles).as_slice());
        list.member("obligations", encode_table(&self.obligations).as_slice());
        list.member("guaranteeFacilities", encode_table(&self.guarantee_facilities).as_slice());
        list.member("guaranteeHolds", encode_table(&self.guarantee_holds).as_slice());
        list.member(
            "confidentialGuaranteeFacilities",
            encode_table(&self.confidential_guarantee_facilities).as_slice(),
        );
        list.member(
            "confidentialGuaranteeHolds",
            encode_table(&self.confidential_guarantee_holds).as_slice(),
        );
        list.member("defaults", encode_table(&self.defaults).as_slice());
        list.member("ccpCapitalRemaining", number_text(self.ccp_capital_remaining).as_slice());
        list.member(
            "ccpCapitalDefmiLockId",
            bytes_text(&self.ccp_capital_defmi_lock_id).as_slice(),
        );
        list.member("ccpCapitalProofDigest", bytes_text(&self.ccp_capital_proof_digest).as_slice());
        list.member(
            "ccpCapitalValidUntil",
            number_text(self.ccp_capital_valid_until as u128).as_slice(),
        );
        list.member("usedOperations", encode_set(&self.used_operations).as_slice());
        assert(list.items() =~= self@.json_members().map_values(
            |m: (Seq<u8>, Seq<u8>)| json_member(m.0, m.1),
        ));
        list.object(Ghost(self@.json_members()))
    }

    /// Digest over the canonical JSON text. It covers every field.
    pub fn digest(&self) -> (r: Result<Digest32, DeCcpError>)
        ensures
            r == Ok::<Digest32, DeCcpError>(self@.digest()),
            self@.finite_throughout(),
            self@.finite_throughout(),
            self@.finite_throughout(),
    {
        let encoded = self.encode();
        let mut transcript = Transcript::new("DECCP:SNAPSHOT:v1");
        transcript.put_number(encoded.len() as u64 as u128, 8);
        transcript.put(encoded.as_slice());
        Ok(transcript.digest())
    }
}

impl ClearingBook {
    /// Rebuilds a book from a snapshot. `trusted` is the authority set the
    /// operator already trusts; the snapshot must name the same set, the
    /// approval must be that set's quorum over the snapshot digest, and every
    /// internal invariant must hold. Without all three, restore fails closed.
    pub fn restore(
        trusted: &AuthoritySet,
        snapshot: ClearingSnapshot,
        approval: &QuorumApproval,
    ) -> (r: Result<Self, DeCcpError>)
        ensures
            match snapshot@.restored(trusted@, approval@) {
                Ok(state) => r is Ok && r->Ok_0@ == state,
                Err(error) => r == Err::<Self, DeCcpError>(error),
            },
            r is Ok ==> r->Ok_0@.valid(),
    {
        trusted.validate()?;
        if !snapshot.authorities.matches(trusted) {
            return Err(DeCcpError::InvalidAuthoritySet);
        }
        let digest = snapshot.digest()?;
        trusted.verify_archived(&digest, approval)?;
        Self::restore_authenticated(snapshot)
    }

    /// Rebuilds a book from a snapshot whose authenticity the host has already
    /// established elsewhere: a consensus-committed VM state whose root commits
    /// to the snapshot bytes, or a store the host authenticates by other means.
    /// Every structural invariant is still checked, so a tampered or truncated
    /// snapshot fails closed; what this route does not do is demand a separate
    /// quorum signature over the snapshot digest. Storage the host does not
    /// authenticate must go through [`ClearingBook::restore`].
    pub fn restore_authenticated(snapshot: ClearingSnapshot) -> (r: Result<Self, DeCcpError>)
        ensures
            match snapshot@.defect() {
                Some(error) => r == Err::<Self, DeCcpError>(error),
                None => r is Ok && r->Ok_0@ == snapshot@,
            },
            r is Ok <==> snapshot@.valid(),
    {
        let book = ClearingBook {
            authorities: snapshot.authorities,
            participants: snapshot.participants,
            collateral: snapshot.collateral,
            margins: snapshot.margins,
            cycles: snapshot.cycles,
            obligations: snapshot.obligations,
            guarantee_facilities: snapshot.guarantee_facilities,
            guarantee_holds: snapshot.guarantee_holds,
            confidential_guarantee_facilities: snapshot.confidential_guarantee_facilities,
            confidential_guarantee_holds: snapshot.confidential_guarantee_holds,
            defaults: snapshot.defaults,
            ccp_capital_remaining: snapshot.ccp_capital_remaining,
            ccp_capital_defmi_lock_id: snapshot.ccp_capital_defmi_lock_id,
            ccp_capital_proof_digest: snapshot.ccp_capital_proof_digest,
            ccp_capital_valid_until: snapshot.ccp_capital_valid_until,
            used_operations: snapshot.used_operations,
        };
        book.validate()?;
        Ok(book)
    }
}

} // verus!
