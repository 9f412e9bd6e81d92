//! Laws of texts: the JSON text of every record, field by field.

use vstd::prelude::*;

use crate::authority::{AuthorityView, MemberView};
use crate::book::ClearingSnapshot;
use crate::cycles::{
    ClearingLeg, ClearingObligation, CycleStatus, CycleView, NettingCycle, NettingMode,
    NettingProposal, ProposalView,
};
use crate::defaults::{
    CaseView, DefaultCase, DefaultEvidence, DefaultResolution, DefaultSourceKind, ResolutionView,
    WaterfallDraw,
};
use crate::error::DeCcpError;
use crate::guarantees::{
    ConfidentialGuaranteeFacility, ConfidentialGuaranteeHold, GuaranteeFacility,
    GuaranteeFacilityStatus, GuaranteeHold, GuaranteeHoldStatus,
};
use crate::ident::{ascending, Digest32, Identifier};
use crate::json::{
    decimal, hex, json_array, json_bytes, json_items, json_member, json_object, json_slot,
};
use crate::laws::proposals::{digits, law_hexadecimal};
use crate::laws::statements::{law_numbers_are_big_endian, wide};
use crate::members::{
    CollateralLot, CollateralStatus, EligibilityAttestation, MarginAccount, Participant,
    ParticipantStatus,
};
use crate::snapshot::{ids_text, optional_text, set_text, table_text, Encoded};
use crate::transcript::{bytes_of, sha256_of};

verus! {

/// Items one after another with commas between them.
pub open spec fn comma_run(items: Seq<Seq<u8>>) -> Seq<u8>
    decreases items.len(),
{
    if items.len() == 0 {
        Seq::empty()
    } else if items.len() == 1 {
        items[0]
    } else {
        items[0] + seq![44u8] + comma_run(items.skip(1))
    }
}

/// Items between braces.
pub open spec fn braces(items: Seq<Seq<u8>>) -> Seq<u8> {
    seq![123u8] + comma_run(items) + seq![125u8]
}

/// Items between brackets.
pub open spec fn brackets(items: Seq<Seq<u8>>) -> Seq<u8> {
    seq![91u8] + comma_run(items) + seq![93u8]
}

/// A name between quotation marks, a colon, and a value.
pub open spec fn entry(name: &str, value: Seq<u8>) -> Seq<u8> {
    seq![34u8] + bytes_of(name) + seq![34u8, 58] + value
}

/// Bytes as numbers between brackets.
pub open spec fn numbers(data: Seq<u8>) -> Seq<u8> {
    brackets(data.map_values(|b: u8| decimal(b as nat)))
}

/// What decimal digits stand for.
pub open spec fn read_decimal(text: Seq<u8>) -> int
    decreases text.len(),
{
    if text.len() == 0 {
        0
    } else {
        10 * read_decimal(text.drop_last()) + (text.last() - 48)
    }
}

/// A number is written in digits that stand for it, the first of them no zero
/// unless the number is zero.
pub proof fn law_decimal(n: nat)
    ensures
        decimal(n).len() > 0,
        read_decimal(decimal(n)) == n,
        forall|i: int| 0 <= i < decimal(n).len() ==> 48 <= #[trigger] decimal(n)[i] <= 57,
        decimal(n)[0] == 48 ==> n == 0,
        n == 0 ==> decimal(n) == seq![48u8],
    decreases n,
{
    reveal_with_fuel(read_decimal, 2);
    if n >= 10 {
        law_decimal(n / 10);
        let front = decimal(n / 10);
        let all = decimal(n);
        assert(all.drop_last() =~= front);
        assert forall|i: int| 0 <= i < all.len() implies 48 <= #[trigger] all[i] <= 57 by {
            if i < front.len() {
                assert(all[i] == front[i]);
            }
        }
        assert(all[0] == front[0]);
    } else {
        assert(decimal(n).drop_last() =~= Seq::<u8>::empty());
    }
}

proof fn lemma_comma_front(items: Seq<Seq<u8>>)
    requires
        items.len() > 1,
    ensures
        json_items(items) == items[0] + seq![44u8] + json_items(items.skip(1)),
    decreases items.len(),
{
    let front = items.drop_last();
    let rest = items.skip(1);
    if items.len() == 2 {
        assert(front.len() == 1);
        assert(json_items(front) == items[0]);
        assert(json_items(rest) == items[1]);
    } else {
        lemma_comma_front(front);
        assert(front.skip(1) =~= rest.drop_last());
        assert(json_items(items) =~= items[0] + seq![44u8] + json_items(rest));
    }
}

proof fn lemma_comma_run(items: Seq<Seq<u8>>)
    ensures
        json_items(items) == comma_run(items),
    decreases items.len(),
{
    if items.len() > 1 {
        lemma_comma_front(items);
        lemma_comma_run(items.skip(1));
    }
}

proof fn lemma_brackets(items: Seq<Seq<u8>>)
    ensures
        json_array(items) == brackets(items),
{
    lemma_comma_run(items);
}

proof fn lemma_numbers()
    ensures
        forall|data: Seq<u8>| #[trigger] json_bytes(data) == numbers(data),
{
    reveal(json_bytes);
    assert forall|data: Seq<u8>| #[trigger] json_bytes(data) == numbers(data) by {
        lemma_brackets(data.map_values(|b: u8| decimal(b as nat)));
    }
}

proof fn lemma_braces(members: Seq<(Seq<u8>, Seq<u8>)>, parts: Seq<Seq<u8>>)
    requires
        parts.len() == members.len(),
        forall|i: int|
            0 <= i < parts.len() ==> #[trigger] parts[i] == seq![34u8] + members[i].0 + seq![
                34u8,
                58,
            ] + members[i].1,
    ensures
        json_object(members) == braces(parts),
{
    reveal(json_member);
    let texts = members.map_values(|m: (Seq<u8>, Seq<u8>)| json_member(m.0, m.1));
    assert(texts =~= parts) by {
        assert forall|i: int| 0 <= i < parts.len() implies texts[i] == #[trigger] parts[i] by {
            assert(texts[i] =~= parts[i]);
        }
    }
    lemma_comma_run(texts);
}

/// The word for a member's status.
pub proof fn law_participant_status_text(status: ParticipantStatus)
    ensures
        status.text() == bytes_of(
            match status {
                ParticipantStatus::Active => "\"active\"",
                ParticipantStatus::Suspended => "\"suspended\"",
                ParticipantStatus::Defaulted => "\"defaulted\"",
                ParticipantStatus::Exited => "\"exited\"",
            },
        ),
{
}

/// The word for a lot's status.
pub proof fn law_collateral_status_text(status: CollateralStatus)
    ensures
        status.text() == bytes_of(
            match status {
                CollateralStatus::Available => "\"available\"",
                CollateralStatus::Released => "\"released\"",
                CollateralStatus::Seized => "\"seized\"",
            },
        ),
{
}

/// The word for a netting mode.
pub proof fn law_netting_mode_text(mode: NettingMode)
    ensures
        mode.text() == bytes_of(
            match mode {
                NettingMode::GrossGross => "\"gross_gross\"",
                NettingMode::GrossNet => "\"gross_net\"",
                NettingMode::NetNet => "\"net_net\"",
            },
        ),
{
}

/// The word for a cycle's status.
pub proof fn law_cycle_status_text(status: CycleStatus)
    ensures
        status.text() == bytes_of(
            match status {
                CycleStatus::Open => "\"open\"",
                CycleStatus::Closed => "\"closed\"",
                CycleStatus::Settled => "\"settled\"",
            },
        ),
{
}

/// The word for a facility's status.
pub proof fn law_facility_status_text(status: GuaranteeFacilityStatus)
    ensures
        status.text() == bytes_of(
            match status {
                GuaranteeFacilityStatus::Active => "\"active\"",
                GuaranteeFacilityStatus::Suspended => "\"suspended\"",
                GuaranteeFacilityStatus::Exhausted => "\"exhausted\"",
                GuaranteeFacilityStatus::Closed => "\"closed\"",
            },
        ),
{
}

/// The word for a hold's status.
pub proof fn law_hold_status_text(status: GuaranteeHoldStatus)
    ensures
        status.text() == bytes_of(
            match status {
                GuaranteeHoldStatus::Reserved => "\"reserved\"",
                GuaranteeHoldStatus::Bound => "\"bound\"",
                GuaranteeHoldStatus::Consumed => "\"consumed\"",
                GuaranteeHoldStatus::Released => "\"released\"",
            },
        ),
{
}

/// The word for a layer of the waterfall.
pub proof fn law_source_kind_text(kind: DefaultSourceKind)
    ensures
        kind.text() == bytes_of(
            match kind {
                DefaultSourceKind::DefaulterMargin => "\"defaulter_margin\"",
                DefaultSourceKind::DefaulterFund => "\"defaulter_fund\"",
                DefaultSourceKind::MutualizedFund => "\"mutualized_fund\"",
                DefaultSourceKind::CcpCapital => "\"ccp_capital\"",
            },
        ),
{
}

/// An optional identifier is written as its bytes, or as `null`.
pub proof fn law_slot_text(slot: Option<Identifier>)
    ensures
        slot matches Some(id) ==> json_slot(slot) == numbers(id@),
        slot is None ==> json_slot(slot) == bytes_of("null"),
{
    lemma_numbers();
}

/// An optional record is written as its text, or as `null`.
pub proof fn law_optional_text<T: Encoded>(value: Option<T::V>)
    ensures
        value matches Some(x) ==> optional_text::<T>(value) == T::text(x),
        value is None ==> optional_text::<T>(value) == bytes_of("null"),
{
    reveal(optional_text);
}

/// A list of identifiers is written as the bytes of each, in order.
pub proof fn law_identifiers_text(ids: Seq<Identifier>)
    ensures
        ids_text(ids) == brackets(ids.map_values(|id: Identifier| numbers(id@))),
{
    lemma_numbers();
    let texts = ids.map_values(|id: Identifier| json_bytes(id@));
    assert(texts =~= ids.map_values(|id: Identifier| numbers(id@)));
    lemma_brackets(texts);
}

/// A set of identifiers is written as the hexadecimal form of each between
/// quotation marks, ascending.
pub proof fn law_set_text(ids: Set<Identifier>)
    ensures
        set_text(ids) == brackets(
            ascending(ids).map_values(|id: Identifier| seq![34u8] + digits(id@) + seq![34u8]),
        ),
{
    let texts = ascending(ids).map_values(|id: Identifier| crate::json::quoted(hex(id@)));
    let wanted = ascending(ids).map_values(
        |id: Identifier| seq![34u8] + digits(id@) + seq![34u8],
    );
    assert(texts =~= wanted) by {
        assert forall|i: int| 0 <= i < wanted.len() implies texts[i] == wanted[i] by {
            law_hexadecimal(ascending(ids)[i]@);
        }
    }
    lemma_brackets(texts);
}

/// A table is written as one entry for each record under its hexadecimal key,
/// ascending.
pub proof fn law_table_text<T: Encoded>(table: Map<Identifier, T::V>)
    ensures
        table_text::<T>(table) == braces(
            ascending(table.dom()).map_values(
                |key: Identifier|
                    seq![34u8] + digits(key@) + seq![34u8, 58] + T::text(table[key]),
            ),
        ),
{
    reveal(table_text);
    let keys = ascending(table.dom());
    let parts = keys.map_values(
        |key: Identifier| seq![34u8] + digits(key@) + seq![34u8, 58] + T::text(table[key]),
    );
    let members = keys.map_values(|key: Identifier| (hex(key@), T::text(table[key])));
    assert forall|i: int| 0 <= i < parts.len() implies #[trigger] parts[i] == seq![34u8]
        + members[i].0 + seq![34u8, 58] + members[i].1 by {
        law_hexadecimal(keys[i]@);
    }
    lemma_braces(members, parts);
}

/// An amount is written in decimal digits.
pub proof fn law_amount_text(amount: u128)
    ensures
        u128::text(amount) == decimal(amount as nat),
{
}

/// The text of an authority set: its epoch, its threshold, and its members, each
/// with its identifier and the record of its key.
pub proof fn law_authorities_text(set: AuthorityView)
    ensures
        set.encoding() == braces(
            seq![
                entry("epoch", decimal(set.epoch as nat)),
                entry("threshold", decimal(set.threshold as nat)),
                entry(
                    "members",
                    brackets(
                        set.members.map_values(
                            |m: MemberView|
                                braces(
                                    seq![
                                        entry("memberId", numbers(m.member_id@)),
                                        entry("key", m.key.encoding),
                                    ],
                                ),
                        ),
                    ),
                ),
            ],
        ),
{
    lemma_numbers();
    let texts = set.members.map_values(|m: MemberView| json_object(m.members_text()));
    let wanted = set.members.map_values(
        |m: MemberView|
            braces(
                seq![entry("memberId", numbers(m.member_id@)), entry("key", m.key.encoding)],
            ),
    );
    assert(texts =~= wanted) by {
        assert forall|i: int| 0 <= i < texts.len() implies #[trigger] texts[i] == wanted[i] by {
            let m = set.members[i];
            lemma_braces(
                m.members_text(),
                seq![entry("memberId", numbers(m.member_id@)), entry("key", m.key.encoding)],
            );
        }
    }
    lemma_brackets(texts);
    lemma_braces(
        set.members_text(),
        seq![
            entry("epoch", decimal(set.epoch as nat)),
            entry("threshold", decimal(set.threshold as nat)),
            entry("members", brackets(wanted)),
        ],
    );
}

/// The digest of a snapshot is taken over the length of its text in eight bytes
/// and the text.
pub proof fn law_snapshot_digest(
    snapshot: ClearingSnapshot,
    text: Vec<u8>,
    r: Result<Digest32, DeCcpError>,
)
    requires
        call_ensures(ClearingSnapshot::encode, (&snapshot,), text),
        call_ensures(ClearingSnapshot::digest, (&snapshot,), r),
    ensures
        r is Ok,
        r->Ok_0 == sha256_of(
            bytes_of("DECCP:SNAPSHOT:v1") + wide(text@.len() as u64 as nat, 8) + text@,
        ),
        r->Ok_0 == snapshot@.digest(),
{
    law_numbers_are_big_endian(text@.len() as u64 as nat, 8);
}

/// The text of an attestation of eligibility, field by field.
pub proof fn law_eligibility_attestation_text(eligibility: EligibilityAttestation)
    ensures
        EligibilityAttestation::text(eligibility) == braces(
            seq![
                entry("providerId", numbers(eligibility.provider_id@)),
                entry("subjectLineId", numbers(eligibility.subject_line_id@)),
                entry("policyDigest", numbers(eligibility.policy_digest@)),
                entry("evidenceDigest", numbers(eligibility.evidence_digest@)),
                entry("validUntil", decimal(eligibility.valid_until as nat)),
            ],
        ),
{
    lemma_numbers();
    let parts = seq![
        entry("providerId", numbers(eligibility.provider_id@)),
        entry("subjectLineId", numbers(eligibility.subject_line_id@)),
        entry("policyDigest", numbers(eligibility.policy_digest@)),
        entry("evidenceDigest", numbers(eligibility.evidence_digest@)),
        entry("validUntil", decimal(eligibility.valid_until as nat)),
    ];
    lemma_braces(eligibility.json_members(), parts);
}

/// The text of a clearing member, field by field.
pub proof fn law_participant_text(member: Participant)
    ensures
        Participant::text(member) == braces(
            seq![
                entry("participantId", numbers(member.participant_id@)),
                entry("settlementParticipantId", numbers(member.settlement_participant_id@)),
                entry("eligibility", EligibilityAttestation::text(member.eligibility)),
                entry("defaultFundRemaining", decimal(member.default_fund_remaining as nat)),
                entry("defaultFundDefmiLockId", numbers(member.default_fund_defmi_lock_id@)),
                entry("defaultFundProofDigest", numbers(member.default_fund_proof_digest@)),
                entry("status", member.status.text()),
                entry("admittedAt", decimal(member.admitted_at as nat)),
            ],
        ),
{
    lemma_numbers();
    let parts = seq![
        entry("participantId", numbers(member.participant_id@)),
        entry("settlementParticipantId", numbers(member.settlement_participant_id@)),
        entry("eligibility", EligibilityAttestation::text(member.eligibility)),
        entry("defaultFundRemaining", decimal(member.default_fund_remaining as nat)),
        entry("defaultFundDefmiLockId", numbers(member.default_fund_defmi_lock_id@)),
        entry("defaultFundProofDigest", numbers(member.default_fund_proof_digest@)),
        entry("status", member.status.text()),
        entry("admittedAt", decimal(member.admitted_at as nat)),
    ];
    lemma_braces(member.json_members(), parts);
}

/// The text of a collateral lot, field by field.
pub proof fn law_collateral_lot_text(lot: CollateralLot)
    ensures
        CollateralLot::text(lot) == braces(
            seq![
                entry("operationId", numbers(lot.operation_id@)),
                entry("lotId", numbers(lot.lot_id@)),
                entry("ownerId", numbers(lot.owner_id@)),
                entry("assetId", numbers(lot.asset_id@)),
                entry("defmiLockId", numbers(lot.defmi_lock_id@)),
                entry("marketValue", decimal(lot.market_value as nat)),
                entry("haircutBasisPoints", decimal(lot.haircut_basis_points as nat)),
                entry("valuationPolicyDigest", numbers(lot.valuation_policy_digest@)),
                entry("valuationProofDigest", numbers(lot.valuation_proof_digest@)),
                entry("validUntil", decimal(lot.valid_until as nat)),
                entry("status", lot.status.text()),
            ],
        ),
{
    lemma_numbers();
    let parts = seq![
        entry("operationId", numbers(lot.operation_id@)),
        entry("lotId", numbers(lot.lot_id@)),
        entry("ownerId", numbers(lot.owner_id@)),
        entry("assetId", numbers(lot.asset_id@)),
        entry("defmiLockId", numbers(lot.defmi_lock_id@)),
        entry("marketValue", decimal(lot.market_value as nat)),
        entry("haircutBasisPoints", decimal(lot.haircut_basis_points as nat)),
        entry("valuationPolicyDigest", numbers(lot.valuation_policy_digest@)),
        entry("valuationProofDigest", numbers(lot.valuation_proof_digest@)),
        entry("validUntil", decimal(lot.valid_until as nat)),
        entry("status", lot.status.text()),
    ];
    lemma_braces(lot.json_members(), parts);
}

/// The text of a margin account, field by field.
pub proof fn law_margin_account_text(account: MarginAccount)
    ensures
        MarginAccount::text(account) == braces(
            seq![
                entry("initialMargin", decimal(account.initial_margin as nat)),
                entry("variationMargin", decimal(account.variation_margin as nat)),
                entry("encumberedCollateral", decimal(account.encumbered_collateral as nat)),
                entry("sequence", decimal(account.sequence as nat)),
            ],
        ),
{
    lemma_numbers();
    let parts = seq![
        entry("initialMargin", decimal(account.initial_margin as nat)),
        entry("variationMargin", decimal(account.variation_margin as nat)),
        entry("encumberedCollateral", decimal(account.encumbered_collateral as nat)),
        entry("sequence", decimal(account.sequence as nat)),
    ];
    lemma_braces(account.json_members(), parts);
}

/// The text of a leg, field by field.
pub proof fn law_clearing_leg_text(leg: ClearingLeg)
    ensures
        ClearingLeg::text(leg) == braces(
            seq![
                entry("payerId", numbers(leg.payer_id@)),
                entry("payeeId", numbers(leg.payee_id@)),
                entry("assetId", numbers(leg.asset_id@)),
                entry("amount", decimal(leg.amount as nat)),
                entry("instructionContextDigest", numbers(leg.instruction_context_digest@)),
            ],
        ),
{
    lemma_numbers();
    let parts = seq![
        entry("payerId", numbers(leg.payer_id@)),
        entry("payeeId", numbers(leg.payee_id@)),
        entry("assetId", numbers(leg.asset_id@)),
        entry("amount", decimal(leg.amount as nat)),
        entry("instructionContextDigest", numbers(leg.instruction_context_digest@)),
    ];
    lemma_braces(leg.json_members(), parts);
}

/// The text of a proposal, field by field.
pub proof fn law_netting_proposal_text(proposal: ProposalView)
    ensures
        NettingProposal::text(proposal) == braces(
            seq![
                entry("cycleId", numbers(proposal.cycle_id@)),
                entry("mode", proposal.mode.text()),
                entry("obligationRoot", numbers(proposal.obligation_root@)),
                entry(
                    "legs",
                    brackets(proposal.legs.map_values(|x: ClearingLeg| ClearingLeg::text(x))),
                ),
                entry("riskDebits", table_text::<u128>(proposal.risk_debits)),
                entry("proposalDigest", numbers(proposal.proposal_digest@)),
            ],
        ),
{
    lemma_numbers();
    lemma_brackets(proposal.legs.map_values(|x: ClearingLeg| ClearingLeg::text(x)));
    let parts = seq![
        entry("cycleId", numbers(proposal.cycle_id@)),
        entry("mode", proposal.mode.text()),
        entry("obligationRoot", numbers(proposal.obligation_root@)),
        entry("legs", brackets(proposal.legs.map_values(|x: ClearingLeg| ClearingLeg::text(x)))),
        entry("riskDebits", table_text::<u128>(proposal.risk_debits)),
        entry("proposalDigest", numbers(proposal.proposal_digest@)),
    ];
    lemma_braces(proposal.json_members(), parts);
}

/// The text of a cycle, field by field.
pub proof fn law_netting_cycle_text(cycle: CycleView)
    ensures
        NettingCycle::text(cycle) == braces(
            seq![
                entry("cycleId", numbers(cycle.cycle_id@)),
                entry("mode", cycle.mode.text()),
                entry("settlementAssetId", numbers(cycle.settlement_asset_id@)),
                entry("policyDigest", numbers(cycle.policy_digest@)),
                entry("status", cycle.status.text()),
                entry("openedAt", decimal(cycle.opened_at as nat)),
                entry("obligations", ids_text(cycle.obligations)),
                entry("closedProposal", optional_text::<NettingProposal>(cycle.closed_proposal)),
                entry("defmiSettlementReceipt", json_slot(cycle.defmi_settlement_receipt)),
            ],
        ),
{
    lemma_numbers();
    let parts = seq![
        entry("cycleId", numbers(cycle.cycle_id@)),
        entry("mode", cycle.mode.text()),
        entry("settlementAssetId", numbers(cycle.settlement_asset_id@)),
        entry("policyDigest", numbers(cycle.policy_digest@)),
        entry("status", cycle.status.text()),
        entry("openedAt", decimal(cycle.opened_at as nat)),
        entry("obligations", ids_text(cycle.obligations)),
        entry("closedProposal", optional_text::<NettingProposal>(cycle.closed_proposal)),
        entry("defmiSettlementReceipt", json_slot(cycle.defmi_settlement_receipt)),
    ];
    lemma_braces(cycle.json_members(), parts);
}

/// The text of an obligation, field by field.
pub proof fn law_clearing_obligation_text(obligation: ClearingObligation)
    ensures
        ClearingObligation::text(obligation) == braces(
            seq![
                entry("operationId", numbers(obligation.operation_id@)),
                entry("obligationId", numbers(obligation.obligation_id@)),
                entry("cycleId", numbers(obligation.cycle_id@)),
                entry("payerId", numbers(obligation.payer_id@)),
                entry("payeeId", numbers(obligation.payee_id@)),
                entry("assetId", numbers(obligation.asset_id@)),
                entry("amount", decimal(obligation.amount as nat)),
                entry("riskValue", decimal(obligation.risk_value as nat)),
                entry("zkpiDigest", numbers(obligation.zkpi_digest@)),
            ],
        ),
{
    lemma_numbers();
    let parts = seq![
        entry("operationId", numbers(obligation.operation_id@)),
        entry("obligationId", numbers(obligation.obligation_id@)),
        entry("cycleId", numbers(obligation.cycle_id@)),
        entry("payerId", numbers(obligation.payer_id@)),
        entry("payeeId", numbers(obligation.payee_id@)),
        entry("assetId", numbers(obligation.asset_id@)),
        entry("amount", decimal(obligation.amount as nat)),
        entry("riskValue", decimal(obligation.risk_value as nat)),
        entry("zkpiDigest", numbers(obligation.zkpi_digest@)),
    ];
    lemma_braces(obligation.json_members(), parts);
}

/// The text of a guarantee facility, field by field.
pub proof fn law_guarantee_facility_text(facility: GuaranteeFacility)
    ensures
        GuaranteeFacility::text(facility) == braces(
            seq![
                entry("facilityId", numbers(facility.facility_id@)),
                entry("guarantorId", numbers(facility.guarantor_id@)),
                entry("beneficiarySubjectLineId", numbers(facility.beneficiary_subject_line_id@)),
                entry("settlementAssetId", numbers(facility.settlement_asset_id@)),
                entry("capacity", decimal(facility.capacity as nat)),
                entry("reserved", decimal(facility.reserved as nat)),
                entry("consumed", decimal(facility.consumed as nat)),
                entry("defmiFacilityId", numbers(facility.defmi_facility_id@)),
                entry("policyDigest", numbers(facility.policy_digest@)),
                entry("validUntil", decimal(facility.valid_until as nat)),
                entry("sequence", decimal(facility.sequence as nat)),
                entry("status", facility.status.text()),
            ],
        ),
{
    lemma_numbers();
    let parts = seq![
        entry("facilityId", numbers(facility.facility_id@)),
        entry("guarantorId", numbers(facility.guarantor_id@)),
        entry("beneficiarySubjectLineId", numbers(facility.beneficiary_subject_line_id@)),
        entry("settlementAssetId", numbers(facility.settlement_asset_id@)),
        entry("capacity", decimal(facility.capacity as nat)),
        entry("reserved", decimal(facility.reserved as nat)),
        entry("consumed", decimal(facility.consumed as nat)),
        entry("defmiFacilityId", numbers(facility.defmi_facility_id@)),
        entry("policyDigest", numbers(facility.policy_digest@)),
        entry("validUntil", decimal(facility.valid_until as nat)),
        entry("sequence", decimal(facility.sequence as nat)),
        entry("status", facility.status.text()),
    ];
    lemma_braces(facility.json_members(), parts);
}

/// The text of a guarantee hold, field by field.
pub proof fn law_guarantee_hold_text(hold: GuaranteeHold)
    ensures
        GuaranteeHold::text(hold) == braces(
            seq![
                entry("holdId", numbers(hold.hold_id@)),
                entry("facilityId", numbers(hold.facility_id@)),
                entry("purposeDigest", numbers(hold.purpose_digest@)),
                entry("amount", decimal(hold.amount as nat)),
                entry("defmiHoldId", numbers(hold.defmi_hold_id@)),
                entry("relationProofDigest", numbers(hold.relation_proof_digest@)),
                entry("validUntil", decimal(hold.valid_until as nat)),
                entry("status", hold.status.text()),
                entry("boundExposureId", json_slot(hold.bound_exposure_id)),
                entry("defmiSettlementReceipt", json_slot(hold.defmi_settlement_receipt)),
            ],
        ),
{
    lemma_numbers();
    let parts = seq![
        entry("holdId", numbers(hold.hold_id@)),
        entry("facilityId", numbers(hold.facility_id@)),
        entry("purposeDigest", numbers(hold.purpose_digest@)),
        entry("amount", decimal(hold.amount as nat)),
        entry("defmiHoldId", numbers(hold.defmi_hold_id@)),
        entry("relationProofDigest", numbers(hold.relation_proof_digest@)),
        entry("validUntil", decimal(hold.valid_until as nat)),
        entry("status", hold.status.text()),
        entry("boundExposureId", json_slot(hold.bound_exposure_id)),
        entry("defmiSettlementReceipt", json_slot(hold.defmi_settlement_receipt)),
    ];
    lemma_braces(hold.json_members(), parts);
}

/// The text of a confidential guarantee facility, field by field.
pub proof fn law_confidential_guarantee_facility_text(facility: ConfidentialGuaranteeFacility)
    ensures
        ConfidentialGuaranteeFacility::text(facility) == braces(
            seq![
                entry("facilityId", numbers(facility.facility_id@)),
                entry("guarantorId", numbers(facility.guarantor_id@)),
                entry("beneficiarySubjectLineId", numbers(facility.beneficiary_subject_line_id@)),
                entry("settlementAssetId", numbers(facility.settlement_asset_id@)),
                entry("capacityCommitment", numbers(facility.capacity_commitment@)),
                entry("latestFacilityStateDigest", numbers(facility.latest_facility_state_digest@)),
                entry("defmiFacilityId", numbers(facility.defmi_facility_id@)),
                entry("policyDigest", numbers(facility.policy_digest@)),
                entry("validUntil", decimal(facility.valid_until as nat)),
                entry("sequence", decimal(facility.sequence as nat)),
                entry("status", facility.status.text()),
            ],
        ),
{
    lemma_numbers();
    let parts = seq![
        entry("facilityId", numbers(facility.facility_id@)),
        entry("guarantorId", numbers(facility.guarantor_id@)),
        entry("beneficiarySubjectLineId", numbers(facility.beneficiary_subject_line_id@)),
        entry("settlementAssetId", numbers(facility.settlement_asset_id@)),
        entry("capacityCommitment", numbers(facility.capacity_commitment@)),
        entry("latestFacilityStateDigest", numbers(facility.latest_facility_state_digest@)),
        entry("defmiFacilityId", numbers(facility.defmi_facility_id@)),
        entry("policyDigest", numbers(facility.policy_digest@)),
        entry("validUntil", decimal(facility.valid_until as nat)),
        entry("sequence", decimal(facility.sequence as nat)),
        entry("status", facility.status.text()),
    ];
    lemma_braces(facility.json_members(), parts);
}

/// The text of a confidential guarantee hold, field by field.
pub proof fn law_confidential_guarantee_hold_text(hold: ConfidentialGuaranteeHold)
    ensures
        ConfidentialGuaranteeHold::text(hold) == braces(
            seq![
                entry("holdId", numbers(hold.hold_id@)),
                entry("facilityId", numbers(hold.facility_id@)),
                entry("purposeDigest", numbers(hold.purpose_digest@)),
                entry("coverageCommitment", numbers(hold.coverage_commitment@)),
                entry("defmiHoldId", numbers(hold.defmi_hold_id@)),
                entry("relationProofDigest", numbers(hold.relation_proof_digest@)),
                entry("reservedStateDigest", numbers(hold.reserved_state_digest@)),
                entry("validUntil", decimal(hold.valid_until as nat)),
                entry("status", hold.status.text()),
                entry("boundExposureId", json_slot(hold.bound_exposure_id)),
                entry("defmiSettlementReceipt", json_slot(hold.defmi_settlement_receipt)),
            ],
        ),
{
    lemma_numbers();
    let parts = seq![
        entry("holdId", numbers(hold.hold_id@)),
        entry("facilityId", numbers(hold.facility_id@)),
        entry("purposeDigest", numbers(hold.purpose_digest@)),
        entry("coverageCommitment", numbers(hold.coverage_commitment@)),
        entry("defmiHoldId", numbers(hold.defmi_hold_id@)),
        entry("relationProofDigest", numbers(hold.relation_proof_digest@)),
        entry("reservedStateDigest", numbers(hold.reserved_state_digest@)),
        entry("validUntil", decimal(hold.valid_until as nat)),
        entry("status", hold.status.text()),
        entry("boundExposureId", json_slot(hold.bound_exposure_id)),
        entry("defmiSettlementReceipt", json_slot(hold.defmi_settlement_receipt)),
    ];
    lemma_braces(hold.json_members(), parts);
}

/// The text of the evidence of a default, field by field.
pub proof fn law_default_evidence_text(evidence: DefaultEvidence)
    ensures
        DefaultEvidence::text(evidence) == braces(
            seq![
                entry("eventId", numbers(evidence.event_id@)),
                entry("sourceId", numbers(evidence.source_id@)),
                entry("participantId", numbers(evidence.participant_id@)),
                entry("eventDigest", numbers(evidence.event_digest@)),
                entry("observedAt", decimal(evidence.observed_at as nat)),
            ],
        ),
{
    lemma_numbers();
    let parts = seq![
        entry("eventId", numbers(evidence.event_id@)),
        entry("sourceId", numbers(evidence.source_id@)),
        entry("participantId", numbers(evidence.participant_id@)),
        entry("eventDigest", numbers(evidence.event_digest@)),
        entry("observedAt", decimal(evidence.observed_at as nat)),
    ];
    lemma_braces(evidence.json_members(), parts);
}

/// The text of a draw, field by field.
pub proof fn law_waterfall_draw_text(draw: WaterfallDraw)
    ensures
        WaterfallDraw::text(draw) == braces(
            seq![
                entry("sourceKind", draw.source_kind.text()),
                entry("participantId", json_slot(draw.participant_id)),
                entry("amount", decimal(draw.amount as nat)),
            ],
        ),
{
    lemma_numbers();
    let parts = seq![
        entry("sourceKind", draw.source_kind.text()),
        entry("participantId", json_slot(draw.participant_id)),
        entry("amount", decimal(draw.amount as nat)),
    ];
    lemma_braces(draw.json_members(), parts);
}

/// The text of a resolution, field by field.
pub proof fn law_default_resolution_text(resolution: ResolutionView)
    ensures
        DefaultResolution::text(resolution) == braces(
            seq![
                entry("caseId", numbers(resolution.case_id@)),
                entry("participantId", numbers(resolution.participant_id@)),
                entry("shortfall", decimal(resolution.shortfall as nat)),
                entry(
                    "draws",
                    brackets(
                        resolution.draws.map_values(|x: WaterfallDraw| WaterfallDraw::text(x)),
                    ),
                ),
                entry("settlementContextDigest", numbers(resolution.settlement_context_digest@)),
                entry("resolutionDigest", numbers(resolution.resolution_digest@)),
            ],
        ),
{
    lemma_numbers();
    lemma_brackets(resolution.draws.map_values(|x: WaterfallDraw| WaterfallDraw::text(x)));
    let parts = seq![
        entry("caseId", numbers(resolution.case_id@)),
        entry("participantId", numbers(resolution.participant_id@)),
        entry("shortfall", decimal(resolution.shortfall as nat)),
        entry(
            "draws",
            brackets(resolution.draws.map_values(|x: WaterfallDraw| WaterfallDraw::text(x))),
        ),
        entry("settlementContextDigest", numbers(resolution.settlement_context_digest@)),
        entry("resolutionDigest", numbers(resolution.resolution_digest@)),
    ];
    lemma_braces(resolution.json_members(), parts);
}

/// The text of a default case, field by field.
pub proof fn law_default_case_text(case: CaseView)
    ensures
        DefaultCase::text(case) == braces(
            seq![
                entry("caseId", numbers(case.case_id@)),
                entry("evidence", DefaultEvidence::text(case.evidence)),
                entry("declaredAt", decimal(case.declared_at as nat)),
                entry("resolution", optional_text::<DefaultResolution>(case.resolution)),
                entry("defmiSettlementReceipt", json_slot(case.defmi_settlement_receipt)),
            ],
        ),
{
    lemma_numbers();
    let parts = seq![
        entry("caseId", numbers(case.case_id@)),
        entry("evidence", DefaultEvidence::text(case.evidence)),
        entry("declaredAt", decimal(case.declared_at as nat)),
        entry("resolution", optional_text::<DefaultResolution>(case.resolution)),
        entry("defmiSettlementReceipt", json_slot(case.defmi_settlement_receipt)),
    ];
    lemma_braces(case.json_members(), parts);
}

/// The text of the state of a book, field by field.
pub proof fn law_state_text(snapshot: ClearingSnapshot, r: Vec<u8>)
    requires
        call_ensures(ClearingSnapshot::encode, (&snapshot,), r),
    ensures
        ({
            let book = snapshot@;
            r@ == braces(
            seq![
                entry("authorities", book.authorities.encoding()),
                entry("participants", table_text::<Participant>(book.participants)),
                entry("collateral", table_text::<CollateralLot>(book.collateral)),
                entry("margins", table_text::<MarginAccount>(book.margins)),
                entry("cycles", table_text::<NettingCycle>(book.cycles)),
                entry("obligations", table_text::<ClearingObligation>(book.obligations)),
                entry(
                    "guaranteeFacilities",
                    table_text::<GuaranteeFacility>(book.guarantee_facilities),
                ),
                entry("guaranteeHolds", table_text::<GuaranteeHold>(book.guarantee_holds)),
                entry(
                    "confidentialGuaranteeFacilities",
                    table_text::<ConfidentialGuaranteeFacility>(
                        book.confidential_guarantee_facilities,
                    ),
                ),
                entry(
                    "confidentialGuaranteeHolds",
                    table_text::<ConfidentialGuaranteeHold>(book.confidential_guarantee_holds),
                ),
                entry("defaults", table_text::<DefaultCase>(book.defaults)),
                entry("ccpCapitalRemaining", decimal(book.ccp_capital_remaining as nat)),
                entry("ccpCapitalDefmiLockId", numbers(book.ccp_capital_defmi_lock_id@)),
                entry("ccpCapitalProofDigest", numbers(book.ccp_capital_proof_digest@)),
                entry("ccpCapitalValidUntil", decimal(book.ccp_capital_valid_until as nat)),
                entry("usedOperations", set_text(book.used_operations)),
            ],
        )
        }),
{
    let book = snapshot@;
    lemma_numbers();
    let parts = seq![
        entry("authorities", book.authorities.encoding()),
        entry("participants", table_text::<Participant>(book.participants)),
        entry("collateral", table_text::<CollateralLot>(book.collateral)),
        entry("margins", table_text::<MarginAccount>(book.margins)),
        entry("cycles", table_text::<NettingCycle>(book.cycles)),
        entry("obligations", table_text::<ClearingObligation>(book.obligations)),
        entry("guaranteeFacilities", table_text::<GuaranteeFacility>(book.guarantee_facilities)),
        entry("guaranteeHolds", table_text::<GuaranteeHold>(book.guarantee_holds)),
        entry(
            "confidentialGuaranteeFacilities",
            table_text::<ConfidentialGuaranteeFacility>(book.confidential_guarantee_facilities),
        ),
        entry(
            "confidentialGuaranteeHolds",
            table_text::<ConfidentialGuaranteeHold>(book.confidential_guarantee_holds),
        ),
        entry("defaults", table_text::<DefaultCase>(book.defaults)),
        entry("ccpCapitalRemaining", decimal(book.ccp_capital_remaining as nat)),
        entry("ccpCapitalDefmiLockId", numbers(book.ccp_capital_defmi_lock_id@)),
        entry("ccpCapitalProofDigest", numbers(book.ccp_capital_proof_digest@)),
        entry("ccpCapitalValidUntil", decimal(book.ccp_capital_valid_until as nat)),
        entry("usedOperations", set_text(book.used_operations)),
    ];
    lemma_braces(book.json_members(), parts);
}

} // verus!
