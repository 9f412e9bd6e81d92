//! Laws of digests: what exactly each approved statement and each settlement
//! context commits to.
//!
//! A digest is taken over a domain tag and fields, each with its length in four
//! bytes in front. Identifiers are written as they are, numbers with the most
//! significant byte first.

use vstd::arithmetic::div_mod::lemma_div_denominator;
use vstd::prelude::*;

use crate::aethel::{
    AethelDeCcpAdapter, AethelGuaranteeBinding, AethelGuaranteeClaim, AethelGuaranteeOffer,
    AethelGuaranteeRelease, AethelLossLayer,
};
use crate::authority::AuthoritySet;
use crate::cycles::{
    open_cycle_approval_digest, ClearingLeg, ClearingObligation, NettingMode, OpenCycleRequest,
};
use crate::defaults::{default_declaration_approval_digest, DefaultEvidence};
use crate::error::DeCcpError;
use crate::guarantees::{
    confidential_guarantee_claim_context, confidential_guarantee_facility_approval_digest,
    confidential_guarantee_release_context, guarantee_claim_context,
    guarantee_facility_approval_digest, guarantee_release_context,
    ConfidentialGuaranteeClaimRequest, ConfidentialGuaranteeFacility,
    ConfidentialGuaranteeReleaseRequest, GuaranteeFacility,
};
use crate::ident::{Digest32, Identifier};
use crate::members::{margin_approval_digest, MarginUpdate, ParticipantAdmission};
use crate::transcript::{
    big_endian, bytes_of, digest_of_fields, framed_all, lemma_big_endian_length, sha256_of,
};

verus! {

/// A power of 256.
pub open spec fn places(k: nat) -> nat
    decreases k,
{
    if k == 0 {
        1
    } else {
        256 * places((k - 1) as nat)
    }
}

/// A number in `width` bytes, most significant byte first.
pub open spec fn wide(n: nat, width: nat) -> Seq<u8> {
    Seq::new(width, |i: int| ((n / places((width - 1 - i) as nat)) % 256) as u8)
}

/// Fields one after another, each with its length in four bytes in front.
pub open spec fn laid_out(fields: Seq<Seq<u8>>) -> Seq<u8>
    decreases fields.len(),
{
    if fields.len() == 0 {
        Seq::empty()
    } else {
        laid_out(fields.drop_last()) + seq![0u8, 0, 0, fields.last().len() as u8] + fields.last()
    }
}

/// The SHA-256 value of a domain tag and fields with their lengths.
pub open spec fn tagged(tag: &str, fields: Seq<Seq<u8>>) -> Digest32 {
    sha256_of(bytes_of(tag) + laid_out(fields))
}

proof fn lemma_places_positive(k: nat)
    ensures
        places(k) > 0,
    decreases k,
{
    if k > 0 {
        lemma_places_positive((k - 1) as nat);
    }
}

/// Numbers are written with the most significant byte first.
pub proof fn law_numbers_are_big_endian(n: nat, width: nat)
    ensures
        big_endian(n, width) == wide(n, width),
    decreases width,
{
    lemma_big_endian_length(n, width);
    if width > 0 {
        let rest = (width - 1) as nat;
        law_numbers_are_big_endian(n / 256, rest);
        lemma_big_endian_length(n / 256, rest);
        assert forall|i: int| 0 <= i < width implies big_endian(n, width)[i] == wide(n, width)[i] by {
            if i < rest {
                let k = (rest - 1 - i) as nat;
                lemma_places_positive(k);
                assert(big_endian(n, width)[i] == big_endian(n / 256, rest)[i]);
                assert(wide(n / 256, rest)[i] == (((n / 256) / places(k)) % 256) as u8);
                lemma_div_denominator(n as int, 256, places(k) as int);
                assert(places(k + 1) == 256 * places(k));
                assert((n / 256) / places(k) == n / places(k + 1));
                assert((width - 1 - i) as nat == k + 1);
            } else {
                assert(places(0) == 1);
                assert(n / 1 == n);
            }
        }
        assert(big_endian(n, width) =~= wide(n, width));
    } else {
        assert(big_endian(n, width) =~= wide(n, width));
    }
}

proof fn lemma_laid_out(fields: Seq<Seq<u8>>)
    requires
        forall|i: int| 0 <= i < fields.len() ==> (#[trigger] fields[i]).len() < 256,
    ensures
        framed_all(fields) == laid_out(fields),
    decreases fields.len(),
{
    if fields.len() > 0 {
        lemma_laid_out(fields.drop_last());
        let last = fields.last();
        assert(fields[fields.len() - 1].len() < 256);
        assert(big_endian(last.len() as u32 as nat, 4) =~= seq![0u8, 0, 0, last.len() as u8]) by {
            reveal_with_fuel(big_endian, 5);
        }
        assert(framed_all(fields) =~= laid_out(fields));
    }
}

/// Digests over fields frame each field with its length.
pub proof fn law_fields_are_framed(tag: &str, fields: Seq<Seq<u8>>)
    requires
        forall|i: int| 0 <= i < fields.len() ==> (#[trigger] fields[i]).len() < 256,
    ensures
        digest_of_fields(tag, fields) == tagged(tag, fields),
{
    lemma_laid_out(fields);
}

/// The byte of a netting mode.
pub open spec fn mode_byte(mode: NettingMode) -> u8 {
    if mode == NettingMode::GrossGross {
        1
    } else if mode == NettingMode::GrossNet {
        2
    } else {
        3
    }
}

/// What the authorities approve of an admission: every field of the request.
pub proof fn law_admission_statement(
    request: ParticipantAdmission,
    r: Result<Digest32, DeCcpError>,
)
    requires
        call_ensures(ParticipantAdmission::statement_digest, (&request,), r),
    ensures
        r is Ok ==> r->Ok_0 == tagged(
            "DECCP:PARTICIPANT-ADMISSION:v1",
            seq![
                request.operation_id@,
                request.participant_id@,
                request.settlement_participant_id@,
                request.eligibility.provider_id@,
                request.eligibility.subject_line_id@,
                request.eligibility.policy_digest@,
                request.eligibility.evidence_digest@,
                wide(request.eligibility.valid_until as nat, 8),
                wide(request.default_fund_contribution as nat, 16),
                request.default_fund_defmi_lock_id@,
                request.default_fund_proof_digest@,
                wide(request.admitted_at as nat, 8),
            ],
        ),
{
    law_numbers_are_big_endian(request.eligibility.valid_until as nat, 8);
    lemma_big_endian_length(request.eligibility.valid_until as nat, 8);
    law_numbers_are_big_endian(request.default_fund_contribution as nat, 16);
    lemma_big_endian_length(request.default_fund_contribution as nat, 16);
    law_numbers_are_big_endian(request.admitted_at as nat, 8);
    lemma_big_endian_length(request.admitted_at as nat, 8);
    let fields = request.statement_fields();
    law_fields_are_framed("DECCP:PARTICIPANT-ADMISSION:v1", fields);
    assert(fields =~= seq![
        request.operation_id@,
        request.participant_id@,
        request.settlement_participant_id@,
        request.eligibility.provider_id@,
        request.eligibility.subject_line_id@,
        request.eligibility.policy_digest@,
        request.eligibility.evidence_digest@,
        wide(request.eligibility.valid_until as nat, 8),
        wide(request.default_fund_contribution as nat, 16),
        request.default_fund_defmi_lock_id@,
        request.default_fund_proof_digest@,
        wide(request.admitted_at as nat, 8),
    ]);
}

/// What the authorities approve of a margin update: every field of the request.
pub proof fn law_margin_statement(
    request: MarginUpdate,
    r: Digest32,
)
    requires
        call_ensures(MarginUpdate::statement_digest, (&request,), r),
    ensures
        r == tagged(
            "DECCP:MARGIN:v1",
            seq![
                request.operation_id@,
                request.participant_id@,
                wide(request.initial_margin as nat, 16),
                wide(request.variation_margin as nat, 16),
                wide(request.expected_sequence as nat, 8),
            ],
        ),
{
    law_numbers_are_big_endian(request.initial_margin as nat, 16);
    lemma_big_endian_length(request.initial_margin as nat, 16);
    law_numbers_are_big_endian(request.variation_margin as nat, 16);
    lemma_big_endian_length(request.variation_margin as nat, 16);
    law_numbers_are_big_endian(request.expected_sequence as nat, 8);
    lemma_big_endian_length(request.expected_sequence as nat, 8);
    let fields = crate::members::margin_fields(
        request.operation_id,
        request.participant_id,
        request.initial_margin,
        request.variation_margin,
        request.expected_sequence,
    );
    law_fields_are_framed("DECCP:MARGIN:v1", fields);
    assert(fields =~= seq![
        request.operation_id@,
        request.participant_id@,
        wide(request.initial_margin as nat, 16),
        wide(request.variation_margin as nat, 16),
        wide(request.expected_sequence as nat, 8),
    ]);
}

/// The digest of a margin update from its parts.
pub proof fn law_margin_digest(
    operation_id: Identifier,
    participant_id: Identifier,
    initial_margin: u128,
    variation_margin: u128,
    expected_sequence: u64,
    r: Digest32,
)
    requires
        call_ensures(
            margin_approval_digest,
            (&operation_id, &participant_id, initial_margin, variation_margin, expected_sequence,),
            r,
        ),
    ensures
        r == tagged(
            "DECCP:MARGIN:v1",
            seq![
                operation_id@,
                participant_id@,
                wide(initial_margin as nat, 16),
                wide(variation_margin as nat, 16),
                wide(expected_sequence as nat, 8),
            ],
        ),
{
    law_numbers_are_big_endian(initial_margin as nat, 16);
    lemma_big_endian_length(initial_margin as nat, 16);
    law_numbers_are_big_endian(variation_margin as nat, 16);
    lemma_big_endian_length(variation_margin as nat, 16);
    law_numbers_are_big_endian(expected_sequence as nat, 8);
    lemma_big_endian_length(expected_sequence as nat, 8);
    let fields = crate::members::margin_fields(
        operation_id,
        participant_id,
        initial_margin,
        variation_margin,
        expected_sequence,
    );
    law_fields_are_framed("DECCP:MARGIN:v1", fields);
    assert(fields =~= seq![
        operation_id@,
        participant_id@,
        wide(initial_margin as nat, 16),
        wide(variation_margin as nat, 16),
        wide(expected_sequence as nat, 8),
    ]);
}

/// What the authorities approve of a new cycle: every field of the request.
pub proof fn law_cycle_statement(
    request: OpenCycleRequest,
    r: Digest32,
)
    requires
        call_ensures(OpenCycleRequest::statement_digest, (&request,), r),
    ensures
        r == tagged(
            "DECCP:OPEN-CYCLE:v1",
            seq![
                request.operation_id@,
                request.cycle_id@,
                seq![mode_byte(request.mode)],
                request.settlement_asset_id@,
                request.policy_digest@,
                wide(request.opened_at as nat, 8),
            ],
        ),
{
    law_numbers_are_big_endian(request.opened_at as nat, 8);
    lemma_big_endian_length(request.opened_at as nat, 8);
    let fields = crate::cycles::open_cycle_fields(
        request.operation_id,
        request.cycle_id,
        request.mode,
        request.settlement_asset_id,
        request.policy_digest,
        request.opened_at,
    );
    law_fields_are_framed("DECCP:OPEN-CYCLE:v1", fields);
    assert(fields =~= seq![
        request.operation_id@,
        request.cycle_id@,
        seq![mode_byte(request.mode)],
        request.settlement_asset_id@,
        request.policy_digest@,
        wide(request.opened_at as nat, 8),
    ]);
}

/// The digest of a new cycle from its parts.
pub proof fn law_cycle_digest(
    operation_id: Identifier,
    cycle_id: Identifier,
    mode: NettingMode,
    settlement_asset_id: Identifier,
    policy_digest: Digest32,
    opened_at: u64,
    r: Digest32,
)
    requires
        call_ensures(
            open_cycle_approval_digest,
            (&operation_id, &cycle_id, mode, &settlement_asset_id, &policy_digest, opened_at,),
            r,
        ),
    ensures
        r == tagged(
            "DECCP:OPEN-CYCLE:v1",
            seq![
                operation_id@,
                cycle_id@,
                seq![mode_byte(mode)],
                settlement_asset_id@,
                policy_digest@,
                wide(opened_at as nat, 8),
            ],
        ),
{
    law_numbers_are_big_endian(opened_at as nat, 8);
    lemma_big_endian_length(opened_at as nat, 8);
    let fields = crate::cycles::open_cycle_fields(
        operation_id,
        cycle_id,
        mode,
        settlement_asset_id,
        policy_digest,
        opened_at,
    );
    law_fields_are_framed("DECCP:OPEN-CYCLE:v1", fields);
    assert(fields =~= seq![
        operation_id@,
        cycle_id@,
        seq![mode_byte(mode)],
        settlement_asset_id@,
        policy_digest@,
        wide(opened_at as nat, 8),
    ]);
}

/// What the authorities approve of a default declaration: the operation, the case,
/// every field of the evidence, and the time.
pub proof fn law_declaration_statement(
    operation_id: Identifier,
    case_id: Identifier,
    evidence: DefaultEvidence,
    now: u64,
    r: Digest32,
)
    requires
        call_ensures(
            default_declaration_approval_digest,
            (&operation_id, &case_id, &evidence, now,),
            r,
        ),
    ensures
        r == tagged(
            "DECCP:DECLARE-DEFAULT:v1",
            seq![
                operation_id@,
                case_id@,
                evidence.event_id@,
                evidence.source_id@,
                evidence.participant_id@,
                evidence.event_digest@,
                wide(evidence.observed_at as nat, 8),
                wide(now as nat, 8),
            ],
        ),
{
    law_numbers_are_big_endian(evidence.observed_at as nat, 8);
    lemma_big_endian_length(evidence.observed_at as nat, 8);
    law_numbers_are_big_endian(now as nat, 8);
    lemma_big_endian_length(now as nat, 8);
    let fields = crate::defaults::default_fields(operation_id, case_id, evidence, now);
    law_fields_are_framed("DECCP:DECLARE-DEFAULT:v1", fields);
    assert(fields =~= seq![
        operation_id@,
        case_id@,
        evidence.event_id@,
        evidence.source_id@,
        evidence.participant_id@,
        evidence.event_digest@,
        wide(evidence.observed_at as nat, 8),
        wide(now as nat, 8),
    ]);
}

/// What the authorities approve of a facility: its terms, under an operation.
pub proof fn law_facility_statement(
    operation_id: Identifier,
    facility: GuaranteeFacility,
    r: Digest32,
)
    requires
        call_ensures(guarantee_facility_approval_digest, (&operation_id, &facility), r),
    ensures
        r == tagged(
            "DECCP:GUARANTEE-FACILITY:v1",
            seq![
                operation_id@,
                facility.facility_id@,
                facility.guarantor_id@,
                facility.beneficiary_subject_line_id@,
                facility.settlement_asset_id@,
                wide(facility.capacity as nat, 16),
                facility.defmi_facility_id@,
                facility.policy_digest@,
                wide(facility.valid_until as nat, 8),
            ],
        ),
{
    law_numbers_are_big_endian(facility.capacity as nat, 16);
    lemma_big_endian_length(facility.capacity as nat, 16);
    law_numbers_are_big_endian(facility.valid_until as nat, 8);
    lemma_big_endian_length(facility.valid_until as nat, 8);
    let fields = crate::guarantees::facility_fields(operation_id, facility);
    law_fields_are_framed("DECCP:GUARANTEE-FACILITY:v1", fields);
    assert(fields =~= seq![
        operation_id@,
        facility.facility_id@,
        facility.guarantor_id@,
        facility.beneficiary_subject_line_id@,
        facility.settlement_asset_id@,
        wide(facility.capacity as nat, 16),
        facility.defmi_facility_id@,
        facility.policy_digest@,
        wide(facility.valid_until as nat, 8),
    ]);
}

/// What the authorities approve of a confidential facility: its terms and its first
/// state, under an operation.
pub proof fn law_confidential_facility_statement(
    operation_id: Identifier,
    facility: ConfidentialGuaranteeFacility,
    r: Digest32,
)
    requires
        call_ensures(
            confidential_guarantee_facility_approval_digest,
            (&operation_id, &facility,),
            r,
        ),
    ensures
        r == tagged(
            "DECCP:CONFIDENTIAL-GUARANTEE-FACILITY:v1",
            seq![
                operation_id@,
                facility.facility_id@,
                facility.guarantor_id@,
                facility.beneficiary_subject_line_id@,
                facility.settlement_asset_id@,
                facility.capacity_commitment@,
                facility.latest_facility_state_digest@,
                facility.defmi_facility_id@,
                facility.policy_digest@,
                wide(facility.valid_until as nat, 8),
                wide(facility.sequence as nat, 8),
            ],
        ),
{
    law_numbers_are_big_endian(facility.valid_until as nat, 8);
    lemma_big_endian_length(facility.valid_until as nat, 8);
    law_numbers_are_big_endian(facility.sequence as nat, 8);
    lemma_big_endian_length(facility.sequence as nat, 8);
    let fields = crate::guarantees::confidential_facility_fields(operation_id, facility);
    law_fields_are_framed("DECCP:CONFIDENTIAL-GUARANTEE-FACILITY:v1", fields);
    assert(fields =~= seq![
        operation_id@,
        facility.facility_id@,
        facility.guarantor_id@,
        facility.beneficiary_subject_line_id@,
        facility.settlement_asset_id@,
        facility.capacity_commitment@,
        facility.latest_facility_state_digest@,
        facility.defmi_facility_id@,
        facility.policy_digest@,
        wide(facility.valid_until as nat, 8),
        wide(facility.sequence as nat, 8),
    ]);
}

/// What the settlement of a claim binds: the hold, the exposure, and the event.
pub proof fn law_claim_context(
    hold_id: Identifier,
    exposure_id: Identifier,
    event: Digest32,
    r: Digest32,
)
    requires
        call_ensures(guarantee_claim_context, (&hold_id, &exposure_id, &event,), r),
    ensures
        r == tagged(
            "DECCP:GUARANTEE-CLAIM-CONTEXT:v1",
            seq![
                hold_id@,
                exposure_id@,
                event@,
            ],
        ),
{
    let fields = crate::guarantees::claim_fields(hold_id, exposure_id, event);
    law_fields_are_framed("DECCP:GUARANTEE-CLAIM-CONTEXT:v1", fields);
    assert(fields =~= seq![
        hold_id@,
        exposure_id@,
        event@,
    ]);
}

/// What the settlement of a release binds: the hold.
pub proof fn law_release_context(
    hold_id: Identifier,
    r: Digest32,
)
    requires
        call_ensures(guarantee_release_context, (&hold_id,), r),
    ensures
        r == tagged(
            "DECCP:GUARANTEE-RELEASE-CONTEXT:v1",
            seq![
                hold_id@,
            ],
        ),
{
    let fields = crate::guarantees::release_fields(hold_id);
    law_fields_are_framed("DECCP:GUARANTEE-RELEASE-CONTEXT:v1", fields);
    assert(fields =~= seq![
        hold_id@,
    ]);
}

/// What the settlement of a confidential release binds: every field of the request.
pub proof fn law_confidential_release_context(
    request: ConfidentialGuaranteeReleaseRequest,
    r: Digest32,
)
    requires
        call_ensures(confidential_guarantee_release_context, (&request,), r),
    ensures
        r == tagged(
            "DECCP:CONFIDENTIAL-GUARANTEE-RELEASE-CONTEXT:v1",
            seq![
                request.operation_id@,
                request.hold_id@,
                request.expected_facility_state_digest@,
                request.after_facility_state_digest@,
                wide(request.expected_facility_sequence as nat, 8),
                request.transition_proof_digest@,
            ],
        ),
{
    law_numbers_are_big_endian(request.expected_facility_sequence as nat, 8);
    lemma_big_endian_length(request.expected_facility_sequence as nat, 8);
    let fields = crate::guarantees::confidential_release_fields(request);
    law_fields_are_framed("DECCP:CONFIDENTIAL-GUARANTEE-RELEASE-CONTEXT:v1", fields);
    assert(fields =~= seq![
        request.operation_id@,
        request.hold_id@,
        request.expected_facility_state_digest@,
        request.after_facility_state_digest@,
        wide(request.expected_facility_sequence as nat, 8),
        request.transition_proof_digest@,
    ]);
}

/// What the settlement of a confidential claim binds: every field of the request.
pub proof fn law_confidential_claim_context(
    request: ConfidentialGuaranteeClaimRequest,
    r: Digest32,
)
    requires
        call_ensures(confidential_guarantee_claim_context, (&request,), r),
    ensures
        r == tagged(
            "DECCP:CONFIDENTIAL-GUARANTEE-CLAIM-CONTEXT:v1",
            seq![
                request.operation_id@,
                request.hold_id@,
                request.exposure_id@,
                request.default_event_digest@,
                request.expected_facility_state_digest@,
                request.after_facility_state_digest@,
                wide(request.expected_facility_sequence as nat, 8),
                request.transition_proof_digest@,
            ],
        ),
{
    law_numbers_are_big_endian(request.expected_facility_sequence as nat, 8);
    lemma_big_endian_length(request.expected_facility_sequence as nat, 8);
    let fields = crate::guarantees::confidential_claim_fields(request);
    law_fields_are_framed("DECCP:CONFIDENTIAL-GUARANTEE-CLAIM-CONTEXT:v1", fields);
    assert(fields =~= seq![
        request.operation_id@,
        request.hold_id@,
        request.exposure_id@,
        request.default_event_digest@,
        request.expected_facility_state_digest@,
        request.after_facility_state_digest@,
        wide(request.expected_facility_sequence as nat, 8),
        request.transition_proof_digest@,
    ]);
}

/// What the settlement of an Aethel release binds: the release, for the hold of its
/// binding.
pub proof fn law_aethel_release_context(
    binding: AethelGuaranteeBinding,
    release: AethelGuaranteeRelease,
    r: Digest32,
)
    requires
        call_ensures(AethelDeCcpAdapter::release_context, (&binding, &release,), r),
    ensures
        r == tagged(
            "DECCP:CONFIDENTIAL-GUARANTEE-RELEASE-CONTEXT:v1",
            seq![
                release.operation_id@,
                binding.deccp_hold_id@,
                release.deccp_expected_state_digest@,
                release.deccp_after_state_digest@,
                wide(release.deccp_expected_sequence as nat, 8),
                release.transition_proof_digest@,
            ],
        ),
{
    law_numbers_are_big_endian(release.deccp_expected_sequence as nat, 8);
    lemma_big_endian_length(release.deccp_expected_sequence as nat, 8);
    let fields = crate::guarantees::confidential_release_fields(release.request(binding));
    law_fields_are_framed("DECCP:CONFIDENTIAL-GUARANTEE-RELEASE-CONTEXT:v1", fields);
    assert(fields =~= seq![
        release.operation_id@,
        binding.deccp_hold_id@,
        release.deccp_expected_state_digest@,
        release.deccp_after_state_digest@,
        wide(release.deccp_expected_sequence as nat, 8),
        release.transition_proof_digest@,
    ]);
}

/// What the settlement of an Aethel claim binds: the claim, for the hold of its
/// binding.
pub proof fn law_aethel_claim_context(
    binding: AethelGuaranteeBinding,
    claim: AethelGuaranteeClaim,
    r: Digest32,
)
    requires
        call_ensures(AethelDeCcpAdapter::claim_context, (&binding, &claim,), r),
    ensures
        r == tagged(
            "DECCP:CONFIDENTIAL-GUARANTEE-CLAIM-CONTEXT:v1",
            seq![
                claim.operation_id@,
                binding.deccp_hold_id@,
                claim.issuance_id@,
                claim.default_event_digest@,
                claim.deccp_expected_state_digest@,
                claim.deccp_after_state_digest@,
                wide(claim.deccp_expected_sequence as nat, 8),
                claim.transition_proof_digest@,
            ],
        ),
{
    law_numbers_are_big_endian(claim.deccp_expected_sequence as nat, 8);
    lemma_big_endian_length(claim.deccp_expected_sequence as nat, 8);
    let fields = crate::guarantees::confidential_claim_fields(claim.request(binding));
    law_fields_are_framed("DECCP:CONFIDENTIAL-GUARANTEE-CLAIM-CONTEXT:v1", fields);
    assert(fields =~= seq![
        claim.operation_id@,
        binding.deccp_hold_id@,
        claim.issuance_id@,
        claim.default_event_digest@,
        claim.deccp_expected_state_digest@,
        claim.deccp_after_state_digest@,
        wide(claim.deccp_expected_sequence as nat, 8),
        claim.transition_proof_digest@,
    ]);
}

/// What an obligation contributes to the root of its cycle: every field of it.
pub proof fn law_obligation_leaf(o: ClearingObligation)
    ensures
        o.leaf() == tagged(
            "DECCP:OBLIGATION:v1",
            seq![
                o.operation_id@,
                o.obligation_id@,
                o.cycle_id@,
                o.payer_id@,
                o.payee_id@,
                o.asset_id@,
                wide(o.amount as nat, 16),
                wide(o.risk_value as nat, 16),
                o.zkpi_digest@,
            ],
        ),
{
    law_numbers_are_big_endian(o.amount as nat, 16);
    law_numbers_are_big_endian(o.risk_value as nat, 16);
    law_fields_are_framed("DECCP:OBLIGATION:v1", o.leaf_fields());
}

/// What the instruction of a leg is bound to: the cycle, the leg, and the root of
/// the obligations.
pub proof fn law_leg_context(
    cycle_id: Identifier,
    payer: Identifier,
    payee: Identifier,
    asset: Identifier,
    amount: u128,
    root: Digest32,
)
    ensures
        ({
            let leg = ClearingLeg::between(cycle_id, payer, payee, asset, amount, root);
            &&& leg.payer_id == payer
            &&& leg.payee_id == payee
            &&& leg.asset_id == asset
            &&& leg.amount == amount
            &&& leg.instruction_context_digest == tagged(
                "DECCP:ZKPI-CONTEXT:v1",
                seq![cycle_id@, payer@, payee@, asset@, wide(amount as nat, 16), root@],
            )
        }),
{
    law_numbers_are_big_endian(amount as nat, 16);
    law_fields_are_framed(
        "DECCP:ZKPI-CONTEXT:v1",
        crate::cycles::leg_fields(cycle_id, payer, payee, asset, amount, root),
    );
}

/// What one authority signs: the digest of the set, its own identifier, and the
/// statement.
pub proof fn law_signing_message(
    authorities: AuthoritySet,
    statement: Digest32,
    member: Identifier,
    digest: Result<Digest32, DeCcpError>,
    r: Result<Digest32, DeCcpError>,
)
    requires
        call_ensures(AuthoritySet::digest, (&authorities,), digest),
        call_ensures(AuthoritySet::signing_message, (&authorities, &statement, &member), r),
    ensures
        r is Ok <==> digest is Ok,
        r is Err ==> r->Err_0 == DeCcpError::InvalidAuthoritySet,
        r is Ok ==> r->Ok_0 == tagged(
            "DECCP:HYBRID-APPROVAL:v2",
            seq![digest->Ok_0@, member@, statement@],
        ),
{
    law_fields_are_framed(
        "DECCP:HYBRID-APPROVAL:v2",
        seq![authorities@.digest()@, member@, statement@],
    );
}

/// The purpose of an Aethel guarantee commits to the guarantee, the request, the
/// series and the state of its stream, the covered commitment, the loss layer,
/// and both sets of terms.
pub proof fn law_aethel_purpose(offer: AethelGuaranteeOffer)
    ensures
        offer.purpose() == sha256_of(
            bytes_of("DECCP:AETHEL-GUARANTEE-PURPOSE:v1") + offer.guarantee_id@ + offer.request_id@
                + offer.series_id@ + wide(offer.stream_state_version as nat, 8)
                + offer.stream_state_root@ + offer.coverage_commitment@ + seq![
                if offer.loss_layer == AethelLossLayer::FirstLoss {
                    1u8
                } else if offer.loss_layer == AethelLossLayer::PariPassu {
                    2u8
                } else {
                    3u8
                },
            ] + offer.guarantee_terms_digest@ + offer.claim_policy_digest@,
        ),
{
    law_numbers_are_big_endian(offer.stream_state_version as nat, 8);
}

} // verus!
