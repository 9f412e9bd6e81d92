//! Guarantee facilities, their holds, and the requests that move them.

use vstd::prelude::*;

use crate::ident::{Digest32, Identifier};
use crate::map::Record;
use crate::transcript::{big_endian, digest_of_fields, FieldDigest};

verus! {

/// What the settlement layer reported when it finalized an instruction.
#[derive(Clone, Copy, Debug, PartialEq, Eq)]
pub struct DefmiSettlementReceipt {
    pub receipt_digest: Digest32,
    pub context_digest: Digest32,
    pub finalized_at: u64,
}

/// Where a guarantee facility stands.
#[derive(Clone, Copy, Debug, PartialEq, Eq, Structural)]
pub enum GuaranteeFacilityStatus {
    Active,
    Suspended,
    Exhausted,
    Closed,
}

/// Where a hold on a guarantee facility stands.
#[derive(Clone, Copy, Debug, PartialEq, Eq, Structural)]
pub enum GuaranteeHoldStatus {
    Reserved,
    Bound,
    Consumed,
    Released,
}

impl GuaranteeHoldStatus {
    /// Whether the hold still claims capacity: it is reserved or bound.
    pub open spec fn live(self) -> bool {
        self == GuaranteeHoldStatus::Reserved || self == GuaranteeHoldStatus::Bound
    }

    /// Whether an exposure and a receipt are present exactly when the status
    /// says so. A released hold may have been bound before.
    pub open spec fn fits(self, bound: bool, receipted: bool) -> bool {
        match self {
            GuaranteeHoldStatus::Reserved => !bound && !receipted,
            GuaranteeHoldStatus::Bound => bound && !receipted,
            GuaranteeHoldStatus::Consumed => bound && receipted,
            GuaranteeHoldStatus::Released => receipted,
        }
    }

    /// Whether the hold still claims capacity.
    pub fn is_live(self) -> (r: bool)
        ensures
            r == self.live(),
    {
        match self {
            GuaranteeHoldStatus::Reserved => true,
            GuaranteeHoldStatus::Bound => true,
            GuaranteeHoldStatus::Consumed => false,
            GuaranteeHoldStatus::Released => false,
        }
    }
}

pub(crate) fn hold_shape_is_consistent(
    status: GuaranteeHoldStatus,
    bound: bool,
    receipted: bool,
) -> (r: bool)
    ensures
        r == status.fits(bound, receipted),
{
    match status {
        GuaranteeHoldStatus::Reserved => !bound && !receipted,
        GuaranteeHoldStatus::Bound => bound && !receipted,
        GuaranteeHoldStatus::Consumed => bound && receipted,
        GuaranteeHoldStatus::Released => receipted,
    }
}

/// A facility under which a member guarantees up to a capacity.
#[derive(Clone, Copy, Debug, PartialEq, Eq)]
pub struct GuaranteeFacility {
    pub facility_id: Identifier,
    pub guarantor_id: Identifier,
    pub beneficiary_subject_line_id: Digest32,
    pub settlement_asset_id: Identifier,
    pub capacity: u128,
    pub reserved: u128,
    pub consumed: u128,
    pub defmi_facility_id: Identifier,
    pub policy_digest: Digest32,
    pub valid_until: u64,
    pub sequence: u64,
    pub status: GuaranteeFacilityStatus,
}

impl View for GuaranteeFacility {
    type V = GuaranteeFacility;

    open spec fn view(&self) -> GuaranteeFacility {
        *self
    }
}

impl Record for GuaranteeFacility {
    fn duplicate(&self) -> (r: Self) {
        *self
    }
}

/// A request to reserve part of a facility.
#[derive(Clone, Copy, Debug, PartialEq, Eq)]
pub struct GuaranteeReservation {
    pub operation_id: Identifier,
    pub hold_id: Identifier,
    pub facility_id: Identifier,
    pub purpose_digest: Digest32,
    pub amount: u128,
    pub defmi_hold_id: Identifier,
    pub relation_proof_digest: Digest32,
    pub expected_facility_sequence: u64,
    pub valid_until: u64,
}

/// A reserved part of a facility.
#[derive(Clone, Copy, Debug, PartialEq, Eq)]
pub struct GuaranteeHold {
    pub hold_id: Identifier,
    pub facility_id: Identifier,
    pub purpose_digest: Digest32,
    pub amount: u128,
    pub defmi_hold_id: Identifier,
    pub relation_proof_digest: Digest32,
    pub valid_until: u64,
    pub status: GuaranteeHoldStatus,
    pub bound_exposure_id: Option<Identifier>,
    pub defmi_settlement_receipt: Option<Digest32>,
}

impl View for GuaranteeHold {
    type V = GuaranteeHold;

    open spec fn view(&self) -> GuaranteeHold {
        *self
    }
}

impl Record for GuaranteeHold {
    fn duplicate(&self) -> (r: Self) {
        *self
    }
}

/// A request to pay out a bound hold.
#[derive(Clone, Copy, Debug, PartialEq, Eq)]
pub struct GuaranteeClaimRequest {
    pub operation_id: Identifier,
    pub hold_id: Identifier,
    pub exposure_id: Identifier,
    pub default_event_digest: Digest32,
    pub receipt: DefmiSettlementReceipt,
}

/// A guarantee facility whose monetary capacity and aggregate usage stay
/// committed in the settlement layer. Changes are serialized with both a public
/// sequence and a commitment-state compare-and-swap; the hidden amount is never
/// needed.
#[derive(Clone, Copy, Debug, PartialEq, Eq)]
pub struct ConfidentialGuaranteeFacility {
    pub facility_id: Identifier,
    pub guarantor_id: Identifier,
    pub beneficiary_subject_line_id: Digest32,
    pub settlement_asset_id: Identifier,
    pub capacity_commitment: Digest32,
    pub latest_facility_state_digest: Digest32,
    pub defmi_facility_id: Identifier,
    pub policy_digest: Digest32,
    pub valid_until: u64,
    pub sequence: u64,
    pub status: GuaranteeFacilityStatus,
}

impl View for ConfidentialGuaranteeFacility {
    type V = ConfidentialGuaranteeFacility;

    open spec fn view(&self) -> ConfidentialGuaranteeFacility {
        *self
    }
}

impl Record for ConfidentialGuaranteeFacility {
    fn duplicate(&self) -> (r: Self) {
        *self
    }
}

/// A request to reserve a hidden part of a confidential facility.
#[derive(Clone, Copy, Debug, PartialEq, Eq)]
pub struct ConfidentialGuaranteeReservation {
    pub operation_id: Identifier,
    pub hold_id: Identifier,
    pub facility_id: Identifier,
    pub purpose_digest: Digest32,
    pub coverage_commitment: Digest32,
    pub defmi_hold_id: Identifier,
    /// Proof that the hidden hold amount is positive, is the amount committed
    /// by `coverage_commitment`, and leaves the facility within capacity.
    pub relation_proof_digest: Digest32,
    pub expected_facility_state_digest: Digest32,
    pub after_facility_state_digest: Digest32,
    pub expected_facility_sequence: u64,
    pub valid_until: u64,
}

/// A reserved hidden part of a confidential facility.
#[derive(Clone, Copy, Debug, PartialEq, Eq)]
pub struct ConfidentialGuaranteeHold {
    pub hold_id: Identifier,
    pub facility_id: Identifier,
    pub purpose_digest: Digest32,
    pub coverage_commitment: Digest32,
    pub defmi_hold_id: Identifier,
    pub relation_proof_digest: Digest32,
    pub reserved_state_digest: Digest32,
    pub valid_until: u64,
    pub status: GuaranteeHoldStatus,
    pub bound_exposure_id: Option<Identifier>,
    pub defmi_settlement_receipt: Option<Digest32>,
}

impl View for ConfidentialGuaranteeHold {
    type V = ConfidentialGuaranteeHold;

    open spec fn view(&self) -> ConfidentialGuaranteeHold {
        *self
    }
}

impl Record for ConfidentialGuaranteeHold {
    fn duplicate(&self) -> (r: Self) {
        *self
    }
}

/// A request to give a confidential hold back.
#[derive(Clone, Copy, Debug, PartialEq, Eq)]
pub struct ConfidentialGuaranteeReleaseRequest {
    pub operation_id: Identifier,
    pub hold_id: Identifier,
    pub expected_facility_state_digest: Digest32,
    pub after_facility_state_digest: Digest32,
    pub expected_facility_sequence: u64,
    pub transition_proof_digest: Digest32,
    pub receipt: DefmiSettlementReceipt,
}

/// A request to pay out a bound confidential hold.
#[derive(Clone, Copy, Debug, PartialEq, Eq)]
pub struct ConfidentialGuaranteeClaimRequest {
    pub operation_id: Identifier,
    pub hold_id: Identifier,
    pub exposure_id: Identifier,
    pub default_event_digest: Digest32,
    pub expected_facility_state_digest: Digest32,
    pub after_facility_state_digest: Digest32,
    pub expected_facility_sequence: u64,
    pub transition_proof_digest: Digest32,
    pub receipt: DefmiSettlementReceipt,
}

/// The fields that the context of a claim covers.
pub open spec fn claim_fields(
    hold_id: Identifier,
    exposure_id: Identifier,
    default_event_digest: Digest32,
) -> Seq<Seq<u8>> {
    seq![
        hold_id@,
        exposure_id@,
        default_event_digest@,
    ]
}

/// The context that the settlement of a guarantee claim must bind.
pub open spec fn claim_context(
    hold_id: Identifier,
    exposure_id: Identifier,
    default_event_digest: Digest32,
) -> Digest32 {
    digest_of_fields(
        "DECCP:GUARANTEE-CLAIM-CONTEXT:v1",
        claim_fields(hold_id, exposure_id, default_event_digest),
    )
}

/// The context that the settlement of a guarantee claim must bind.
pub fn guarantee_claim_context(
    hold_id: &Identifier,
    exposure_id: &Identifier,
    default_event_digest: &Digest32,
) -> (r: Digest32)
    ensures
        r == claim_context(*hold_id, *exposure_id, *default_event_digest),
{
    let mut digest = FieldDigest::new("DECCP:GUARANTEE-CLAIM-CONTEXT:v1");
    digest.field(hold_id);
    digest.field(exposure_id);
    digest.field(default_event_digest);
    assert(digest.fields() =~= claim_fields(*hold_id, *exposure_id, *default_event_digest));
    digest.finish()
}

/// The fields that the context of a release covers.
pub open spec fn release_fields(hold_id: Identifier) -> Seq<Seq<u8>> {
    seq![
        hold_id@,
    ]
}

/// The context that the release of a hold must bind.
pub open spec fn release_context(hold_id: Identifier) -> Digest32 {
    digest_of_fields("DECCP:GUARANTEE-RELEASE-CONTEXT:v1", release_fields(hold_id))
}

/// The context that the release of a hold must bind.
pub fn guarantee_release_context(hold_id: &Identifier) -> (r: Digest32)
    ensures
        r == release_context(*hold_id),
{
    let mut digest = FieldDigest::new("DECCP:GUARANTEE-RELEASE-CONTEXT:v1");
    digest.field(hold_id);
    assert(digest.fields() =~= release_fields(*hold_id));
    digest.finish()
}

/// The fields that the context of a confidential release covers.
pub open spec fn confidential_release_fields(
    request: ConfidentialGuaranteeReleaseRequest,
) -> Seq<Seq<u8>> {
    seq![
        request.operation_id@,
        request.hold_id@,
        request.expected_facility_state_digest@,
        request.after_facility_state_digest@,
        big_endian(request.expected_facility_sequence as nat, 8),
        request.transition_proof_digest@,
    ]
}

/// The context that the release of a confidential hold must bind.
pub open spec fn confidential_release_context(
    request: ConfidentialGuaranteeReleaseRequest,
) -> Digest32 {
    digest_of_fields(
        "DECCP:CONFIDENTIAL-GUARANTEE-RELEASE-CONTEXT:v1",
        confidential_release_fields(request),
    )
}

/// The context that the release of a confidential hold must bind.
pub fn confidential_guarantee_release_context(
    request: &ConfidentialGuaranteeReleaseRequest,
) -> (r: Digest32)
    ensures
        r == confidential_release_context(*request),
{
    let mut digest = FieldDigest::new("DECCP:CONFIDENTIAL-GUARANTEE-RELEASE-CONTEXT:v1");
    digest.field(&request.operation_id);
    digest.field(&request.hold_id);
    digest.field(&request.expected_facility_state_digest);
    digest.field(&request.after_facility_state_digest);
    digest.number(request.expected_facility_sequence as u128, 8);
    digest.field(&request.transition_proof_digest);
    assert(digest.fields() =~= confidential_release_fields(*request));
    digest.finish()
}

/// The fields that the context of a confidential claim covers.
pub open spec fn confidential_claim_fields(
    request: ConfidentialGuaranteeClaimRequest,
) -> Seq<Seq<u8>> {
    seq![
        request.operation_id@,
        request.hold_id@,
        request.exposure_id@,
        request.default_event_digest@,
        request.expected_facility_state_digest@,
        request.after_facility_state_digest@,
        big_endian(request.expected_facility_sequence as nat, 8),
        request.transition_proof_digest@,
    ]
}

/// The context that the settlement of a confidential claim must bind.
pub open spec fn confidential_claim_context(
    request: ConfidentialGuaranteeClaimRequest,
) -> Digest32 {
    digest_of_fields(
        "DECCP:CONFIDENTIAL-GUARANTEE-CLAIM-CONTEXT:v1",
        confidential_claim_fields(request),
    )
}

/// The context that the settlement of a confidential claim must bind.
pub fn confidential_guarantee_claim_context(
    request: &ConfidentialGuaranteeClaimRequest,
) -> (r: Digest32)
    ensures
        r == confidential_claim_context(*request),
{
    let mut digest = FieldDigest::new("DECCP:CONFIDENTIAL-GUARANTEE-CLAIM-CONTEXT:v1");
    digest.field(&request.operation_id);
    digest.field(&request.hold_id);
    digest.field(&request.exposure_id);
    digest.field(&request.default_event_digest);
    digest.field(&request.expected_facility_state_digest);
    digest.field(&request.after_facility_state_digest);
    digest.number(request.expected_facility_sequence as u128, 8);
    digest.field(&request.transition_proof_digest);
    assert(digest.fields() =~= confidential_claim_fields(*request));
    digest.finish()
}

/// The fields that the digest of a new facility covers.
pub open spec fn facility_fields(
    operation_id: Identifier,
    facility: GuaranteeFacility,
) -> Seq<Seq<u8>> {
    seq![
        operation_id@,
        facility.facility_id@,
        facility.guarantor_id@,
        facility.beneficiary_subject_line_id@,
        facility.settlement_asset_id@,
        big_endian(facility.capacity as nat, 16),
        facility.defmi_facility_id@,
        facility.policy_digest@,
        big_endian(facility.valid_until as nat, 8),
    ]
}

/// The digest that the authorities approve for a new facility.
pub open spec fn facility_statement(
    operation_id: Identifier,
    facility: GuaranteeFacility,
) -> Digest32 {
    digest_of_fields("DECCP:GUARANTEE-FACILITY:v1", facility_fields(operation_id, facility))
}

/// The digest that the authorities approve for a new facility.
pub fn guarantee_facility_approval_digest(
    operation_id: &Identifier,
    facility: &GuaranteeFacility,
) -> (r: Digest32)
    ensures
        r == facility_statement(*operation_id, *facility),
{
    let mut digest = FieldDigest::new("DECCP:GUARANTEE-FACILITY:v1");
    digest.field(operation_id);
    digest.field(&facility.facility_id);
    digest.field(&facility.guarantor_id);
    digest.field(&facility.beneficiary_subject_line_id);
    digest.field(&facility.settlement_asset_id);
    digest.number(facility.capacity, 16);
    digest.field(&facility.defmi_facility_id);
    digest.field(&facility.policy_digest);
    digest.number(facility.valid_until as u128, 8);
    assert(digest.fields() =~= facility_fields(*operation_id, *facility));
    digest.finish()
}

/// The fields that the digest of a new confidential facility covers.
pub open spec fn confidential_facility_fields(
    operation_id: Identifier,
    facility: ConfidentialGuaranteeFacility,
) -> Seq<Seq<u8>> {
    seq![
        operation_id@,
        facility.facility_id@,
        facility.guarantor_id@,
        facility.beneficiary_subject_line_id@,
        facility.settlement_asset_id@,
        facility.capacity_commitment@,
        facility.latest_facility_state_digest@,
        facility.defmi_facility_id@,
        facility.policy_digest@,
        big_endian(facility.valid_until as nat, 8),
        big_endian(facility.sequence as nat, 8),
    ]
}

/// The digest that the authorities approve for a new confidential facility.
pub open spec fn confidential_facility_statement(
    operation_id: Identifier,
    facility: ConfidentialGuaranteeFacility,
) -> Digest32 {
    digest_of_fields(
        "DECCP:CONFIDENTIAL-GUARANTEE-FACILITY:v1",
        confidential_facility_fields(operation_id, facility),
    )
}

/// The digest that the authorities approve for a new confidential facility.
pub fn confidential_guarantee_facility_approval_digest(
    operation_id: &Identifier,
    facility: &ConfidentialGuaranteeFacility,
) -> (r: Digest32)
    ensures
        r == confidential_facility_statement(*operation_id, *facility),
{
    let mut digest = FieldDigest::new("DECCP:CONFIDENTIAL-GUARANTEE-FACILITY:v1");
    digest.field(operation_id);
    digest.field(&facility.facility_id);
    digest.field(&facility.guarantor_id);
    digest.field(&facility.beneficiary_subject_line_id);
    digest.field(&facility.settlement_asset_id);
    digest.field(&facility.capacity_commitment);
    digest.field(&facility.latest_facility_state_digest);
    digest.field(&facility.defmi_facility_id);
    digest.field(&facility.policy_digest);
    digest.number(facility.valid_until as u128, 8);
    digest.number(facility.sequence as u128, 8);
    assert(digest.fields() =~= confidential_facility_fields(*operation_id, *facility));
    digest.finish()
}

} // verus!
