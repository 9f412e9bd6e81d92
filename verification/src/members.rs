//! Clearing members: admission, margin, and collateral.

use vstd::prelude::*;

use crate::error::DeCcpError;
use crate::ident::{any_zero, has_zero, same_id, Digest32, Identifier};
use crate::map::Record;
use crate::transcript::{big_endian, digest_of_fields, FieldDigest};

verus! {

/// Where a member stands.
#[derive(Clone, Copy, Debug, PartialEq, Eq, Structural)]
pub enum ParticipantStatus {
    Active,
    Suspended,
    Defaulted,
    Exited,
}

/// Evidence that a subject may participate.
#[derive(Clone, Copy, Debug, PartialEq, Eq)]
pub struct EligibilityAttestation {
    pub provider_id: Identifier,
    pub subject_line_id: Digest32,
    pub policy_digest: Digest32,
    pub evidence_digest: Digest32,
    pub valid_until: u64,
}

impl View for EligibilityAttestation {
    type V = EligibilityAttestation;

    open spec fn view(&self) -> EligibilityAttestation {
        *self
    }
}

/// What the eligibility service found when it verified an attestation.
#[derive(Clone, Copy, Debug, PartialEq, Eq)]
pub struct VerifiedAdmission {
    pub provider_id: Identifier,
    pub subject_line_id: Digest32,
    pub policy_digest: Digest32,
    pub evidence_digest: Digest32,
    pub valid_until: u64,
}

impl VerifiedAdmission {
    /// Whether this finding repeats an attestation field by field.
    pub open spec fn repeats(self, eligibility: EligibilityAttestation) -> bool {
        &&& self.provider_id == eligibility.provider_id
        &&& self.subject_line_id == eligibility.subject_line_id
        &&& self.policy_digest == eligibility.policy_digest
        &&& self.evidence_digest == eligibility.evidence_digest
        &&& self.valid_until == eligibility.valid_until
    }

    /// Whether this finding repeats an attestation field by field.
    pub fn agrees_with(&self, eligibility: &EligibilityAttestation) -> (r: bool)
        ensures
            r == self.repeats(*eligibility),
    {
        same_id(&self.provider_id, &eligibility.provider_id) && same_id(
            &self.subject_line_id,
            &eligibility.subject_line_id,
        ) && same_id(&self.policy_digest, &eligibility.policy_digest) && same_id(
            &self.evidence_digest,
            &eligibility.evidence_digest,
        ) && self.valid_until == eligibility.valid_until
    }
}

/// A request to admit a member.
#[derive(Clone, Copy, Debug, PartialEq, Eq)]
pub struct ParticipantAdmission {
    pub operation_id: Identifier,
    pub participant_id: Identifier,
    pub settlement_participant_id: Identifier,
    pub eligibility: EligibilityAttestation,
    pub default_fund_contribution: u128,
    pub default_fund_defmi_lock_id: Identifier,
    pub default_fund_proof_digest: Digest32,
    pub admitted_at: u64,
}

impl ParticipantAdmission {
    /// Whether every identifier is set, the contribution is positive, and the
    /// eligibility outlives the admission.
    pub open spec fn well_formed(self) -> bool {
        &&& !has_zero(
            seq![
                self.operation_id,
                self.participant_id,
                self.settlement_participant_id,
                self.eligibility.provider_id,
                self.eligibility.subject_line_id,
                self.eligibility.policy_digest,
                self.eligibility.evidence_digest,
                self.default_fund_defmi_lock_id,
                self.default_fund_proof_digest,
            ],
        )
        &&& self.default_fund_contribution != 0
        &&& self.admitted_at != 0
        &&& self.eligibility.valid_until >= self.admitted_at
    }

    /// The fields that the approved digest covers.
    pub open spec fn statement_fields(self) -> Seq<Seq<u8>> {
        seq![
            self.operation_id@,
            self.participant_id@,
            self.settlement_participant_id@,
            self.eligibility.provider_id@,
            self.eligibility.subject_line_id@,
            self.eligibility.policy_digest@,
            self.eligibility.evidence_digest@,
            big_endian(self.eligibility.valid_until as nat, 8),
            big_endian(self.default_fund_contribution as nat, 16),
            self.default_fund_defmi_lock_id@,
            self.default_fund_proof_digest@,
            big_endian(self.admitted_at as nat, 8),
        ]
    }

    /// The digest that the authorities approve.
    pub open spec fn statement(self) -> Digest32 {
        digest_of_fields("DECCP:PARTICIPANT-ADMISSION:v1", self.statement_fields())
    }

    /// The digest that the authorities approve, or the refusal of an admission
    /// that is not well formed.
    pub fn statement_digest(&self) -> (r: Result<Digest32, DeCcpError>)
        ensures
            r == (if self.well_formed() {
                Ok::<Digest32, DeCcpError>(self.statement())
            } else {
                Err(DeCcpError::InvalidParticipant)
            }),
    {
        let required = [
            self.operation_id,
            self.participant_id,
            self.settlement_participant_id,
            self.eligibility.provider_id,
            self.eligibility.subject_line_id,
            self.eligibility.policy_digest,
            self.eligibility.evidence_digest,
            self.default_fund_defmi_lock_id,
            self.default_fund_proof_digest,
        ];
        if any_zero(&required) || self.default_fund_contribution == 0 || self.admitted_at == 0
            || self.eligibility.valid_until < self.admitted_at {
            return Err(DeCcpError::InvalidParticipant);
        }
        let mut digest = FieldDigest::new("DECCP:PARTICIPANT-ADMISSION:v1");
        digest.field(&self.operation_id);
        digest.field(&self.participant_id);
        digest.field(&self.settlement_participant_id);
        digest.field(&self.eligibility.provider_id);
        digest.field(&self.eligibility.subject_line_id);
        digest.field(&self.eligibility.policy_digest);
        digest.field(&self.eligibility.evidence_digest);
        digest.number(self.eligibility.valid_until as u128, 8);
        digest.number(self.default_fund_contribution, 16);
        digest.field(&self.default_fund_defmi_lock_id);
        digest.field(&self.default_fund_proof_digest);
        digest.number(self.admitted_at as u128, 8);
        assert(digest.fields() =~= self.statement_fields());
        Ok(digest.finish())
    }
}

/// An admitted member.
#[derive(Clone, Copy, Debug, PartialEq, Eq)]
pub struct Participant {
    pub participant_id: Identifier,
    pub settlement_participant_id: Identifier,
    pub eligibility: EligibilityAttestation,
    pub default_fund_remaining: u128,
    pub default_fund_defmi_lock_id: Identifier,
    pub default_fund_proof_digest: Digest32,
    pub status: ParticipantStatus,
    pub admitted_at: u64,
}

impl View for Participant {
    type V = Participant;

    open spec fn view(&self) -> Participant {
        *self
    }
}

impl Record for Participant {
    fn duplicate(&self) -> (r: Self) {
        *self
    }
}

/// Where a collateral lot stands.
#[derive(Clone, Copy, Debug, PartialEq, Eq, Structural)]
pub enum CollateralStatus {
    Available,
    Released,
    Seized,
}

/// Collateral of a member, backed by a settlement-layer lock.
#[derive(Clone, Copy, Debug, PartialEq, Eq)]
pub struct CollateralLot {
    pub operation_id: Identifier,
    pub lot_id: Identifier,
    pub owner_id: Identifier,
    pub asset_id: Identifier,
    pub defmi_lock_id: Identifier,
    pub market_value: u128,
    pub haircut_basis_points: u16,
    pub valuation_policy_digest: Digest32,
    pub valuation_proof_digest: Digest32,
    pub valid_until: u64,
    pub status: CollateralStatus,
}

impl View for CollateralLot {
    type V = CollateralLot;

    open spec fn view(&self) -> CollateralLot {
        *self
    }
}

impl Record for CollateralLot {
    fn duplicate(&self) -> (r: Self) {
        *self
    }
}

impl CollateralLot {
    /// The market value after the haircut, rounded down.
    pub open spec fn value_after_haircut(self) -> int {
        self.market_value * (10_000 - self.haircut_basis_points) / 10_000
    }

    /// Why the lot has no eligible value: its haircut takes everything, or the
    /// product with the market value does not fit.
    pub open spec fn valuation_error(self) -> Option<DeCcpError> {
        if self.haircut_basis_points >= 10_000 {
            Some(DeCcpError::InvalidCollateral)
        } else if self.market_value * (10_000 - self.haircut_basis_points) > u128::MAX {
            Some(DeCcpError::ArithmeticOverflow)
        } else {
            None
        }
    }

    /// The value that counts against margin.
    pub fn eligible_value(&self) -> (r: Result<u128, DeCcpError>)
        ensures
            match self.valuation_error() {
                Some(error) => r == Err::<u128, DeCcpError>(error),
                None => r is Ok && r->Ok_0 == self.value_after_haircut(),
            },
    {
        if self.haircut_basis_points >= 10_000 {
            return Err(DeCcpError::InvalidCollateral);
        }
        match self.market_value.checked_mul((10_000 - self.haircut_basis_points) as u128) {
            Some(product) => Ok(product / 10_000),
            None => Err(DeCcpError::ArithmeticOverflow),
        }
    }

    /// Why the lot cannot be posted.
    pub open spec fn posting_error(self) -> Option<DeCcpError> {
        if has_zero(
            seq![
                self.operation_id,
                self.lot_id,
                self.owner_id,
                self.asset_id,
                self.defmi_lock_id,
                self.valuation_policy_digest,
                self.valuation_proof_digest,
            ],
        ) || self.market_value == 0 || self.valid_until == 0 || self.status
            != CollateralStatus::Available {
            Some(DeCcpError::InvalidCollateral)
        } else {
            self.valuation_error()
        }
    }

    /// Checks that the lot can be posted.
    pub fn validate(&self) -> (r: Result<(), DeCcpError>)
        ensures
            r == (match self.posting_error() {
                Some(error) => Err::<(), DeCcpError>(error),
                None => Ok(()),
            }),
    {
        let required = [
            self.operation_id,
            self.lot_id,
            self.owner_id,
            self.asset_id,
            self.defmi_lock_id,
            self.valuation_policy_digest,
            self.valuation_proof_digest,
        ];
        if any_zero(&required) || self.market_value == 0 || self.valid_until == 0 || self.status
            != CollateralStatus::Available {
            return Err(DeCcpError::InvalidCollateral);
        }
        match self.eligible_value() {
            Ok(_) => Ok(()),
            Err(error) => Err(error),
        }
    }
}

/// The margin that a member owes and the collateral set aside for it.
#[derive(Clone, Copy, Debug, PartialEq, Eq)]
pub struct MarginAccount {
    pub initial_margin: u128,
    pub variation_margin: u128,
    pub encumbered_collateral: u128,
    pub sequence: u64,
}

impl View for MarginAccount {
    type V = MarginAccount;

    open spec fn view(&self) -> MarginAccount {
        *self
    }
}

impl Record for MarginAccount {
    fn duplicate(&self) -> (r: Self) {
        *self
    }
}

impl Default for MarginAccount {
    fn default() -> (r: Self)
        ensures
            r == MarginAccount::opening(),
    {
        MarginAccount {
            initial_margin: 0,
            variation_margin: 0,
            encumbered_collateral: 0,
            sequence: 0,
        }
    }
}

impl MarginAccount {
    /// The account of a member that was just admitted.
    pub open spec fn opening() -> MarginAccount {
        MarginAccount {
            initial_margin: 0,
            variation_margin: 0,
            encumbered_collateral: 0,
            sequence: 0,
        }
    }

    /// Initial plus variation margin.
    pub fn required(&self) -> (r: Result<u128, DeCcpError>)
        ensures
            match r {
                Ok(total) => total == self.initial_margin + self.variation_margin,
                Err(error) => error == DeCcpError::ArithmeticOverflow && self.initial_margin
                    + self.variation_margin > u128::MAX,
            },
    {
        match self.initial_margin.checked_add(self.variation_margin) {
            Some(total) => Ok(total),
            None => Err(DeCcpError::ArithmeticOverflow),
        }
    }
}

/// A request to set a member's margin.
#[derive(Clone, Copy, Debug, PartialEq, Eq)]
pub struct MarginUpdate {
    pub operation_id: Identifier,
    pub participant_id: Identifier,
    pub initial_margin: u128,
    pub variation_margin: u128,
    pub expected_sequence: u64,
}

impl MarginUpdate {
    /// The digest that the authorities approve.
    pub open spec fn statement(self) -> Digest32 {
        margin_statement(
            self.operation_id,
            self.participant_id,
            self.initial_margin,
            self.variation_margin,
            self.expected_sequence,
        )
    }

    /// The digest that the authorities approve.
    pub fn statement_digest(&self) -> (r: Digest32)
        ensures
            r == self.statement(),
    {
        margin_approval_digest(
            &self.operation_id,
            &self.participant_id,
            self.initial_margin,
            self.variation_margin,
            self.expected_sequence,
        )
    }
}

/// The fields that the digest of a margin update covers.
pub open spec fn margin_fields(
    operation_id: Identifier,
    participant_id: Identifier,
    initial_margin: u128,
    variation_margin: u128,
    expected_sequence: u64,
) -> Seq<Seq<u8>> {
    seq![
        operation_id@,
        participant_id@,
        big_endian(initial_margin as nat, 16),
        big_endian(variation_margin as nat, 16),
        big_endian(expected_sequence as nat, 8),
    ]
}

/// The digest that the authorities approve for a margin update.
pub open spec fn margin_statement(
    operation_id: Identifier,
    participant_id: Identifier,
    initial_margin: u128,
    variation_margin: u128,
    expected_sequence: u64,
) -> Digest32 {
    digest_of_fields(
        "DECCP:MARGIN:v1",
        margin_fields(
            operation_id,
            participant_id,
            initial_margin,
            variation_margin,
            expected_sequence,
        ),
    )
}

/// The digest that the authorities approve for a margin update.
pub fn margin_approval_digest(
    operation_id: &Identifier,
    participant_id: &Identifier,
    initial_margin: u128,
    variation_margin: u128,
    expected_sequence: u64,
) -> (r: Digest32)
    ensures
        r == margin_statement(
            *operation_id,
            *participant_id,
            initial_margin,
            variation_margin,
            expected_sequence,
        ),
{
    let mut digest = FieldDigest::new("DECCP:MARGIN:v1");
    digest.field(operation_id);
    digest.field(participant_id);
    digest.number(initial_margin, 16);
    digest.number(variation_margin, 16);
    digest.number(expected_sequence as u128, 8);
    assert(digest.fields() =~= margin_fields(
        *operation_id,
        *participant_id,
        initial_margin,
        variation_margin,
        expected_sequence,
    ));
    digest.finish()
}

/// The capital with which a counterparty is opened.
#[derive(Clone, Copy, Debug, PartialEq, Eq)]
pub struct CcpCapitalization {
    pub amount: u128,
    pub defmi_lock_id: Identifier,
    pub proof_digest: Digest32,
    pub valid_until: u64,
}

} // verus!
