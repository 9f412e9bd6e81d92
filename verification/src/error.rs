//! Why a request was refused.

use vstd::prelude::*;

verus! {

/// Every reason for which the clearing book or an authority set refuses a
/// request.
#[derive(Clone, Debug, PartialEq, Eq)]
pub enum DeCcpError {
    InvalidAuthoritySet,
    InvalidQuorumApproval,
    InsufficientQuorum,
    InvalidCapital,
    InvalidParticipant,
    DuplicateParticipant,
    UnknownParticipant,
    ParticipantNotActive,
    EligibilityRejected(String),
    DeFmiEvidenceRejected(String),
    InstructionRejected(String),
    InvalidCollateral,
    DuplicateDeFmiReference,
    InvalidMargin,
    InsufficientCollateral,
    InsufficientMargin,
    StaleSequence,
    InvalidCycle,
    UnknownCycle,
    CycleNotOpen,
    InvalidObligation,
    DuplicateObligation,
    InvalidNettingProposal,
    ConservationFailure,
    InvalidSettlementReceipt,
    InvalidGuaranteeFacility,
    UnknownGuaranteeFacility,
    InvalidGuaranteeReservation,
    GuaranteeCapacityExceeded,
    UnknownGuaranteeHold,
    GuaranteeHoldUnavailable,
    InvalidGuaranteeClaim,
    InvalidDefault,
    UnknownDefault,
    DefaultAlreadyResolved,
    InvalidDefaultResolution,
    WaterfallExhausted,
    ReplayOrStaleOperation,
    ArithmeticOverflow,
    InvalidState,
}

/// The sentence that describes an error.
pub open spec fn error_text(error: DeCcpError) -> Seq<char> {
    match error {
        DeCcpError::InvalidAuthoritySet => "authority set is invalid"@,
        DeCcpError::InvalidQuorumApproval => "quorum approval is invalid"@,
        DeCcpError::InsufficientQuorum => "quorum threshold is not met"@,
        DeCcpError::InvalidCapital => "CCP capital must be positive"@,
        DeCcpError::InvalidParticipant => "participant admission is invalid"@,
        DeCcpError::DuplicateParticipant => "participant is already registered"@,
        DeCcpError::UnknownParticipant => "participant is unknown"@,
        DeCcpError::ParticipantNotActive => "participant is not active or its eligibility expired"@,
        DeCcpError::EligibilityRejected(reason) => "eligibility rejected: "@ + reason@,
        DeCcpError::DeFmiEvidenceRejected(reason) => "DeFMI evidence rejected: "@ + reason@,
        DeCcpError::InstructionRejected(reason) => "settlement instruction rejected: "@ + reason@,
        DeCcpError::InvalidCollateral => "collateral is invalid"@,
        DeCcpError::DuplicateDeFmiReference =>
            "DeFMI lock or hold reference is already assigned to another resource"@,
        DeCcpError::InvalidMargin => "margin request is invalid"@,
        DeCcpError::InsufficientCollateral => "eligible collateral is insufficient"@,
        DeCcpError::InsufficientMargin => "net exposure exceeds encumbered margin"@,
        DeCcpError::StaleSequence => "state sequence is stale"@,
        DeCcpError::InvalidCycle => "cycle is invalid"@,
        DeCcpError::UnknownCycle => "cycle is unknown"@,
        DeCcpError::CycleNotOpen => "cycle is not open"@,
        DeCcpError::InvalidObligation => "obligation is invalid"@,
        DeCcpError::DuplicateObligation => "obligation is duplicate"@,
        DeCcpError::InvalidNettingProposal => "netting proposal is invalid"@,
        DeCcpError::ConservationFailure => "netting conservation failed"@,
        DeCcpError::InvalidSettlementReceipt => "DeFMI settlement receipt is invalid"@,
        DeCcpError::InvalidGuaranteeFacility => "guarantee facility is invalid"@,
        DeCcpError::UnknownGuaranteeFacility => "guarantee facility is unknown"@,
        DeCcpError::InvalidGuaranteeReservation => "guarantee reservation is invalid"@,
        DeCcpError::GuaranteeCapacityExceeded => "guarantee capacity is exceeded"@,
        DeCcpError::UnknownGuaranteeHold => "guarantee hold is unknown"@,
        DeCcpError::GuaranteeHoldUnavailable => "guarantee hold is unavailable"@,
        DeCcpError::InvalidGuaranteeClaim => "guarantee claim is invalid"@,
        DeCcpError::InvalidDefault => "default declaration is invalid"@,
        DeCcpError::UnknownDefault => "default case is unknown"@,
        DeCcpError::DefaultAlreadyResolved => "default case is already resolved"@,
        DeCcpError::InvalidDefaultResolution => "default resolution is invalid"@,
        DeCcpError::WaterfallExhausted => "loss exceeds all waterfall resources"@,
        DeCcpError::ReplayOrStaleOperation => "operation was replayed or stale"@,
        DeCcpError::ArithmeticOverflow => "arithmetic overflow"@,
        DeCcpError::InvalidState => "stored clearing state is inconsistent"@,
    }
}

fn with_reason(prefix: &str, reason: &String) -> (r: String)
    ensures
        r@ == prefix@ + reason@,
{
    prefix.to_owned().concat(reason.as_str())
}

impl DeCcpError {
    /// The sentence that describes this error.
    pub fn message(&self) -> (r: String)
        ensures
            r@ == error_text(*self),
    {
        match self {
            DeCcpError::InvalidAuthoritySet => "authority set is invalid".to_owned(),
            DeCcpError::InvalidQuorumApproval => "quorum approval is invalid".to_owned(),
            DeCcpError::InsufficientQuorum => "quorum threshold is not met".to_owned(),
            DeCcpError::InvalidCapital => "CCP capital must be positive".to_owned(),
            DeCcpError::InvalidParticipant => "participant admission is invalid".to_owned(),
            DeCcpError::DuplicateParticipant => "participant is already registered".to_owned(),
            DeCcpError::UnknownParticipant => "participant is unknown".to_owned(),
            DeCcpError::ParticipantNotActive =>
                "participant is not active or its eligibility expired".to_owned(),
            DeCcpError::EligibilityRejected(reason) => with_reason("eligibility rejected: ", reason),
            DeCcpError::DeFmiEvidenceRejected(reason) =>
                with_reason("DeFMI evidence rejected: ", reason),
            DeCcpError::InstructionRejected(reason) =>
                with_reason("settlement instruction rejected: ", reason),
            DeCcpError::InvalidCollateral => "collateral is invalid".to_owned(),
            DeCcpError::DuplicateDeFmiReference =>
                "DeFMI lock or hold reference is already assigned to another resource".to_owned(),
            DeCcpError::InvalidMargin => "margin request is invalid".to_owned(),
            DeCcpError::InsufficientCollateral => "eligible collateral is insufficient".to_owned(),
            DeCcpError::InsufficientMargin => "net exposure exceeds encumbered margin".to_owned(),
            DeCcpError::StaleSequence => "state sequence is stale".to_owned(),
            DeCcpError::InvalidCycle => "cycle is invalid".to_owned(),
            DeCcpError::UnknownCycle => "cycle is unknown".to_owned(),
            DeCcpError::CycleNotOpen => "cycle is not open".to_owned(),
            DeCcpError::InvalidObligation => "obligation is invalid".to_owned(),
            DeCcpError::DuplicateObligation => "obligation is duplicate".to_owned(),
            DeCcpError::InvalidNettingProposal => "netting proposal is invalid".to_owned(),
            DeCcpError::ConservationFailure => "netting conservation failed".to_owned(),
            DeCcpError::InvalidSettlementReceipt => "DeFMI settlement receipt is invalid".to_owned(),
            DeCcpError::InvalidGuaranteeFacility => "guarantee facility is invalid".to_owned(),
            DeCcpError::UnknownGuaranteeFacility => "guarantee facility is unknown".to_owned(),
            DeCcpError::InvalidGuaranteeReservation => "guarantee reservation is invalid".to_owned(),
            DeCcpError::GuaranteeCapacityExceeded => "guarantee capacity is exceeded".to_owned(),
            DeCcpError::UnknownGuaranteeHold => "guarantee hold is unknown".to_owned(),
            DeCcpError::GuaranteeHoldUnavailable => "guarantee hold is unavailable".to_owned(),
            DeCcpError::InvalidGuaranteeClaim => "guarantee claim is invalid".to_owned(),
            DeCcpError::InvalidDefault => "default declaration is invalid".to_owned(),
            DeCcpError::UnknownDefault => "default case is unknown".to_owned(),
            DeCcpError::DefaultAlreadyResolved => "default case is already resolved".to_owned(),
            DeCcpError::InvalidDefaultResolution => "default resolution is invalid".to_owned(),
            DeCcpError::WaterfallExhausted => "loss exceeds all waterfall resources".to_owned(),
            DeCcpError::ReplayOrStaleOperation => "operation was replayed or stale".to_owned(),
            DeCcpError::ArithmeticOverflow => "arithmetic overflow".to_owned(),
            DeCcpError::InvalidState => "stored clearing state is inconsistent".to_owned(),
        }
    }
}

} // verus!
