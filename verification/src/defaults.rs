//! Defaults: the evidence, the loss waterfall, and its resolution.

use vstd::prelude::*;

use crate::ident::{same_id, same_slot, Digest32, Identifier, ZERO};
use crate::map::Record;
use crate::transcript::{big_endian, bytes_of, digest_of_fields, sha256_of, FieldDigest, Transcript};

verus! {

/// What was observed about a member's default.
#[derive(Clone, Copy, Debug, PartialEq, Eq)]
pub struct DefaultEvidence {
    pub event_id: Identifier,
    pub source_id: Identifier,
    pub participant_id: Identifier,
    pub event_digest: Digest32,
    pub observed_at: u64,
}

impl View for DefaultEvidence {
    type V = DefaultEvidence;

    open spec fn view(&self) -> DefaultEvidence {
        *self
    }
}

/// The layers of the loss waterfall, in the order in which they are drawn.
#[derive(Clone, Copy, Debug, PartialEq, Eq, Structural)]
pub enum DefaultSourceKind {
    DefaulterMargin,
    DefaulterFund,
    MutualizedFund,
    CcpCapital,
}

impl DefaultSourceKind {
    /// The byte that stands for the layer in a digest.
    pub open spec fn tag(self) -> u8 {
        match self {
            DefaultSourceKind::DefaulterMargin => 1u8,
            DefaultSourceKind::DefaulterFund => 2u8,
            DefaultSourceKind::MutualizedFund => 3u8,
            DefaultSourceKind::CcpCapital => 4u8,
        }
    }

    fn default_source_tag(self) -> (r: u8)
        ensures
            r == self.tag(),
    {
        match self {
            DefaultSourceKind::DefaulterMargin => 1,
            DefaultSourceKind::DefaulterFund => 2,
            DefaultSourceKind::MutualizedFund => 3,
            DefaultSourceKind::CcpCapital => 4,
        }
    }
}

/// What one layer, and in it one member, pays towards a loss.
#[derive(Clone, Copy, Debug, PartialEq, Eq)]
pub struct WaterfallDraw {
    pub source_kind: DefaultSourceKind,
    pub participant_id: Option<Identifier>,
    pub amount: u128,
}

impl View for WaterfallDraw {
    type V = WaterfallDraw;

    open spec fn view(&self) -> WaterfallDraw {
        *self
    }
}

impl WaterfallDraw {
    fn same(&self, other: &WaterfallDraw) -> (r: bool)
        ensures
            r == (*self == *other),
    {
        self.source_kind == other.source_kind && same_slot(
            &self.participant_id,
            &other.participant_id,
        ) && self.amount == other.amount
    }
}

/// How a loss is covered.
#[derive(Debug, PartialEq, Eq)]
pub struct DefaultResolution {
    pub case_id: Identifier,
    pub participant_id: Identifier,
    pub shortfall: u128,
    pub draws: Vec<WaterfallDraw>,
    pub settlement_context_digest: Digest32,
    pub resolution_digest: Digest32,
}

/// What a resolution stands for.
#[verifier::ext_equal]
pub struct ResolutionView {
    pub case_id: Identifier,
    pub participant_id: Identifier,
    pub shortfall: u128,
    pub draws: Seq<WaterfallDraw>,
    pub settlement_context_digest: Digest32,
    pub resolution_digest: Digest32,
}

impl View for DefaultResolution {
    type V = ResolutionView;

    open spec fn view(&self) -> ResolutionView {
        ResolutionView {
            case_id: self.case_id,
            participant_id: self.participant_id,
            shortfall: self.shortfall,
            draws: self.draws@,
            settlement_context_digest: self.settlement_context_digest,
            resolution_digest: self.resolution_digest,
        }
    }
}

impl Record for DefaultResolution {
    fn duplicate(&self) -> (r: Self) {
        let mut draws: Vec<WaterfallDraw> = Vec::new();
        let mut i: usize = 0;
        while i < self.draws.len()
            invariant
                i <= self.draws@.len(),
                draws@ == self.draws@.take(i as int),
            decreases self.draws@.len() - i,
        {
            draws.push(self.draws[i]);
            i = i + 1;
            assert(draws@ =~= self.draws@.take(i as int));
        }
        assert(self.draws@.take(i as int) =~= self.draws@);
        DefaultResolution {
            case_id: self.case_id,
            participant_id: self.participant_id,
            shortfall: self.shortfall,
            draws,
            settlement_context_digest: self.settlement_context_digest,
            resolution_digest: self.resolution_digest,
        }
    }
}

impl Clone for DefaultResolution {
    fn clone(&self) -> (r: Self)
        ensures
            r@ == self@,
    {
        self.duplicate()
    }
}

impl DefaultResolution {
    /// Whether two resolutions are the same.
    pub fn matches(&self, other: &DefaultResolution) -> (r: bool)
        ensures
            r == (self@ == other@),
    {
        if !same_id(&self.case_id, &other.case_id) || !same_id(
            &self.participant_id,
            &other.participant_id,
        ) || self.shortfall != other.shortfall || !same_id(
            &self.settlement_context_digest,
            &other.settlement_context_digest,
        ) || !same_id(&self.resolution_digest, &other.resolution_digest) || self.draws.len()
            != other.draws.len() {
            return false;
        }
        let mut i: usize = 0;
        while i < self.draws.len()
            invariant
                self.draws@.len() == other.draws@.len(),
                i <= self.draws@.len(),
                forall|j: int| 0 <= j < i ==> self.draws@[j] == other.draws@[j],
            decreases self.draws@.len() - i,
        {
            if !self.draws[i].same(&other.draws[i]) {
                return false;
            }
            i = i + 1;
        }
        assert(self@ =~= other@);
        true
    }
}

/// A declared default.
#[derive(Debug, PartialEq, Eq)]
pub struct DefaultCase {
    pub case_id: Identifier,
    pub evidence: DefaultEvidence,
    pub declared_at: u64,
    pub resolution: Option<DefaultResolution>,
    pub defmi_settlement_receipt: Option<Digest32>,
}

/// What a default case stands for.
#[verifier::ext_equal]
pub struct CaseView {
    pub case_id: Identifier,
    pub evidence: DefaultEvidence,
    pub declared_at: u64,
    pub resolution: Option<ResolutionView>,
    pub defmi_settlement_receipt: Option<Digest32>,
}

impl View for DefaultCase {
    type V = CaseView;

    open spec fn view(&self) -> CaseView {
        CaseView {
            case_id: self.case_id,
            evidence: self.evidence,
            declared_at: self.declared_at,
            resolution: match self.resolution {
                Some(resolution) => Some(resolution@),
                None => None,
            },
            defmi_settlement_receipt: self.defmi_settlement_receipt,
        }
    }
}

impl Record for DefaultCase {
    fn duplicate(&self) -> (r: Self) {
        DefaultCase {
            case_id: self.case_id,
            evidence: self.evidence,
            declared_at: self.declared_at,
            resolution: match &self.resolution {
                Some(resolution) => Some(resolution.duplicate()),
                None => None,
            },
            defmi_settlement_receipt: self.defmi_settlement_receipt,
        }
    }
}

impl Clone for DefaultCase {
    fn clone(&self) -> (r: Self)
        ensures
            r@ == self@,
    {
        self.duplicate()
    }
}

/// The fields that the digest of a default declaration covers.
pub open spec fn default_fields(
    operation_id: Identifier,
    case_id: Identifier,
    evidence: DefaultEvidence,
    now: u64,
) -> Seq<Seq<u8>> {
    seq![
        operation_id@,
        case_id@,
        evidence.event_id@,
        evidence.source_id@,
        evidence.participant_id@,
        evidence.event_digest@,
        big_endian(evidence.observed_at as nat, 8),
        big_endian(now as nat, 8),
    ]
}

/// The digest that the authorities approve for a default declaration.
pub open spec fn default_statement(
    operation_id: Identifier,
    case_id: Identifier,
    evidence: DefaultEvidence,
    now: u64,
) -> Digest32 {
    digest_of_fields(
        "DECCP:DECLARE-DEFAULT:v1",
        default_fields(operation_id, case_id, evidence, now),
    )
}

/// The digest that the authorities approve for a default declaration.
pub fn default_declaration_approval_digest(
    operation_id: &Identifier,
    case_id: &Identifier,
    evidence: &DefaultEvidence,
    now: u64,
) -> (r: Digest32)
    ensures
        r == default_statement(*operation_id, *case_id, *evidence, now),
{
    let mut digest = FieldDigest::new("DECCP:DECLARE-DEFAULT:v1");
    digest.field(operation_id);
    digest.field(case_id);
    digest.field(&evidence.event_id);
    digest.field(&evidence.source_id);
    digest.field(&evidence.participant_id);
    digest.field(&evidence.event_digest);
    digest.number(evidence.observed_at as u128, 8);
    digest.number(now as u128, 8);
    assert(digest.fields() =~= default_fields(*operation_id, *case_id, *evidence, now));
    digest.finish()
}

/// The bytes of one draw in a digest. A draw on no member's account is written
/// with the all-zero identifier.
pub open spec fn draw_bytes(draw: WaterfallDraw) -> Seq<u8> {
    seq![draw.source_kind.tag()] + (match draw.participant_id {
        Some(id) => id@,
        None => ZERO@,
    }) + big_endian(draw.amount as nat, 16)
}

/// The bytes of draws, one after another.
pub open spec fn draws_bytes(draws: Seq<WaterfallDraw>) -> Seq<u8>
    decreases draws.len(),
{
    if draws.len() == 0 {
        Seq::empty()
    } else {
        draws_bytes(draws.drop_last()) + draw_bytes(draws.last())
    }
}

fn put_draws(transcript: &mut Transcript, draws: &Vec<WaterfallDraw>)
    ensures
        final(transcript)@ == old(transcript)@ + draws_bytes(draws@),
{
    let ghost head = transcript@;
    let mut i: usize = 0;
    assert(transcript@ =~= head + draws_bytes(draws@.take(0)));
    while i < draws.len()
        invariant
            i <= draws@.len(),
            transcript@ == head + draws_bytes(draws@.take(i as int)),
        decreases draws@.len() - i,
    {
        let draw = &draws[i];
        let tag = [draw.source_kind.default_source_tag()];
        assert(tag@ =~= seq![draw.source_kind.tag()]);
        transcript.put(&tag);
        match &draw.participant_id {
            Some(id) => transcript.put(id),
            None => transcript.put(&ZERO),
        }
        transcript.put_number(draw.amount, 16);
        proof {
            assert(draws@.take(i + 1).drop_last() =~= draws@.take(i as int));
            assert(draws@.take(i + 1).last() == *draw);
            assert(transcript@ =~= head + (draws_bytes(draws@.take(i as int)) + draw_bytes(*draw)));
        }
        i = i + 1;
    }
    assert(draws@.take(i as int) =~= draws@);
}

/// The context that the settlement of a resolution must bind.
pub open spec fn settlement_context(case_id: Identifier, draws: Seq<WaterfallDraw>) -> Digest32 {
    sha256_of(bytes_of("DECCP:DEFAULT-SETTLEMENT-CONTEXT:v1") + case_id@ + draws_bytes(draws))
}

pub(crate) fn default_settlement_context(case_id: &Identifier, draws: &Vec<WaterfallDraw>) -> (r:
    Digest32)
    ensures
        r == settlement_context(*case_id, draws@),
{
    let mut transcript = Transcript::new("DECCP:DEFAULT-SETTLEMENT-CONTEXT:v1");
    transcript.put(case_id);
    put_draws(&mut transcript, draws);
    transcript.digest()
}

/// The digest that the authorities approve for a resolution.
pub open spec fn resolution_statement(
    case_id: Identifier,
    participant_id: Identifier,
    shortfall: u128,
    draws: Seq<WaterfallDraw>,
    context: Digest32,
) -> Digest32 {
    sha256_of(
        bytes_of("DECCP:DEFAULT-RESOLUTION:v1") + case_id@ + participant_id@ + big_endian(
            shortfall as nat,
            16,
        ) + context@ + draws_bytes(draws),
    )
}

pub(crate) fn default_resolution_digest(
    case_id: &Identifier,
    participant_id: &Identifier,
    shortfall: u128,
    draws: &Vec<WaterfallDraw>,
    context: &Digest32,
) -> (r: Digest32)
    ensures
        r == resolution_statement(*case_id, *participant_id, shortfall, draws@, *context),
{
    let mut transcript = Transcript::new("DECCP:DEFAULT-RESOLUTION:v1");
    transcript.put(case_id);
    transcript.put(participant_id);
    transcript.put_number(shortfall, 16);
    transcript.put(context);
    put_draws(&mut transcript, draws);
    transcript.digest()
}

} // verus!
