use deccp::{
    confidential_guarantee_facility_approval_digest, confidential_guarantee_release_context,
    confidential_guarantee_claim_context,
    default_declaration_approval_digest, guarantee_claim_context,
    guarantee_facility_approval_digest, guarantee_release_context, margin_approval_digest,
    open_cycle_approval_digest, AethelDeCcpAdapter, AethelGuaranteeOffer, AethelLossLayer,
    AuthorityMember, AuthoritySet, CcpCapitalization, ClearingBook, ClearingObligation,
    CollateralLot, CollateralStatus, ConfidentialGuaranteeClaimRequest,
    ConfidentialGuaranteeFacility, ConfidentialGuaranteeHold, ConfidentialGuaranteeReleaseRequest,
    ConfidentialGuaranteeReservation, CycleStatus, DeCcpError, DeFmiPort, DefaultEvidence,
    DefaultSourceKind, DefmiSettlementReceipt, EligibilityAttestation, EligibilityPort, Encoded,
    GuaranteeClaimRequest, GuaranteeFacility, GuaranteeFacilityStatus, GuaranteeHold,
    GuaranteeHoldStatus, GuaranteeReservation, InstructionPort, KeyPurpose, KeyRecord,
    MarginAccount, MarginUpdate, NettingMode, OpenCycleRequest, ParticipantAdmission,
    ParticipantStatus, QuorumApproval, SignatureVerdict, SignedSubject, SignerReply, SuiteId,
    VerifiedAdmission,
};
use deccp::json::{id_key, parse_id_key, valid_hex_id};
use ed25519_dalek::{Signature, Signer, SigningKey, Verifier, VerifyingKey};
use sha2::{Digest, Sha256};

fn id(byte: u8) -> [u8; 32] {
    [byte; 32]
}

/// One authority of a fixture: its member identifier, its Ed25519 key, and the
/// post-quantum half of its public key.
struct Signatory {
    member_id: [u8; 32],
    classical: SigningKey,
    post_quantum: Vec<u8>,
}

impl Signatory {
    fn new(index: u8, seed: u8) -> Self {
        Self {
            member_id: id(index),
            classical: SigningKey::from_bytes(&[seed + index; 32]),
            post_quantum: vec![seed + index; 48],
        }
    }

    fn public_key(&self) -> Vec<u8> {
        let mut key = self.classical.verifying_key().to_bytes().to_vec();
        key.extend_from_slice(&self.post_quantum);
        key
    }

    fn record(&self) -> KeyRecord {
        let name = self.member_id[0];
        KeyRecord {
            participant_id: format!("participant-{name}"),
            key_id: format!("key-{name}"),
            key_version: 1,
            suite: SuiteId::Ed25519MlDsa65,
            purpose: KeyPurpose::Governance,
            public_key: self.public_key(),
            passed_record_check: true,
            encoding: format!("{{\"keyId\":\"key-{name}\"}}").into_bytes(),
        }
    }

    fn reply(&self, message: &[u8; 32]) -> SignerReply {
        let mut signature = self.classical.sign(message).to_bytes().to_vec();
        signature.extend_from_slice(&self.post_quantum);
        SignerReply {
            member_id: self.member_id,
            public_key: self.public_key(),
            signature: Some(signature),
        }
    }
}

struct Fixture {
    authorities: AuthoritySet,
    keys: Vec<Signatory>,
}

impl Fixture {
    fn new() -> Self {
        Self::seeded(100, 3)
    }

    fn seeded(seed: u8, count: u8) -> Self {
        let keys: Vec<_> = (1..=count).map(|index| Signatory::new(index, seed)).collect();
        let authorities = AuthoritySet {
            epoch: 1,
            threshold: 2,
            members: keys
                .iter()
                .map(|key| AuthorityMember {
                    member_id: key.member_id,
                    key: key.record(),
                })
                .collect(),
        };
        Self { authorities, keys }
    }

    fn approval(&self, statement: [u8; 32], now: u64) -> QuorumApproval {
        self.signed_by(&[0, 1], statement, now)
    }

    /// Collects signatures and records what a key service that checks them at
    /// `now` would report.
    fn signed_by(&self, signers: &[usize], statement: [u8; 32], now: u64) -> QuorumApproval {
        let replies: Vec<SignerReply> = signers
            .iter()
            .map(|index| {
                let key = &self.keys[*index];
                let message = self
                    .authorities
                    .signing_message(&statement, &key.member_id)
                    .unwrap();
                key.reply(&message)
            })
            .collect();
        let mut approval = QuorumApproval::sign(&self.authorities, statement, &replies).unwrap();
        for signed in approval.signatures.iter_mut() {
            let key = self
                .keys
                .iter()
                .find(|key| key.member_id == signed.member_id)
                .unwrap();
            let message = self
                .authorities
                .signing_message(&statement, &key.member_id)
                .unwrap();
            let classical = Signature::from_slice(&signed.signature[..64]).unwrap();
            assert!(key.classical.verifying_key().verify(&message, &classical).is_ok());
            signed.verdict = SignatureVerdict {
                verified_for: Some(SignedSubject {
                    purpose: KeyPurpose::Governance,
                    public_key: key.public_key(),
                    message,
                }),
                key_valid_at: Some(now),
            };
        }
        approval
    }
}

struct Eligibility;

struct Instructions;
struct RejectInstructions;

impl InstructionPort for Instructions {
    fn verify_obligation(&self, obligation: &ClearingObligation, _now: u64) -> Result<(), String> {
        (obligation.zkpi_digest != [0; 32])
            .then_some(())
            .ok_or_else(|| "zkPI was not verified".into())
    }
}

impl InstructionPort for RejectInstructions {
    fn verify_obligation(&self, _obligation: &ClearingObligation, _now: u64) -> Result<(), String> {
        Err("zkPI proof rejected".into())
    }
}

impl EligibilityPort for Eligibility {
    fn verify(
        &self,
        evidence: &EligibilityAttestation,
        now: u64,
    ) -> Result<VerifiedAdmission, String> {
        if evidence.valid_until < now {
            return Err("expired".into());
        }
        Ok(VerifiedAdmission {
            provider_id: evidence.provider_id,
            subject_line_id: evidence.subject_line_id,
            policy_digest: evidence.policy_digest,
            evidence_digest: evidence.evidence_digest,
            valid_until: evidence.valid_until,
        })
    }
}

struct Defmi;

impl DeFmiPort for Defmi {
    fn verify_ccp_capital(
        &self,
        capitalization: &CcpCapitalization,
        now: u64,
    ) -> Result<(), String> {
        (capitalization.valid_until >= now)
            .then_some(())
            .ok_or_else(|| "expired CCP capital".into())
    }

    fn verify_default_fund(
        &self,
        admission: &ParticipantAdmission,
        _now: u64,
    ) -> Result<(), String> {
        (admission.default_fund_contribution > 0)
            .then_some(())
            .ok_or_else(|| "empty default fund".into())
    }

    fn verify_collateral_lock(&self, lot: &CollateralLot, now: u64) -> Result<(), String> {
        (lot.valid_until >= now)
            .then_some(())
            .ok_or_else(|| "expired collateral lock".into())
    }

    fn verify_guarantee_facility(
        &self,
        facility: &GuaranteeFacility,
        now: u64,
    ) -> Result<(), String> {
        (facility.valid_until >= now)
            .then_some(())
            .ok_or_else(|| "expired facility".into())
    }

    fn verify_guarantee_hold(
        &self,
        reservation: &GuaranteeReservation,
        now: u64,
    ) -> Result<(), String> {
        (reservation.valid_until >= now)
            .then_some(())
            .ok_or_else(|| "expired hold".into())
    }

    fn verify_confidential_guarantee_facility(
        &self,
        facility: &ConfidentialGuaranteeFacility,
        now: u64,
    ) -> Result<(), String> {
        (facility.valid_until >= now && facility.latest_facility_state_digest != [0; 32])
            .then_some(())
            .ok_or_else(|| "invalid confidential facility".into())
    }

    fn verify_confidential_guarantee_hold(
        &self,
        facility: &ConfidentialGuaranteeFacility,
        reservation: &ConfidentialGuaranteeReservation,
        now: u64,
    ) -> Result<(), String> {
        (reservation.valid_until >= now
            && reservation.expected_facility_state_digest == facility.latest_facility_state_digest
            && reservation.after_facility_state_digest
                != reservation.expected_facility_state_digest)
            .then_some(())
            .ok_or_else(|| "invalid confidential hold transition".into())
    }

    fn verify_confidential_guarantee_release(
        &self,
        facility: &ConfidentialGuaranteeFacility,
        hold: &ConfidentialGuaranteeHold,
        request: &ConfidentialGuaranteeReleaseRequest,
        now: u64,
    ) -> Result<(), String> {
        (hold.facility_id == facility.facility_id
            && request.expected_facility_state_digest == facility.latest_facility_state_digest
            && request.receipt.context_digest == confidential_guarantee_release_context(request)
            && request.receipt.finalized_at <= now)
            .then_some(())
            .ok_or_else(|| "invalid confidential release transition".into())
    }

    fn verify_confidential_guarantee_claim(
        &self,
        facility: &ConfidentialGuaranteeFacility,
        hold: &ConfidentialGuaranteeHold,
        request: &ConfidentialGuaranteeClaimRequest,
        now: u64,
    ) -> Result<(), String> {
        (hold.facility_id == facility.facility_id
            && request.expected_facility_state_digest == facility.latest_facility_state_digest
            && request.receipt.context_digest == confidential_guarantee_claim_context(request)
            && request.receipt.finalized_at <= now)
            .then_some(())
            .ok_or_else(|| "invalid confidential claim transition".into())
    }

    fn verify_guarantee_release(
        &self,
        expected_context: &[u8; 32],
        receipt: &DefmiSettlementReceipt,
        now: u64,
    ) -> Result<(), String> {
        (&receipt.context_digest == expected_context && receipt.finalized_at <= now)
            .then_some(())
            .ok_or_else(|| "wrong release".into())
    }

    fn verify_settlement(
        &self,
        expected_context: &[u8; 32],
        receipt: &DefmiSettlementReceipt,
        now: u64,
    ) -> Result<(), String> {
        (&receipt.context_digest == expected_context && receipt.finalized_at <= now)
            .then_some(())
            .ok_or_else(|| "wrong or non-final receipt".into())
    }
}

fn admission(operation: u8, participant: u8, subject: u8, fund: u128) -> ParticipantAdmission {
    ParticipantAdmission {
        operation_id: id(operation),
        participant_id: id(participant),
        settlement_participant_id: id(participant + 40),
        eligibility: EligibilityAttestation {
            provider_id: id(90),
            subject_line_id: id(subject),
            policy_digest: id(91),
            evidence_digest: id(operation + 1),
            valid_until: 1_000,
        },
        default_fund_contribution: fund,
        default_fund_defmi_lock_id: id(operation + 20),
        default_fund_proof_digest: id(operation + 30),
        admitted_at: 100,
    }
}

fn enroll(book: &mut ClearingBook, fixture: &Fixture, request: ParticipantAdmission) {
    let approval = fixture.approval(request.statement_digest().unwrap(), 100);
    book.admit_participant(request, &Eligibility, &approval, &Defmi, 100)
        .unwrap();
}

fn new_book(fixture: &Fixture, capital: u128) -> ClearingBook {
    ClearingBook::new(
        fixture.authorities.clone(),
        CcpCapitalization {
            amount: capital,
            defmi_lock_id: id(80),
            proof_digest: id(81),
            valid_until: 1_000,
        },
        &Defmi,
        100,
    )
    .unwrap()
}

fn collateral(operation: u8, lot: u8, owner: u8, value: u128) -> CollateralLot {
    CollateralLot {
        operation_id: id(operation),
        lot_id: id(lot),
        owner_id: id(owner),
        asset_id: id(70),
        defmi_lock_id: id(lot + 20),
        market_value: value,
        haircut_basis_points: 0,
        valuation_policy_digest: id(71),
        valuation_proof_digest: id(lot + 30),
        valid_until: 900,
        status: CollateralStatus::Available,
    }
}

fn hex(digest: &[u8; 32]) -> String {
    String::from_utf8(id_key(digest)).unwrap()
}

/// A digest over a domain tag and length-prefixed fields.
fn fields_digest(domain: &str, fields: &[&[u8]]) -> [u8; 32] {
    let mut hash = Sha256::new();
    hash.update(domain.as_bytes());
    for field in fields {
        hash.update((field.len() as u32).to_be_bytes());
        hash.update(field);
    }
    hash.finalize().into()
}

struct DenyAll;

impl EligibilityPort for DenyAll {
    fn verify(
        &self,
        _evidence: &EligibilityAttestation,
        _now: u64,
    ) -> Result<VerifiedAdmission, String> {
        Err("unknown subject".into())
    }
}

/// An eligibility service that confirms another subject line.
struct OtherSubject;

impl EligibilityPort for OtherSubject {
    fn verify(
        &self,
        evidence: &EligibilityAttestation,
        _now: u64,
    ) -> Result<VerifiedAdmission, String> {
        Ok(VerifiedAdmission {
            provider_id: evidence.provider_id,
            subject_line_id: id(250),
            policy_digest: evidence.policy_digest,
            evidence_digest: evidence.evidence_digest,
            valid_until: evidence.valid_until,
        })
    }
}

fn set_margin(
    book: &mut ClearingBook,
    fixture: &Fixture,
    operation: u8,
    participant: u8,
    initial: u128,
    sequence: u64,
) -> Result<(), DeCcpError> {
    let request = MarginUpdate {
        operation_id: id(operation),
        participant_id: id(participant),
        initial_margin: initial,
        variation_margin: 0,
        expected_sequence: sequence,
    };
    let approval = fixture.approval(request.statement_digest(), 100);
    book.set_margin(request, &approval, 100)
}

fn open(
    book: &mut ClearingBook,
    fixture: &Fixture,
    operation: u8,
    cycle: u8,
    mode: NettingMode,
) -> Result<(), DeCcpError> {
    let request = OpenCycleRequest {
        operation_id: id(operation),
        cycle_id: id(cycle),
        mode,
        settlement_asset_id: id(70),
        policy_digest: id(72),
        opened_at: 100,
    };
    let approval = fixture.approval(request.statement_digest(), 100);
    book.open_cycle(request, &approval, 100)
}

fn owes(
    operation: u8,
    obligation: u8,
    payer: u8,
    payee: u8,
    asset: u8,
    amount: u128,
) -> ClearingObligation {
    ClearingObligation {
        operation_id: id(operation),
        obligation_id: id(obligation),
        cycle_id: id(50),
        payer_id: id(payer),
        payee_id: id(payee),
        asset_id: id(asset),
        amount,
        risk_value: amount,
        zkpi_digest: id(73),
    }
}

/// A book with three members that each posted collateral of 1000 and encumber
/// 900 of it.
fn funded_book(fixture: &Fixture) -> ClearingBook {
    let mut book = new_book(fixture, 500);
    for index in 0..3 {
        enroll(
            &mut book,
            fixture,
            admission(110 + 2 * index, 20 + index, 30 + index, 50),
        );
        book.post_collateral(collateral(120 + index, 160 + index, 20 + index, 1_000), &Defmi, 100)
            .unwrap();
        set_margin(&mut book, fixture, 125 + index, 20 + index, 900, 0).unwrap();
    }
    book
}

fn facility(capacity: u128) -> GuaranteeFacility {
    GuaranteeFacility {
        facility_id: id(60),
        guarantor_id: id(20),
        beneficiary_subject_line_id: id(61),
        settlement_asset_id: id(70),
        capacity,
        reserved: 0,
        consumed: 0,
        defmi_facility_id: id(62),
        policy_digest: id(63),
        valid_until: 900,
        sequence: 0,
        status: GuaranteeFacilityStatus::Active,
    }
}

fn register(
    book: &mut ClearingBook,
    fixture: &Fixture,
    operation: u8,
    facility: GuaranteeFacility,
) -> Result<(), DeCcpError> {
    let statement = guarantee_facility_approval_digest(&id(operation), &facility);
    let approval = fixture.approval(statement, 100);
    book.register_guarantee_facility(id(operation), facility, &approval, &Defmi, 100)
}

fn reservation(operation: u8, hold: u8, amount: u128, sequence: u64) -> GuaranteeReservation {
    GuaranteeReservation {
        operation_id: id(operation),
        hold_id: id(hold),
        facility_id: id(60),
        purpose_digest: id(64),
        amount,
        defmi_hold_id: id(hold + 1),
        relation_proof_digest: id(65),
        expected_facility_sequence: sequence,
        valid_until: 800,
    }
}

fn claim_on(operation: u8, hold: u8, exposure: u8) -> GuaranteeClaimRequest {
    GuaranteeClaimRequest {
        operation_id: id(operation),
        hold_id: id(hold),
        exposure_id: id(exposure),
        default_event_digest: id(68),
        receipt: DefmiSettlementReceipt {
            receipt_digest: id(69),
            context_digest: guarantee_claim_context(&id(hold), &id(exposure), &id(68)),
            finalized_at: 110,
        },
    }
}

fn default_of(
    book: &mut ClearingBook,
    fixture: &Fixture,
    operation: u8,
    case: u8,
    participant: u8,
    now: u64,
) -> Result<(), DeCcpError> {
    let evidence = DefaultEvidence {
        event_id: id(80),
        source_id: id(81),
        participant_id: id(participant),
        event_digest: id(82),
        observed_at: now,
    };
    let statement = default_declaration_approval_digest(&id(operation), &id(case), &evidence, now);
    let approval = fixture.approval(statement, now);
    book.declare_default(id(operation), id(case), evidence, &approval, now)
}

// ---------------------------------------------------------------- digests

#[test]
fn digests_are_sha256_over_length_prefixed_fields() {
    assert_eq!(
        hex(&guarantee_release_context(&id(1))),
        "59cab1a3e037d5dd3793c3b9c27a73ee56c02f65680645ef6d87d292b2f458ea"
    );
    assert_eq!(
        guarantee_claim_context(&id(1), &id(2), &id(3)),
        fields_digest("DECCP:GUARANTEE-CLAIM-CONTEXT:v1", &[&id(1), &id(2), &id(3)])
    );
    assert_eq!(
        hex(&margin_approval_digest(&id(1), &id(2), 300, 4, 5)),
        "78eaf8a719083dc9d31bc6a888a96591d0ad0889538e680d0c7798715d431207"
    );
    assert_eq!(
        hex(&open_cycle_approval_digest(
            &id(1),
            &id(2),
            NettingMode::GrossNet,
            &id(3),
            &id(4),
            5
        )),
        "9d6a07fabfc611346ac76f88f7c716e593279498d6c7613d50b0562450c28896"
    );
    let evidence = DefaultEvidence {
        event_id: id(3),
        source_id: id(4),
        participant_id: id(5),
        event_digest: id(6),
        observed_at: 7,
    };
    assert_eq!(
        default_declaration_approval_digest(&id(1), &id(2), &evidence, 8),
        fields_digest(
            "DECCP:DECLARE-DEFAULT:v1",
            &[
                &id(1),
                &id(2),
                &id(3),
                &id(4),
                &id(5),
                &id(6),
                &7u64.to_be_bytes(),
                &8u64.to_be_bytes(),
            ],
        )
    );
}

#[test]
fn admission_statement_covers_every_field() {
    let request = admission(10, 20, 30, 50);
    assert_eq!(
        request.statement_digest(),
        Ok(fields_digest(
            "DECCP:PARTICIPANT-ADMISSION:v1",
            &[
                &id(10),
                &id(20),
                &id(60),
                &id(90),
                &id(30),
                &id(91),
                &id(11),
                &1_000u64.to_be_bytes(),
                &50u128.to_be_bytes(),
                &id(30),
                &id(40),
                &100u64.to_be_bytes(),
            ],
        ))
    );
    let mut expired = request;
    expired.eligibility.valid_until = 99;
    assert_eq!(expired.statement_digest(), Err(DeCcpError::InvalidParticipant));
    let mut unfunded = request;
    unfunded.default_fund_contribution = 0;
    assert_eq!(unfunded.statement_digest(), Err(DeCcpError::InvalidParticipant));
    let mut anonymous = request;
    anonymous.participant_id = [0; 32];
    assert_eq!(anonymous.statement_digest(), Err(DeCcpError::InvalidParticipant));
}

#[test]
fn facility_statements_cover_every_field() {
    assert_eq!(
        guarantee_facility_approval_digest(&id(1), &facility(100)),
        fields_digest(
            "DECCP:GUARANTEE-FACILITY:v1",
            &[
                &id(1),
                &id(60),
                &id(20),
                &id(61),
                &id(70),
                &100u128.to_be_bytes(),
                &id(62),
                &id(63),
                &900u64.to_be_bytes(),
            ],
        )
    );
    assert_eq!(
        confidential_guarantee_facility_approval_digest(&id(1), &hidden_facility()),
        fields_digest(
            "DECCP:CONFIDENTIAL-GUARANTEE-FACILITY:v1",
            &[
                &id(1),
                &id(40),
                &id(20),
                &id(31),
                &id(70),
                &id(41),
                &id(42),
                &id(43),
                &id(44),
                &900u64.to_be_bytes(),
                &0u64.to_be_bytes(),
            ],
        )
    );
}

#[test]
fn proposal_and_legs_have_exact_digests() {
    let fixture = Fixture::new();
    let mut book = funded_book(&fixture);
    open(&mut book, &fixture, 130, 50, NettingMode::NetNet).unwrap();
    book.submit_obligation(owes(131, 51, 20, 21, 70, 100), &Instructions, 100)
        .unwrap();
    let proposal = book.prepare_close(&id(50)).unwrap();
    let leaf = fields_digest(
        "DECCP:OBLIGATION:v1",
        &[
            &id(131),
            &id(51),
            &id(50),
            &id(20),
            &id(21),
            &id(70),
            &100u128.to_be_bytes(),
            &100u128.to_be_bytes(),
            &id(73),
        ],
    );
    let mut root = Sha256::new();
    root.update(b"DECCP:OBLIGATION-ROOT:v1");
    root.update(1u32.to_be_bytes());
    root.update(leaf);
    let root: [u8; 32] = root.finalize().into();
    assert_eq!(proposal.obligation_root, root);
    let context = fields_digest(
        "DECCP:ZKPI-CONTEXT:v1",
        &[&id(50), &id(20), &id(21), &id(70), &100u128.to_be_bytes(), &root],
    );
    assert_eq!(proposal.legs[0].instruction_context_digest, context);
    let mut digest = Sha256::new();
    digest.update(b"DECCP:NETTING-PROPOSAL:v1");
    digest.update(id(50));
    digest.update([3u8]);
    digest.update(root);
    digest.update(1u32.to_be_bytes());
    digest.update(id(20));
    digest.update(id(21));
    digest.update(id(70));
    digest.update(100u128.to_be_bytes());
    digest.update(context);
    digest.update(64u32.to_be_bytes());
    digest.update(hex(&id(20)).as_bytes());
    digest.update(100u128.to_be_bytes());
    let digest: [u8; 32] = digest.finalize().into();
    assert_eq!(proposal.proposal_digest, digest);
}

#[test]
fn resolution_digests_are_exact() {
    let fixture = Fixture::new();
    let mut book = new_book(&fixture, 100);
    enroll(&mut book, &fixture, admission(10, 20, 30, 40));
    default_of(&mut book, &fixture, 11, 63, 20, 120).unwrap();
    let resolution = book.prepare_default_resolution(&id(63), 60).unwrap();
    let mut draws: Vec<u8> = Vec::new();
    draws.push(2);
    draws.extend_from_slice(&id(20));
    draws.extend_from_slice(&40u128.to_be_bytes());
    draws.push(4);
    draws.extend_from_slice(&[0; 32]);
    draws.extend_from_slice(&20u128.to_be_bytes());
    let mut context = Sha256::new();
    context.update(b"DECCP:DEFAULT-SETTLEMENT-CONTEXT:v1");
    context.update(id(63));
    context.update(&draws);
    let context: [u8; 32] = context.finalize().into();
    assert_eq!(resolution.settlement_context_digest, context);
    let mut digest = Sha256::new();
    digest.update(b"DECCP:DEFAULT-RESOLUTION:v1");
    digest.update(id(63));
    digest.update(id(20));
    digest.update(60u128.to_be_bytes());
    digest.update(context);
    digest.update(&draws);
    let digest: [u8; 32] = digest.finalize().into();
    assert_eq!(resolution.resolution_digest, digest);
}

// ---------------------------------------------------------------- encoding

#[test]
fn records_encode_as_compact_json() {
    let account = MarginAccount {
        initial_margin: 340282366920938463463374607431768211455,
        variation_margin: 0,
        encumbered_collateral: 10,
        sequence: 7,
    };
    assert_eq!(
        String::from_utf8(account.encode()).unwrap(),
        "{\"initialMargin\":340282366920938463463374607431768211455,\"variationMargin\":0,\
         \"encumberedCollateral\":10,\"sequence\":7}"
    );
}

#[test]
fn snapshot_text_is_canonical_json_and_its_digest_covers_it() {
    let fixture = Fixture::new();
    let mut book = funded_book(&fixture);
    register(&mut book, &fixture, 140, facility(100)).unwrap();
    book.reserve_guarantee(reservation(141, 66, 10, 0), &Defmi, 100)
        .unwrap();
    open(&mut book, &fixture, 142, 50, NettingMode::GrossGross).unwrap();
    book.submit_obligation(owes(143, 51, 20, 21, 70, 100), &Instructions, 100)
        .unwrap();
    let proposal = book.prepare_close(&id(50)).unwrap();
    let approval = fixture.approval(proposal.proposal_digest, 100);
    book.commit_close(proposal, &approval, 100).unwrap();
    default_of(&mut book, &fixture, 144, 63, 20, 120).unwrap();
    let snapshot = book.snapshot();
    let text = snapshot.encode();
    let value: serde_json::Value = serde_json::from_slice(&text).unwrap();
    let object = value.as_object().unwrap();
    assert_eq!(object.len(), 16);
    assert_eq!(value["ccpCapitalRemaining"], serde_json::Value::from(500u64));
    assert_eq!(value["authorities"]["threshold"], serde_json::Value::from(2u64));
    assert_eq!(value["authorities"]["members"][0]["key"]["keyId"], "key-1");
    let member = &value["participants"][hex(&id(20)).as_str()];
    assert_eq!(member["status"], "defaulted");
    assert_eq!(member["defaultFundRemaining"], serde_json::Value::from(50u64));
    assert_eq!(member["eligibility"]["validUntil"], serde_json::Value::from(1_000u64));
    let cycle = &value["cycles"][hex(&id(50)).as_str()];
    assert_eq!(cycle["mode"], "gross_gross");
    assert_eq!(cycle["status"], "closed");
    assert_eq!(cycle["defmiSettlementReceipt"], serde_json::Value::Null);
    assert_eq!(
        cycle["closedProposal"]["riskDebits"][hex(&id(20)).as_str()],
        serde_json::Value::from(100u64)
    );
    assert_eq!(
        value["guaranteeHolds"][hex(&id(66)).as_str()]["status"],
        "reserved"
    );
    let used = value["usedOperations"].as_array().unwrap();
    assert_eq!(used.len(), 14);
    assert!(used
        .iter()
        .all(|key| valid_hex_id(key.as_str().unwrap().as_bytes())));
    let mut digest = Sha256::new();
    digest.update(b"DECCP:SNAPSHOT:v1");
    digest.update((text.len() as u64).to_be_bytes());
    digest.update(&text);
    let digest: [u8; 32] = digest.finalize().into();
    assert_eq!(snapshot.digest(), Ok(digest));
}

#[test]
fn identifier_keys_round_trip() {
    let mut identifier = [0u8; 32];
    for (index, byte) in identifier.iter_mut().enumerate() {
        *byte = (index * 8 + 7) as u8;
    }
    let key = id_key(&identifier);
    assert_eq!(&key[..6], b"070f17");
    assert!(valid_hex_id(&key));
    assert_eq!(parse_id_key(&key), Some(identifier));
    let mut upper = key.clone();
    upper[3] = b'F';
    assert_eq!(parse_id_key(&upper), None);
    assert_eq!(parse_id_key(&key[..63]), None);
}

// ---------------------------------------------------------------- authorities

#[test]
fn authority_digest_and_signing_message_are_exact() {
    let fixture = Fixture::new();
    let mut text = String::from("{\"epoch\":1,\"threshold\":2,\"members\":[");
    for index in 1..=3u8 {
        if index > 1 {
            text.push(',');
        }
        let bytes: Vec<String> = id(index).iter().map(|byte| format!("{byte}")).collect();
        text.push_str(&format!(
            "{{\"memberId\":[{}],\"key\":{{\"keyId\":\"key-{index}\"}}}}",
            bytes.join(",")
        ));
    }
    text.push_str("]}");
    let digest = fields_digest("DECCP:HYBRID-AUTHORITY:v2", &[text.as_bytes()]);
    assert_eq!(fixture.authorities.digest(), Ok(digest));
    assert_eq!(
        fixture.authorities.signing_message(&id(9), &id(1)),
        Ok(fields_digest(
            "DECCP:HYBRID-APPROVAL:v2",
            &[&digest, &id(1), &id(9)]
        ))
    );
}

#[test]
fn authority_sets_are_checked_member_by_member() {
    let fixture = Fixture::new();
    assert_eq!(fixture.authorities.validate(), Ok(()));
    let invalid = |change: &dyn Fn(&mut AuthoritySet)| {
        let mut set = fixture.authorities.clone();
        change(&mut set);
        assert_eq!(set.validate(), Err(DeCcpError::InvalidAuthoritySet));
        assert_eq!(set.digest(), Err(DeCcpError::InvalidAuthoritySet));
    };
    invalid(&|set| set.epoch = 0);
    invalid(&|set| set.threshold = 0);
    invalid(&|set| set.threshold = 4);
    invalid(&|set| set.members.clear());
    invalid(&|set| set.members[0].member_id = [0; 32]);
    invalid(&|set| set.members[1].member_id = id(1));
    invalid(&|set| set.members[1].key.participant_id = "participant-1".into());
    invalid(&|set| set.members[1].key.key_id = "key-1".into());
    invalid(&|set| set.members[0].key.suite = SuiteId::Other);
    invalid(&|set| set.members[0].key.purpose = KeyPurpose::Other);
    invalid(&|set| set.members[0].key.passed_record_check = false);
    invalid(&|set| set.members[0].key.public_key.truncate(31));
    invalid(&|set| set.members[0].key.public_key.truncate(32));
    invalid(&|set| {
        for byte in set.members[0].key.public_key[..32].iter_mut() {
            *byte = 0;
        }
    });
    invalid(&|set| {
        for byte in set.members[0].key.public_key[32..].iter_mut() {
            *byte = 0;
        }
    });
    // Each half of a key belongs to one member only.
    invalid(&|set| {
        let other = set.members[0].key.public_key[..32].to_vec();
        set.members[1].key.public_key[..32].copy_from_slice(&other);
    });
    invalid(&|set| {
        let other = set.members[0].key.public_key[32..].to_vec();
        set.members[1].key.public_key[32..].copy_from_slice(&other);
    });
    // Bytes that encode no curve point are no key.
    let stray = (1..=255u8)
        .map(|byte| {
            let mut bytes = [0u8; 32];
            bytes[0] = byte;
            bytes
        })
        .find(|bytes| VerifyingKey::from_bytes(bytes).is_err())
        .unwrap();
    invalid(&|set| set.members[0].key.public_key[..32].copy_from_slice(&stray));
}

#[test]
fn more_than_64_authorities_are_refused() {
    let mut set = Fixture::seeded(100, 64).authorities;
    assert_eq!(set.validate(), Ok(()));
    let extra = Signatory::new(65, 100);
    set.members.push(AuthorityMember {
        member_id: extra.member_id,
        key: extra.record(),
    });
    assert_eq!(set.validate(), Err(DeCcpError::InvalidAuthoritySet));
}

#[test]
fn approvals_need_a_quorum_of_accepted_signatures() {
    let fixture = Fixture::new();
    let set = &fixture.authorities;
    let good = |now| fixture.approval(id(9), now);
    assert_eq!(set.verify(&id(9), &good(100), 100), Ok(()));
    assert_eq!(set.verify_archived(&id(9), &good(100)), Ok(()));
    let refused = |approval: &QuorumApproval| {
        assert_eq!(
            set.verify(&id(9), approval, 100),
            Err(DeCcpError::InvalidQuorumApproval)
        );
    };
    // Another statement, another time, another epoch, another set.
    assert_eq!(
        set.verify(&id(8), &good(100), 100),
        Err(DeCcpError::InvalidQuorumApproval)
    );
    refused(&good(99));
    assert_eq!(set.verify_archived(&id(9), &good(99)), Ok(()));
    let mut approval = good(100);
    approval.authority_epoch = 2;
    refused(&approval);
    let mut approval = good(100);
    approval.authority_digest = id(1);
    refused(&approval);
    let mut approval = good(100);
    approval.suite = SuiteId::Other;
    refused(&approval);
    // One signer twice, an unknown signer, a stale key, no verdict.
    refused(&fixture_twice(&fixture));
    let mut approval = good(100);
    approval.signatures[0].member_id = id(77);
    refused(&approval);
    let mut approval = good(100);
    approval.signatures[0].key_version = 2;
    refused(&approval);
    let mut approval = good(100);
    approval.signatures[0].key_id = "key-2".into();
    refused(&approval);
    let mut approval = good(100);
    approval.signatures[0].verdict.verified_for = None;
    refused(&approval);
    let mut approval = good(100);
    if let Some(subject) = approval.signatures[0].verdict.verified_for.as_mut() {
        subject.message = id(5);
    }
    refused(&approval);
    // Too few signers.
    assert_eq!(
        set.verify(&id(9), &fixture.signed_by(&[2], id(9), 100), 100),
        Err(DeCcpError::InsufficientQuorum)
    );
}

/// An approval that counts one signer twice.
fn fixture_twice(fixture: &Fixture) -> QuorumApproval {
    let mut first = fixture.signed_by(&[0], id(9), 100);
    let mut second = fixture.signed_by(&[0], id(9), 100);
    first.signatures.append(&mut second.signatures);
    first
}

#[test]
fn signing_refuses_strangers_and_repeats() {
    let fixture = Fixture::new();
    let reply = |index: usize| {
        let key = &fixture.keys[index];
        let message = fixture
            .authorities
            .signing_message(&id(9), &key.member_id)
            .unwrap();
        key.reply(&message)
    };
    let signed = QuorumApproval::sign(&fixture.authorities, id(9), &vec![reply(0), reply(2)]).unwrap();
    assert_eq!(signed.authority_epoch, 1);
    assert_eq!(signed.authority_digest, fixture.authorities.digest().unwrap());
    assert_eq!(signed.statement_digest, id(9));
    assert_eq!(signed.signatures.len(), 2);
    assert_eq!(signed.signatures[1].member_id, id(3));
    assert_eq!(signed.signatures[1].key_id, "key-3");
    assert_eq!(signed.signatures[0].signature, reply(0).signature.unwrap());
    let sign = |replies: Vec<SignerReply>| {
        QuorumApproval::sign(&fixture.authorities, id(9), &replies).map(|_| ())
    };
    assert_eq!(
        sign(vec![reply(0), reply(0)]),
        Err(DeCcpError::InvalidQuorumApproval)
    );
    let mut stranger = reply(0);
    stranger.member_id = id(77);
    assert_eq!(sign(vec![stranger]), Err(DeCcpError::InvalidQuorumApproval));
    let mut borrowed = reply(0);
    borrowed.public_key = fixture.keys[1].public_key();
    assert_eq!(sign(vec![borrowed]), Err(DeCcpError::InvalidQuorumApproval));
    let mut silent = reply(0);
    silent.signature = None;
    assert_eq!(sign(vec![silent]), Err(DeCcpError::InvalidQuorumApproval));
}

// ---------------------------------------------------------------- opening and admission

#[test]
fn a_book_opens_only_with_live_positive_capital() {
    let fixture = Fixture::new();
    let capital = CcpCapitalization {
        amount: 100,
        defmi_lock_id: id(80),
        proof_digest: id(81),
        valid_until: 1_000,
    };
    let open_with = |capital: CcpCapitalization, now: u64| {
        ClearingBook::new(fixture.authorities.clone(), capital, &Defmi, now).map(|_| ())
    };
    assert_eq!(open_with(capital, 1_000), Ok(()));
    assert_eq!(open_with(capital, 1_001), Err(DeCcpError::InvalidCapital));
    // Capital that is valid until time zero never backs a book.
    let timeless = CcpCapitalization { valid_until: 0, ..capital };
    assert_eq!(open_with(timeless, 0), Err(DeCcpError::InvalidCapital));
    let brief = CcpCapitalization { valid_until: 1, ..capital };
    let early = ClearingBook::new(fixture.authorities.clone(), brief, &Defmi, 0).unwrap();
    assert_eq!(early.validate(), Ok(()));
    assert_eq!(
        open_with(CcpCapitalization { amount: 0, ..capital }, 100),
        Err(DeCcpError::InvalidCapital)
    );
    assert_eq!(
        open_with(CcpCapitalization { proof_digest: [0; 32], ..capital }, 100),
        Err(DeCcpError::InvalidCapital)
    );
    let mut broken = fixture.authorities.clone();
    broken.threshold = 0;
    assert_eq!(
        ClearingBook::new(broken, capital, &Defmi, 100).map(|_| ()),
        Err(DeCcpError::InvalidAuthoritySet)
    );
    assert_eq!(
        ClearingBook::new(fixture.authorities.clone(), capital, &NoEvidence, 100).map(|_| ()),
        Err(DeCcpError::DeFmiEvidenceRejected("no evidence".into()))
    );
    let book = new_book(&fixture, 500);
    assert_eq!(book.ccp_capital_lock(), (id(80), id(81), 1_000));
    assert_eq!(book.authority_set(), &fixture.authorities);
    book.validate().unwrap();
}

#[test]
fn admissions_are_refused_without_effect() {
    let fixture = Fixture::new();
    let mut book = new_book(&fixture, 500);
    enroll(&mut book, &fixture, admission(10, 20, 30, 50));
    let before = book.clone();
    let mut attempt = |request: ParticipantAdmission, now: u64, expected: DeCcpError| {
        let approval = fixture.approval(request.statement_digest().unwrap(), now);
        assert_eq!(
            book.admit_participant(request, &Eligibility, &approval, &Defmi, now),
            Err(expected)
        );
        assert_eq!(book, before);
    };
    // The operation, the subject line, the lock, and the identifier are taken.
    attempt(admission(10, 21, 31, 50), 100, DeCcpError::ReplayOrStaleOperation);
    attempt(admission(12, 21, 31, 50), 101, DeCcpError::ReplayOrStaleOperation);
    attempt(
        admission(12, 21, 30, 50),
        100,
        DeCcpError::EligibilityRejected(
            "verified eligibility does not match or is already admitted".into(),
        ),
    );
    let mut request = admission(12, 21, 31, 50);
    request.default_fund_defmi_lock_id = id(30);
    attempt(request, 100, DeCcpError::DuplicateDeFmiReference);
    request.default_fund_defmi_lock_id = id(80);
    attempt(request, 100, DeCcpError::DuplicateDeFmiReference);
    attempt(admission(12, 20, 31, 50), 100, DeCcpError::DuplicateParticipant);
    let request = admission(12, 21, 31, 50);
    let approval = fixture.approval(request.statement_digest().unwrap(), 100);
    assert_eq!(
        book.admit_participant(request, &DenyAll, &approval, &Defmi, 100),
        Err(DeCcpError::EligibilityRejected("unknown subject".into()))
    );
    assert_eq!(
        book.admit_participant(request, &OtherSubject, &approval, &Defmi, 100),
        Err(DeCcpError::EligibilityRejected(
            "verified eligibility does not match or is already admitted".into()
        ))
    );
    assert_eq!(
        book.admit_participant(request, &Eligibility, &approval, &NoEvidence, 100),
        Err(DeCcpError::DeFmiEvidenceRejected("no evidence".into()))
    );
    let weak = fixture.signed_by(&[0], request.statement_digest().unwrap(), 100);
    assert_eq!(
        book.admit_participant(request, &Eligibility, &weak, &Defmi, 100),
        Err(DeCcpError::InsufficientQuorum)
    );
    assert_eq!(book, before);
    book.admit_participant(request, &Eligibility, &approval, &Defmi, 100)
        .unwrap();
    let member = book.participant(&id(21)).unwrap();
    assert_eq!(member.status, ParticipantStatus::Active);
    assert_eq!(member.default_fund_remaining, 50);
    assert_eq!(member.admitted_at, 100);
    assert_eq!(*book.margin(&id(21)).unwrap(), MarginAccount::default());
}

// ---------------------------------------------------------------- collateral and margin

#[test]
fn haircuts_round_down_and_must_leave_something() {
    let mut lot = collateral(14, 40, 20, 999);
    lot.haircut_basis_points = 1;
    assert_eq!(lot.eligible_value(), Ok(998));
    lot.haircut_basis_points = 9_999;
    assert_eq!(lot.eligible_value(), Ok(0));
    lot.haircut_basis_points = 10_000;
    assert_eq!(lot.eligible_value(), Err(DeCcpError::InvalidCollateral));
    lot.haircut_basis_points = 2_500;
    lot.market_value = 1_000_000;
    assert_eq!(lot.eligible_value(), Ok(750_000));
    lot.market_value = u128::MAX;
    assert_eq!(lot.eligible_value(), Err(DeCcpError::ArithmeticOverflow));
}

#[test]
fn lots_are_refused_without_effect() {
    let fixture = Fixture::new();
    let mut book = new_book(&fixture, 500);
    enroll(&mut book, &fixture, admission(10, 20, 30, 50));
    book.post_collateral(collateral(14, 140, 20, 200), &Defmi, 100)
        .unwrap();
    let before = book.clone();
    let mut attempt = |lot: CollateralLot, now: u64, expected: DeCcpError| {
        assert_eq!(book.post_collateral(lot, &Defmi, now), Err(expected));
        assert_eq!(book, before);
    };
    let lot = collateral(15, 141, 20, 200);
    attempt(CollateralLot { market_value: 0, ..lot }, 100, DeCcpError::InvalidCollateral);
    attempt(
        CollateralLot { status: CollateralStatus::Seized, ..lot },
        100,
        DeCcpError::InvalidCollateral,
    );
    attempt(CollateralLot { owner_id: id(99), ..lot }, 100, DeCcpError::UnknownParticipant);
    attempt(lot, 1_001, DeCcpError::ParticipantNotActive);
    attempt(
        lot,
        901,
        DeCcpError::DeFmiEvidenceRejected("expired collateral lock".into()),
    );
    attempt(
        CollateralLot { operation_id: id(14), ..lot },
        100,
        DeCcpError::ReplayOrStaleOperation,
    );
    // The lock of the capital, of a fund, of another lot; and a taken lot.
    for lock in [80, 30, 160] {
        attempt(
            CollateralLot { defmi_lock_id: id(lock), ..lot },
            100,
            DeCcpError::DuplicateDeFmiReference,
        );
    }
    attempt(
        CollateralLot { lot_id: id(140), ..lot },
        100,
        DeCcpError::DuplicateDeFmiReference,
    );
    // The settlement layer may accept what the book knows to have expired.
    assert_eq!(
        book.post_collateral(lot, &AnyEvidence, 901),
        Err(DeCcpError::InvalidCollateral)
    );
}

#[test]
fn margin_is_bounded_by_live_collateral_and_sequenced() {
    let fixture = Fixture::new();
    let mut book = new_book(&fixture, 500);
    enroll(&mut book, &fixture, admission(10, 20, 30, 50));
    let mut lot = collateral(14, 140, 20, 200);
    lot.haircut_basis_points = 5_000;
    book.post_collateral(lot, &Defmi, 100).unwrap();
    assert_eq!(
        set_margin(&mut book, &fixture, 15, 20, 101, 0),
        Err(DeCcpError::InsufficientCollateral)
    );
    assert_eq!(
        set_margin(&mut book, &fixture, 15, 20, 0, 0),
        Err(DeCcpError::InvalidMargin)
    );
    assert_eq!(
        set_margin(&mut book, &fixture, 15, 21, 100, 0),
        Err(DeCcpError::UnknownParticipant)
    );
    assert_eq!(
        set_margin(&mut book, &fixture, 15, 20, 100, 1),
        Err(DeCcpError::StaleSequence)
    );
    set_margin(&mut book, &fixture, 15, 20, 100, 0).unwrap();
    let account = *book.margin(&id(20)).unwrap();
    assert_eq!(account.encumbered_collateral, 100);
    assert_eq!(account.sequence, 1);
    assert_eq!(account.required(), Ok(100));
    // Replay, and a stale sequence under a new operation.
    assert_eq!(
        set_margin(&mut book, &fixture, 15, 20, 100, 1),
        Err(DeCcpError::InvalidMargin)
    );
    assert_eq!(
        set_margin(&mut book, &fixture, 16, 20, 90, 0),
        Err(DeCcpError::StaleSequence)
    );
    let request = MarginUpdate {
        operation_id: id(17),
        participant_id: id(20),
        initial_margin: u128::MAX,
        variation_margin: 1,
        expected_sequence: 1,
    };
    let approval = fixture.approval(request.statement_digest(), 100);
    assert_eq!(
        book.set_margin(request, &approval, 100),
        Err(DeCcpError::ArithmeticOverflow)
    );
    // Collateral that has expired no longer counts.
    let request = MarginUpdate {
        operation_id: id(17),
        participant_id: id(20),
        initial_margin: 1,
        variation_margin: 0,
        expected_sequence: 1,
    };
    let approval = fixture.approval(request.statement_digest(), 950);
    assert_eq!(
        book.set_margin(request, &approval, 950),
        Err(DeCcpError::InsufficientCollateral)
    );
    let full = MarginAccount {
        initial_margin: u128::MAX,
        variation_margin: 1,
        encumbered_collateral: 0,
        sequence: 0,
    };
    assert_eq!(full.required(), Err(DeCcpError::ArithmeticOverflow));
}

#[test]
fn spent_margin_sequence_is_refused_without_effect() {
    let fixture = Fixture::new();
    let mut book = new_book(&fixture, 500);
    enroll(&mut book, &fixture, admission(10, 20, 30, 50));
    book.post_collateral(collateral(14, 140, 20, 200), &Defmi, 100)
        .unwrap();
    let mut snapshot = book.snapshot();
    snapshot.margins.insert(
        id(20),
        MarginAccount {
            initial_margin: 5,
            variation_margin: 0,
            encumbered_collateral: 5,
            sequence: u64::MAX,
        },
    );
    let mut book = ClearingBook::restore_authenticated(snapshot).unwrap();
    let before = book.clone();
    assert_eq!(
        set_margin(&mut book, &fixture, 15, 20, 100, u64::MAX),
        Err(DeCcpError::ArithmeticOverflow)
    );
    assert_eq!(book, before);
}

// ---------------------------------------------------------------- cycles and netting

#[test]
fn cycles_open_once_at_the_execution_time() {
    let fixture = Fixture::new();
    let mut book = funded_book(&fixture);
    open(&mut book, &fixture, 130, 50, NettingMode::NetNet).unwrap();
    assert_eq!(
        open(&mut book, &fixture, 131, 50, NettingMode::NetNet),
        Err(DeCcpError::InvalidCycle)
    );
    assert_eq!(
        open(&mut book, &fixture, 130, 51, NettingMode::NetNet),
        Err(DeCcpError::InvalidCycle)
    );
    let request = OpenCycleRequest {
        operation_id: id(131),
        cycle_id: id(51),
        mode: NettingMode::NetNet,
        settlement_asset_id: id(70),
        policy_digest: id(72),
        opened_at: 101,
    };
    let approval = fixture.approval(request.statement_digest(), 100);
    assert_eq!(
        book.open_cycle(request, &approval, 100),
        Err(DeCcpError::InvalidCycle)
    );
}

#[test]
fn obligations_are_refused_without_effect() {
    let fixture = Fixture::new();
    let mut book = funded_book(&fixture);
    open(&mut book, &fixture, 130, 50, NettingMode::NetNet).unwrap();
    book.submit_obligation(owes(131, 51, 20, 21, 70, 100), &Instructions, 100)
        .unwrap();
    let before = book.clone();
    let mut attempt = |obligation: ClearingObligation, expected: DeCcpError| {
        assert_eq!(
            book.submit_obligation(obligation, &Instructions, 100),
            Err(expected)
        );
        assert_eq!(book, before);
    };
    attempt(owes(132, 52, 20, 20, 70, 100), DeCcpError::InvalidObligation);
    attempt(owes(132, 52, 20, 21, 70, 0), DeCcpError::InvalidObligation);
    attempt(owes(132, 52, 99, 21, 70, 100), DeCcpError::UnknownParticipant);
    attempt(owes(132, 51, 20, 21, 70, 100), DeCcpError::DuplicateObligation);
    attempt(owes(131, 52, 20, 21, 70, 100), DeCcpError::DuplicateObligation);
    let mut lost = owes(132, 52, 20, 21, 70, 100);
    lost.cycle_id = id(49);
    attempt(lost, DeCcpError::UnknownCycle);
    // Once closed, the cycle takes no more.
    let proposal = book.prepare_close(&id(50)).unwrap();
    let approval = fixture.approval(proposal.proposal_digest, 100);
    book.commit_close(proposal, &approval, 100).unwrap();
    assert_eq!(
        book.submit_obligation(owes(132, 52, 20, 21, 70, 100), &Instructions, 100),
        Err(DeCcpError::CycleNotOpen)
    );
    assert_eq!(book.prepare_close(&id(50)), Err(DeCcpError::CycleNotOpen));
    assert_eq!(book.prepare_close(&id(49)), Err(DeCcpError::UnknownCycle));
}

#[test]
fn net_net_pairs_debtors_and_creditors_in_order() {
    let fixture = Fixture::new();
    let mut book = funded_book(&fixture);
    open(&mut book, &fixture, 130, 50, NettingMode::NetNet).unwrap();
    // In asset 70: 20 owes 300, 21 is owed 100, 22 is owed 200.
    // In asset 69: 22 owes 40 to 20.
    for obligation in [
        owes(131, 55, 20, 21, 70, 150),
        owes(132, 54, 21, 22, 70, 50),
        owes(133, 53, 20, 22, 70, 150),
        owes(134, 52, 22, 20, 69, 40),
    ] {
        book.submit_obligation(obligation, &Instructions, 100).unwrap();
    }
    let proposal = book.prepare_close(&id(50)).unwrap();
    let legs: Vec<_> = proposal
        .legs
        .iter()
        .map(|leg| (leg.payer_id[0], leg.payee_id[0], leg.asset_id[0], leg.amount))
        .collect();
    assert_eq!(
        legs,
        vec![(22, 20, 69, 40), (20, 21, 70, 100), (20, 22, 70, 200)]
    );
    // Risk nets over all assets: only 20 pays on balance, 300 - 40.
    assert_eq!(proposal.risk_debits.values(), vec![260]);
    assert_eq!(proposal.risk_debits.get(&id(20)), Some(&260));
}

#[test]
fn gross_net_keeps_legs_in_other_assets() {
    let fixture = Fixture::new();
    let mut book = funded_book(&fixture);
    open(&mut book, &fixture, 130, 50, NettingMode::GrossNet).unwrap();
    for obligation in [
        owes(131, 54, 20, 21, 70, 100),
        owes(132, 53, 21, 20, 70, 60),
        owes(133, 52, 20, 21, 69, 30),
        owes(134, 51, 21, 20, 69, 10),
    ] {
        book.submit_obligation(obligation, &Instructions, 100).unwrap();
    }
    let proposal = book.prepare_close(&id(50)).unwrap();
    let legs: Vec<_> = proposal
        .legs
        .iter()
        .map(|leg| (leg.payer_id[0], leg.payee_id[0], leg.asset_id[0], leg.amount))
        .collect();
    assert_eq!(
        legs,
        vec![(21, 20, 69, 10), (20, 21, 69, 30), (20, 21, 70, 40)]
    );
    assert_eq!(proposal.risk_debits.values(), vec![60]);
}

#[test]
fn balanced_obligations_need_no_leg() {
    let fixture = Fixture::new();
    let mut book = funded_book(&fixture);
    open(&mut book, &fixture, 130, 50, NettingMode::NetNet).unwrap();
    assert_eq!(book.prepare_close(&id(50)), Err(DeCcpError::CycleNotOpen));
    book.submit_obligation(owes(131, 51, 20, 21, 70, 100), &Instructions, 100)
        .unwrap();
    book.submit_obligation(owes(132, 52, 21, 20, 70, 100), &Instructions, 100)
        .unwrap();
    let proposal = book.prepare_close(&id(50)).unwrap();
    assert!(proposal.legs.is_empty());
    assert!(proposal.risk_debits.values().is_empty());
}

#[test]
fn closing_is_refused_beyond_margin_or_range() {
    let fixture = Fixture::new();
    let mut book = funded_book(&fixture);
    open(&mut book, &fixture, 130, 50, NettingMode::NetNet).unwrap();
    book.submit_obligation(owes(131, 51, 20, 21, 70, 901), &Instructions, 100)
        .unwrap();
    assert_eq!(
        book.prepare_close(&id(50)),
        Err(DeCcpError::InsufficientMargin)
    );
    let mut book = funded_book(&fixture);
    open(&mut book, &fixture, 130, 50, NettingMode::NetNet).unwrap();
    let mut huge = owes(131, 51, 20, 21, 70, i128::MAX as u128);
    huge.risk_value = 1;
    book.submit_obligation(huge, &Instructions, 100).unwrap();
    assert!(book.prepare_close(&id(50)).is_ok());
    let mut more = owes(132, 52, 22, 21, 70, 1);
    more.risk_value = 1;
    book.submit_obligation(more, &Instructions, 100).unwrap();
    assert_eq!(
        book.prepare_close(&id(50)),
        Err(DeCcpError::ArithmeticOverflow)
    );
}

#[test]
fn a_close_needs_the_prepared_proposal_and_settles_once() {
    let fixture = Fixture::new();
    let mut book = funded_book(&fixture);
    open(&mut book, &fixture, 130, 50, NettingMode::NetNet).unwrap();
    book.submit_obligation(owes(131, 51, 20, 21, 70, 100), &Instructions, 100)
        .unwrap();
    let proposal = book.prepare_close(&id(50)).unwrap();
    let digest = proposal.proposal_digest;
    let approval = fixture.approval(digest, 100);
    let mut altered = proposal.clone();
    altered.legs[0].amount = 99;
    assert_eq!(
        book.commit_close(altered, &approval, 100),
        Err(DeCcpError::InvalidNettingProposal)
    );
    let receipt = DefmiSettlementReceipt {
        receipt_digest: id(75),
        context_digest: digest,
        finalized_at: 110,
    };
    assert_eq!(
        book.record_cycle_settlement(&id(50), digest, receipt, &Defmi, 110),
        Err(DeCcpError::InvalidSettlementReceipt)
    );
    book.commit_close(proposal.clone(), &approval, 100).unwrap();
    assert_eq!(
        book.commit_close(proposal, &approval, 100),
        Err(DeCcpError::CycleNotOpen)
    );
    let stray = DefmiSettlementReceipt { context_digest: id(1), ..receipt };
    assert_eq!(
        book.record_cycle_settlement(&id(50), digest, stray, &Defmi, 110),
        Err(DeCcpError::InvalidSettlementReceipt)
    );
    assert_eq!(
        book.record_cycle_settlement(&id(50), digest, receipt, &Defmi, 109),
        Err(DeCcpError::DeFmiEvidenceRejected("wrong or non-final receipt".into()))
    );
    assert_eq!(
        book.record_cycle_settlement(&id(49), digest, receipt, &Defmi, 110),
        Err(DeCcpError::UnknownCycle)
    );
    book.record_cycle_settlement(&id(50), digest, receipt, &Defmi, 110)
        .unwrap();
    let cycle = book.cycle(&id(50)).unwrap();
    assert_eq!(cycle.status, CycleStatus::Settled);
    assert_eq!(cycle.defmi_settlement_receipt, Some(id(75)));
    assert_eq!(
        book.record_cycle_settlement(&id(50), digest, receipt, &Defmi, 110),
        Err(DeCcpError::InvalidSettlementReceipt)
    );
    book.validate().unwrap();
}

// ---------------------------------------------------------------- guarantees

#[test]
fn facilities_are_registered_fresh_and_once() {
    let fixture = Fixture::new();
    let mut book = funded_book(&fixture);
    for stale in [
        GuaranteeFacility { capacity: 0, ..facility(100) },
        GuaranteeFacility { reserved: 1, ..facility(100) },
        GuaranteeFacility { sequence: 1, ..facility(100) },
        GuaranteeFacility { valid_until: 99, ..facility(100) },
        GuaranteeFacility { status: GuaranteeFacilityStatus::Suspended, ..facility(100) },
        GuaranteeFacility { policy_digest: [0; 32], ..facility(100) },
    ] {
        assert_eq!(
            register(&mut book, &fixture, 140, stale),
            Err(DeCcpError::InvalidGuaranteeFacility)
        );
    }
    assert_eq!(
        register(
            &mut book,
            &fixture,
            140,
            GuaranteeFacility { guarantor_id: id(99), ..facility(100) }
        ),
        Err(DeCcpError::UnknownParticipant)
    );
    register(&mut book, &fixture, 140, facility(100)).unwrap();
    assert_eq!(
        register(&mut book, &fixture, 141, facility(100)),
        Err(DeCcpError::InvalidGuaranteeFacility)
    );
}

#[test]
fn a_claim_moves_the_amount_and_exhausts_the_facility() {
    let fixture = Fixture::new();
    let mut book = funded_book(&fixture);
    register(&mut book, &fixture, 140, facility(100)).unwrap();
    book.reserve_guarantee(reservation(141, 66, 100, 0), &Defmi, 100)
        .unwrap();
    assert_eq!(
        book.consume_guarantee(claim_on(142, 66, 90), &Defmi, 110),
        Err(DeCcpError::GuaranteeHoldUnavailable)
    );
    book.bind_guarantee(id(143), id(66), id(90), 110).unwrap();
    assert_eq!(
        book.consume_guarantee(claim_on(142, 66, 91), &Defmi, 110),
        Err(DeCcpError::GuaranteeHoldUnavailable)
    );
    assert_eq!(
        book.consume_guarantee(claim_on(142, 67, 90), &Defmi, 110),
        Err(DeCcpError::UnknownGuaranteeHold)
    );
    let mut stray = claim_on(142, 66, 90);
    stray.receipt.context_digest = id(1);
    assert_eq!(
        book.consume_guarantee(stray, &Defmi, 110),
        Err(DeCcpError::InvalidGuaranteeClaim)
    );
    book.consume_guarantee(claim_on(142, 66, 90), &Defmi, 110)
        .unwrap();
    let after = *book.guarantee_facility(&id(60)).unwrap();
    assert_eq!((after.reserved, after.consumed, after.sequence), (0, 100, 2));
    assert_eq!(after.status, GuaranteeFacilityStatus::Exhausted);
    // An ended hold stays ended.
    assert_eq!(
        book.bind_guarantee(id(144), id(66), id(90), 110),
        Err(DeCcpError::GuaranteeHoldUnavailable)
    );
    assert_eq!(
        book.consume_guarantee(claim_on(144, 66, 90), &Defmi, 110),
        Err(DeCcpError::GuaranteeHoldUnavailable)
    );
    let receipt = DefmiSettlementReceipt {
        receipt_digest: id(55),
        context_digest: guarantee_release_context(&id(66)),
        finalized_at: 110,
    };
    assert_eq!(
        book.release_guarantee(id(144), id(66), receipt, &Defmi, 110),
        Err(DeCcpError::GuaranteeHoldUnavailable)
    );
    assert_eq!(
        book.release_guarantee(id(144), id(67), receipt, &Defmi, 110),
        Err(DeCcpError::ReplayOrStaleOperation)
    );
    book.validate().unwrap();
}

#[test]
fn reservations_share_neither_sequence_nor_references() {
    let fixture = Fixture::new();
    let mut book = funded_book(&fixture);
    register(&mut book, &fixture, 140, facility(100)).unwrap();
    assert_eq!(
        book.reserve_guarantee(
            GuaranteeReservation { facility_id: id(59), ..reservation(141, 66, 10, 0) },
            &Defmi,
            100
        ),
        Err(DeCcpError::UnknownGuaranteeFacility)
    );
    book.reserve_guarantee(reservation(141, 66, 10, 0), &Defmi, 100)
        .unwrap();
    assert_eq!(
        book.reserve_guarantee(reservation(142, 68, 10, 0), &Defmi, 100),
        Err(DeCcpError::StaleSequence)
    );
    assert_eq!(
        book.reserve_guarantee(reservation(142, 66, 10, 1), &Defmi, 100),
        Err(DeCcpError::InvalidGuaranteeReservation)
    );
    let mut shared = reservation(142, 68, 10, 1);
    shared.defmi_hold_id = id(67);
    assert_eq!(
        book.reserve_guarantee(shared, &Defmi, 100),
        Err(DeCcpError::InvalidGuaranteeReservation)
    );
    assert_eq!(
        book.reserve_guarantee(reservation(142, 68, u128::MAX, 1), &Defmi, 100),
        Err(DeCcpError::ArithmeticOverflow)
    );
    assert_eq!(
        book.bind_guarantee(id(142), id(99), id(90), 100),
        Err(DeCcpError::UnknownGuaranteeHold)
    );
    assert_eq!(
        book.bind_guarantee(id(142), id(66), [0; 32], 100),
        Err(DeCcpError::InvalidGuaranteeReservation)
    );
}

#[test]
fn spent_facility_sequence_is_refused_without_effect() {
    let fixture = Fixture::new();
    let mut book = funded_book(&fixture);
    register(&mut book, &fixture, 140, facility(100)).unwrap();
    book.reserve_guarantee(reservation(141, 66, 10, 0), &Defmi, 100)
        .unwrap();
    book.bind_guarantee(id(142), id(66), id(90), 110).unwrap();
    let mut snapshot = book.snapshot();
    snapshot.guarantee_facilities.insert(
        id(60),
        GuaranteeFacility { reserved: 10, sequence: u64::MAX, ..facility(100) },
    );
    let mut book = ClearingBook::restore_authenticated(snapshot).unwrap();
    let before = book.clone();
    assert_eq!(
        book.reserve_guarantee(reservation(143, 68, 10, u64::MAX), &Defmi, 100),
        Err(DeCcpError::ArithmeticOverflow)
    );
    let receipt = DefmiSettlementReceipt {
        receipt_digest: id(55),
        context_digest: guarantee_release_context(&id(66)),
        finalized_at: 110,
    };
    assert_eq!(
        book.release_guarantee(id(143), id(66), receipt, &Defmi, 110),
        Err(DeCcpError::ArithmeticOverflow)
    );
    assert_eq!(
        book.consume_guarantee(claim_on(143, 66, 90), &Defmi, 110),
        Err(DeCcpError::ArithmeticOverflow)
    );
    assert_eq!(book, before);
    assert_eq!(book.validate(), Ok(()));
}

#[test]
fn spent_confidential_sequence_is_refused_without_effect() {
    let fixture = Fixture::new();
    let book = hidden_book(&fixture);
    let mut snapshot = book.snapshot();
    snapshot.confidential_guarantee_facilities.insert(
        id(40),
        ConfidentialGuaranteeFacility { sequence: u64::MAX, ..hidden_facility() },
    );
    let mut book = ClearingBook::restore_authenticated(snapshot).unwrap();
    let before = book.clone();
    let last = AethelGuaranteeOffer { deccp_expected_sequence: u64::MAX, ..offer() };
    assert_eq!(
        AethelDeCcpAdapter::reserve(&mut book, last, &Defmi, 100),
        Err(DeCcpError::ArithmeticOverflow)
    );
    assert_eq!(book, before);
    assert_eq!(book.validate(), Ok(()));
}

fn hidden_facility() -> ConfidentialGuaranteeFacility {
    ConfidentialGuaranteeFacility {
        facility_id: id(40),
        guarantor_id: id(20),
        beneficiary_subject_line_id: id(31),
        settlement_asset_id: id(70),
        capacity_commitment: id(41),
        latest_facility_state_digest: id(42),
        defmi_facility_id: id(43),
        policy_digest: id(44),
        valid_until: 900,
        sequence: 0,
        status: GuaranteeFacilityStatus::Active,
    }
}

fn hidden_book(fixture: &Fixture) -> ClearingBook {
    let mut book = funded_book(fixture);
    let statement = confidential_guarantee_facility_approval_digest(&id(140), &hidden_facility());
    let approval = fixture.approval(statement, 100);
    book.register_confidential_guarantee_facility(
        id(140),
        hidden_facility(),
        &approval,
        &Defmi,
        100,
    )
    .unwrap();
    book
}

fn offer() -> AethelGuaranteeOffer {
    AethelGuaranteeOffer {
        operation_id: id(141),
        guarantee_id: id(240),
        request_id: id(241),
        provider_id: id(20),
        series_id: id(242),
        stream_state_version: 1,
        stream_state_root: id(243),
        credit_decision_id: None,
        deccp_facility_id: id(40),
        deccp_expected_sequence: 0,
        deccp_expected_state_digest: id(42),
        deccp_after_state_digest: id(46),
        deccp_hold_id: id(45),
        defmi_facility_id: id(43),
        defmi_hold_id: id(47),
        coverage_commitment: id(48),
        beneficiary_subject_line_id: id(31),
        loss_layer: AethelLossLayer::PariPassu,
        guarantee_terms_digest: id(49),
        claim_policy_digest: id(44),
        relation_proof_digest: id(50),
        valid_until: 800,
        nonce: id(51),
    }
}

#[test]
fn aethel_offers_must_match_their_facility() {
    let fixture = Fixture::new();
    let mut book = hidden_book(&fixture);
    let before = book.clone();
    let mut attempt = |offer: AethelGuaranteeOffer, expected: DeCcpError| {
        assert_eq!(
            AethelDeCcpAdapter::reserve(&mut book, offer, &Defmi, 100),
            Err(expected)
        );
        assert_eq!(book, before);
    };
    let invalid = DeCcpError::InvalidGuaranteeReservation;
    attempt(
        AethelGuaranteeOffer { deccp_facility_id: id(39), ..offer() },
        DeCcpError::UnknownGuaranteeFacility,
    );
    attempt(AethelGuaranteeOffer { provider_id: id(21), ..offer() }, invalid.clone());
    attempt(AethelGuaranteeOffer { claim_policy_digest: id(1), ..offer() }, invalid.clone());
    attempt(AethelGuaranteeOffer { credit_decision_id: Some([0; 32]), ..offer() }, invalid.clone());
    attempt(AethelGuaranteeOffer { nonce: [0; 32], ..offer() }, invalid.clone());
    attempt(AethelGuaranteeOffer { stream_state_version: 0, ..offer() }, invalid);
    attempt(
        AethelGuaranteeOffer { deccp_expected_state_digest: id(1), ..offer() },
        DeCcpError::StaleSequence,
    );
    let binding = AethelDeCcpAdapter::reserve(&mut book, offer(), &Defmi, 100).unwrap();
    assert_eq!(binding.deccp_hold_id, id(45));
    assert_eq!(binding.loss_layer, AethelLossLayer::PariPassu);
    let mut purpose = Sha256::new();
    purpose.update(b"DECCP:AETHEL-GUARANTEE-PURPOSE:v1");
    purpose.update(id(240));
    purpose.update(id(241));
    purpose.update(id(242));
    purpose.update(1u64.to_be_bytes());
    purpose.update(id(243));
    purpose.update(id(48));
    purpose.update([2u8]);
    purpose.update(id(49));
    purpose.update(id(44));
    let purpose: [u8; 32] = purpose.finalize().into();
    assert_eq!(
        book.confidential_guarantee_hold(&id(45)).unwrap().purpose_digest,
        purpose
    );
}

#[test]
fn confidential_requests_are_compare_and_swap() {
    let fixture = Fixture::new();
    let mut book = hidden_book(&fixture);
    AethelDeCcpAdapter::reserve(&mut book, offer(), &Defmi, 100).unwrap();
    let mut release = ConfidentialGuaranteeReleaseRequest {
        operation_id: id(142),
        hold_id: id(45),
        expected_facility_state_digest: id(42),
        after_facility_state_digest: id(52),
        expected_facility_sequence: 1,
        transition_proof_digest: id(53),
        receipt: DefmiSettlementReceipt {
            receipt_digest: id(54),
            context_digest: [0; 32],
            finalized_at: 100,
        },
    };
    release.receipt.context_digest = confidential_guarantee_release_context(&release);
    assert_eq!(
        book.release_confidential_guarantee(release, &Defmi, 100),
        Err(DeCcpError::StaleSequence)
    );
    release.expected_facility_state_digest = id(46);
    release.receipt.context_digest = confidential_guarantee_release_context(&release);
    assert_eq!(
        book.release_confidential_guarantee(release, &NoEvidence, 100),
        Err(DeCcpError::DeFmiEvidenceRejected("no evidence".into()))
    );
    let mut claim = ConfidentialGuaranteeClaimRequest {
        operation_id: id(143),
        hold_id: id(45),
        exposure_id: id(55),
        default_event_digest: id(56),
        expected_facility_state_digest: id(46),
        after_facility_state_digest: id(52),
        expected_facility_sequence: 1,
        transition_proof_digest: id(53),
        receipt: DefmiSettlementReceipt {
            receipt_digest: id(54),
            context_digest: [0; 32],
            finalized_at: 100,
        },
    };
    assert_eq!(
        book.consume_confidential_guarantee(claim, &Defmi, 100),
        Err(DeCcpError::InvalidGuaranteeClaim)
    );
    claim.receipt.context_digest = confidential_guarantee_claim_context(&claim);
    assert_eq!(
        book.consume_confidential_guarantee(claim, &Defmi, 100),
        Err(DeCcpError::GuaranteeHoldUnavailable)
    );
    book.release_confidential_guarantee(release, &Defmi, 100).unwrap();
    assert_eq!(
        book.release_confidential_guarantee(release, &Defmi, 100),
        Err(DeCcpError::ReplayOrStaleOperation)
    );
    assert_eq!(
        book.bind_confidential_guarantee(id(144), id(45), id(55), 100),
        Err(DeCcpError::GuaranteeHoldUnavailable)
    );
    book.validate().unwrap();
}

// ---------------------------------------------------------------- defaults

#[test]
fn defaults_are_declared_once_for_active_members() {
    let fixture = Fixture::new();
    let mut book = funded_book(&fixture);
    assert_eq!(
        default_of(&mut book, &fixture, 150, 63, 99, 120),
        Err(DeCcpError::UnknownParticipant)
    );
    default_of(&mut book, &fixture, 150, 63, 20, 120).unwrap();
    assert_eq!(
        default_of(&mut book, &fixture, 151, 64, 20, 120),
        Err(DeCcpError::ParticipantNotActive)
    );
    assert_eq!(
        default_of(&mut book, &fixture, 151, 63, 21, 120),
        Err(DeCcpError::InvalidDefault)
    );
    assert_eq!(
        set_margin(&mut book, &fixture, 152, 20, 10, 1),
        Err(DeCcpError::ParticipantNotActive)
    );
}

#[test]
fn the_waterfall_covers_exactly_what_it_can() {
    let fixture = Fixture::new();
    let mut book = funded_book(&fixture);
    default_of(&mut book, &fixture, 150, 63, 21, 120).unwrap();
    assert_eq!(
        book.prepare_default_resolution(&id(63), 0),
        Err(DeCcpError::InvalidDefault)
    );
    assert_eq!(
        book.prepare_default_resolution(&id(62), 1),
        Err(DeCcpError::UnknownDefault)
    );
    // 900 margin + 50 own fund + 2 * 50 mutual + 500 capital.
    assert_eq!(
        book.prepare_default_resolution(&id(63), 1_551),
        Err(DeCcpError::WaterfallExhausted)
    );
    let resolution = book.prepare_default_resolution(&id(63), 1_020).unwrap();
    let draws: Vec<_> = resolution
        .draws
        .iter()
        .map(|draw| (draw.source_kind, draw.participant_id, draw.amount))
        .collect();
    assert_eq!(
        draws,
        vec![
            (DefaultSourceKind::DefaulterMargin, Some(id(21)), 900),
            (DefaultSourceKind::DefaulterFund, Some(id(21)), 50),
            (DefaultSourceKind::MutualizedFund, Some(id(20)), 50),
            (DefaultSourceKind::MutualizedFund, Some(id(22)), 20),
        ]
    );
    let approval = fixture.approval(resolution.resolution_digest, 130);
    let receipt = DefmiSettlementReceipt {
        receipt_digest: id(64),
        context_digest: resolution.settlement_context_digest,
        finalized_at: 130,
    };
    let before = book.clone();
    let mut smaller = resolution.clone();
    smaller.draws[3].amount = 19;
    assert_eq!(
        book.commit_default_resolution(smaller, &approval, receipt, &Defmi, 130),
        Err(DeCcpError::InvalidDefaultResolution)
    );
    assert_eq!(
        book.commit_default_resolution(resolution.clone(), &approval, receipt, &NoEvidence, 130),
        Err(DeCcpError::DeFmiEvidenceRejected("no evidence".into()))
    );
    assert_eq!(book, before);
    book.commit_default_resolution(resolution.clone(), &approval, receipt, &Defmi, 130)
        .unwrap();
    assert_eq!(book.margin(&id(21)).unwrap().encumbered_collateral, 0);
    assert_eq!(book.participant(&id(21)).unwrap().default_fund_remaining, 0);
    assert_eq!(book.participant(&id(20)).unwrap().default_fund_remaining, 0);
    assert_eq!(book.participant(&id(22)).unwrap().default_fund_remaining, 30);
    assert_eq!(book.ccp_capital_remaining(), 500);
    assert_eq!(
        book.default_case(&id(63)).unwrap().resolution,
        Some(resolution.clone())
    );
    assert_eq!(
        book.commit_default_resolution(resolution, &approval, receipt, &Defmi, 130),
        Err(DeCcpError::DefaultAlreadyResolved)
    );
    book.validate().unwrap();
}

#[test]
fn expired_capital_cannot_resolve_a_default() {
    let fixture = Fixture::new();
    let mut book = ClearingBook::new(
        fixture.authorities.clone(),
        CcpCapitalization {
            amount: 500,
            defmi_lock_id: id(80),
            proof_digest: id(81),
            valid_until: 110,
        },
        &Defmi,
        100,
    )
    .unwrap();
    enroll(&mut book, &fixture, admission(10, 20, 30, 50));
    default_of(&mut book, &fixture, 150, 63, 20, 120).unwrap();
    assert_eq!(
        book.prepare_default_resolution(&id(63), 10),
        Err(DeCcpError::InvalidCapital)
    );
}

// ---------------------------------------------------------------- restoring

#[test]
fn every_table_is_checked_on_restore() {
    let fixture = Fixture::new();
    let mut book = funded_book(&fixture);
    register(&mut book, &fixture, 140, facility(100)).unwrap();
    let hold = book
        .reserve_guarantee(reservation(141, 66, 10, 0), &Defmi, 100)
        .unwrap();
    open(&mut book, &fixture, 142, 50, NettingMode::NetNet).unwrap();
    book.submit_obligation(owes(143, 51, 20, 21, 70, 100), &Instructions, 100)
        .unwrap();
    default_of(&mut book, &fixture, 144, 63, 20, 120).unwrap();
    let snapshot = book.snapshot();
    assert_eq!(
        ClearingBook::restore_authenticated(snapshot.clone()),
        Ok(book.clone())
    );
    let refused = |expected: DeCcpError, change: &dyn Fn(&mut deccp::ClearingSnapshot)| {
        let mut broken = snapshot.clone();
        change(&mut broken);
        assert_eq!(
            ClearingBook::restore_authenticated(broken).map(|_| ()),
            Err(expected)
        );
    };
    let state = DeCcpError::InvalidState;
    refused(DeCcpError::InvalidAuthoritySet, &|s| s.authorities.epoch = 0);
    refused(DeCcpError::InvalidCapital, &|s| s.ccp_capital_valid_until = 0);
    refused(state.clone(), &|s| {
        s.margins.remove(&id(20));
    });
    refused(state.clone(), &|s| {
        s.margins.insert(id(99), MarginAccount::default());
    });
    refused(state.clone(), &|s| {
        let mut member = *s.participants.get(&id(21)).unwrap();
        member.eligibility.subject_line_id = id(30);
        s.participants.insert(id(21), member);
    });
    refused(state.clone(), &|s| s.ccp_capital_defmi_lock_id = id(180));
    refused(DeCcpError::InvalidCollateral, &|s| {
        let mut lot = *s.collateral.get(&id(160)).unwrap();
        lot.haircut_basis_points = 10_000;
        s.collateral.insert(id(160), lot);
    });
    refused(state.clone(), &|s| {
        let mut lot = *s.collateral.get(&id(160)).unwrap();
        lot.owner_id = id(99);
        s.collateral.insert(id(160), lot);
    });
    refused(state.clone(), &|s| {
        let mut cycle = s.cycles.remove(&id(50)).unwrap();
        cycle.status = CycleStatus::Closed;
        s.cycles.insert(id(50), cycle);
    });
    refused(state.clone(), &|s| {
        s.obligations.remove(&id(51));
    });
    refused(DeCcpError::InvalidObligation, &|s| {
        let mut obligation = *s.obligations.get(&id(51)).unwrap();
        obligation.amount = 0;
        s.obligations.insert(id(51), obligation);
    });
    refused(state.clone(), &|s| {
        let mut cycle = s.cycles.remove(&id(50)).unwrap();
        cycle.obligations.clear();
        s.cycles.insert(id(50), cycle);
    });
    refused(state.clone(), &|s| {
        s.guarantee_holds
            .insert(id(66), GuaranteeHold { status: GuaranteeHoldStatus::Bound, ..hold });
    });
    refused(state.clone(), &|s| {
        s.guarantee_holds.insert(id(66), GuaranteeHold { amount: 11, ..hold });
    });
    refused(DeCcpError::ArithmeticOverflow, &|s| {
        s.guarantee_holds.insert(id(66), GuaranteeHold { amount: u128::MAX, ..hold });
        s.guarantee_holds.insert(
            id(67),
            GuaranteeHold { hold_id: id(67), defmi_hold_id: id(68), amount: 1, ..hold },
        );
    });
    refused(DeCcpError::ArithmeticOverflow, &|s| {
        s.guarantee_facilities.insert(
            id(60),
            GuaranteeFacility { reserved: 10, consumed: u128::MAX, ..facility(100) },
        );
    });
    refused(state.clone(), &|s| {
        s.guarantee_facilities.insert(
            id(60),
            GuaranteeFacility { reserved: 10, sequence: 1, ..facility(9) },
        );
    });
    refused(state.clone(), &|s| {
        s.confidential_guarantee_facilities.insert(
            id(60),
            ConfidentialGuaranteeFacility { facility_id: id(60), ..hidden_facility() },
        );
    });
    refused(state, &|s| {
        let mut member = *s.participants.get(&id(20)).unwrap();
        member.status = ParticipantStatus::Active;
        s.participants.insert(id(20), member);
    });
}

// ---------------------------------------------------------------- the book as a whole

/// An instruction source that confirms nothing.
struct NoInstruction;

impl InstructionPort for NoInstruction {
    fn verify_obligation(&self, _obligation: &ClearingObligation, _now: u64) -> Result<(), String> {
        Err("no such instruction".into())
    }
}

#[test]
fn unconfirmed_instructions_are_refused_without_effect() {
    let fixture = Fixture::new();
    let mut book = funded_book(&fixture);
    open(&mut book, &fixture, 130, 50, NettingMode::NetNet).unwrap();
    let before = book.clone();
    assert_eq!(
        book.submit_obligation(owes(131, 51, 20, 21, 70, 100), &NoInstruction, 100),
        Err(DeCcpError::InstructionRejected("no such instruction".into()))
    );
    assert_eq!(book, before);
}

#[test]
fn every_mode_conserves_positions_in_any_order() {
    let fixture = Fixture::new();
    let given = [
        owes(131, 55, 20, 21, 70, 150),
        owes(132, 54, 21, 22, 70, 50),
        owes(133, 53, 22, 20, 69, 70),
        owes(134, 52, 20, 22, 69, 30),
        owes(135, 51, 22, 21, 70, 25),
    ];
    let position = |flows: &[([u8; 32], [u8; 32], [u8; 32], u128)], asset: u8, member: u8| {
        flows
            .iter()
            .filter(|flow| flow.2 == id(asset))
            .map(|flow| {
                let credit = if flow.1 == id(member) { flow.3 as i128 } else { 0 };
                let debit = if flow.0 == id(member) { flow.3 as i128 } else { 0 };
                credit - debit
            })
            .sum::<i128>()
    };
    let owed: Vec<_> = given
        .iter()
        .map(|o| (o.payer_id, o.payee_id, o.asset_id, o.amount))
        .collect();
    for mode in [NettingMode::GrossGross, NettingMode::GrossNet, NettingMode::NetNet] {
        let close = |order: &[usize]| {
            let mut book = funded_book(&fixture);
            open(&mut book, &fixture, 130, 50, mode).unwrap();
            for index in order {
                book.submit_obligation(given[*index], &Instructions, 100).unwrap();
            }
            book.prepare_close(&id(50)).unwrap()
        };
        let forward = close(&[0, 1, 2, 3, 4]);
        let backward = close(&[4, 3, 2, 1, 0]);
        for proposal in [&forward, &backward] {
            let legs: Vec<_> = proposal
                .legs
                .iter()
                .map(|leg| (leg.payer_id, leg.payee_id, leg.asset_id, leg.amount))
                .collect();
            for asset in [69, 70] {
                for member in [20, 21, 22] {
                    assert_eq!(
                        position(&legs, asset, member),
                        position(&owed, asset, member)
                    );
                }
            }
        }
        assert_eq!(forward, backward);
    }
}

#[test]
fn balances_move_only_by_resolution() {
    let fixture = Fixture::new();
    let mut book = funded_book(&fixture);
    open(&mut book, &fixture, 130, 50, NettingMode::NetNet).unwrap();
    book.submit_obligation(owes(131, 51, 20, 21, 70, 100), &Instructions, 100)
        .unwrap();
    let proposal = book.prepare_close(&id(50)).unwrap();
    let approval = fixture.approval(proposal.proposal_digest, 100);
    book.commit_close(proposal, &approval, 100).unwrap();
    register(&mut book, &fixture, 140, facility(100)).unwrap();
    book.reserve_guarantee(reservation(141, 66, 40, 0), &Defmi, 100)
        .unwrap();
    book.bind_guarantee(id(142), id(66), id(90), 110).unwrap();
    book.consume_guarantee(claim_on(143, 66, 90), &Defmi, 110)
        .unwrap();
    default_of(&mut book, &fixture, 150, 63, 22, 120).unwrap();
    assert_eq!(book.ccp_capital_remaining(), 500);
    for member in [20, 21, 22] {
        assert_eq!(book.participant(&id(member)).unwrap().default_fund_remaining, 50);
        assert_eq!(book.margin(&id(member)).unwrap().encumbered_collateral, 900);
    }
    // What was used stays used, and the defaulter stays out.
    assert_eq!(
        book.bind_guarantee(id(143), id(66), id(90), 110),
        Err(DeCcpError::InvalidGuaranteeReservation)
    );
    let resolution = book.prepare_default_resolution(&id(63), 950).unwrap();
    let approval = fixture.approval(resolution.resolution_digest, 130);
    let receipt = DefmiSettlementReceipt {
        receipt_digest: id(64),
        context_digest: resolution.settlement_context_digest,
        finalized_at: 130,
    };
    book.commit_default_resolution(resolution, &approval, receipt, &Defmi, 130)
        .unwrap();
    assert_eq!(
        book.participant(&id(22)).unwrap().status,
        ParticipantStatus::Defaulted
    );
    assert_eq!(book.margin(&id(22)).unwrap().encumbered_collateral, 0);
    assert_eq!(book.participant(&id(22)).unwrap().default_fund_remaining, 0);
    assert_eq!(book.participant(&id(20)).unwrap().default_fund_remaining, 50);
    assert_eq!(book.ccp_capital_remaining(), 500);
    book.validate().unwrap();
}

#[test]
fn a_confidential_claim_spends_the_facility_state() {
    let fixture = Fixture::new();
    let mut book = hidden_book(&fixture);
    let binding = AethelDeCcpAdapter::reserve(&mut book, offer(), &Defmi, 100).unwrap();
    AethelDeCcpAdapter::bind_issuance(&mut book, id(142), &binding, id(55), 100).unwrap();
    let mut claim = ConfidentialGuaranteeClaimRequest {
        operation_id: id(143),
        hold_id: id(45),
        exposure_id: id(55),
        default_event_digest: id(56),
        expected_facility_state_digest: id(46),
        after_facility_state_digest: id(52),
        expected_facility_sequence: 1,
        transition_proof_digest: id(53),
        receipt: DefmiSettlementReceipt {
            receipt_digest: id(54),
            context_digest: [0; 32],
            finalized_at: 100,
        },
    };
    claim.receipt.context_digest = confidential_guarantee_claim_context(&claim);
    book.consume_confidential_guarantee(claim, &Defmi, 100).unwrap();
    let facility = *book.confidential_guarantee_facility(&id(40)).unwrap();
    assert_eq!(facility.sequence, 2);
    assert_eq!(facility.latest_facility_state_digest, id(52));
    assert_eq!(
        book.confidential_guarantee_hold(&id(45)).unwrap().status,
        GuaranteeHoldStatus::Consumed
    );
    // A second offer against the state that the claim spent is stale.
    let stale = AethelGuaranteeOffer {
        operation_id: id(144),
        deccp_hold_id: id(145),
        defmi_hold_id: id(147),
        deccp_expected_sequence: 1,
        deccp_expected_state_digest: id(46),
        deccp_after_state_digest: id(148),
        ..offer()
    };
    assert_eq!(
        AethelDeCcpAdapter::reserve(&mut book, stale, &Defmi, 100),
        Err(DeCcpError::StaleSequence)
    );
    book.validate().unwrap();
}

#[test]
fn an_approval_restores_no_other_snapshot() {
    let fixture = Fixture::new();
    let mut book = funded_book(&fixture);
    open(&mut book, &fixture, 130, 50, NettingMode::NetNet).unwrap();
    book.submit_obligation(owes(131, 51, 20, 21, 70, 100), &Instructions, 100)
        .unwrap();
    let snapshot = book.snapshot();
    let approval = fixture.approval(snapshot.digest().unwrap(), 100);
    assert_eq!(
        ClearingBook::restore(&fixture.authorities, snapshot.clone(), &approval),
        Ok(book)
    );
    let refused = |change: &dyn Fn(&mut deccp::ClearingSnapshot)| {
        let mut tampered = snapshot.clone();
        change(&mut tampered);
        assert_eq!(
            ClearingBook::restore(&fixture.authorities, tampered, &approval).map(|_| ()),
            Err(DeCcpError::InvalidQuorumApproval)
        );
    };
    refused(&|s| s.ccp_capital_remaining = 501);
    refused(&|s| s.ccp_capital_defmi_lock_id = id(88));
    refused(&|s| s.ccp_capital_proof_digest = id(88));
    refused(&|s| s.ccp_capital_valid_until = 1_001);
    refused(&|s| {
        s.used_operations.insert(id(200));
    });
    refused(&|s| {
        let mut member = *s.participants.get(&id(20)).unwrap();
        member.status = ParticipantStatus::Suspended;
        s.participants.insert(id(20), member);
    });
    refused(&|s| {
        let mut lot = *s.collateral.get(&id(160)).unwrap();
        lot.market_value = 1_001;
        s.collateral.insert(id(160), lot);
    });
    refused(&|s| {
        let mut account = *s.margins.get(&id(20)).unwrap();
        account.sequence = 10;
        s.margins.insert(id(20), account);
    });
    refused(&|s| {
        let mut obligation = *s.obligations.get(&id(51)).unwrap();
        obligation.payee_id = id(22);
        s.obligations.insert(id(51), obligation);
    });
    refused(&|s| {
        let mut cycle = s.cycles.remove(&id(50)).unwrap();
        cycle.mode = NettingMode::GrossNet;
        s.cycles.insert(id(50), cycle);
    });
    let other = Fixture::seeded(77, 3).authorities;
    assert_eq!(
        ClearingBook::restore(&other, snapshot.clone(), &approval).map(|_| ()),
        Err(DeCcpError::InvalidAuthoritySet)
    );
}

// ---------------------------------------------------------------- messages

#[test]
fn errors_have_messages() {
    assert_eq!(
        DeCcpError::ConservationFailure.message(),
        "netting conservation failed"
    );
    assert_eq!(
        DeCcpError::InstructionRejected("no".into()).message(),
        "settlement instruction rejected: no"
    );
    assert_eq!(
        DeCcpError::DuplicateDeFmiReference.message(),
        "DeFMI lock or hold reference is already assigned to another resource"
    );
}

/// A settlement layer that confirms nothing.
struct NoEvidence;

impl DeFmiPort for NoEvidence {
    fn verify_ccp_capital(
        &self,
        _capitalization: &CcpCapitalization,
        _now: u64,
    ) -> Result<(), String> {
        Err("no evidence".into())
    }

    fn verify_default_fund(
        &self,
        _admission: &ParticipantAdmission,
        _now: u64,
    ) -> Result<(), String> {
        Err("no evidence".into())
    }

    fn verify_collateral_lock(&self, _lot: &CollateralLot, _now: u64) -> Result<(), String> {
        Err("no evidence".into())
    }

    fn verify_guarantee_facility(
        &self,
        _facility: &GuaranteeFacility,
        _now: u64,
    ) -> Result<(), String> {
        Err("no evidence".into())
    }

    fn verify_guarantee_hold(
        &self,
        _reservation: &GuaranteeReservation,
        _now: u64,
    ) -> Result<(), String> {
        Err("no evidence".into())
    }

    fn verify_confidential_guarantee_facility(
        &self,
        _facility: &ConfidentialGuaranteeFacility,
        _now: u64,
    ) -> Result<(), String> {
        Err("no evidence".into())
    }

    fn verify_confidential_guarantee_hold(
        &self,
        _facility: &ConfidentialGuaranteeFacility,
        _reservation: &ConfidentialGuaranteeReservation,
        _now: u64,
    ) -> Result<(), String> {
        Err("no evidence".into())
    }

    fn verify_confidential_guarantee_release(
        &self,
        _facility: &ConfidentialGuaranteeFacility,
        _hold: &ConfidentialGuaranteeHold,
        _request: &ConfidentialGuaranteeReleaseRequest,
        _now: u64,
    ) -> Result<(), String> {
        Err("no evidence".into())
    }

    fn verify_confidential_guarantee_claim(
        &self,
        _facility: &ConfidentialGuaranteeFacility,
        _hold: &ConfidentialGuaranteeHold,
        _request: &ConfidentialGuaranteeClaimRequest,
        _now: u64,
    ) -> Result<(), String> {
        Err("no evidence".into())
    }

    fn verify_guarantee_release(
        &self,
        _expected_context: &[u8; 32],
        _receipt: &DefmiSettlementReceipt,
        _now: u64,
    ) -> Result<(), String> {
        Err("no evidence".into())
    }

    fn verify_settlement(
        &self,
        _expected_context: &[u8; 32],
        _receipt: &DefmiSettlementReceipt,
        _now: u64,
    ) -> Result<(), String> {
        Err("no evidence".into())
    }
}

/// A settlement layer that confirms everything.
struct AnyEvidence;

impl DeFmiPort for AnyEvidence {
    fn verify_ccp_capital(
        &self,
        _capitalization: &CcpCapitalization,
        _now: u64,
    ) -> Result<(), String> {
        Ok(())
    }

    fn verify_default_fund(
        &self,
        _admission: &ParticipantAdmission,
        _now: u64,
    ) -> Result<(), String> {
        Ok(())
    }

    fn verify_collateral_lock(&self, _lot: &CollateralLot, _now: u64) -> Result<(), String> {
        Ok(())
    }

    fn verify_guarantee_facility(
        &self,
        _facility: &GuaranteeFacility,
        _now: u64,
    ) -> Result<(), String> {
        Ok(())
    }

    fn verify_guarantee_hold(
        &self,
        _reservation: &GuaranteeReservation,
        _now: u64,
    ) -> Result<(), String> {
        Ok(())
    }

    fn verify_confidential_guarantee_facility(
        &self,
        _facility: &ConfidentialGuaranteeFacility,
        _now: u64,
    ) -> Result<(), String> {
        Ok(())
    }

    fn verify_confidential_guarantee_hold(
        &self,
        _facility: &ConfidentialGuaranteeFacility,
        _reservation: &ConfidentialGuaranteeReservation,
        _now: u64,
    ) -> Result<(), String> {
        Ok(())
    }

    fn verify_confidential_guarantee_release(
        &self,
        _facility: &ConfidentialGuaranteeFacility,
        _hold: &ConfidentialGuaranteeHold,
        _request: &ConfidentialGuaranteeReleaseRequest,
        _now: u64,
    ) -> Result<(), String> {
        Ok(())
    }

    fn verify_confidential_guarantee_claim(
        &self,
        _facility: &ConfidentialGuaranteeFacility,
        _hold: &ConfidentialGuaranteeHold,
        _request: &ConfidentialGuaranteeClaimRequest,
        _now: u64,
    ) -> Result<(), String> {
        Ok(())
    }

    fn verify_guarantee_release(
        &self,
        _expected_context: &[u8; 32],
        _receipt: &DefmiSettlementReceipt,
        _now: u64,
    ) -> Result<(), String> {
        Ok(())
    }

    fn verify_settlement(
        &self,
        _expected_context: &[u8; 32],
        _receipt: &DefmiSettlementReceipt,
        _now: u64,
    ) -> Result<(), String> {
        Ok(())
    }
}

