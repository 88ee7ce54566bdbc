use zec_nam::transaction::{ProofQuery, RejectReason, ValidationState};
use zec_nam::{
    AirdropWallet, CircuitProver, ClaimDescription, ClaimStatementOrchard, ClaimStatementSapling,
    EquivalenceStatement, FieldElement, MerkleProof, NoteCommitment, Nullifier, NullifierSet,
    OrchardNote, ProofBytes, PublicKey, SaplingNote, Scalar, ShieldedAirdropTransaction,
    ValueCommitment,
};

fn sapling(value: u64, position: u64, seed: u8) -> SaplingNote {
    SaplingNote {
        diversifier: [seed; 11],
        value,
        note_commitment: NoteCommitment([seed.wrapping_add(1); 32]),
        nullifier_key: Scalar([seed.wrapping_add(2); 32]),
        randomness: Scalar([seed.wrapping_add(3); 32]),
        position,
    }
}

fn orchard(value: u64, position: u64, seed: u8) -> OrchardNote {
    OrchardNote {
        diversifier: [seed; 11],
        value,
        note_commitment: NoteCommitment([seed.wrapping_add(1); 32]),
        nullifier_key: Scalar([seed.wrapping_add(2); 32]),
        randomness: Scalar([seed.wrapping_add(3); 32]),
        position,
        rho: FieldElement([seed.wrapping_add(4); 32]),
        psi: FieldElement([seed.wrapping_add(5); 32]),
    }
}

fn path() -> MerkleProof {
    MerkleProof(vec![[0u8; 32]; 32])
}

fn sapling_tx(note: &SaplingNote, set: &NullifierSet) -> ShieldedAirdropTransaction {
    ShieldedAirdropTransaction::create_sapling_to_masp_airdrop(
        note,
        &path(),
        set,
        1,
        &PublicKey([6u8; 32]),
    )
    .unwrap()
}

fn orchard_tx(note: &OrchardNote, set: &NullifierSet) -> ShieldedAirdropTransaction {
    ShieldedAirdropTransaction::create_orchard_to_masp_airdrop(
        note,
        &path(),
        set,
        1,
        &PublicKey([6u8; 32]),
    )
    .unwrap()
}

#[test]
fn sapling_claim_statement_holds_the_public_inputs_of_the_note() {
    let note = sapling(77, 4, 1);
    let mut set = NullifierSet::new();
    set.insert(Nullifier([8u8; 32]));
    set.insert(Nullifier([9u8; 32]));
    let claim = CircuitProver::prove_sapling_claim(&note, &path(), &set, &Scalar([0u8; 32]))
        .unwrap();
    assert_eq!(claim.sapling_root.0, [0u8; 32]);
    assert_eq!(claim.value_commitment, note.value_commitment());
    assert_eq!(claim.airdrop_nullifier, note.derive_claim_nullifier());
    assert_eq!(claim.randomized_key, PublicKey([0u8; 32]));
    assert_eq!(
        claim.nullifier_set,
        vec![Nullifier([8u8; 32]), Nullifier([9u8; 32])]
    );
    assert_eq!(claim.proof, ProofBytes(vec![0u8; 192]));
    assert!(CircuitProver::verify_claim_sapling(&claim).unwrap());
}

#[test]
fn orchard_claim_statement_holds_the_public_inputs_of_the_note() {
    let note = orchard(78, 5, 2);
    let set = NullifierSet::new();
    let claim = CircuitProver::prove_orchard_claim(&note, &path(), &set, &Scalar([0u8; 32]))
        .unwrap();
    assert_eq!(claim.orchard_root.0, [0u8; 32]);
    assert_eq!(claim.value_commitment, note.value_commitment());
    assert_eq!(claim.airdrop_nullifier, note.derive_claim_nullifier());
    assert_eq!(claim.randomized_key, PublicKey([0u8; 32]));
    assert!(claim.nullifier_set.is_empty());
    assert_eq!(claim.proof, ProofBytes(vec![0u8; 1024]));
    assert!(CircuitProver::verify_claim_orchard(&claim).unwrap());
}

#[test]
fn a_claim_is_assembled_around_the_proof_that_a_backend_gave() {
    let note = sapling(77, 4, 1);
    let set = NullifierSet::new();
    let claim = ClaimStatementSapling::assemble(&note, &set, ProofBytes(vec![1, 2, 3]));
    assert_eq!(claim.proof, ProofBytes(vec![1, 2, 3]));
    assert_eq!(claim.airdrop_nullifier, note.derive_claim_nullifier());
    assert!(!CircuitProver::verify_claim_sapling(&claim).unwrap());
    let note = orchard(77, 4, 1);
    let claim = ClaimStatementOrchard::assemble(&note, &set, ProofBytes(vec![0u8; 192]));
    assert_eq!(claim.airdrop_nullifier, note.derive_claim_nullifier());
    assert!(!CircuitProver::verify_claim_orchard(&claim).unwrap());
}

#[test]
fn placeholder_equivalence_statement_is_zero_with_a_proof_of_192_bytes() {
    let equiv =
        CircuitProver::prove_equivalence(5, &Scalar([1u8; 32]), &Scalar([2u8; 32])).unwrap();
    assert_eq!(equiv.sapling_value_commitment, ValueCommitment([0u8; 32]));
    assert_eq!(equiv.orchard_value_commitment, ValueCommitment([0u8; 32]));
    assert_eq!(equiv.proof, ProofBytes(vec![0u8; 192]));
    assert!(CircuitProver::verify_equivalence(&equiv).unwrap());
}

#[test]
fn the_placeholder_backend_accepts_a_proof_by_its_length_alone() {
    let note = sapling(1, 1, 1);
    let set = NullifierSet::new();
    for len in [0usize, 191, 193, 1024] {
        let claim = ClaimStatementSapling::assemble(&note, &set, ProofBytes(vec![7u8; len]));
        assert!(!CircuitProver::verify_claim_sapling(&claim).unwrap());
    }
    let claim = ClaimStatementSapling::assemble(&note, &set, ProofBytes(vec![7u8; 192]));
    assert!(CircuitProver::verify_claim_sapling(&claim).unwrap());
    let note = orchard(1, 1, 1);
    for len in [0usize, 192, 1023, 1025] {
        let claim = ClaimStatementOrchard::assemble(&note, &set, ProofBytes(vec![7u8; len]));
        assert!(!CircuitProver::verify_claim_orchard(&claim).unwrap());
    }
    let equiv = EquivalenceStatement {
        sapling_value_commitment: ValueCommitment([0u8; 32]),
        orchard_value_commitment: ValueCommitment([0u8; 32]),
        proof: ProofBytes(vec![0u8; 191]),
    };
    assert!(!CircuitProver::verify_equivalence(&equiv).unwrap());
}

#[test]
fn sapling_transaction_is_assembled_from_claim_mint_and_equivalence() {
    let note = sapling(1_000_000, 0, 1);
    let set = NullifierSet::new();
    let tx = sapling_tx(&note, &set);
    match &tx.claim_description {
        ClaimDescription::Sapling(claim) => {
            assert_eq!(claim.airdrop_nullifier, note.derive_claim_nullifier());
            assert_eq!(claim.proof.0.len(), 192);
        }
        ClaimDescription::Orchard(_) => panic!("wrong pool"),
    }
    assert_eq!(tx.masp_mint_description.recipient, PublicKey([6u8; 32]));
    assert_eq!(tx.masp_mint_description.masp_root.0, [0u8; 32]);
    assert_eq!(tx.masp_mint_description.value_commitment.0, [0u8; 32]);
    assert_eq!(tx.masp_mint_description.proof.0, vec![0u8; 192]);
    let equiv = tx.equivalence_description.as_ref().unwrap();
    assert_eq!(equiv.sapling_value_commitment, note.value_commitment());
    assert_eq!(equiv.orchard_value_commitment, ValueCommitment([0u8; 32]));
    assert_eq!(equiv.proof.0, vec![0u8; 192]);
    assert_eq!(tx.binding_signature.0, [0u8; 64]);
    assert_eq!(tx.get_airdrop_nullifier(), note.derive_claim_nullifier());
}

#[test]
fn orchard_transaction_is_assembled_from_claim_mint_and_equivalence() {
    let note = orchard(2_000_000, 9, 3);
    let set = NullifierSet::new();
    let tx = orchard_tx(&note, &set);
    match &tx.claim_description {
        ClaimDescription::Orchard(claim) => {
            assert_eq!(claim.airdrop_nullifier, note.derive_claim_nullifier());
            assert_eq!(claim.proof.0.len(), 1024);
        }
        ClaimDescription::Sapling(_) => panic!("wrong pool"),
    }
    let equiv = tx.equivalence_description.as_ref().unwrap();
    assert_eq!(equiv.sapling_value_commitment, ValueCommitment([0u8; 32]));
    assert_eq!(equiv.orchard_value_commitment, note.value_commitment());
    assert_eq!(tx.get_airdrop_nullifier(), note.derive_claim_nullifier());
}

#[test]
fn a_fresh_transaction_of_either_pool_is_accepted() {
    let registry = NullifierSet::new();
    let tx = sapling_tx(&sapling(5, 1, 1), &registry);
    assert!(tx.validate(&registry).unwrap());
    assert_eq!(tx.run_validation(&registry), ValidationState::Accepted);
    let tx = orchard_tx(&orchard(5, 1, 1), &registry);
    assert!(tx.validate(&registry).unwrap());
    assert_eq!(tx.run_validation(&registry), ValidationState::Accepted);
}

#[test]
fn a_recorded_nullifier_rejects_the_transaction_as_already_claimed() {
    let mut registry = NullifierSet::new();
    let note = sapling(5, 1, 1);
    let tx = sapling_tx(&note, &registry);
    registry.insert(tx.get_airdrop_nullifier());
    assert!(!tx.validate(&registry).unwrap());
    assert_eq!(
        tx.run_validation(&registry),
        ValidationState::Rejected(RejectReason::AlreadyClaimed)
    );
}

#[test]
fn a_bad_claim_proof_is_rejected_first() {
    let mut registry = NullifierSet::new();
    let note = sapling(5, 1, 1);
    let mut tx = sapling_tx(&note, &registry);
    if let ClaimDescription::Sapling(claim) = &mut tx.claim_description {
        claim.proof = ProofBytes(vec![0u8; 10]);
    }
    assert_eq!(
        tx.run_validation(&registry),
        ValidationState::Rejected(RejectReason::InvalidClaimProof)
    );
    // The proof is checked before the registry is.
    registry.insert(tx.get_airdrop_nullifier());
    assert_eq!(
        tx.run_validation(&registry),
        ValidationState::Rejected(RejectReason::InvalidClaimProof)
    );
    assert!(!tx.validate(&registry).unwrap());
}

#[test]
fn a_bad_equivalence_proof_is_rejected_after_the_nullifier_check() {
    let mut registry = NullifierSet::new();
    let note = orchard(5, 1, 1);
    let mut tx = orchard_tx(&note, &registry);
    tx.equivalence_description.as_mut().unwrap().proof = ProofBytes(vec![0u8; 3]);
    assert_eq!(
        tx.run_validation(&registry),
        ValidationState::Rejected(RejectReason::InvalidEquivalenceProof)
    );
    registry.insert(tx.get_airdrop_nullifier());
    assert_eq!(
        tx.run_validation(&registry),
        ValidationState::Rejected(RejectReason::AlreadyClaimed)
    );
}

#[test]
fn the_equivalence_statement_must_commit_to_the_claimed_value_for_its_own_pool() {
    let registry = NullifierSet::new();
    let note = sapling(5, 1, 1);
    let mut tx = sapling_tx(&note, &registry);
    tx.equivalence_description.as_mut().unwrap().sapling_value_commitment =
        ValueCommitment([1u8; 32]);
    assert_eq!(
        tx.run_validation(&registry),
        ValidationState::Rejected(RejectReason::CommitmentMismatch)
    );
    // The commitment for the other pool is not compared.
    let mut tx = sapling_tx(&note, &registry);
    tx.equivalence_description.as_mut().unwrap().orchard_value_commitment =
        ValueCommitment([1u8; 32]);
    assert_eq!(tx.run_validation(&registry), ValidationState::Accepted);

    let note = orchard(5, 1, 1);
    let mut tx = orchard_tx(&note, &registry);
    tx.equivalence_description.as_mut().unwrap().orchard_value_commitment =
        ValueCommitment([1u8; 32]);
    assert_eq!(
        tx.run_validation(&registry),
        ValidationState::Rejected(RejectReason::CommitmentMismatch)
    );
    let mut tx = orchard_tx(&note, &registry);
    tx.equivalence_description.as_mut().unwrap().sapling_value_commitment =
        ValueCommitment([1u8; 32]);
    assert_eq!(tx.run_validation(&registry), ValidationState::Accepted);
}

#[test]
fn a_bad_equivalence_proof_is_reported_before_a_mismatch() {
    let registry = NullifierSet::new();
    let note = sapling(5, 1, 1);
    let mut tx = sapling_tx(&note, &registry);
    let equiv = tx.equivalence_description.as_mut().unwrap();
    equiv.sapling_value_commitment = ValueCommitment([1u8; 32]);
    equiv.proof = ProofBytes(Vec::new());
    assert_eq!(
        tx.run_validation(&registry),
        ValidationState::Rejected(RejectReason::InvalidEquivalenceProof)
    );
}

#[test]
fn a_transaction_without_equivalence_statement_skips_that_check() {
    let registry = NullifierSet::new();
    let note = sapling(5, 1, 1);
    let mut tx = sapling_tx(&note, &registry);
    tx.equivalence_description = None;
    assert_eq!(tx.run_validation(&registry), ValidationState::Accepted);
    assert!(tx.validate(&registry).unwrap());
}

#[test]
fn the_state_machine_walks_through_its_states_in_order() {
    let registry = NullifierSet::new();
    let note = sapling(5, 1, 1);
    let tx = sapling_tx(&note, &registry);
    let s0 = ValidationState::Unvalidated;
    assert!(!s0.is_terminal());
    assert_eq!(tx.next_query(s0), Some(ProofQuery::Claim));
    let s1 = tx.advance(s0, &registry, true);
    assert_eq!(s1, ValidationState::ProofChecked);
    assert_eq!(tx.next_query(s1), None);
    let s2 = tx.advance(s1, &registry, false);
    assert_eq!(s2, ValidationState::NullifierChecked);
    assert_eq!(tx.next_query(s2), Some(ProofQuery::Equivalence));
    let s3 = tx.advance(s2, &registry, true);
    assert_eq!(s3, ValidationState::EquivalenceChecked);
    assert_eq!(tx.next_query(s3), None);
    let s4 = tx.advance(s3, &registry, false);
    assert_eq!(s4, ValidationState::Accepted);
    assert!(s4.is_terminal());
    assert_eq!(tx.advance(s4, &registry, false), ValidationState::Accepted);
    assert_eq!(tx.next_query(s4), None);
}

#[test]
fn every_failed_step_ends_the_validation_for_good() {
    let mut registry = NullifierSet::new();
    let note = sapling(5, 1, 1);
    let tx = sapling_tx(&note, &registry);
    let rejected = tx.advance(ValidationState::Unvalidated, &registry, false);
    assert_eq!(
        rejected,
        ValidationState::Rejected(RejectReason::InvalidClaimProof)
    );
    assert!(rejected.is_terminal());
    assert_eq!(tx.advance(rejected, &registry, true), rejected);
    assert_eq!(tx.next_query(rejected), None);

    let rejected = tx.advance(ValidationState::NullifierChecked, &registry, false);
    assert_eq!(
        rejected,
        ValidationState::Rejected(RejectReason::InvalidEquivalenceProof)
    );

    registry.insert(tx.get_airdrop_nullifier());
    let rejected = tx.advance(ValidationState::ProofChecked, &registry, true);
    assert_eq!(
        rejected,
        ValidationState::Rejected(RejectReason::AlreadyClaimed)
    );
}

#[test]
fn without_equivalence_the_nullifier_check_leads_straight_to_acceptance() {
    let registry = NullifierSet::new();
    let mut tx = sapling_tx(&sapling(5, 1, 1), &registry);
    tx.equivalence_description = None;
    assert_eq!(tx.next_query(ValidationState::NullifierChecked), None);
    assert_eq!(
        tx.advance(ValidationState::NullifierChecked, &registry, false),
        ValidationState::Accepted
    );
}

#[test]
fn serialized_sapling_transaction_has_the_documented_layout() {
    let note = sapling(0x0102, 0, 1);
    let set = NullifierSet::new();
    let tx = sapling_tx(&note, &set);
    let data = tx.serialize();
    assert_eq!(data.len(), 1 + 32 * 3 + 32 * 2 + 1 + 32 * 2 + 64);
    assert_eq!(data[0], 0);
    assert_eq!(&data[1..33], &note.value_commitment().0);
    assert_eq!(&data[33..65], &[0u8; 32]);
    assert_eq!(&data[65..97], &note.derive_claim_nullifier().0);
    assert_eq!(&data[97..129], &[0u8; 32]);
    assert_eq!(&data[129..161], &[6u8; 32]);
    assert_eq!(data[161], 1);
    assert_eq!(&data[162..194], &note.value_commitment().0);
    assert_eq!(&data[194..226], &[0u8; 32]);
    assert_eq!(&data[226..290], &[0u8; 64]);
}

#[test]
fn serialized_orchard_transaction_without_equivalence_is_shorter() {
    let note = orchard(0x0102, 0, 1);
    let set = NullifierSet::new();
    let mut tx = orchard_tx(&note, &set);
    tx.equivalence_description = None;
    tx.binding_signature.0[63] = 9;
    if let ClaimDescription::Orchard(claim) = &mut tx.claim_description {
        claim.orchard_root.0 = [5u8; 32];
    }
    let data = tx.serialize();
    assert_eq!(data.len(), 1 + 32 * 3 + 32 * 2 + 1 + 64);
    assert_eq!(data[0], 1);
    assert_eq!(&data[1..33], &note.value_commitment().0);
    assert_eq!(&data[33..65], &[5u8; 32]);
    assert_eq!(&data[65..97], &note.derive_claim_nullifier().0);
    assert_eq!(data[161], 0);
    assert_eq!(data[225], 9);
}

#[test]
fn wallet_in_memory_finds_the_notes_worth_at_least_a_minimum() {
    let mut wallet = AirdropWallet::new();
    wallet.add_sapling_note(sapling(10, 0, 1));
    wallet.add_sapling_note(sapling(30, 1, 2));
    wallet.add_sapling_note(sapling(20, 2, 3));
    wallet.add_orchard_note(orchard(5, 0, 4));
    wallet.add_orchard_note(orchard(25, 1, 5));
    let (s, o) = wallet.find_eligible_notes(20);
    assert_eq!(s.len(), 2);
    assert_eq!(s[0].value, 30);
    assert_eq!(s[1].value, 20);
    assert_eq!(o.len(), 1);
    assert_eq!(o[0].value, 25);
    let (s, o) = wallet.find_eligible_notes(0);
    assert_eq!((s.len(), o.len()), (3, 2));
    let (s, o) = wallet.find_eligible_notes(31);
    assert_eq!((s.len(), o.len()), (0, 0));
}

#[test]
fn wallet_in_memory_rejects_an_index_without_note() {
    let mut wallet = AirdropWallet::new();
    let failed = wallet.create_sapling_airdrop_tx(0, 1, &[1, 2, 3]);
    assert_eq!(failed.unwrap_err().0, "Invalid note index");
    let failed = wallet.create_orchard_airdrop_tx(0, 1, &[1, 2, 3]);
    assert_eq!(failed.unwrap_err().0, "Invalid note index");
    wallet.add_sapling_note(sapling(10, 0, 1));
    assert!(wallet.create_sapling_airdrop_tx(0, 1, &[1, 2, 3]).is_ok());
    assert!(wallet.create_sapling_airdrop_tx(1, 1, &[1, 2, 3]).is_err());
    assert!(wallet.create_orchard_airdrop_tx(0, 1, &[1, 2, 3]).is_err());
}

#[test]
fn recipient_address_is_cut_or_padded_to_32_bytes() {
    let mut wallet = AirdropWallet::new();
    wallet.add_sapling_note(sapling(10, 0, 1));
    let tx = wallet.create_sapling_airdrop_tx(0, 1, &[1, 2, 3]).unwrap();
    let mut expected = [0u8; 32];
    expected[..3].copy_from_slice(&[1, 2, 3]);
    assert_eq!(tx.masp_mint_description.recipient.0, expected);
    let long: Vec<u8> = (0u8..40).collect();
    let tx = wallet.create_sapling_airdrop_tx(0, 1, &long).unwrap();
    let mut expected = [0u8; 32];
    expected.copy_from_slice(&long[..32]);
    assert_eq!(tx.masp_mint_description.recipient.0, expected);
    let tx = wallet.create_sapling_airdrop_tx(0, 1, &[]).unwrap();
    assert_eq!(tx.masp_mint_description.recipient.0, [0u8; 32]);
}

#[test]
fn the_snapshot_in_a_claim_is_the_spend_registry() {
    let mut wallet = AirdropWallet::new();
    wallet.add_orchard_note(orchard(10, 0, 1));
    wallet.nullifier_set.insert(Nullifier([4u8; 32]));
    wallet.airdrop_nullifier_set.insert(Nullifier([5u8; 32]));
    let tx = wallet.create_orchard_airdrop_tx(0, 1, &[1]).unwrap();
    match &tx.claim_description {
        ClaimDescription::Orchard(claim) => {
            assert_eq!(claim.nullifier_set, vec![Nullifier([4u8; 32])]);
        }
        ClaimDescription::Sapling(_) => panic!("wrong pool"),
    }
}

#[test]
fn wallet_in_memory_accepts_an_orchard_claim_once() {
    let mut wallet = AirdropWallet::new();
    wallet.add_orchard_note(orchard(10, 0, 1));
    let tx = wallet.create_orchard_airdrop_tx(0, 5, &[9u8; 32]).unwrap();
    assert!(wallet.process_airdrop_transaction(&tx).unwrap());
    assert!(wallet.airdrop_nullifier_set.contains(&tx.get_airdrop_nullifier()));
    assert_eq!(wallet.airdrop_nullifier_set.len(), 1);
    let again = wallet.create_orchard_airdrop_tx(0, 5, &[9u8; 32]).unwrap();
    assert!(!wallet.process_airdrop_transaction(&again).unwrap());
    assert!(!wallet.process_airdrop_transaction(&tx).unwrap());
    assert_eq!(wallet.airdrop_nullifier_set.len(), 1);
}

#[test]
fn a_rejected_transaction_leaves_the_registry_as_it_was() {
    let mut wallet = AirdropWallet::new();
    wallet.add_sapling_note(sapling(10, 0, 1));
    let mut tx = wallet.create_sapling_airdrop_tx(0, 5, &[9u8; 32]).unwrap();
    if let ClaimDescription::Sapling(claim) = &mut tx.claim_description {
        claim.proof = ProofBytes(Vec::new());
    }
    assert!(!wallet.process_airdrop_transaction(&tx).unwrap());
    assert_eq!(wallet.airdrop_nullifier_set.len(), 0);
    assert_eq!(wallet.nullifier_set.len(), 0);
    assert_eq!(wallet.sapling_notes.len(), 1);
}

#[test]
fn two_notes_with_different_keys_are_claimed_independently() {
    let mut wallet = AirdropWallet::new();
    wallet.add_sapling_note(sapling(10, 0, 1));
    wallet.add_sapling_note(sapling(10, 1, 50));
    let a = wallet.create_sapling_airdrop_tx(0, 5, &[9u8; 32]).unwrap();
    let b = wallet.create_sapling_airdrop_tx(1, 5, &[9u8; 32]).unwrap();
    assert_ne!(a.get_airdrop_nullifier(), b.get_airdrop_nullifier());
    assert!(wallet.process_airdrop_transaction(&a).unwrap());
    assert!(wallet.process_airdrop_transaction(&b).unwrap());
    assert!(!wallet.process_airdrop_transaction(&a).unwrap());
    assert!(!wallet.process_airdrop_transaction(&b).unwrap());
}

#[test]
fn the_verdicts_of_a_backend_decide_in_the_order_of_the_checks() {
    let mut registry = NullifierSet::new();
    let tx = sapling_tx(&sapling(5, 1, 1), &registry);
    assert_eq!(tx.conclude(&registry, true, true), ValidationState::Accepted);
    assert_eq!(
        tx.conclude(&registry, false, true),
        ValidationState::Rejected(RejectReason::InvalidClaimProof)
    );
    assert_eq!(
        tx.conclude(&registry, true, false),
        ValidationState::Rejected(RejectReason::InvalidEquivalenceProof)
    );
    assert_eq!(
        tx.conclude(&registry, false, false),
        ValidationState::Rejected(RejectReason::InvalidClaimProof)
    );
    registry.insert(tx.get_airdrop_nullifier());
    assert_eq!(
        tx.conclude(&registry, true, true),
        ValidationState::Rejected(RejectReason::AlreadyClaimed)
    );
    assert_eq!(
        tx.conclude(&registry, true, false),
        ValidationState::Rejected(RejectReason::AlreadyClaimed)
    );
    assert_eq!(
        tx.conclude(&registry, false, true),
        ValidationState::Rejected(RejectReason::InvalidClaimProof)
    );
}

#[test]
fn the_placeholder_backend_answers_both_queries() {
    let registry = NullifierSet::new();
    let mut tx = orchard_tx(&orchard(5, 1, 1), &registry);
    assert!(tx.placeholder_verdict(ProofQuery::Claim));
    assert!(tx.placeholder_verdict(ProofQuery::Equivalence));
    tx.equivalence_description.as_mut().unwrap().proof = ProofBytes(vec![1]);
    assert!(!tx.placeholder_verdict(ProofQuery::Equivalence));
    if let ClaimDescription::Orchard(claim) = &mut tx.claim_description {
        claim.proof = ProofBytes(vec![0u8; 192]);
    }
    assert!(!tx.placeholder_verdict(ProofQuery::Claim));
    tx.equivalence_description = None;
    assert!(tx.placeholder_verdict(ProofQuery::Equivalence));
}

#[test]
fn a_protocol_error_reads_as_a_line_of_text() {
    let mut wallet = AirdropWallet::new();
    let error = wallet.create_sapling_airdrop_tx(0, 1, &[]).unwrap_err();
    assert_eq!(error.to_string(), "Protocol Error: Invalid note index");
    wallet.add_sapling_note(sapling(1, 1, 1));
    assert_eq!(
        zec_nam::ProtocolError(String::new()).to_string(),
        "Protocol Error: "
    );
}
