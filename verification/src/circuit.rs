//! Claim and equivalence statements, and the placeholder proof backend that
//! fills and checks their proof bytes.

use vstd::prelude::*;
use crate::note::{OrchardNote, SaplingNote};
use crate::nullifier_set::NullifierSet;
use crate::primitives::{
    le_padded32, zero32, zero_bytes, zeros, MerkleProof, MerkleRoot, Nullifier, ProofBytes,
    ProtocolError, PublicKey, Scalar, ValueCommitment,
};

verus! {

/// Length in bytes of a claim proof of the first source pool.
pub const SAPLING_PROOF_LEN: usize = 192;

/// Length in bytes of a claim proof of the second source pool.
pub const ORCHARD_PROOF_LEN: usize = 1024;

/// Length in bytes of an equivalence proof.
pub const EQUIVALENCE_PROOF_LEN: usize = 192;

/// The public inputs of a first-pool claim, and its proof.
#[derive(Debug, Clone)]
pub struct ClaimStatementSapling {
    pub sapling_root: MerkleRoot,
    pub value_commitment: ValueCommitment,
    pub airdrop_nullifier: Nullifier,
    pub randomized_key: PublicKey,
    pub nullifier_set: Vec<Nullifier>,
    pub proof: ProofBytes,
}

/// The public inputs of a second-pool claim, and its proof.
#[derive(Debug, Clone)]
pub struct ClaimStatementOrchard {
    pub orchard_root: MerkleRoot,
    pub value_commitment: ValueCommitment,
    pub airdrop_nullifier: Nullifier,
    pub randomized_key: PublicKey,
    pub nullifier_set: Vec<Nullifier>,
    pub proof: ProofBytes,
}

/// Two value commitments, one per source pool, and a proof that they commit
/// to the same value.
#[derive(Debug, Clone)]
pub struct EquivalenceStatement {
    pub sapling_value_commitment: ValueCommitment,
    pub orchard_value_commitment: ValueCommitment,
    pub proof: ProofBytes,
}

impl ClaimStatementSapling {
    /// Whether `self` is the claim of `note` made against the set with the
    /// members `snapshot`, carrying the proof bytes `proof`.
    pub open spec fn claims(
        self,
        note: SaplingNote,
        snapshot: Seq<Nullifier>,
        proof: Seq<u8>,
    ) -> bool {
        &&& self.sapling_root.0@ == zeros(32)
        &&& self.value_commitment.0@ == le_padded32(note.value)
        &&& self.airdrop_nullifier == note.claim_nullifier()
        &&& self.randomized_key.0@ == zeros(32)
        &&& self.nullifier_set@ == snapshot
        &&& self.proof.0@ == proof
    }

    /// Assembles the claim of `note` around the proof bytes that a proof
    /// backend produced: the claim nullifier derived from the note, the
    /// commitment to its value, and the members of `nullifier_set` as they
    /// stand now.
    pub fn assemble(note: &SaplingNote, nullifier_set: &NullifierSet, proof: ProofBytes) -> (claim:
        Self)
        ensures
            claim.claims(*note, nullifier_set.elements(), proof.0@),
    {
        let airdrop_nullifier = note.derive_claim_nullifier();
        ClaimStatementSapling {
            sapling_root: MerkleRoot(zero32()),
            value_commitment: note.value_commitment(),
            airdrop_nullifier,
            randomized_key: PublicKey(zero32()),
            nullifier_set: nullifier_set.to_vec(),
            proof,
        }
    }
}

impl ClaimStatementOrchard {
    /// Whether `self` is the claim of `note` made against the set with the
    /// members `snapshot`, carrying the proof bytes `proof`.
    pub open spec fn claims(
        self,
        note: OrchardNote,
        snapshot: Seq<Nullifier>,
        proof: Seq<u8>,
    ) -> bool {
        &&& self.orchard_root.0@ == zeros(32)
        &&& self.value_commitment.0@ == le_padded32(note.value)
        &&& self.airdrop_nullifier == note.claim_nullifier()
        &&& self.randomized_key.0@ == zeros(32)
        &&& self.nullifier_set@ == snapshot
        &&& self.proof.0@ == proof
    }

    /// Assembles the claim of `note` around the proof bytes that a proof
    /// backend produced.
    pub fn assemble(note: &OrchardNote, nullifier_set: &NullifierSet, proof: ProofBytes) -> (claim:
        Self)
        ensures
            claim.claims(*note, nullifier_set.elements(), proof.0@),
    {
        let airdrop_nullifier = note.derive_claim_nullifier();
        ClaimStatementOrchard {
            orchard_root: MerkleRoot(zero32()),
            value_commitment: note.value_commitment(),
            airdrop_nullifier,
            randomized_key: PublicKey(zero32()),
            nullifier_set: nullifier_set.to_vec(),
            proof,
        }
    }
}

/// The placeholder proof backend: its proofs are zero bytes of the length
/// fixed for the pool, and it accepts a proof exactly when the length is
/// right.
pub struct CircuitProver;

impl CircuitProver {
    /// What the backend says of a first-pool claim.
    pub open spec fn accepts_sapling(claim: ClaimStatementSapling) -> bool {
        claim.proof.0@.len() == SAPLING_PROOF_LEN
    }

    /// What the backend says of a second-pool claim.
    pub open spec fn accepts_orchard(claim: ClaimStatementOrchard) -> bool {
        claim.proof.0@.len() == ORCHARD_PROOF_LEN
    }

    /// What the backend says of an equivalence statement.
    pub open spec fn accepts_equivalence(equiv: EquivalenceStatement) -> bool {
        equiv.proof.0@.len() == EQUIVALENCE_PROOF_LEN
    }

    /// Builds the claim statement of a first-pool note with a placeholder
    /// proof. Never fails.
    pub fn prove_sapling_claim(
        note: &SaplingNote,
        _merkle_path: &MerkleProof,
        nullifier_set: &NullifierSet,
        _alpha: &Scalar,
    ) -> (built: Result<ClaimStatementSapling, ProtocolError>)
        ensures
            built matches Ok(claim) && claim.claims(
                *note,
                nullifier_set.elements(),
                zeros(SAPLING_PROOF_LEN as nat),
            ),
    {
        let proof = ProofBytes(zero_bytes(SAPLING_PROOF_LEN));
        Ok(ClaimStatementSapling::assemble(note, nullifier_set, proof))
    }

    /// Builds the claim statement of a second-pool note with a placeholder
    /// proof. Never fails.
    pub fn prove_orchard_claim(
        note: &OrchardNote,
        _merkle_path: &MerkleProof,
        nullifier_set: &NullifierSet,
        _alpha: &Scalar,
    ) -> (built: Result<ClaimStatementOrchard, ProtocolError>)
        ensures
            built matches Ok(claim) && claim.claims(
                *note,
                nullifier_set.elements(),
                zeros(ORCHARD_PROOF_LEN as nat),
            ),
    {
        let proof = ProofBytes(zero_bytes(ORCHARD_PROOF_LEN));
        Ok(ClaimStatementOrchard::assemble(note, nullifier_set, proof))
    }

    /// Builds the placeholder equivalence statement: both commitments zero,
    /// whatever the value and the randomness. Never fails.
    pub fn prove_equivalence(
        _value: u64,
        _sapling_randomness: &Scalar,
        _orchard_randomness: &Scalar,
    ) -> (built: Result<EquivalenceStatement, ProtocolError>)
        ensures
            built matches Ok(equiv) && equiv.sapling_value_commitment.0@ == zeros(32)
                && equiv.orchard_value_commitment.0@ == zeros(32) && equiv.proof.0@ == zeros(
                EQUIVALENCE_PROOF_LEN as nat,
            ),
    {
        Ok(
            EquivalenceStatement {
                sapling_value_commitment: ValueCommitment(zero32()),
                orchard_value_commitment: ValueCommitment(zero32()),
                proof: ProofBytes(zero_bytes(EQUIVALENCE_PROOF_LEN)),
            },
        )
    }

    /// Checks the proof of a first-pool claim. Never fails.
    pub fn verify_claim_sapling(claim: &ClaimStatementSapling) -> (verdict: Result<
        bool,
        ProtocolError,
    >)
        ensures
            verdict matches Ok(valid) && valid == Self::accepts_sapling(*claim),
    {
        Ok(claim.proof.0.len() == SAPLING_PROOF_LEN)
    }

    /// Checks the proof of a second-pool claim. Never fails.
    pub fn verify_claim_orchard(claim: &ClaimStatementOrchard) -> (verdict: Result<
        bool,
        ProtocolError,
    >)
        ensures
            verdict matches Ok(valid) && valid == Self::accepts_orchard(*claim),
    {
        Ok(claim.proof.0.len() == ORCHARD_PROOF_LEN)
    }

    /// Checks the proof of an equivalence statement. Never fails.
    pub fn verify_equivalence(equiv: &EquivalenceStatement) -> (verdict: Result<
        bool,
        ProtocolError,
    >)
        ensures
            verdict matches Ok(valid) && valid == Self::accepts_equivalence(*equiv),
    {
        Ok(equiv.proof.0.len() == EQUIVALENCE_PROOF_LEN)
    }
}

} // verus!
