//! The notes of the two source pools.

use vstd::prelude::*;
use crate::derivation::{
    orchard_airdrop_nullifier, sapling_airdrop_nullifier, AirdropNullifierDerivation,
};
use crate::primitives::{
    le_padded32, le_padded32_bytes, FieldElement, NoteCommitment, Nullifier, Scalar,
    ValueCommitment,
};

verus! {

/// A note of the first source pool.
#[derive(Debug, Clone, Copy)]
pub struct SaplingNote {
    pub diversifier: [u8; 11],
    pub value: u64,
    pub note_commitment: NoteCommitment,
    pub nullifier_key: Scalar,
    pub randomness: Scalar,
    pub position: u64,
}

/// A note of the second source pool. `rho` and `psi` enter the derivation of
/// its claim nullifier.
#[derive(Debug, Clone, Copy)]
pub struct OrchardNote {
    pub diversifier: [u8; 11],
    pub value: u64,
    pub note_commitment: NoteCommitment,
    pub nullifier_key: Scalar,
    pub randomness: Scalar,
    pub position: u64,
    pub rho: FieldElement,
    pub psi: FieldElement,
}

impl SaplingNote {
    /// The one-time nullifier that a claim of this note publishes.
    pub open spec fn claim_nullifier(self) -> Nullifier {
        sapling_airdrop_nullifier(self.nullifier_key, self.randomness)
    }

    /// Derives the one-time nullifier that a claim of this note publishes.
    pub fn derive_claim_nullifier(&self) -> (nullifier: Nullifier)
        ensures
            nullifier == self.claim_nullifier(),
    {
        match AirdropNullifierDerivation::derive_sapling_airdrop_nullifier(
            &self.nullifier_key,
            &self.randomness,
        ) {
            Ok(nullifier) => nullifier,
            Err(_) => self.nullifier(),
        }
    }

    /// The commitment to the note's value: the value in little-endian order,
    /// zero-padded to 32 bytes.
    pub fn value_commitment(&self) -> (commitment: ValueCommitment)
        ensures
            commitment.0@ == le_padded32(self.value),
    {
        ValueCommitment(le_padded32_bytes(self.value))
    }

    /// The note commitment stored with the note.
    pub fn commitment(&self) -> (commitment: NoteCommitment)
        ensures
            commitment == self.note_commitment,
    {
        self.note_commitment
    }

    /// The spend nullifier of the note: its tree position in little-endian
    /// order, zero-padded to 32 bytes.
    pub fn nullifier(&self) -> (nullifier: Nullifier)
        ensures
            nullifier.0@ == le_padded32(self.position),
    {
        Nullifier(le_padded32_bytes(self.position))
    }
}

impl OrchardNote {
    /// The one-time nullifier that a claim of this note publishes.
    pub open spec fn claim_nullifier(self) -> Nullifier {
        orchard_airdrop_nullifier(self.nullifier_key, self.rho, self.psi, self.note_commitment)
    }

    /// Derives the one-time nullifier that a claim of this note publishes.
    pub fn derive_claim_nullifier(&self) -> (nullifier: Nullifier)
        ensures
            nullifier == self.claim_nullifier(),
    {
        match AirdropNullifierDerivation::derive_orchard_airdrop_nullifier(
            &self.nullifier_key,
            &self.rho,
            &self.psi,
            &self.note_commitment,
        ) {
            Ok(nullifier) => nullifier,
            Err(_) => self.nullifier(),
        }
    }

    /// The commitment to the note's value: the value in little-endian order,
    /// zero-padded to 32 bytes.
    pub fn value_commitment(&self) -> (commitment: ValueCommitment)
        ensures
            commitment.0@ == le_padded32(self.value),
    {
        ValueCommitment(le_padded32_bytes(self.value))
    }

    /// The note commitment stored with the note.
    pub fn commitment(&self) -> (commitment: NoteCommitment)
        ensures
            commitment == self.note_commitment,
    {
        self.note_commitment
    }

    /// The spend nullifier of the note: its tree position in little-endian
    /// order, zero-padded to 32 bytes.
    pub fn nullifier(&self) -> (nullifier: Nullifier)
        ensures
            nullifier.0@ == le_padded32(self.position),
    {
        Nullifier(le_padded32_bytes(self.position))
    }
}

} // verus!
