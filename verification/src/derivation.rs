//! Derivation of the one-time claim nullifier of a note.

use vstd::prelude::*;
use crate::primitives::{
    append_bytes, FieldElement, NoteCommitment, Nullifier, ProtocolError, Scalar,
};

verus! {

/// The 32-byte BLAKE2s digest of `input` under the personalization
/// `personal`, with no key and no salt.
pub uninterp spec fn blake2s_256(personal: Seq<u8>, input: Seq<u8>) -> [u8; 32];

/// Calls `blake2s_simd::Params::hash` with the default parameters (a 32-byte
/// digest, no key, no salt) and the given personalization. The digest is a
/// function of the personalization and the input alone; nothing else is
/// claimed of it. The crate panics on a personalization of more than eight
/// bytes, which the precondition leaves out.
#[verifier::external_body]
fn blake2s_digest(personal: &[u8], input: &[u8]) -> (digest: [u8; 32])
    requires
        personal@.len() <= 8,
    ensures
        digest == blake2s_256(personal@, input@),
{
    *blake2s_simd::Params::new().personal(personal).hash(input).as_array()
}

/// The personalization that separates claim nullifiers of the first source
/// pool from every other use of the hash: the ASCII bytes of `MASP_alt`.
pub open spec fn sapling_personalization() -> Seq<u8> {
    seq![77u8, 65u8, 83u8, 80u8, 95u8, 97u8, 108u8, 116u8]
}

/// The claim nullifier of a first-pool note with nullifier key `nullifier_key`
/// and randomness `rho`.
pub open spec fn sapling_airdrop_nullifier(nullifier_key: Scalar, rho: Scalar) -> Nullifier {
    Nullifier(blake2s_256(sapling_personalization(), nullifier_key.0@ + rho.0@))
}

/// The claim nullifier of a second-pool note.
pub open spec fn orchard_airdrop_nullifier(
    nullifier_key: Scalar,
    rho: FieldElement,
    psi: FieldElement,
    note_commitment: NoteCommitment,
) -> Nullifier {
    Nullifier(
        blake2s_256(
            Seq::<u8>::empty(),
            nullifier_key.0@ + rho.0@ + psi.0@ + note_commitment.0@,
        ),
    )
}

/// The derivation of claim nullifiers.
pub struct AirdropNullifierDerivation;

impl AirdropNullifierDerivation {
    /// Derives the claim nullifier of a first-pool note. Never fails.
    pub fn derive_sapling_airdrop_nullifier(nullifier_key: &Scalar, rho: &Scalar) -> (derived:
        Result<Nullifier, ProtocolError>)
        ensures
            derived matches Ok(nullifier) && nullifier == sapling_airdrop_nullifier(
                *nullifier_key,
                *rho,
            ),
    {
        let personal: [u8; 8] = [77, 65, 83, 80, 95, 97, 108, 116];
        let mut input: Vec<u8> = Vec::new();
        append_bytes(&mut input, &nullifier_key.0);
        append_bytes(&mut input, &rho.0);
        assert(personal@ =~= sapling_personalization());
        assert(input@ =~= nullifier_key.0@ + rho.0@);
        Ok(Nullifier(blake2s_digest(&personal, input.as_slice())))
    }

    /// Derives the claim nullifier of a second-pool note. Never fails.
    pub fn derive_orchard_airdrop_nullifier(
        nullifier_key: &Scalar,
        rho: &FieldElement,
        psi: &FieldElement,
        note_commitment: &NoteCommitment,
    ) -> (derived: Result<Nullifier, ProtocolError>)
        ensures
            derived matches Ok(nullifier) && nullifier == orchard_airdrop_nullifier(
                *nullifier_key,
                *rho,
                *psi,
                *note_commitment,
            ),
    {
        let personal: [u8; 0] = [];
        let mut input: Vec<u8> = Vec::new();
        append_bytes(&mut input, &nullifier_key.0);
        append_bytes(&mut input, &rho.0);
        append_bytes(&mut input, &psi.0);
        append_bytes(&mut input, &note_commitment.0);
        assert(personal@ =~= Seq::<u8>::empty());
        assert(input@ =~= nullifier_key.0@ + rho.0@ + psi.0@ + note_commitment.0@);
        Ok(Nullifier(blake2s_digest(&personal, input.as_slice())))
    }
}

/// Deriving twice from the same key and randomness gives the same nullifier.
pub proof fn lemma_sapling_derivation_deterministic(
    nullifier_key_a: Scalar,
    rho_a: Scalar,
    nullifier_key_b: Scalar,
    rho_b: Scalar,
)
    requires
        nullifier_key_a == nullifier_key_b,
        rho_a == rho_b,
    ensures
        sapling_airdrop_nullifier(nullifier_key_a, rho_a) == sapling_airdrop_nullifier(
            nullifier_key_b,
            rho_b,
        ),
{
}

/// Deriving twice from the same four inputs gives the same nullifier.
pub proof fn lemma_orchard_derivation_deterministic(
    nullifier_key_a: Scalar,
    rho_a: FieldElement,
    psi_a: FieldElement,
    note_commitment_a: NoteCommitment,
    nullifier_key_b: Scalar,
    rho_b: FieldElement,
    psi_b: FieldElement,
    note_commitment_b: NoteCommitment,
)
    requires
        nullifier_key_a == nullifier_key_b,
        rho_a == rho_b,
        psi_a == psi_b,
        note_commitment_a == note_commitment_b,
    ensures
        orchard_airdrop_nullifier(nullifier_key_a, rho_a, psi_a, note_commitment_a)
            == orchard_airdrop_nullifier(nullifier_key_b, rho_b, psi_b, note_commitment_b),
{
}

} // verus!
