//! The claim transaction: how it is assembled, how it is validated, and how
//! it is laid out on the wire.

use vstd::prelude::*;
use crate::circuit::{
    CircuitProver, ClaimStatementOrchard, ClaimStatementSapling, EquivalenceStatement,
    EQUIVALENCE_PROOF_LEN, ORCHARD_PROOF_LEN, SAPLING_PROOF_LEN,
};
use crate::note::{OrchardNote, SaplingNote};
use crate::nullifier_set::NullifierSet;
use crate::primitives::{
    append_bytes, le_padded32, zero32, zero_bytes, zeros, MerkleProof, MerkleRoot,
    NoteCommitment, Nullifier, ProofBytes, ProtocolError, PublicKey, Scalar, Signature,
    ValueCommitment,
};

verus! {

/// A shielded output.
#[derive(Debug, Clone)]
pub struct OutputDescription {
    pub value_commitment: ValueCommitment,
    pub note_commitment: NoteCommitment,
    pub ephemeral_key: PublicKey,
    pub encrypted_note: Vec<u8>,
    pub encrypted_outgoing: Vec<u8>,
    pub proof: ProofBytes,
}

/// A conversion between asset types of the destination pool.
#[derive(Debug, Clone)]
pub struct ConvertDescription {
    pub convert_root: MerkleRoot,
    pub value_commitment_mint: ValueCommitment,
    pub proof: ProofBytes,
}

/// The claim of a transaction, tagged by the pool of the claimed note.
#[derive(Debug, Clone)]
pub enum ClaimDescription {
    Sapling(ClaimStatementSapling),
    Orchard(ClaimStatementOrchard),
}

/// The mint of the claimed value in the destination pool.
#[derive(Debug, Clone)]
pub struct MaspMintDescription {
    pub masp_root: MerkleRoot,
    pub value_commitment: ValueCommitment,
    pub recipient: PublicKey,
    pub proof: ProofBytes,
}

/// A claim transaction.
#[derive(Debug, Clone)]
pub struct ShieldedAirdropTransaction {
    pub claim_description: ClaimDescription,
    pub masp_mint_description: MaspMintDescription,
    pub equivalence_description: Option<EquivalenceStatement>,
    pub binding_signature: Signature,
}

/// Why a transaction was rejected.
#[derive(Debug, Clone, Copy, PartialEq, Eq, Structural)]
pub enum RejectReason {
    /// The proof backend did not accept the claim proof.
    InvalidClaimProof,
    /// The claim nullifier is already in the registry.
    AlreadyClaimed,
    /// The proof backend did not accept the equivalence proof.
    InvalidEquivalenceProof,
    /// The equivalence statement commits, for the pool of the claim, to
    /// another value than the claim does.
    CommitmentMismatch,
}

/// Where the validation of a transaction stands.
#[derive(Debug, Clone, Copy, PartialEq, Eq, Structural)]
pub enum ValidationState {
    Unvalidated,
    ProofChecked,
    NullifierChecked,
    EquivalenceChecked,
    Accepted,
    Rejected(RejectReason),
}

/// A proof that the backend is asked to check.
#[derive(Debug, Clone, Copy, PartialEq, Eq, Structural)]
pub enum ProofQuery {
    Claim,
    Equivalence,
}

impl ValidationState {
    /// Whether validation has ended in this state.
    pub open spec fn is_final(self) -> bool {
        self is Accepted || self is Rejected
    }

    /// Whether validation has ended in this state.
    pub fn is_terminal(&self) -> (ended: bool)
        ensures
            ended == self.is_final(),
    {
        match self {
            ValidationState::Accepted => true,
            ValidationState::Rejected(_) => true,
            _ => false,
        }
    }
}

impl ClaimDescription {
    /// The claim nullifier of the statement.
    pub open spec fn nullifier(self) -> Nullifier {
        match self {
            ClaimDescription::Sapling(claim) => claim.airdrop_nullifier,
            ClaimDescription::Orchard(claim) => claim.airdrop_nullifier,
        }
    }

    /// The value commitment of the statement.
    pub open spec fn value_commitment(self) -> ValueCommitment {
        match self {
            ClaimDescription::Sapling(claim) => claim.value_commitment,
            ClaimDescription::Orchard(claim) => claim.value_commitment,
        }
    }

    /// What the placeholder backend says of the claim proof.
    pub open spec fn backend_accepts(self) -> bool {
        match self {
            ClaimDescription::Sapling(claim) => CircuitProver::accepts_sapling(claim),
            ClaimDescription::Orchard(claim) => CircuitProver::accepts_orchard(claim),
        }
    }

    /// The commitment that `equiv` holds for the pool of this claim.
    pub open spec fn own_pool_commitment(self, equiv: EquivalenceStatement) -> ValueCommitment {
        match self {
            ClaimDescription::Sapling(_) => equiv.sapling_value_commitment,
            ClaimDescription::Orchard(_) => equiv.orchard_value_commitment,
        }
    }

    /// The claim on the wire: the pool tag, the value commitment, the root
    /// and the nullifier.
    pub open spec fn wire_bytes(self) -> Seq<u8> {
        match self {
            ClaimDescription::Sapling(claim) => seq![0u8] + claim.value_commitment.0@
                + claim.sapling_root.0@ + claim.airdrop_nullifier.0@,
            ClaimDescription::Orchard(claim) => seq![1u8] + claim.value_commitment.0@
                + claim.orchard_root.0@ + claim.airdrop_nullifier.0@,
        }
    }
}

impl MaspMintDescription {
    /// Whether `self` is the placeholder mint to `recipient`.
    pub open spec fn mints_to(self, recipient: PublicKey) -> bool {
        &&& self.masp_root.0@ == zeros(32)
        &&& self.value_commitment.0@ == zeros(32)
        &&& self.recipient == recipient
        &&& self.proof.0@ == zeros(192)
    }

    fn placeholder(recipient: &PublicKey) -> (mint: Self)
        ensures
            mint.mints_to(*recipient),
    {
        MaspMintDescription {
            masp_root: MerkleRoot(zero32()),
            value_commitment: ValueCommitment(zero32()),
            recipient: *recipient,
            proof: ProofBytes(zero_bytes(192)),
        }
    }
}

impl ShieldedAirdropTransaction {
    /// The claim nullifier of the transaction.
    pub open spec fn nullifier(self) -> Nullifier {
        self.claim_description.nullifier()
    }

    /// Whether `self` is the transaction that claims the first-pool `note`
    /// for `recipient`, made against the set with the members `snapshot`.
    pub open spec fn claims_sapling(
        self,
        note: SaplingNote,
        snapshot: Seq<Nullifier>,
        recipient: PublicKey,
    ) -> bool {
        &&& self.claim_description matches ClaimDescription::Sapling(claim)
        &&& claim.claims(note, snapshot, zeros(SAPLING_PROOF_LEN as nat))
        &&& self.masp_mint_description.mints_to(recipient)
        &&& self.equivalence_description matches Some(equiv)
        &&& equiv.sapling_value_commitment.0@ == le_padded32(note.value)
        &&& equiv.orchard_value_commitment.0@ == zeros(32)
        &&& equiv.proof.0@ == zeros(EQUIVALENCE_PROOF_LEN as nat)
        &&& self.binding_signature.0@ == zeros(64)
    }

    /// Whether `self` is the transaction that claims the second-pool `note`
    /// for `recipient`, made against the set with the members `snapshot`.
    pub open spec fn claims_orchard(
        self,
        note: OrchardNote,
        snapshot: Seq<Nullifier>,
        recipient: PublicKey,
    ) -> bool {
        &&& self.claim_description matches ClaimDescription::Orchard(claim)
        &&& claim.claims(note, snapshot, zeros(ORCHARD_PROOF_LEN as nat))
        &&& self.masp_mint_description.mints_to(recipient)
        &&& self.equivalence_description matches Some(equiv)
        &&& equiv.sapling_value_commitment.0@ == zeros(32)
        &&& equiv.orchard_value_commitment.0@ == le_padded32(note.value)
        &&& equiv.proof.0@ == zeros(EQUIVALENCE_PROOF_LEN as nat)
        &&& self.binding_signature.0@ == zeros(64)
    }

    /// Assembles the transaction that claims a first-pool note for
    /// `masp_recipient`: the claim statement of the note, a placeholder
    /// mint, the equivalence statement that repeats the note's value
    /// commitment for its own pool, and a zero binding signature. Never
    /// fails, and changes nothing.
    pub fn create_sapling_to_masp_airdrop(
        claiming_note: &SaplingNote,
        _merkle_path: &MerkleProof,
        nullifier_set: &NullifierSet,
        _airdrop_amount: u64,
        masp_recipient: &PublicKey,
    ) -> (built: Result<Self, ProtocolError>)
        ensures
            built matches Ok(tx) && tx.claims_sapling(
                *claiming_note,
                nullifier_set.elements(),
                *masp_recipient,
            ),
    {
        let alpha = Scalar(zero32());
        let claim = match CircuitProver::prove_sapling_claim(
            claiming_note,
            _merkle_path,
            nullifier_set,
            &alpha,
        ) {
            Ok(claim) => claim,
            Err(e) => {
                return Err(e);
            },
        };
        let equivalence = EquivalenceStatement {
            sapling_value_commitment: claiming_note.value_commitment(),
            orchard_value_commitment: ValueCommitment(zero32()),
            proof: ProofBytes(zero_bytes(EQUIVALENCE_PROOF_LEN)),
        };
        let signature = [0u8; 64];
        assert(signature@ =~= zeros(64));
        Ok(
            ShieldedAirdropTransaction {
                claim_description: ClaimDescription::Sapling(claim),
                masp_mint_description: MaspMintDescription::placeholder(masp_recipient),
                equivalence_description: Some(equivalence),
                binding_signature: Signature(signature),
            },
        )
    }

    /// Assembles the transaction that claims a second-pool note for
    /// `masp_recipient`. Never fails, and changes nothing.
    pub fn create_orchard_to_masp_airdrop(
        claiming_note: &OrchardNote,
        _merkle_path: &MerkleProof,
        nullifier_set: &NullifierSet,
        _airdrop_amount: u64,
        masp_recipient: &PublicKey,
    ) -> (built: Result<Self, ProtocolError>)
        ensures
            built matches Ok(tx) && tx.claims_orchard(
                *claiming_note,
                nullifier_set.elements(),
                *masp_recipient,
            ),
    {
        let alpha = Scalar(zero32());
        let claim = match CircuitProver::prove_orchard_claim(
            claiming_note,
            _merkle_path,
            nullifier_set,
            &alpha,
        ) {
            Ok(claim) => claim,
            Err(e) => {
                return Err(e);
            },
        };
        let equivalence = EquivalenceStatement {
            sapling_value_commitment: ValueCommitment(zero32()),
            orchard_value_commitment: claiming_note.value_commitment(),
            proof: ProofBytes(zero_bytes(EQUIVALENCE_PROOF_LEN)),
        };
        let signature = [0u8; 64];
        assert(signature@ =~= zeros(64));
        Ok(
            ShieldedAirdropTransaction {
                claim_description: ClaimDescription::Orchard(claim),
                masp_mint_description: MaspMintDescription::placeholder(masp_recipient),
                equivalence_description: Some(equivalence),
                binding_signature: Signature(signature),
            },
        )
    }

    /// The proof that the step out of `state` hands to the backend, if it
    /// hands it one.
    pub open spec fn query_in(self, state: ValidationState) -> Option<ProofQuery> {
        match state {
            ValidationState::Unvalidated => Some(ProofQuery::Claim),
            ValidationState::NullifierChecked => if self.equivalence_description is Some {
                Some(ProofQuery::Equivalence)
            } else {
                None
            },
            _ => None,
        }
    }

    /// The state after one step out of `state`, where `registry` holds the
    /// claimed nullifiers and `verdict` is the backend's answer to
    /// `query_in(state)`. Each check that fails ends the validation; the
    /// final states stay as they are.
    pub open spec fn step(
        self,
        state: ValidationState,
        registry: Set<Nullifier>,
        verdict: bool,
    ) -> ValidationState {
        match state {
            ValidationState::Unvalidated => if verdict {
                ValidationState::ProofChecked
            } else {
                ValidationState::Rejected(RejectReason::InvalidClaimProof)
            },
            ValidationState::ProofChecked => if registry.contains(self.nullifier()) {
                ValidationState::Rejected(RejectReason::AlreadyClaimed)
            } else {
                ValidationState::NullifierChecked
            },
            ValidationState::NullifierChecked => match self.equivalence_description {
                None => ValidationState::Accepted,
                Some(equiv) => if !verdict {
                    ValidationState::Rejected(RejectReason::InvalidEquivalenceProof)
                } else if self.claim_description.own_pool_commitment(equiv)
                    != self.claim_description.value_commitment() {
                    ValidationState::Rejected(RejectReason::CommitmentMismatch)
                } else {
                    ValidationState::EquivalenceChecked
                },
            },
            ValidationState::EquivalenceChecked => ValidationState::Accepted,
            ValidationState::Accepted => ValidationState::Accepted,
            ValidationState::Rejected(reason) => ValidationState::Rejected(reason),
        }
    }

    /// Where validation ends when the backend answers `claim_ok` for the
    /// claim proof and `equivalence_ok` for the equivalence proof: the first
    /// check that fails, in the order claim proof, nullifier, equivalence
    /// proof, commitment, decides.
    pub open spec fn outcome(
        self,
        registry: Set<Nullifier>,
        claim_ok: bool,
        equivalence_ok: bool,
    ) -> ValidationState {
        if !claim_ok {
            ValidationState::Rejected(RejectReason::InvalidClaimProof)
        } else if registry.contains(self.nullifier()) {
            ValidationState::Rejected(RejectReason::AlreadyClaimed)
        } else {
            match self.equivalence_description {
                None => ValidationState::Accepted,
                Some(equiv) => if !equivalence_ok {
                    ValidationState::Rejected(RejectReason::InvalidEquivalenceProof)
                } else if self.claim_description.own_pool_commitment(equiv)
                    != self.claim_description.value_commitment() {
                    ValidationState::Rejected(RejectReason::CommitmentMismatch)
                } else {
                    ValidationState::Accepted
                },
            }
        }
    }

    /// Where validation ends with the placeholder backend.
    pub open spec fn placeholder_outcome(self, registry: Set<Nullifier>) -> ValidationState {
        self.outcome(
            registry,
            self.claim_description.backend_accepts(),
            match self.equivalence_description {
                Some(equiv) => CircuitProver::accepts_equivalence(equiv),
                None => true,
            },
        )
    }

    /// The proof that the backend has to check before the step out of
    /// `state` can be taken, if there is one.
    pub fn next_query(&self, state: ValidationState) -> (query: Option<ProofQuery>)
        ensures
            query == self.query_in(state),
    {
        match state {
            ValidationState::Unvalidated => Some(ProofQuery::Claim),
            ValidationState::NullifierChecked => {
                if self.equivalence_description.is_some() {
                    Some(ProofQuery::Equivalence)
                } else {
                    None
                }
            },
            _ => None,
        }
    }

    /// Takes one step of the validation. `verdict` is the backend's answer
    /// to `next_query(state)`; where that is `None`, it is not read.
    pub fn advance(&self, state: ValidationState, registry: &NullifierSet, verdict: bool) -> (next:
        ValidationState)
        ensures
            next == self.step(state, registry@, verdict),
    {
        match state {
            ValidationState::Unvalidated => {
                if verdict {
                    ValidationState::ProofChecked
                } else {
                    ValidationState::Rejected(RejectReason::InvalidClaimProof)
                }
            },
            ValidationState::ProofChecked => {
                let nullifier = self.get_airdrop_nullifier();
                if registry.contains(&nullifier) {
                    ValidationState::Rejected(RejectReason::AlreadyClaimed)
                } else {
                    ValidationState::NullifierChecked
                }
            },
            ValidationState::NullifierChecked => {
                match &self.equivalence_description {
                    None => ValidationState::Accepted,
                    Some(equiv) => {
                        if !verdict {
                            ValidationState::Rejected(RejectReason::InvalidEquivalenceProof)
                        } else {
                            let matching = match &self.claim_description {
                                ClaimDescription::Sapling(claim) => {
                                    equiv.sapling_value_commitment.same_as(&claim.value_commitment)
                                },
                                ClaimDescription::Orchard(claim) => {
                                    equiv.orchard_value_commitment.same_as(&claim.value_commitment)
                                },
                            };
                            if matching {
                                ValidationState::EquivalenceChecked
                            } else {
                                ValidationState::Rejected(RejectReason::CommitmentMismatch)
                            }
                        }
                    },
                }
            },
            ValidationState::EquivalenceChecked => ValidationState::Accepted,
            ValidationState::Accepted => ValidationState::Accepted,
            ValidationState::Rejected(reason) => ValidationState::Rejected(reason),
        }
    }

    /// Ends the validation with the two verdicts of a proof backend:
    /// `claim_ok` for the claim proof, `equivalence_ok` for the equivalence
    /// proof. A verdict that no step asks for is not read.
    pub fn conclude(&self, registry: &NullifierSet, claim_ok: bool, equivalence_ok: bool) -> (end:
        ValidationState)
        ensures
            end == self.outcome(registry@, claim_ok, equivalence_ok),
            end.is_final(),
    {
        let checked = self.advance(ValidationState::Unvalidated, registry, claim_ok);
        let looked_up = self.advance(checked, registry, equivalence_ok);
        let compared = self.advance(looked_up, registry, equivalence_ok);
        self.advance(compared, registry, equivalence_ok)
    }

    /// Asks the placeholder backend for its verdict on `query`.
    pub fn placeholder_verdict(&self, query: ProofQuery) -> (verdict: bool)
        ensures
            query == ProofQuery::Claim ==> verdict == self.claim_description.backend_accepts(),
            query == ProofQuery::Equivalence ==> match self.equivalence_description {
                Some(equiv) => verdict == CircuitProver::accepts_equivalence(equiv),
                None => verdict,
            },
    {
        let answer = match query {
            ProofQuery::Claim => match &self.claim_description {
                ClaimDescription::Sapling(claim) => CircuitProver::verify_claim_sapling(claim),
                ClaimDescription::Orchard(claim) => CircuitProver::verify_claim_orchard(claim),
            },
            ProofQuery::Equivalence => match &self.equivalence_description {
                Some(equiv) => CircuitProver::verify_equivalence(equiv),
                None => Ok(true),
            },
        };
        match answer {
            Ok(verdict) => verdict,
            Err(_) => false,
        }
    }

    /// Runs the validation to its end with the placeholder backend. The
    /// backend is asked for a proof only when the checks before it have
    /// passed.
    pub fn run_validation(&self, registry: &NullifierSet) -> (end: ValidationState)
        ensures
            end == self.placeholder_outcome(registry@),
            end.is_final(),
    {
        let mut state = ValidationState::Unvalidated;
        let mut steps_left: u8 = 4;
        while !state.is_terminal()
            invariant
                self.rest(state, registry@) == self.placeholder_outcome(registry@),
                steps_left >= steps_to_end(state),
            decreases steps_left,
        {
            let verdict = match self.next_query(state) {
                Some(query) => self.placeholder_verdict(query),
                None => true,
            };
            state = self.advance(state, registry, verdict);
            steps_left = steps_left - 1;
        }
        state
    }

    /// The end of the validation that continues from `state` with the
    /// placeholder backend.
    spec fn rest(self, state: ValidationState, registry: Set<Nullifier>) -> ValidationState {
        let claim_ok = self.claim_description.backend_accepts();
        let equivalence_ok = match self.equivalence_description {
            Some(equiv) => CircuitProver::accepts_equivalence(equiv),
            None => true,
        };
        let verdict = if state is Unvalidated {
            claim_ok
        } else {
            equivalence_ok
        };
        let s1 = self.step(state, registry, verdict);
        let s2 = self.step(s1, registry, equivalence_ok);
        let s3 = self.step(s2, registry, equivalence_ok);
        self.step(s3, registry, equivalence_ok)
    }

    /// Validates the transaction against the registry of claimed
    /// nullifiers, with the placeholder backend. Never fails; the answer is
    /// `true` exactly when the validation ends in `Accepted`.
    pub fn validate(&self, airdrop_nullifier_set: &NullifierSet) -> (verdict: Result<
        bool,
        ProtocolError,
    >)
        ensures
            verdict matches Ok(valid) && valid == (self.placeholder_outcome(
                airdrop_nullifier_set@,
            ) is Accepted),
    {
        match self.run_validation(airdrop_nullifier_set) {
            ValidationState::Accepted => Ok(true),
            _ => Ok(false),
        }
    }

    /// The claim nullifier of the transaction.
    pub fn get_airdrop_nullifier(&self) -> (nullifier: Nullifier)
        ensures
            nullifier == self.nullifier(),
    {
        match &self.claim_description {
            ClaimDescription::Sapling(claim) => claim.airdrop_nullifier,
            ClaimDescription::Orchard(claim) => claim.airdrop_nullifier,
        }
    }

    /// The transaction on the wire: the claim, the mint's value commitment
    /// and recipient, a presence byte with the two commitments of the
    /// equivalence statement behind it where there is one, and the binding
    /// signature.
    pub open spec fn wire_bytes(self) -> Seq<u8> {
        self.claim_description.wire_bytes() + self.masp_mint_description.value_commitment.0@
            + self.masp_mint_description.recipient.0@ + (match self.equivalence_description {
            Some(equiv) => seq![1u8] + equiv.sapling_value_commitment.0@
                + equiv.orchard_value_commitment.0@,
            None => seq![0u8],
        }) + self.binding_signature.0@
    }

    /// Lays the transaction out for transmission.
    pub fn serialize(&self) -> (data: Vec<u8>)
        ensures
            data@ == self.wire_bytes(),
    {
        let mut data: Vec<u8> = Vec::new();
        match &self.claim_description {
            ClaimDescription::Sapling(claim) => {
                data.push(0u8);
                append_bytes(&mut data, &claim.value_commitment.0);
                append_bytes(&mut data, &claim.sapling_root.0);
                append_bytes(&mut data, &claim.airdrop_nullifier.0);
            },
            ClaimDescription::Orchard(claim) => {
                data.push(1u8);
                append_bytes(&mut data, &claim.value_commitment.0);
                append_bytes(&mut data, &claim.orchard_root.0);
                append_bytes(&mut data, &claim.airdrop_nullifier.0);
            },
        }
        assert(data@ =~= self.claim_description.wire_bytes());
        append_bytes(&mut data, &self.masp_mint_description.value_commitment.0);
        append_bytes(&mut data, &self.masp_mint_description.recipient.0);
        match &self.equivalence_description {
            Some(equiv) => {
                data.push(1u8);
                append_bytes(&mut data, &equiv.sapling_value_commitment.0);
                append_bytes(&mut data, &equiv.orchard_value_commitment.0);
            },
            None => {
                data.push(0u8);
            },
        }
        append_bytes(&mut data, &self.binding_signature.0);
        assert(data@ =~= self.wire_bytes());
        data
    }
}

/// An upper bound on the steps from `state` to a final state.
spec fn steps_to_end(state: ValidationState) -> int {
    match state {
        ValidationState::Unvalidated => 4,
        ValidationState::ProofChecked => 3,
        ValidationState::NullifierChecked => 2,
        ValidationState::EquivalenceChecked => 1,
        ValidationState::Accepted => 0,
        ValidationState::Rejected(_) => 0,
    }
}

/// The steps of the state machine, taken from `Unvalidated` with the
/// backend's two verdicts, end where `outcome` says, and within four steps.
pub proof fn lemma_steps_reach_outcome(
    tx: ShieldedAirdropTransaction,
    registry: Set<Nullifier>,
    claim_ok: bool,
    equivalence_ok: bool,
)
    ensures
        ({
            let s1 = tx.step(ValidationState::Unvalidated, registry, claim_ok);
            let s2 = tx.step(s1, registry, equivalence_ok);
            let s3 = tx.step(s2, registry, equivalence_ok);
            let s4 = tx.step(s3, registry, equivalence_ok);
            s4 == tx.outcome(registry, claim_ok, equivalence_ok) && s4.is_final()
        }),
{
}

/// A transaction whose nullifier is in the registry is never accepted: if
/// its claim proof passes, it is rejected as already claimed. So a
/// transaction that was accepted, and whose nullifier was then recorded, is
/// rejected when it is validated again.
pub proof fn lemma_recorded_nullifier_rejects(
    tx: ShieldedAirdropTransaction,
    registry: Set<Nullifier>,
    claim_ok: bool,
    equivalence_ok: bool,
)
    ensures
        !(tx.outcome(registry.insert(tx.nullifier()), claim_ok, equivalence_ok) is Accepted),
        claim_ok ==> tx.outcome(registry.insert(tx.nullifier()), claim_ok, equivalence_ok)
            == ValidationState::Rejected(RejectReason::AlreadyClaimed),
{
}

} // verus!
