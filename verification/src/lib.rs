//! Shielded claim protocol: notes of two source pools are claimed, once each,
//! into a destination pool. The crate holds the note inventory, the one-time
//! claim nullifiers, the claim transaction with its validation pipeline, and
//! the wallet state with its export format.

pub mod circuit;
pub mod config;
pub mod core_wallet;
pub mod derivation;
pub mod export;
pub mod ledger;
pub mod non_membership;
pub mod note;
pub mod nullifier_set;
pub mod primitives;
pub mod records;
pub mod transaction;
pub mod wallet;

pub use primitives::{
    FieldElement, GroupElement, MerkleProof, MerkleRoot, NoteCommitment, Nullifier, ProofBytes,
    ProtocolError, PublicKey, Scalar, Signature, ValueCommitment,
};
pub use circuit::{
    CircuitProver, ClaimStatementOrchard, ClaimStatementSapling, EquivalenceStatement,
};
pub use core_wallet::AirdropWallet;
pub use derivation::AirdropNullifierDerivation;
pub use non_membership::{
    ComplementSetProof, NonMembershipApproach, NonMembershipProver, NotBlacklistedProof,
};
pub use note::{OrchardNote, SaplingNote};
pub use nullifier_set::NullifierSet;
pub use transaction::{
    ClaimDescription, ConvertDescription, MaspMintDescription, OutputDescription, ProofQuery,
    RejectReason, ShieldedAirdropTransaction, ValidationState,
};
