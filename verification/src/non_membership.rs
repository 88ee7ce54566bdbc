//! Proofs that a nullifier is not a member of a nullifier set.

use vstd::prelude::*;
use crate::nullifier_set::NullifierSet;
use crate::primitives::{
    zero32, zeros, FieldElement, MerkleProof, MerkleRoot, Nullifier, ProtocolError,
    MERKLE_DEPTH_EXCLUSION,
};

verus! {

/// The two ways of proving non-membership.
#[derive(Debug, Clone, Copy)]
pub enum NonMembershipApproach {
    ComplementSet,
    NotBlacklisted,
}

/// A range `[start, end)` of the complement of the set, with the place of the
/// range in the exclusion tree.
#[derive(Debug, Clone)]
pub struct ComplementSetProof {
    pub exclusion_root: MerkleRoot,
    pub exclusion_path: MerkleProof,
    pub position: u64,
    pub start: FieldElement,
    pub end: FieldElement,
}

/// The value of the set's vanishing polynomial at the nullifier, and the
/// inverse of that value.
#[derive(Debug, Clone, Copy)]
pub struct NotBlacklistedProof {
    pub polynomial_evaluation: FieldElement,
    pub inverse: FieldElement,
}

/// The root of the SHA-256 Merkle tree over `leaves`, in their order; `None`
/// where the tree has no root.
pub uninterp spec fn sha256_merkle_root(leaves: Seq<[u8; 32]>) -> Option<[u8; 32]>;

/// Builds `rs_merkle::MerkleTree<Sha256>` with `from_leaves` and asks it for
/// its `root`. The root is a function of the leaves and their order, and a
/// tree has a root exactly when it has a leaf; nothing else is claimed of
/// it.
#[verifier::external_body]
fn merkle_root_of(leaves: &Vec<[u8; 32]>) -> (root: Option<[u8; 32]>)
    ensures
        root == sha256_merkle_root(leaves@),
        leaves@.len() == 0 <==> root is None,
{
    rs_merkle::MerkleTree::<rs_merkle::algorithms::Sha256>::from_leaves(leaves.as_slice()).root()
}

/// The leaves of the exclusion tree: the bytes of the members, in the order
/// in which the set holds them.
pub open spec fn exclusion_leaves(members: Seq<Nullifier>) -> Seq<[u8; 32]> {
    members.map_values(|n: Nullifier| n.0)
}

/// `byte` plus one, wrapping from 255 to 0.
pub open spec fn next_byte(byte: u8) -> u8 {
    if byte == 255 {
        0u8
    } else {
        (byte + 1) as u8
    }
}

/// What a complement-set proof for `nullifier` against `members` holds.
pub open spec fn is_complement_set_proof(
    proof: ComplementSetProof,
    nullifier: Nullifier,
    members: Seq<Nullifier>,
) -> bool {
    is_complement_set_proof_around(
        proof,
        nullifier,
        members,
        sha256_merkle_root(exclusion_leaves(members)),
    )
}

/// What a complement-set proof for `nullifier` against `members` holds,
/// where the tree over the members gave `root`.
pub open spec fn is_complement_set_proof_around(
    proof: ComplementSetProof,
    nullifier: Nullifier,
    members: Seq<Nullifier>,
    root: Option<[u8; 32]>,
) -> bool {
    &&& proof.exclusion_root.0@ == match root {
        Some(root) => root@,
        None => zeros(32),
    }
    &&& proof.exclusion_path.0@.len() == MERKLE_DEPTH_EXCLUSION
    &&& forall|i: int|
        0 <= i < MERKLE_DEPTH_EXCLUSION ==> (#[trigger] proof.exclusion_path.0@[i])@ == zeros(32)
    &&& if members.contains(nullifier) {
        0 <= proof.position < members.len() && members[proof.position as int] == nullifier
            && forall|k: int| 0 <= k < proof.position ==> members[k] != nullifier
    } else {
        proof.position == 0
    }
    &&& proof.start.0 == nullifier.0
    &&& proof.end.0@ == nullifier.0@.update(31, next_byte(nullifier.0@[31]))
}

/// Makes and verifies non-membership proofs.
pub struct NonMembershipProver;

impl NonMembershipProver {
    /// Builds the complement-set proof for `nullifier`: the root of the tree
    /// over the members (zero for an empty set), a path of zero hashes, the
    /// first place of the nullifier among the members (zero if it is none),
    /// and the range that starts at the nullifier and ends one above it.
    /// Never fails.
    pub fn prove_complement_set(nullifier: &Nullifier, nullifier_set: &NullifierSet) -> (built:
        Result<ComplementSetProof, ProtocolError>)
        ensures
            built matches Ok(proof) && is_complement_set_proof(
                proof,
                *nullifier,
                nullifier_set.elements(),
            ) && if nullifier_set.elements().len() == 0 {
                proof.exclusion_root.0@ == zeros(32)
            } else {
                sha256_merkle_root(exclusion_leaves(nullifier_set.elements())) == Some(
                    proof.exclusion_root.0,
                )
            },
    {
        let members = nullifier_set.to_vec();
        let mut leaves: Vec<[u8; 32]> = Vec::new();
        let mut i: usize = 0;
        while i < members.len()
            invariant
                i <= members.len(),
                leaves@ == exclusion_leaves(members@.take(i as int)),
            decreases members.len() - i,
        {
            leaves.push(members[i].0);
            assert(leaves@ =~= exclusion_leaves(members@.take(i as int + 1)));
            i += 1;
        }
        assert(members@.take(i as int) =~= members@);
        let root = merkle_root_of(&leaves);
        Ok(Self::complement_proof_with_root(nullifier, &members, root))
    }

    /// Builds the complement-set proof for `nullifier` around the root that
    /// the tree over the members gave: `root`, or zero where the tree has
    /// none.
    pub fn complement_proof_with_root(
        nullifier: &Nullifier,
        members: &Vec<Nullifier>,
        root: Option<[u8; 32]>,
    ) -> (proof: ComplementSetProof)
        ensures
            is_complement_set_proof_around(proof, *nullifier, members@, root),
    {
        let mut position: usize = 0;
        let mut found = false;
        let mut i: usize = 0;
        while i < members.len() && !found
            invariant
                i <= members.len(),
                found ==> position < members.len() && members@[position as int] == *nullifier,
                found ==> forall|k: int| 0 <= k < position ==> members@[k] != *nullifier,
                !found ==> position == 0,
                !found ==> forall|k: int| 0 <= k < i ==> members@[k] != *nullifier,
            decreases members.len() - i, if found { 0int } else { 1int },
        {
            if members[i].same_as(nullifier) {
                found = true;
                position = i;
            } else {
                i += 1;
            }
        }
        let root = match root {
            Some(root) => root,
            None => zero32(),
        };
        let mut path: Vec<[u8; 32]> = Vec::new();
        let mut depth: usize = 0;
        while depth < MERKLE_DEPTH_EXCLUSION
            invariant
                depth <= MERKLE_DEPTH_EXCLUSION,
                path@.len() == depth,
                forall|k: int| 0 <= k < depth ==> (#[trigger] path@[k])@ == zeros(32),
            decreases MERKLE_DEPTH_EXCLUSION - depth,
        {
            path.push(zero32());
            depth += 1;
        }
        let start = nullifier.0;
        let mut end = nullifier.0;
        end[31] = end[31].wrapping_add(1);
        ComplementSetProof {
            exclusion_root: MerkleRoot(root),
            exclusion_path: MerkleProof(path),
            position: position as u64,
            start: FieldElement(start),
            end: FieldElement(end),
        }
    }

    /// Builds the not-blacklisted proof for `nullifier`. Fails exactly when
    /// the nullifier is a member of the set.
    pub fn prove_not_blacklisted(nullifier: &Nullifier, nullifier_set: &NullifierSet) -> (built:
        Result<NotBlacklistedProof, ProtocolError>)
        ensures
            match built {
                Ok(proof) => !nullifier_set@.contains(*nullifier)
                    && proof.polynomial_evaluation.0@ == Seq::new(32, |i: int| 1u8)
                    && proof.inverse.0@ == Seq::new(32, |i: int| 1u8),
                Err(e) => nullifier_set@.contains(*nullifier) && e.0@
                    == "Nullifier is in blacklist"@,
            },
    {
        if nullifier_set.contains(nullifier) {
            return Err(ProtocolError("Nullifier is in blacklist".to_owned()));
        }
        let ones = [1u8; 32];
        assert(ones@ =~= Seq::new(32, |i: int| 1u8));
        Ok(
            NotBlacklistedProof {
                polynomial_evaluation: FieldElement(ones),
                inverse: FieldElement(ones),
            },
        )
    }

    /// Checks a non-membership proof. Both approaches accept every proof.
    pub fn verify_non_membership(
        _nullifier: &Nullifier,
        _proof_type: NonMembershipApproach,
        _proof_data: &[u8],
    ) -> (verdict: Result<bool, ProtocolError>)
        ensures
            verdict matches Ok(valid) && valid,
    {
        match _proof_type {
            NonMembershipApproach::ComplementSet => Ok(true),
            NonMembershipApproach::NotBlacklisted => Ok(true),
        }
    }
}

} // verus!
