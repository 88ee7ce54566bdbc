//! The in-memory wallet: the notes of both pools and the two nullifier
//! registries.

use vstd::prelude::*;
use crate::note::{OrchardNote, SaplingNote};
use crate::nullifier_set::NullifierSet;
use crate::primitives::{
    MerkleProof, ProtocolError, PublicKey, MERKLE_DEPTH_ORCHARD, MERKLE_DEPTH_SAPLING,
};
use crate::transaction::ShieldedAirdropTransaction;

verus! {

/// The key that a recipient address stands for: the first 32 bytes of the
/// address, zero-padded where the address is shorter.
pub open spec fn recipient_key_bytes(address: Seq<u8>) -> Seq<u8> {
    Seq::new(32, |i: int| if i < address.len() { address[i] } else { 0u8 })
}

/// Turns a recipient address into a key of the destination pool.
pub fn recipient_key(address: &[u8]) -> (key: PublicKey)
    ensures
        key.0@ == recipient_key_bytes(address@),
{
    let mut bytes = [0u8; 32];
    let mut i: usize = 0;
    while i < 32 && i < address.len()
        invariant
            i <= 32,
            i <= address@.len(),
            forall|k: int| 0 <= k < i ==> bytes@[k] == address@[k],
            forall|k: int| i <= k < 32 ==> bytes@[k] == 0u8,
        decreases 32 - i,
    {
        bytes[i] = address[i];
        i += 1;
    }
    assert(bytes@ =~= recipient_key_bytes(address@));
    PublicKey(bytes)
}

/// A placeholder Merkle path of `depth` zero hashes.
pub fn placeholder_path(depth: usize) -> (path: MerkleProof)
    ensures
        path.0@.len() == depth,
        forall|k: int| 0 <= k < depth ==> (#[trigger] path.0@[k])@ == crate::primitives::zeros(32),
{
    let mut hashes: Vec<[u8; 32]> = Vec::new();
    let mut i: usize = 0;
    while i < depth
        invariant
            i <= depth,
            hashes@.len() == i,
            forall|k: int| 0 <= k < i ==> (#[trigger] hashes@[k])@ == crate::primitives::zeros(32),
        decreases depth - i,
    {
        hashes.push(crate::primitives::zero32());
        i += 1;
    }
    MerkleProof(hashes)
}

/// The first-pool notes worth at least `min_value`.
pub open spec fn sapling_worth(min_value: u64) -> spec_fn(SaplingNote) -> bool {
    |note: SaplingNote| note.value >= min_value
}

/// The second-pool notes worth at least `min_value`.
pub open spec fn orchard_worth(min_value: u64) -> spec_fn(OrchardNote) -> bool {
    |note: OrchardNote| note.value >= min_value
}

/// The notes of a wallet and its two nullifier registries: that of ordinary
/// spends, and that of claims, which stops a second claim of a note.
#[derive(Debug)]
pub struct AirdropWallet {
    pub sapling_notes: Vec<SaplingNote>,
    pub orchard_notes: Vec<OrchardNote>,
    pub nullifier_set: NullifierSet,
    pub airdrop_nullifier_set: NullifierSet,
}

impl AirdropWallet {
    /// A wallet without notes and with empty registries.
    pub fn new() -> (wallet: Self)
        ensures
            wallet.sapling_notes@.len() == 0,
            wallet.orchard_notes@.len() == 0,
            wallet.nullifier_set@ == Set::<crate::primitives::Nullifier>::empty(),
            wallet.airdrop_nullifier_set@ == Set::<crate::primitives::Nullifier>::empty(),
    {
        AirdropWallet {
            sapling_notes: Vec::new(),
            orchard_notes: Vec::new(),
            nullifier_set: NullifierSet::new(),
            airdrop_nullifier_set: NullifierSet::new(),
        }
    }

    /// Adds a first-pool note behind the notes that are there.
    pub fn add_sapling_note(&mut self, note: SaplingNote)
        ensures
            final(self).sapling_notes@ == old(self).sapling_notes@.push(note),
            final(self).orchard_notes == old(self).orchard_notes,
            final(self).nullifier_set == old(self).nullifier_set,
            final(self).airdrop_nullifier_set == old(self).airdrop_nullifier_set,
    {
        self.sapling_notes.push(note);
    }

    /// Adds a second-pool note behind the notes that are there.
    pub fn add_orchard_note(&mut self, note: OrchardNote)
        ensures
            final(self).orchard_notes@ == old(self).orchard_notes@.push(note),
            final(self).sapling_notes == old(self).sapling_notes,
            final(self).nullifier_set == old(self).nullifier_set,
            final(self).airdrop_nullifier_set == old(self).airdrop_nullifier_set,
    {
        self.orchard_notes.push(note);
    }

    /// The notes of each pool that are worth at least `min_value`, in the
    /// order in which the wallet holds them.
    pub fn find_eligible_notes(&self, min_value: u64) -> (eligible: (
        Vec<&SaplingNote>,
        Vec<&OrchardNote>,
    ))
        ensures
            eligible.0@.map_values(|note: &SaplingNote| *note) == self.sapling_notes@.filter(
                sapling_worth(min_value),
            ),
            eligible.1@.map_values(|note: &OrchardNote| *note) == self.orchard_notes@.filter(
                orchard_worth(min_value),
            ),
    {
        let mut sapling: Vec<&SaplingNote> = Vec::new();
        let mut i: usize = 0;
        while i < self.sapling_notes.len()
            invariant
                i <= self.sapling_notes.len(),
                sapling@.map_values(|note: &SaplingNote| *note) == self.sapling_notes@.take(
                    i as int,
                ).filter(sapling_worth(min_value)),
            decreases self.sapling_notes.len() - i,
        {
            proof {
                reveal(Seq::filter);
                assert(self.sapling_notes@.take(i as int + 1).drop_last()
                    =~= self.sapling_notes@.take(i as int));
            }
            let ghost before = sapling@;
            if self.sapling_notes[i].value >= min_value {
                sapling.push(&self.sapling_notes[i]);
                assert(sapling@.map_values(|note: &SaplingNote| *note) =~= before.map_values(
                    |note: &SaplingNote| *note,
                ).push(self.sapling_notes@[i as int]));
            }
            i += 1;
        }
        assert(self.sapling_notes@.take(i as int) =~= self.sapling_notes@);
        let mut orchard: Vec<&OrchardNote> = Vec::new();
        let mut j: usize = 0;
        while j < self.orchard_notes.len()
            invariant
                j <= self.orchard_notes.len(),
                orchard@.map_values(|note: &OrchardNote| *note) == self.orchard_notes@.take(
                    j as int,
                ).filter(orchard_worth(min_value)),
            decreases self.orchard_notes.len() - j,
        {
            proof {
                reveal(Seq::filter);
                assert(self.orchard_notes@.take(j as int + 1).drop_last()
                    =~= self.orchard_notes@.take(j as int));
            }
            let ghost before = orchard@;
            if self.orchard_notes[j].value >= min_value {
                orchard.push(&self.orchard_notes[j]);
                assert(orchard@.map_values(|note: &OrchardNote| *note) =~= before.map_values(
                    |note: &OrchardNote| *note,
                ).push(self.orchard_notes@[j as int]));
            }
            j += 1;
        }
        assert(self.orchard_notes@.take(j as int) =~= self.orchard_notes@);
        (sapling, orchard)
    }

    /// Assembles the claim transaction for the first-pool note at
    /// `note_index`, with the members of the spend registry as its snapshot.
    /// Fails exactly when the wallet has no note at that index. The wallet is
    /// not changed.
    pub fn create_sapling_airdrop_tx(
        &self,
        note_index: usize,
        airdrop_amount: u64,
        recipient_address: &[u8],
    ) -> (built: Result<ShieldedAirdropTransaction, ProtocolError>)
        ensures
            match built {
                Ok(tx) => note_index < self.sapling_notes@.len() && tx.claims_sapling(
                    self.sapling_notes@[note_index as int],
                    self.nullifier_set.elements(),
                    tx.masp_mint_description.recipient,
                ) && tx.masp_mint_description.recipient.0@ == recipient_key_bytes(
                    recipient_address@,
                ),
                Err(e) => note_index >= self.sapling_notes@.len() && e.0@
                    == "Invalid note index"@,
            },
    {
        if note_index >= self.sapling_notes.len() {
            return Err(ProtocolError("Invalid note index".to_owned()));
        }
        let merkle_path = placeholder_path(MERKLE_DEPTH_SAPLING);
        let recipient = recipient_key(recipient_address);
        ShieldedAirdropTransaction::create_sapling_to_masp_airdrop(
            &self.sapling_notes[note_index],
            &merkle_path,
            &self.nullifier_set,
            airdrop_amount,
            &recipient,
        )
    }

    /// Assembles the claim transaction for the second-pool note at
    /// `note_index`, with the members of the spend registry as its snapshot.
    /// Fails exactly when the wallet has no note at that index. The wallet is
    /// not changed.
    pub fn create_orchard_airdrop_tx(
        &self,
        note_index: usize,
        airdrop_amount: u64,
        recipient_address: &[u8],
    ) -> (built: Result<ShieldedAirdropTransaction, ProtocolError>)
        ensures
            match built {
                Ok(tx) => note_index < self.orchard_notes@.len() && tx.claims_orchard(
                    self.orchard_notes@[note_index as int],
                    self.nullifier_set.elements(),
                    tx.masp_mint_description.recipient,
                ) && tx.masp_mint_description.recipient.0@ == recipient_key_bytes(
                    recipient_address@,
                ),
                Err(e) => note_index >= self.orchard_notes@.len() && e.0@
                    == "Invalid note index"@,
            },
    {
        if note_index >= self.orchard_notes.len() {
            return Err(ProtocolError("Invalid note index".to_owned()));
        }
        let merkle_path = placeholder_path(MERKLE_DEPTH_ORCHARD);
        let recipient = recipient_key(recipient_address);
        ShieldedAirdropTransaction::create_orchard_to_masp_airdrop(
            &self.orchard_notes[note_index],
            &merkle_path,
            &self.nullifier_set,
            airdrop_amount,
            &recipient,
        )
    }

    /// Validates `tx` against the claim registry and, where it is accepted,
    /// records its nullifier, so that the same claim is rejected from then
    /// on. Never fails; the answer is `true` exactly when the transaction
    /// was accepted. A rejected transaction leaves the wallet as it was.
    pub fn process_airdrop_transaction(&mut self, tx: &ShieldedAirdropTransaction) -> (verdict:
        Result<bool, ProtocolError>)
        ensures
            verdict matches Ok(accepted) && accepted == (tx.placeholder_outcome(
                old(self).airdrop_nullifier_set@,
            ) is Accepted) && if accepted {
                &&& final(self).airdrop_nullifier_set@ == old(self).airdrop_nullifier_set@.insert(
                    tx.nullifier(),
                )
                &&& final(self).airdrop_nullifier_set.elements() == old(
                    self,
                ).airdrop_nullifier_set.elements().push(tx.nullifier())
                &&& final(self).sapling_notes == old(self).sapling_notes
                &&& final(self).orchard_notes == old(self).orchard_notes
                &&& final(self).nullifier_set == old(self).nullifier_set
            } else {
                *final(self) == *old(self)
            },
    {
        let accepted = match tx.validate(&self.airdrop_nullifier_set) {
            Ok(accepted) => accepted,
            Err(e) => {
                return Err(e);
            },
        };
        if !accepted {
            return Ok(false);
        }
        let nullifier = tx.get_airdrop_nullifier();
        self.airdrop_nullifier_set.insert(nullifier);
        Ok(true)
    }
}

} // verus!
