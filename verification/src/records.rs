//! The records that a wallet keeps, and the state that they make up.

use vstd::prelude::*;
use crate::ledger::{lines_consistent, total_value, LedgerLine};
use crate::note::{OrchardNote, SaplingNote};
use crate::primitives::{Nullifier, MAX_MONEY};

verus! {

/// What a wallet says of itself.
#[derive(Debug)]
pub struct WalletMetadata {
    pub name: String,
    pub created_at: u64,
    pub last_sync: u64,
    pub network: String,
    pub version: String,
}

/// A `WalletMetadata` with its texts as sequences of characters.
pub struct MetadataView {
    pub name: Seq<char>,
    pub created_at: u64,
    pub last_sync: u64,
    pub network: Seq<char>,
    pub version: Seq<char>,
}

impl View for WalletMetadata {
    type V = MetadataView;

    open spec fn view(&self) -> MetadataView {
        MetadataView {
            name: self.name@,
            created_at: self.created_at,
            last_sync: self.last_sync,
            network: self.network@,
            version: self.version@,
        }
    }
}

impl Clone for WalletMetadata {
    fn clone(&self) -> (copy: Self)
        ensures
            copy@ == self@,
    {
        WalletMetadata {
            name: self.name.clone(),
            created_at: self.created_at,
            last_sync: self.last_sync,
            network: self.network.clone(),
            version: self.version.clone(),
        }
    }
}

/// A note as a listing shows it.
#[derive(Debug)]
pub struct NoteMetadata {
    pub note_type: String,
    pub value: u64,
    pub position: u64,
    pub is_spent: bool,
    pub created_at: u64,
    pub last_used: Option<u64>,
}

/// A `NoteMetadata` with its text as a sequence of characters.
pub struct NoteMetadataView {
    pub note_type: Seq<char>,
    pub value: u64,
    pub position: u64,
    pub is_spent: bool,
    pub created_at: u64,
    pub last_used: Option<u64>,
}

impl View for NoteMetadata {
    type V = NoteMetadataView;

    open spec fn view(&self) -> NoteMetadataView {
        NoteMetadataView {
            note_type: self.note_type@,
            value: self.value,
            position: self.position,
            is_spent: self.is_spent,
            created_at: self.created_at,
            last_used: self.last_used,
        }
    }
}

/// The audit entry of a transaction that the wallet accepted.
#[derive(Debug)]
pub struct TransactionRecord {
    pub tx_hash: String,
    pub airdrop_nullifier: Vec<u8>,
    pub amount: u64,
    pub recipient: String,
    pub status: String,
    pub created_at: u64,
    pub confirmed_at: Option<u64>,
    pub block_height: Option<u64>,
}

/// A first-pool note with what the wallet knows of it.
#[derive(Debug, Clone, Copy)]
pub struct SaplingNoteRecord {
    pub note: SaplingNote,
    pub created_at: u64,
    pub is_spent: bool,
    pub last_used: Option<u64>,
}

/// A second-pool note with what the wallet knows of it.
#[derive(Debug, Clone, Copy)]
pub struct OrchardNoteRecord {
    pub note: OrchardNote,
    pub created_at: u64,
    pub is_spent: bool,
    pub last_used: Option<u64>,
}

impl SaplingNoteRecord {
    /// The record as the accounting sees it.
    pub open spec fn line(self) -> LedgerLine {
        LedgerLine {
            value: self.note.value,
            is_spent: self.is_spent,
            nullifier: self.note.claim_nullifier(),
        }
    }

    /// The record after the claim of `nullifier` at the time `now`: spent
    /// and last used then, if the nullifier is that of its note.
    pub open spec fn marked(self, nullifier: Nullifier, now: u64) -> SaplingNoteRecord {
        if self.note.claim_nullifier() == nullifier {
            SaplingNoteRecord { is_spent: true, last_used: Some(now), ..self }
        } else {
            self
        }
    }

    /// The record as a listing shows it.
    pub open spec fn listed(self) -> NoteMetadataView {
        NoteMetadataView {
            note_type: "sapling"@,
            value: self.note.value,
            position: self.note.position,
            is_spent: self.is_spent,
            created_at: self.created_at,
            last_used: self.last_used,
        }
    }
}

impl OrchardNoteRecord {
    /// The record as the accounting sees it.
    pub open spec fn line(self) -> LedgerLine {
        LedgerLine {
            value: self.note.value,
            is_spent: self.is_spent,
            nullifier: self.note.claim_nullifier(),
        }
    }

    /// The record after the claim of `nullifier` at the time `now`: spent
    /// and last used then, if the nullifier is that of its note.
    pub open spec fn marked(self, nullifier: Nullifier, now: u64) -> OrchardNoteRecord {
        if self.note.claim_nullifier() == nullifier {
            OrchardNoteRecord { is_spent: true, last_used: Some(now), ..self }
        } else {
            self
        }
    }

    /// The record as a listing shows it.
    pub open spec fn listed(self) -> NoteMetadataView {
        NoteMetadataView {
            note_type: "orchard"@,
            value: self.note.value,
            position: self.note.position,
            is_spent: self.is_spent,
            created_at: self.created_at,
            last_used: self.last_used,
        }
    }
}

/// The first-pool records as the accounting sees them.
pub open spec fn sapling_lines(records: Seq<SaplingNoteRecord>) -> Seq<LedgerLine> {
    records.map_values(|record: SaplingNoteRecord| record.line())
}

/// The second-pool records as the accounting sees them.
pub open spec fn orchard_lines(records: Seq<OrchardNoteRecord>) -> Seq<LedgerLine> {
    records.map_values(|record: OrchardNoteRecord| record.line())
}

/// Everything that a wallet exports: its metadata, the records of both
/// pools, and the members of the two nullifier registries in the order of
/// their insertion.
pub struct WalletState {
    pub metadata: MetadataView,
    pub sapling: Seq<SaplingNoteRecord>,
    pub orchard: Seq<OrchardNoteRecord>,
    pub spent: Seq<Nullifier>,
    pub claimed: Seq<Nullifier>,
}

impl WalletState {
    /// The state of a sound wallet. No registry holds a nullifier twice; a
    /// note is spent exactly when its claim nullifier is in the claim
    /// registry; and the notes of a pool are together worth no more than
    /// the maximum supply.
    pub open spec fn consistent(self) -> bool {
        &&& self.spent.no_duplicates()
        &&& self.claimed.no_duplicates()
        &&& lines_consistent(sapling_lines(self.sapling), self.claimed.to_set())
        &&& lines_consistent(orchard_lines(self.orchard), self.claimed.to_set())
        &&& total_value(sapling_lines(self.sapling)) <= MAX_MONEY
        &&& total_value(orchard_lines(self.orchard)) <= MAX_MONEY
    }

    /// The state after the claim of `nullifier` at the time `now`: the
    /// nullifier is recorded, and every note that it belongs to is spent.
    pub open spec fn claim(self, nullifier: Nullifier, now: u64) -> WalletState {
        WalletState {
            sapling: self.sapling.map_values(
                |record: SaplingNoteRecord| record.marked(nullifier, now),
            ),
            orchard: self.orchard.map_values(
                |record: OrchardNoteRecord| record.marked(nullifier, now),
            ),
            claimed: if self.claimed.contains(nullifier) {
                self.claimed
            } else {
                self.claimed.push(nullifier)
            },
            ..self
        }
    }
}

/// The errors of the wallet.
#[derive(Debug, Clone, Copy, PartialEq, Eq, Structural)]
pub enum WalletError {
    /// No note stands where the caller pointed.
    InvalidIndex,
    /// The claim nullifier is already recorded: the note was claimed.
    AlreadyClaimed,
    /// The proof backend gave no proof, or one that does not pass.
    ProofBackendError,
    /// The data to import is no export of a sound wallet.
    MalformedImport,
}

/// In a consistent state no claim is half made: every note, of either
/// pool, is marked spent exactly when its claim nullifier is recorded.
pub proof fn lemma_never_mixed(state: WalletState)
    requires
        state.consistent(),
    ensures
        forall|i: int|
            0 <= i < state.sapling.len() ==> ((#[trigger] state.sapling[i]).is_spent
                <==> state.claimed.contains(state.sapling[i].note.claim_nullifier())),
        forall|i: int|
            0 <= i < state.orchard.len() ==> ((#[trigger] state.orchard[i]).is_spent
                <==> state.claimed.contains(state.orchard[i].note.claim_nullifier())),
{
    assert forall|i: int| 0 <= i < state.sapling.len() implies ((
    #[trigger] state.sapling[i]).is_spent <==> state.claimed.contains(
        state.sapling[i].note.claim_nullifier(),
    )) by {
        let line = sapling_lines(state.sapling)[i];
        assert(line.is_spent <==> state.claimed.to_set().contains(line.nullifier));
    }
    assert forall|i: int| 0 <= i < state.orchard.len() implies ((
    #[trigger] state.orchard[i]).is_spent <==> state.claimed.contains(
        state.orchard[i].note.claim_nullifier(),
    )) by {
        let line = orchard_lines(state.orchard)[i];
        assert(line.is_spent <==> state.claimed.to_set().contains(line.nullifier));
    }
}

/// A claim is made whole: after it the nullifier is recorded and every
/// note that it belongs to is spent and last used at the time of the claim;
/// every other note, and everything else, is as before.
pub proof fn lemma_claim_is_whole(state: WalletState, nullifier: Nullifier, now: u64)
    ensures
        state.claim(nullifier, now).claimed.contains(nullifier),
        state.claim(nullifier, now).sapling.len() == state.sapling.len(),
        state.claim(nullifier, now).orchard.len() == state.orchard.len(),
        forall|i: int|
            0 <= i < state.sapling.len() ==> #[trigger] state.claim(nullifier, now).sapling[i]
                == if state.sapling[i].note.claim_nullifier() == nullifier {
                SaplingNoteRecord { is_spent: true, last_used: Some(now), ..state.sapling[i] }
            } else {
                state.sapling[i]
            },
        forall|i: int|
            0 <= i < state.orchard.len() ==> #[trigger] state.claim(nullifier, now).orchard[i]
                == if state.orchard[i].note.claim_nullifier() == nullifier {
                OrchardNoteRecord { is_spent: true, last_used: Some(now), ..state.orchard[i] }
            } else {
                state.orchard[i]
            },
        state.claim(nullifier, now).metadata == state.metadata,
        state.claim(nullifier, now).spent == state.spent,
{
    if !state.claimed.contains(nullifier) {
        assert(state.claimed.push(nullifier)[state.claimed.len() as int] == nullifier);
    }
}

} // verus!
