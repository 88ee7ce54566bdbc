//! The wallet that keeps records: every note with its spent flag and its
//! times, the two nullifier registries, the metadata and the log of
//! accepted transactions.
//!
//! A claim records the nullifier and marks the note in one step, so that a
//! note is spent exactly when its claim nullifier is recorded, in every
//! state that the wallet can reach.

use vstd::prelude::*;
use crate::core_wallet::{placeholder_path, recipient_key, recipient_key_bytes};
use crate::ledger::{
    lemma_mark_consistent, lemma_mark_sums, lemma_prefix_sums, lemma_push_sums, lines_consistent,
    mark_lines, total_value, unspent_value,
};
use crate::export::{
    array32, encode_parts, encode_wallet, lemma_array32, lemma_export_round_trip, parse_wallet,
    ExportData,
};
use crate::ledger::LedgerLine;
use crate::note::{OrchardNote, SaplingNote};
use crate::nullifier_set::{insert_all, lemma_insert_all, NullifierSet};
use crate::primitives::{
    hex_string, hex_text, Nullifier, ProtocolError, PublicKey, MAX_MONEY, MERKLE_DEPTH_ORCHARD,
    MERKLE_DEPTH_SAPLING,
};
pub use crate::records::{
    MetadataView, NoteMetadata, NoteMetadataView, OrchardNoteRecord, SaplingNoteRecord,
    TransactionRecord, WalletError, WalletMetadata, WalletState,
};
use crate::records::{orchard_lines, sapling_lines};
use crate::transaction::{
    ProofQuery, RejectReason, ShieldedAirdropTransaction, ValidationState,
};

verus! {

/// The two source pools.
#[derive(Debug, Clone, Copy, PartialEq, Eq, Structural)]
pub enum Pool {
    Sapling,
    Orchard,
}

/// The pool that a note type names: `sapling` or `orchard`.
pub open spec fn pool_named(note_type: Seq<char>) -> Option<Pool> {
    if note_type == "sapling"@ {
        Some(Pool::Sapling)
    } else if note_type == "orchard"@ {
        Some(Pool::Orchard)
    } else {
        None
    }
}

/// Whether two texts are the same.
fn text_eq(a: &str, b: &str) -> (same: bool)
    ensures
        same == (a@ == b@),
{
    a.to_owned() == b.to_owned()
}

/// The pool that a note type names.
pub fn pool_of(note_type: &str) -> (pool: Option<Pool>)
    ensures
        pool == pool_named(note_type@),
{
    if text_eq(note_type, "sapling") {
        Some(Pool::Sapling)
    } else if text_eq(note_type, "orchard") {
        Some(Pool::Orchard)
    } else {
        None
    }
}

/// Whether `i` is the first place in `positions` that holds `position`.
pub open spec fn is_first_at(positions: Seq<u64>, position: u64, i: int) -> bool {
    &&& 0 <= i < positions.len()
    &&& positions[i] == position
    &&& forall|k: int| 0 <= k < i ==> positions[k] != position
}

/// The first place in `positions` that holds `position`, if there is one.
pub open spec fn first_at(positions: Seq<u64>, position: u64) -> Option<int> {
    if exists|i: int| is_first_at(positions, position, i) {
        Some(choose|i: int| is_first_at(positions, position, i))
    } else {
        None
    }
}

/// The tree positions of the first-pool records.
pub open spec fn sapling_positions(records: Seq<SaplingNoteRecord>) -> Seq<u64> {
    records.map_values(|record: SaplingNoteRecord| record.note.position)
}

/// The tree positions of the second-pool records.
pub open spec fn orchard_positions(records: Seq<OrchardNoteRecord>) -> Seq<u64> {
    records.map_values(|record: OrchardNoteRecord| record.note.position)
}

/// The claim nullifier of the first note of `pool` at the tree position
/// `position`, if the state holds such a note.
pub open spec fn nullifier_at(state: WalletState, pool: Pool, position: u64) -> Option<Nullifier> {
    match pool {
        Pool::Sapling => match first_at(sapling_positions(state.sapling), position) {
            Some(i) => Some(state.sapling[i].note.claim_nullifier()),
            None => None,
        },
        Pool::Orchard => match first_at(orchard_positions(state.orchard), position) {
            Some(i) => Some(state.orchard[i].note.claim_nullifier()),
            None => None,
        },
    }
}

/// Whether a listing with the given filters shows a note of this value.
pub open spec fn shows_value(min_value: Option<u64>, value: u64) -> bool {
    match min_value {
        Some(least) => value >= least,
        None => true,
    }
}

/// Whether a listing with the given filter shows the notes of `pool`.
pub open spec fn shows_pool(note_type: Option<Seq<char>>, pool: Pool) -> bool {
    match note_type {
        None => true,
        Some(name) => name == match pool {
            Pool::Sapling => "sapling"@,
            Pool::Orchard => "orchard"@,
        },
    }
}

/// The listing of the first-pool records worth at least `min_value`.
pub open spec fn sapling_listing(records: Seq<SaplingNoteRecord>, min_value: Option<u64>) -> Seq<
    NoteMetadataView,
> {
    records.filter(
        |record: SaplingNoteRecord| shows_value(min_value, record.note.value),
    ).map_values(|record: SaplingNoteRecord| record.listed())
}

/// The listing of the second-pool records worth at least `min_value`.
pub open spec fn orchard_listing(records: Seq<OrchardNoteRecord>, min_value: Option<u64>) -> Seq<
    NoteMetadataView,
> {
    records.filter(
        |record: OrchardNoteRecord| shows_value(min_value, record.note.value),
    ).map_values(|record: OrchardNoteRecord| record.listed())
}

/// What `list_notes` shows of `state`: the first-pool notes before the
/// second-pool notes, each pool in the order of its records.
pub open spec fn listing(
    state: WalletState,
    min_value: Option<u64>,
    note_type: Option<Seq<char>>,
) -> Seq<NoteMetadataView> {
    (if shows_pool(note_type, Pool::Sapling) {
        sapling_listing(state.sapling, min_value)
    } else {
        Seq::empty()
    }) + (if shows_pool(note_type, Pool::Orchard) {
        orchard_listing(state.orchard, min_value)
    } else {
        Seq::empty()
    })
}

/// The views of listed notes.
pub open spec fn listed_views(listed: Seq<NoteMetadata>) -> Seq<NoteMetadataView> {
    listed.map_values(|entry: NoteMetadata| entry@)
}

/// Whether `record` is the pending log entry of `tx` under the hash
/// `tx_hash`, for the claimed amount `amount`, made at the time `now`. The
/// recipient of the entry is the recipient key of the mint, written in
/// hexadecimal digits.
pub open spec fn is_pending_record(
    record: TransactionRecord,
    tx: ShieldedAirdropTransaction,
    tx_hash: Seq<char>,
    amount: u64,
    now: u64,
) -> bool {
    &&& record.tx_hash@ == tx_hash
    &&& record.airdrop_nullifier@ == tx.nullifier().0@
    &&& record.amount == amount
    &&& record.recipient@ == hex_text(tx.masp_mint_description.recipient.0@)
    &&& record.status@ == "pending"@
    &&& record.created_at == now
    &&& record.confirmed_at is None
    &&& record.block_height is None
}

/// The sum of the values of all records, and of the unspent ones.
fn sapling_sums(records: &Vec<SaplingNoteRecord>) -> (sums: (u64, u64))
    requires
        total_value(sapling_lines(records@)) <= MAX_MONEY,
    ensures
        sums.0 == total_value(sapling_lines(records@)),
        sums.1 == unspent_value(sapling_lines(records@)),
{
    let ghost lines = sapling_lines(records@);
    let mut total: u64 = 0;
    let mut unspent: u64 = 0;
    let mut i: usize = 0;
    while i < records.len()
        invariant
            i <= records.len(),
            lines == sapling_lines(records@),
            total_value(lines) <= MAX_MONEY,
            total == total_value(lines.take(i as int)),
            unspent == unspent_value(lines.take(i as int)),
        decreases records.len() - i,
    {
        proof {
            lemma_prefix_sums(lines, i as int + 1);
            lemma_prefix_sums(lines, i as int);
            assert(lines.take(i as int + 1).drop_last() =~= lines.take(i as int));
        }
        total = total + records[i].note.value;
        if !records[i].is_spent {
            unspent = unspent + records[i].note.value;
        }
        i += 1;
    }
    assert(lines.take(i as int) =~= lines);
    (total, unspent)
}

/// The sum of the values of all records, and of the unspent ones.
fn orchard_sums(records: &Vec<OrchardNoteRecord>) -> (sums: (u64, u64))
    requires
        total_value(orchard_lines(records@)) <= MAX_MONEY,
    ensures
        sums.0 == total_value(orchard_lines(records@)),
        sums.1 == unspent_value(orchard_lines(records@)),
{
    let ghost lines = orchard_lines(records@);
    let mut total: u64 = 0;
    let mut unspent: u64 = 0;
    let mut i: usize = 0;
    while i < records.len()
        invariant
            i <= records.len(),
            lines == orchard_lines(records@),
            total_value(lines) <= MAX_MONEY,
            total == total_value(lines.take(i as int)),
            unspent == unspent_value(lines.take(i as int)),
        decreases records.len() - i,
    {
        proof {
            lemma_prefix_sums(lines, i as int + 1);
            lemma_prefix_sums(lines, i as int);
            assert(lines.take(i as int + 1).drop_last() =~= lines.take(i as int));
        }
        total = total + records[i].note.value;
        if !records[i].is_spent {
            unspent = unspent + records[i].note.value;
        }
        i += 1;
    }
    assert(lines.take(i as int) =~= lines);
    (total, unspent)
}

/// The records after the claim of `nullifier` at the time `now`.
fn mark_sapling(records: &Vec<SaplingNoteRecord>, nullifier: &Nullifier, now: u64) -> (marked: Vec<
    SaplingNoteRecord,
>)
    ensures
        marked@ == records@.map_values(|record: SaplingNoteRecord| record.marked(*nullifier, now)),
{
    let mut marked: Vec<SaplingNoteRecord> = Vec::new();
    let mut i: usize = 0;
    while i < records.len()
        invariant
            i <= records.len(),
            marked@ == records@.take(i as int).map_values(
                |record: SaplingNoteRecord| record.marked(*nullifier, now),
            ),
        decreases records.len() - i,
    {
        let record = records[i];
        let derived = record.note.derive_claim_nullifier();
        let next = if derived.same_as(nullifier) {
            SaplingNoteRecord {
                note: record.note,
                created_at: record.created_at,
                is_spent: true,
                last_used: Some(now),
            }
        } else {
            record
        };
        marked.push(next);
        assert(marked@ =~= records@.take(i as int + 1).map_values(
            |record: SaplingNoteRecord| record.marked(*nullifier, now),
        ));
        i += 1;
    }
    assert(records@.take(i as int) =~= records@);
    marked
}

/// The records after the claim of `nullifier` at the time `now`.
fn mark_orchard(records: &Vec<OrchardNoteRecord>, nullifier: &Nullifier, now: u64) -> (marked: Vec<
    OrchardNoteRecord,
>)
    ensures
        marked@ == records@.map_values(|record: OrchardNoteRecord| record.marked(*nullifier, now)),
{
    let mut marked: Vec<OrchardNoteRecord> = Vec::new();
    let mut i: usize = 0;
    while i < records.len()
        invariant
            i <= records.len(),
            marked@ == records@.take(i as int).map_values(
                |record: OrchardNoteRecord| record.marked(*nullifier, now),
            ),
        decreases records.len() - i,
    {
        let record = records[i];
        let derived = record.note.derive_claim_nullifier();
        let next = if derived.same_as(nullifier) {
            OrchardNoteRecord {
                note: record.note,
                created_at: record.created_at,
                is_spent: true,
                last_used: Some(now),
            }
        } else {
            record
        };
        marked.push(next);
        assert(marked@ =~= records@.take(i as int + 1).map_values(
            |record: OrchardNoteRecord| record.marked(*nullifier, now),
        ));
        i += 1;
    }
    assert(records@.take(i as int) =~= records@);
    marked
}

/// A claim keeps a sound state sound.
pub proof fn lemma_claim_keeps_consistent(state: WalletState, nullifier: Nullifier, now: u64)
    requires
        state.consistent(),
    ensures
        state.claim(nullifier, now).consistent(),
{
    let after = state.claim(nullifier, now);
    let claimed = state.claimed.to_set();
    assert(after.claimed.to_set() =~= claimed.insert(nullifier)) by {
        if !state.claimed.contains(nullifier) {
            state.claimed.lemma_push_to_set_commute(nullifier);
        }
    }
    assert(sapling_lines(after.sapling) =~= mark_lines(sapling_lines(state.sapling), nullifier));
    assert(orchard_lines(after.orchard) =~= mark_lines(orchard_lines(state.orchard), nullifier));
    lemma_mark_consistent(sapling_lines(state.sapling), claimed, nullifier);
    lemma_mark_consistent(orchard_lines(state.orchard), claimed, nullifier);
    lemma_mark_sums(sapling_lines(state.sapling), nullifier);
    lemma_mark_sums(orchard_lines(state.orchard), nullifier);
}

/// The wallet that keeps records.
#[derive(Debug)]
pub struct AirdropWallet {
    metadata: WalletMetadata,
    sapling_records: Vec<SaplingNoteRecord>,
    orchard_records: Vec<OrchardNoteRecord>,
    nullifier_set: NullifierSet,
    airdrop_nullifier_set: NullifierSet,
    transactions: Vec<TransactionRecord>,
}

impl AirdropWallet {
    /// What the wallet holds, but for its log of transactions.
    pub closed spec fn state(self) -> WalletState {
        WalletState {
            metadata: self.metadata@,
            sapling: self.sapling_records@,
            orchard: self.orchard_records@,
            spent: self.nullifier_set.elements(),
            claimed: self.airdrop_nullifier_set.elements(),
        }
    }

    /// The log of accepted transactions, oldest first.
    pub closed spec fn transaction_log(self) -> Seq<TransactionRecord> {
        self.transactions@
    }

    /// The wallet is sound: its state is consistent.
    pub open spec fn wf(self) -> bool {
        self.state().consistent()
    }

    #[verifier::type_invariant]
    spec fn sound(self) -> bool {
        self.wf()
    }

    /// A wallet named `name` for the network `network`, made at the time
    /// `now`: no notes, empty registries, an empty log, never synchronised.
    pub fn new(name: &str, network: &str, now: u64) -> (wallet: Self)
        ensures
            wallet.wf(),
            wallet.state() == (WalletState {
                metadata: MetadataView {
                    name: name@,
                    created_at: now,
                    last_sync: 0,
                    network: network@,
                    version: "0.1.0"@,
                },
                sapling: Seq::empty(),
                orchard: Seq::empty(),
                spent: Seq::empty(),
                claimed: Seq::empty(),
            }),
            wallet.transaction_log() == Seq::<TransactionRecord>::empty(),
    {
        proof {
            assert(sapling_lines(Seq::<SaplingNoteRecord>::empty()) =~= Seq::empty());
            assert(orchard_lines(Seq::<OrchardNoteRecord>::empty()) =~= Seq::empty());
        }
        let wallet = AirdropWallet {
            metadata: WalletMetadata {
                name: name.to_owned(),
                created_at: now,
                last_sync: 0,
                network: network.to_owned(),
                version: "0.1.0".to_owned(),
            },
            sapling_records: Vec::new(),
            orchard_records: Vec::new(),
            nullifier_set: NullifierSet::new(),
            airdrop_nullifier_set: NullifierSet::new(),
            transactions: Vec::new(),
        };
        wallet
    }

    /// Adds a first-pool note, recorded at the time `now`. The note is
    /// recorded as spent if its claim nullifier is already in the claim
    /// registry, as unspent otherwise. Fails, and changes nothing, exactly
    /// when the notes of the pool would be worth more than the maximum
    /// supply.
    pub fn add_sapling_note(&mut self, note: SaplingNote, now: u64) -> (added: Result<
        (),
        WalletError,
    >)
        ensures
            final(self).wf(),
            final(self).transaction_log() == old(self).transaction_log(),
            match added {
                Ok(_) => total_value(sapling_lines(old(self).state().sapling)) + note.value
                    <= MAX_MONEY && final(self).state() == (WalletState {
                    sapling: old(self).state().sapling.push(
                        SaplingNoteRecord {
                            note,
                            created_at: now,
                            is_spent: old(self).state().claimed.contains(note.claim_nullifier()),
                            last_used: None,
                        },
                    ),
                    ..old(self).state()
                }),
                Err(e) => e == WalletError::MalformedImport && total_value(
                    sapling_lines(old(self).state().sapling),
                ) + note.value > MAX_MONEY && final(self).state() == old(self).state(),
            },
    {
        proof {
            use_type_invariant(&*self);
        }
        let (total, _) = sapling_sums(&self.sapling_records);
        if note.value > MAX_MONEY - total {
            return Err(WalletError::MalformedImport);
        }
        let nullifier = note.derive_claim_nullifier();
        let record = SaplingNoteRecord {
            note,
            created_at: now,
            is_spent: self.airdrop_nullifier_set.contains(&nullifier),
            last_used: None,
        };
        let mut records: Vec<SaplingNoteRecord> = Vec::new();
        proof {
            assert(sapling_lines(records@) =~= Seq::empty());
        }
        core::mem::swap(&mut self.sapling_records, &mut records);
        records.push(record);
        proof {
            let before = sapling_lines(old(self).state().sapling);
            assert(sapling_lines(records@) =~= before.push(record.line()));
            lemma_push_sums(before, record.line());
        }
        self.sapling_records = records;
        Ok(())
    }

    /// Adds a second-pool note, recorded at the time `now`. The note is
    /// recorded as spent if its claim nullifier is already in the claim
    /// registry, as unspent otherwise. Fails, and changes nothing, exactly
    /// when the notes of the pool would be worth more than the maximum
    /// supply.
    pub fn add_orchard_note(&mut self, note: OrchardNote, now: u64) -> (added: Result<
        (),
        WalletError,
    >)
        ensures
            final(self).wf(),
            final(self).transaction_log() == old(self).transaction_log(),
            match added {
                Ok(_) => total_value(orchard_lines(old(self).state().orchard)) + note.value
                    <= MAX_MONEY && final(self).state() == (WalletState {
                    orchard: old(self).state().orchard.push(
                        OrchardNoteRecord {
                            note,
                            created_at: now,
                            is_spent: old(self).state().claimed.contains(note.claim_nullifier()),
                            last_used: None,
                        },
                    ),
                    ..old(self).state()
                }),
                Err(e) => e == WalletError::MalformedImport && total_value(
                    orchard_lines(old(self).state().orchard),
                ) + note.value > MAX_MONEY && final(self).state() == old(self).state(),
            },
    {
        proof {
            use_type_invariant(&*self);
        }
        let (total, _) = orchard_sums(&self.orchard_records);
        if note.value > MAX_MONEY - total {
            return Err(WalletError::MalformedImport);
        }
        let nullifier = note.derive_claim_nullifier();
        let record = OrchardNoteRecord {
            note,
            created_at: now,
            is_spent: self.airdrop_nullifier_set.contains(&nullifier),
            last_used: None,
        };
        let mut records: Vec<OrchardNoteRecord> = Vec::new();
        proof {
            assert(orchard_lines(records@) =~= Seq::empty());
        }
        core::mem::swap(&mut self.orchard_records, &mut records);
        records.push(record);
        proof {
            let before = orchard_lines(old(self).state().orchard);
            assert(orchard_lines(records@) =~= before.push(record.line()));
            lemma_push_sums(before, record.line());
        }
        self.orchard_records = records;
        Ok(())
    }

    /// The unspent value of each pool: the first pool's, then the second's.
    pub fn get_balance(&self) -> (balance: (u64, u64))
        ensures
            balance.0 == unspent_value(sapling_lines(self.state().sapling)),
            balance.1 == unspent_value(orchard_lines(self.state().orchard)),
            self.wf(),
    {
        proof {
            use_type_invariant(self);
        }
        let (_, sapling) = sapling_sums(&self.sapling_records);
        let (_, orchard) = orchard_sums(&self.orchard_records);
        (sapling, orchard)
    }

    /// The first-pool records, in the order in which the notes were added.
    pub fn sapling_records(&self) -> (records: &Vec<SaplingNoteRecord>)
        ensures
            records@ == self.state().sapling,
            self.wf(),
    {
        proof {
            use_type_invariant(self);
        }
        &self.sapling_records
    }

    /// The second-pool records, in the order in which the notes were added.
    pub fn orchard_records(&self) -> (records: &Vec<OrchardNoteRecord>)
        ensures
            records@ == self.state().orchard,
            self.wf(),
    {
        proof {
            use_type_invariant(self);
        }
        &self.orchard_records
    }

    /// The registry of ordinary spends.
    pub fn nullifier_set(&self) -> (registry: &NullifierSet)
        ensures
            registry.elements() == self.state().spent,
            self.wf(),
    {
        proof {
            use_type_invariant(self);
        }
        &self.nullifier_set
    }

    /// The registry of claims.
    pub fn airdrop_nullifier_set(&self) -> (registry: &NullifierSet)
        ensures
            registry.elements() == self.state().claimed,
            self.wf(),
    {
        proof {
            use_type_invariant(self);
        }
        &self.airdrop_nullifier_set
    }

    /// The log of accepted transactions, oldest first.
    pub fn transactions(&self) -> (log: &Vec<TransactionRecord>)
        ensures
            log@ == self.transaction_log(),
    {
        &self.transactions
    }

    /// The metadata of the wallet.
    pub fn get_metadata(&self) -> (metadata: &WalletMetadata)
        ensures
            metadata@ == self.state().metadata,
    {
        &self.metadata
    }

    /// Records that the wallet was synchronised at the time `now`.
    pub fn update_last_sync(&mut self, now: u64)
        ensures
            final(self).state() == (WalletState {
                metadata: MetadataView { last_sync: now, ..old(self).state().metadata },
                ..old(self).state()
            }),
            final(self).transaction_log() == old(self).transaction_log(),
    {
        proof {
            use_type_invariant(&*self);
        }
        self.metadata.last_sync = now;
    }

    /// Records the claim of `nullifier` at the time `now`: the nullifier
    /// enters the claim registry and every note that it belongs to is marked
    /// spent, in one step.
    pub fn record_claim(&mut self, nullifier: Nullifier, now: u64)
        ensures
            final(self).wf(),
            final(self).state() == old(self).state().claim(nullifier, now),
            final(self).state().claimed.contains(nullifier),
            final(self).transaction_log() == old(self).transaction_log(),
    {
        proof {
            use_type_invariant(&*self);
            lemma_claim_keeps_consistent(self.state(), nullifier, now);
            crate::records::lemma_claim_is_whole(self.state(), nullifier, now);
        }
        let sapling = mark_sapling(&self.sapling_records, &nullifier, now);
        let orchard = mark_orchard(&self.orchard_records, &nullifier, now);
        let mut claimed = self.airdrop_nullifier_set.clone();
        claimed.insert(nullifier);
        proof {
            assert(sapling_lines(Seq::<SaplingNoteRecord>::empty()) =~= Seq::empty());
            assert(orchard_lines(Seq::<OrchardNoteRecord>::empty()) =~= Seq::empty());
        }
        self.sapling_records = Vec::new();
        self.orchard_records = Vec::new();
        self.airdrop_nullifier_set = claimed;
        self.sapling_records = sapling;
        self.orchard_records = orchard;
    }
}

/// The transaction that claims `note` against a registry without its
/// nullifier is accepted; against a registry with it, it is rejected as
/// already claimed. No other outcome is open to it.
pub proof fn lemma_sapling_claim_outcome(
    tx: ShieldedAirdropTransaction,
    note: SaplingNote,
    snapshot: Seq<Nullifier>,
    recipient: PublicKey,
    registry: Set<Nullifier>,
)
    requires
        tx.claims_sapling(note, snapshot, recipient),
    ensures
        tx.nullifier() == note.claim_nullifier(),
        tx.placeholder_outcome(registry) == if registry.contains(note.claim_nullifier()) {
            ValidationState::Rejected(RejectReason::AlreadyClaimed)
        } else {
            ValidationState::Accepted
        },
{
    let equiv = tx.equivalence_description->0;
    let claim = tx.claim_description->Sapling_0;
    assert(equiv.sapling_value_commitment.0 =~= claim.value_commitment.0);
}

/// The transaction that claims `note` against a registry without its
/// nullifier is accepted; against a registry with it, it is rejected as
/// already claimed. No other outcome is open to it.
pub proof fn lemma_orchard_claim_outcome(
    tx: ShieldedAirdropTransaction,
    note: OrchardNote,
    snapshot: Seq<Nullifier>,
    recipient: PublicKey,
    registry: Set<Nullifier>,
)
    requires
        tx.claims_orchard(note, snapshot, recipient),
    ensures
        tx.nullifier() == note.claim_nullifier(),
        tx.placeholder_outcome(registry) == if registry.contains(note.claim_nullifier()) {
            ValidationState::Rejected(RejectReason::AlreadyClaimed)
        } else {
            ValidationState::Accepted
        },
{
    let equiv = tx.equivalence_description->0;
    let claim = tx.claim_description->Orchard_0;
    assert(equiv.orchard_value_commitment.0 =~= claim.value_commitment.0);
}

/// A note is claimed once. Of two transactions that claim the same
/// first-pool note, the first is accepted against a registry without the
/// note's nullifier, and the second is rejected as already claimed once
/// the nullifier of the first is recorded.
pub proof fn lemma_sapling_claimed_once(
    note: SaplingNote,
    first: ShieldedAirdropTransaction,
    second: ShieldedAirdropTransaction,
    first_snapshot: Seq<Nullifier>,
    second_snapshot: Seq<Nullifier>,
    first_recipient: PublicKey,
    second_recipient: PublicKey,
    registry: Set<Nullifier>,
)
    requires
        first.claims_sapling(note, first_snapshot, first_recipient),
        second.claims_sapling(note, second_snapshot, second_recipient),
        !registry.contains(note.claim_nullifier()),
    ensures
        first.placeholder_outcome(registry) == ValidationState::Accepted,
        second.placeholder_outcome(registry.insert(first.nullifier())) == ValidationState::Rejected(
            RejectReason::AlreadyClaimed,
        ),
{
    lemma_sapling_claim_outcome(first, note, first_snapshot, first_recipient, registry);
    lemma_sapling_claim_outcome(
        second,
        note,
        second_snapshot,
        second_recipient,
        registry.insert(first.nullifier()),
    );
}

/// A note is claimed once. Of two transactions that claim the same
/// second-pool note, the first is accepted against a registry without the
/// note's nullifier, and the second is rejected as already claimed once
/// the nullifier of the first is recorded.
pub proof fn lemma_orchard_claimed_once(
    note: OrchardNote,
    first: ShieldedAirdropTransaction,
    second: ShieldedAirdropTransaction,
    first_snapshot: Seq<Nullifier>,
    second_snapshot: Seq<Nullifier>,
    first_recipient: PublicKey,
    second_recipient: PublicKey,
    registry: Set<Nullifier>,
)
    requires
        first.claims_orchard(note, first_snapshot, first_recipient),
        second.claims_orchard(note, second_snapshot, second_recipient),
        !registry.contains(note.claim_nullifier()),
    ensures
        first.placeholder_outcome(registry) == ValidationState::Accepted,
        second.placeholder_outcome(registry.insert(first.nullifier())) == ValidationState::Rejected(
            RejectReason::AlreadyClaimed,
        ),
{
    lemma_orchard_claim_outcome(first, note, first_snapshot, first_recipient, registry);
    lemma_orchard_claim_outcome(
        second,
        note,
        second_snapshot,
        second_recipient,
        registry.insert(first.nullifier()),
    );
}

/// The first record at the tree position `position`.
fn find_sapling(records: &Vec<SaplingNoteRecord>, position: u64) -> (found: Option<usize>)
    ensures
        match found {
            Some(i) => first_at(sapling_positions(records@), position) == Some(i as int),
            None => first_at(sapling_positions(records@), position) is None,
        },
{
    let ghost positions = sapling_positions(records@);
    let mut i: usize = 0;
    while i < records.len()
        invariant
            i <= records.len(),
            positions == sapling_positions(records@),
            forall|k: int| 0 <= k < i ==> positions[k] != position,
        decreases records.len() - i,
    {
        if records[i].note.position == position {
            assert(is_first_at(positions, position, i as int));
            return Some(i);
        }
        i += 1;
    }
    None
}

/// The first record at the tree position `position`.
fn find_orchard(records: &Vec<OrchardNoteRecord>, position: u64) -> (found: Option<usize>)
    ensures
        match found {
            Some(i) => first_at(orchard_positions(records@), position) == Some(i as int),
            None => first_at(orchard_positions(records@), position) is None,
        },
{
    let ghost positions = orchard_positions(records@);
    let mut i: usize = 0;
    while i < records.len()
        invariant
            i <= records.len(),
            positions == orchard_positions(records@),
            forall|k: int| 0 <= k < i ==> positions[k] != position,
        decreases records.len() - i,
    {
        if records[i].note.position == position {
            assert(is_first_at(positions, position, i as int));
            return Some(i);
        }
        i += 1;
    }
    None
}

impl AirdropWallet {
    /// Lists the notes: those of the pool that `note_type` names, or of both
    /// pools where it is `None`, and of them those worth at least
    /// `min_value`, or all where it is `None`. The first pool comes first.
    /// A note type that names no pool lists nothing.
    pub fn list_notes(&self, min_value: Option<u64>, note_type: Option<&str>) -> (listed: Vec<
        NoteMetadata,
    >)
        ensures
            listed_views(listed@) == listing(
                self.state(),
                min_value,
                match note_type {
                    Some(name) => Some(name@),
                    None => None,
                },
            ),
    {
        let ghost wanted: Option<Seq<char>> = match note_type {
            Some(name) => Some(name@),
            None => None,
        };
        let with_sapling = match note_type {
            None => true,
            Some(name) => text_eq(name, "sapling"),
        };
        let with_orchard = match note_type {
            None => true,
            Some(name) => text_eq(name, "orchard"),
        };
        let mut listed: Vec<NoteMetadata> = Vec::new();
        if with_sapling {
            let ghost shown = |record: SaplingNoteRecord|
                shows_value(min_value, record.note.value);
            let mut i: usize = 0;
            while i < self.sapling_records.len()
                invariant
                    i <= self.sapling_records.len(),
                    shown == |record: SaplingNoteRecord| shows_value(min_value, record.note.value),
                    listed_views(listed@) == self.sapling_records@.take(i as int).filter(
                        shown,
                    ).map_values(|record: SaplingNoteRecord| record.listed()),
                decreases self.sapling_records.len() - i,
            {
                proof {
                    reveal(Seq::filter);
                    assert(self.sapling_records@.take(i as int + 1).drop_last()
                        =~= self.sapling_records@.take(i as int));
                }
                let record = self.sapling_records[i];
                let show = match min_value {
                    Some(least) => record.note.value >= least,
                    None => true,
                };
                if show {
                    let ghost before = listed@;
                    listed.push(
                        NoteMetadata {
                            note_type: "sapling".to_owned(),
                            value: record.note.value,
                            position: record.note.position,
                            is_spent: record.is_spent,
                            created_at: record.created_at,
                            last_used: record.last_used,
                        },
                    );
                    assert(listed_views(listed@) =~= listed_views(before).push(record.listed()));
                }
                assert(listed_views(listed@) =~= self.sapling_records@.take(i as int + 1).filter(
                    shown,
                ).map_values(|record: SaplingNoteRecord| record.listed()));
                i += 1;
            }
            assert(self.sapling_records@.take(i as int) =~= self.sapling_records@);
        }
        let ghost first_part = listed_views(listed@);
        assert(first_part =~= if shows_pool(wanted, Pool::Sapling) {
            sapling_listing(self.state().sapling, min_value)
        } else {
            Seq::empty()
        });
        if with_orchard {
            let ghost shown = |record: OrchardNoteRecord|
                shows_value(min_value, record.note.value);
            let mut j: usize = 0;
            while j < self.orchard_records.len()
                invariant
                    j <= self.orchard_records.len(),
                    shown == |record: OrchardNoteRecord| shows_value(min_value, record.note.value),
                    listed_views(listed@) == first_part + self.orchard_records@.take(
                        j as int,
                    ).filter(shown).map_values(|record: OrchardNoteRecord| record.listed()),
                decreases self.orchard_records.len() - j,
            {
                proof {
                    reveal(Seq::filter);
                    assert(self.orchard_records@.take(j as int + 1).drop_last()
                        =~= self.orchard_records@.take(j as int));
                }
                let record = self.orchard_records[j];
                let show = match min_value {
                    Some(least) => record.note.value >= least,
                    None => true,
                };
                if show {
                    let ghost before = listed@;
                    listed.push(
                        NoteMetadata {
                            note_type: "orchard".to_owned(),
                            value: record.note.value,
                            position: record.note.position,
                            is_spent: record.is_spent,
                            created_at: record.created_at,
                            last_used: record.last_used,
                        },
                    );
                    assert(listed_views(listed@) =~= listed_views(before).push(record.listed()));
                }
                assert(listed_views(listed@) =~= first_part + self.orchard_records@.take(
                    j as int + 1,
                ).filter(shown).map_values(|record: OrchardNoteRecord| record.listed()));
                j += 1;
            }
            assert(self.orchard_records@.take(j as int) =~= self.orchard_records@);
        } else {
            assert(listed_views(listed@) =~= first_part + Seq::<NoteMetadataView>::empty());
        }
        listed
    }

    /// Assembles the claim transaction for the first-pool note at
    /// `note_index`, for the recipient whose address is the text
    /// `recipient`. Fails exactly when the wallet has no note at that index.
    /// The wallet is not changed.
    pub fn create_sapling_airdrop_tx(
        &self,
        note_index: usize,
        airdrop_amount: u64,
        recipient: &str,
    ) -> (built: Result<ShieldedAirdropTransaction, WalletError>)
        ensures
            match built {
                Ok(tx) => note_index < self.state().sapling.len() && tx.claims_sapling(
                    self.state().sapling[note_index as int].note,
                    self.state().spent,
                    tx.masp_mint_description.recipient,
                ) && tx.masp_mint_description.recipient.0@ == recipient_key_bytes(
                    vstd::utf8::encode_utf8(recipient@),
                ),
                Err(e) => e == WalletError::InvalidIndex && note_index
                    >= self.state().sapling.len(),
            },
    {
        if note_index >= self.sapling_records.len() {
            return Err(WalletError::InvalidIndex);
        }
        let key = recipient_key(recipient.as_bytes());
        match self.create_sapling_to_masp_airdrop_tx(note_index, airdrop_amount, &key) {
            Ok(tx) => Ok(tx),
            Err(_) => Err(WalletError::ProofBackendError),
        }
    }

    /// Assembles the claim transaction for the second-pool note at
    /// `note_index`, for the recipient whose address is the text
    /// `recipient`. Fails exactly when the wallet has no note at that index.
    /// The wallet is not changed.
    pub fn create_orchard_airdrop_tx(
        &self,
        note_index: usize,
        airdrop_amount: u64,
        recipient: &str,
    ) -> (built: Result<ShieldedAirdropTransaction, WalletError>)
        ensures
            match built {
                Ok(tx) => note_index < self.state().orchard.len() && tx.claims_orchard(
                    self.state().orchard[note_index as int].note,
                    self.state().spent,
                    tx.masp_mint_description.recipient,
                ) && tx.masp_mint_description.recipient.0@ == recipient_key_bytes(
                    vstd::utf8::encode_utf8(recipient@),
                ),
                Err(e) => e == WalletError::InvalidIndex && note_index
                    >= self.state().orchard.len(),
            },
    {
        if note_index >= self.orchard_records.len() {
            return Err(WalletError::InvalidIndex);
        }
        let key = recipient_key(recipient.as_bytes());
        match self.create_orchard_to_masp_airdrop_tx(note_index, airdrop_amount, &key) {
            Ok(tx) => Ok(tx),
            Err(_) => Err(WalletError::ProofBackendError),
        }
    }

    /// Assembles the claim transaction for the first-pool note at
    /// `note_index`, for the recipient key `masp_recipient`. Fails exactly
    /// when the wallet has no note at that index. The wallet is not changed.
    pub fn create_sapling_to_masp_airdrop_tx(
        &self,
        note_index: usize,
        airdrop_amount: u64,
        masp_recipient: &PublicKey,
    ) -> (built: Result<ShieldedAirdropTransaction, ProtocolError>)
        ensures
            match built {
                Ok(tx) => note_index < self.state().sapling.len() && tx.claims_sapling(
                    self.state().sapling[note_index as int].note,
                    self.state().spent,
                    *masp_recipient,
                ),
                Err(e) => note_index >= self.state().sapling.len() && e.0@
                    == "Invalid note index"@,
            },
    {
        if note_index >= self.sapling_records.len() {
            return Err(ProtocolError("Invalid note index".to_owned()));
        }
        let merkle_path = placeholder_path(MERKLE_DEPTH_SAPLING);
        ShieldedAirdropTransaction::create_sapling_to_masp_airdrop(
            &self.sapling_records[note_index].note,
            &merkle_path,
            &self.nullifier_set,
            airdrop_amount,
            masp_recipient,
        )
    }

    /// Assembles the claim transaction for the second-pool note at
    /// `note_index`, for the recipient key `masp_recipient`. Fails exactly
    /// when the wallet has no note at that index. The wallet is not changed.
    pub fn create_orchard_to_masp_airdrop_tx(
        &self,
        note_index: usize,
        airdrop_amount: u64,
        masp_recipient: &PublicKey,
    ) -> (built: Result<ShieldedAirdropTransaction, ProtocolError>)
        ensures
            match built {
                Ok(tx) => note_index < self.state().orchard.len() && tx.claims_orchard(
                    self.state().orchard[note_index as int].note,
                    self.state().spent,
                    *masp_recipient,
                ),
                Err(e) => note_index >= self.state().orchard.len() && e.0@
                    == "Invalid note index"@,
            },
    {
        if note_index >= self.orchard_records.len() {
            return Err(ProtocolError("Invalid note index".to_owned()));
        }
        let merkle_path = placeholder_path(MERKLE_DEPTH_ORCHARD);
        ShieldedAirdropTransaction::create_orchard_to_masp_airdrop(
            &self.orchard_records[note_index].note,
            &merkle_path,
            &self.nullifier_set,
            airdrop_amount,
            masp_recipient,
        )
    }

    /// Settles the validation of `tx` at the time `now`, where a proof
    /// backend gave the verdict `claim_ok` on the claim proof and
    /// `equivalence_ok` on the equivalence proof. Where the validation ends
    /// in acceptance, the nullifier of the transaction is recorded and every
    /// note that it belongs to is marked spent, in one step. Fails with
    /// `AlreadyClaimed` exactly when the validation rejects the transaction
    /// as already claimed, and with `ProofBackendError` exactly when it
    /// rejects it for a proof or for the commitments. A failure changes
    /// nothing.
    pub fn accept_transaction(
        &mut self,
        tx: &ShieldedAirdropTransaction,
        claim_ok: bool,
        equivalence_ok: bool,
        now: u64,
    ) -> (accepted: Result<(), WalletError>)
        ensures
            final(self).wf(),
            final(self).transaction_log() == old(self).transaction_log(),
            match tx.outcome(old(self).state().claimed.to_set(), claim_ok, equivalence_ok) {
                ValidationState::Accepted => accepted is Ok && final(self).state() == old(
                    self,
                ).state().claim(tx.nullifier(), now) && final(self).state().claimed.contains(
                    tx.nullifier(),
                ),
                ValidationState::Rejected(RejectReason::AlreadyClaimed) => accepted == Err::<
                    (),
                    WalletError,
                >(WalletError::AlreadyClaimed) && final(self).state() == old(self).state(),
                _ => accepted == Err::<(), WalletError>(WalletError::ProofBackendError)
                    && final(self).state() == old(self).state(),
            },
    {
        proof {
            use_type_invariant(&*self);
        }
        match tx.conclude(&self.airdrop_nullifier_set, claim_ok, equivalence_ok) {
            ValidationState::Accepted => {
                self.record_claim(tx.get_airdrop_nullifier(), now);
                Ok(())
            },
            ValidationState::Rejected(RejectReason::AlreadyClaimed) => Err(
                WalletError::AlreadyClaimed,
            ),
            _ => Err(WalletError::ProofBackendError),
        }
    }

    /// Claims the first-pool note at `note_index` at the time `now`: the
    /// claim transaction is assembled and validated against the claim
    /// registry, and where it is accepted its nullifier is recorded and the
    /// note marked spent, in one step. Fails with `InvalidIndex` exactly
    /// when the wallet has no note at that index, and with `AlreadyClaimed`
    /// exactly when the note's claim nullifier is already recorded. A
    /// failure changes nothing.
    pub fn create_sapling_airdrop_tx_mut(
        &mut self,
        note_index: usize,
        airdrop_amount: u64,
        recipient: &str,
        now: u64,
    ) -> (claimed: Result<ShieldedAirdropTransaction, WalletError>)
        ensures
            final(self).wf(),
            final(self).transaction_log() == old(self).transaction_log(),
            match claimed {
                Ok(tx) => {
                    &&& note_index < old(self).state().sapling.len()
                    &&& !old(self).state().claimed.contains(
                        old(self).state().sapling[note_index as int].note.claim_nullifier(),
                    )
                    &&& tx.claims_sapling(
                        old(self).state().sapling[note_index as int].note,
                        old(self).state().spent,
                        tx.masp_mint_description.recipient,
                    )
                    &&& tx.masp_mint_description.recipient.0@ == recipient_key_bytes(
                        vstd::utf8::encode_utf8(recipient@),
                    )
                    &&& final(self).state() == old(self).state().claim(
                        old(self).state().sapling[note_index as int].note.claim_nullifier(),
                        now,
                    )
                    &&& final(self).state().claimed.contains(tx.nullifier())
                },
                Err(e) => {
                    &&& final(self).state() == old(self).state()
                    &&& if note_index >= old(self).state().sapling.len() {
                        e == WalletError::InvalidIndex
                    } else {
                        e == WalletError::AlreadyClaimed && old(self).state().claimed.contains(
                            old(self).state().sapling[note_index as int].note.claim_nullifier(),
                        )
                    }
                },
            },
    {
        proof {
            use_type_invariant(&*self);
        }
        let tx = match self.create_sapling_airdrop_tx(note_index, airdrop_amount, recipient) {
            Ok(tx) => tx,
            Err(e) => {
                return Err(e);
            },
        };
        proof {
            lemma_sapling_claim_outcome(
                tx,
                self.state().sapling[note_index as int].note,
                self.state().spent,
                tx.masp_mint_description.recipient,
                self.state().claimed.to_set(),
            );
        }
        let claim_ok = tx.placeholder_verdict(ProofQuery::Claim);
        let equivalence_ok = tx.placeholder_verdict(ProofQuery::Equivalence);
        match self.accept_transaction(&tx, claim_ok, equivalence_ok, now) {
            Ok(_) => Ok(tx),
            Err(e) => Err(e),
        }
    }

    /// Claims the second-pool note at `note_index` at the time `now`, as
    /// `create_sapling_airdrop_tx_mut` does for the first pool.
    pub fn create_orchard_airdrop_tx_mut(
        &mut self,
        note_index: usize,
        airdrop_amount: u64,
        recipient: &str,
        now: u64,
    ) -> (claimed: Result<ShieldedAirdropTransaction, WalletError>)
        ensures
            final(self).wf(),
            final(self).transaction_log() == old(self).transaction_log(),
            match claimed {
                Ok(tx) => {
                    &&& note_index < old(self).state().orchard.len()
                    &&& !old(self).state().claimed.contains(
                        old(self).state().orchard[note_index as int].note.claim_nullifier(),
                    )
                    &&& tx.claims_orchard(
                        old(self).state().orchard[note_index as int].note,
                        old(self).state().spent,
                        tx.masp_mint_description.recipient,
                    )
                    &&& tx.masp_mint_description.recipient.0@ == recipient_key_bytes(
                        vstd::utf8::encode_utf8(recipient@),
                    )
                    &&& final(self).state() == old(self).state().claim(
                        old(self).state().orchard[note_index as int].note.claim_nullifier(),
                        now,
                    )
                    &&& final(self).state().claimed.contains(tx.nullifier())
                },
                Err(e) => {
                    &&& final(self).state() == old(self).state()
                    &&& if note_index >= old(self).state().orchard.len() {
                        e == WalletError::InvalidIndex
                    } else {
                        e == WalletError::AlreadyClaimed && old(self).state().claimed.contains(
                            old(self).state().orchard[note_index as int].note.claim_nullifier(),
                        )
                    }
                },
            },
    {
        proof {
            use_type_invariant(&*self);
        }
        let tx = match self.create_orchard_airdrop_tx(note_index, airdrop_amount, recipient) {
            Ok(tx) => tx,
            Err(e) => {
                return Err(e);
            },
        };
        proof {
            lemma_orchard_claim_outcome(
                tx,
                self.state().orchard[note_index as int].note,
                self.state().spent,
                tx.masp_mint_description.recipient,
                self.state().claimed.to_set(),
            );
        }
        let claim_ok = tx.placeholder_verdict(ProofQuery::Claim);
        let equivalence_ok = tx.placeholder_verdict(ProofQuery::Equivalence);
        match self.accept_transaction(&tx, claim_ok, equivalence_ok, now) {
            Ok(_) => Ok(tx),
            Err(e) => Err(e),
        }
    }

    /// Adds the pending entry of `tx` to the log, under the hash `tx_hash`:
    /// the nullifier of the transaction, the claimed amount `amount`, the
    /// recipient of the mint and the time `now`. The notes and the
    /// registries stay as they are. Never fails.
    pub fn record_transaction(
        &mut self,
        tx: &ShieldedAirdropTransaction,
        tx_hash: &str,
        amount: u64,
        now: u64,
    ) -> (recorded: Result<(), WalletError>)
        ensures
            recorded is Ok,
            final(self).state() == old(self).state(),
            final(self).transaction_log().len() == old(self).transaction_log().len() + 1,
            final(self).transaction_log().drop_last() == old(self).transaction_log(),
            is_pending_record(final(self).transaction_log().last(), *tx, tx_hash@, amount, now),
    {
        let nullifier = tx.get_airdrop_nullifier();
        let mut nullifier_bytes: Vec<u8> = Vec::new();
        crate::primitives::append_bytes(&mut nullifier_bytes, &nullifier.0);
        let record = TransactionRecord {
            tx_hash: tx_hash.to_owned(),
            airdrop_nullifier: nullifier_bytes,
            amount,
            recipient: hex_string(&tx.masp_mint_description.recipient.0),
            status: "pending".to_owned(),
            created_at: now,
            confirmed_at: None,
            block_height: None,
        };
        proof {
            use_type_invariant(&*self);
        }
        let mut log: Vec<TransactionRecord> = Vec::new();
        core::mem::swap(&mut self.transactions, &mut log);
        log.push(record);
        assert(log@.drop_last() =~= old(self).transactions@);
        self.transactions = log;
        Ok(())
    }

    /// Records, at the time `now`, the claim of the first note of the pool
    /// named `note_type` that stands at the tree position `position`: its
    /// claim nullifier enters the claim registry and every note with that
    /// nullifier is marked spent, in one step. Fails with `InvalidIndex`,
    /// and changes nothing, exactly when `note_type` names no pool or the
    /// pool holds no note at that position.
    pub fn mark_note_as_spent(&mut self, note_type: &str, position: u64, now: u64) -> (marked:
        Result<(), WalletError>)
        ensures
            final(self).wf(),
            final(self).transaction_log() == old(self).transaction_log(),
            match (match pool_named(note_type@) {
                Some(pool) => nullifier_at(old(self).state(), pool, position),
                None => None,
            }) {
                Some(nullifier) => marked is Ok && final(self).state() == old(self).state().claim(
                    nullifier,
                    now,
                ),
                None => marked == Err::<(), WalletError>(WalletError::InvalidIndex)
                    && final(self).state() == old(self).state(),
            },
    {
        proof {
            use_type_invariant(&*self);
        }
        let nullifier = match pool_of(note_type) {
            Some(Pool::Sapling) => match find_sapling(&self.sapling_records, position) {
                Some(i) => self.sapling_records[i].note.derive_claim_nullifier(),
                None => {
                    return Err(WalletError::InvalidIndex);
                },
            },
            Some(Pool::Orchard) => match find_orchard(&self.orchard_records, position) {
                Some(i) => self.orchard_records[i].note.derive_claim_nullifier(),
                None => {
                    return Err(WalletError::InvalidIndex);
                },
            },
            None => {
                return Err(WalletError::InvalidIndex);
            },
        };
        self.record_claim(nullifier, now);
        Ok(())
    }

    /// Records, at the time `now`, the claim of the note of the pool named
    /// `note_type` at `note_index`, as `mark_note_as_spent` does for a note
    /// found by its position. Fails with `InvalidIndex`, and changes
    /// nothing, exactly when `note_type` names no pool or the pool has no
    /// note at that index.
    pub fn mark_note_as_spent_by_index(
        &mut self,
        note_type: &str,
        note_index: usize,
        now: u64,
    ) -> (marked: Result<(), WalletError>)
        ensures
            final(self).wf(),
            final(self).transaction_log() == old(self).transaction_log(),
            match pool_named(note_type@) {
                Some(Pool::Sapling) if note_index < old(self).state().sapling.len() => marked is Ok
                    && final(self).state() == old(self).state().claim(
                    old(self).state().sapling[note_index as int].note.claim_nullifier(),
                    now,
                ),
                Some(Pool::Orchard) if note_index < old(self).state().orchard.len() => marked is Ok
                    && final(self).state() == old(self).state().claim(
                    old(self).state().orchard[note_index as int].note.claim_nullifier(),
                    now,
                ),
                _ => marked == Err::<(), WalletError>(WalletError::InvalidIndex)
                    && final(self).state() == old(self).state(),
            },
    {
        proof {
            use_type_invariant(&*self);
        }
        let nullifier = match pool_of(note_type) {
            Some(Pool::Sapling) => {
                if note_index >= self.sapling_records.len() {
                    return Err(WalletError::InvalidIndex);
                }
                self.sapling_records[note_index].note.derive_claim_nullifier()
            },
            Some(Pool::Orchard) => {
                if note_index >= self.orchard_records.len() {
                    return Err(WalletError::InvalidIndex);
                }
                self.orchard_records[note_index].note.derive_claim_nullifier()
            },
            None => {
                return Err(WalletError::InvalidIndex);
            },
        };
        self.record_claim(nullifier, now);
        Ok(())
    }
}

/// The nullifiers among the keys of a stored registry: the keys of 32 bytes,
/// in their order. Keys of another length are passed over.
pub open spec fn key_nullifiers(keys: Seq<Vec<u8>>) -> Seq<Nullifier> {
    keys.filter(|key: Vec<u8>| key@.len() == 32).map_values(
        |key: Vec<u8>| Nullifier(array32(key@)),
    )
}

/// The claim nullifiers of the first-pool records that are marked spent.
pub open spec fn spent_sapling_nullifiers(records: Seq<SaplingNoteRecord>) -> Seq<Nullifier> {
    records.filter(|record: SaplingNoteRecord| record.is_spent).map_values(
        |record: SaplingNoteRecord| record.note.claim_nullifier(),
    )
}

/// The claim nullifiers of the second-pool records that are marked spent.
pub open spec fn spent_orchard_nullifiers(records: Seq<OrchardNoteRecord>) -> Seq<Nullifier> {
    records.filter(|record: OrchardNoteRecord| record.is_spent).map_values(
        |record: OrchardNoteRecord| record.note.claim_nullifier(),
    )
}

/// The records with their spent flags set by the registry: a note is spent
/// exactly when its claim nullifier is in `claimed`.
pub open spec fn reconciled_sapling(
    records: Seq<SaplingNoteRecord>,
    claimed: Set<Nullifier>,
) -> Seq<SaplingNoteRecord> {
    records.map_values(
        |record: SaplingNoteRecord|
            SaplingNoteRecord {
                is_spent: claimed.contains(record.note.claim_nullifier()),
                ..record
            },
    )
}

/// The records with their spent flags set by the registry: a note is spent
/// exactly when its claim nullifier is in `claimed`.
pub open spec fn reconciled_orchard(
    records: Seq<OrchardNoteRecord>,
    claimed: Set<Nullifier>,
) -> Seq<OrchardNoteRecord> {
    records.map_values(
        |record: OrchardNoteRecord|
            OrchardNoteRecord {
                is_spent: claimed.contains(record.note.claim_nullifier()),
                ..record
            },
    )
}

/// The state that is recovered from what was stored. A claim that was
/// stored in part is completed: the claim registry is the stored one with
/// the claim nullifier of every note that was stored as spent, and a note
/// is spent exactly when its claim nullifier is in that registry.
pub open spec fn recovered(
    metadata: MetadataView,
    sapling: Seq<SaplingNoteRecord>,
    orchard: Seq<OrchardNoteRecord>,
    spend_keys: Seq<Vec<u8>>,
    claim_keys: Seq<Vec<u8>>,
) -> WalletState {
    let claimed = insert_all(
        insert_all(
            insert_all(Seq::empty(), key_nullifiers(claim_keys)),
            spent_sapling_nullifiers(sapling),
        ),
        spent_orchard_nullifiers(orchard),
    );
    WalletState {
        metadata,
        sapling: reconciled_sapling(sapling, claimed.to_set()),
        orchard: reconciled_orchard(orchard, claimed.to_set()),
        spent: insert_all(Seq::empty(), key_nullifiers(spend_keys)),
        claimed,
    }
}

/// Whether the notes of each pool are together worth no more than the
/// maximum supply.
pub open spec fn within_supply(
    sapling: Seq<SaplingNoteRecord>,
    orchard: Seq<OrchardNoteRecord>,
) -> bool {
    total_value(sapling_lines(sapling)) <= MAX_MONEY && total_value(orchard_lines(orchard))
        <= MAX_MONEY
}

/// The total value of lines depends on their values alone.
proof fn lemma_total_by_values(a: Seq<LedgerLine>, b: Seq<LedgerLine>)
    requires
        a.len() == b.len(),
        forall|i: int| 0 <= i < a.len() ==> a[i].value == b[i].value,
    ensures
        total_value(a) == total_value(b),
    decreases a.len(),
{
    if a.len() > 0 {
        lemma_total_by_values(a.drop_last(), b.drop_last());
    }
}

/// Whether the lines are worth no more than the maximum supply.
fn sapling_within_supply(records: &Vec<SaplingNoteRecord>) -> (within: bool)
    ensures
        within == (total_value(sapling_lines(records@)) <= MAX_MONEY),
{
    let ghost lines = sapling_lines(records@);
    let mut total: u64 = 0;
    let mut i: usize = 0;
    while i < records.len()
        invariant
            i <= records.len(),
            lines == sapling_lines(records@),
            total == total_value(lines.take(i as int)),
            total <= MAX_MONEY,
        decreases records.len() - i,
    {
        proof {
            lemma_prefix_sums(lines, i as int + 1);
            assert(lines.take(i as int + 1).drop_last() =~= lines.take(i as int));
        }
        if records[i].note.value > MAX_MONEY - total {
            return false;
        }
        total = total + records[i].note.value;
        i += 1;
    }
    assert(lines.take(i as int) =~= lines);
    true
}

/// Whether the lines are worth no more than the maximum supply.
fn orchard_within_supply(records: &Vec<OrchardNoteRecord>) -> (within: bool)
    ensures
        within == (total_value(orchard_lines(records@)) <= MAX_MONEY),
{
    let ghost lines = orchard_lines(records@);
    let mut total: u64 = 0;
    let mut i: usize = 0;
    while i < records.len()
        invariant
            i <= records.len(),
            lines == orchard_lines(records@),
            total == total_value(lines.take(i as int)),
            total <= MAX_MONEY,
        decreases records.len() - i,
    {
        proof {
            lemma_prefix_sums(lines, i as int + 1);
            assert(lines.take(i as int + 1).drop_last() =~= lines.take(i as int));
        }
        if records[i].note.value > MAX_MONEY - total {
            return false;
        }
        total = total + records[i].note.value;
        i += 1;
    }
    assert(lines.take(i as int) =~= lines);
    true
}

/// Whether every record is spent exactly when its claim nullifier is in
/// the registry.
fn sapling_flags_match(records: &Vec<SaplingNoteRecord>, claimed: &NullifierSet) -> (matching: bool)
    ensures
        matching == lines_consistent(sapling_lines(records@), claimed@),
{
    let ghost lines = sapling_lines(records@);
    let mut i: usize = 0;
    while i < records.len()
        invariant
            i <= records.len(),
            lines == sapling_lines(records@),
            forall|k: int|
                0 <= k < i ==> ((#[trigger] lines[k]).is_spent <==> claimed@.contains(
                    lines[k].nullifier,
                )),
        decreases records.len() - i,
    {
        let nullifier = records[i].note.derive_claim_nullifier();
        if claimed.contains(&nullifier) != records[i].is_spent {
            assert(!(lines[i as int].is_spent <==> claimed@.contains(lines[i as int].nullifier)));
            return false;
        }
        i += 1;
    }
    true
}

/// Whether every record is spent exactly when its claim nullifier is in
/// the registry.
fn orchard_flags_match(records: &Vec<OrchardNoteRecord>, claimed: &NullifierSet) -> (matching: bool)
    ensures
        matching == lines_consistent(orchard_lines(records@), claimed@),
{
    let ghost lines = orchard_lines(records@);
    let mut i: usize = 0;
    while i < records.len()
        invariant
            i <= records.len(),
            lines == orchard_lines(records@),
            forall|k: int|
                0 <= k < i ==> ((#[trigger] lines[k]).is_spent <==> claimed@.contains(
                    lines[k].nullifier,
                )),
        decreases records.len() - i,
    {
        let nullifier = records[i].note.derive_claim_nullifier();
        if claimed.contains(&nullifier) != records[i].is_spent {
            assert(!(lines[i as int].is_spent <==> claimed@.contains(lines[i as int].nullifier)));
            return false;
        }
        i += 1;
    }
    true
}

/// The nullifiers among the keys of a stored registry.
fn nullifiers_of_keys(keys: &Vec<Vec<u8>>) -> (nullifiers: Vec<Nullifier>)
    ensures
        nullifiers@ == key_nullifiers(keys@),
{
    let ghost wanted = |key: Vec<u8>| key@.len() == 32;
    let ghost made = |key: Vec<u8>| Nullifier(array32(key@));
    let mut nullifiers: Vec<Nullifier> = Vec::new();
    let mut i: usize = 0;
    while i < keys.len()
        invariant
            i <= keys.len(),
            wanted == |key: Vec<u8>| key@.len() == 32,
            made == |key: Vec<u8>| Nullifier(array32(key@)),
            nullifiers@ == keys@.take(i as int).filter(wanted).map_values(made),
        decreases keys.len() - i,
    {
        proof {
            reveal(Seq::filter);
            assert(keys@.take(i as int + 1).drop_last() =~= keys@.take(i as int));
        }
        if keys[i].len() == 32 {
            let mut bytes = [0u8; 32];
            let mut k: usize = 0;
            while k < 32
                invariant
                    k <= 32,
                    i < keys.len(),
                    keys@[i as int]@.len() == 32,
                    forall|j: int| 0 <= j < k ==> bytes@[j] == keys@[i as int]@[j],
                decreases 32 - k,
            {
                bytes[k] = keys[i][k];
                k += 1;
            }
            proof {
                assert(bytes@ =~= keys@[i as int]@);
                lemma_array32(bytes);
            }
            let ghost before = nullifiers@;
            nullifiers.push(Nullifier(bytes));
            assert(nullifiers@ =~= keys@.take(i as int + 1).filter(wanted).map_values(made));
        }
        i += 1;
    }
    assert(keys@.take(i as int) =~= keys@);
    nullifiers
}

/// The claim nullifiers of the records that are marked spent.
fn sapling_spent_nullifiers(records: &Vec<SaplingNoteRecord>) -> (nullifiers: Vec<Nullifier>)
    ensures
        nullifiers@ == spent_sapling_nullifiers(records@),
{
    let ghost wanted = |record: SaplingNoteRecord| record.is_spent;
    let ghost made = |record: SaplingNoteRecord| record.note.claim_nullifier();
    let mut nullifiers: Vec<Nullifier> = Vec::new();
    let mut i: usize = 0;
    while i < records.len()
        invariant
            i <= records.len(),
            wanted == |record: SaplingNoteRecord| record.is_spent,
            made == |record: SaplingNoteRecord| record.note.claim_nullifier(),
            nullifiers@ == records@.take(i as int).filter(wanted).map_values(made),
        decreases records.len() - i,
    {
        proof {
            reveal(Seq::filter);
            assert(records@.take(i as int + 1).drop_last() =~= records@.take(i as int));
        }
        if records[i].is_spent {
            nullifiers.push(records[i].note.derive_claim_nullifier());
            assert(nullifiers@ =~= records@.take(i as int + 1).filter(wanted).map_values(made));
        }
        i += 1;
    }
    assert(records@.take(i as int) =~= records@);
    nullifiers
}

/// The claim nullifiers of the records that are marked spent.
fn orchard_spent_nullifiers(records: &Vec<OrchardNoteRecord>) -> (nullifiers: Vec<Nullifier>)
    ensures
        nullifiers@ == spent_orchard_nullifiers(records@),
{
    let ghost wanted = |record: OrchardNoteRecord| record.is_spent;
    let ghost made = |record: OrchardNoteRecord| record.note.claim_nullifier();
    let mut nullifiers: Vec<Nullifier> = Vec::new();
    let mut i: usize = 0;
    while i < records.len()
        invariant
            i <= records.len(),
            wanted == |record: OrchardNoteRecord| record.is_spent,
            made == |record: OrchardNoteRecord| record.note.claim_nullifier(),
            nullifiers@ == records@.take(i as int).filter(wanted).map_values(made),
        decreases records.len() - i,
    {
        proof {
            reveal(Seq::filter);
            assert(records@.take(i as int + 1).drop_last() =~= records@.take(i as int));
        }
        if records[i].is_spent {
            nullifiers.push(records[i].note.derive_claim_nullifier());
            assert(nullifiers@ =~= records@.take(i as int + 1).filter(wanted).map_values(made));
        }
        i += 1;
    }
    assert(records@.take(i as int) =~= records@);
    nullifiers
}

/// The records with their spent flags set by the registry.
fn reconcile_sapling(records: &Vec<SaplingNoteRecord>, claimed: &NullifierSet) -> (reconciled: Vec<
    SaplingNoteRecord,
>)
    ensures
        reconciled@ == reconciled_sapling(records@, claimed@),
{
    let mut reconciled: Vec<SaplingNoteRecord> = Vec::new();
    let mut i: usize = 0;
    while i < records.len()
        invariant
            i <= records.len(),
            reconciled@ == reconciled_sapling(records@.take(i as int), claimed@),
        decreases records.len() - i,
    {
        let record = records[i];
        let nullifier = record.note.derive_claim_nullifier();
        reconciled.push(
            SaplingNoteRecord {
                note: record.note,
                created_at: record.created_at,
                is_spent: claimed.contains(&nullifier),
                last_used: record.last_used,
            },
        );
        assert(reconciled@ =~= reconciled_sapling(records@.take(i as int + 1), claimed@));
        i += 1;
    }
    assert(records@.take(i as int) =~= records@);
    reconciled
}

/// The records with their spent flags set by the registry.
fn reconcile_orchard(records: &Vec<OrchardNoteRecord>, claimed: &NullifierSet) -> (reconciled: Vec<
    OrchardNoteRecord,
>)
    ensures
        reconciled@ == reconciled_orchard(records@, claimed@),
{
    let mut reconciled: Vec<OrchardNoteRecord> = Vec::new();
    let mut i: usize = 0;
    while i < records.len()
        invariant
            i <= records.len(),
            reconciled@ == reconciled_orchard(records@.take(i as int), claimed@),
        decreases records.len() - i,
    {
        let record = records[i];
        let nullifier = record.note.derive_claim_nullifier();
        reconciled.push(
            OrchardNoteRecord {
                note: record.note,
                created_at: record.created_at,
                is_spent: claimed.contains(&nullifier),
                last_used: record.last_used,
            },
        );
        assert(reconciled@ =~= reconciled_orchard(records@.take(i as int + 1), claimed@));
        i += 1;
    }
    assert(records@.take(i as int) =~= records@);
    reconciled
}

/// What is recovered from stored parts is sound where the notes are within
/// the supply: whatever was stored of a claim, a recovered note is spent
/// exactly when its claim nullifier is recorded.
pub proof fn lemma_recovered_consistent(
    metadata: MetadataView,
    sapling: Seq<SaplingNoteRecord>,
    orchard: Seq<OrchardNoteRecord>,
    spend_keys: Seq<Vec<u8>>,
    claim_keys: Seq<Vec<u8>>,
)
    requires
        within_supply(sapling, orchard),
    ensures
        recovered(metadata, sapling, orchard, spend_keys, claim_keys).consistent(),
{
    let state = recovered(metadata, sapling, orchard, spend_keys, claim_keys);
    let stored = insert_all(Seq::empty(), key_nullifiers(claim_keys));
    let with_sapling = insert_all(stored, spent_sapling_nullifiers(sapling));
    lemma_insert_all(Seq::empty(), key_nullifiers(claim_keys));
    lemma_insert_all(stored, spent_sapling_nullifiers(sapling));
    lemma_insert_all(with_sapling, spent_orchard_nullifiers(orchard));
    lemma_insert_all(Seq::empty(), key_nullifiers(spend_keys));
    lemma_total_by_values(sapling_lines(state.sapling), sapling_lines(sapling));
    lemma_total_by_values(orchard_lines(state.orchard), orchard_lines(orchard));
}

impl AirdropWallet {
    /// The wallet as an export. Never fails. The export reads back as the
    /// state of the wallet.
    pub fn export_data(&self) -> (exported: Result<Vec<u8>, WalletError>)
        ensures
            exported matches Ok(data) && data@ == encode_wallet(self.state()) && parse_wallet(data@)
                == Some(self.state()),
            self.wf(),
    {
        proof {
            use_type_invariant(self);
        }
        let spent = self.nullifier_set.to_vec();
        let claimed = self.airdrop_nullifier_set.to_vec();
        let data = encode_parts(
            &self.metadata,
            &self.sapling_records,
            &self.orchard_records,
            &spent,
            &claimed,
        );
        proof {
            lemma_export_round_trip(self.state());
        }
        Ok(data)
    }

    /// Replaces the state of the wallet by the state that `data` is the
    /// export of. The log of transactions stays. Fails with
    /// `MalformedImport`, and changes nothing, exactly when `data` is not
    /// the export of a consistent state.
    pub fn import_data(&mut self, data: &[u8]) -> (imported: Result<(), WalletError>)
        ensures
            final(self).transaction_log() == old(self).transaction_log(),
            match parse_wallet(data@) {
                Some(state) if state.consistent() => imported is Ok && final(self).state() == state
                    && final(self).wf() && encode_wallet(state) == data@,
                _ => imported == Err::<(), WalletError>(WalletError::MalformedImport)
                    && final(self).state() == old(self).state(),
            },
    {
        let parts = match ExportData::decode(data) {
            Some(parts) => parts,
            None => {
                return Err(WalletError::MalformedImport);
            },
        };
        proof {
            crate::export::lemma_parse_is_canonical(data@);
        }
        let spent = match NullifierSet::from_members(&parts.nullifier_set) {
            Some(set) => set,
            None => {
                return Err(WalletError::MalformedImport);
            },
        };
        let claimed = match NullifierSet::from_members(&parts.airdrop_nullifier_set) {
            Some(set) => set,
            None => {
                return Err(WalletError::MalformedImport);
            },
        };
        if !sapling_flags_match(&parts.sapling_records, &claimed) || !orchard_flags_match(
            &parts.orchard_records,
            &claimed,
        ) || !sapling_within_supply(&parts.sapling_records) || !orchard_within_supply(
            &parts.orchard_records,
        ) {
            return Err(WalletError::MalformedImport);
        }
        proof {
            use_type_invariant(&*self);
            assert(sapling_lines(Seq::<SaplingNoteRecord>::empty()) =~= Seq::empty());
            assert(orchard_lines(Seq::<OrchardNoteRecord>::empty()) =~= Seq::empty());
        }
        self.metadata = parts.metadata;
        self.sapling_records = Vec::new();
        self.orchard_records = Vec::new();
        self.nullifier_set = spent;
        self.airdrop_nullifier_set = claimed;
        self.sapling_records = parts.sapling_records;
        self.orchard_records = parts.orchard_records;
        Ok(())
    }

    /// Fills the wallet with what was stored: the records of both pools and
    /// the keys of the two registries. The notes and registries that the
    /// wallet had are replaced by what is recovered; the metadata and the
    /// log stay. Fails with `MalformedImport`, and changes nothing, exactly
    /// when the stored notes of a pool are worth more than the maximum
    /// supply.
    fn load_notes(
        &mut self,
        sapling: Vec<SaplingNoteRecord>,
        orchard: Vec<OrchardNoteRecord>,
        spend_keys: Vec<Vec<u8>>,
        claim_keys: Vec<Vec<u8>>,
    ) -> (loaded: Result<(), WalletError>)
        ensures
            final(self).transaction_log() == old(self).transaction_log(),
            match loaded {
                Ok(_) => within_supply(sapling@, orchard@) && final(self).wf() && final(
                    self
                ).state() == recovered(
                    old(self).state().metadata,
                    sapling@,
                    orchard@,
                    spend_keys@,
                    claim_keys@,
                ),
                Err(e) => e == WalletError::MalformedImport && !within_supply(sapling@, orchard@)
                    && final(self).state() == old(self).state(),
            },
    {
        if !sapling_within_supply(&sapling) || !orchard_within_supply(&orchard) {
            return Err(WalletError::MalformedImport);
        }
        let mut spent = NullifierSet::new();
        spent.extend(&nullifiers_of_keys(&spend_keys));
        let mut claimed = NullifierSet::new();
        claimed.extend(&nullifiers_of_keys(&claim_keys));
        claimed.extend(&sapling_spent_nullifiers(&sapling));
        claimed.extend(&orchard_spent_nullifiers(&orchard));
        let sapling_records = reconcile_sapling(&sapling, &claimed);
        let orchard_records = reconcile_orchard(&orchard, &claimed);
        proof {
            lemma_recovered_consistent(
                self.state().metadata,
                sapling@,
                orchard@,
                spend_keys@,
                claim_keys@,
            );
        }
        proof {
            use_type_invariant(&*self);
            assert(sapling_lines(Seq::<SaplingNoteRecord>::empty()) =~= Seq::empty());
            assert(orchard_lines(Seq::<OrchardNoteRecord>::empty()) =~= Seq::empty());
        }
        self.sapling_records = Vec::new();
        self.orchard_records = Vec::new();
        self.nullifier_set = spent;
        self.airdrop_nullifier_set = claimed;
        self.sapling_records = sapling_records;
        self.orchard_records = orchard_records;
        Ok(())
    }

    /// Recovers a wallet from what was stored of it: its metadata, the
    /// records of both pools, the keys of the two registries and the log of
    /// transactions. A claim that was stored in part is completed, so that
    /// the recovered wallet never shows a note as unspent whose nullifier
    /// is recorded, nor a spent note whose nullifier is missing. Fails with
    /// `MalformedImport` exactly when the stored notes of a pool are worth
    /// more than the maximum supply.
    pub fn load(
        metadata: WalletMetadata,
        sapling: Vec<SaplingNoteRecord>,
        orchard: Vec<OrchardNoteRecord>,
        spend_keys: Vec<Vec<u8>>,
        claim_keys: Vec<Vec<u8>>,
        transactions: Vec<TransactionRecord>,
    ) -> (loaded: Result<Self, WalletError>)
        ensures
            match loaded {
                Ok(wallet) => within_supply(sapling@, orchard@) && wallet.wf() && wallet.state()
                    == recovered(metadata@, sapling@, orchard@, spend_keys@, claim_keys@)
                    && wallet.transaction_log() == transactions@,
                Err(e) => e == WalletError::MalformedImport && !within_supply(sapling@, orchard@),
            },
    {
        proof {
            assert(sapling_lines(Seq::<SaplingNoteRecord>::empty()) =~= Seq::empty());
            assert(orchard_lines(Seq::<OrchardNoteRecord>::empty()) =~= Seq::empty());
        }
        let mut wallet = AirdropWallet {
            metadata,
            sapling_records: Vec::new(),
            orchard_records: Vec::new(),
            nullifier_set: NullifierSet::new(),
            airdrop_nullifier_set: NullifierSet::new(),
            transactions,
        };
        match wallet.load_notes(sapling, orchard, spend_keys, claim_keys) {
            Ok(_) => Ok(wallet),
            Err(e) => Err(e),
        }
    }
}

} // verus!
