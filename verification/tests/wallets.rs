use zec_nam::wallet::{
    pool_of, AirdropWallet, OrchardNoteRecord, Pool, SaplingNoteRecord, WalletError,
    WalletMetadata,
};
use zec_nam::{
    ClaimDescription, FieldElement, NoteCommitment, Nullifier, OrchardNote, PublicKey,
    SaplingNote, Scalar,
};

fn sapling(value: u64, position: u64, seed: u8) -> SaplingNote {
    SaplingNote {
        diversifier: [seed; 11],
        value,
        note_commitment: NoteCommitment([seed.wrapping_add(1); 32]),
        nullifier_key: Scalar([seed.wrapping_add(2); 32]),
        randomness: Scalar([seed.wrapping_add(3); 32]),
        position,
    }
}

fn orchard(value: u64, position: u64, seed: u8) -> OrchardNote {
    OrchardNote {
        diversifier: [seed; 11],
        value,
        note_commitment: NoteCommitment([seed.wrapping_add(1); 32]),
        nullifier_key: Scalar([seed.wrapping_add(2); 32]),
        randomness: Scalar([seed.wrapping_add(3); 32]),
        position,
        rho: FieldElement([seed.wrapping_add(4); 32]),
        psi: FieldElement([seed.wrapping_add(5); 32]),
    }
}

fn metadata() -> WalletMetadata {
    WalletMetadata {
        name: "stored".to_string(),
        created_at: 11,
        last_sync: 12,
        network: "testnet".to_string(),
        version: "0.1.0".to_string(),
    }
}

fn unspent_sum_sapling(wallet: &AirdropWallet) -> u64 {
    wallet
        .sapling_records()
        .iter()
        .filter(|r| !r.is_spent)
        .map(|r| r.note.value)
        .sum()
}

fn unspent_sum_orchard(wallet: &AirdropWallet) -> u64 {
    wallet
        .orchard_records()
        .iter()
        .filter(|r| !r.is_spent)
        .map(|r| r.note.value)
        .sum()
}

fn never_mixed(wallet: &AirdropWallet) -> bool {
    wallet.sapling_records().iter().all(|r| {
        r.is_spent
            == wallet
                .airdrop_nullifier_set()
                .contains(&r.note.derive_claim_nullifier())
    }) && wallet.orchard_records().iter().all(|r| {
        r.is_spent
            == wallet
                .airdrop_nullifier_set()
                .contains(&r.note.derive_claim_nullifier())
    })
}

#[test]
fn a_new_wallet_is_empty_and_knows_its_name() {
    let wallet = AirdropWallet::new("main", "testnet", 1234);
    let meta = wallet.get_metadata();
    assert_eq!(meta.name, "main");
    assert_eq!(meta.network, "testnet");
    assert_eq!(meta.created_at, 1234);
    assert_eq!(meta.last_sync, 0);
    assert_eq!(meta.version, "0.1.0");
    assert!(wallet.sapling_records().is_empty());
    assert!(wallet.orchard_records().is_empty());
    assert_eq!(wallet.nullifier_set().len(), 0);
    assert_eq!(wallet.airdrop_nullifier_set().len(), 0);
    assert!(wallet.transactions().is_empty());
    assert_eq!(wallet.get_balance(), (0, 0));
    assert!(wallet.list_notes(None, None).is_empty());
}

#[test]
fn an_added_note_is_recorded_unspent_with_its_time() {
    let mut wallet = AirdropWallet::new("w", "testnet", 1);
    wallet.add_sapling_note(sapling(10, 4, 1), 100).unwrap();
    wallet.add_orchard_note(orchard(20, 5, 2), 200).unwrap();
    let record = wallet.sapling_records()[0];
    assert_eq!(record.note.value, 10);
    assert_eq!(record.note.position, 4);
    assert_eq!(record.created_at, 100);
    assert!(!record.is_spent);
    assert_eq!(record.last_used, None);
    let record = wallet.orchard_records()[0];
    assert_eq!(record.note.value, 20);
    assert_eq!(record.created_at, 200);
    assert!(!record.is_spent);
    assert_eq!(record.last_used, None);
    assert_eq!(wallet.get_balance(), (10, 20));
}

#[test]
fn sync_time_is_updated_and_nothing_else() {
    let mut wallet = AirdropWallet::new("w", "testnet", 1);
    wallet.add_sapling_note(sapling(10, 4, 1), 100).unwrap();
    wallet.update_last_sync(777);
    assert_eq!(wallet.get_metadata().last_sync, 777);
    assert_eq!(wallet.get_metadata().created_at, 1);
    assert_eq!(wallet.get_metadata().name, "w");
    assert_eq!(wallet.get_balance(), (10, 0));
}

#[test]
fn claim_of_a_one_million_note_succeeds_once_and_empties_the_balance() {
    let mut wallet = AirdropWallet::new("w", "testnet", 1);
    wallet.add_sapling_note(sapling(1_000_000, 0, 1), 2).unwrap();
    assert_eq!(wallet.get_balance(), (1_000_000, 0));

    let tx = wallet
        .create_sapling_airdrop_tx_mut(0, 500_000, "recipient", 3)
        .unwrap();
    assert_eq!(
        tx.get_airdrop_nullifier(),
        sapling(1_000_000, 0, 1).derive_claim_nullifier()
    );
    assert!(wallet
        .airdrop_nullifier_set()
        .contains(&tx.get_airdrop_nullifier()));
    let record = wallet.sapling_records()[0];
    assert!(record.is_spent);
    assert_eq!(record.last_used, Some(3));
    assert_eq!(wallet.get_balance(), (0, 0));

    let second = wallet.create_sapling_airdrop_tx_mut(0, 500_000, "recipient", 4);
    assert_eq!(second.unwrap_err(), WalletError::AlreadyClaimed);
    assert_eq!(wallet.sapling_records()[0].last_used, Some(3));
    assert_eq!(wallet.airdrop_nullifier_set().len(), 1);
    assert_eq!(wallet.get_balance(), (0, 0));
}

#[test]
fn claim_of_an_orchard_note_succeeds_once() {
    let mut wallet = AirdropWallet::new("w", "testnet", 1);
    wallet.add_orchard_note(orchard(40, 0, 1), 2).unwrap();
    wallet.add_orchard_note(orchard(2, 1, 9), 2).unwrap();
    let tx = wallet
        .create_orchard_airdrop_tx_mut(0, 40, "recipient", 3)
        .unwrap();
    assert!(matches!(tx.claim_description, ClaimDescription::Orchard(_)));
    assert_eq!(wallet.get_balance(), (0, 2));
    assert_eq!(
        wallet
            .create_orchard_airdrop_tx_mut(0, 40, "recipient", 4)
            .unwrap_err(),
        WalletError::AlreadyClaimed
    );
    assert!(wallet
        .create_orchard_airdrop_tx_mut(1, 2, "recipient", 5)
        .is_ok());
    assert_eq!(wallet.get_balance(), (0, 0));
    assert!(never_mixed(&wallet));
}

#[test]
fn a_claim_at_an_index_without_note_is_an_invalid_index() {
    let mut wallet = AirdropWallet::new("w", "testnet", 1);
    assert_eq!(
        wallet
            .create_sapling_airdrop_tx_mut(0, 1, "r", 2)
            .unwrap_err(),
        WalletError::InvalidIndex
    );
    assert_eq!(
        wallet
            .create_orchard_airdrop_tx_mut(3, 1, "r", 2)
            .unwrap_err(),
        WalletError::InvalidIndex
    );
    assert_eq!(
        wallet.create_sapling_airdrop_tx(0, 1, "r").unwrap_err(),
        WalletError::InvalidIndex
    );
    assert_eq!(
        wallet.create_orchard_airdrop_tx(0, 1, "r").unwrap_err(),
        WalletError::InvalidIndex
    );
    assert_eq!(
        wallet
            .create_sapling_to_masp_airdrop_tx(0, 1, &PublicKey([1u8; 32]))
            .unwrap_err()
            .0,
        "Invalid note index"
    );
    assert_eq!(
        wallet
            .create_orchard_to_masp_airdrop_tx(0, 1, &PublicKey([1u8; 32]))
            .unwrap_err()
            .0,
        "Invalid note index"
    );
    assert_eq!(wallet.airdrop_nullifier_set().len(), 0);
}

#[test]
fn assembling_a_transaction_does_not_change_the_wallet() {
    let mut wallet = AirdropWallet::new("w", "testnet", 1);
    wallet.add_sapling_note(sapling(10, 0, 1), 2).unwrap();
    wallet.add_orchard_note(orchard(10, 0, 1), 2).unwrap();
    let tx = wallet.create_sapling_airdrop_tx(0, 5, "abc").unwrap();
    let mut key = [0u8; 32];
    key[..3].copy_from_slice(b"abc");
    assert_eq!(tx.masp_mint_description.recipient, PublicKey(key));
    let tx = wallet
        .create_orchard_to_masp_airdrop_tx(0, 5, &PublicKey([3u8; 32]))
        .unwrap();
    assert_eq!(tx.masp_mint_description.recipient, PublicKey([3u8; 32]));
    let tx = wallet
        .create_sapling_to_masp_airdrop_tx(0, 5, &PublicKey([3u8; 32]))
        .unwrap();
    assert!(matches!(tx.claim_description, ClaimDescription::Sapling(_)));
    let tx = wallet.create_orchard_airdrop_tx(0, 5, "abc").unwrap();
    assert!(matches!(tx.claim_description, ClaimDescription::Orchard(_)));
    assert_eq!(wallet.get_balance(), (10, 10));
    assert_eq!(wallet.airdrop_nullifier_set().len(), 0);
    assert!(!wallet.sapling_records()[0].is_spent);
}

#[test]
fn balance_is_the_sum_of_the_unspent_notes_after_any_sequence() {
    let mut wallet = AirdropWallet::new("w", "testnet", 1);
    let mut now = 10;
    for step in 0u8..40 {
        now += 1;
        match step % 5 {
            0 | 1 => {
                wallet
                    .add_sapling_note(sapling(100 + step as u64, step as u64, step), now)
                    .unwrap();
            }
            2 => {
                wallet
                    .add_orchard_note(orchard(7 * step as u64, step as u64, step), now)
                    .unwrap();
            }
            3 => {
                let index = (step as usize) % wallet.sapling_records().len();
                wallet
                    .mark_note_as_spent_by_index("sapling", index, now)
                    .unwrap();
            }
            _ => {
                let position = (step - 2) as u64;
                wallet
                    .mark_note_as_spent("orchard", position, now)
                    .unwrap();
            }
        }
        assert_eq!(
            wallet.get_balance(),
            (unspent_sum_sapling(&wallet), unspent_sum_orchard(&wallet))
        );
        assert!(never_mixed(&wallet));
    }
    assert!(wallet.sapling_records().iter().any(|r| r.is_spent));
    assert!(wallet.sapling_records().iter().any(|r| !r.is_spent));
    assert!(wallet.orchard_records().iter().any(|r| r.is_spent));
}

#[test]
fn marking_by_position_records_the_nullifier_and_spends_the_note() {
    let mut wallet = AirdropWallet::new("w", "testnet", 1);
    wallet.add_sapling_note(sapling(10, 7, 1), 2).unwrap();
    wallet.add_sapling_note(sapling(20, 8, 2), 2).unwrap();
    wallet.mark_note_as_spent("sapling", 8, 50).unwrap();
    assert!(!wallet.sapling_records()[0].is_spent);
    assert!(wallet.sapling_records()[1].is_spent);
    assert_eq!(wallet.sapling_records()[1].last_used, Some(50));
    assert!(wallet
        .airdrop_nullifier_set()
        .contains(&sapling(20, 8, 2).derive_claim_nullifier()));
    assert_eq!(wallet.get_balance(), (10, 0));
    assert_eq!(
        wallet
            .create_sapling_airdrop_tx_mut(1, 1, "r", 60)
            .unwrap_err(),
        WalletError::AlreadyClaimed
    );
}

#[test]
fn marking_takes_the_first_note_at_a_position() {
    let mut wallet = AirdropWallet::new("w", "testnet", 1);
    wallet.add_orchard_note(orchard(10, 7, 1), 2).unwrap();
    wallet.add_orchard_note(orchard(20, 7, 2), 2).unwrap();
    wallet.mark_note_as_spent("orchard", 7, 50).unwrap();
    assert!(wallet.orchard_records()[0].is_spent);
    assert!(!wallet.orchard_records()[1].is_spent);
    assert_eq!(wallet.get_balance(), (0, 20));
}

#[test]
fn marking_fails_for_an_unknown_pool_or_a_missing_note() {
    let mut wallet = AirdropWallet::new("w", "testnet", 1);
    wallet.add_sapling_note(sapling(10, 7, 1), 2).unwrap();
    assert_eq!(
        wallet.mark_note_as_spent("sapling", 8, 5).unwrap_err(),
        WalletError::InvalidIndex
    );
    assert_eq!(
        wallet.mark_note_as_spent("orchard", 7, 5).unwrap_err(),
        WalletError::InvalidIndex
    );
    assert_eq!(
        wallet.mark_note_as_spent("sprout", 7, 5).unwrap_err(),
        WalletError::InvalidIndex
    );
    assert_eq!(
        wallet.mark_note_as_spent_by_index("sapling", 1, 5).unwrap_err(),
        WalletError::InvalidIndex
    );
    assert_eq!(
        wallet.mark_note_as_spent_by_index("orchard", 0, 5).unwrap_err(),
        WalletError::InvalidIndex
    );
    assert_eq!(
        wallet.mark_note_as_spent_by_index("", 0, 5).unwrap_err(),
        WalletError::InvalidIndex
    );
    assert_eq!(wallet.get_balance(), (10, 0));
    assert_eq!(wallet.airdrop_nullifier_set().len(), 0);
    assert!(!wallet.sapling_records()[0].is_spent);
}

#[test]
fn marking_again_only_renews_the_time_of_use() {
    let mut wallet = AirdropWallet::new("w", "testnet", 1);
    wallet.add_sapling_note(sapling(10, 7, 1), 2).unwrap();
    wallet.mark_note_as_spent_by_index("sapling", 0, 5).unwrap();
    wallet.mark_note_as_spent_by_index("sapling", 0, 9).unwrap();
    assert_eq!(wallet.sapling_records()[0].last_used, Some(9));
    assert_eq!(wallet.airdrop_nullifier_set().len(), 1);
    assert_eq!(wallet.get_balance(), (0, 0));
}

#[test]
fn a_claim_spends_every_copy_of_the_note() {
    let mut wallet = AirdropWallet::new("w", "testnet", 1);
    wallet.add_sapling_note(sapling(10, 7, 1), 2).unwrap();
    wallet.add_sapling_note(sapling(10, 7, 1), 3).unwrap();
    wallet.add_sapling_note(sapling(10, 8, 2), 3).unwrap();
    wallet.create_sapling_airdrop_tx_mut(1, 1, "r", 9).unwrap();
    assert!(wallet.sapling_records()[0].is_spent);
    assert!(wallet.sapling_records()[1].is_spent);
    assert!(!wallet.sapling_records()[2].is_spent);
    assert_eq!(wallet.get_balance(), (10, 0));
    assert!(never_mixed(&wallet));
}

#[test]
fn a_note_whose_nullifier_is_recorded_is_added_as_spent() {
    let mut wallet = AirdropWallet::new("w", "testnet", 1);
    wallet.add_sapling_note(sapling(10, 7, 1), 2).unwrap();
    wallet.create_sapling_airdrop_tx_mut(0, 1, "r", 9).unwrap();
    wallet.add_sapling_note(sapling(10, 7, 1), 12).unwrap();
    let record = wallet.sapling_records()[1];
    assert!(record.is_spent);
    assert_eq!(record.last_used, None);
    assert_eq!(record.created_at, 12);
    assert_eq!(wallet.get_balance(), (0, 0));
    assert!(never_mixed(&wallet));
}

#[test]
fn notes_worth_more_than_the_supply_are_refused() {
    let max = 2_100_000_000_000_000u64;
    let mut wallet = AirdropWallet::new("w", "testnet", 1);
    assert_eq!(
        wallet.add_sapling_note(sapling(max + 1, 0, 1), 2).unwrap_err(),
        WalletError::MalformedImport
    );
    assert!(wallet.sapling_records().is_empty());
    wallet.add_sapling_note(sapling(max - 5, 0, 1), 2).unwrap();
    wallet.add_sapling_note(sapling(5, 1, 2), 2).unwrap();
    assert_eq!(
        wallet.add_sapling_note(sapling(1, 2, 3), 2).unwrap_err(),
        WalletError::MalformedImport
    );
    assert_eq!(wallet.sapling_records().len(), 2);
    assert_eq!(wallet.get_balance(), (max, 0));
    // The pools are counted apart.
    wallet.add_orchard_note(orchard(max, 0, 1), 2).unwrap();
    assert_eq!(
        wallet.add_orchard_note(orchard(u64::MAX, 1, 2), 2).unwrap_err(),
        WalletError::MalformedImport
    );
    assert_eq!(wallet.get_balance(), (max, max));
    wallet.add_orchard_note(orchard(0, 2, 4), 2).unwrap();
    assert_eq!(wallet.orchard_records().len(), 2);
}

#[test]
fn listing_shows_both_pools_in_order() {
    let mut wallet = AirdropWallet::new("w", "testnet", 1);
    wallet.add_sapling_note(sapling(10, 1, 1), 100).unwrap();
    wallet.add_orchard_note(orchard(30, 2, 2), 200).unwrap();
    wallet.add_sapling_note(sapling(20, 3, 3), 300).unwrap();
    wallet.mark_note_as_spent("sapling", 3, 400).unwrap();
    let listed = wallet.list_notes(None, None);
    assert_eq!(listed.len(), 3);
    assert_eq!(listed[0].note_type, "sapling");
    assert_eq!(listed[0].value, 10);
    assert_eq!(listed[0].position, 1);
    assert!(!listed[0].is_spent);
    assert_eq!(listed[0].created_at, 100);
    assert_eq!(listed[0].last_used, None);
    assert_eq!(listed[1].note_type, "sapling");
    assert_eq!(listed[1].value, 20);
    assert!(listed[1].is_spent);
    assert_eq!(listed[1].last_used, Some(400));
    assert_eq!(listed[2].note_type, "orchard");
    assert_eq!(listed[2].value, 30);
    assert_eq!(listed[2].position, 2);
    assert_eq!(listed[2].created_at, 200);
}

#[test]
fn listing_filters_by_pool_and_by_value() {
    let mut wallet = AirdropWallet::new("w", "testnet", 1);
    wallet.add_sapling_note(sapling(10, 1, 1), 100).unwrap();
    wallet.add_sapling_note(sapling(20, 3, 3), 300).unwrap();
    wallet.add_orchard_note(orchard(30, 2, 2), 200).unwrap();
    wallet.add_orchard_note(orchard(5, 4, 4), 200).unwrap();
    let listed = wallet.list_notes(None, Some("sapling"));
    assert_eq!(listed.len(), 2);
    assert!(listed.iter().all(|n| n.note_type == "sapling"));
    let listed = wallet.list_notes(None, Some("orchard"));
    assert_eq!(listed.len(), 2);
    assert!(listed.iter().all(|n| n.note_type == "orchard"));
    let listed = wallet.list_notes(Some(20), None);
    assert_eq!(
        listed.iter().map(|n| n.value).collect::<Vec<u64>>(),
        vec![20, 30]
    );
    let listed = wallet.list_notes(Some(6), Some("orchard"));
    assert_eq!(
        listed.iter().map(|n| n.value).collect::<Vec<u64>>(),
        vec![30]
    );
    assert!(wallet.list_notes(None, Some("sprout")).is_empty());
    assert!(wallet.list_notes(Some(31), None).is_empty());
    assert_eq!(wallet.list_notes(Some(0), None).len(), 4);
}

#[test]
fn pool_names_are_exact() {
    assert_eq!(pool_of("sapling"), Some(Pool::Sapling));
    assert_eq!(pool_of("orchard"), Some(Pool::Orchard));
    assert_eq!(pool_of("Sapling"), None);
    assert_eq!(pool_of("sapling "), None);
    assert_eq!(pool_of(""), None);
}

#[test]
fn a_recorded_transaction_is_a_pending_log_entry() {
    let mut wallet = AirdropWallet::new("w", "testnet", 1);
    wallet.add_sapling_note(sapling(0x0203, 1, 1), 100).unwrap();
    let tx = wallet.create_sapling_airdrop_tx_mut(0, 5, "r", 9).unwrap();
    wallet.record_transaction(&tx, "hash-1", 5, 77).unwrap();
    wallet.record_transaction(&tx, "hash-2", u64::MAX, 78).unwrap();
    let log = wallet.transactions();
    assert_eq!(log.len(), 2);
    assert_eq!(log[0].tx_hash, "hash-1");
    assert_eq!(log[0].airdrop_nullifier, tx.get_airdrop_nullifier().0.to_vec());
    assert_eq!(log[0].amount, 5);
    assert_eq!(log[0].recipient, format!("72{}", "00".repeat(31)));
    assert_eq!(log[0].status, "pending");
    assert_eq!(log[0].created_at, 77);
    assert_eq!(log[0].confirmed_at, None);
    assert_eq!(log[0].block_height, None);
    assert_eq!(log[1].tx_hash, "hash-2");
    assert_eq!(log[1].amount, u64::MAX);
    assert_eq!(log[1].created_at, 78);
    assert_eq!(wallet.get_balance(), (0, 0));
}

#[test]
fn the_logged_amount_is_the_claimed_amount_and_not_the_value_of_the_note() {
    let mut wallet = AirdropWallet::new("w", "testnet", 1);
    wallet.add_sapling_note(sapling(1_000_000, 0, 1), 2).unwrap();
    let tx = wallet
        .create_sapling_to_masp_airdrop_tx(0, 500_000, &PublicKey([0xabu8; 32]))
        .unwrap();
    wallet.accept_transaction(&tx, true, true, 3).unwrap();
    let before = (
        wallet.sapling_records().clone(),
        wallet.airdrop_nullifier_set().to_vec(),
        wallet.nullifier_set().to_vec(),
    );
    wallet.record_transaction(&tx, "h", 500_000, 4).unwrap();
    let entry = &wallet.transactions()[0];
    assert_eq!(entry.amount, 500_000);
    assert_eq!(entry.recipient, "ab".repeat(32));
    assert_eq!(entry.airdrop_nullifier.len(), 32);
    assert_eq!(wallet.airdrop_nullifier_set().to_vec(), before.1);
    assert_eq!(wallet.nullifier_set().to_vec(), before.2);
    assert_eq!(wallet.sapling_records().len(), before.0.len());
    assert!(wallet.sapling_records()[0].is_spent);
}

#[test]
fn a_wallet_is_recovered_from_what_was_stored() {
    let wallet = AirdropWallet::load(
        metadata(),
        vec![SaplingNoteRecord {
            note: sapling(10, 1, 1),
            created_at: 5,
            is_spent: false,
            last_used: None,
        }],
        vec![OrchardNoteRecord {
            note: orchard(20, 2, 2),
            created_at: 6,
            is_spent: false,
            last_used: None,
        }],
        vec![vec![1u8; 32], vec![2u8; 31], vec![1u8; 32], vec![3u8; 33], Vec::new()],
        vec![vec![9u8; 32]],
        Vec::new(),
    )
    .unwrap();
    assert_eq!(wallet.get_metadata().name, "stored");
    assert_eq!(wallet.get_metadata().created_at, 11);
    assert_eq!(wallet.get_metadata().last_sync, 12);
    assert_eq!(wallet.nullifier_set().to_vec(), vec![Nullifier([1u8; 32])]);
    assert_eq!(
        wallet.airdrop_nullifier_set().to_vec(),
        vec![Nullifier([9u8; 32])]
    );
    assert_eq!(wallet.get_balance(), (10, 20));
    assert_eq!(wallet.sapling_records()[0].created_at, 5);
    assert_eq!(wallet.orchard_records()[0].created_at, 6);
}

#[test]
fn an_interrupted_claim_is_whole_after_recovery_when_only_the_nullifier_was_stored() {
    let note = sapling(10, 1, 1);
    let wallet = AirdropWallet::load(
        metadata(),
        vec![
            SaplingNoteRecord { note, created_at: 5, is_spent: false, last_used: None },
            SaplingNoteRecord {
                note: sapling(30, 2, 7),
                created_at: 5,
                is_spent: false,
                last_used: None,
            },
        ],
        Vec::new(),
        Vec::new(),
        vec![note.derive_claim_nullifier().0.to_vec()],
        Vec::new(),
    )
    .unwrap();
    assert!(wallet.sapling_records()[0].is_spent);
    assert!(!wallet.sapling_records()[1].is_spent);
    assert!(wallet
        .airdrop_nullifier_set()
        .contains(&note.derive_claim_nullifier()));
    assert_eq!(wallet.get_balance(), (30, 0));
    assert!(never_mixed(&wallet));
}

#[test]
fn an_interrupted_claim_is_whole_after_recovery_when_only_the_mark_was_stored() {
    let note = orchard(10, 1, 1);
    let mut wallet = AirdropWallet::load(
        metadata(),
        Vec::new(),
        vec![OrchardNoteRecord { note, created_at: 5, is_spent: true, last_used: Some(8) }],
        Vec::new(),
        Vec::new(),
        Vec::new(),
    )
    .unwrap();
    assert!(wallet.orchard_records()[0].is_spent);
    assert_eq!(wallet.orchard_records()[0].last_used, Some(8));
    assert_eq!(
        wallet.airdrop_nullifier_set().to_vec(),
        vec![note.derive_claim_nullifier()]
    );
    assert_eq!(wallet.get_balance(), (0, 0));
    assert!(never_mixed(&wallet));
    assert_eq!(
        wallet.create_orchard_airdrop_tx_mut(0, 1, "r", 9).unwrap_err(),
        WalletError::AlreadyClaimed
    );
}

#[test]
fn an_uninterrupted_store_is_recovered_as_it_was() {
    let mut wallet = AirdropWallet::new("w", "testnet", 1);
    wallet.add_sapling_note(sapling(10, 1, 1), 2).unwrap();
    wallet.add_sapling_note(sapling(20, 2, 2), 2).unwrap();
    wallet.add_orchard_note(orchard(30, 3, 3), 2).unwrap();
    let stored_before = (
        wallet.sapling_records().clone(),
        wallet.orchard_records().clone(),
        wallet.airdrop_nullifier_set().to_vec(),
    );
    wallet.create_sapling_airdrop_tx_mut(1, 1, "r", 9).unwrap();
    let stored_after = (
        wallet.sapling_records().clone(),
        wallet.orchard_records().clone(),
        wallet.airdrop_nullifier_set().to_vec(),
    );
    for (sapling_records, orchard_records, claimed) in [stored_before, stored_after] {
        let keys: Vec<Vec<u8>> = claimed.iter().map(|n| n.0.to_vec()).collect();
        let recovered = AirdropWallet::load(
            metadata(),
            sapling_records.clone(),
            orchard_records,
            Vec::new(),
            keys,
            Vec::new(),
        )
        .unwrap();
        assert!(never_mixed(&recovered));
        assert_eq!(recovered.airdrop_nullifier_set().to_vec(), claimed);
        for (a, b) in recovered.sapling_records().iter().zip(sapling_records.iter()) {
            assert_eq!(a.is_spent, b.is_spent);
            assert_eq!(a.last_used, b.last_used);
        }
    }
}

#[test]
fn a_store_worth_more_than_the_supply_is_not_recovered() {
    let max = 2_100_000_000_000_000u64;
    let failed = AirdropWallet::load(
        metadata(),
        vec![
            SaplingNoteRecord {
                note: sapling(max, 1, 1),
                created_at: 5,
                is_spent: true,
                last_used: None,
            },
            SaplingNoteRecord {
                note: sapling(1, 2, 2),
                created_at: 5,
                is_spent: false,
                last_used: None,
            },
        ],
        Vec::new(),
        Vec::new(),
        Vec::new(),
        Vec::new(),
    );
    assert_eq!(failed.unwrap_err(), WalletError::MalformedImport);
    let failed = AirdropWallet::load(
        metadata(),
        Vec::new(),
        vec![OrchardNoteRecord {
            note: orchard(u64::MAX, 1, 1),
            created_at: 5,
            is_spent: false,
            last_used: None,
        }],
        Vec::new(),
        Vec::new(),
        Vec::new(),
    );
    assert_eq!(failed.unwrap_err(), WalletError::MalformedImport);
}

#[test]
fn a_transaction_is_settled_by_the_verdicts_of_the_backend() {
    let mut wallet = AirdropWallet::new("w", "testnet", 1);
    wallet.add_sapling_note(sapling(10, 7, 1), 2).unwrap();
    wallet.add_sapling_note(sapling(20, 8, 5), 2).unwrap();
    let tx = wallet.create_sapling_airdrop_tx(0, 1, "r").unwrap();

    assert_eq!(
        wallet.accept_transaction(&tx, false, true, 9).unwrap_err(),
        WalletError::ProofBackendError
    );
    assert_eq!(
        wallet.accept_transaction(&tx, true, false, 9).unwrap_err(),
        WalletError::ProofBackendError
    );
    assert_eq!(
        wallet.accept_transaction(&tx, false, false, 9).unwrap_err(),
        WalletError::ProofBackendError
    );
    assert_eq!(wallet.get_balance(), (30, 0));
    assert_eq!(wallet.airdrop_nullifier_set().len(), 0);

    wallet.accept_transaction(&tx, true, true, 9).unwrap();
    assert_eq!(wallet.get_balance(), (20, 0));
    assert!(wallet.sapling_records()[0].is_spent);
    assert_eq!(wallet.sapling_records()[0].last_used, Some(9));
    assert!(wallet
        .airdrop_nullifier_set()
        .contains(&tx.get_airdrop_nullifier()));

    assert_eq!(
        wallet.accept_transaction(&tx, true, true, 10).unwrap_err(),
        WalletError::AlreadyClaimed
    );
    // A bad claim proof is reported before the recorded nullifier.
    assert_eq!(
        wallet.accept_transaction(&tx, false, true, 10).unwrap_err(),
        WalletError::ProofBackendError
    );
    // The recorded nullifier is reported before a bad equivalence proof.
    assert_eq!(
        wallet.accept_transaction(&tx, true, false, 10).unwrap_err(),
        WalletError::AlreadyClaimed
    );
    assert_eq!(wallet.sapling_records()[0].last_used, Some(9));
    assert!(never_mixed(&wallet));
}

#[test]
fn a_transaction_with_other_commitments_is_not_settled() {
    let mut wallet = AirdropWallet::new("w", "testnet", 1);
    wallet.add_orchard_note(orchard(10, 7, 1), 2).unwrap();
    let mut tx = wallet.create_orchard_airdrop_tx(0, 1, "r").unwrap();
    tx.equivalence_description.as_mut().unwrap().orchard_value_commitment =
        zec_nam::ValueCommitment([9u8; 32]);
    assert_eq!(
        wallet.accept_transaction(&tx, true, true, 9).unwrap_err(),
        WalletError::ProofBackendError
    );
    assert_eq!(wallet.get_balance(), (0, 10));
    tx.equivalence_description = None;
    wallet.accept_transaction(&tx, true, false, 9).unwrap();
    assert_eq!(wallet.get_balance(), (0, 0));
}

#[test]
fn recording_a_claim_spends_the_notes_of_that_nullifier_in_both_pools() {
    let mut wallet = AirdropWallet::new("w", "testnet", 1);
    wallet.add_sapling_note(sapling(10, 7, 1), 2).unwrap();
    wallet.add_orchard_note(orchard(20, 7, 1), 2).unwrap();
    wallet.record_claim(Nullifier([0x77u8; 32]), 5);
    assert_eq!(wallet.get_balance(), (10, 20));
    assert_eq!(
        wallet.airdrop_nullifier_set().to_vec(),
        vec![Nullifier([0x77u8; 32])]
    );
    wallet.record_claim(orchard(20, 7, 1).derive_claim_nullifier(), 6);
    assert_eq!(wallet.get_balance(), (10, 0));
    assert_eq!(wallet.orchard_records()[0].last_used, Some(6));
    assert_eq!(wallet.sapling_records()[0].last_used, None);
    assert_eq!(wallet.airdrop_nullifier_set().len(), 2);
    assert!(never_mixed(&wallet));
}
