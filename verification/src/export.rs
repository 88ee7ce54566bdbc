//! The export format of a wallet: how a wallet state is laid out in bytes,
//! and how such bytes are read back.
//!
//! An export starts with a header of fixed length: the four bytes `ZNAW`,
//! the format number, the two times of the metadata, the byte lengths of its
//! three texts and the numbers of first-pool records, second-pool records,
//! spend nullifiers and claim nullifiers. The texts and the items follow in
//! that order, nothing between them and nothing behind them. Every integer
//! is eight bytes, little-endian; every record has a fixed length.

use vstd::prelude::*;
use vstd::bytes::{
    lemma_auto_spec_u64_to_from_le_bytes, spec_u64_from_le_bytes, spec_u64_to_le_bytes,
    u64_from_le_bytes, u64_to_le_bytes,
};
use vstd::slice::slice_subrange;
use crate::note::{OrchardNote, SaplingNote};
use crate::primitives::{
    append_bytes, zeros, FieldElement, NoteCommitment, Nullifier, Scalar,
};
use crate::records::{
    MetadataView, OrchardNoteRecord, SaplingNoteRecord, WalletMetadata, WalletState,
};
use vstd::utf8::{decode_utf8, encode_utf8, valid_utf8};

verus! {

/// Length in bytes of an exported first-pool record.
pub const SAPLING_RECORD_LEN: usize = 141;

/// Length in bytes of an exported second-pool record.
pub const ORCHARD_RECORD_LEN: usize = 205;

/// Length in bytes of an exported nullifier.
pub const NULLIFIER_LEN: usize = 32;

/// The 32-byte value with the bytes `bytes`.
pub open spec fn array32(bytes: Seq<u8>) -> [u8; 32] {
    choose|a: [u8; 32]| a@ == bytes
}

/// The 11-byte value with the bytes `bytes`.
pub open spec fn array11(bytes: Seq<u8>) -> [u8; 11] {
    choose|a: [u8; 11]| a@ == bytes
}

/// A 32-byte value is the one with its bytes.
pub proof fn lemma_array32(a: [u8; 32])
    ensures
        array32(a@) == a,
{
    let b = array32(a@);
    assert(b@ == a@);
    assert(b =~= a);
}

/// An 11-byte value is the one with its bytes.
pub proof fn lemma_array11(a: [u8; 11])
    ensures
        array11(a@) == a,
{
    let b = array11(a@);
    assert(b@ == a@);
    assert(b =~= a);
}

/// The array that holds the first `filled` bytes of `bytes` and is zero
/// behind them.
spec fn array_with<const N: usize>(bytes: Seq<u8>, filled: nat) -> [u8; N]
    decreases filled,
{
    if filled == 0 {
        vstd::array::spec_array_fill_for_copy_type::<u8, N>(0u8)
    } else {
        vstd::array::spec_array_update(
            array_with::<N>(bytes, (filled - 1) as nat),
            filled - 1,
            bytes[filled - 1],
        )
    }
}

proof fn lemma_array_with<const N: usize>(bytes: Seq<u8>, filled: nat)
    requires
        filled <= N,
    ensures
        forall|i: int| 0 <= i < filled ==> array_with::<N>(bytes, filled)@[i] == bytes[i],
    decreases filled,
{
    if filled > 0 {
        lemma_array_with::<N>(bytes, (filled - 1) as nat);
    }
}

/// Every 32 bytes are the bytes of a 32-byte value.
pub proof fn lemma_bytes_of_array32(bytes: Seq<u8>)
    requires
        bytes.len() == 32,
    ensures
        array32(bytes)@ == bytes,
{
    lemma_array_with::<32>(bytes, 32);
    assert(array_with::<32>(bytes, 32)@ =~= bytes);
}

/// Every 11 bytes are the bytes of an 11-byte value.
pub proof fn lemma_bytes_of_array11(bytes: Seq<u8>)
    requires
        bytes.len() == 11,
    ensures
        array11(bytes)@ == bytes,
{
    lemma_array_with::<11>(bytes, 11);
    assert(array_with::<11>(bytes, 11)@ =~= bytes);
}

/// A spent flag in one byte.
pub open spec fn encode_flag(flag: bool) -> Seq<u8> {
    seq![if flag { 1u8 } else { 0u8 }]
}

/// A time that may be missing, in nine bytes: the byte 1 and the time, or
/// nine zero bytes where it is missing.
pub open spec fn encode_time(time: Option<u64>) -> Seq<u8> {
    match time {
        Some(at) => seq![1u8] + spec_u64_to_le_bytes(at),
        None => seq![0u8] + zeros(8),
    }
}

/// The flag that one byte stands for, if it stands for one.
pub open spec fn parse_flag(byte: u8) -> Option<bool> {
    if byte == 0 {
        Some(false)
    } else if byte == 1 {
        Some(true)
    } else {
        None
    }
}

/// The time that nine bytes stand for, if they stand for one.
pub open spec fn parse_time(bytes: Seq<u8>) -> Option<Option<u64>> {
    if bytes[0] == 1 {
        Some(Some(spec_u64_from_le_bytes(bytes.subrange(1, 9))))
    } else if bytes[0] == 0 && bytes.subrange(1, 9) == zeros(8) {
        Some(None)
    } else {
        None
    }
}

/// A first-pool record in `SAPLING_RECORD_LEN` bytes.
pub open spec fn encode_sapling_record(record: SaplingNoteRecord) -> Seq<u8> {
    record.note.diversifier@ + spec_u64_to_le_bytes(record.note.value)
        + record.note.note_commitment.0@ + record.note.nullifier_key.0@
        + record.note.randomness.0@ + spec_u64_to_le_bytes(record.note.position)
        + spec_u64_to_le_bytes(record.created_at) + encode_flag(record.is_spent) + encode_time(
        record.last_used,
    )
}

/// A second-pool record in `ORCHARD_RECORD_LEN` bytes.
pub open spec fn encode_orchard_record(record: OrchardNoteRecord) -> Seq<u8> {
    record.note.diversifier@ + spec_u64_to_le_bytes(record.note.value)
        + record.note.note_commitment.0@ + record.note.nullifier_key.0@
        + record.note.randomness.0@ + spec_u64_to_le_bytes(record.note.position)
        + record.note.rho.0@ + record.note.psi.0@ + spec_u64_to_le_bytes(record.created_at)
        + encode_flag(record.is_spent) + encode_time(record.last_used)
}

/// The first-pool record that `SAPLING_RECORD_LEN` bytes stand for, if they
/// stand for one.
pub open spec fn parse_sapling_record(bytes: Seq<u8>) -> Option<SaplingNoteRecord> {
    match (parse_flag(bytes[131]), parse_time(bytes.subrange(132, 141))) {
        (Some(is_spent), Some(last_used)) => Some(
            SaplingNoteRecord {
                note: SaplingNote {
                    diversifier: array11(bytes.subrange(0, 11)),
                    value: spec_u64_from_le_bytes(bytes.subrange(11, 19)),
                    note_commitment: NoteCommitment(array32(bytes.subrange(19, 51))),
                    nullifier_key: Scalar(array32(bytes.subrange(51, 83))),
                    randomness: Scalar(array32(bytes.subrange(83, 115))),
                    position: spec_u64_from_le_bytes(bytes.subrange(115, 123)),
                },
                created_at: spec_u64_from_le_bytes(bytes.subrange(123, 131)),
                is_spent,
                last_used,
            },
        ),
        _ => None,
    }
}

/// The second-pool record that `ORCHARD_RECORD_LEN` bytes stand for, if
/// they stand for one.
pub open spec fn parse_orchard_record(bytes: Seq<u8>) -> Option<OrchardNoteRecord> {
    match (parse_flag(bytes[195]), parse_time(bytes.subrange(196, 205))) {
        (Some(is_spent), Some(last_used)) => Some(
            OrchardNoteRecord {
                note: OrchardNote {
                    diversifier: array11(bytes.subrange(0, 11)),
                    value: spec_u64_from_le_bytes(bytes.subrange(11, 19)),
                    note_commitment: NoteCommitment(array32(bytes.subrange(19, 51))),
                    nullifier_key: Scalar(array32(bytes.subrange(51, 83))),
                    randomness: Scalar(array32(bytes.subrange(83, 115))),
                    position: spec_u64_from_le_bytes(bytes.subrange(115, 123)),
                    rho: FieldElement(array32(bytes.subrange(123, 155))),
                    psi: FieldElement(array32(bytes.subrange(155, 187))),
                },
                created_at: spec_u64_from_le_bytes(bytes.subrange(187, 195)),
                is_spent,
                last_used,
            },
        ),
        _ => None,
    }
}

/// A time that may be missing is read back from its bytes.
pub proof fn lemma_time_round_trip(time: Option<u64>)
    ensures
        encode_time(time).len() == 9,
        parse_time(encode_time(time)) == Some(time),
{
    lemma_auto_spec_u64_to_from_le_bytes();
    match time {
        Some(at) => {
            assert(encode_time(time).subrange(1, 9) =~= spec_u64_to_le_bytes(at));
        },
        None => {
            assert(encode_time(time).subrange(1, 9) =~= zeros(8));
        },
    }
}

/// A first-pool record is read back from its bytes.
pub proof fn lemma_sapling_record_round_trip(record: SaplingNoteRecord)
    ensures
        encode_sapling_record(record).len() == SAPLING_RECORD_LEN,
        parse_sapling_record(encode_sapling_record(record)) == Some(record),
{
    lemma_auto_spec_u64_to_from_le_bytes();
    lemma_time_round_trip(record.last_used);
    let bytes = encode_sapling_record(record);
    let note = record.note;
    assert(bytes.subrange(0, 11) =~= note.diversifier@);
    assert(bytes.subrange(11, 19) =~= spec_u64_to_le_bytes(note.value));
    assert(bytes.subrange(19, 51) =~= note.note_commitment.0@);
    assert(bytes.subrange(51, 83) =~= note.nullifier_key.0@);
    assert(bytes.subrange(83, 115) =~= note.randomness.0@);
    assert(bytes.subrange(115, 123) =~= spec_u64_to_le_bytes(note.position));
    assert(bytes.subrange(123, 131) =~= spec_u64_to_le_bytes(record.created_at));
    assert(bytes.subrange(132, 141) =~= encode_time(record.last_used));
    lemma_array11(note.diversifier);
    lemma_array32(note.note_commitment.0);
    lemma_array32(note.nullifier_key.0);
    lemma_array32(note.randomness.0);
}

/// A second-pool record is read back from its bytes.
pub proof fn lemma_orchard_record_round_trip(record: OrchardNoteRecord)
    ensures
        encode_orchard_record(record).len() == ORCHARD_RECORD_LEN,
        parse_orchard_record(encode_orchard_record(record)) == Some(record),
{
    lemma_auto_spec_u64_to_from_le_bytes();
    lemma_time_round_trip(record.last_used);
    let bytes = encode_orchard_record(record);
    let note = record.note;
    assert(bytes.subrange(0, 11) =~= note.diversifier@);
    assert(bytes.subrange(11, 19) =~= spec_u64_to_le_bytes(note.value));
    assert(bytes.subrange(19, 51) =~= note.note_commitment.0@);
    assert(bytes.subrange(51, 83) =~= note.nullifier_key.0@);
    assert(bytes.subrange(83, 115) =~= note.randomness.0@);
    assert(bytes.subrange(115, 123) =~= spec_u64_to_le_bytes(note.position));
    assert(bytes.subrange(123, 155) =~= note.rho.0@);
    assert(bytes.subrange(155, 187) =~= note.psi.0@);
    assert(bytes.subrange(187, 195) =~= spec_u64_to_le_bytes(record.created_at));
    assert(bytes.subrange(196, 205) =~= encode_time(record.last_used));
    lemma_array11(note.diversifier);
    lemma_array32(note.note_commitment.0);
    lemma_array32(note.nullifier_key.0);
    lemma_array32(note.randomness.0);
    lemma_array32(note.rho.0);
    lemma_array32(note.psi.0);
}

/// The bytes that stand for a time are the bytes of that time.
pub proof fn lemma_time_canonical(bytes: Seq<u8>)
    requires
        bytes.len() == 9,
        parse_time(bytes) is Some,
    ensures
        encode_time(parse_time(bytes)->0) == bytes,
{
    lemma_auto_spec_u64_to_from_le_bytes();
    let tail = bytes.subrange(1, 9);
    assert(spec_u64_to_le_bytes(spec_u64_from_le_bytes(tail)) == tail);
    assert(encode_time(parse_time(bytes)->0) =~= bytes);
}

/// The bytes that stand for a first-pool record are the bytes of that
/// record.
pub proof fn lemma_sapling_record_canonical(bytes: Seq<u8>)
    requires
        bytes.len() == SAPLING_RECORD_LEN,
        parse_sapling_record(bytes) is Some,
    ensures
        encode_sapling_record(parse_sapling_record(bytes)->0) == bytes,
{
    lemma_auto_spec_u64_to_from_le_bytes();
    let record = parse_sapling_record(bytes)->0;
    lemma_bytes_of_array11(bytes.subrange(0, 11));
    lemma_bytes_of_array32(bytes.subrange(19, 51));
    lemma_bytes_of_array32(bytes.subrange(51, 83));
    lemma_bytes_of_array32(bytes.subrange(83, 115));
    lemma_time_canonical(bytes.subrange(132, 141));
    let value = bytes.subrange(11, 19);
    let position = bytes.subrange(115, 123);
    let created_at = bytes.subrange(123, 131);
    assert(spec_u64_to_le_bytes(spec_u64_from_le_bytes(value)) == value);
    assert(spec_u64_to_le_bytes(spec_u64_from_le_bytes(position)) == position);
    assert(spec_u64_to_le_bytes(spec_u64_from_le_bytes(created_at)) == created_at);
    assert(encode_flag(record.is_spent) =~= bytes.subrange(131, 132));
    assert(encode_sapling_record(record) =~= bytes.subrange(0, 11) + value + bytes.subrange(
        19,
        51,
    ) + bytes.subrange(51, 83) + bytes.subrange(83, 115) + position + created_at
        + bytes.subrange(131, 132) + bytes.subrange(132, 141));
    assert(encode_sapling_record(record) =~= bytes);
}

/// The bytes that stand for a second-pool record are the bytes of that
/// record.
pub proof fn lemma_orchard_record_canonical(bytes: Seq<u8>)
    requires
        bytes.len() == ORCHARD_RECORD_LEN,
        parse_orchard_record(bytes) is Some,
    ensures
        encode_orchard_record(parse_orchard_record(bytes)->0) == bytes,
{
    lemma_auto_spec_u64_to_from_le_bytes();
    let record = parse_orchard_record(bytes)->0;
    lemma_bytes_of_array11(bytes.subrange(0, 11));
    lemma_bytes_of_array32(bytes.subrange(19, 51));
    lemma_bytes_of_array32(bytes.subrange(51, 83));
    lemma_bytes_of_array32(bytes.subrange(83, 115));
    lemma_bytes_of_array32(bytes.subrange(123, 155));
    lemma_bytes_of_array32(bytes.subrange(155, 187));
    lemma_time_canonical(bytes.subrange(196, 205));
    let value = bytes.subrange(11, 19);
    let position = bytes.subrange(115, 123);
    let created_at = bytes.subrange(187, 195);
    assert(spec_u64_to_le_bytes(spec_u64_from_le_bytes(value)) == value);
    assert(spec_u64_to_le_bytes(spec_u64_from_le_bytes(position)) == position);
    assert(spec_u64_to_le_bytes(spec_u64_from_le_bytes(created_at)) == created_at);
    assert(encode_flag(record.is_spent) =~= bytes.subrange(195, 196));
    assert(encode_orchard_record(record) =~= bytes.subrange(0, 11) + value + bytes.subrange(
        19,
        51,
    ) + bytes.subrange(51, 83) + bytes.subrange(83, 115) + position + bytes.subrange(123, 155)
        + bytes.subrange(155, 187) + created_at + bytes.subrange(195, 196) + bytes.subrange(
        196,
        205,
    ));
    assert(encode_orchard_record(record) =~= bytes);
}

/// The blocks one after another.
pub open spec fn concat_blocks(blocks: Seq<Seq<u8>>) -> Seq<u8>
    decreases blocks.len(),
{
    if blocks.len() == 0 {
        Seq::empty()
    } else {
        concat_blocks(blocks.drop_last()) + blocks.last()
    }
}

/// The block of `width` bytes at the place `k` of `bytes`.
pub open spec fn block(bytes: Seq<u8>, width: int, k: int) -> Seq<u8> {
    bytes.subrange(k * width, k * width + width)
}

/// Blocks of one width, laid one after another, are found again at the
/// multiples of the width.
pub proof fn lemma_blocks(blocks: Seq<Seq<u8>>, width: int)
    requires
        0 <= width,
        forall|k: int| 0 <= k < blocks.len() ==> (#[trigger] blocks[k]).len() == width,
    ensures
        concat_blocks(blocks).len() == blocks.len() * width,
        forall|k: int|
            0 <= k < blocks.len() ==> #[trigger] block(concat_blocks(blocks), width, k)
                == blocks[k],
    decreases blocks.len(),
{
    if blocks.len() > 0 {
        let front = blocks.drop_last();
        let n = blocks.len() as int;
        lemma_blocks(front, width);
        assert((n - 1) * width + width == n * width) by (nonlinear_arith);
        assert forall|k: int| 0 <= k < n implies #[trigger] block(
            concat_blocks(blocks),
            width,
            k,
        ) == blocks[k] by {
            assert(0 <= k * width && k * width + width <= n * width) by (nonlinear_arith)
                requires
                    0 <= k < n,
                    0 <= width,
            ;
            if k < n - 1 {
                assert(k * width + width <= (n - 1) * width) by (nonlinear_arith)
                    requires
                        0 <= k < n - 1,
                        0 <= width,
                ;
                assert(block(concat_blocks(blocks), width, k) =~= block(
                    concat_blocks(front),
                    width,
                    k,
                ));
                assert(front[k] == blocks[k]);
            } else {
                assert(block(concat_blocks(blocks), width, k) =~= blocks.last());
            }
        }
    } else {
        assert(blocks.len() * width == 0) by (nonlinear_arith)
            requires
                blocks.len() == 0,
        ;
    }
}

/// The first-pool records that `count` blocks of `bytes` stand for, if
/// every block stands for one.
pub open spec fn parse_sapling_records(bytes: Seq<u8>, count: int) -> Option<
    Seq<SaplingNoteRecord>,
> {
    if forall|k: int|
        0 <= k < count ==> parse_sapling_record(
            #[trigger] block(bytes, SAPLING_RECORD_LEN as int, k),
        ) is Some {
        Some(
            Seq::new(
                count as nat,
                |k: int| parse_sapling_record(block(bytes, SAPLING_RECORD_LEN as int, k))->0,
            ),
        )
    } else {
        None
    }
}

/// The second-pool records that `count` blocks of `bytes` stand for, if
/// every block stands for one.
pub open spec fn parse_orchard_records(bytes: Seq<u8>, count: int) -> Option<
    Seq<OrchardNoteRecord>,
> {
    if forall|k: int|
        0 <= k < count ==> parse_orchard_record(
            #[trigger] block(bytes, ORCHARD_RECORD_LEN as int, k),
        ) is Some {
        Some(
            Seq::new(
                count as nat,
                |k: int| parse_orchard_record(block(bytes, ORCHARD_RECORD_LEN as int, k))->0,
            ),
        )
    } else {
        None
    }
}

/// The nullifiers that `count` blocks of `bytes` stand for.
pub open spec fn parse_nullifiers(bytes: Seq<u8>, count: int) -> Seq<Nullifier> {
    Seq::new(count as nat, |k: int| Nullifier(array32(block(bytes, NULLIFIER_LEN as int, k))))
}

/// The text that `bytes` stand for, if they are UTF-8.
pub open spec fn parse_text(bytes: Seq<u8>) -> Option<Seq<char>> {
    if valid_utf8(bytes) {
        Some(decode_utf8(bytes))
    } else {
        None
    }
}

/// The first-pool records, one after another.
pub open spec fn encode_sapling_records(records: Seq<SaplingNoteRecord>) -> Seq<u8> {
    concat_blocks(records.map_values(|record: SaplingNoteRecord| encode_sapling_record(record)))
}

/// The second-pool records, one after another.
pub open spec fn encode_orchard_records(records: Seq<OrchardNoteRecord>) -> Seq<u8> {
    concat_blocks(records.map_values(|record: OrchardNoteRecord| encode_orchard_record(record)))
}

/// The nullifiers, one after another.
pub open spec fn encode_nullifiers(nullifiers: Seq<Nullifier>) -> Seq<u8> {
    concat_blocks(nullifiers.map_values(|nullifier: Nullifier| nullifier.0@))
}

/// Records laid one after another are read back.
pub proof fn lemma_sapling_records_round_trip(records: Seq<SaplingNoteRecord>)
    ensures
        encode_sapling_records(records).len() == records.len() * SAPLING_RECORD_LEN,
        parse_sapling_records(encode_sapling_records(records), records.len() as int) == Some(
            records,
        ),
{
    let blocks = records.map_values(|record: SaplingNoteRecord| encode_sapling_record(record));
    assert forall|k: int| 0 <= k < blocks.len() implies (#[trigger] blocks[k]).len()
        == SAPLING_RECORD_LEN by {
        lemma_sapling_record_round_trip(records[k]);
    }
    lemma_blocks(blocks, SAPLING_RECORD_LEN as int);
    let bytes = encode_sapling_records(records);
    assert forall|k: int| 0 <= k < records.len() implies parse_sapling_record(
        #[trigger] block(bytes, SAPLING_RECORD_LEN as int, k),
    ) == Some(records[k]) by {
        lemma_sapling_record_round_trip(records[k]);
        assert(block(bytes, SAPLING_RECORD_LEN as int, k) == blocks[k]);
    }
    assert(parse_sapling_records(bytes, records.len() as int)->0 =~= records);
}

/// Records laid one after another are read back.
pub proof fn lemma_orchard_records_round_trip(records: Seq<OrchardNoteRecord>)
    ensures
        encode_orchard_records(records).len() == records.len() * ORCHARD_RECORD_LEN,
        parse_orchard_records(encode_orchard_records(records), records.len() as int) == Some(
            records,
        ),
{
    let blocks = records.map_values(|record: OrchardNoteRecord| encode_orchard_record(record));
    assert forall|k: int| 0 <= k < blocks.len() implies (#[trigger] blocks[k]).len()
        == ORCHARD_RECORD_LEN by {
        lemma_orchard_record_round_trip(records[k]);
    }
    lemma_blocks(blocks, ORCHARD_RECORD_LEN as int);
    let bytes = encode_orchard_records(records);
    assert forall|k: int| 0 <= k < records.len() implies parse_orchard_record(
        #[trigger] block(bytes, ORCHARD_RECORD_LEN as int, k),
    ) == Some(records[k]) by {
        lemma_orchard_record_round_trip(records[k]);
        assert(block(bytes, ORCHARD_RECORD_LEN as int, k) == blocks[k]);
    }
    assert(parse_orchard_records(bytes, records.len() as int)->0 =~= records);
}

/// Nullifiers laid one after another are read back.
pub proof fn lemma_nullifiers_round_trip(nullifiers: Seq<Nullifier>)
    ensures
        encode_nullifiers(nullifiers).len() == nullifiers.len() * NULLIFIER_LEN,
        parse_nullifiers(encode_nullifiers(nullifiers), nullifiers.len() as int) == nullifiers,
{
    let blocks = nullifiers.map_values(|nullifier: Nullifier| nullifier.0@);
    lemma_blocks(blocks, NULLIFIER_LEN as int);
    let bytes = encode_nullifiers(nullifiers);
    assert forall|k: int| 0 <= k < nullifiers.len() implies Nullifier(
        array32(#[trigger] block(bytes, NULLIFIER_LEN as int, k)),
    ) == nullifiers[k] by {
        assert(block(bytes, NULLIFIER_LEN as int, k) == blocks[k]);
        lemma_array32(nullifiers[k].0);
    }
    assert(parse_nullifiers(bytes, nullifiers.len() as int) =~= nullifiers);
}

/// Bytes that are cut into blocks of one width, and laid one after another
/// again, are the bytes.
pub proof fn lemma_unblocks(bytes: Seq<u8>, width: int, count: int)
    requires
        0 <= width,
        0 <= count,
        bytes.len() == count * width,
    ensures
        concat_blocks(Seq::new(count as nat, |k: int| block(bytes, width, k))) == bytes,
    decreases count,
{
    let blocks = Seq::new(count as nat, |k: int| block(bytes, width, k));
    if count > 0 {
        assert((count - 1) * width + width == count * width) by (nonlinear_arith);
        assert(0 <= (count - 1) * width) by (nonlinear_arith)
            requires
                0 <= width,
                0 < count,
        ;
        let front = bytes.subrange(0, (count - 1) * width);
        let front_blocks = Seq::new((count - 1) as nat, |k: int| block(front, width, k));
        lemma_unblocks(front, width, count - 1);
        assert forall|k: int| 0 <= k < count - 1 implies block(bytes, width, k) == block(
            front,
            width,
            k,
        ) by {
            assert(0 <= k * width && k * width + width <= (count - 1) * width)
                by (nonlinear_arith)
                requires
                    0 <= k < count - 1,
                    0 <= width,
            ;
            assert(block(bytes, width, k) =~= block(front, width, k));
        }
        assert(blocks.drop_last() =~= front_blocks);
        assert(blocks.last() == bytes.subrange((count - 1) * width, count * width));
        assert(concat_blocks(blocks) =~= bytes);
    } else {
        assert(count * width == 0) by (nonlinear_arith)
            requires
                count == 0,
        ;
        assert(concat_blocks(blocks) =~= bytes);
    }
}

/// The bytes that stand for first-pool records are the bytes of those
/// records.
pub proof fn lemma_sapling_records_canonical(bytes: Seq<u8>, count: int)
    requires
        0 <= count,
        bytes.len() == count * SAPLING_RECORD_LEN,
        parse_sapling_records(bytes, count) is Some,
    ensures
        encode_sapling_records(parse_sapling_records(bytes, count)->0) == bytes,
{
    let records = parse_sapling_records(bytes, count)->0;
    let width = SAPLING_RECORD_LEN as int;
    let blocks = Seq::new(count as nat, |k: int| block(bytes, width, k));
    assert forall|k: int| 0 <= k < count implies encode_sapling_record(#[trigger] records[k])
        == blocks[k] by {
        assert(parse_sapling_record(block(bytes, width, k)) is Some);
        lemma_sapling_record_canonical(block(bytes, width, k));
    }
    assert(records.map_values(|record: SaplingNoteRecord| encode_sapling_record(record))
        =~= blocks);
    lemma_unblocks(bytes, width, count);
}

/// The bytes that stand for second-pool records are the bytes of those
/// records.
pub proof fn lemma_orchard_records_canonical(bytes: Seq<u8>, count: int)
    requires
        0 <= count,
        bytes.len() == count * ORCHARD_RECORD_LEN,
        parse_orchard_records(bytes, count) is Some,
    ensures
        encode_orchard_records(parse_orchard_records(bytes, count)->0) == bytes,
{
    let records = parse_orchard_records(bytes, count)->0;
    let width = ORCHARD_RECORD_LEN as int;
    let blocks = Seq::new(count as nat, |k: int| block(bytes, width, k));
    assert forall|k: int| 0 <= k < count implies encode_orchard_record(#[trigger] records[k])
        == blocks[k] by {
        assert(parse_orchard_record(block(bytes, width, k)) is Some);
        lemma_orchard_record_canonical(block(bytes, width, k));
    }
    assert(records.map_values(|record: OrchardNoteRecord| encode_orchard_record(record))
        =~= blocks);
    lemma_unblocks(bytes, width, count);
}

/// The bytes that stand for nullifiers are the bytes of those nullifiers.
pub proof fn lemma_nullifiers_canonical(bytes: Seq<u8>, count: int)
    requires
        0 <= count,
        bytes.len() == count * NULLIFIER_LEN,
    ensures
        encode_nullifiers(parse_nullifiers(bytes, count)) == bytes,
{
    let nullifiers = parse_nullifiers(bytes, count);
    let width = NULLIFIER_LEN as int;
    let blocks = Seq::new(count as nat, |k: int| block(bytes, width, k));
    assert forall|k: int| 0 <= k < count implies (#[trigger] nullifiers[k]).0@ == blocks[k] by {
        lemma_bytes_of_array32(block(bytes, width, k));
    }
    assert(nullifiers.map_values(|nullifier: Nullifier| nullifier.0@) =~= blocks);
    lemma_unblocks(bytes, width, count);
}

/// The four bytes that every export starts with: `ZNAW`.
pub open spec fn export_magic() -> Seq<u8> {
    seq![90u8, 78u8, 65u8, 87u8]
}

/// The number of the format.
pub const EXPORT_FORMAT: u8 = 1;

/// Length in bytes of the header of an export.
pub const HEADER_LEN: usize = 77;

/// Whether every length in `state` fits the eight bytes that the header
/// has for it.
pub open spec fn encodable(state: WalletState) -> bool {
    &&& encode_utf8(state.metadata.name).len() <= u64::MAX
    &&& encode_utf8(state.metadata.network).len() <= u64::MAX
    &&& encode_utf8(state.metadata.version).len() <= u64::MAX
    &&& state.sapling.len() <= u64::MAX
    &&& state.orchard.len() <= u64::MAX
    &&& state.spent.len() <= u64::MAX
    &&& state.claimed.len() <= u64::MAX
}

/// The header of the export of `state`.
pub open spec fn encode_header(state: WalletState) -> Seq<u8> {
    export_magic() + seq![EXPORT_FORMAT] + spec_u64_to_le_bytes(state.metadata.created_at)
        + spec_u64_to_le_bytes(state.metadata.last_sync) + spec_u64_to_le_bytes(
        encode_utf8(state.metadata.name).len() as u64,
    ) + spec_u64_to_le_bytes(encode_utf8(state.metadata.network).len() as u64)
        + spec_u64_to_le_bytes(encode_utf8(state.metadata.version).len() as u64)
        + spec_u64_to_le_bytes(state.sapling.len() as u64) + spec_u64_to_le_bytes(
        state.orchard.len() as u64,
    ) + spec_u64_to_le_bytes(state.spent.len() as u64) + spec_u64_to_le_bytes(
        state.claimed.len() as u64,
    )
}

/// The export of `state`.
pub open spec fn encode_wallet(state: WalletState) -> Seq<u8> {
    encode_header(state) + encode_utf8(state.metadata.name) + encode_utf8(state.metadata.network)
        + encode_utf8(state.metadata.version) + encode_sapling_records(state.sapling)
        + encode_orchard_records(state.orchard) + encode_nullifiers(state.spent)
        + encode_nullifiers(state.claimed)
}

/// The integer at the place `index` of the header of `data`.
pub open spec fn header_field(data: Seq<u8>, index: int) -> u64 {
    spec_u64_from_le_bytes(data.subrange(5 + 8 * index, 13 + 8 * index))
}

/// The state that `data` is the export of, if it is one.
pub open spec fn parse_wallet(data: Seq<u8>) -> Option<WalletState> {
    if data.len() < HEADER_LEN || data.subrange(0, 4) != export_magic() || data[4]
        != EXPORT_FORMAT {
        None
    } else {
        let names = HEADER_LEN as int;
        let networks = names + header_field(data, 2);
        let versions = networks + header_field(data, 3);
        let saplings = versions + header_field(data, 4);
        let orchards = saplings + header_field(data, 5) * SAPLING_RECORD_LEN;
        let spents = orchards + header_field(data, 6) * ORCHARD_RECORD_LEN;
        let claims = spents + header_field(data, 7) * NULLIFIER_LEN;
        let end = claims + header_field(data, 8) * NULLIFIER_LEN;
        if data.len() != end {
            None
        } else {
            match (
                parse_text(data.subrange(names, networks)),
                parse_text(data.subrange(networks, versions)),
                parse_text(data.subrange(versions, saplings)),
                parse_sapling_records(
                    data.subrange(saplings, orchards),
                    header_field(data, 5) as int,
                ),
                parse_orchard_records(
                    data.subrange(orchards, spents),
                    header_field(data, 6) as int,
                ),
            ) {
                (Some(name), Some(network), Some(version), Some(sapling), Some(orchard)) => Some(
                    WalletState {
                        metadata: MetadataView {
                            name,
                            created_at: header_field(data, 0),
                            last_sync: header_field(data, 1),
                            network,
                            version,
                        },
                        sapling,
                        orchard,
                        spent: parse_nullifiers(
                            data.subrange(spents, claims),
                            header_field(data, 7) as int,
                        ),
                        claimed: parse_nullifiers(
                            data.subrange(claims, end),
                            header_field(data, 8) as int,
                        ),
                    },
                ),
                _ => None,
            }
        }
    }
}

/// The header of an export holds, at each of its places, what was written
/// there.
pub proof fn lemma_header_fields(state: WalletState, rest: Seq<u8>)
    requires
        encodable(state),
    ensures
        encode_header(state).len() == HEADER_LEN,
        (encode_header(state) + rest).subrange(0, 4) == export_magic(),
        (encode_header(state) + rest)[4] == EXPORT_FORMAT,
        header_field(encode_header(state) + rest, 0) == state.metadata.created_at,
        header_field(encode_header(state) + rest, 1) == state.metadata.last_sync,
        header_field(encode_header(state) + rest, 2) == encode_utf8(state.metadata.name).len(),
        header_field(encode_header(state) + rest, 3) == encode_utf8(state.metadata.network).len(),
        header_field(encode_header(state) + rest, 4) == encode_utf8(state.metadata.version).len(),
        header_field(encode_header(state) + rest, 5) == state.sapling.len(),
        header_field(encode_header(state) + rest, 6) == state.orchard.len(),
        header_field(encode_header(state) + rest, 7) == state.spent.len(),
        header_field(encode_header(state) + rest, 8) == state.claimed.len(),
{
    lemma_auto_spec_u64_to_from_le_bytes();
    let data = encode_header(state) + rest;
    assert(data.subrange(0, 4) =~= export_magic());
    assert(data.subrange(5, 13) =~= spec_u64_to_le_bytes(state.metadata.created_at));
    assert(data.subrange(13, 21) =~= spec_u64_to_le_bytes(state.metadata.last_sync));
    assert(data.subrange(21, 29) =~= spec_u64_to_le_bytes(
        encode_utf8(state.metadata.name).len() as u64,
    ));
    assert(data.subrange(29, 37) =~= spec_u64_to_le_bytes(
        encode_utf8(state.metadata.network).len() as u64,
    ));
    assert(data.subrange(37, 45) =~= spec_u64_to_le_bytes(
        encode_utf8(state.metadata.version).len() as u64,
    ));
    assert(data.subrange(45, 53) =~= spec_u64_to_le_bytes(state.sapling.len() as u64));
    assert(data.subrange(53, 61) =~= spec_u64_to_le_bytes(state.orchard.len() as u64));
    assert(data.subrange(61, 69) =~= spec_u64_to_le_bytes(state.spent.len() as u64));
    assert(data.subrange(69, 77) =~= spec_u64_to_le_bytes(state.claimed.len() as u64));
}

/// Eight byte strings laid one after another are found again where the
/// lengths of those before them end.
proof fn lemma_eight_parts(
    h: Seq<u8>,
    a: Seq<u8>,
    b: Seq<u8>,
    c: Seq<u8>,
    d: Seq<u8>,
    e: Seq<u8>,
    f: Seq<u8>,
    g: Seq<u8>,
)
    ensures
        ({
            let data = h + a + b + c + d + e + f + g;
            let at_a = h.len() as int;
            let at_b = at_a + a.len();
            let at_c = at_b + b.len();
            let at_d = at_c + c.len();
            let at_e = at_d + d.len();
            let at_f = at_e + e.len();
            let at_g = at_f + f.len();
            let end = at_g + g.len();
            &&& data == h + (a + b + c + d + e + f + g)
            &&& data.len() == end
            &&& data.subrange(at_a, at_b) == a
            &&& data.subrange(at_b, at_c) == b
            &&& data.subrange(at_c, at_d) == c
            &&& data.subrange(at_d, at_e) == d
            &&& data.subrange(at_e, at_f) == e
            &&& data.subrange(at_f, at_g) == f
            &&& data.subrange(at_g, end) == g
        }),
{
    let data = h + a + b + c + d + e + f + g;
    let at_a = h.len() as int;
    let at_b = at_a + a.len();
    let at_c = at_b + b.len();
    let at_d = at_c + c.len();
    let at_e = at_d + d.len();
    let at_f = at_e + e.len();
    let at_g = at_f + f.len();
    let end = at_g + g.len();
    assert(data =~= h + (a + b + c + d + e + f + g));
    assert(data.subrange(at_a, at_b) =~= a);
    assert(data.subrange(at_b, at_c) =~= b);
    assert(data.subrange(at_c, at_d) =~= c);
    assert(data.subrange(at_d, at_e) =~= d);
    assert(data.subrange(at_e, at_f) =~= e);
    assert(data.subrange(at_f, at_g) =~= f);
    assert(data.subrange(at_g, end) =~= g);
}

/// An export is read back: the bytes of a state stand for that state, field
/// for field.
pub proof fn lemma_export_round_trip(state: WalletState)
    requires
        encodable(state),
    ensures
        parse_wallet(encode_wallet(state)) == Some(state),
{
    let name = encode_utf8(state.metadata.name);
    let network = encode_utf8(state.metadata.network);
    let version = encode_utf8(state.metadata.version);
    let sapling = encode_sapling_records(state.sapling);
    let orchard = encode_orchard_records(state.orchard);
    let spent = encode_nullifiers(state.spent);
    let claimed = encode_nullifiers(state.claimed);
    let header = encode_header(state);
    let rest = name + network + version + sapling + orchard + spent + claimed;
    let data = encode_wallet(state);
    lemma_eight_parts(header, name, network, version, sapling, orchard, spent, claimed);
    lemma_header_fields(state, rest);
    lemma_sapling_records_round_trip(state.sapling);
    lemma_orchard_records_round_trip(state.orchard);
    lemma_nullifiers_round_trip(state.spent);
    lemma_nullifiers_round_trip(state.claimed);
    vstd::utf8::encode_utf8_valid_utf8(state.metadata.name);
    vstd::utf8::encode_utf8_valid_utf8(state.metadata.network);
    vstd::utf8::encode_utf8_valid_utf8(state.metadata.version);
    vstd::utf8::encode_utf8_decode_utf8(state.metadata.name);
    vstd::utf8::encode_utf8_decode_utf8(state.metadata.network);
    vstd::utf8::encode_utf8_decode_utf8(state.metadata.version);
}

/// The header of what was read from `data` is the header of `data`.
proof fn lemma_header_canonical(data: Seq<u8>, state: WalletState)
    requires
        data.len() >= HEADER_LEN,
        data.subrange(0, 4) == export_magic(),
        data[4] == EXPORT_FORMAT,
        state.metadata.created_at == header_field(data, 0),
        state.metadata.last_sync == header_field(data, 1),
        encode_utf8(state.metadata.name).len() == header_field(data, 2),
        encode_utf8(state.metadata.network).len() == header_field(data, 3),
        encode_utf8(state.metadata.version).len() == header_field(data, 4),
        state.sapling.len() == header_field(data, 5),
        state.orchard.len() == header_field(data, 6),
        state.spent.len() == header_field(data, 7),
        state.claimed.len() == header_field(data, 8),
    ensures
        encode_header(state) == data.subrange(0, HEADER_LEN as int),
{
    lemma_auto_spec_u64_to_from_le_bytes();
    let f0 = data.subrange(5, 13);
    let f1 = data.subrange(13, 21);
    let f2 = data.subrange(21, 29);
    let f3 = data.subrange(29, 37);
    let f4 = data.subrange(37, 45);
    let f5 = data.subrange(45, 53);
    let f6 = data.subrange(53, 61);
    let f7 = data.subrange(61, 69);
    let f8 = data.subrange(69, 77);
    assert(spec_u64_to_le_bytes(spec_u64_from_le_bytes(f0)) == f0);
    assert(spec_u64_to_le_bytes(spec_u64_from_le_bytes(f1)) == f1);
    assert(spec_u64_to_le_bytes(spec_u64_from_le_bytes(f2)) == f2);
    assert(spec_u64_to_le_bytes(spec_u64_from_le_bytes(f3)) == f3);
    assert(spec_u64_to_le_bytes(spec_u64_from_le_bytes(f4)) == f4);
    assert(spec_u64_to_le_bytes(spec_u64_from_le_bytes(f5)) == f5);
    assert(spec_u64_to_le_bytes(spec_u64_from_le_bytes(f6)) == f6);
    assert(spec_u64_to_le_bytes(spec_u64_from_le_bytes(f7)) == f7);
    assert(spec_u64_to_le_bytes(spec_u64_from_le_bytes(f8)) == f8);
    assert(seq![EXPORT_FORMAT] =~= data.subrange(4, 5));
    assert(encode_header(state) =~= data.subrange(0, 4) + data.subrange(4, 5) + f0 + f1 + f2
        + f3 + f4 + f5 + f6 + f7 + f8);
    assert(encode_header(state) =~= data.subrange(0, HEADER_LEN as int));
}

/// Only exports are read: the bytes that stand for a state are the export
/// of that state, and no others are.
pub proof fn lemma_parse_is_canonical(data: Seq<u8>)
    requires
        parse_wallet(data) is Some,
    ensures
        encode_wallet(parse_wallet(data)->0) == data,
        encodable(parse_wallet(data)->0),
{
    let state = parse_wallet(data)->0;
    let names = HEADER_LEN as int;
    let networks = names + header_field(data, 2);
    let versions = networks + header_field(data, 3);
    let saplings = versions + header_field(data, 4);
    let orchards = saplings + header_field(data, 5) * SAPLING_RECORD_LEN;
    let spents = orchards + header_field(data, 6) * ORCHARD_RECORD_LEN;
    let claims = spents + header_field(data, 7) * NULLIFIER_LEN;
    let end = claims + header_field(data, 8) * NULLIFIER_LEN;
    let name = data.subrange(names, networks);
    let network = data.subrange(networks, versions);
    let version = data.subrange(versions, saplings);
    let sapling = data.subrange(saplings, orchards);
    let orchard = data.subrange(orchards, spents);
    let spent = data.subrange(spents, claims);
    let claimed = data.subrange(claims, end);
    vstd::utf8::decode_utf8_encode_utf8(name);
    vstd::utf8::decode_utf8_encode_utf8(network);
    vstd::utf8::decode_utf8_encode_utf8(version);
    lemma_sapling_records_canonical(sapling, header_field(data, 5) as int);
    lemma_orchard_records_canonical(orchard, header_field(data, 6) as int);
    lemma_nullifiers_canonical(spent, header_field(data, 7) as int);
    lemma_nullifiers_canonical(claimed, header_field(data, 8) as int);
    lemma_header_canonical(data, state);
    assert(data =~= data.subrange(0, HEADER_LEN as int) + name + network + version + sapling
        + orchard + spent + claimed);
}

/// What is read and what is exported are the same: `data` stands for
/// `state` exactly when it is the export of `state` and the lengths in
/// `state` fit the header.
pub proof fn lemma_read_iff_exported(data: Seq<u8>, state: WalletState)
    ensures
        parse_wallet(data) == Some(state) <==> encodable(state) && encode_wallet(state) == data,
{
    if parse_wallet(data) == Some(state) {
        lemma_parse_is_canonical(data);
    }
    if encodable(state) && encode_wallet(state) == data {
        lemma_export_round_trip(state);
    }
}

/// What an export holds, as values: the parts of a wallet state.
#[derive(Debug)]
pub struct ExportData {
    pub metadata: WalletMetadata,
    pub sapling_records: Vec<SaplingNoteRecord>,
    pub orchard_records: Vec<OrchardNoteRecord>,
    pub nullifier_set: Vec<Nullifier>,
    pub airdrop_nullifier_set: Vec<Nullifier>,
}

impl View for ExportData {
    type V = WalletState;

    open spec fn view(&self) -> WalletState {
        WalletState {
            metadata: self.metadata@,
            sapling: self.sapling_records@,
            orchard: self.orchard_records@,
            spent: self.nullifier_set@,
            claimed: self.airdrop_nullifier_set@,
        }
    }
}

/// Appends the eight bytes of `value`.
fn put_u64(out: &mut Vec<u8>, value: u64)
    ensures
        final(out)@ == old(out)@ + spec_u64_to_le_bytes(value),
{
    let bytes = u64_to_le_bytes(value);
    append_bytes(out, bytes.as_slice());
}

/// Appends the nine bytes of a time that may be missing.
fn put_time(out: &mut Vec<u8>, time: Option<u64>)
    ensures
        final(out)@ == old(out)@ + encode_time(time),
{
    match time {
        Some(at) => {
            out.push(1u8);
            put_u64(out, at);
            assert(out@ =~= old(out)@ + encode_time(time));
        },
        None => {
            out.push(0u8);
            let padding = crate::primitives::zero_bytes(8);
            append_bytes(out, padding.as_slice());
            assert(out@ =~= old(out)@ + encode_time(time));
        },
    }
}

/// Appends a first-pool record.
fn put_sapling_record(out: &mut Vec<u8>, record: &SaplingNoteRecord)
    ensures
        final(out)@ == old(out)@ + encode_sapling_record(*record),
{
    append_bytes(out, &record.note.diversifier);
    put_u64(out, record.note.value);
    append_bytes(out, &record.note.note_commitment.0);
    append_bytes(out, &record.note.nullifier_key.0);
    append_bytes(out, &record.note.randomness.0);
    put_u64(out, record.note.position);
    put_u64(out, record.created_at);
    out.push(if record.is_spent { 1u8 } else { 0u8 });
    put_time(out, record.last_used);
    assert(out@ =~= old(out)@ + encode_sapling_record(*record));
}

/// Appends a second-pool record.
fn put_orchard_record(out: &mut Vec<u8>, record: &OrchardNoteRecord)
    ensures
        final(out)@ == old(out)@ + encode_orchard_record(*record),
{
    append_bytes(out, &record.note.diversifier);
    put_u64(out, record.note.value);
    append_bytes(out, &record.note.note_commitment.0);
    append_bytes(out, &record.note.nullifier_key.0);
    append_bytes(out, &record.note.randomness.0);
    put_u64(out, record.note.position);
    append_bytes(out, &record.note.rho.0);
    append_bytes(out, &record.note.psi.0);
    put_u64(out, record.created_at);
    out.push(if record.is_spent { 1u8 } else { 0u8 });
    put_time(out, record.last_used);
    assert(out@ =~= old(out)@ + encode_orchard_record(*record));
}

/// Appends the nullifiers, one after another.
fn put_nullifiers(out: &mut Vec<u8>, nullifiers: &Vec<Nullifier>)
    ensures
        final(out)@ == old(out)@ + encode_nullifiers(nullifiers@),
{
    let ghost blocks = nullifiers@.map_values(|nullifier: Nullifier| nullifier.0@);
    let mut i: usize = 0;
    assert(concat_blocks(blocks.take(0)) =~= Seq::<u8>::empty());
    while i < nullifiers.len()
        invariant
            i <= nullifiers.len(),
            blocks == nullifiers@.map_values(|nullifier: Nullifier| nullifier.0@),
            out@ == old(out)@ + concat_blocks(blocks.take(i as int)),
        decreases nullifiers.len() - i,
    {
        append_bytes(out, &nullifiers[i].0);
        proof {
            assert(blocks.take(i as int + 1).drop_last() =~= blocks.take(i as int));
            assert(out@ =~= old(out)@ + concat_blocks(blocks.take(i as int + 1)));
        }
        i += 1;
    }
    assert(blocks.take(i as int) =~= blocks);
}

/// The state with the given parts.
pub open spec fn state_of(
    metadata: WalletMetadata,
    sapling_records: Seq<SaplingNoteRecord>,
    orchard_records: Seq<OrchardNoteRecord>,
    nullifier_set: Seq<Nullifier>,
    airdrop_nullifier_set: Seq<Nullifier>,
) -> WalletState {
    WalletState {
        metadata: metadata@,
        sapling: sapling_records,
        orchard: orchard_records,
        spent: nullifier_set,
        claimed: airdrop_nullifier_set,
    }
}

/// Lays the parts of a wallet state out as an export.
pub fn encode_parts(
    metadata: &WalletMetadata,
    sapling_records: &Vec<SaplingNoteRecord>,
    orchard_records: &Vec<OrchardNoteRecord>,
    nullifier_set: &Vec<Nullifier>,
    airdrop_nullifier_set: &Vec<Nullifier>,
) -> (data: Vec<u8>)
    ensures
        data@ == encode_wallet(
            state_of(
                *metadata,
                sapling_records@,
                orchard_records@,
                nullifier_set@,
                airdrop_nullifier_set@,
            ),
        ),
        encodable(
            state_of(
                *metadata,
                sapling_records@,
                orchard_records@,
                nullifier_set@,
                airdrop_nullifier_set@,
            ),
        ),
{
    let ghost state = state_of(
        *metadata,
        sapling_records@,
        orchard_records@,
        nullifier_set@,
        airdrop_nullifier_set@,
    );
    let name = metadata.name.as_str().as_bytes();
    let network = metadata.network.as_str().as_bytes();
    let version = metadata.version.as_str().as_bytes();
    let mut data: Vec<u8> = Vec::new();
    data.push(90u8);
    data.push(78u8);
    data.push(65u8);
    data.push(87u8);
    data.push(EXPORT_FORMAT);
    put_u64(&mut data, metadata.created_at);
    put_u64(&mut data, metadata.last_sync);
    put_u64(&mut data, name.len() as u64);
    put_u64(&mut data, network.len() as u64);
    put_u64(&mut data, version.len() as u64);
    put_u64(&mut data, sapling_records.len() as u64);
    put_u64(&mut data, orchard_records.len() as u64);
    put_u64(&mut data, nullifier_set.len() as u64);
    put_u64(&mut data, airdrop_nullifier_set.len() as u64);
    assert(data@ =~= encode_header(state));
    append_bytes(&mut data, name);
    append_bytes(&mut data, network);
    append_bytes(&mut data, version);
    let ghost texts = data@;
    let ghost sapling_blocks = sapling_records@.map_values(
        |record: SaplingNoteRecord| encode_sapling_record(record),
    );
    assert(concat_blocks(sapling_blocks.take(0)) =~= Seq::<u8>::empty());
    let mut i: usize = 0;
    while i < sapling_records.len()
        invariant
            i <= sapling_records.len(),
            sapling_blocks == sapling_records@.map_values(
                |record: SaplingNoteRecord| encode_sapling_record(record),
            ),
            data@ == texts + concat_blocks(sapling_blocks.take(i as int)),
        decreases sapling_records.len() - i,
    {
        put_sapling_record(&mut data, &sapling_records[i]);
        proof {
            assert(sapling_blocks.take(i as int + 1).drop_last() =~= sapling_blocks.take(
                i as int,
            ));
            assert(data@ =~= texts + concat_blocks(sapling_blocks.take(i as int + 1)));
        }
        i += 1;
    }
    assert(sapling_blocks.take(i as int) =~= sapling_blocks);
    let ghost saplings = data@;
    let ghost orchard_blocks = orchard_records@.map_values(
        |record: OrchardNoteRecord| encode_orchard_record(record),
    );
    assert(concat_blocks(orchard_blocks.take(0)) =~= Seq::<u8>::empty());
    let mut j: usize = 0;
    while j < orchard_records.len()
        invariant
            j <= orchard_records.len(),
            orchard_blocks == orchard_records@.map_values(
                |record: OrchardNoteRecord| encode_orchard_record(record),
            ),
            data@ == saplings + concat_blocks(orchard_blocks.take(j as int)),
        decreases orchard_records.len() - j,
    {
        put_orchard_record(&mut data, &orchard_records[j]);
        proof {
            assert(orchard_blocks.take(j as int + 1).drop_last() =~= orchard_blocks.take(
                j as int,
            ));
            assert(data@ =~= saplings + concat_blocks(orchard_blocks.take(j as int + 1)));
        }
        j += 1;
    }
    assert(orchard_blocks.take(j as int) =~= orchard_blocks);
    put_nullifiers(&mut data, nullifier_set);
    put_nullifiers(&mut data, airdrop_nullifier_set);
    data
}

impl ExportData {
    /// Lays the parts out as an export.
    pub fn encode(&self) -> (data: Vec<u8>)
        ensures
            data@ == encode_wallet(self@),
            encodable(self@),
    {
        encode_parts(
            &self.metadata,
            &self.sapling_records,
            &self.orchard_records,
            &self.nullifier_set,
            &self.airdrop_nullifier_set,
        )
    }
}

/// `String::from_utf8` of std: the text whose UTF-8 bytes are `bytes`, or
/// nothing where the bytes are not UTF-8.
#[verifier::external_body]
fn text_from_utf8(bytes: Vec<u8>) -> (text: Option<String>)
    ensures
        match text {
            Some(s) => encode_utf8(s@) == bytes@,
            None => !valid_utf8(bytes@),
        },
{
    match String::from_utf8(bytes) {
        Ok(text) => Some(text),
        Err(_) => None,
    }
}

/// Reads the integer in the eight bytes at `at`.
fn get_u64(data: &[u8], at: usize) -> (value: u64)
    requires
        at + 8 <= data@.len(),
    ensures
        value == spec_u64_from_le_bytes(data@.subrange(at as int, at + 8)),
{
    let _total = data.len();
    u64_from_le_bytes(slice_subrange(data, at, at + 8))
}

/// Reads the 32 bytes at `at`.
fn get32(data: &[u8], at: usize) -> (value: [u8; 32])
    requires
        at + 32 <= data@.len(),
    ensures
        value == array32(data@.subrange(at as int, at + 32)),
{
    let _total = data.len();
    let mut value = [0u8; 32];
    let mut i: usize = 0;
    while i < 32
        invariant
            i <= 32,
            at + 32 <= data@.len() <= usize::MAX,
            forall|k: int| 0 <= k < i ==> value@[k] == data@[at + k],
        decreases 32 - i,
    {
        value[i] = data[at + i];
        i += 1;
    }
    proof {
        assert(value@ =~= data@.subrange(at as int, at + 32));
        lemma_array32(value);
    }
    value
}

/// Reads the 11 bytes at `at`.
fn get11(data: &[u8], at: usize) -> (value: [u8; 11])
    requires
        at + 11 <= data@.len(),
    ensures
        value == array11(data@.subrange(at as int, at + 11)),
{
    let _total = data.len();
    let mut value = [0u8; 11];
    let mut i: usize = 0;
    while i < 11
        invariant
            i <= 11,
            at + 11 <= data@.len() <= usize::MAX,
            forall|k: int| 0 <= k < i ==> value@[k] == data@[at + k],
        decreases 11 - i,
    {
        value[i] = data[at + i];
        i += 1;
    }
    proof {
        assert(value@ =~= data@.subrange(at as int, at + 11));
        lemma_array11(value);
    }
    value
}

/// Reads the flag in one byte.
fn get_flag(byte: u8) -> (flag: Option<bool>)
    ensures
        flag == parse_flag(byte),
{
    if byte == 0 {
        Some(false)
    } else if byte == 1 {
        Some(true)
    } else {
        None
    }
}

/// Reads the time in the nine bytes at `at`.
fn get_time(data: &[u8], at: usize) -> (time: Option<Option<u64>>)
    requires
        at + 9 <= data@.len(),
    ensures
        time == parse_time(data@.subrange(at as int, at + 9)),
{
    let _total = data.len();
    let ghost bytes = data@.subrange(at as int, at + 9);
    assert(bytes.subrange(1, 9) =~= data@.subrange(at + 1, at + 9));
    if data[at] == 1 {
        Some(Some(get_u64(data, at + 1)))
    } else if data[at] == 0 {
        let mut i: usize = 1;
        while i < 9
            invariant
                1 <= i <= 9,
                at + 9 <= data@.len() <= usize::MAX,
                bytes == data@.subrange(at as int, at + 9),
                data@[at as int] == 0u8,
                forall|k: int| at + 1 <= k < at + i ==> data@[k] == 0u8,
            decreases 9 - i,
        {
            if data[at + i] != 0 {
                assert(bytes.subrange(1, 9)[i - 1] != zeros(8)[i - 1]);
                return None;
            }
            i += 1;
        }
        assert(bytes.subrange(1, 9) =~= zeros(8));
        Some(None)
    } else {
        None
    }
}

/// Reads the first-pool record at `at`.
fn get_sapling_record(data: &[u8], at: usize) -> (record: Option<SaplingNoteRecord>)
    requires
        at + SAPLING_RECORD_LEN <= data@.len(),
    ensures
        record == parse_sapling_record(data@.subrange(at as int, at + SAPLING_RECORD_LEN)),
{
    let _total = data.len();
    let ghost bytes = data@.subrange(at as int, at + SAPLING_RECORD_LEN);
    proof {
        assert(bytes.subrange(0, 11) =~= data@.subrange(at as int, at + 11));
        assert(bytes.subrange(11, 19) =~= data@.subrange(at + 11, at + 19));
        assert(bytes.subrange(19, 51) =~= data@.subrange(at + 19, at + 51));
        assert(bytes.subrange(51, 83) =~= data@.subrange(at + 51, at + 83));
        assert(bytes.subrange(83, 115) =~= data@.subrange(at + 83, at + 115));
        assert(bytes.subrange(115, 123) =~= data@.subrange(at + 115, at + 123));
        assert(bytes.subrange(123, 131) =~= data@.subrange(at + 123, at + 131));
        assert(bytes.subrange(132, 141) =~= data@.subrange(at + 132, at + 141));
    }
    let is_spent = match get_flag(data[at + 131]) {
        Some(flag) => flag,
        None => {
            return None;
        },
    };
    let last_used = match get_time(data, at + 132) {
        Some(time) => time,
        None => {
            return None;
        },
    };
    Some(
        SaplingNoteRecord {
            note: SaplingNote {
                diversifier: get11(data, at),
                value: get_u64(data, at + 11),
                note_commitment: NoteCommitment(get32(data, at + 19)),
                nullifier_key: Scalar(get32(data, at + 51)),
                randomness: Scalar(get32(data, at + 83)),
                position: get_u64(data, at + 115),
            },
            created_at: get_u64(data, at + 123),
            is_spent,
            last_used,
        },
    )
}

/// Reads the second-pool record at `at`.
fn get_orchard_record(data: &[u8], at: usize) -> (record: Option<OrchardNoteRecord>)
    requires
        at + ORCHARD_RECORD_LEN <= data@.len(),
    ensures
        record == parse_orchard_record(data@.subrange(at as int, at + ORCHARD_RECORD_LEN)),
{
    let _total = data.len();
    let ghost bytes = data@.subrange(at as int, at + ORCHARD_RECORD_LEN);
    proof {
        assert(bytes.subrange(0, 11) =~= data@.subrange(at as int, at + 11));
        assert(bytes.subrange(11, 19) =~= data@.subrange(at + 11, at + 19));
        assert(bytes.subrange(19, 51) =~= data@.subrange(at + 19, at + 51));
        assert(bytes.subrange(51, 83) =~= data@.subrange(at + 51, at + 83));
        assert(bytes.subrange(83, 115) =~= data@.subrange(at + 83, at + 115));
        assert(bytes.subrange(115, 123) =~= data@.subrange(at + 115, at + 123));
        assert(bytes.subrange(123, 155) =~= data@.subrange(at + 123, at + 155));
        assert(bytes.subrange(155, 187) =~= data@.subrange(at + 155, at + 187));
        assert(bytes.subrange(187, 195) =~= data@.subrange(at + 187, at + 195));
        assert(bytes.subrange(196, 205) =~= data@.subrange(at + 196, at + 205));
    }
    let is_spent = match get_flag(data[at + 195]) {
        Some(flag) => flag,
        None => {
            return None;
        },
    };
    let last_used = match get_time(data, at + 196) {
        Some(time) => time,
        None => {
            return None;
        },
    };
    Some(
        OrchardNoteRecord {
            note: OrchardNote {
                diversifier: get11(data, at),
                value: get_u64(data, at + 11),
                note_commitment: NoteCommitment(get32(data, at + 19)),
                nullifier_key: Scalar(get32(data, at + 51)),
                randomness: Scalar(get32(data, at + 83)),
                position: get_u64(data, at + 115),
                rho: FieldElement(get32(data, at + 123)),
                psi: FieldElement(get32(data, at + 155)),
            },
            created_at: get_u64(data, at + 187),
            is_spent,
            last_used,
        },
    )
}

/// Reads the text in the bytes from `from` up to `to`.
fn get_text(data: &[u8], from: usize, to: usize) -> (text: Option<String>)
    requires
        from <= to <= data@.len(),
    ensures
        match text {
            Some(s) => parse_text(data@.subrange(from as int, to as int)) == Some(s@),
            None => parse_text(data@.subrange(from as int, to as int)) is None,
        },
{
    let mut bytes: Vec<u8> = Vec::new();
    append_bytes(&mut bytes, slice_subrange(data, from, to));
    assert(bytes@ =~= data@.subrange(from as int, to as int));
    let text = text_from_utf8(bytes);
    proof {
        if text is Some {
            vstd::utf8::encode_utf8_valid_utf8(text->0@);
            vstd::utf8::encode_utf8_decode_utf8(text->0@);
        }
    }
    text
}

/// Reads `count` first-pool records from `from` on.
fn get_sapling_records(data: &[u8], from: usize, count: usize) -> (records: Option<
    Vec<SaplingNoteRecord>,
>)
    requires
        from + count * SAPLING_RECORD_LEN <= data@.len(),
    ensures
        match records {
            Some(read) => parse_sapling_records(
                data@.subrange(from as int, from + count * SAPLING_RECORD_LEN),
                count as int,
            ) == Some(read@),
            None => parse_sapling_records(
                data@.subrange(from as int, from + count * SAPLING_RECORD_LEN),
                count as int,
            ) is None,
        },
{
    let _total = data.len();
    let ghost bytes = data@.subrange(from as int, from + count * SAPLING_RECORD_LEN);
    let mut read: Vec<SaplingNoteRecord> = Vec::new();
    let mut k: usize = 0;
    while k < count
        invariant
            k <= count,
            from + count * SAPLING_RECORD_LEN <= data@.len() <= usize::MAX,
            bytes == data@.subrange(from as int, from + count * SAPLING_RECORD_LEN),
            read@.len() == k,
            forall|i: int|
                0 <= i < k ==> parse_sapling_record(
                    #[trigger] block(bytes, SAPLING_RECORD_LEN as int, i),
                ) == Some(read@[i]),
        decreases count - k,
    {
        let at = from + k * SAPLING_RECORD_LEN;
        assert(block(bytes, SAPLING_RECORD_LEN as int, k as int) =~= data@.subrange(
            at as int,
            at + SAPLING_RECORD_LEN,
        ));
        match get_sapling_record(data, at) {
            Some(record) => {
                read.push(record);
            },
            None => {
                return None;
            },
        }
        k += 1;
    }
    assert(parse_sapling_records(bytes, count as int)->0 =~= read@);
    Some(read)
}

/// Reads `count` second-pool records from `from` on.
fn get_orchard_records(data: &[u8], from: usize, count: usize) -> (records: Option<
    Vec<OrchardNoteRecord>,
>)
    requires
        from + count * ORCHARD_RECORD_LEN <= data@.len(),
    ensures
        match records {
            Some(read) => parse_orchard_records(
                data@.subrange(from as int, from + count * ORCHARD_RECORD_LEN),
                count as int,
            ) == Some(read@),
            None => parse_orchard_records(
                data@.subrange(from as int, from + count * ORCHARD_RECORD_LEN),
                count as int,
            ) is None,
        },
{
    let _total = data.len();
    let ghost bytes = data@.subrange(from as int, from + count * ORCHARD_RECORD_LEN);
    let mut read: Vec<OrchardNoteRecord> = Vec::new();
    let mut k: usize = 0;
    while k < count
        invariant
            k <= count,
            from + count * ORCHARD_RECORD_LEN <= data@.len() <= usize::MAX,
            bytes == data@.subrange(from as int, from + count * ORCHARD_RECORD_LEN),
            read@.len() == k,
            forall|i: int|
                0 <= i < k ==> parse_orchard_record(
                    #[trigger] block(bytes, ORCHARD_RECORD_LEN as int, i),
                ) == Some(read@[i]),
        decreases count - k,
    {
        let at = from + k * ORCHARD_RECORD_LEN;
        assert(block(bytes, ORCHARD_RECORD_LEN as int, k as int) =~= data@.subrange(
            at as int,
            at + ORCHARD_RECORD_LEN,
        ));
        match get_orchard_record(data, at) {
            Some(record) => {
                read.push(record);
            },
            None => {
                return None;
            },
        }
        k += 1;
    }
    assert(parse_orchard_records(bytes, count as int)->0 =~= read@);
    Some(read)
}

/// Reads `count` nullifiers from `from` on.
fn get_nullifiers(data: &[u8], from: usize, count: usize) -> (read: Vec<Nullifier>)
    requires
        from + count * NULLIFIER_LEN <= data@.len(),
    ensures
        read@ == parse_nullifiers(
            data@.subrange(from as int, from + count * NULLIFIER_LEN),
            count as int,
        ),
{
    let _total = data.len();
    let ghost bytes = data@.subrange(from as int, from + count * NULLIFIER_LEN);
    let mut read: Vec<Nullifier> = Vec::new();
    let mut k: usize = 0;
    while k < count
        invariant
            k <= count,
            from + count * NULLIFIER_LEN <= data@.len() <= usize::MAX,
            bytes == data@.subrange(from as int, from + count * NULLIFIER_LEN),
            read@.len() == k,
            forall|i: int|
                0 <= i < k ==> Nullifier(array32(block(bytes, NULLIFIER_LEN as int, i)))
                    == #[trigger] read@[i],
        decreases count - k,
    {
        let at = from + k * NULLIFIER_LEN;
        assert(block(bytes, NULLIFIER_LEN as int, k as int) =~= data@.subrange(
            at as int,
            at + NULLIFIER_LEN,
        ));
        read.push(Nullifier(get32(data, at)));
        k += 1;
    }
    assert(read@ =~= parse_nullifiers(bytes, count as int));
    read
}

impl ExportData {
    /// Reads an export back into its parts. Succeeds exactly on the bytes
    /// that `parse_wallet` reads, and gives the state that it gives.
    pub fn decode(data: &[u8]) -> (parts: Option<ExportData>)
        ensures
            match parts {
                Some(read) => parse_wallet(data@) == Some(read@),
                None => parse_wallet(data@) is None,
            },
    {
        if data.len() < HEADER_LEN {
            return None;
        }
        if data[0] != 90 || data[1] != 78 || data[2] != 65 || data[3] != 87 {
            assert(data@.subrange(0, 4)[0] == data@[0]);
            assert(data@.subrange(0, 4)[1] == data@[1]);
            assert(data@.subrange(0, 4)[2] == data@[2]);
            assert(data@.subrange(0, 4)[3] == data@[3]);
            return None;
        }
        assert(data@.subrange(0, 4) =~= export_magic());
        if data[4] != EXPORT_FORMAT {
            return None;
        }
        let created_at = get_u64(data, 5);
        let last_sync = get_u64(data, 13);
        let name_len = get_u64(data, 21);
        let network_len = get_u64(data, 29);
        let version_len = get_u64(data, 37);
        let sapling_count = get_u64(data, 45);
        let orchard_count = get_u64(data, 53);
        let spent_count = get_u64(data, 61);
        let claimed_count = get_u64(data, 69);
        let names: u128 = HEADER_LEN as u128;
        let networks: u128 = names + name_len as u128;
        let versions: u128 = networks + network_len as u128;
        let saplings: u128 = versions + version_len as u128;
        let orchards: u128 = saplings + sapling_count as u128 * SAPLING_RECORD_LEN as u128;
        let spents: u128 = orchards + orchard_count as u128 * ORCHARD_RECORD_LEN as u128;
        let claims: u128 = spents + spent_count as u128 * NULLIFIER_LEN as u128;
        let end: u128 = claims + claimed_count as u128 * NULLIFIER_LEN as u128;
        if data.len() as u128 != end {
            return None;
        }
        let names = names as usize;
        let networks = networks as usize;
        let versions = versions as usize;
        let saplings = saplings as usize;
        let orchards = orchards as usize;
        let spents = spents as usize;
        let claims = claims as usize;
        let name = match get_text(data, names, networks) {
            Some(text) => text,
            None => {
                return None;
            },
        };
        let network = match get_text(data, networks, versions) {
            Some(text) => text,
            None => {
                return None;
            },
        };
        let version = match get_text(data, versions, saplings) {
            Some(text) => text,
            None => {
                return None;
            },
        };
        let sapling_records = match get_sapling_records(data, saplings, sapling_count as usize) {
            Some(records) => records,
            None => {
                return None;
            },
        };
        let orchard_records = match get_orchard_records(data, orchards, orchard_count as usize) {
            Some(records) => records,
            None => {
                return None;
            },
        };
        let nullifier_set = get_nullifiers(data, spents, spent_count as usize);
        let airdrop_nullifier_set = get_nullifiers(data, claims, claimed_count as usize);
        Some(
            ExportData {
                metadata: WalletMetadata { name, created_at, last_sync, network, version },
                sapling_records,
                orchard_records,
                nullifier_set,
                airdrop_nullifier_set,
            },
        )
    }
}

} // verus!
