//! Fixed-size byte values of the protocol and the helpers that build and
//! compare them.

use vstd::prelude::*;
use vstd::bytes::{spec_u64_to_le_bytes, u64_to_le_bytes};
use vstd::string::StringExecFns;

verus! {

/// Depth of the note commitment tree of the first source pool.
pub const MERKLE_DEPTH_SAPLING: usize = 32;

/// Depth of the note commitment tree of the second source pool.
pub const MERKLE_DEPTH_ORCHARD: usize = 32;

/// Depth of the exclusion tree used by complement-set proofs.
pub const MERKLE_DEPTH_EXCLUSION: usize = 32;

/// Protocol-wide maximum supply, in the smallest unit.
pub const MAX_MONEY: u64 = 2_100_000_000_000_000;

/// An element of the base field, as 32 bytes.
#[derive(Debug, Clone, Copy, PartialEq, Eq, Hash)]
pub struct FieldElement(pub [u8; 32]);

/// A point of the curve, as 32 bytes.
#[derive(Debug, Clone, Copy, PartialEq, Eq, Hash)]
pub struct GroupElement(pub [u8; 32]);

/// A scalar of the curve, as 32 bytes.
#[derive(Debug, Clone, Copy, PartialEq, Eq, Hash)]
pub struct Scalar(pub [u8; 32]);

/// A commitment to the value of a note.
#[derive(Debug, Clone, Copy, PartialEq, Eq, Hash)]
pub struct ValueCommitment(pub [u8; 32]);

/// A commitment to the contents of a note.
#[derive(Debug, Clone, Copy, PartialEq, Eq, Hash)]
pub struct NoteCommitment(pub [u8; 32]);

/// The value that a spent or claimed note publishes, once.
#[derive(Debug, Clone, Copy, PartialEq, Eq, Hash)]
pub struct Nullifier(pub [u8; 32]);

/// A public key, as 32 bytes.
#[derive(Debug, Clone, Copy, PartialEq, Eq, Hash)]
pub struct PublicKey(pub [u8; 32]);

/// A signature, as 64 bytes.
#[derive(Debug, Clone, Copy)]
pub struct Signature(pub [u8; 64]);

/// The root of a commitment tree.
#[derive(Debug, Clone, Copy, PartialEq, Eq, Hash)]
pub struct MerkleRoot(pub [u8; 32]);

/// The sibling hashes from a leaf of a commitment tree up to its root.
#[derive(Debug, Clone, PartialEq, Eq, Hash)]
pub struct MerkleProof(pub Vec<[u8; 32]>);

/// The bytes of a zero-knowledge proof. The library does not look inside.
#[derive(Debug, Clone, PartialEq, Eq, Hash)]
pub struct ProofBytes(pub Vec<u8>);

/// An error of the protocol layer, carrying its message.
#[derive(Debug, Clone)]
pub struct ProtocolError(pub String);

/// Whether two 32-byte values hold the same bytes.
pub fn bytes32_eq(a: &[u8; 32], b: &[u8; 32]) -> (same: bool)
    ensures
        same == (*a == *b),
{
    let mut i: usize = 0;
    while i < 32
        invariant
            i <= 32,
            forall|k: int| 0 <= k < i ==> a[k] == b[k],
        decreases 32 - i,
    {
        if a[i] != b[i] {
            return false;
        }
        i += 1;
    }
    assert(*a =~= *b);
    true
}

/// `len` zero bytes.
pub open spec fn zeros(len: nat) -> Seq<u8> {
    Seq::new(len, |i: int| 0u8)
}

/// A byte vector of `len` zero bytes.
pub fn zero_bytes(len: usize) -> (out: Vec<u8>)
    ensures
        out@ == zeros(len as nat),
{
    let mut out: Vec<u8> = Vec::new();
    let mut i: usize = 0;
    while i < len
        invariant
            i <= len,
            out@ == zeros(i as nat),
        decreases len - i,
    {
        out.push(0u8);
        assert(out@ =~= zeros((i + 1) as nat));
        i += 1;
    }
    out
}

/// The 32-byte value that is zero throughout.
pub fn zero32() -> (out: [u8; 32])
    ensures
        out@ == zeros(32),
{
    let out = [0u8; 32];
    assert(out@ =~= zeros(32));
    out
}

/// The eight little-endian bytes of `value`, followed by 24 zero bytes.
pub open spec fn le_padded32(value: u64) -> Seq<u8> {
    spec_u64_to_le_bytes(value) + zeros(24)
}

/// A 32-byte value that starts with `value` in little-endian order and is
/// zero after it.
pub fn le_padded32_bytes(value: u64) -> (out: [u8; 32])
    ensures
        out@ == le_padded32(value),
{
    let le = u64_to_le_bytes(value);
    let mut out = [0u8; 32];
    let mut i: usize = 0;
    while i < 8
        invariant
            i <= 8,
            le@.len() == 8,
            forall|k: int| 0 <= k < i ==> out@[k] == le@[k],
            forall|k: int| i <= k < 32 ==> out@[k] == 0u8,
        decreases 8 - i,
    {
        out[i] = le[i];
        i += 1;
    }
    assert(out@ =~= le_padded32(value));
    out
}

/// Appends the bytes of `src` to `out`.
pub fn append_bytes(out: &mut Vec<u8>, src: &[u8])
    ensures
        final(out)@ == old(out)@ + src@,
{
    let mut i: usize = 0;
    while i < src.len()
        invariant
            i <= src.len(),
            out@ == old(out)@ + src@.take(i as int),
        decreases src.len() - i,
    {
        out.push(src[i]);
        assert(src@.take(i as int).push(src@[i as int]) =~= src@.take(i as int + 1));
        assert(out@ =~= old(out)@ + src@.take(i as int + 1));
        i += 1;
    }
    assert(src@.take(i as int) =~= src@);
}

/// The lowercase hexadecimal digit of a value below 16.
pub open spec fn hex_digit(nibble: u8) -> char {
    if nibble == 0 {
        '0'
    } else if nibble == 1 {
        '1'
    } else if nibble == 2 {
        '2'
    } else if nibble == 3 {
        '3'
    } else if nibble == 4 {
        '4'
    } else if nibble == 5 {
        '5'
    } else if nibble == 6 {
        '6'
    } else if nibble == 7 {
        '7'
    } else if nibble == 8 {
        '8'
    } else if nibble == 9 {
        '9'
    } else if nibble == 10 {
        'a'
    } else if nibble == 11 {
        'b'
    } else if nibble == 12 {
        'c'
    } else if nibble == 13 {
        'd'
    } else if nibble == 14 {
        'e'
    } else {
        'f'
    }
}

/// The bytes as text: two lowercase hexadecimal digits for each byte, the
/// high half of the byte first.
pub open spec fn hex_text(bytes: Seq<u8>) -> Seq<char> {
    Seq::new(
        2 * bytes.len(),
        |i: int|
            if i % 2 == 0 {
                hex_digit(bytes[i / 2] / 16)
            } else {
                hex_digit(bytes[i / 2] % 16)
            },
    )
}

/// The text of one hexadecimal digit.
fn hex_digit_text(nibble: u8) -> (digit: &'static str)
    requires
        nibble < 16,
    ensures
        digit@ == seq![hex_digit(nibble)],
{
    proof {
        reveal_strlit("0");
        reveal_strlit("1");
        reveal_strlit("2");
        reveal_strlit("3");
        reveal_strlit("4");
        reveal_strlit("5");
        reveal_strlit("6");
        reveal_strlit("7");
        reveal_strlit("8");
        reveal_strlit("9");
        reveal_strlit("a");
        reveal_strlit("b");
        reveal_strlit("c");
        reveal_strlit("d");
        reveal_strlit("e");
        reveal_strlit("f");
    }
    let digit = match nibble {
        0 => "0",
        1 => "1",
        2 => "2",
        3 => "3",
        4 => "4",
        5 => "5",
        6 => "6",
        7 => "7",
        8 => "8",
        9 => "9",
        10 => "a",
        11 => "b",
        12 => "c",
        13 => "d",
        14 => "e",
        _ => "f",
    };
    assert(digit@ =~= seq![hex_digit(nibble)]);
    digit
}

/// Writes the bytes as text, two lowercase hexadecimal digits for each.
pub fn hex_string(bytes: &[u8]) -> (text: String)
    ensures
        text@ == hex_text(bytes@),
{
    let mut text = String::new();
    let mut i: usize = 0;
    assert(text@ =~= hex_text(bytes@.take(0)));
    while i < bytes.len()
        invariant
            i <= bytes.len(),
            text@ == hex_text(bytes@.take(i as int)),
        decreases bytes.len() - i,
    {
        let byte = bytes[i];
        let ghost before = text@;
        text.append(hex_digit_text(byte / 16));
        text.append(hex_digit_text(byte % 16));
        assert(text@ =~= hex_text(bytes@.take(i as int + 1))) by {
            let next = hex_text(bytes@.take(i as int + 1));
            assert(text@ == before + seq![hex_digit(byte / 16)] + seq![hex_digit(byte % 16)]);
            assert(text@.len() == next.len());
            assert forall|k: int| 0 <= k < next.len() implies text@[k] == next[k] by {
                if k < 2 * i {
                    assert(bytes@.take(i as int + 1)[k / 2] == bytes@.take(i as int)[k / 2]);
                    assert(text@[k] == before[k]);
                } else {
                    assert(k / 2 == i);
                    assert(bytes@.take(i as int + 1)[k / 2] == byte);
                }
            }
        }
        i += 1;
    }
    assert(bytes@.take(i as int) =~= bytes@);
    text
}

impl ProtocolError {
    /// The error as a line of text: `Protocol Error: ` and the message.
    pub fn to_string(&self) -> (text: String)
        ensures
            text@ == "Protocol Error: "@ + self.0@,
    {
        let mut text = "Protocol Error: ".to_owned();
        text.append(self.0.as_str());
        text
    }
}

impl Nullifier {
    /// Whether `self` and `other` are the same nullifier.
    pub fn same_as(&self, other: &Nullifier) -> (same: bool)
        ensures
            same == (*self == *other),
    {
        bytes32_eq(&self.0, &other.0)
    }
}

impl ValueCommitment {
    /// Whether the two commitments agree bit for bit.
    pub fn same_as(&self, other: &ValueCommitment) -> (same: bool)
        ensures
            same == (*self == *other),
    {
        bytes32_eq(&self.0, &other.0)
    }
}

} // verus!
