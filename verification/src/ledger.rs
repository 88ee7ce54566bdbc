//! What the accounting of a wallet reads of a note: its value, whether it is
//! spent, and the nullifier that a claim of it publishes.

use vstd::prelude::*;
use crate::primitives::Nullifier;

verus! {

/// One note as the accounting sees it.
pub struct LedgerLine {
    pub value: u64,
    pub is_spent: bool,
    pub nullifier: Nullifier,
}

/// The sum of the values of all notes, spent or not.
pub open spec fn total_value(lines: Seq<LedgerLine>) -> nat
    decreases lines.len(),
{
    if lines.len() == 0 {
        0
    } else {
        total_value(lines.drop_last()) + lines.last().value as nat
    }
}

/// The sum of the values of the notes that are not spent.
pub open spec fn unspent_value(lines: Seq<LedgerLine>) -> nat
    decreases lines.len(),
{
    if lines.len() == 0 {
        0
    } else if lines.last().is_spent {
        unspent_value(lines.drop_last())
    } else {
        unspent_value(lines.drop_last()) + lines.last().value as nat
    }
}

/// A note is spent exactly when its claim nullifier is recorded.
pub open spec fn lines_consistent(lines: Seq<LedgerLine>, claimed: Set<Nullifier>) -> bool {
    forall|i: int|
        0 <= i < lines.len() ==> ((#[trigger] lines[i]).is_spent <==> claimed.contains(
            lines[i].nullifier,
        ))
}

/// The lines after the claim of `nullifier`: every note with that nullifier
/// is spent, the others are as before.
pub open spec fn mark_lines(lines: Seq<LedgerLine>, nullifier: Nullifier) -> Seq<LedgerLine> {
    lines.map_values(
        |line: LedgerLine|
            if line.nullifier == nullifier {
                LedgerLine { is_spent: true, ..line }
            } else {
                line
            },
    )
}

/// The sum of the values of the unspent notes with the claim nullifier
/// `nullifier`.
pub open spec fn unspent_value_of(lines: Seq<LedgerLine>, nullifier: Nullifier) -> nat
    decreases lines.len(),
{
    if lines.len() == 0 {
        0
    } else if !lines.last().is_spent && lines.last().nullifier == nullifier {
        unspent_value_of(lines.drop_last(), nullifier) + lines.last().value as nat
    } else {
        unspent_value_of(lines.drop_last(), nullifier)
    }
}

/// The sums over a prefix are at most the sums over the whole, and the
/// unspent value is at most the total value.
pub proof fn lemma_prefix_sums(lines: Seq<LedgerLine>, n: int)
    requires
        0 <= n <= lines.len(),
    ensures
        total_value(lines.take(n)) <= total_value(lines),
        unspent_value(lines.take(n)) <= total_value(lines.take(n)),
    decreases lines.len(),
{
    if lines.len() == 0 {
        assert(lines.take(n) =~= lines);
    } else if n == lines.len() {
        assert(lines.take(n) =~= lines);
        lemma_prefix_sums(lines.drop_last(), n - 1);
        assert(lines.drop_last().take(n - 1) =~= lines.drop_last());
    } else {
        lemma_prefix_sums(lines.drop_last(), n);
        assert(lines.drop_last().take(n) =~= lines.take(n));
    }
}

/// Adding a note adds its value to the total, and to the unspent value
/// where the note is not spent.
pub proof fn lemma_push_sums(lines: Seq<LedgerLine>, line: LedgerLine)
    ensures
        total_value(lines.push(line)) == total_value(lines) + line.value,
        unspent_value(lines.push(line)) == unspent_value(lines) + if line.is_spent {
            0nat
        } else {
            line.value as nat
        },
{
    assert(lines.push(line).drop_last() =~= lines);
}

/// A claim changes no value: the total stays, and the unspent value falls
/// by the value of the unspent notes that the claim spends.
pub proof fn lemma_mark_sums(lines: Seq<LedgerLine>, nullifier: Nullifier)
    ensures
        total_value(mark_lines(lines, nullifier)) == total_value(lines),
        unspent_value(mark_lines(lines, nullifier)) + unspent_value_of(lines, nullifier)
            == unspent_value(lines),
    decreases lines.len(),
{
    if lines.len() > 0 {
        lemma_mark_sums(lines.drop_last(), nullifier);
        assert(mark_lines(lines, nullifier).drop_last() =~= mark_lines(
            lines.drop_last(),
            nullifier,
        ));
    }
}

/// A claim keeps the accounting consistent with the registry that records
/// its nullifier.
pub proof fn lemma_mark_consistent(
    lines: Seq<LedgerLine>,
    claimed: Set<Nullifier>,
    nullifier: Nullifier,
)
    requires
        lines_consistent(lines, claimed),
    ensures
        lines_consistent(mark_lines(lines, nullifier), claimed.insert(nullifier)),
{
    let marked = mark_lines(lines, nullifier);
    assert forall|i: int| 0 <= i < marked.len() implies ((#[trigger] marked[i]).is_spent
        <==> claimed.insert(nullifier).contains(marked[i].nullifier)) by {
        assert(lines[i].is_spent <==> claimed.contains(lines[i].nullifier));
    }
}

} // verus!
