//! The update log of a document: an append-only list of CRDT updates keyed
//! by a gap-free clock, with the document row caching the merged state
//! vector. The store and load transactions run outside; these are the rules
//! they follow and what is computed from the rows.

use vstd::prelude::*;
use crate::crdt::merge_clocks;

verus! {

/// The store rule of the update log: the next row's clock is one past the
/// largest clock so far (`-1` when the log is empty). `None` when that
/// would not fit the column.
pub open spec fn spec_next_clock(current: i64) -> Option<i64> {
    if current < i64::MAX {
        Some((current + 1) as i64)
    } else {
        None
    }
}

/// The clock of the row that the store transaction appends, from the
/// `COALESCE(MAX(clock), -1)` it read in the same transaction.
pub fn next_clock(current: i64) -> (r: Option<i64>)
    ensures
        r == spec_next_clock(current),
{
    if current < i64::MAX {
        Some(current + 1)
    } else {
        None
    }
}

/// What a client is missing from the update log `updates` (ordered by
/// clock): nothing when the log is empty, else `merged_diff`, the diff of the
/// merged log against the client's state vector, as yrs computed it (`None`
/// where a row or the state vector did not decode).
pub fn compute_diff(updates: &Vec<Vec<u8>>, merged_diff: Option<Vec<u8>>) -> (r: Option<Vec<u8>>)
    ensures
        updates@.len() == 0 ==> r is Some && r->Some_0@.len() == 0,
        updates@.len() > 0 ==> r == merged_diff,
{
    if updates.len() == 0 {
        Some(Vec::new())
    } else {
        merged_diff
    }
}

/// The state vector that an update log accounts for: the state vectors of
/// its rows (`rows[i]` is that of the row with clock `i`), merged in log
/// order.
pub open spec fn log_clocks(rows: Seq<Map<u64, u32>>) -> Map<u64, u32>
    decreases rows.len(),
{
    if rows.len() == 0 {
        Map::empty()
    } else {
        merge_clocks(log_clocks(rows.drop_last()), rows.last())
    }
}

/// Storing an update keeps the syncer's state vector equal to the one its
/// update log accounts for. If the state vector equals that of the log
/// before, then after the pending state vector of an update with state
/// vector `update` (the update's merged with the syncer's) is committed, it
/// equals that of the log with the update's row appended.
pub proof fn law_store_keeps_state_vector(clocks: Map<u64, u32>, rows: Seq<Map<u64, u32>>, update: Map<u64, u32>)
    requires
        clocks == log_clocks(rows),
    ensures
        merge_clocks(clocks, merge_clocks(update, clocks)) == log_clocks(rows.push(update)),
{
    assert(rows.push(update).drop_last() =~= rows);
    assert(merge_clocks(clocks, merge_clocks(update, clocks)) =~= merge_clocks(clocks, update));
}

/// The syncer's state vector after the updates are stored one after the
/// other, each through a pending state vector (the update's merged with the
/// syncer's) that is then committed.
pub open spec fn after_stores(clocks: Map<u64, u32>, updates: Seq<Map<u64, u32>>) -> Map<u64, u32>
    decreases updates.len(),
{
    if updates.len() == 0 {
        clocks
    } else {
        let before = after_stores(clocks, updates.drop_last());
        merge_clocks(before, merge_clocks(updates.last(), before))
    }
}

/// A syncer whose state vector is that of its update log keeps it so over
/// any run of committed stores: after storing updates with state vectors
/// `updates`, its state vector is that of the log with their rows appended.
pub proof fn law_state_vector_follows_log(clocks: Map<u64, u32>, rows: Seq<Map<u64, u32>>, updates: Seq<Map<u64, u32>>)
    requires
        clocks == log_clocks(rows),
    ensures
        after_stores(clocks, updates) == log_clocks(rows + updates),
    decreases updates.len(),
{
    if updates.len() > 0 {
        let rest = updates.drop_last();
        law_state_vector_follows_log(clocks, rows, rest);
        law_store_keeps_state_vector(after_stores(clocks, rest), rows + rest, updates.last());
        assert((rows + rest).push(updates.last()) =~= rows + updates);
    }
}

/// The largest clock of a log, `-1` when it is empty.
pub open spec fn max_clock(clocks: Seq<i64>) -> i64
    decreases clocks.len(),
{
    if clocks.len() == 0 {
        -1i64
    } else if clocks.last() > max_clock(clocks.drop_last()) {
        clocks.last()
    } else {
        max_clock(clocks.drop_last())
    }
}

/// The clocks of a log, in insertion order, are 0, 1, 2, ...
pub open spec fn gap_free(clocks: Seq<i64>) -> bool {
    forall|i: int| 0 <= i < clocks.len() ==> clocks[i] == i
}

proof fn lemma_max_clock_gap_free(clocks: Seq<i64>)
    requires
        gap_free(clocks),
        clocks.len() <= i64::MAX,
    ensures
        max_clock(clocks) == clocks.len() - 1,
    decreases clocks.len(),
{
    if clocks.len() > 0 {
        lemma_max_clock_gap_free(clocks.drop_last());
    }
}

/// The store rule keeps the update log gap-free: on a log whose clocks are
/// 0 .. n-1 the next row gets clock n, so the clocks stay 0 .. n.
pub proof fn law_clocks_stay_gap_free(clocks: Seq<i64>)
    requires
        gap_free(clocks),
        clocks.len() < i64::MAX,
    ensures
        spec_next_clock(max_clock(clocks)) == Some(clocks.len() as i64),
        gap_free(clocks.push(clocks.len() as i64)),
{
    lemma_max_clock_gap_free(clocks);
}

} // verus!
