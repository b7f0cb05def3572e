//! Rows put in order by a number, without changing the order of rows that have the same one.

use vstd::prelude::*;

verus! {

/// A row put among rows in ascending order of their rank, behind those that rank the same.
pub open spec fn placed<T>(sorted: Seq<T>, row: T, rank: spec_fn(T) -> int) -> Seq<T>
    decreases sorted.len(),
{
    if sorted.len() == 0 || rank(sorted.last()) <= rank(row) {
        sorted.push(row)
    } else {
        placed(sorted.drop_last(), row, rank).push(sorted.last())
    }
}

/// Rows in ascending order of their rank.
pub open spec fn ranked<T>(rows: Seq<T>, rank: spec_fn(T) -> int) -> Seq<T>
    decreases rows.len(),
{
    if rows.len() == 0 {
        rows
    } else {
        placed(ranked(rows.drop_last(), rank), rows.last(), rank)
    }
}

/// A row is placed before the rows that rank higher and behind one that does not.
pub proof fn lemma_placed<T>(sorted: Seq<T>, row: T, rank: spec_fn(T) -> int, place: int)
    requires
        0 <= place <= sorted.len(),
        place > 0 ==> rank(sorted[place - 1]) <= rank(row),
        forall|i: int| place <= i < sorted.len() ==> rank(#[trigger] sorted[i]) > rank(row),
    ensures
        placed(sorted, row, rank) == sorted.insert(place, row),
    decreases sorted.len(),
{
    if place == sorted.len() {
        assert(sorted.insert(place, row) =~= sorted.push(row));
    } else {
        assert(rank(sorted.last()) > rank(row));
        lemma_placed(sorted.drop_last(), row, rank, place);
        assert(sorted.insert(place, row) =~= sorted.drop_last().insert(place, row).push(
            sorted.last(),
        ));
    }
}

/// Placing a row keeps the order and the rows.
proof fn lemma_placed_ranked<T>(sorted: Seq<T>, row: T, rank: spec_fn(T) -> int)
    requires
        forall|i: int, j: int|
            0 <= i <= j < sorted.len() ==> rank(#[trigger] sorted[i]) <= rank(#[trigger] sorted[j]),
    ensures
        placed(sorted, row, rank).len() == sorted.len() + 1,
        placed(sorted, row, rank).to_multiset() == sorted.to_multiset().insert(row),
        forall|i: int, j: int|
            0 <= i <= j < placed(sorted, row, rank).len() ==> rank(
                #[trigger] placed(sorted, row, rank)[i],
            ) <= rank(#[trigger] placed(sorted, row, rank)[j]),
        forall|i: int|
            0 <= i < placed(sorted, row, rank).len() ==> (#[trigger] placed(sorted, row, rank)[i])
                == row || exists|k: int|
                0 <= k < sorted.len() && #[trigger] sorted[k] == placed(sorted, row, rank)[i],
    decreases sorted.len(),
{
    broadcast use vstd::seq_lib::group_to_multiset_ensures;

    let after = placed(sorted, row, rank);
    if sorted.len() == 0 || rank(sorted.last()) <= rank(row) {
        assert(after == sorted.push(row));
        assert forall|i: int| 0 <= i < after.len() implies (#[trigger] after[i]) == row || exists|
            k: int,
        |
            0 <= k < sorted.len() && #[trigger] sorted[k] == after[i] by {
            if i < sorted.len() {
                assert(sorted[i] == after[i]);
            }
        }
    } else {
        let rest = sorted.drop_last();
        lemma_placed_ranked(rest, row, rank);
        let low = placed(rest, row, rank);
        assert(after == low.push(sorted.last()));
        assert(sorted =~= rest.push(sorted.last()));
        assert(sorted.to_multiset() == rest.to_multiset().insert(sorted.last()));
        assert(after.to_multiset() =~= sorted.to_multiset().insert(row));
        assert forall|i: int| 0 <= i < after.len() implies (#[trigger] after[i]) == row || exists|
            k: int,
        |
            0 <= k < sorted.len() && #[trigger] sorted[k] == after[i] by {
            if i < low.len() {
                assert(after[i] == low[i]);
                if low[i] != row {
                    let k = choose|k: int| 0 <= k < rest.len() && #[trigger] rest[k] == low[i];
                    assert(sorted[k] == after[i]);
                }
            } else {
                assert(sorted[sorted.len() - 1] == after[i]);
            }
        }
        assert forall|i: int, j: int| 0 <= i <= j < after.len() implies rank(#[trigger] after[i])
            <= rank(#[trigger] after[j]) by {
            if j < low.len() {
                assert(after[i] == low[i] && after[j] == low[j]);
            } else if i < low.len() {
                assert(after[i] == low[i]);
                if low[i] != row {
                    let k = choose|k: int| 0 <= k < rest.len() && #[trigger] rest[k] == low[i];
                    assert(rank(sorted[k]) <= rank(sorted[sorted.len() - 1]));
                }
            }
        }
    }
}

/// Ranked rows are the same rows, in ascending order of their rank.
pub proof fn lemma_ranked<T>(rows: Seq<T>, rank: spec_fn(T) -> int)
    ensures
        ranked(rows, rank).len() == rows.len(),
        ranked(rows, rank).to_multiset() == rows.to_multiset(),
        forall|i: int, j: int|
            0 <= i <= j < rows.len() ==> rank(#[trigger] ranked(rows, rank)[i]) <= rank(
                #[trigger] ranked(rows, rank)[j],
            ),
    decreases rows.len(),
{
    broadcast use vstd::seq_lib::group_to_multiset_ensures;

    if rows.len() > 0 {
        let rest = rows.drop_last();
        lemma_ranked(rest, rank);
        lemma_placed_ranked(ranked(rest, rank), rows.last(), rank);
        assert(rows =~= rest.push(rows.last()));
        assert(rows.to_multiset() == rest.to_multiset().insert(rows.last()));
    }
}

} // verus!
