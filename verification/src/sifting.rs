//! Rows taken out of a list one by one.

use vstd::prelude::*;

verus! {

/// Looking at one more row keeps it or leaves it out.
pub proof fn lemma_filter_step<T>(rows: Seq<T>, keep: spec_fn(T) -> bool, seen: int)
    requires
        0 <= seen < rows.len(),
    ensures
        rows.take(seen + 1).filter(keep) == if keep(rows[seen]) {
            rows.take(seen).filter(keep).push(rows[seen])
        } else {
            rows.take(seen).filter(keep)
        },
{
    reveal(Seq::filter);
    assert(rows.take(seen + 1).drop_last() =~= rows.take(seen));
}

/// Whether `current` is what is left of `rows` once the first `seen` of them have been looked at and
/// those not to be kept taken out; the next one to look at is at `place`.
pub open spec fn sifted<T>(
    rows: Seq<T>,
    keep: spec_fn(T) -> bool,
    seen: int,
    current: Seq<T>,
    place: int,
) -> bool {
    &&& 0 <= seen <= rows.len()
    &&& place == rows.take(seen).filter(keep).len()
    &&& current == rows.take(seen).filter(keep) + rows.skip(seen)
}

/// Nothing has been looked at.
pub proof fn lemma_sift_start<T>(rows: Seq<T>, keep: spec_fn(T) -> bool)
    ensures
        sifted(rows, keep, 0, rows, 0),
        rows.take(0).filter(keep) == Seq::<T>::empty(),
{
    reveal(Seq::filter);
    assert(rows.take(0) =~= Seq::empty());
    assert(rows =~= rows.take(0).filter(keep) + rows.skip(0));
}

/// One more row is kept or taken out.
pub proof fn lemma_sift_step<T>(
    rows: Seq<T>,
    keep: spec_fn(T) -> bool,
    seen: int,
    current: Seq<T>,
    place: int,
)
    requires
        sifted(rows, keep, seen, current, place),
        place < current.len(),
    ensures
        seen < rows.len(),
        current[place] == rows[seen],
        keep(rows[seen]) ==> sifted(rows, keep, seen + 1, current, place + 1),
        !keep(rows[seen]) ==> sifted(rows, keep, seen + 1, current.remove(place), place),
{
    lemma_filter_step(rows, keep, seen);
    let kept = rows.take(seen + 1).filter(keep);
    if keep(rows[seen]) {
        assert(current =~= kept + rows.skip(seen + 1));
    } else {
        assert(current.remove(place) =~= kept + rows.skip(seen + 1));
    }
}

/// Everything has been looked at.
pub proof fn lemma_sift_end<T>(
    rows: Seq<T>,
    keep: spec_fn(T) -> bool,
    seen: int,
    current: Seq<T>,
    place: int,
)
    requires
        sifted(rows, keep, seen, current, place),
        place >= current.len(),
    ensures
        seen == rows.len(),
        current == rows.filter(keep),
{
    assert(rows.take(seen) =~= rows);
    assert(current =~= rows.filter(keep));
}

} // verus!
