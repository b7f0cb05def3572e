//! The least number with a property.

use vstd::prelude::*;

verus! {

/// The least number from `low` up to `high`, that excluded, with the property `test`.
pub open spec fn first_such(test: spec_fn(int) -> bool, low: int, high: int) -> Option<int>
    decreases high - low,
{
    if low >= high {
        None
    } else if test(low) {
        Some(low)
    } else {
        first_such(test, low + 1, high)
    }
}

/// A number with the property, and none below it with the property, is the least such number.
pub proof fn lemma_first_such(test: spec_fn(int) -> bool, low: int, high: int, least: int)
    requires
        low <= least <= high,
        forall|k: int| low <= k < least ==> !(#[trigger] test(k)),
    ensures
        first_such(test, low, high) == if least < high && test(least) {
            Some(least)
        } else {
            first_such(test, least, high)
        },
    decreases least - low,
{
    if low < least {
        lemma_first_such(test, low + 1, high, least);
    }
}

/// The least number with a property has the property, and none below it has.
pub proof fn lemma_first_such_holds(test: spec_fn(int) -> bool, low: int, high: int)
    ensures
        match first_such(test, low, high) {
            Some(found) => {
                &&& low <= found < high
                &&& test(found)
                &&& forall|k: int| low <= k < found ==> !(#[trigger] test(k))
            },
            None => forall|k: int| low <= k < high ==> !(#[trigger] test(k)),
        },
    decreases high - low,
{
    if low < high && !test(low) {
        lemma_first_such_holds(test, low + 1, high);
    }
}

} // verus!
