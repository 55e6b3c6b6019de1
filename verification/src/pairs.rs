//! Items taken two at a time.

use vstd::prelude::*;

verus! {

/// Groups `items` in pairs with the `tuples` adaptor of itertools: each
/// pair holds two neighbours in their order, no item is in two pairs, and
/// an item that is left over at the end is dropped.
#[verifier::external_body]
pub(crate) fn pair_up<T>(items: Vec<T>) -> (pairs: Vec<(T, T)>)
    ensures
        pairs@.len() == items@.len() / 2,
        forall|j: int|
            0 <= j < pairs@.len() ==> #[trigger] pairs@[j] == (items@[2 * j], items@[2 * j + 1]),
{
    itertools::Itertools::tuples(items.into_iter()).collect()
}

} // verus!
