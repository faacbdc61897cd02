//! Vectors that own trait objects.
//!
//! Where a boxed trait object is handed to a function that names its type,
//! it counts as converted and nothing is known of it afterwards. The two
//! functions here take the item as a value of any type, and first, so that
//! what is stored is the item that was given.

use vstd::prelude::*;

verus! {

/// Appends `item` to `items`.
pub(crate) fn push_last<T>(item: T, items: &mut Vec<T>)
    ensures
        final(items)@.len() == old(items)@.len() + 1,
        final(items)@.drop_last() == old(items)@,
        final(items)@.last() == item,
{
    items.push(item);
    assert(items@.drop_last() =~= old(items)@);
}

/// Puts `item` in place of what stands at `at`.
pub(crate) fn put_at<T>(item: T, items: &mut Vec<T>, at: usize)
    requires
        at < old(items)@.len(),
    ensures
        final(items)@.len() == old(items)@.len(),
        final(items)@[at as int] == item,
        forall|i: int|
            0 <= i < old(items)@.len() && i != at ==> #[trigger] final(items)@[i] == old(items)@[i],
{
    items.set(at, item);
}

} // verus!
