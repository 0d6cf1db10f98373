//! Branch comparison in the form that `slice::sort_by` takes.
use std::cmp::Ordering;
use vstd::prelude::*;
use crate::branches::{branch_key, branch_sort_key, Branch};
use crate::sorting::{key_order, key_order_of};
use crate::text::text_views;

verus! {

/// The `Ordering` that a three-way comparison result stands for.
pub open spec fn ordering_of(c: int) -> Ordering {
    if c < 0 {
        Ordering::Less
    } else if c == 0 {
        Ordering::Equal
    } else {
        Ordering::Greater
    }
}

/// Compares two branches in listing order (see
/// [`crate::branches::order_branches`]): default branches first, by their
/// position in `defaults`, then the most recently committed, ties by
/// lowercased name.
pub fn branch_order(a: &Branch, b: &Branch, defaults: &Vec<String>) -> (res: Ordering)
    ensures
        res == ordering_of(
            key_order(
                branch_key(a@, text_views(defaults@)),
                branch_key(b@, text_views(defaults@)),
            ),
        ),
{
    let ka = branch_sort_key(a, defaults);
    let kb = branch_sort_key(b, defaults);
    let c = key_order_of(&ka, &kb);
    if c < 0 {
        Ordering::Less
    } else if c == 0 {
        Ordering::Equal
    } else {
        Ordering::Greater
    }
}

} // verus!
