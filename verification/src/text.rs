//! Lists of strings, as mathematical values.

use vstd::prelude::*;

verus! {

/// The texts of a list of strings, in the list's order.
pub open spec fn texts_of(items: Seq<String>) -> Seq<Seq<char>> {
    items.map_values(|item: String| item@)
}

} // verus!
