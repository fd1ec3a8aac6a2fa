//! The menu's option list: an ordered sequence of labeled, caller-owned
//! values.

use vstd::prelude::*;

verus! {

/// One selectable entry: a display label paired with an opaque caller value.
/// The highlight matches options by label, so callers keep labels unique
/// within one list; with duplicates, every option carrying the selected
/// label is emphasized.
#[derive(Debug)]
pub struct OptionItem<T> {
    pub name: String,
    pub value: T,
}

/// The labels of an option list, in display order.
pub open spec fn labels_of<T>(opts: Seq<OptionItem<T>>) -> Seq<Seq<char>> {
    opts.map_values(|o: OptionItem<T>| o.name@)
}

} // verus!
