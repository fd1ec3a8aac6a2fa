//! Key events recognized by the menu, and the saturating cursor transition
//! they trigger.

use vstd::prelude::*;

verus! {

/// One key event, as the menu interprets it. The down-arrow and lowercase
/// `j` both become `Down`; the up-arrow and lowercase `k` both become `Up`;
/// Enter confirms; `q` cancels; every other key is `Other` and leaves the
/// cursor where it is.
#[derive(Clone, Copy, PartialEq, Eq, Structural, Debug)]
pub enum Key {
    Down,
    Up,
    Confirm,
    Cancel,
    Other,
}

/// A key that ends the interaction loop.
pub open spec fn key_exits(k: Key) -> bool {
    k is Confirm || k is Cancel
}

/// The cursor index after one key, over a list of `len` options: `Down`
/// saturates at `len - 1`, `Up` saturates at `0`, everything else is a no-op.
pub open spec fn next_index(i: int, len: int, k: Key) -> int {
    match k {
        Key::Down => if i < len - 1 { i + 1 } else { i },
        Key::Up => if i > 0 { i - 1 } else { i },
        _ => i,
    }
}

/// Executable counterpart of [`key_exits`].
pub fn is_exit_key(k: Key) -> (r: bool)
    ensures
        r == key_exits(k),
{
    match k {
        Key::Confirm => true,
        Key::Cancel => true,
        _ => false,
    }
}

/// Executable counterpart of [`next_index`].
pub fn step_index(i: usize, len: usize, k: Key) -> (r: usize)
    requires
        0 < len,
        i < len,
    ensures
        r == next_index(i as int, len as int, k),
        r < len,
{
    match k {
        Key::Down => if i < len - 1 { i + 1 } else { i },
        Key::Up => if i > 0 { i - 1 } else { i },
        _ => i,
    }
}

} // verus!
