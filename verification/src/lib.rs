//! An interactive single-select terminal menu: a keyboard-driven cursor over
//! an ordered list of labeled options, repainted in raw terminal mode, plus
//! the small pure helpers of the workspace scaffolding tool built around it.

use vstd::prelude::*;

pub mod keys;
pub mod menu;
pub mod options;
pub mod render;
pub mod term;
pub mod workspace;

verus! {

} // verus!
