//! A spread: the pages shown side by side.
use vstd::prelude::*;

verus! {

/// The page shown in the left slot and the page shown in the right slot, if any.
#[derive(Debug, Clone, Copy, PartialEq, Eq)]
pub struct LogicalSpread {
    pub left: Option<usize>,
    pub right: Option<usize>,
}

} // verus!
