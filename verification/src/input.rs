//! Commands that act on the window rather than on the document.
use vstd::prelude::*;

verus! {

/// A command handled by the window loop.
#[derive(Debug, Clone, Copy, PartialEq, Eq, Structural)]
pub enum RuntimeCommand {
    ToggleFullscreen,
    ToggleUiWindows,
}

} // verus!
