//! What the debug overlay shares with the rest of the program.

use vstd::prelude::*;

verus! {

/// An event that the overlay posts to the program's event loop.
#[derive(Clone, Copy, Debug, PartialEq, Eq, Structural)]
pub enum GuiEvent {
    /// The overlay has changed and the frame should be drawn again.
    RequestRedraw,
}

/// The state that the overlay keeps between frames. It keeps none so far.
#[derive(Clone, Copy, Debug, PartialEq, Eq, Structural)]
pub struct GuiState {}

} // verus!
