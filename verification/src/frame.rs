//! The decisions of the frame loop: what a window event asks for, and how
//! the loop goes on after a frame could not be drawn.

use vstd::prelude::*;
use crate::input::{CursorState, ElementState, WindowInput};

verus! {

/// What the frame loop does about a window event.
#[derive(Clone, Copy, Debug, PartialEq, Eq, Structural)]
pub enum WindowAction {
    /// Leave the frame loop.
    Exit,
    /// Configure the surface and the depth texture for the new size.
    Resize { width: u32, height: u32 },
    /// Turn the camera by the mouse movement.
    Look,
    /// Nothing.
    Ignore,
}

/// Why the surface gave no texture to draw on.
#[derive(Clone, Copy, Debug, PartialEq, Eq, Structural)]
pub enum SurfaceFailure {
    Timeout,
    Outdated,
    Lost,
    OutOfMemory,
}

/// Why a frame could not be drawn.
#[derive(Clone, Copy, Debug, PartialEq, Eq, Structural)]
pub enum RenderFailure {
    /// The surface gave no texture to draw on.
    Surface(SurfaceFailure),
    /// Anything else went wrong on the graphics device.
    Other,
}

/// How the frame loop goes on after a frame.
#[derive(Clone, Copy, Debug, PartialEq, Eq, Structural)]
pub enum FrameAction {
    /// Go on with the next frame.
    Continue,
    /// Configure the surface anew for its current size, then go on.
    Reconfigure,
    /// Report the failure and leave the frame loop.
    Exit,
}

/// What a window event asks for: a close request and the exit key going
/// down end the loop, a new size is taken over, and a cursor movement turns
/// the camera while the cursor is hidden.
pub open spec fn window_action_for(event: WindowInput, cursor: CursorState, exit_key: usize) -> WindowAction {
    match event {
        WindowInput::CloseRequested => WindowAction::Exit,
        WindowInput::Key { key, state } => if key == exit_key && state == ElementState::Pressed {
            WindowAction::Exit
        } else {
            WindowAction::Ignore
        },
        WindowInput::Resized { width, height } => WindowAction::Resize { width, height },
        WindowInput::ScaleFactorChanged { width, height } => WindowAction::Resize { width, height },
        WindowInput::CursorMoved => if cursor == CursorState::Hidden {
            WindowAction::Look
        } else {
            WindowAction::Ignore
        },
        WindowInput::Other => WindowAction::Ignore,
    }
}

/// How the loop goes on after a frame: a lost surface is the one failure
/// that is mended, by configuring the surface anew; every other failure
/// ends the loop.
pub open spec fn frame_action_for(outcome: Result<(), RenderFailure>) -> FrameAction {
    match outcome {
        Ok(_) => FrameAction::Continue,
        Err(RenderFailure::Surface(SurfaceFailure::Lost)) => FrameAction::Reconfigure,
        Err(_) => FrameAction::Exit,
    }
}

/// What the frame loop does about a window event, where `cursor` is the
/// cursor state and `exit_key` the code of the key that ends the program.
pub fn process_window_event(event: &WindowInput, cursor: CursorState, exit_key: usize) -> (action:
    WindowAction)
    ensures
        action == window_action_for(*event, cursor, exit_key),
{
    match event {
        WindowInput::CloseRequested => WindowAction::Exit,
        WindowInput::Key { key, state } => {
            if *key == exit_key && *state == ElementState::Pressed {
                WindowAction::Exit
            } else {
                WindowAction::Ignore
            }
        },
        WindowInput::Resized { width, height } => WindowAction::Resize {
            width: *width,
            height: *height,
        },
        WindowInput::ScaleFactorChanged { width, height } => WindowAction::Resize {
            width: *width,
            height: *height,
        },
        WindowInput::CursorMoved => {
            if cursor == CursorState::Hidden {
                WindowAction::Look
            } else {
                WindowAction::Ignore
            }
        },
        WindowInput::Other => WindowAction::Ignore,
    }
}

/// How the frame loop goes on after a frame was drawn or failed.
pub fn after_render(outcome: Result<(), RenderFailure>) -> (action: FrameAction)
    ensures
        action == frame_action_for(outcome),
{
    match outcome {
        Ok(_) => FrameAction::Continue,
        Err(RenderFailure::Surface(SurfaceFailure::Lost)) => FrameAction::Reconfigure,
        Err(_) => FrameAction::Exit,
    }
}

/// A failure to draw ends the frame loop unless it is a lost surface.
pub proof fn lemma_only_lost_surface_is_mended(failure: RenderFailure)
    ensures
        frame_action_for(Err(failure)) != FrameAction::Continue,
        frame_action_for(Err(failure)) == FrameAction::Reconfigure <==> failure
            == RenderFailure::Surface(SurfaceFailure::Lost),
{
}

} // verus!
