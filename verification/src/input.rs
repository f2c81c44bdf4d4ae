//! The input state that the camera and the event loop consult: which keys
//! are down, and whether the cursor is shown or held by the window.

use vstd::prelude::*;

verus! {

/// The number of keys whose state is kept. Keys are named by their key codes,
/// which run from zero up to this number.
pub const NUM_KEYS: usize = 162;

/// Whether the cursor is shown, or hidden and held at the centre of the
/// window so that the mouse steers the camera.
#[derive(Clone, Copy, Debug, PartialEq, Eq, Structural)]
pub enum CursorState {
    Visible,
    Hidden,
}

/// Whether a key is down or up.
#[derive(Clone, Copy, Debug, PartialEq, Eq, Structural)]
pub enum ElementState {
    Pressed,
    Released,
}

/// What a window event means to the input state.
#[derive(Clone, Copy, Debug, PartialEq, Eq, Structural)]
pub enum WindowInput {
    /// The user asked for the window to be closed.
    CloseRequested,
    /// The key with the code `key` went down or up.
    Key { key: usize, state: ElementState },
    /// The window has a new size, in pixels.
    Resized { width: u32, height: u32 },
    /// The window has a new scale factor and with it a new size, in pixels.
    ScaleFactorChanged { width: u32, height: u32 },
    /// The cursor moved inside the window.
    CursorMoved,
    /// Any other window event.
    Other,
}

/// The position that is to be taken as the mouse position.
#[derive(Clone, Copy, Debug, PartialEq, Eq, Structural)]
pub enum MouseSource {
    /// The position that the event reports.
    Event,
    /// The centre of the window.
    WindowCenter,
}

/// What the event loop has to do about the mouse after an event.
#[derive(Clone, Copy, Debug, PartialEq, Eq, Structural)]
pub enum MouseAction {
    /// Nothing.
    Leave,
    /// Take the position named by `source` as the current mouse position,
    /// measure it against the centre of the window, and if `warp` is set
    /// put the cursor back at the centre.
    Update { source: MouseSource, warp: bool },
}

/// The state of every key and of the cursor.
pub struct InputState {
    pub key_states: Vec<ElementState>,
    pub cursor_state: CursorState,
}

/// The cursor state after the toggle key was released.
pub open spec fn toggled(cursor: CursorState) -> CursorState {
    match cursor {
        CursorState::Hidden => CursorState::Visible,
        CursorState::Visible => CursorState::Hidden,
    }
}

/// The cursor state after a window event, where `toggle` says that the
/// toggle key was released.
pub open spec fn cursor_after(cursor: CursorState, toggle: bool) -> CursorState {
    if toggle {
        toggled(cursor)
    } else {
        cursor
    }
}

/// What is to be done about the mouse after a window event. Showing the
/// cursor changes nothing by itself; hiding it puts the mouse at the centre
/// of the window at once, whatever the event; otherwise a cursor movement
/// is taken over, and the cursor is put back at the centre while it is
/// hidden.
pub open spec fn mouse_action(cursor: CursorState, event: WindowInput, toggle: bool) -> MouseAction {
    if toggle && cursor == CursorState::Visible {
        MouseAction::Update { source: MouseSource::WindowCenter, warp: true }
    } else if event is CursorMoved {
        MouseAction::Update {
            source: MouseSource::Event,
            warp: cursor_after(cursor, toggle) == CursorState::Hidden,
        }
    } else {
        MouseAction::Leave
    }
}

/// The key states after a window event.
pub open spec fn keys_after(keys: Seq<ElementState>, event: WindowInput) -> Seq<ElementState> {
    match event {
        WindowInput::Key { key, state } => keys.update(key as int, state),
        _ => keys,
    }
}

/// The event names no key beyond those whose state is kept.
pub open spec fn in_range(event: WindowInput) -> bool {
    event matches WindowInput::Key { key, .. } ==> key < NUM_KEYS
}

impl InputState {
    /// Every key has a state.
    pub open spec fn wf(&self) -> bool {
        self.key_states@.len() == NUM_KEYS
    }

    /// The state at start: every key up, the cursor hidden.
    pub fn new() -> (state: InputState)
        ensures
            state.wf(),
            state.cursor_state == CursorState::Hidden,
            forall|key: int| 0 <= key < NUM_KEYS ==> state.key_states@[key] == ElementState::Released,
    {
        let mut key_states: Vec<ElementState> = Vec::new();
        let mut key: usize = 0;
        while key < NUM_KEYS
            invariant
                key <= NUM_KEYS,
                key_states@.len() == key,
                forall|k: int| 0 <= k < key ==> key_states@[k] == ElementState::Released,
            decreases NUM_KEYS - key,
        {
            key_states.push(ElementState::Released);
            key += 1;
        }
        InputState { key_states, cursor_state: CursorState::Hidden }
    }
}

/// True when the key with the code `key` is down.
pub fn key_down(state: &InputState, key: usize) -> (down: bool)
    requires
        state.wf(),
        key < NUM_KEYS,
    ensures
        down == (state.key_states@[key as int] == ElementState::Pressed),
{
    state.key_states[key] == ElementState::Pressed
}

/// True when the key with the code `key` is up.
pub fn key_up(state: &InputState, key: usize) -> (up: bool)
    requires
        state.wf(),
        key < NUM_KEYS,
    ensures
        up == (state.key_states@[key as int] == ElementState::Released),
{
    state.key_states[key] == ElementState::Released
}

/// Whether the cursor is shown or hidden.
pub fn cursor_state(state: &InputState) -> (cursor: CursorState)
    ensures
        cursor == state.cursor_state,
{
    state.cursor_state
}

/// Takes note of a key that went down or up; other events change nothing.
pub fn update_key_state(state: &mut InputState, event: &WindowInput)
    requires
        old(state).wf(),
        in_range(*event),
    ensures
        final(state).wf(),
        final(state).key_states@ == keys_after(old(state).key_states@, *event),
        final(state).cursor_state == old(state).cursor_state,
{
    match event {
        WindowInput::Key { key, state: key_state } => {
            state.key_states.set(*key, *key_state);
        },
        _ => {},
    }
}

/// Takes a window event into the input state and says what is to be done
/// about the mouse. `toggle` tells whether the key that shows and hides the
/// cursor was released.
pub fn update_input_state(state: &mut InputState, event: &WindowInput, toggle: bool) -> (action:
    MouseAction)
    requires
        old(state).wf(),
        in_range(*event),
    ensures
        final(state).wf(),
        final(state).key_states@ == keys_after(old(state).key_states@, *event),
        final(state).cursor_state == cursor_after(old(state).cursor_state, toggle),
        action == mouse_action(old(state).cursor_state, *event, toggle),
{
    update_key_state(state, event);
    if toggle {
        match state.cursor_state {
            CursorState::Hidden => {
                state.cursor_state = CursorState::Visible;
            },
            CursorState::Visible => {
                state.cursor_state = CursorState::Hidden;
                return MouseAction::Update { source: MouseSource::WindowCenter, warp: true };
            },
        }
    }
    match event {
        WindowInput::CursorMoved => MouseAction::Update {
            source: MouseSource::Event,
            warp: state.cursor_state == CursorState::Hidden,
        },
        _ => MouseAction::Leave,
    }
}

/// The centre of a window of the given size, in whole pixels.
pub fn window_center(width: u32, height: u32) -> (center: (u32, u32))
    ensures
        center.0 == width / 2,
        center.1 == height / 2,
{
    (width / 2, height / 2)
}

} // verus!
