//! The part of the free-fly camera that is decided by the keys: which way
//! it moves in a frame. The arithmetic on positions and angles is the
//! caller's.

use vstd::prelude::*;
use crate::input::{key_down, ElementState, InputState, NUM_KEYS};

verus! {

/// One translation of the camera, along its forward or its right vector.
#[derive(Clone, Copy, Debug, PartialEq, Eq, Structural)]
pub enum Step {
    Forward,
    Backward,
    Left,
    Right,
}

/// The key codes of the four keys that move the camera.
#[derive(Clone, Copy, Debug, PartialEq, Eq, Structural)]
pub struct MoveKeys {
    pub forward: usize,
    pub backward: usize,
    pub left: usize,
    pub right: usize,
}

/// The step, alone, if the key is down, and nothing otherwise.
pub open spec fn step_if_down(keys: Seq<ElementState>, key: usize, step: Step) -> Seq<Step> {
    if keys[key as int] == ElementState::Pressed {
        seq![step]
    } else {
        Seq::empty()
    }
}

/// The translations of a frame: one for each of the four keys that is down,
/// in the order forward, backward, left, right. Opposite keys do not cancel
/// here: both steps are listed.
pub open spec fn steps_for(keys: Seq<ElementState>, bindings: MoveKeys) -> Seq<Step> {
    step_if_down(keys, bindings.forward, Step::Forward) + step_if_down(
        keys,
        bindings.backward,
        Step::Backward,
    ) + step_if_down(keys, bindings.left, Step::Left) + step_if_down(
        keys,
        bindings.right,
        Step::Right,
    )
}

impl MoveKeys {
    /// All four key codes name keys whose state is kept.
    pub open spec fn wf(&self) -> bool {
        &&& self.forward < NUM_KEYS
        &&& self.backward < NUM_KEYS
        &&& self.left < NUM_KEYS
        &&& self.right < NUM_KEYS
    }

    /// True when all four key codes name keys whose state is kept.
    pub fn is_wf(&self) -> (sound: bool)
        ensures
            sound == self.wf(),
    {
        self.forward < NUM_KEYS && self.backward < NUM_KEYS && self.left < NUM_KEYS && self.right
            < NUM_KEYS
    }
}

/// The translations that the camera makes in this frame.
pub fn movement(input: &InputState, bindings: &MoveKeys) -> (steps: Vec<Step>)
    requires
        input.wf(),
        bindings.wf(),
    ensures
        steps@ == steps_for(input.key_states@, *bindings),
{
    let mut steps: Vec<Step> = Vec::new();
    if key_down(input, bindings.forward) {
        steps.push(Step::Forward);
    }
    if key_down(input, bindings.backward) {
        steps.push(Step::Backward);
    }
    if key_down(input, bindings.left) {
        steps.push(Step::Left);
    }
    if key_down(input, bindings.right) {
        steps.push(Step::Right);
    }
    assert(steps@ =~= steps_for(input.key_states@, *bindings));
    steps
}

} // verus!
