//! Plain values exchanged with the editor shell: tab and screen events,
//! animation-change behaviour, and the input state machine that decides
//! which quack animation a preview plays.

use vstd::prelude::*;

use crate::animations::AnimationType;

verus! {

/// Whether the render target is wiped before a frame is drawn.
#[derive(Clone, Copy, Debug, PartialEq, Eq, Structural)]
pub enum ScreenUpdate {
    Clear,
    Preserve,
}

/// A request to open a hat bundle: an existing directory, or a fresh one.
#[derive(Debug)]
pub enum NewHatEvent {
    Opened(String),
    New,
}

/// What the home tab asked for.
#[derive(Debug)]
pub enum HomeUIResponce {
    NewHat(NewHatEvent),
    NewHelpTab,
}

/// The kinds of tab the editor shows.
#[derive(Debug, Clone, Copy, PartialEq, Eq, Structural)]
pub enum TabType {
    Regular,
    Home,
    Help,
}

/// How the current frame index carries over when the preview switches to
/// another animation.
#[derive(Debug, Clone, Copy, PartialEq, Eq, Structural)]
pub enum AnimChangeBehaviour {
    Reset,
    Keep,
    Reverse,
}

/// The states of the animation-change input machine: no key held, the key
/// just pressed, the key held down, or the key just released.
#[derive(Debug, Clone, Copy, PartialEq, Eq, Structural)]
pub enum AnimInputState {
    Idle,
    Pressed,
    Down,
    Released,
}

/// One step of the input machine, given whether the key was pressed this
/// frame and whether it is currently down.
pub open spec fn spec_anim_input_step(state: AnimInputState, pressed: bool, down: bool) -> AnimInputState {
    match state {
        AnimInputState::Idle => if pressed {
            AnimInputState::Pressed
        } else {
            AnimInputState::Idle
        },
        AnimInputState::Pressed => if down {
            AnimInputState::Down
        } else {
            AnimInputState::Released
        },
        AnimInputState::Down => if down {
            AnimInputState::Down
        } else {
            AnimInputState::Released
        },
        AnimInputState::Released => if pressed {
            AnimInputState::Pressed
        } else {
            AnimInputState::Idle
        },
    }
}

/// Advances the input machine by one frame.
pub fn anim_input_step(state: AnimInputState, pressed: bool, down: bool) -> (r: AnimInputState)
    ensures
        r == spec_anim_input_step(state, pressed, down),
{
    match state {
        AnimInputState::Idle => {
            if pressed {
                AnimInputState::Pressed
            } else {
                AnimInputState::Idle
            }
        },
        AnimInputState::Pressed => {
            if down {
                AnimInputState::Down
            } else {
                AnimInputState::Released
            }
        },
        AnimInputState::Down => {
            if down {
                AnimInputState::Down
            } else {
                AnimInputState::Released
            }
        },
        AnimInputState::Released => {
            if pressed {
                AnimInputState::Pressed
            } else {
                AnimInputState::Idle
            }
        },
    }
}

/// The animation kind a state change triggers: the press animation on
/// entering `Pressed`, the release animation on entering `Released`, and
/// nothing otherwise.
pub fn anim_input_trigger(state: AnimInputState) -> (r: Option<AnimationType>)
    ensures
        state == AnimInputState::Pressed ==> r == Some(AnimationType::OnPressQuack),
        state == AnimInputState::Released ==> r == Some(AnimationType::OnReleaseQuack),
        state == AnimInputState::Idle || state == AnimInputState::Down ==> r is None,
{
    match state {
        AnimInputState::Pressed => Some(AnimationType::OnPressQuack),
        AnimInputState::Released => Some(AnimationType::OnReleaseQuack),
        _ => None,
    }
}

} // verus!
