//! Keyboard and mouse input state.
//!
//! The event layer reports discrete key and mouse transitions; the handlers
//! here fold them into a per-frame [`InputState`] snapshot that the
//! integrator reads once per tick. Axis updates are edge-triggered: a
//! key-down overwrites the whole axis and a key-up zeroes it, with no
//! memory of which other keys are still held.

use vstd::prelude::*;

verus! {

/// Per-frame snapshot of control intent: two tri-state movement axes
/// (each -1, 0 or 1), the last click position, and a fire flag.
#[derive(Clone, Copy, Debug, PartialEq, Eq, Structural)]
pub struct InputState {
    pub xaxis: i8,
    pub yaxis: i8,
    pub xclick: i64,
    pub yclick: i64,
    pub fire: bool,
}

impl InputState {
    /// Both movement axes hold a normalized tri-state value.
    pub open spec fn wf(self) -> bool {
        (self.xaxis == -1 || self.xaxis == 0 || self.xaxis == 1) && (self.yaxis == -1
            || self.yaxis == 0 || self.yaxis == 1)
    }
}

impl Default for InputState {
    /// The idle snapshot: axes centred, no click, fire off.
    fn default() -> (s: Self)
        ensures
            s.xaxis == 0,
            s.yaxis == 0,
            s.xclick == 0,
            s.yclick == 0,
            !s.fire,
            s.wf(),
    {
        InputState { xaxis: 0, yaxis: 0, xclick: 0, yclick: 0, fire: false }
    }
}

/// The keys the game reacts to; every other key is `Other`.
#[derive(Clone, Copy, Debug, PartialEq, Eq, Structural)]
pub enum Key {
    W,
    S,
    A,
    D,
    Escape,
    Other,
}

/// A key went down: W and S drive the y axis to +1 and -1, A and D the x
/// axis to -1 and +1, and Escape asks the host loop to quit. The press
/// overwrites the whole axis, whatever other keys are held.
pub fn key_down_event(input: &mut InputState, key: Key) -> (quit: bool)
    ensures
        final(input).yaxis == (if key == Key::W {
            1 as i8
        } else if key == Key::S {
            -1 as i8
        } else {
            old(input).yaxis
        }),
        final(input).xaxis == (if key == Key::A {
            -1 as i8
        } else if key == Key::D {
            1 as i8
        } else {
            old(input).xaxis
        }),
        final(input).xclick == old(input).xclick,
        final(input).yclick == old(input).yclick,
        final(input).fire == old(input).fire,
        quit == (key == Key::Escape),
        old(input).wf() ==> final(input).wf(),
{
    match key {
        Key::W => {
            input.yaxis = 1;
            false
        },
        Key::S => {
            input.yaxis = -1;
            false
        },
        Key::A => {
            input.xaxis = -1;
            false
        },
        Key::D => {
            input.xaxis = 1;
            false
        },
        Key::Escape => true,
        Key::Other => false,
    }
}

/// A key came up: W or S zero the y axis and A or D zero the x axis,
/// even if the opposite key of the pair is still held down (the snapshot
/// keeps no held-key set, so the stale zero stands until the next press).
pub fn key_up_event(input: &mut InputState, key: Key)
    ensures
        final(input).yaxis == (if key == Key::W || key == Key::S {
            0 as i8
        } else {
            old(input).yaxis
        }),
        final(input).xaxis == (if key == Key::A || key == Key::D {
            0 as i8
        } else {
            old(input).xaxis
        }),
        final(input).xclick == old(input).xclick,
        final(input).yclick == old(input).yclick,
        final(input).fire == old(input).fire,
        old(input).wf() ==> final(input).wf(),
{
    match key {
        Key::W => {
            input.yaxis = 0;
        },
        Key::S => {
            input.yaxis = 0;
        },
        Key::A => {
            input.xaxis = 0;
        },
        Key::D => {
            input.xaxis = 0;
        },
        Key::Escape => {
        },
        Key::Other => {
        },
    }
}

/// A mouse button went down at `(x, y)`: remember the click and raise the
/// fire flag.
pub fn mouse_button_down_event(input: &mut InputState, x: i64, y: i64)
    ensures
        final(input).xclick == x,
        final(input).yclick == y,
        final(input).fire,
        final(input).xaxis == old(input).xaxis,
        final(input).yaxis == old(input).yaxis,
        old(input).wf() ==> final(input).wf(),
{
    input.xclick = x;
    input.yclick = y;
    input.fire = true;
}

/// The mouse button came up: clear the click and lower the fire flag.
pub fn mouse_button_up_event(input: &mut InputState)
    ensures
        final(input).xclick == 0,
        final(input).yclick == 0,
        !final(input).fire,
        final(input).xaxis == old(input).xaxis,
        final(input).yaxis == old(input).yaxis,
        old(input).wf() ==> final(input).wf(),
{
    input.xclick = 0;
    input.yclick = 0;
    input.fire = false;
}

} // verus!
