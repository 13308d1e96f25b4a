//! The per-frame input snapshot and the quit decision.
//!
//! The simulation is agnostic to physical devices: a frame hands it a
//! snapshot of the logical key codes currently held, and each plane carries
//! its own bindings into that space.

use vstd::prelude::*;

verus! {

pub const KEY_LEFT: u32 = 1;

pub const KEY_RIGHT: u32 = 2;

pub const KEY_UP: u32 = 3;

pub const KEY_DOWN: u32 = 4;

pub const KEY_SPACE: u32 = 5;

pub const KEY_A: u32 = 10;

pub const KEY_D: u32 = 11;

pub const KEY_W: u32 = 12;

pub const KEY_S: u32 = 13;

pub const KEY_E: u32 = 14;

pub const KEY_ESCAPE: u32 = 20;

pub const KEY_Q: u32 = 21;

pub const KEY_F4: u32 = 22;

pub const KEY_LWIN: u32 = 23;

pub const KEY_RWIN: u32 = 24;

pub const KEY_LALT: u32 = 25;

pub const KEY_RALT: u32 = 26;

/// The keys held during one frame.
pub struct InputState {
    pub held: Vec<u32>,
}

impl InputState {
    pub fn new(held: Vec<u32>) -> (r: InputState)
        ensures
            r.held@ == held@,
    {
        InputState { held }
    }

    /// Whether key `k` is currently held.
    pub fn is_held(&self, k: u32) -> (r: bool)
        ensures
            r == self.held@.contains(k),
    {
        let mut i: usize = 0;
        while i < self.held.len()
            invariant
                0 <= i <= self.held@.len(),
                forall|j: int| 0 <= j < i ==> self.held@[j] != k,
            decreases self.held@.len() - i,
        {
            if self.held[i] == k {
                return true;
            }
            i = i + 1;
        }
        false
    }
}

/// One keyboard transition, as the frame driver reports it.
#[derive(Clone, Copy, PartialEq, Eq, Structural, Debug)]
pub struct KeyEvent {
    pub key_code: Option<u32>,
    pub pressed: bool,
}

/// Whether one key event asks to quit: Escape, a system key with Q, or Alt
/// with F4, on a press.
pub open spec fn spec_exit_event(e: KeyEvent, held: Seq<u32>) -> bool {
    e.pressed && match e.key_code {
        Option::Some(k) => k == KEY_ESCAPE || (k == KEY_Q && (held.contains(KEY_LWIN)
            || held.contains(KEY_RWIN))) || (k == KEY_F4 && (held.contains(KEY_LALT)
            || held.contains(KEY_RALT))),
        Option::None => false,
    }
}

/// Whether this frame's key events ask the application to quit.
pub fn exit_system(events: &Vec<KeyEvent>, input: &InputState) -> (r: bool)
    ensures
        r == exists|i: int|
            0 <= i < events@.len() && spec_exit_event(#[trigger] events@[i], input.held@),
{
    let mut i: usize = 0;
    while i < events.len()
        invariant
            0 <= i <= events@.len(),
            forall|j: int| 0 <= j < i ==> !spec_exit_event(#[trigger] events@[j], input.held@),
        decreases events@.len() - i,
    {
        let e: KeyEvent = events[i];
        if e.pressed {
            match e.key_code {
                Some(k) => {
                    if k == KEY_ESCAPE {
                        return true;
                    }
                    if k == KEY_Q && (input.is_held(KEY_LWIN) || input.is_held(KEY_RWIN)) {
                        return true;
                    }
                    if k == KEY_F4 && (input.is_held(KEY_LALT) || input.is_held(KEY_RALT)) {
                        return true;
                    }
                },
                None => {},
            }
        }
        i = i + 1;
    }
    false
}

} // verus!
