//! What the key presses do: the space bar pauses and resumes, `q` quits.

use vstd::prelude::*;

verus! {

/// What a plain key press asks for.
#[derive(Clone, Copy, Debug, PartialEq, Eq, Structural)]
pub enum Key {
    Pause,
    Quit,
    Other,
}

/// Whether the simulation advances, waits for the space bar, or has ended.
#[derive(Clone, Copy, Debug, PartialEq, Eq, Structural)]
pub enum Mode {
    Running,
    Paused,
    Stopped,
}

pub open spec fn key_of(c: char) -> Key {
    if c == ' ' {
        Key::Pause
    } else if c == 'q' {
        Key::Quit
    } else {
        Key::Other
    }
}

/// The mode after a poll that saw `key` (`None`: no key was pressed).
pub open spec fn mode_after(mode: Mode, key: Option<Key>) -> Mode {
    match mode {
        Mode::Stopped => Mode::Stopped,
        Mode::Running => match key {
            Some(Key::Pause) => Mode::Paused,
            Some(Key::Quit) => Mode::Stopped,
            _ => Mode::Running,
        },
        Mode::Paused => match key {
            Some(Key::Pause) => Mode::Running,
            Some(Key::Quit) => Mode::Stopped,
            _ => Mode::Paused,
        },
    }
}

/// The meaning of the character key `c`.
pub fn classify(c: char) -> (r: Key)
    ensures
        r == key_of(c),
{
    if c == ' ' {
        Key::Pause
    } else if c == 'q' {
        Key::Quit
    } else {
        Key::Other
    }
}

/// The next mode: the space bar toggles between running and paused, `q`
/// stops from either, any other key or none leaves the mode as it is, and a
/// stopped simulation stays stopped.
pub fn next_mode(mode: Mode, key: Option<Key>) -> (r: Mode)
    ensures
        r == mode_after(mode, key),
{
    match mode {
        Mode::Stopped => Mode::Stopped,
        Mode::Running => match key {
            Some(Key::Pause) => Mode::Paused,
            Some(Key::Quit) => Mode::Stopped,
            _ => Mode::Running,
        },
        Mode::Paused => match key {
            Some(Key::Pause) => Mode::Running,
            Some(Key::Quit) => Mode::Stopped,
            _ => Mode::Paused,
        },
    }
}

} // verus!
