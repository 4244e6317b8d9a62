//! The decisions of the interactive loop: what a key does to the camera, and
//! whether the loop goes on.
//!
//! The loop itself, which waits for the next input event and sends the rows to
//! the terminal, belongs to the program around this library. It hands each event
//! over as a `Key` and acts on the `Step` it gets back.

use vstd::prelude::*;
use crate::geometry::Pos;

verus! {

/// An input event, as far as the loop tells events apart.
#[derive(Copy, Clone, Debug, PartialEq, Eq, Structural)]
pub enum Key {
    /// The escape key.
    Escape,
    /// A character key.
    Char(char),
    /// Any other key, and any event that is no key.
    Other,
}

/// What the loop does next.
#[derive(Copy, Clone, Debug, PartialEq, Eq, Structural)]
pub enum Step {
    /// Leave the loop.
    Quit,
    /// Draw a frame with the camera at this position, then wait for the next event.
    Render(Pos),
}

/// How far a key moves the camera to the right: `d` by one cell, `a` by one cell
/// to the left, every other key not at all.
pub open spec fn key_dx(key: Key) -> int {
    match key {
        Key::Char(c) => if c == 'd' {
            1
        } else if c == 'a' {
            -1
        } else {
            0
        },
        _ => 0,
    }
}

/// How far a key moves the camera down: `s` by one cell, `w` by one cell up,
/// every other key not at all.
pub open spec fn key_dy(key: Key) -> int {
    match key {
        Key::Char(c) => if c == 's' {
            1
        } else if c == 'w' {
            -1
        } else {
            0
        },
        _ => 0,
    }
}

/// Whether the camera, moved by `key`, is still a world position.
pub open spec fn can_move(camera: Pos, key: Key) -> bool {
    &&& i32::MIN <= camera.x + key_dx(key) <= i32::MAX
    &&& i32::MIN <= camera.y + key_dy(key) <= i32::MAX
}

/// The step that follows `key` with the camera at `camera`: escape ends the loop;
/// after anything else a frame is drawn, with the camera moved if the key moves it.
pub open spec fn step_after(camera: Pos, key: Key) -> Step {
    if key is Escape {
        Step::Quit
    } else {
        Step::Render(
            Pos { x: (camera.x + key_dx(key)) as i32, y: (camera.y + key_dy(key)) as i32 },
        )
    }
}

/// Tells whether the camera, moved by `key`, is still a world position.
pub fn key_keeps_camera_in_world(camera: Pos, key: Key) -> (ok: bool)
    ensures
        ok == can_move(camera, key),
{
    match key {
        Key::Char(c) => {
            if c == 'w' {
                camera.y > i32::MIN
            } else if c == 's' {
                camera.y < i32::MAX
            } else if c == 'a' {
                camera.x > i32::MIN
            } else if c == 'd' {
                camera.x < i32::MAX
            } else {
                true
            }
        },
        _ => true,
    }
}

/// Decides the step that follows `key` with the camera at `camera`.
pub fn next_step(camera: Pos, key: Key) -> (step: Step)
    requires
        can_move(camera, key),
    ensures
        step == step_after(camera, key),
{
    match key {
        Key::Escape => Step::Quit,
        Key::Char(c) => {
            if c == 'w' {
                Step::Render(Pos { x: camera.x, y: camera.y - 1 })
            } else if c == 's' {
                Step::Render(Pos { x: camera.x, y: camera.y + 1 })
            } else if c == 'a' {
                Step::Render(Pos { x: camera.x - 1, y: camera.y })
            } else if c == 'd' {
                Step::Render(Pos { x: camera.x + 1, y: camera.y })
            } else {
                Step::Render(camera)
            }
        },
        Key::Other => Step::Render(camera),
    }
}

} // verus!
