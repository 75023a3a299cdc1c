//! What the engine offers its input and rendering layers: the direction a
//! key stands for, and where a cell sits relative to the board's centre.
use vstd::prelude::*;
use crate::facing::Facing;

verus! {

/// The keys the game listens to; every other key is `Other`.
#[derive(Clone, Copy, Debug, PartialEq, Eq, Structural)]
pub enum InputKey {
    ArrowUp,
    ArrowDown,
    ArrowRight,
    ArrowLeft,
    KeyW,
    KeyS,
    KeyD,
    KeyA,
    Other,
}

/// The direction a key stands for: the arrows, or W, S, D and A.
pub open spec fn key_direction_spec(key: InputKey) -> Option<Facing> {
    match key {
        InputKey::ArrowUp | InputKey::KeyW => Some(Facing::Up),
        InputKey::ArrowDown | InputKey::KeyS => Some(Facing::Down),
        InputKey::ArrowRight | InputKey::KeyD => Some(Facing::Right),
        InputKey::ArrowLeft | InputKey::KeyA => Some(Facing::Left),
        InputKey::Other => None,
    }
}

/// The direction a key stands for, if any.
pub fn key_direction(key: InputKey) -> (r: Option<Facing>)
    ensures
        r == key_direction_spec(key),
{
    match key {
        InputKey::ArrowUp | InputKey::KeyW => Some(Facing::Up),
        InputKey::ArrowDown | InputKey::KeyS => Some(Facing::Down),
        InputKey::ArrowRight | InputKey::KeyD => Some(Facing::Right),
        InputKey::ArrowLeft | InputKey::KeyA => Some(Facing::Left),
        InputKey::Other => None,
    }
}

/// The move asked for in one tick: only the first key pressed counts.
pub fn pressed_direction(keys: &[InputKey]) -> (r: Option<Facing>)
    ensures
        keys@.len() == 0 ==> r is None,
        keys@.len() > 0 ==> r == key_direction_spec(keys@[0]),
{
    if keys.len() == 0 {
        None
    } else {
        key_direction(keys[0])
    }
}

/// Signed distance, in half cells, from the centre of a line of `count`
/// cells to cell `n`: `2 * (n - count / 2)`, one half cell less when
/// `count` is odd.
pub fn half_cells_from_centre(n: u8, count: u8) -> (r: i32)
    ensures
        r == 2 * (n - count / 2) - (if count % 2 == 1 { 1int } else { 0int }),
{
    let parity: i32 = if count % 2 == 0 {
        0
    } else {
        1
    };
    2 * (n as i32 - (count / 2) as i32) - parity
}

} // verus!
