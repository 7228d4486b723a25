//! What the keys mean: in a game played by hand, and in the viewer of a
//! recorded game.

use crate::slide::{DOWN, LEFT, RIGHT, UP};
use vstd::prelude::*;

verus! {

/// What a key asks for in a game played by hand.
#[derive(Debug, Copy, Clone, PartialEq, Eq, Structural)]
pub enum ManualKey {
    /// Leave the game.
    Quit,
    /// Slide in the direction given.
    Slide(i32),
    /// Nothing: the key has no meaning.
    Other,
}

/// What a key asks for in the viewer.
#[derive(Debug, Copy, Clone, PartialEq, Eq, Structural)]
pub enum ReplayKey {
    /// Leave the viewer.
    Quit,
    /// Go on by the number of turns given, back if it is below 0.
    Jump(isize),
    /// Nothing: the key has no meaning.
    Other,
}

/// The meaning of the keys by hand: `q` leaves; `w`, `s`, `d` and `a` slide
/// up, down, right and left.
pub open spec fn manual_meaning(key: u8) -> ManualKey {
    if key == 'q' as u8 {
        ManualKey::Quit
    } else if key == 'w' as u8 {
        ManualKey::Slide(UP)
    } else if key == 's' as u8 {
        ManualKey::Slide(DOWN)
    } else if key == 'd' as u8 {
        ManualKey::Slide(RIGHT)
    } else if key == 'a' as u8 {
        ManualKey::Slide(LEFT)
    } else {
        ManualKey::Other
    }
}

/// The meaning of the keys in the viewer: `q` leaves; `d` and `s` go one
/// turn on and back, `f` and `a` ten, `D` and `S` a hundred, `F` and `A` a
/// thousand.
pub open spec fn replay_meaning(key: u8) -> ReplayKey {
    if key == 'q' as u8 {
        ReplayKey::Quit
    } else if key == 'd' as u8 {
        ReplayKey::Jump(1)
    } else if key == 's' as u8 {
        ReplayKey::Jump((-1) as isize)
    } else if key == 'f' as u8 {
        ReplayKey::Jump(10)
    } else if key == 'a' as u8 {
        ReplayKey::Jump((-10) as isize)
    } else if key == 'D' as u8 {
        ReplayKey::Jump(100)
    } else if key == 'S' as u8 {
        ReplayKey::Jump((-100) as isize)
    } else if key == 'F' as u8 {
        ReplayKey::Jump(1000)
    } else if key == 'A' as u8 {
        ReplayKey::Jump((-1000) as isize)
    } else {
        ReplayKey::Other
    }
}

/// The turn that the viewer shows after a jump from turn `pos`: the turn
/// asked for, or the first or the last turn if the jump leads past them.
pub open spec fn sought(pos: int, jump: int, len: int) -> int {
    if pos + jump < 0 {
        0
    } else if pos + jump > len - 1 {
        len - 1
    } else {
        pos + jump
    }
}

/// What the key `key` asks for in a game played by hand.
pub fn manual_key(key: u8) -> (meaning: ManualKey)
    ensures
        meaning == manual_meaning(key),
{
    if key == 113 {
        ManualKey::Quit
    } else if key == 119 {
        ManualKey::Slide(UP)
    } else if key == 115 {
        ManualKey::Slide(DOWN)
    } else if key == 100 {
        ManualKey::Slide(RIGHT)
    } else if key == 97 {
        ManualKey::Slide(LEFT)
    } else {
        ManualKey::Other
    }
}

/// What the key `key` asks for in the viewer.
pub fn replay_key(key: u8) -> (meaning: ReplayKey)
    ensures
        meaning == replay_meaning(key),
{
    if key == 113 {
        ReplayKey::Quit
    } else if key == 100 {
        ReplayKey::Jump(1)
    } else if key == 115 {
        ReplayKey::Jump(-1)
    } else if key == 102 {
        ReplayKey::Jump(10)
    } else if key == 97 {
        ReplayKey::Jump(-10)
    } else if key == 68 {
        ReplayKey::Jump(100)
    } else if key == 83 {
        ReplayKey::Jump(-100)
    } else if key == 70 {
        ReplayKey::Jump(1000)
    } else if key == 65 {
        ReplayKey::Jump(-1000)
    } else {
        ReplayKey::Other
    }
}

/// The turn to show after a jump of `jump` turns from turn `pos` of a game
/// of `len` turns.
pub fn replay_seek(pos: isize, jump: isize, len: usize) -> (turn: isize)
    requires
        0 <= pos < len <= isize::MAX,
    ensures
        turn == sought(pos as int, jump as int, len as int),
        0 <= turn < len,
{
    let last = (len - 1) as isize;
    if jump < 0 {
        let target = pos + jump;
        if target < 0 {
            0
        } else {
            target
        }
    } else if jump > last - pos {
        last
    } else {
        pos + jump
    }
}

} // verus!
