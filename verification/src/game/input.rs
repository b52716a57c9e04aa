use vstd::prelude::*;

verus! {

/// What a player's input device can ask for.
#[derive(Clone, Copy, Debug, PartialEq, Eq, Structural, Hash)]
pub enum GameAction {
    Move,
    Action,
    Aim,
    Look,
}

/// A direction or position in the plane.
///
/// Each coordinate is carried as the bit pattern of a single-precision
/// number: the session layer moves coordinates and never computes with them.
#[derive(Clone, Copy, Debug, PartialEq, Eq, Structural, Hash)]
pub struct Vec2 {
    pub x: u32,
    pub y: u32,
}

/// Which buttons are held down.
#[derive(Clone, Copy, Debug, PartialEq, Eq, Structural, Hash)]
pub struct Buttons {
    pub grab: bool,
    pub place: bool,
    pub dash: bool,
}

/// One sample of a player's input.
#[derive(Clone, Copy, Debug, PartialEq, Eq, Structural, Hash)]
pub struct InputFrame {
    pub move_axis: Vec2,
    pub look: Vec2,
    pub buttons: Buttons,
}

impl InputFrame {
    /// The input of a player who touches nothing: both axes at the bit
    /// pattern of zero, no button held.
    pub fn new() -> (f: Self)
        ensures
            f == (InputFrame {
                move_axis: Vec2 { x: 0, y: 0 },
                look: Vec2 { x: 0, y: 0 },
                buttons: Buttons { grab: false, place: false, dash: false },
            }),
    {
        InputFrame {
            move_axis: Vec2 { x: 0, y: 0 },
            look: Vec2 { x: 0, y: 0 },
            buttons: Buttons { grab: false, place: false, dash: false },
        }
    }
}

} // verus!
