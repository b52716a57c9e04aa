use vstd::prelude::*;

verus! {

/// What an entity of the simulation is.
#[derive(Clone, Copy, Debug, PartialEq, Eq, Structural, Hash)]
pub enum Kind {
    Player,
    Brick,
    Wall,
    Ball,
    Goal,
}

/// What a player is seen doing.
#[derive(Clone, Copy, Debug, PartialEq, Eq, Structural, Hash)]
pub enum AnimationState {
    Idle,
    Moving,
    Dashing,
    Shooting,
}

} // verus!
