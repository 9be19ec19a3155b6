//! The disc: who holds it, who held it last, and how it can be thrown.

use crate::player::PlayerSide;
use crate::random::random_range;
use vstd::prelude::*;

verus! {

/// What the rules know of the disc. While `held_by_player` is set the disc
/// travels in that side's hands. `last_held` names the side that threw or was
/// served past most recently; once set it is never cleared.
#[derive(Clone, Copy, Debug, PartialEq, Eq, Structural)]
pub struct Frisbee {
    pub held_by_player: Option<PlayerSide>,
    pub last_held: Option<PlayerSide>,
}

/// The five ways to aim a throw, from steeply up to steeply down.
#[derive(Clone, Copy, Debug, PartialEq, Eq, Structural)]
pub enum ThrowDirection {
    Up,
    LightUp,
    Middle,
    LightDown,
    Down,
}

/// The throw that a drawn number selects: 0 to 3 name the first four throws
/// in order, every other number names `Down`.
pub open spec fn throw_of_draw(drawn: int) -> ThrowDirection {
    if drawn == 0 {
        ThrowDirection::Up
    } else if drawn == 1 {
        ThrowDirection::LightUp
    } else if drawn == 2 {
        ThrowDirection::Middle
    } else if drawn == 3 {
        ThrowDirection::LightDown
    } else {
        ThrowDirection::Down
    }
}

pub fn throw_direction_from_draw(drawn: i32) -> (dir: ThrowDirection)
    ensures
        dir == throw_of_draw(drawn as int),
{
    match drawn {
        0 => ThrowDirection::Up,
        1 => ThrowDirection::LightUp,
        2 => ThrowDirection::Middle,
        3 => ThrowDirection::LightDown,
        _ => ThrowDirection::Down,
    }
}

/// Picks one of the five throws by a draw from 0 to 4.
pub fn random_throw_direction() -> (dir: ThrowDirection)
    ensures
        exists|drawn: int| 0 <= drawn < 5 && dir == throw_of_draw(drawn),
{
    let drawn: i32 = random_range(0, 5);
    throw_direction_from_draw(drawn)
}

/// Every throw is selected by some draw from 0 to 4.
pub proof fn lemma_every_throw_can_be_drawn(dir: ThrowDirection)
    ensures
        exists|drawn: int| 0 <= drawn < 5 && dir == throw_of_draw(drawn),
{
    let drawn: int = match dir {
        ThrowDirection::Up => 0,
        ThrowDirection::LightUp => 1,
        ThrowDirection::Middle => 2,
        ThrowDirection::LightDown => 3,
        ThrowDirection::Down => 4,
    };
    assert(0 <= drawn < 5 && dir == throw_of_draw(drawn));
}

impl Frisbee {
    pub fn new() -> (frisbee: Frisbee)
        ensures
            frisbee == (Frisbee { held_by_player: None, last_held: None }),
    {
        Frisbee { held_by_player: None, last_held: None }
    }
}

} // verus!
