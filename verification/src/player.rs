//! The two sides of the court and the rule state of one player.

use crate::direction::Direction;
use crate::frisbee::ThrowDirection;
use vstd::prelude::*;

verus! {

/// One of the two halves of the court. `Left` faces the positive x axis,
/// `Right` the negative one.
#[derive(Clone, Copy, Debug, PartialEq, Eq, Structural)]
pub enum PlayerSide {
    Left,
    Right,
}

/// The number that stands for a side at the boundary: 0 for `Left`, 1 for
/// `Right`, -1 for no side.
pub open spec fn side_code(side: Option<PlayerSide>) -> int {
    match side {
        Some(PlayerSide::Left) => 0,
        Some(PlayerSide::Right) => 1,
        None => -1,
    }
}

/// The side a boundary number stands for; every number but 0 and 1 stands for
/// no side.
pub open spec fn side_of_code(code: int) -> Option<PlayerSide> {
    if code == 0 {
        Some(PlayerSide::Left)
    } else if code == 1 {
        Some(PlayerSide::Right)
    } else {
        None
    }
}

pub fn player_side_to_i8(side: Option<PlayerSide>) -> (code: i8)
    ensures
        code == side_code(side),
{
    match side {
        Some(PlayerSide::Left) => 0,
        Some(PlayerSide::Right) => 1,
        None => -1,
    }
}

pub fn player_side_from_i8(side: i8) -> (res: Option<PlayerSide>)
    ensures
        res == side_of_code(side as int),
{
    match side {
        0 => Some(PlayerSide::Left),
        1 => Some(PlayerSide::Right),
        _ => None,
    }
}

/// Turning a side into its number and back gives the side again.
pub proof fn lemma_side_code_round_trip(side: Option<PlayerSide>)
    ensures
        side_of_code(side_code(side)) == side,
{
}

impl PlayerSide {
    /// The side across the net.
    pub open spec fn other(self) -> PlayerSide {
        match self {
            PlayerSide::Left => PlayerSide::Right,
            PlayerSide::Right => PlayerSide::Left,
        }
    }

    pub fn opposite(self) -> (res: PlayerSide)
        ensures
            res == self.other(),
    {
        match self {
            PlayerSide::Left => PlayerSide::Right,
            PlayerSide::Right => PlayerSide::Left,
        }
    }
}

/// What the rules know of a player: the side it defends, its score, and
/// whether a dash is under way. Where the player stands is the court's matter.
#[derive(Clone, Copy, Debug, PartialEq, Eq, Structural)]
pub struct Player {
    pub side: Option<PlayerSide>,
    pub score: i8,
    pub sliding: bool,
}

/// The sign of the x axis along which a side throws: +1 from the left half,
/// -1 from the right half, 0 for a player without a side.
pub open spec fn aim_sign(side: Option<PlayerSide>) -> int {
    match side {
        Some(PlayerSide::Left) => 1,
        Some(PlayerSide::Right) => -1,
        None => 0,
    }
}

/// The lattice vector of a throw: the horizontal part follows the thrower's
/// aim, doubled for the two light throws, and the vertical part is up, level
/// or down.
pub open spec fn throw_vector(side: Option<PlayerSide>, dir: ThrowDirection) -> Direction {
    let h = aim_sign(side);
    match dir {
        ThrowDirection::Up => Direction::at(h, 1),
        ThrowDirection::LightUp => Direction::at(2 * h, 1),
        ThrowDirection::Middle => Direction::at(h, 0),
        ThrowDirection::LightDown => Direction::at(2 * h, -1),
        ThrowDirection::Down => Direction::at(h, -1),
    }
}

impl Player {
    pub fn new() -> (player: Player)
        ensures
            player == (Player { side: None, score: 0, sliding: false }),
    {
        Player { side: None, score: 0, sliding: false }
    }

    /// The sign of the half of the court the player defends: the opposite of
    /// its aim.
    pub fn get_horizontal_position(&self) -> (sign: i8)
        ensures
            sign == -aim_sign(self.side),
    {
        -self.get_horizontal_aim_direction()
    }

    /// The sign of the x axis along which the player throws.
    pub fn get_horizontal_aim_direction(&self) -> (sign: i8)
        ensures
            sign == aim_sign(self.side),
    {
        match self.side {
            Some(PlayerSide::Left) => 1,
            Some(PlayerSide::Right) => -1,
            None => 0,
        }
    }

    /// The heading of a throw by this player. The court scales it to unit
    /// length.
    pub fn get_throw_vector(&self, dir: &ThrowDirection) -> (vector: Direction)
        ensures
            vector == throw_vector(self.side, *dir),
    {
        let horizontal: i32 = match self.side {
            Some(PlayerSide::Left) => 1,
            Some(PlayerSide::Right) => -1,
            None => 0,
        };
        match dir {
            ThrowDirection::Up => Direction { x: horizontal, y: 1 },
            ThrowDirection::LightUp => Direction { x: horizontal * 2, y: 1 },
            ThrowDirection::Middle => Direction { x: horizontal, y: 0 },
            ThrowDirection::LightDown => Direction { x: horizontal * 2, y: -1 },
            ThrowDirection::Down => Direction { x: horizontal, y: -1 },
        }
    }

    /// Asks for a dash. A player that is already sliding keeps its slide; the
    /// answer says whether a new slide began.
    pub fn dash(&mut self) -> (began: bool)
        ensures
            began == !old(self).sliding,
            *final(self) == (Player { sliding: true, ..*old(self) }),
    {
        let began = !self.sliding;
        self.sliding = true;
        began
    }

    /// Sends the player to a given spot: any slide under way is replaced.
    pub fn dash_to_pos(&mut self)
        ensures
            *final(self) == (Player { sliding: true, ..*old(self) }),
    {
        self.sliding = true;
    }

    /// Ends the slide, if there is one.
    pub fn stop_slide(&mut self)
        ensures
            *final(self) == (Player { sliding: false, ..*old(self) }),
    {
        self.sliding = false;
    }
}

} // verus!
