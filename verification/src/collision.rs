//! What a contact means: who may pick the disc up, and what a goal is worth.

use crate::frisbee::Frisbee;
use crate::player::{Player, PlayerSide};
use vstd::prelude::*;

verus! {

/// Why a goal could not be awarded.
#[derive(Clone, Copy, Debug, PartialEq, Eq, Structural)]
pub enum GoalError {
    /// The disc crossed a goal line though no side ever held or received it.
    NoLastHolder,
}

/// Whether the side that held the disc last is the player's own. Such a
/// player may not pick the disc up again.
pub open spec fn threw_last(player: Player, frisbee: Frisbee) -> bool {
    frisbee.last_held is Some && frisbee.last_held == player.side
}

/// Whether a player whose circle overlaps the disc's (or does not, as
/// `overlapping` says) touches the disc in the sense of the rules.
pub open spec fn touches(player: Player, frisbee: Frisbee, overlapping: bool) -> bool {
    overlapping && !threw_last(player, frisbee)
}

/// The contact rule. The court measures whether the two circles overlap; the
/// rule adds that the side which held the disc last does not touch it, however
/// close it is.
pub fn player_collides_with_frisbee(player: &Player, frisbee: &Frisbee, overlapping: bool) -> (res:
    bool)
    ensures
        res == touches(*player, *frisbee, overlapping),
{
    match frisbee.last_held {
        Some(last_held) => {
            if player.side == Some(last_held) {
                return false;
            }
        },
        None => {},
    }
    overlapping
}

/// The points of a goal: five through the middle band of the goal line, three
/// elsewhere.
pub open spec fn goal_points(in_five_band: bool) -> int {
    if in_five_band {
        5
    } else {
        3
    }
}

/// The two players after `scorer` has been given `points`.
pub open spec fn with_points(players: (Player, Player), scorer: PlayerSide, points: int) -> (
    Player,
    Player,
) {
    match scorer {
        PlayerSide::Left => (
            Player { score: (players.0.score + points) as i8, ..players.0 },
            players.1,
        ),
        PlayerSide::Right => (
            players.0,
            Player { score: (players.1.score + points) as i8, ..players.1 },
        ),
    }
}

/// The score of the player on a side.
pub open spec fn score_of(players: (Player, Player), side: PlayerSide) -> int {
    match side {
        PlayerSide::Left => players.0.score as int,
        PlayerSide::Right => players.1.score as int,
    }
}

/// The goal rule. The court says whether the disc has passed either end of
/// the court (`crossed`) and whether it did so inside the middle band
/// (`in_five_band`). A goal goes to the side that held the disc last, for five
/// or three points; the answer `Ok(true)` tells the court to put the disc back
/// on its mark. Without a last holder nobody can be paid: that is an error, and
/// the scores stay as they were.
pub fn frisbee_collision_goal(
    frisbee: &Frisbee,
    players: &mut (Player, Player),
    crossed: bool,
    in_five_band: bool,
) -> (res: Result<bool, GoalError>)
    requires
        crossed && frisbee.last_held is Some ==> score_of(*old(players), frisbee.last_held->0)
            + goal_points(in_five_band) <= i8::MAX,
    ensures
        res is Err <==> crossed && frisbee.last_held is None,
        res == Ok::<bool, GoalError>(true) <==> crossed && frisbee.last_held is Some,
        res == Ok::<bool, GoalError>(true) ==> *final(players) == with_points(
            *old(players),
            frisbee.last_held->0,
            goal_points(in_five_band),
        ),
        res != Ok::<bool, GoalError>(true) ==> *final(players) == *old(players),
{
    if crossed {
        let points: i8 = if in_five_band {
            5
        } else {
            3
        };
        match frisbee.last_held {
            Some(PlayerSide::Left) => {
                players.0.score = players.0.score + points;
            },
            Some(PlayerSide::Right) => {
                players.1.score = players.1.score + points;
            },
            None => {
                return Err(GoalError::NoLastHolder);
            },
        }
        return Ok(true);
    }
    Ok(false)
}

} // verus!
