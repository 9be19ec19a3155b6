//! The whole numbers under which a match crosses the boundary to a front
//! end.

use crate::game_engine::{state_code, state_from_i8, state_of_code, state_to_i8, GameEngine, StateOfGame};
use crate::player::{
    player_side_from_i8, player_side_to_i8, side_code, side_of_code, Player, PlayerSide,
};
use crate::frisbee::Frisbee;
use vstd::prelude::*;

verus! {

/// The rule state of a match in numbers: the two scores, the two sides (0
/// for left, 1 for right), the holder of the disc (-1 for nobody) and the
/// phase of the round (0 for `Start`, 1 for `Playing`, 2 for `End`).
#[derive(Clone, Copy, Debug, PartialEq, Eq, Structural)]
pub struct SharedData {
    pub p1_score: i8,
    pub p1_side: i8,
    pub p2_score: i8,
    pub p2_side: i8,
    pub zbee_held: i8,
    pub state_of_game: i8,
}

impl SharedData {
    pub fn new() -> (data: SharedData)
        ensures
            data == (SharedData {
                p1_score: 0,
                p1_side: 0,
                p2_score: 0,
                p2_side: 0,
                zbee_held: -1i8,
                state_of_game: 0,
            }),
    {
        SharedData {
            p1_score: 0,
            p1_side: 0,
            p2_score: 0,
            p2_side: 0,
            zbee_held: -1,
            state_of_game: 0,
        }
    }

    pub fn state_from_i8(state: i8) -> (res: StateOfGame)
        ensures
            res == state_of_code(state as int),
    {
        state_from_i8(state)
    }

    /// The engine that takes up the match these numbers describe: the first
    /// player on the left and the second on the right, whatever the numbers
    /// say of the sides, with the scores, the holder and the phase as given.
    /// Slides, the last holder and all that belongs to the agents stay as the
    /// engine had them.
    pub open spec fn taken_up(self, engine: GameEngine) -> GameEngine {
        GameEngine {
            players: (
                Player {
                    side: Some(PlayerSide::Left),
                    score: self.p1_score,
                    ..engine.players.0
                },
                Player {
                    side: Some(PlayerSide::Right),
                    score: self.p2_score,
                    ..engine.players.1
                },
            ),
            frisbee: Frisbee {
                held_by_player: side_of_code(self.zbee_held as int),
                ..engine.frisbee
            },
            state_of_game: state_of_code(self.state_of_game as int),
            ..engine
        }
    }

    pub fn to_game_engine(self, engine: &mut GameEngine)
        ensures
            *final(engine) == self.taken_up(*old(engine)),
    {
        engine.players.0.score = self.p1_score;
        engine.players.0.side = Some(PlayerSide::Left);

        engine.players.1.score = self.p2_score;
        engine.players.1.side = Some(PlayerSide::Right);

        engine.frisbee.held_by_player = player_side_from_i8(self.zbee_held);

        engine.state_of_game = Self::state_from_i8(self.state_of_game);
    }
}

impl GameEngine {
    /// The match in numbers.
    pub open spec fn shared(self) -> SharedData {
        SharedData {
            p1_score: self.players.0.score,
            p1_side: 0,
            p2_score: self.players.1.score,
            p2_side: 1,
            zbee_held: side_code(self.frisbee.held_by_player) as i8,
            state_of_game: state_code(self.state_of_game) as i8,
        }
    }

    pub fn to_shared_data(&self, shared: &mut SharedData)
        ensures
            *final(shared) == self.shared(),
    {
        shared.p1_score = self.players.0.score;
        shared.p1_side = 0;

        shared.p2_score = self.players.1.score;
        shared.p2_side = 1;

        shared.zbee_held = player_side_to_i8(self.frisbee.held_by_player);

        shared.state_of_game = state_to_i8(&self.state_of_game);
    }

    pub fn get_state(&self) -> (data: SharedData)
        ensures
            data == self.shared(),
    {
        let mut data = SharedData::new();
        self.to_shared_data(&mut data);
        data
    }
}

/// An engine whose players stand on their own sides takes its own numbers up
/// without any change.
pub proof fn lemma_shared_round_trip(engine: GameEngine)
    requires
        engine.players.0.side == Some(PlayerSide::Left),
        engine.players.1.side == Some(PlayerSide::Right),
    ensures
        engine.shared().taken_up(engine) == engine,
{
}

} // verus!
