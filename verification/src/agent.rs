//! What an agent can ask for, and the agents that need no look ahead.

use crate::direction::Direction;
use crate::frisbee::{random_throw_direction, throw_of_draw, ThrowDirection};
use crate::game_engine::GameEngine;
use crate::player::PlayerSide;
use crate::random::random_range;
use crate::search::{candidate_intents, options};
use vstd::prelude::*;

pub use crate::qlearning::{
    human_intent_from_index, human_intent_to_index, TabularQLearningAgent, QVALUES_ACTIONS,
};
pub use crate::search::{get_best, DijkstraAgent, Node};

verus! {

/// The kinds of agent that can drive a side. `Unknown` stands for a selector
/// that names no agent.
#[derive(Clone, Copy, Debug, PartialEq, Eq, Structural)]
pub enum AgentType {
    HumanPlayer,
    Random,
    RandomRollout,
    Dijkstra,
    TabularQLearning,
    Unknown,
}

/// The agent that a selector number names: 0 to 4 in the order of the
/// variants, every other number names none.
pub open spec fn agent_of_code(code: int) -> AgentType {
    if code == 0 {
        AgentType::HumanPlayer
    } else if code == 1 {
        AgentType::Random
    } else if code == 2 {
        AgentType::RandomRollout
    } else if code == 3 {
        AgentType::Dijkstra
    } else if code == 4 {
        AgentType::TabularQLearning
    } else {
        AgentType::Unknown
    }
}

/// The selector number of an agent type, 5 for `Unknown`.
pub open spec fn agent_code(agent: AgentType) -> int {
    match agent {
        AgentType::HumanPlayer => 0,
        AgentType::Random => 1,
        AgentType::RandomRollout => 2,
        AgentType::Dijkstra => 3,
        AgentType::TabularQLearning => 4,
        AgentType::Unknown => 5,
    }
}

pub fn agent_type_from_i8(side: i8) -> (agent: AgentType)
    ensures
        agent == agent_of_code(side as int),
{
    match side {
        0 => AgentType::HumanPlayer,
        1 => AgentType::Random,
        2 => AgentType::RandomRollout,
        3 => AgentType::Dijkstra,
        4 => AgentType::TabularQLearning,
        _ => AgentType::Unknown,
    }
}

pub fn agent_type_to_i8(agent: AgentType) -> (code: i8)
    ensures
        code == agent_code(agent),
{
    match agent {
        AgentType::HumanPlayer => 0,
        AgentType::Random => 1,
        AgentType::RandomRollout => 2,
        AgentType::Dijkstra => 3,
        AgentType::TabularQLearning => 4,
        AgentType::Unknown => 5,
    }
}

/// A selector number read back from an agent type names that type again.
pub proof fn lemma_agent_code_round_trip(agent: AgentType)
    ensures
        agent_of_code(agent_code(agent)) == agent,
{
}

/// What one side asks for on one tick.
#[derive(Clone, Copy, Debug, PartialEq, Eq, Structural)]
pub enum Intent {
    /// Nothing.
    Idle,
    /// One step along a heading.
    Move(Direction),
    /// A slide along a heading.
    Dash(Direction),
    /// A throw of the disc.
    Throw(ThrowDirection),
}

/// What became of an intent once the rules had their say.
#[derive(Clone, Copy, Debug, PartialEq, Eq, Structural)]
pub enum ActionResult {
    Nothing,
    Moved,
    Dashed,
    GrabbedFrisbee,
    Threw,
}

/// No key at all.
pub const IDLE: u8 = 0;

/// The bit of the up arrow.
pub const UP: u8 = 1;

/// The bit of the down arrow.
pub const DOWN: u8 = 2;

/// The bit of the left arrow.
pub const LEFT: u8 = 4;

/// The bit of the right arrow.
pub const RIGHT: u8 = 8;

/// The bit of the throw key.
pub const THROW: u8 = 16;

/// The keys a human holds down on one tick, one bit per key.
#[derive(Clone, Copy, Debug, PartialEq, Eq, Structural)]
pub struct HumanIntent {
    pub bits: u8,
}

impl HumanIntent {
    pub fn from_bits(bits: u8) -> (input: HumanIntent)
        ensures
            input.bits == bits,
    {
        HumanIntent { bits }
    }

    pub fn idle() -> (input: HumanIntent)
        ensures
            input.bits == IDLE,
    {
        HumanIntent { bits: IDLE }
    }

    pub fn bits(&self) -> (bits: u8)
        ensures
            bits == self.bits,
    {
        self.bits
    }

    /// Whether every key of `keys` is held.
    pub open spec fn has(self, keys: u8) -> bool {
        self.bits & keys == keys
    }

    pub fn contains(&self, keys: u8) -> (held: bool)
        ensures
            held == self.has(keys),
    {
        self.bits & keys == keys
    }
}

/// The heading that the four arrow keys spell: right beats left and down
/// beats up where both of a pair are held.
pub open spec fn human_direction(input: HumanIntent) -> Direction {
    Direction::at(
        if input.has(RIGHT) {
            1
        } else if input.has(LEFT) {
            -1
        } else {
            0
        },
        if input.has(DOWN) {
            -1
        } else if input.has(UP) {
            1
        } else {
            0
        },
    )
}

/// Whether the key that points to the far half of the court is held.
pub open spec fn leans_forward(input: HumanIntent, side: PlayerSide) -> bool {
    (input.has(RIGHT) && side == PlayerSide::Left) || (input.has(LEFT) && side
        == PlayerSide::Right)
}

/// The throw that the arrow keys select: level without up or down, steep
/// with one of them, light where the player also leans forward. Up beats
/// down.
pub open spec fn human_throw(input: HumanIntent, side: PlayerSide) -> ThrowDirection {
    if input.has(UP) {
        if leans_forward(input, side) {
            ThrowDirection::LightUp
        } else {
            ThrowDirection::Up
        }
    } else if input.has(DOWN) {
        if leans_forward(input, side) {
            ThrowDirection::LightDown
        } else {
            ThrowDirection::Down
        }
    } else {
        ThrowDirection::Middle
    }
}

/// The intent that a set of held keys stands for. With the throw key the
/// holder of the disc throws and everybody else dashes; without it the arrow
/// keys move the player, and no arrow key means no intent.
pub open spec fn human_intent(input: HumanIntent, side: PlayerSide, has_frisbee: bool) -> Intent {
    if input.has(THROW) {
        if has_frisbee {
            Intent::Throw(human_throw(input, side))
        } else {
            Intent::Dash(human_direction(input))
        }
    } else if human_direction(input).is_zero() {
        Intent::Idle
    } else {
        Intent::Move(human_direction(input))
    }
}

/// The keys that the side's human holds, as the engine recorded them.
pub open spec fn input_of(engine: GameEngine, side: PlayerSide) -> HumanIntent {
    match side {
        PlayerSide::Left => engine.inputs.0,
        PlayerSide::Right => engine.inputs.1,
    }
}

/// An agent that does what the keys say.
#[derive(Clone, Copy, Debug)]
pub struct HumanPlayerAgent {}

impl HumanPlayerAgent {
    pub fn get_type(&self) -> (agent: AgentType)
        ensures
            agent == AgentType::HumanPlayer,
    {
        AgentType::HumanPlayer
    }

    pub fn act(&mut self, side: PlayerSide, engine: &GameEngine) -> (intent: Intent)
        ensures
            intent == human_intent(input_of(*engine, side), side, engine.in_hands(side)),
    {
        let input = match side {
            PlayerSide::Left => engine.inputs.0,
            PlayerSide::Right => engine.inputs.1,
        };
        let has_frisbee = engine.frisbee.held_by_player == Some(side);

        let mut dir = Direction::zero();
        if input.contains(UP) {
            dir.y = 1;
        }
        if input.contains(DOWN) {
            dir.y = -1;
        }
        if input.contains(LEFT) {
            dir.x = -1;
        }
        if input.contains(RIGHT) {
            dir.x = 1;
        }

        if input.contains(THROW) {
            if has_frisbee {
                let forward = (input.contains(RIGHT) && side == PlayerSide::Left) || (
                input.contains(LEFT) && side == PlayerSide::Right);
                let mut throw_dir = ThrowDirection::Middle;
                if input.contains(UP) {
                    if forward {
                        throw_dir = ThrowDirection::LightUp;
                    } else {
                        throw_dir = ThrowDirection::Up;
                    }
                } else if input.contains(DOWN) {
                    if forward {
                        throw_dir = ThrowDirection::LightDown;
                    } else {
                        throw_dir = ThrowDirection::Down;
                    }
                }
                Intent::Throw(throw_dir)
            } else {
                Intent::Dash(dir)
            }
        } else {
            if dir.is_zero() {
                Intent::Idle
            } else {
                Intent::Move(dir)
            }
        }
    }
}

/// How far a random heading reaches along each axis: its components are
/// drawn from `-RANDOM_REACH` up to, and without, `RANDOM_REACH`.
pub const RANDOM_REACH: i32 = 1000000;

/// The intent of the random agent for a roll from 0 to 99. With the disc in
/// hand it throws on a roll under 25 and waits otherwise; without it, it
/// steps on a roll under 50, dashes on a roll from 50 to 59, and waits
/// otherwise.
pub open spec fn random_intent(holding: bool, roll: int, dir: Direction, throw: ThrowDirection) -> Intent {
    if holding {
        if roll < 25 {
            Intent::Throw(throw)
        } else {
            Intent::Idle
        }
    } else if roll < 50 {
        Intent::Move(dir)
    } else if roll < 60 {
        Intent::Dash(dir)
    } else {
        Intent::Idle
    }
}

/// Whether a heading is one that the random agent can draw.
pub open spec fn within_reach(dir: Direction) -> bool {
    -RANDOM_REACH <= dir.x < RANDOM_REACH && -RANDOM_REACH <= dir.y < RANDOM_REACH
}

/// An agent that rolls dice.
#[derive(Clone, Copy, Debug)]
pub struct RandomAgent {}

impl RandomAgent {
    pub fn get_type(&self) -> (agent: AgentType)
        ensures
            agent == AgentType::Random,
    {
        AgentType::Random
    }

    /// Draws a heading, each component on its own.
    pub fn get_random_direction(&self) -> (dir: Direction)
        ensures
            within_reach(dir),
    {
        let x: i32 = random_range(-RANDOM_REACH, RANDOM_REACH);
        let y: i32 = random_range(-RANDOM_REACH, RANDOM_REACH);
        Direction { x, y }
    }

    /// The agent's intent for dice that the caller rolled.
    pub fn act_with(
        &self,
        side: PlayerSide,
        engine: &GameEngine,
        roll: i32,
        dir: Direction,
        throw: ThrowDirection,
    ) -> (intent: Intent)
        ensures
            intent == random_intent(
                engine.in_hands(side),
                roll as int,
                dir,
                throw,
            ),
    {
        if engine.frisbee.held_by_player == Some(side) {
            if roll < 25 {
                return Intent::Throw(throw);
            }
        } else {
            if roll < 50 {
                return Intent::Move(dir);
            } else if roll < 60 {
                return Intent::Dash(dir);
            }
        }
        Intent::Idle
    }

    /// Rolls and acts. Whatever the dice show, the intent is the one that
    /// `random_intent` gives for a roll from 0 to 99, a heading within reach
    /// and one of the five throws.
    pub fn act(&mut self, side: PlayerSide, engine: &GameEngine) -> (intent: Intent)
        ensures
            exists|roll: int, dir: Direction, drawn: int|
                0 <= roll < 100 && within_reach(dir) && 0 <= drawn < 5 && intent
                    == #[trigger] random_intent(
                    engine.in_hands(side),
                    roll,
                    dir,
                    throw_of_draw(drawn),
                ),
    {
        let holding = engine.frisbee.held_by_player == Some(side);
        let roll: i32 = random_range(0, 100);
        let mut dir = Direction { x: 0, y: 0 };
        let mut throw = ThrowDirection::Up;
        let ghost mut drawn: int = 0;
        if holding {
            if roll < 25 {
                throw = random_throw_direction();
                proof {
                    drawn = choose|d: int| 0 <= d < 5 && throw == throw_of_draw(d);
                }
            }
        } else if roll < 60 {
            dir = self.get_random_direction();
        }
        let intent = self.act_with(side, engine, roll, dir, throw);
        assert(intent == random_intent(holding, roll as int, dir, throw_of_draw(drawn)));
        intent
    }
}

/// The tries of `rounds` rounds: the same intents over and over, in their
/// order.
pub open spec fn repeated(intents: Seq<Intent>, rounds: int) -> Seq<Intent>
    decreases rounds,
{
    if rounds <= 0 {
        Seq::empty()
    } else {
        repeated(intents, rounds - 1) + intents
    }
}

/// Whether the outcome with the number `k` is the one a roll-out settles on:
/// it scores above zero, nothing scores higher, and nothing before it scores
/// as high.
pub open spec fn first_best(outcomes: Seq<(i8, Intent)>, k: int) -> bool {
    &&& 0 <= k < outcomes.len()
    &&& outcomes[k].0 > 0
    &&& forall|j: int| 0 <= j < outcomes.len() ==> (#[trigger] outcomes[j]).0 <= outcomes[k].0
    &&& forall|j: int| 0 <= j < k ==> (#[trigger] outcomes[j]).0 < outcomes[k].0
}

/// An agent that plays every intent worth trying to the end of the rally, a
/// number of times over, and keeps the one that scored best. `frames` is how
/// many ticks a try is played on for, `sim` how many rounds of tries are
/// made.
#[derive(Clone, Copy, Debug)]
pub struct RandomRolloutAgent {
    pub frames: i16,
    pub sim: i8,
}

impl RandomRolloutAgent {
    pub fn get_type(&self) -> (agent: AgentType)
        ensures
            agent == AgentType::RandomRollout,
    {
        AgentType::RandomRollout
    }

    /// Lists the tries to play, in order: the intents worth trying for the
    /// side, once for each round.
    pub fn tries(&self, side: PlayerSide, engine: &GameEngine) -> (list: Vec<Intent>)
        ensures
            list@ == repeated(options(*engine, side), self.sim as int),
    {
        let intents = candidate_intents(engine, side);
        let mut list: Vec<Intent> = Vec::new();
        let mut round: i8 = 0;
        while round < self.sim
            invariant
                0 <= round,
                round <= self.sim || round == 0,
                intents@ == options(*engine, side),
                list@ == repeated(intents@, round as int),
            decreases self.sim - round,
        {
            let mut j: usize = 0;
            while j < intents.len()
                invariant
                    j <= intents.len(),
                    list@ == repeated(intents@, round as int) + intents@.take(j as int),
                decreases intents.len() - j,
            {
                list.push(intents[j]);
                assert(intents@.take(j + 1) =~= intents@.take(j as int).push(intents@[j as int]));
                j = j + 1;
            }
            assert(intents@.take(intents.len() as int) =~= intents@);
            round = round + 1;
        }
        proof {
            if self.sim < 0 {
                assert(repeated(intents@, self.sim as int) =~= repeated(intents@, 0));
            }
        }
        list
    }

    /// Settles on an intent once every try has been played: `outcomes` holds,
    /// for each try in order, the side's score at its end and the intent that
    /// began it. The first try with the highest score wins, if that score is
    /// above zero; otherwise the agent does nothing.
    pub fn settle_on(&self, outcomes: &Vec<(i8, Intent)>) -> (intent: Intent)
        ensures
            (forall|j: int| 0 <= j < outcomes.len() ==> (#[trigger] outcomes[j]).0 <= 0) ==> intent
                == Intent::Idle,
            forall|k: int| first_best(outcomes@, k) ==> intent == outcomes[k].1,
    {
        let mut prev: (i8, Intent) = (0, Intent::Idle);
        let ghost mut at: int = -1;
        let mut i: usize = 0;
        while i < outcomes.len()
            invariant
                i <= outcomes.len(),
                -1 <= at < i,
                at == -1 ==> prev == (0i8, Intent::Idle) && forall|j: int|
                    0 <= j < i ==> (#[trigger] outcomes[j]).0 <= 0,
                at >= 0 ==> prev == outcomes[at] && prev.0 > 0 && (forall|j: int|
                    0 <= j < i ==> (#[trigger] outcomes[j]).0 <= prev.0) && (forall|j: int|
                    0 <= j < at ==> (#[trigger] outcomes[j]).0 < prev.0),
            decreases outcomes.len() - i,
        {
            let test = outcomes[i];
            if prev.0 < test.0 {
                prev = test;
                proof {
                    at = i as int;
                }
            }
            i = i + 1;
        }
        proof {
            assert forall|k: int| first_best(outcomes@, k) implies prev.1 == outcomes[k].1 by {
                if at == -1 {
                    assert(outcomes[k].0 <= 0);
                } else if k < at {
                    assert(outcomes[at].0 <= outcomes[k].0);
                } else if at < k {
                    assert(outcomes[at].0 < outcomes[k].0);
                }
            }
        }
        prev.1
    }
}

} // verus!
