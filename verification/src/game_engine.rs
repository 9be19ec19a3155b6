//! The state of a match and the rules that move it from tick to tick.

use crate::agent::{
    agent_of_code, agent_type_from_i8, ActionResult, AgentType, HumanIntent, Intent, IDLE,
};
use crate::collision::{
    frisbee_collision_goal, goal_points, player_collides_with_frisbee, score_of, threw_last,
    touches, with_points, GoalError,
};
use crate::direction::Direction;
use crate::frisbee::{Frisbee, ThrowDirection};
use crate::player::{Player, PlayerSide};
use crate::random::random_range;
use vstd::prelude::*;

verus! {

/// The score at which a match ends.
pub const MAX_ROUND_POINTS: i8 = 30;

/// The phase of a round.
#[derive(Clone, Copy, Debug, PartialEq, Eq, Structural)]
pub enum StateOfGame {
    Start,
    Playing,
    End,
}

/// The number that stands for a phase at the boundary.
pub open spec fn state_code(state: StateOfGame) -> int {
    match state {
        StateOfGame::Start => 0,
        StateOfGame::Playing => 1,
        StateOfGame::End => 2,
    }
}

/// The phase a boundary number stands for; every number but 0 and 1 stands
/// for `End`.
pub open spec fn state_of_code(code: int) -> StateOfGame {
    if code == 0 {
        StateOfGame::Start
    } else if code == 1 {
        StateOfGame::Playing
    } else {
        StateOfGame::End
    }
}

pub fn state_to_i8(state: &StateOfGame) -> (code: i8)
    ensures
        code == state_code(*state),
{
    match state {
        StateOfGame::Start => 0,
        StateOfGame::Playing => 1,
        StateOfGame::End => 2,
    }
}

pub fn state_from_i8(state: i8) -> (res: StateOfGame)
    ensures
        res == state_of_code(state as int),
{
    match state {
        0 => StateOfGame::Start,
        1 => StateOfGame::Playing,
        _ => StateOfGame::End,
    }
}

/// Turning a phase into its number and back gives the phase again.
pub proof fn lemma_state_code_round_trip(state: StateOfGame)
    ensures
        state_of_code(state_code(state)) == state,
{
}

/// Everything about a match that the rules decide.
#[derive(Clone, Copy, Debug, PartialEq, Eq)]
pub struct GameEngine {
    pub players: (Player, Player),
    pub agents: (AgentType, AgentType),
    pub frisbee: Frisbee,
    pub state_of_game: StateOfGame,
    pub inputs: (HumanIntent, HumanIntent),
    pub rewards: (i32, i32),
    pub q_scored: bool,
}

/// Why an agent could not be installed.
#[derive(Clone, Copy, Debug, PartialEq, Eq, Structural)]
pub enum ConfigError {
    /// The selector number names no agent.
    UnknownAgent,
}

/// How a tick opens.
#[derive(Clone, Copy, Debug, PartialEq, Eq, Structural)]
pub enum StepStart {
    /// The match is over; nothing moves any more.
    Ended,
    /// The serve delay has run out: the disc leaves its mark towards the
    /// hands of the named side, at serving speed.
    Serve(PlayerSide),
    /// The round goes on as it stands.
    Continue,
}

/// What a body does on the court after its intent has been judged.
#[derive(Clone, Copy, Debug, PartialEq, Eq, Structural)]
pub enum Motion {
    /// Nothing moves.
    Stay,
    /// The player takes one step along the heading.
    Step(Direction),
    /// The player begins a slide along the heading, from where it stands.
    Slide(Direction),
    /// The disc leaves the player's hands along the throw's vector, at
    /// throwing speed.
    Release(ThrowDirection),
}

/// How the disc travels on a tick.
#[derive(Clone, Copy, Debug, PartialEq, Eq, Structural)]
pub enum DiscMotion {
    /// It goes where the hands of the named side go.
    Carried(PlayerSide),
    /// It flies on along its direction.
    Fly,
    /// It lies still.
    Rest,
}

/// Whether the player has the disc in its hands.
pub open spec fn holds_disc(player: Player, frisbee: Frisbee) -> bool {
    frisbee.held_by_player is Some && frisbee.held_by_player == player.side
}

/// The judgement of one intent: the player and the disc afterwards, what the
/// intent came to, and what the court has to move.
///
/// A step needs a round in play, a player that neither slides nor holds the
/// disc. A dash needs a round in play; it starts a slide unless one is under
/// way. A throw needs the disc in the player's hands, in any phase; it makes
/// the thrower the last holder and frees the disc. Everything else comes to
/// nothing.
pub open spec fn judged(player: Player, frisbee: Frisbee, intent: Intent, state: StateOfGame) -> (
    Player,
    Frisbee,
    ActionResult,
    Motion,
) {
    match intent {
        Intent::Idle => (player, frisbee, ActionResult::Nothing, Motion::Stay),
        Intent::Move(dir) => if state == StateOfGame::Playing && !player.sliding && !holds_disc(
            player,
            frisbee,
        ) {
            (player, frisbee, ActionResult::Moved, Motion::Step(dir))
        } else {
            (player, frisbee, ActionResult::Nothing, Motion::Stay)
        },
        Intent::Dash(dir) => if state == StateOfGame::Playing {
            (
                Player { sliding: true, ..player },
                frisbee,
                ActionResult::Dashed,
                if player.sliding {
                    Motion::Stay
                } else {
                    Motion::Slide(dir)
                },
            )
        } else {
            (player, frisbee, ActionResult::Nothing, Motion::Stay)
        },
        Intent::Throw(throw) => if holds_disc(player, frisbee) {
            (
                player,
                Frisbee { held_by_player: None, last_held: frisbee.held_by_player },
                ActionResult::Threw,
                Motion::Release(throw),
            )
        } else {
            (player, frisbee, ActionResult::Nothing, Motion::Stay)
        },
    }
}

/// Judges one intent of one player.
pub fn apply_action(
    player: &mut Player,
    frisbee: &mut Frisbee,
    intent: &Intent,
    state_of_game: &StateOfGame,
) -> (out: (ActionResult, Motion))
    ensures
        (*final(player), *final(frisbee), out.0, out.1) == judged(
            *old(player),
            *old(frisbee),
            *intent,
            *state_of_game,
        ),
{
    let playing = *state_of_game == StateOfGame::Playing;
    let holding = match frisbee.held_by_player {
        Some(held_by) => player.side == Some(held_by),
        None => false,
    };
    match intent {
        Intent::Idle => (ActionResult::Nothing, Motion::Stay),
        Intent::Move(dir) => {
            if playing && !player.sliding && !holding {
                (ActionResult::Moved, Motion::Step(*dir))
            } else {
                (ActionResult::Nothing, Motion::Stay)
            }
        },
        Intent::Dash(dir) => {
            if playing {
                let began = player.dash();
                if began {
                    (ActionResult::Dashed, Motion::Slide(*dir))
                } else {
                    (ActionResult::Dashed, Motion::Stay)
                }
            } else {
                (ActionResult::Nothing, Motion::Stay)
            }
        },
        Intent::Throw(throw) => {
            if holding {
                frisbee.last_held = frisbee.held_by_player;
                frisbee.held_by_player = None;
                (ActionResult::Threw, Motion::Release(*throw))
            } else {
                (ActionResult::Nothing, Motion::Stay)
            }
        },
    }
}

/// Whether a contact puts the disc into the player's hands: only while the
/// round is in play, only a free disc, and never back to the side that held it
/// last.
pub open spec fn grabs(player: Player, frisbee: Frisbee, state: StateOfGame, overlapping: bool) -> bool {
    state == StateOfGame::Playing && frisbee.held_by_player is None && touches(
        player,
        frisbee,
        overlapping,
    )
}

/// Lets the player pick the disc up if the rules allow it.
pub fn grab_frisbee(
    player: &Player,
    frisbee: &mut Frisbee,
    state_of_game: &StateOfGame,
    overlapping: bool,
) -> (grabbed: bool)
    ensures
        grabbed == grabs(*player, *old(frisbee), *state_of_game, overlapping),
        grabbed ==> *final(frisbee) == (Frisbee { held_by_player: player.side, ..*old(frisbee) }),
        !grabbed ==> *final(frisbee) == *old(frisbee),
{
    if *state_of_game == StateOfGame::Playing {
        match frisbee.held_by_player {
            None => {
                if player_collides_with_frisbee(player, frisbee, overlapping) {
                    frisbee.held_by_player = player.side;
                    return true;
                }
            },
            Some(_) => {},
        }
    }
    false
}

/// The reward that a learning agent earns for what its intent came to: time
/// costs one, a dash costs five, holding or throwing the disc costs nothing.
pub open spec fn action_reward(result: ActionResult) -> int {
    match result {
        ActionResult::Nothing => -1,
        ActionResult::Moved => -1,
        ActionResult::Dashed => -5,
        ActionResult::GrabbedFrisbee => 0,
        ActionResult::Threw => 0,
    }
}

/// The reward of a learning agent that lets a goal in.
pub const CONCEDED_GOAL_REWARD: i32 = -100;

/// Writes the reward for one action. The answer is true after a throw, which
/// closes a stretch of play for the learner.
pub fn apply_action_rewards_to_q_agent(action_result: ActionResult, reward: &mut i32) -> (done: bool)
    ensures
        *final(reward) == action_reward(action_result),
        done == (action_result == ActionResult::Threw),
{
    match action_result {
        ActionResult::Nothing => {
            *reward = -1;
        },
        ActionResult::Moved => {
            *reward = -1;
        },
        ActionResult::Dashed => {
            *reward = -5;
        },
        ActionResult::GrabbedFrisbee => {
            *reward = 0;
        },
        ActionResult::Threw => {
            *reward = 0;
            return true;
        },
    }
    false
}

/// The pending rewards after a goal by `scorer`: a learning agent on the other
/// side is charged for it, nobody else's reward changes.
pub open spec fn goal_rewards(rewards: (i32, i32), agents: (AgentType, AgentType), scorer: PlayerSide) -> (
    i32,
    i32,
) {
    match scorer {
        PlayerSide::Left => if agents.1 == AgentType::TabularQLearning {
            (rewards.0, CONCEDED_GOAL_REWARD)
        } else {
            rewards
        },
        PlayerSide::Right => if agents.0 == AgentType::TabularQLearning {
            (CONCEDED_GOAL_REWARD, rewards.1)
        } else {
            rewards
        },
    }
}

impl GameEngine {
    /// The player on a side.
    pub open spec fn player(self, side: PlayerSide) -> Player {
        match side {
            PlayerSide::Left => self.players.0,
            PlayerSide::Right => self.players.1,
        }
    }

    /// The engine with another player on a side.
    pub open spec fn with_player(self, side: PlayerSide, player: Player) -> GameEngine {
        match side {
            PlayerSide::Left => GameEngine { players: (player, self.players.1), ..self },
            PlayerSide::Right => GameEngine { players: (self.players.0, player), ..self },
        }
    }

    /// Whether the disc is in the hands of a side.
    pub open spec fn in_hands(self, side: PlayerSide) -> bool {
        self.frisbee.held_by_player == Some(side)
    }

    /// The kind of agent on a side.
    pub open spec fn agent(self, side: PlayerSide) -> AgentType {
        match side {
            PlayerSide::Left => self.agents.0,
            PlayerSide::Right => self.agents.1,
        }
    }

    /// The engine with another pending reward on a side.
    pub open spec fn with_reward(self, side: PlayerSide, reward: int) -> GameEngine {
        match side {
            PlayerSide::Left => GameEngine { rewards: (reward as i32, self.rewards.1), ..self },
            PlayerSide::Right => GameEngine { rewards: (self.rewards.0, reward as i32), ..self },
        }
    }

    /// An engine before any match: no sides, no agents, nothing held.
    pub open spec fn fresh() -> GameEngine {
        GameEngine {
            players: (
                Player { side: None, score: 0, sliding: false },
                Player { side: None, score: 0, sliding: false },
            ),
            agents: (AgentType::Unknown, AgentType::Unknown),
            frisbee: Frisbee { held_by_player: None, last_held: None },
            state_of_game: StateOfGame::Start,
            inputs: (HumanIntent { bits: IDLE }, HumanIntent { bits: IDLE }),
            rewards: (0, 0),
            q_scored: false,
        }
    }

    pub fn new() -> (engine: GameEngine)
        ensures
            engine == GameEngine::fresh(),
    {
        GameEngine {
            players: (Player::new(), Player::new()),
            agents: (AgentType::Unknown, AgentType::Unknown),
            frisbee: Frisbee::new(),
            state_of_game: StateOfGame::Start,
            inputs: (HumanIntent { bits: IDLE }, HumanIntent { bits: IDLE }),
            rewards: (0, 0),
            q_scored: false,
        }
    }

    /// The engine at the start of a match: the sides taken, the scores at
    /// zero, the disc free and never held, the round waiting for its serve,
    /// no keys held, no reward pending. The agents stay, and so does a slide
    /// that is under way.
    pub open spec fn restarted(self) -> GameEngine {
        GameEngine {
            players: (
                Player { side: Some(PlayerSide::Left), score: 0, ..self.players.0 },
                Player { side: Some(PlayerSide::Right), score: 0, ..self.players.1 },
            ),
            frisbee: Frisbee { held_by_player: None, last_held: None },
            state_of_game: StateOfGame::Start,
            inputs: (HumanIntent { bits: IDLE }, HumanIntent { bits: IDLE }),
            rewards: (0, 0),
            q_scored: false,
            ..self
        }
    }

    pub fn reset(&mut self)
        ensures
            *final(self) == old(self).restarted(),
    {
        self.players.0.score = 0;
        self.players.0.side = Some(PlayerSide::Left);

        self.players.1.score = 0;
        self.players.1.side = Some(PlayerSide::Right);

        self.frisbee.last_held = None;
        self.frisbee.held_by_player = None;

        self.state_of_game = StateOfGame::Start;

        self.inputs = (HumanIntent { bits: IDLE }, HumanIntent { bits: IDLE });
        self.rewards = (0, 0);
        self.q_scored = false;
    }

    /// Copies the match into another engine so that it can be played ahead
    /// there: players, disc, keys and phase. The copy is driven by random
    /// agents on both sides, and keeps the rewards it had.
    pub fn copy_in(&self, new_game_engine: &mut GameEngine)
        ensures
            *final(new_game_engine) == (GameEngine {
                players: self.players,
                agents: (AgentType::Random, AgentType::Random),
                frisbee: self.frisbee,
                inputs: self.inputs,
                state_of_game: self.state_of_game,
                ..*old(new_game_engine)
            }),
    {
        new_game_engine.players = self.players;
        new_game_engine.agents = (AgentType::Random, AgentType::Random);
        new_game_engine.frisbee = self.frisbee;
        new_game_engine.inputs = self.inputs;
        new_game_engine.state_of_game = self.state_of_game;
    }

    /// Installs the agent that a selector number names on the left side. A
    /// number that names none is an error and changes nothing.
    pub fn send_type_p1(&mut self, agent_type: i8) -> (res: Result<AgentType, ConfigError>)
        ensures
            res is Err <==> agent_of_code(agent_type as int) == AgentType::Unknown,
            res is Err ==> *final(self) == *old(self),
            res is Ok ==> res->Ok_0 == agent_of_code(agent_type as int) && *final(self) == (
            GameEngine { agents: (res->Ok_0, old(self).agents.1), ..*old(self) }),
    {
        let t = agent_type_from_i8(agent_type);
        if t == AgentType::Unknown {
            return Err(ConfigError::UnknownAgent);
        }
        self.agents.0 = t;
        Ok(t)
    }

    /// Installs the agent that a selector number names on the right side. A
    /// number that names none is an error and changes nothing.
    pub fn send_type_p2(&mut self, agent_type: i8) -> (res: Result<AgentType, ConfigError>)
        ensures
            res is Err <==> agent_of_code(agent_type as int) == AgentType::Unknown,
            res is Err ==> *final(self) == *old(self),
            res is Ok ==> res->Ok_0 == agent_of_code(agent_type as int) && *final(self) == (
            GameEngine { agents: (old(self).agents.0, res->Ok_0), ..*old(self) }),
    {
        let t = agent_type_from_i8(agent_type);
        if t == AgentType::Unknown {
            return Err(ConfigError::UnknownAgent);
        }
        self.agents.1 = t;
        Ok(t)
    }

    /// The keys that count on a tick: those of a side driven by a human, and
    /// none for any other side.
    pub open spec fn heard(self, p1_h_action: HumanIntent, p2_h_action: HumanIntent) -> (
        HumanIntent,
        HumanIntent,
    ) {
        (
            if self.agents.0 == AgentType::HumanPlayer {
                p1_h_action
            } else {
                HumanIntent { bits: IDLE }
            },
            if self.agents.1 == AgentType::HumanPlayer {
                p2_h_action
            } else {
                HumanIntent { bits: IDLE }
            },
        )
    }

    /// Opens a tick by recording the keys the two humans hold.
    pub fn receive_inputs(&mut self, p1_h_action: HumanIntent, p2_h_action: HumanIntent)
        ensures
            *final(self) == (GameEngine {
                inputs: old(self).heard(p1_h_action, p2_h_action),
                ..*old(self)
            }),
    {
        let input1 = match self.agents.0 {
            AgentType::HumanPlayer => p1_h_action,
            _ => HumanIntent { bits: IDLE },
        };
        let input2 = match self.agents.1 {
            AgentType::HumanPlayer => p2_h_action,
            _ => HumanIntent { bits: IDLE },
        };
        self.inputs = (input1, input2);
    }

    /// Whether the match is over: a score has reached the limit, the clock has
    /// run out (`time_up`), or the match had ended before.
    pub open spec fn over(self, time_up: bool) -> bool {
        self.players.0.score >= MAX_ROUND_POINTS || self.players.1.score >= MAX_ROUND_POINTS
            || time_up || self.state_of_game == StateOfGame::End
    }

    /// The side that receives a serve: the one across from the last holder,
    /// and where nobody has held the disc yet, the left side on heads and the
    /// right side on tails.
    pub open spec fn receiver(self, heads: bool) -> PlayerSide {
        match self.frisbee.last_held {
            Some(last_held) => last_held.other(),
            None => if heads {
                PlayerSide::Left
            } else {
                PlayerSide::Right
            },
        }
    }

    /// How a tick opens. The clock is the court's: it says whether the match
    /// time has run out (`time_up`) and whether the serve delay has
    /// (`serve_due`). `heads` is the toss that picks the receiver of a first
    /// serve.
    ///
    /// A match that is over is, and stays, in `End`. A round that waits, once
    /// its delay has run out, goes into play with a serve to `receiver`, and
    /// the side across from the receiver counts as the last holder from then
    /// on. Otherwise nothing changes.
    pub open spec fn opened(self, time_up: bool, serve_due: bool, heads: bool) -> (
        GameEngine,
        StepStart,
    ) {
        if self.over(time_up) {
            (GameEngine { state_of_game: StateOfGame::End, ..self }, StepStart::Ended)
        } else if self.state_of_game == StateOfGame::Start && serve_due {
            (
                GameEngine {
                    state_of_game: StateOfGame::Playing,
                    frisbee: Frisbee {
                        last_held: Some(self.receiver(heads).other()),
                        ..self.frisbee
                    },
                    ..self
                },
                StepStart::Serve(self.receiver(heads)),
            )
        } else {
            (self, StepStart::Continue)
        }
    }

    /// Opens a tick with a toss that the caller made.
    pub fn begin_step_with(&mut self, time_up: bool, serve_due: bool, heads: bool) -> (start:
        StepStart)
        ensures
            (*final(self), start) == old(self).opened(time_up, serve_due, heads),
    {
        if self.players.0.score >= MAX_ROUND_POINTS || self.players.1.score >= MAX_ROUND_POINTS
            || time_up {
            self.state_of_game = StateOfGame::End;
        }
        if self.state_of_game == StateOfGame::End {
            return StepStart::Ended;
        }
        if self.state_of_game == StateOfGame::Start && serve_due {
            self.state_of_game = StateOfGame::Playing;
            let target = match self.frisbee.last_held {
                Some(last_held) => last_held.opposite(),
                None => {
                    if heads {
                        self.frisbee.last_held = Some(PlayerSide::Right);
                        PlayerSide::Left
                    } else {
                        self.frisbee.last_held = Some(PlayerSide::Left);
                        PlayerSide::Right
                    }
                },
            };
            return StepStart::Serve(target);
        }
        StepStart::Continue
    }

    /// Opens a tick, tossing a coin where a first serve needs a receiver.
    /// Whatever the coin shows, the tick opens as `opened` says for that
    /// toss; where no toss is needed, as it says for any.
    pub fn begin_step(&mut self, time_up: bool, serve_due: bool) -> (start: StepStart)
        ensures
            exists|heads: bool|
                (*final(self), start) == #[trigger] old(self).opened(time_up, serve_due, heads),
            old(self).frisbee.last_held is Some ==> (*final(self), start) == old(self).opened(
                time_up,
                serve_due,
                false,
            ),
    {
        let toss_needed = self.frisbee.last_held.is_none() && self.state_of_game
            == StateOfGame::Start && serve_due;
        let heads = if toss_needed {
            let drawn: i32 = random_range(0, 2);
            drawn == 0
        } else {
            false
        };
        let ghost before = *self;
        let start = self.begin_step_with(time_up, serve_due, heads);
        proof {
            assert((*self, start) == before.opened(time_up, serve_due, heads));
        }
        start
    }

    /// The engine after the intent of one side has been judged, what the
    /// intent came to, and what the court has to move. In a match that is
    /// over nothing is judged any more.
    pub open spec fn acted(self, side: PlayerSide, intent: Intent) -> (
        GameEngine,
        ActionResult,
        Motion,
    ) {
        if self.state_of_game == StateOfGame::End {
            (self, ActionResult::Nothing, Motion::Stay)
        } else {
            let j = judged(self.player(side), self.frisbee, intent, self.state_of_game);
            ((GameEngine { frisbee: j.1, ..self }).with_player(side, j.0), j.2, j.3)
        }
    }

    /// Judges the intent of one side and says what the court has to move.
    pub fn act(&mut self, side: PlayerSide, intent: &Intent) -> (out: (ActionResult, Motion))
        ensures
            (*final(self), out.0, out.1) == old(self).acted(side, *intent),
    {
        let state = self.state_of_game;
        if state == StateOfGame::End {
            return (ActionResult::Nothing, Motion::Stay);
        }
        match side {
            PlayerSide::Left => apply_action(
                &mut self.players.0,
                &mut self.frisbee,
                intent,
                &state,
            ),
            PlayerSide::Right => apply_action(
                &mut self.players.1,
                &mut self.frisbee,
                intent,
                &state,
            ),
        }
    }

    /// What follows the court's move for one side. The court has moved the
    /// body as `act` said and reports whether the player's circle overlaps
    /// the disc's (`overlapping`); it has then advanced a slide that is under
    /// way and reports whether the slide has covered its distance
    /// (`slide_done`).
    ///
    /// The player picks the disc up if `grabs` allows it, which replaces what
    /// the intent had come to (`pending`). A slide that has covered its
    /// distance is over. A learning agent on this side gets the reward for
    /// what the tick came to. In a match that is over nothing of this
    /// happens.
    pub open spec fn settled(
        self,
        side: PlayerSide,
        pending: ActionResult,
        overlapping: bool,
        slide_done: bool,
    ) -> (GameEngine, ActionResult) {
        if self.state_of_game == StateOfGame::End {
            (self, pending)
        } else {
            self.settled_in_play(side, pending, overlapping, slide_done)
        }
    }

    /// What `settled` says of a match that is not over.
    pub open spec fn settled_in_play(
        self,
        side: PlayerSide,
        pending: ActionResult,
        overlapping: bool,
        slide_done: bool,
    ) -> (GameEngine, ActionResult) {
        let player = self.player(side);
        let grabbed = grabs(player, self.frisbee, self.state_of_game, overlapping);
        let result = if grabbed {
            ActionResult::GrabbedFrisbee
        } else {
            pending
        };
        let frisbee = if grabbed {
            Frisbee { held_by_player: player.side, ..self.frisbee }
        } else {
            self.frisbee
        };
        let engine = (GameEngine { frisbee, ..self }).with_player(
            side,
            Player { sliding: player.sliding && !slide_done, ..player },
        );
        if self.agent(side) == AgentType::TabularQLearning {
            (engine.with_reward(side, action_reward(result)), result)
        } else {
            (engine, result)
        }
    }

    pub fn settle(
        &mut self,
        side: PlayerSide,
        pending: ActionResult,
        overlapping: bool,
        slide_done: bool,
    ) -> (result: ActionResult)
        ensures
            (*final(self), result) == old(self).settled(side, pending, overlapping, slide_done),
    {
        let state = self.state_of_game;
        let mut result = pending;
        if state == StateOfGame::End {
            return result;
        }
        match side {
            PlayerSide::Left => {
                if grab_frisbee(&self.players.0, &mut self.frisbee, &state, overlapping) {
                    result = ActionResult::GrabbedFrisbee;
                }
                if self.players.0.sliding && slide_done {
                    self.players.0.stop_slide();
                }
                if self.agents.0 == AgentType::TabularQLearning {
                    apply_action_rewards_to_q_agent(result, &mut self.rewards.0);
                }
            },
            PlayerSide::Right => {
                if grab_frisbee(&self.players.1, &mut self.frisbee, &state, overlapping) {
                    result = ActionResult::GrabbedFrisbee;
                }
                if self.players.1.sliding && slide_done {
                    self.players.1.stop_slide();
                }
                if self.agents.1 == AgentType::TabularQLearning {
                    apply_action_rewards_to_q_agent(result, &mut self.rewards.1);
                }
            },
        }
        result
    }

    /// How the disc travels once both sides have acted: in the hands that
    /// hold it, or on along its way if it has any speed (`moving`), or not at
    /// all. In a match that is over it rests.
    pub open spec fn disc_travel(self, moving: bool) -> DiscMotion {
        if self.state_of_game == StateOfGame::End {
            DiscMotion::Rest
        } else {
            match self.frisbee.held_by_player {
                Some(held_by) => DiscMotion::Carried(held_by),
                None => if moving {
                    DiscMotion::Fly
                } else {
                    DiscMotion::Rest
                },
            }
        }
    }

    pub fn disc_motion(&self, moving: bool) -> (motion: DiscMotion)
        ensures
            motion == self.disc_travel(moving),
    {
        if self.state_of_game == StateOfGame::End {
            return DiscMotion::Rest;
        }
        match self.frisbee.held_by_player {
            Some(held_by) => DiscMotion::Carried(held_by),
            None => {
                if moving {
                    DiscMotion::Fly
                } else {
                    DiscMotion::Rest
                }
            },
        }
    }

    /// Whether the goal that the court reports can be paid without leaving
    /// the range of a score.
    pub open spec fn can_pay(self, crossed: bool, in_five_band: bool) -> bool {
        self.state_of_game != StateOfGame::End && crossed && self.frisbee.last_held is Some
            ==> score_of(
            self.players,
            self.frisbee.last_held->0,
        ) + goal_points(in_five_band) <= i8::MAX
    }

    /// The engine once the court has kept both players inside their halves
    /// and looked at the goal lines, where that went without error. A player
    /// that was pushed back (`left_clamped`, `right_clamped`) loses its slide.
    /// A goal pays the last holder, puts the round back to `Start`, sends both
    /// players sliding home, charges a learning agent that let it in, and
    /// marks the stretch of play as scored. A match that is over stays as it
    /// is.
    pub open spec fn closed(
        self,
        left_clamped: bool,
        right_clamped: bool,
        crossed: bool,
        in_five_band: bool,
    ) -> GameEngine {
        if self.state_of_game == StateOfGame::End {
            self
        } else {
            self.closed_in_play(left_clamped, right_clamped, crossed, in_five_band)
        }
    }

    /// What `closed` says of a match that is not over.
    pub open spec fn closed_in_play(
        self,
        left_clamped: bool,
        right_clamped: bool,
        crossed: bool,
        in_five_band: bool,
    ) -> GameEngine {
        let left = Player {
            sliding: self.players.0.sliding && !left_clamped,
            ..self.players.0
        };
        let right = Player {
            sliding: self.players.1.sliding && !right_clamped,
            ..self.players.1
        };
        if crossed && self.frisbee.last_held is Some {
            let scorer = self.frisbee.last_held->0;
            let paid = with_points((left, right), scorer, goal_points(in_five_band));
            GameEngine {
                players: (
                    Player { sliding: true, ..paid.0 },
                    Player { sliding: true, ..paid.1 },
                ),
                state_of_game: StateOfGame::Start,
                rewards: goal_rewards(self.rewards, self.agents, scorer),
                q_scored: true,
                ..self
            }
        } else {
            GameEngine { players: (left, right), ..self }
        }
    }

    /// Closes a tick. The court has moved the disc, pushed the players back
    /// inside their halves and let the disc bounce; it reports which players
    /// it had to push back, whether the disc is past a goal line (`crossed`)
    /// and, if so, whether inside the middle band (`in_five_band`).
    ///
    /// A disc past the line that nobody held last is an error, and the engine
    /// stays as it was. Otherwise the engine becomes `closed`, and the answer
    /// says whether a goal was scored: the court then puts the disc back on
    /// its mark, starts the serve delay anew and aims both slides home. In a
    /// match that is over there is neither goal nor error.
    pub fn finish_step(
        &mut self,
        left_clamped: bool,
        right_clamped: bool,
        crossed: bool,
        in_five_band: bool,
    ) -> (res: Result<bool, GoalError>)
        requires
            old(self).can_pay(crossed, in_five_band),
        ensures
            res is Err <==> old(self).state_of_game != StateOfGame::End && crossed && old(
                self,
            ).frisbee.last_held is None,
            res is Err ==> *final(self) == *old(self),
            res is Ok ==> res->Ok_0 == (old(self).state_of_game != StateOfGame::End && crossed)
                && *final(self) == old(self).closed(
                left_clamped,
                right_clamped,
                crossed,
                in_five_band,
            ),
    {
        if self.state_of_game == StateOfGame::End {
            return Ok(false);
        }
        if crossed && self.frisbee.last_held.is_none() {
            return Err(GoalError::NoLastHolder);
        }
        if left_clamped {
            self.players.0.stop_slide();
        }
        if right_clamped {
            self.players.1.stop_slide();
        }
        let frisbee = self.frisbee;
        let goal = frisbee_collision_goal(&frisbee, &mut self.players, crossed, in_five_band);
        match goal {
            Ok(true) => {
                self.state_of_game = StateOfGame::Start;
                self.players.0.dash_to_pos();
                self.players.1.dash_to_pos();
                self.reward_q_for_goal();
                Ok(true)
            },
            Ok(false) => Ok(false),
            Err(e) => Err(e),
        }
    }

    /// Charges a learning agent for the goal it let in and marks the stretch
    /// of play as scored.
    pub fn reward_q_for_goal(&mut self)
        ensures
            *final(self) == (GameEngine {
                rewards: match old(self).frisbee.last_held {
                    Some(scorer) => goal_rewards(old(self).rewards, old(self).agents, scorer),
                    None => old(self).rewards,
                },
                q_scored: true,
                ..*old(self)
            }),
    {
        match self.frisbee.last_held {
            Some(PlayerSide::Left) => {
                if self.agents.1 == AgentType::TabularQLearning {
                    self.rewards.1 = CONCEDED_GOAL_REWARD;
                }
            },
            Some(PlayerSide::Right) => {
                if self.agents.0 == AgentType::TabularQLearning {
                    self.rewards.0 = CONCEDED_GOAL_REWARD;
                }
            },
            None => {},
        }
        self.q_scored = true;
    }
}

/// Everything that the clock and the court report over one tick, in the order
/// in which the engine asks for it.
#[derive(Clone, Copy, Debug, PartialEq, Eq, Structural)]
pub struct TickReport {
    /// The match time has run out.
    pub time_up: bool,
    /// The serve delay has run out.
    pub serve_due: bool,
    /// The toss for the receiver of a first serve.
    pub heads: bool,
    /// After the left player's move, its circle overlaps the disc's.
    pub left_overlapping: bool,
    /// After the left player's move, its slide has covered its distance.
    pub left_slide_done: bool,
    /// After the right player's move, its circle overlaps the disc's.
    pub right_overlapping: bool,
    /// After the right player's move, its slide has covered its distance.
    pub right_slide_done: bool,
    /// The disc has speed once both have moved.
    pub moving: bool,
    /// The left player was pushed back inside its half.
    pub left_clamped: bool,
    /// The right player was pushed back inside its half.
    pub right_clamped: bool,
    /// The disc is past a goal line.
    pub crossed: bool,
    /// The disc is inside the middle band.
    pub in_five_band: bool,
}

/// What one tick asked of the court and what it came to.
#[derive(Clone, Copy, Debug, PartialEq, Eq, Structural)]
pub struct StepOutcome {
    /// How the tick opened.
    pub start: StepStart,
    /// What the left side's intent came to.
    pub left_result: ActionResult,
    /// What the left side's body had to do.
    pub left_motion: Motion,
    /// What the right side's intent came to.
    pub right_result: ActionResult,
    /// What the right side's body had to do.
    pub right_motion: Motion,
    /// How the disc travelled.
    pub disc: DiscMotion,
    /// Whether a goal was scored.
    pub goal: bool,
}

impl GameEngine {
    /// The engine once the left side has had its turn in a tick: the tick
    /// has opened, the left side has acted and its move is settled.
    pub open spec fn after_left(self, intents: (Intent, Intent), report: TickReport) -> GameEngine {
        let opened = self.opened(report.time_up, report.serve_due, report.heads).0;
        let acted = opened.acted(PlayerSide::Left, intents.0);
        acted.0.settled(
            PlayerSide::Left,
            acted.1,
            report.left_overlapping,
            report.left_slide_done,
        ).0
    }

    /// The engine just before a tick closes: after the left side's turn the
    /// right side has acted and its move is settled.
    pub open spec fn played(self, intents: (Intent, Intent), report: TickReport) -> GameEngine {
        let acted = self.after_left(intents, report).acted(PlayerSide::Right, intents.1);
        acted.0.settled(
            PlayerSide::Right,
            acted.1,
            report.right_overlapping,
            report.right_slide_done,
        ).0
    }

    /// The engine after one whole tick, where the tick went without error:
    /// the tick is played, and closes on the players' limits and the goal
    /// lines.
    pub open spec fn ticked(self, intents: (Intent, Intent), report: TickReport) -> GameEngine {
        self.played(intents, report).closed(
            report.left_clamped,
            report.right_clamped,
            report.crossed,
            report.in_five_band,
        )
    }

    /// What one whole tick asks of the court and what it comes to.
    pub open spec fn outcome(self, intents: (Intent, Intent), report: TickReport) -> StepOutcome {
        let opened = self.opened(report.time_up, report.serve_due, report.heads);
        let left = opened.0.acted(PlayerSide::Left, intents.0);
        let right = self.after_left(intents, report).acted(PlayerSide::Right, intents.1);
        let played = self.played(intents, report);
        StepOutcome {
            start: opened.1,
            left_result: left.0.settled(
                PlayerSide::Left,
                left.1,
                report.left_overlapping,
                report.left_slide_done,
            ).1,
            left_motion: left.2,
            right_result: right.0.settled(
                PlayerSide::Right,
                right.1,
                report.right_overlapping,
                report.right_slide_done,
            ).1,
            right_motion: right.2,
            disc: played.disc_travel(report.moving),
            goal: played.state_of_game != StateOfGame::End && report.crossed,
        }
    }

    /// Whether a tick ends in error: at its close the disc is past a goal
    /// line though no side holds it last.
    pub open spec fn stumbles(self, intents: (Intent, Intent), report: TickReport) -> bool {
        let played = self.played(intents, report);
        played.state_of_game != StateOfGame::End && report.crossed
            && played.frisbee.last_held is None
    }

    /// Plays one whole tick from a report that is already at hand, as when a
    /// recorded match is played again. A court that measures as it goes asks
    /// the parts of the tick one by one instead, in the same order.
    ///
    /// A goal must be payable when the tick closes; no part of a tick before
    /// that changes a score (`lemma_play_keeps_scores`). On an error the
    /// engine stays as it was just before the tick closed.
    pub fn step(&mut self, intents: (Intent, Intent), report: &TickReport) -> (res: Result<
        StepOutcome,
        GoalError,
    >)
        requires
            old(self).played(intents, *report).can_pay(report.crossed, report.in_five_band),
        ensures
            res is Err <==> old(self).stumbles(intents, *report),
            res is Err ==> *final(self) == old(self).played(intents, *report),
            res is Ok ==> res->Ok_0 == old(self).outcome(intents, *report) && *final(self)
                == old(self).ticked(intents, *report),
    {
        let start = self.begin_step_with(report.time_up, report.serve_due, report.heads);
        let (pending, left_motion) = self.act(PlayerSide::Left, &intents.0);
        let left_result = self.settle(
            PlayerSide::Left,
            pending,
            report.left_overlapping,
            report.left_slide_done,
        );
        assert(*self == old(self).after_left(intents, *report));
        let (pending, right_motion) = self.act(PlayerSide::Right, &intents.1);
        let right_result = self.settle(
            PlayerSide::Right,
            pending,
            report.right_overlapping,
            report.right_slide_done,
        );
        assert(*self == old(self).played(intents, *report));
        let disc = self.disc_motion(report.moving);
        let goal = self.finish_step(
            report.left_clamped,
            report.right_clamped,
            report.crossed,
            report.in_five_band,
        )?;
        Ok(
            StepOutcome {
                start,
                left_result,
                left_motion,
                right_result,
                right_motion,
                disc,
                goal,
            },
        )
    }
}

/// Up to its close a tick changes no score.
pub proof fn lemma_play_keeps_scores(
    engine: GameEngine,
    intents: (Intent, Intent),
    report: TickReport,
)
    ensures
        engine.played(intents, report).players.0.score == engine.players.0.score,
        engine.played(intents, report).players.1.score == engine.players.1.score,
{
    let opened = engine.opened(report.time_up, report.serve_due, report.heads).0;
    assert(opened.players == engine.players);
    let left = engine.after_left(intents, report);
    assert(left.players.0.score == engine.players.0.score && left.players.1.score
        == engine.players.1.score);
}

/// The left side comes first: where both players reach a free disc on the
/// same tick of a round in play, and the left player did not hold it last,
/// the left player has it at the end of the tick.
pub proof fn lemma_left_comes_first(
    engine: GameEngine,
    intents: (Intent, Intent),
    report: TickReport,
)
    requires
        engine.state_of_game == StateOfGame::Playing,
        !engine.over(report.time_up),
        engine.players.0.side == Some(PlayerSide::Left),
        engine.players.1.side == Some(PlayerSide::Right),
        engine.frisbee.held_by_player is None,
        engine.frisbee.last_held != Some(PlayerSide::Left),
        report.left_overlapping,
        report.right_overlapping,
    ensures
        engine.ticked(intents, report).frisbee.held_by_player == Some(PlayerSide::Left),
{
}

/// Over a whole tick no score falls, and an ended match stays as it is.
pub proof fn lemma_tick_is_sound(engine: GameEngine, intents: (Intent, Intent), report: TickReport)
    requires
        engine.players.0.score <= i8::MAX - 5,
        engine.players.1.score <= i8::MAX - 5,
    ensures
        engine.ticked(intents, report).players.0.score >= engine.players.0.score,
        engine.ticked(intents, report).players.1.score >= engine.players.1.score,
        engine.state_of_game == StateOfGame::End ==> engine.ticked(intents, report) == engine,
{
    lemma_play_keeps_scores(engine, intents, report);
    let played = engine.played(intents, report);
    let ticked = played.closed(
        report.left_clamped,
        report.right_clamped,
        report.crossed,
        report.in_five_band,
    );
    assert(ticked.players.0.score >= played.players.0.score && ticked.players.1.score
        >= played.players.1.score);
    if engine.state_of_game == StateOfGame::End {
        assert(engine.after_left(intents, report) == engine);
        assert(played == engine);
    }
}

// In the laws below `clock` stands for what the clock reports to `opened`
// (time up, serve due, the toss), `contact` for what the court reports to
// `settled` (overlapping, slide done), and `edges` for what it reports to
// `closed` (left pushed back, right pushed back, goal line crossed, inside the
// middle band).
/// A match that is over stays over, and nothing in it changes: whatever the
/// clock, the agents and the court report, every part of a tick leaves the
/// engine as it is.
pub proof fn lemma_end_is_final(
    engine: GameEngine,
    side: PlayerSide,
    intent: Intent,
    pending: ActionResult,
    clock: (bool, bool, bool),
    contact: (bool, bool),
    moving: bool,
    edges: (bool, bool, bool, bool),
)
    requires
        engine.state_of_game == StateOfGame::End,
    ensures
        engine.opened(clock.0, clock.1, clock.2) == (engine, StepStart::Ended),
        engine.acted(side, intent) == (engine, ActionResult::Nothing, Motion::Stay),
        engine.settled(side, pending, contact.0, contact.1) == (engine, pending),
        engine.disc_travel(moving) == DiscMotion::Rest,
        engine.closed(edges.0, edges.1, edges.2, edges.3) == engine,
{
}

/// A round leaves `Start` only by a serve, and comes back to it only by a
/// goal.
pub proof fn lemma_round_cycle(
    engine: GameEngine,
    side: PlayerSide,
    intent: Intent,
    pending: ActionResult,
    clock: (bool, bool, bool),
    contact: (bool, bool),
    edges: (bool, bool, bool, bool),
)
    ensures
        ({
            let opened = engine.opened(clock.0, clock.1, clock.2);
            engine.state_of_game == StateOfGame::Start && opened.0.state_of_game
                == StateOfGame::Playing ==> opened.1 is Serve
        }),
        engine.state_of_game != StateOfGame::Start ==> engine.opened(
            clock.0,
            clock.1,
            clock.2,
        ).0.state_of_game != StateOfGame::Start,
        engine.acted(side, intent).0.state_of_game == engine.state_of_game,
        engine.settled(side, pending, contact.0, contact.1).0.state_of_game
            == engine.state_of_game,
        ({
            let closed = engine.closed(edges.0, edges.1, edges.2, edges.3);
            let crossed = edges.2;
            closed.state_of_game != engine.state_of_game ==> closed.state_of_game
                == StateOfGame::Start && crossed && engine.frisbee.last_held is Some
        }),
{
}

/// No part of a tick takes points away, and only a goal gives any: five or
/// three, to the side that held the disc last.
pub proof fn lemma_scores_never_fall(
    engine: GameEngine,
    side: PlayerSide,
    intent: Intent,
    pending: ActionResult,
    clock: (bool, bool, bool),
    contact: (bool, bool),
    edges: (bool, bool, bool, bool),
)
    requires
        engine.can_pay(edges.2, edges.3),
    ensures
        engine.opened(clock.0, clock.1, clock.2).0.players == engine.players,
        score_of(engine.acted(side, intent).0.players, side) == score_of(engine.players, side),
        score_of(engine.acted(side, intent).0.players, side.other()) == score_of(
            engine.players,
            side.other(),
        ),
        score_of(engine.settled(side, pending, contact.0, contact.1).0.players, side)
            == score_of(engine.players, side),
        score_of(engine.settled(side, pending, contact.0, contact.1).0.players, side.other())
            == score_of(engine.players, side.other()),
        ({
            let closed = engine.closed(edges.0, edges.1, edges.2, edges.3);
            let crossed = edges.2;
            let in_five_band = edges.3;
            let goal = engine.state_of_game != StateOfGame::End && crossed
                && engine.frisbee.last_held is Some;
            &&& goal ==> score_of(closed.players, engine.frisbee.last_held->0) == score_of(
                engine.players,
                engine.frisbee.last_held->0,
            ) + goal_points(in_five_band) && score_of(
                closed.players,
                engine.frisbee.last_held->0.other(),
            ) == score_of(engine.players, engine.frisbee.last_held->0.other())
            &&& !goal ==> score_of(closed.players, side) == score_of(engine.players, side)
                && score_of(closed.players, side.other()) == score_of(
                engine.players,
                side.other(),
            )
        }),
{
}

/// Once a side counts as the last holder of the disc, some side does for the
/// rest of the match.
pub proof fn lemma_last_holder_is_kept(
    engine: GameEngine,
    side: PlayerSide,
    intent: Intent,
    pending: ActionResult,
    clock: (bool, bool, bool),
    contact: (bool, bool),
    edges: (bool, bool, bool, bool),
)
    requires
        engine.frisbee.last_held is Some,
    ensures
        engine.opened(clock.0, clock.1, clock.2).0.frisbee == engine.frisbee,
        engine.acted(side, intent).0.frisbee.last_held is Some,
        engine.settled(side, pending, contact.0, contact.1).0.frisbee.last_held
            == engine.frisbee.last_held,
        engine.closed(edges.0, edges.1, edges.2, edges.3).frisbee == engine.frisbee,
{
}

/// The side that held the disc last cannot pick it up: while it counts as
/// the last holder, no contact, however close, puts the disc into its hands.
pub proof fn lemma_last_holder_cannot_catch(
    engine: GameEngine,
    side: PlayerSide,
    pending: ActionResult,
    overlapping: bool,
    slide_done: bool,
)
    requires
        threw_last(engine.player(side), engine.frisbee),
    ensures
        engine.settled(side, pending, overlapping, slide_done).0.frisbee == engine.frisbee,
        engine.settled(side, pending, overlapping, slide_done).1 == pending,
{
}

/// A throw frees the disc and makes the thrower its last holder; the thrower
/// does not have it back at the end of its turn, whatever the court reports.
pub proof fn lemma_throw_lets_go(
    engine: GameEngine,
    side: PlayerSide,
    throw: ThrowDirection,
    overlapping: bool,
    slide_done: bool,
)
    requires
        engine.state_of_game != StateOfGame::End,
        holds_disc(engine.player(side), engine.frisbee),
    ensures
        ({
            let thrown = engine.acted(side, Intent::Throw(throw));
            let settled = thrown.0.settled(side, thrown.1, overlapping, slide_done);
            &&& thrown.1 == ActionResult::Threw
            &&& thrown.2 == Motion::Release(throw)
            &&& thrown.0.frisbee.held_by_player is None
            &&& thrown.0.frisbee.last_held == engine.player(side).side
            &&& settled.1 == ActionResult::Threw
            &&& settled.0.frisbee == thrown.0.frisbee
        }),
{
}

/// A round from its serve to the first throw. A match that has just been
/// reset waits; once the serve is due it is in play and the disc is served to
/// one side, with the other side counting as the last holder. When the
/// receiver's circle meets the disc's, the receiver holds the disc. When it
/// then throws, the disc is free again, flies as the throw says, and the
/// receiver is its last holder.
pub proof fn lemma_serve_catch_throw(engine: GameEngine, heads: bool, throw: ThrowDirection)
    ensures
        ({
            let waiting = engine.restarted();
            let served = waiting.opened(false, true, heads);
            let receiver = waiting.receiver(heads);
            let caught = served.0.acted(receiver, Intent::Idle).0.settled(
                receiver,
                ActionResult::Nothing,
                true,
                false,
            );
            let thrown = caught.0.acted(receiver, Intent::Throw(throw));
            &&& waiting.state_of_game == StateOfGame::Start
            &&& waiting.players.0.score == 0 && waiting.players.1.score == 0
            &&& waiting.opened(false, false, heads) == (waiting, StepStart::Continue)
            &&& served.1 == StepStart::Serve(receiver)
            &&& served.0.state_of_game == StateOfGame::Playing
            &&& served.0.frisbee.last_held == Some(receiver.other())
            &&& served.0.disc_travel(true) == DiscMotion::Fly
            &&& caught.1 == ActionResult::GrabbedFrisbee
            &&& caught.0.frisbee.held_by_player == Some(receiver)
            &&& caught.0.disc_travel(true) == DiscMotion::Carried(receiver)
            &&& thrown.1 == ActionResult::Threw
            &&& thrown.2 == Motion::Release(throw)
            &&& thrown.0.frisbee.held_by_player is None
            &&& thrown.0.frisbee.last_held == Some(receiver)
            &&& thrown.0.disc_travel(true) == DiscMotion::Fly
        }),
{
}

} // verus!
