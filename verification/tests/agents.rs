use rustjammers_engine::agent::{
    AgentType, HumanIntent, HumanPlayerAgent, Intent, RandomAgent, RandomRolloutAgent, DOWN,
    IDLE, LEFT, RANDOM_REACH, RIGHT, THROW, UP,
};
use rustjammers_engine::direction::Direction;
use rustjammers_engine::frisbee::{random_throw_direction, ThrowDirection};
use rustjammers_engine::game_engine::{GameEngine, StateOfGame};
use rustjammers_engine::player::PlayerSide;
use rustjammers_engine::qlearning::TabularQLearningAgent;
use rustjammers_engine::search::{candidate_intents, intents_for, DijkstraAgent};

fn engine_with(left: u8, right: u8, holder: Option<PlayerSide>) -> GameEngine {
    let mut engine = GameEngine::new();
    engine.reset();
    engine.state_of_game = StateOfGame::Playing;
    engine.inputs = (HumanIntent::from_bits(left), HumanIntent::from_bits(right));
    engine.frisbee.held_by_player = holder;
    engine
}

fn human(side: PlayerSide, keys: u8, holding: bool) -> Intent {
    let holder = if holding { Some(side) } else { None };
    let engine = match side {
        PlayerSide::Left => engine_with(keys, IDLE, holder),
        PlayerSide::Right => engine_with(IDLE, keys, holder),
    };
    HumanPlayerAgent {}.act(side, &engine)
}

#[test]
fn agents_know_their_type() {
    assert_eq!(HumanPlayerAgent {}.get_type(), AgentType::HumanPlayer);
    assert_eq!(RandomAgent {}.get_type(), AgentType::Random);
    assert_eq!(RandomRolloutAgent { frames: 10, sim: 1 }.get_type(), AgentType::RandomRollout);
    assert_eq!(DijkstraAgent {}.get_type(), AgentType::Dijkstra);
    assert_eq!(TabularQLearningAgent {}.get_type(), AgentType::TabularQLearning);
}

#[test]
fn keys_are_bits() {
    assert_eq!((IDLE, UP, DOWN, LEFT, RIGHT, THROW), (0, 1, 2, 4, 8, 16));
    let input = HumanIntent::from_bits(UP | THROW);
    assert_eq!(input.bits(), 17);
    assert!(input.contains(UP));
    assert!(input.contains(THROW));
    assert!(input.contains(UP | THROW));
    assert!(input.contains(IDLE));
    assert!(!input.contains(DOWN));
    assert!(!input.contains(UP | LEFT));
    assert_eq!(HumanIntent::idle().bits(), 0);
}

#[test]
fn no_key_no_intent() {
    assert_eq!(human(PlayerSide::Left, IDLE, false), Intent::Idle);
    assert_eq!(human(PlayerSide::Right, IDLE, true), Intent::Idle);
}

#[test]
fn arrows_move() {
    assert_eq!(human(PlayerSide::Left, UP, false), Intent::Move(Direction { x: 0, y: 1 }));
    assert_eq!(human(PlayerSide::Left, DOWN, false), Intent::Move(Direction { x: 0, y: -1 }));
    assert_eq!(human(PlayerSide::Left, LEFT, false), Intent::Move(Direction { x: -1, y: 0 }));
    assert_eq!(human(PlayerSide::Left, RIGHT, false), Intent::Move(Direction { x: 1, y: 0 }));
    assert_eq!(human(PlayerSide::Right, UP | LEFT, true), Intent::Move(Direction { x: -1, y: 1 }));
    assert_eq!(
        human(PlayerSide::Right, DOWN | RIGHT, false),
        Intent::Move(Direction { x: 1, y: -1 })
    );
}

#[test]
fn down_beats_up_and_right_beats_left() {
    assert_eq!(human(PlayerSide::Left, UP | DOWN, false), Intent::Move(Direction { x: 0, y: -1 }));
    assert_eq!(
        human(PlayerSide::Left, LEFT | RIGHT, false),
        Intent::Move(Direction { x: 1, y: 0 })
    );
    assert_eq!(
        human(PlayerSide::Left, UP | DOWN | LEFT | RIGHT, false),
        Intent::Move(Direction { x: 1, y: -1 })
    );
}

#[test]
fn throw_key_without_the_disc_dashes() {
    assert_eq!(human(PlayerSide::Left, THROW, false), Intent::Dash(Direction { x: 0, y: 0 }));
    assert_eq!(
        human(PlayerSide::Left, THROW | UP | RIGHT, false),
        Intent::Dash(Direction { x: 1, y: 1 })
    );
    assert_eq!(
        human(PlayerSide::Right, THROW | LEFT, false),
        Intent::Dash(Direction { x: -1, y: 0 })
    );
}

#[test]
fn throw_key_with_the_disc_throws() {
    let up = Intent::Throw(ThrowDirection::Up);
    let light_up = Intent::Throw(ThrowDirection::LightUp);
    let middle = Intent::Throw(ThrowDirection::Middle);
    let light_down = Intent::Throw(ThrowDirection::LightDown);
    let down = Intent::Throw(ThrowDirection::Down);

    assert_eq!(human(PlayerSide::Left, THROW, true), middle);
    assert_eq!(human(PlayerSide::Left, THROW | RIGHT, true), middle);
    assert_eq!(human(PlayerSide::Left, THROW | LEFT, true), middle);
    assert_eq!(human(PlayerSide::Left, THROW | UP, true), up);
    assert_eq!(human(PlayerSide::Left, THROW | DOWN, true), down);
    assert_eq!(human(PlayerSide::Left, THROW | UP | RIGHT, true), light_up);
    assert_eq!(human(PlayerSide::Left, THROW | UP | LEFT, true), up);
    assert_eq!(human(PlayerSide::Left, THROW | DOWN | RIGHT, true), light_down);
    assert_eq!(human(PlayerSide::Left, THROW | DOWN | LEFT, true), down);
    assert_eq!(human(PlayerSide::Left, THROW | UP | DOWN, true), up);

    assert_eq!(human(PlayerSide::Right, THROW | UP | LEFT, true), light_up);
    assert_eq!(human(PlayerSide::Right, THROW | UP | RIGHT, true), up);
    assert_eq!(human(PlayerSide::Right, THROW | DOWN | LEFT, true), light_down);
    assert_eq!(human(PlayerSide::Right, THROW | DOWN | RIGHT, true), down);
    assert_eq!(human(PlayerSide::Right, THROW | UP | LEFT | RIGHT, true), light_up);
}

#[test]
fn the_other_sides_disc_is_not_mine() {
    let engine = engine_with(THROW | UP, THROW | UP, Some(PlayerSide::Right));
    assert_eq!(
        HumanPlayerAgent {}.act(PlayerSide::Left, &engine),
        Intent::Dash(Direction { x: 0, y: 1 })
    );
    assert_eq!(
        HumanPlayerAgent {}.act(PlayerSide::Right, &engine),
        Intent::Throw(ThrowDirection::Up)
    );
}

#[test]
fn the_learner_plays_the_keys_of_its_column() {
    let mut engine = engine_with(IDLE, IDLE, Some(PlayerSide::Left));
    engine.play_column(PlayerSide::Left, 14);
    engine.play_column(PlayerSide::Right, 3);
    assert_eq!(engine.inputs, (HumanIntent::from_bits(25), HumanIntent::from_bits(4)));
    assert_eq!(
        TabularQLearningAgent {}.act(PlayerSide::Left, &engine),
        Intent::Throw(ThrowDirection::LightUp)
    );
    assert_eq!(
        TabularQLearningAgent {}.act(PlayerSide::Right, &engine),
        Intent::Move(Direction { x: -1, y: 0 })
    );
}

#[test]
fn random_agent_with_given_dice() {
    let agent = RandomAgent {};
    let dir = Direction { x: 3, y: -4 };
    let holding = engine_with(IDLE, IDLE, Some(PlayerSide::Left));
    let side = PlayerSide::Left;
    let throw = ThrowDirection::LightDown;
    assert_eq!(agent.act_with(side, &holding, 0, dir, throw), Intent::Throw(throw));
    assert_eq!(agent.act_with(side, &holding, 24, dir, throw), Intent::Throw(throw));
    assert_eq!(agent.act_with(side, &holding, 25, dir, throw), Intent::Idle);
    assert_eq!(agent.act_with(side, &holding, 99, dir, throw), Intent::Idle);

    let free = engine_with(IDLE, IDLE, Some(PlayerSide::Right));
    assert_eq!(agent.act_with(side, &free, 0, dir, throw), Intent::Move(dir));
    assert_eq!(agent.act_with(side, &free, 49, dir, throw), Intent::Move(dir));
    assert_eq!(agent.act_with(side, &free, 50, dir, throw), Intent::Dash(dir));
    assert_eq!(agent.act_with(side, &free, 59, dir, throw), Intent::Dash(dir));
    assert_eq!(agent.act_with(side, &free, 60, dir, throw), Intent::Idle);
    assert_eq!(agent.act_with(side, &free, 99, dir, throw), Intent::Idle);
}

#[test]
fn random_headings_stay_within_reach_and_vary() {
    let agent = RandomAgent {};
    let first = agent.get_random_direction();
    let mut varied = false;
    for _ in 0..200 {
        let dir = agent.get_random_direction();
        assert!(-RANDOM_REACH <= dir.x && dir.x < RANDOM_REACH);
        assert!(-RANDOM_REACH <= dir.y && dir.y < RANDOM_REACH);
        if dir != first {
            varied = true;
        }
    }
    assert!(varied);
}

#[test]
fn random_throws_cover_all_five() {
    let mut seen = [false; 5];
    for _ in 0..2000 {
        let at = match random_throw_direction() {
            ThrowDirection::Up => 0,
            ThrowDirection::LightUp => 1,
            ThrowDirection::Middle => 2,
            ThrowDirection::LightDown => 3,
            ThrowDirection::Down => 4,
        };
        seen[at] = true;
    }
    assert_eq!(seen, [true; 5]);
}

#[test]
fn random_agent_acts_by_its_rules() {
    let mut agent = RandomAgent {};
    let holding = engine_with(IDLE, IDLE, Some(PlayerSide::Right));
    let mut threw = false;
    let mut waited = false;
    for _ in 0..400 {
        match agent.act(PlayerSide::Right, &holding) {
            Intent::Throw(_) => threw = true,
            Intent::Idle => waited = true,
            other => panic!("a holder cannot {:?}", other),
        }
    }
    assert!(threw && waited);

    let free = engine_with(IDLE, IDLE, None);
    let mut kinds = [false; 3];
    for _ in 0..400 {
        match agent.act(PlayerSide::Right, &free) {
            Intent::Move(dir) => {
                assert!(-RANDOM_REACH <= dir.x && dir.x < RANDOM_REACH);
                kinds[0] = true
            }
            Intent::Dash(dir) => {
                assert!(-RANDOM_REACH <= dir.y && dir.y < RANDOM_REACH);
                kinds[1] = true
            }
            Intent::Idle => kinds[2] = true,
            other => panic!("nothing to throw: {:?}", other),
        }
    }
    assert_eq!(kinds, [true; 3]);
}

#[test]
fn a_holder_tries_the_five_throws() {
    let engine = engine_with(IDLE, IDLE, Some(PlayerSide::Left));
    assert_eq!(
        candidate_intents(&engine, PlayerSide::Left),
        vec![
            Intent::Throw(ThrowDirection::Up),
            Intent::Throw(ThrowDirection::LightUp),
            Intent::Throw(ThrowDirection::Middle),
            Intent::Throw(ThrowDirection::LightDown),
            Intent::Throw(ThrowDirection::Down),
        ]
    );
}

#[test]
fn a_free_player_tries_steps_then_dashes() {
    let engine = engine_with(IDLE, IDLE, Some(PlayerSide::Left));
    let compass = [(0, 1), (0, -1), (-1, 0), (1, 0), (-1, -1), (-1, 1), (1, -1), (1, 1)];
    let mut expected = Vec::new();
    for (x, y) in compass {
        expected.push(Intent::Move(Direction { x, y }));
    }
    for (x, y) in compass {
        expected.push(Intent::Dash(Direction { x, y }));
    }
    assert_eq!(candidate_intents(&engine, PlayerSide::Right), expected);
}

#[test]
fn a_sliding_player_tries_nothing() {
    let mut engine = engine_with(IDLE, IDLE, None);
    engine.players.1.sliding = true;
    assert_eq!(candidate_intents(&engine, PlayerSide::Right), vec![]);
    assert_eq!(candidate_intents(&engine, PlayerSide::Left).len(), 16);
    engine.frisbee.held_by_player = Some(PlayerSide::Right);
    assert_eq!(candidate_intents(&engine, PlayerSide::Right).len(), 5);
}

#[test]
fn one_side_acts_alone() {
    let intent = Intent::Throw(ThrowDirection::Up);
    assert_eq!(intents_for(PlayerSide::Left, intent), (intent, Intent::Idle));
    assert_eq!(intents_for(PlayerSide::Right, intent), (Intent::Idle, intent));
}

#[test]
fn rollout_tries_every_intent_in_every_round() {
    let engine = engine_with(IDLE, IDLE, Some(PlayerSide::Left));
    let once = candidate_intents(&engine, PlayerSide::Left);
    let agent = RandomRolloutAgent { frames: 100, sim: 3 };
    let tries = agent.tries(PlayerSide::Left, &engine);
    assert_eq!(tries.len(), 15);
    for (i, intent) in tries.iter().enumerate() {
        assert_eq!(*intent, once[i % 5]);
    }
    let other = agent.tries(PlayerSide::Right, &engine);
    assert_eq!(other.len(), 48);
    assert_eq!(other[16], Intent::Move(Direction { x: 0, y: 1 }));
    assert_eq!(other[47], Intent::Dash(Direction { x: 1, y: 1 }));
}

#[test]
fn rollout_without_rounds_tries_nothing() {
    let engine = engine_with(IDLE, IDLE, Some(PlayerSide::Left));
    for sim in [0, -1, i8::MIN] {
        let agent = RandomRolloutAgent { frames: 100, sim };
        assert_eq!(agent.tries(PlayerSide::Left, &engine), vec![]);
    }
}

#[test]
fn rollout_keeps_the_first_best_outcome() {
    let agent = RandomRolloutAgent { frames: 100, sim: 1 };
    let a = Intent::Move(Direction { x: 0, y: 1 });
    let b = Intent::Move(Direction { x: 1, y: 0 });
    let c = Intent::Dash(Direction { x: 1, y: 1 });
    assert_eq!(agent.settle_on(&vec![(3, a), (5, b), (5, c)]), b);
    assert_eq!(agent.settle_on(&vec![(5, c), (3, a), (5, b)]), c);
    assert_eq!(agent.settle_on(&vec![(1, a), (2, b), (3, c)]), c);
    assert_eq!(agent.settle_on(&vec![(3, a)]), a);
}

#[test]
fn rollout_does_nothing_when_nothing_scores() {
    let agent = RandomRolloutAgent { frames: 100, sim: 1 };
    let a = Intent::Move(Direction { x: 0, y: 1 });
    let b = Intent::Dash(Direction { x: 1, y: 0 });
    assert_eq!(agent.settle_on(&vec![]), Intent::Idle);
    assert_eq!(agent.settle_on(&vec![(0, a), (0, b)]), Intent::Idle);
    assert_eq!(agent.settle_on(&vec![(-3, a), (0, b), (-1, a)]), Intent::Idle);
}
