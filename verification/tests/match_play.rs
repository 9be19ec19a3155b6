//! Whole matches, played on a small court that does the measuring for the
//! rules.

use rustjammers_engine::agent::{
    ActionResult, HumanIntent, HumanPlayerAgent, Intent, RandomAgent, RandomRolloutAgent, RIGHT,
    THROW,
};
use rustjammers_engine::direction::Direction;
use rustjammers_engine::frisbee::ThrowDirection;
use rustjammers_engine::game_engine::{
    DiscMotion, GameEngine, Motion, StateOfGame, StepOutcome, StepStart, TickReport,
};
use rustjammers_engine::player::PlayerSide;
use rustjammers_engine::qlearning::{feature_range, Feature, Sighting};
use rustjammers_engine::search::{intents_for, Approach, DijkstraAgent, Search};

const TICK: f64 = 1.0 / 60.0;
const MATCH_TIME: f64 = 60.0;
const SERVE_DELAY: f64 = 1.0;
const DISC_SPEED: f64 = 2.5;
const DASH_POWER: f64 = 2.5;
const WALL_EXT: f64 = 9.4;
const NET: f64 = 0.75;
const WALL_VERTICAL: f64 = 4.4;
const GOAL_LINE: f64 = 9.4 + 0.5;
const FIVE_BAND: f64 = 3.3 / 2.0;

#[derive(Clone, Copy, Debug, PartialEq)]
struct V2 {
    x: f64,
    y: f64,
}

impl V2 {
    fn new(x: f64, y: f64) -> V2 {
        V2 { x, y }
    }

    fn of(dir: Direction) -> V2 {
        V2 { x: dir.x as f64, y: dir.y as f64 }
    }

    fn plus(self, o: V2) -> V2 {
        V2 { x: self.x + o.x, y: self.y + o.y }
    }

    fn minus(self, o: V2) -> V2 {
        V2 { x: self.x - o.x, y: self.y - o.y }
    }

    fn times(self, k: f64) -> V2 {
        V2 { x: self.x * k, y: self.y * k }
    }

    fn length(self) -> f64 {
        (self.x.powi(2) + self.y.powi(2)).sqrt()
    }

    fn normalized(self) -> V2 {
        let len = self.length();
        if len != 0.0 {
            V2 { x: self.x / len, y: self.y / len }
        } else {
            self
        }
    }
}

fn sqr_dist(a: V2, b: V2) -> f64 {
    (b.x - a.x).powf(2.0) + (b.y - a.y).powf(2.0)
}

#[derive(Clone, Copy, Debug)]
struct Slide {
    origin: V2,
    target: V2,
    dir: V2,
}

#[derive(Clone, Debug)]
struct Court {
    rules: GameEngine,
    pos: [V2; 2],
    slide: [Option<Slide>; 2],
    disc_pos: V2,
    disc_dir: V2,
    disc_speed: f64,
    time: f64,
    start_time: f64,
    /// What the last tick reported to the rules and what the rules made of
    /// it.
    last: Option<(TickReport, StepOutcome)>,
}

fn at(side: PlayerSide) -> usize {
    match side {
        PlayerSide::Left => 0,
        PlayerSide::Right => 1,
    }
}

fn home(side: PlayerSide) -> V2 {
    match side {
        PlayerSide::Left => V2::new(-9.0, 0.0),
        PlayerSide::Right => V2::new(9.0, 0.0),
    }
}

impl Court {
    fn new() -> Court {
        let mut rules = GameEngine::new();
        rules.reset();
        Court {
            rules,
            pos: [home(PlayerSide::Left), home(PlayerSide::Right)],
            slide: [None, None],
            disc_pos: V2::new(0.0, -4.0),
            disc_dir: V2::new(0.0, 0.0),
            disc_speed: 0.0,
            time: MATCH_TIME,
            start_time: 0.0,
            last: None,
        }
    }

    fn fork(&self) -> Court {
        let mut copy = self.clone();
        let mut rules = GameEngine::new();
        self.rules.copy_in(&mut rules);
        copy.rules = rules;
        copy
    }

    fn player(&self, side: PlayerSide) -> rustjammers_engine::player::Player {
        match side {
            PlayerSide::Left => self.rules.players.0,
            PlayerSide::Right => self.rules.players.1,
        }
    }

    fn overlaps(&self, side: PlayerSide) -> bool {
        sqr_dist(self.disc_pos, self.pos[at(side)]) <= (0.5f64 + 0.5).powf(2.0)
    }

    fn clamp(&mut self, side: PlayerSide) -> bool {
        let half = self.player(side).get_horizontal_position();
        let p = &mut self.pos[at(side)];
        let mut collided = false;
        if half > 0 {
            if p.x > WALL_EXT {
                p.x = WALL_EXT;
                collided = true;
            }
            if p.x < NET {
                p.x = NET;
                collided = true;
            }
        }
        if half < 0 {
            if p.x < -WALL_EXT {
                p.x = -WALL_EXT;
                collided = true;
            }
            if p.x > -NET {
                p.x = -NET;
                collided = true;
            }
        }
        if p.y > WALL_VERTICAL {
            p.y = WALL_VERTICAL;
            collided = true;
        }
        if p.y < -WALL_VERTICAL {
            p.y = -WALL_VERTICAL;
            collided = true;
        }
        collided
    }

    fn bounce(&mut self) {
        if self.disc_pos.y >= WALL_VERTICAL || self.disc_pos.y <= -WALL_VERTICAL {
            self.disc_dir.y *= -1.0;
            if self.disc_pos.y >= WALL_VERTICAL {
                self.disc_dir = V2::new(self.disc_dir.x, -(self.disc_dir.y.abs())).normalized();
            }
            if self.disc_pos.y <= -WALL_VERTICAL {
                self.disc_dir = V2::new(self.disc_dir.x, self.disc_dir.y.abs()).normalized();
            }
            if self.disc_dir.y == 0.0 {
                if self.disc_pos.y >= WALL_VERTICAL {
                    self.disc_pos.y = WALL_VERTICAL - 0.001;
                } else if self.disc_pos.y <= -WALL_VERTICAL {
                    self.disc_pos.y = -WALL_VERTICAL + 0.001;
                }
            }
        }
    }

    fn act(&mut self, side: PlayerSide, intent: Intent) -> ActionResult {
        self.turn(side, intent).0
    }

    /// One side's turn: what it came to, what the body did, and the two
    /// measurements that the rules were given.
    fn turn(&mut self, side: PlayerSide, intent: Intent) -> (ActionResult, Motion, bool, bool) {
        let k = at(side);
        let (pending, motion) = self.rules.act(side, &intent);
        match motion {
            Motion::Stay => {}
            Motion::Step(dir) => {
                self.pos[k] = self.pos[k].plus(V2::of(dir).normalized().times(0.1));
            }
            Motion::Slide(dir) => {
                let dir = V2::of(dir).normalized().normalized().times(DASH_POWER);
                self.slide[k] = Some(Slide {
                    origin: self.pos[k],
                    target: self.pos[k].plus(dir),
                    dir: dir.normalized(),
                });
            }
            Motion::Release(throw) => {
                let vector = self.player(side).get_throw_vector(&throw);
                self.disc_dir = V2::of(vector).normalized();
                self.disc_speed = DISC_SPEED;
            }
        }
        let overlapping = self.overlaps(side);
        let mut done = false;
        if self.player(side).sliding {
            if let Some(slide) = self.slide[k] {
                self.pos[k] = self.pos[k].plus(slide.dir.times(4.0).times(0.1));
                done = sqr_dist(self.pos[k], slide.origin) >= sqr_dist(slide.origin, slide.target);
                if done {
                    self.pos[k] = slide.target;
                }
            }
        }
        let result = self.rules.settle(side, pending, overlapping, done);
        if !self.player(side).sliding {
            self.slide[k] = None;
        }
        (result, motion, overlapping, done)
    }

    fn step(&mut self, intents: (Intent, Intent)) {
        self.time -= TICK;
        self.start_time += TICK;
        self.last = None;
        let time_up = self.time <= 0.0;
        let serve_due = self.start_time >= SERVE_DELAY;
        let start = self.rules.begin_step(time_up, serve_due);
        match start {
            StepStart::Ended => return,
            StepStart::Serve(receiver) => {
                let aim = self.player(receiver).get_horizontal_aim_direction() as f64;
                let hands = self.pos[at(receiver)].plus(V2::new(aim, 0.0));
                self.disc_dir = hands.minus(self.disc_pos).normalized();
                self.disc_speed = DISC_SPEED;
            }
            StepStart::Continue => {}
        }

        let left = self.turn(PlayerSide::Left, intents.0);
        let right = self.turn(PlayerSide::Right, intents.1);

        let moving = self.disc_speed != 0.0;
        let disc = self.rules.disc_motion(moving);
        match disc {
            DiscMotion::Carried(side) => self.disc_pos = self.pos[at(side)],
            DiscMotion::Fly => {
                self.disc_pos = self.disc_pos.plus(self.disc_dir.times(self.disc_speed).times(0.1));
            }
            DiscMotion::Rest => {}
        }

        let left_clamped = self.clamp(PlayerSide::Left);
        let right_clamped = self.clamp(PlayerSide::Right);
        self.bounce();
        let crossed = self.disc_pos.x >= GOAL_LINE || self.disc_pos.x <= -GOAL_LINE;
        let in_five_band = self.disc_pos.y > -FIVE_BAND && self.disc_pos.y < FIVE_BAND;
        assert!(self.rules.players.0.score <= 100 && self.rules.players.1.score <= 100);
        let goal = self
            .rules
            .finish_step(left_clamped, right_clamped, crossed, in_five_band)
            .expect("a goal needs a last holder");
        for side in [PlayerSide::Left, PlayerSide::Right] {
            if !self.player(side).sliding {
                self.slide[at(side)] = None;
            }
        }
        self.last = Some((
            TickReport {
                time_up,
                serve_due,
                heads: start == StepStart::Serve(PlayerSide::Left),
                left_overlapping: left.2,
                left_slide_done: left.3,
                right_overlapping: right.2,
                right_slide_done: right.3,
                moving,
                left_clamped,
                right_clamped,
                crossed,
                in_five_band,
            },
            StepOutcome {
                start,
                left_result: left.0,
                left_motion: left.1,
                right_result: right.0,
                right_motion: right.1,
                disc,
                goal,
            },
        ));
        if goal {
            self.disc_pos = V2::new(0.0, -4.0);
            self.disc_speed = 0.0;
            self.disc_dir = V2::new(0.0, 0.0);
            self.start_time = 0.0;
            for side in [PlayerSide::Left, PlayerSide::Right] {
                let k = at(side);
                self.slide[k] = Some(Slide {
                    origin: self.pos[k],
                    target: home(side),
                    dir: home(side).minus(self.pos[k]).normalized(),
                });
            }
        }
    }

    fn distance(&self, side: PlayerSide) -> f64 {
        self.disc_pos.minus(self.pos[at(side)]).length()
    }

    fn heading_class(&self) -> u32 {
        heading_class(self.disc_dir)
    }

    fn sighting(&self) -> Sighting {
        let read = |value: f64, feature: Feature| -> u32 {
            let (min, _) = feature_range(feature);
            (value.round() + (min as f64).abs()) as u32
        };
        Sighting {
            own_x: read(self.pos[0].x, Feature::OwnX),
            own_y: read(self.pos[0].y, Feature::OwnY),
            disc_x: read(self.disc_pos.x, Feature::DiscX),
            disc_y: read(self.disc_pos.y, Feature::DiscY),
            heading: self.heading_class(),
        }
    }
}

fn heading_class(v: V2) -> u32 {
    let a = (v.y / v.x.abs()).sin().to_degrees();
    if a > 40.0 {
        0
    } else if a > 10.0 {
        1
    } else if a < 10.0 && a > -10.0 {
        2
    } else if a < -10.0 && a > -40.0 {
        3
    } else {
        4
    }
}

fn approach(before: f64, after: f64) -> Approach {
    if after < before {
        Approach::Closer
    } else if after > before {
        Approach::Farther
    } else if after == before {
        Approach::Level
    } else {
        Approach::Incomparable
    }
}

fn look_ahead(court: &Court, side: PlayerSide, cap: u32) -> Intent {
    let root = court.fork();
    let mut search = Search::new(side, &root.rules, cap);
    let mut worlds = vec![root];
    while let Some(seed) = search.next() {
        let mut world = worlds[seed.from].fork();
        let before = world.distance(side);
        world.step(intents_for(side, seed.intent));
        let after = world.distance(side);
        search.record(&world.rules, approach(before, after));
        worlds.push(world);
    }
    DijkstraAgent {}.pick(search.nodes())
}

fn roll_out(court: &Court, side: PlayerSide, agent: &RandomRolloutAgent) -> Intent {
    let mut outcomes = Vec::new();
    for intent in agent.tries(side, &court.rules) {
        let mut world = court.fork();
        world.step(intents_for(side, intent));
        for _ in 0..agent.frames {
            let left = RandomAgent {}.act(PlayerSide::Left, &world.rules);
            let right = RandomAgent {}.act(PlayerSide::Right, &world.rules);
            world.step((left, right));
            if world.rules.state_of_game != StateOfGame::Playing {
                break;
            }
        }
        outcomes.push((world.player(side).score, intent));
    }
    agent.settle_on(&outcomes)
}

fn serve(court: &mut Court) -> PlayerSide {
    let idle = (Intent::Idle, Intent::Idle);
    for _ in 0..59 {
        court.step(idle);
        assert_eq!(court.rules.state_of_game, StateOfGame::Start);
        assert_eq!(court.disc_speed, 0.0);
    }
    court.step(idle);
    assert_eq!(court.rules.state_of_game, StateOfGame::Playing);
    court.rules.frisbee.last_held.expect("a serve names a last holder").opposite()
}

#[test]
fn a_recorded_match_plays_again_tick_for_tick() {
    let mut court = Court::new();
    assert!(court.rules.send_type_p1(4).is_ok());
    assert!(court.rules.send_type_p2(1).is_ok());
    let mut goals = 0;
    let mut ticks = 0;
    while court.rules.state_of_game != StateOfGame::End {
        let before = court.rules;
        let intents = (
            RandomAgent {}.act(PlayerSide::Left, &court.rules),
            RandomAgent {}.act(PlayerSide::Right, &court.rules),
        );
        court.step(intents);
        ticks += 1;
        assert!(ticks < 4000);
        let mut again = before;
        match court.last {
            Some((report, outcome)) => {
                assert_eq!(again.step(intents, &report), Ok(outcome));
                if outcome.goal {
                    goals += 1;
                }
            }
            None => {
                let report = TickReport {
                    time_up: court.time <= 0.0,
                    serve_due: true,
                    heads: true,
                    left_overlapping: true,
                    left_slide_done: true,
                    right_overlapping: true,
                    right_slide_done: true,
                    moving: true,
                    left_clamped: true,
                    right_clamped: true,
                    crossed: true,
                    in_five_band: true,
                };
                let outcome = again.step(intents, &report).unwrap();
                assert_eq!(outcome.start, StepStart::Ended);
                assert!(!outcome.goal);
            }
        }
        assert_eq!(again, court.rules);
    }
    let points = court.rules.players.0.score as i32 + court.rules.players.1.score as i32;
    assert!(3 * goals <= points && points <= 5 * goals);
}

#[test]
fn test_dijkstra() {
    let mut test = Court::new();
    let mut step: i64 = 0;
    assert!(test.rules.send_type_p1(0).is_ok());
    assert!(test.rules.send_type_p2(3).is_ok());
    loop {
        test.rules.receive_inputs(HumanIntent::idle(), HumanIntent::idle());
        let action_p1 = HumanPlayerAgent {}.act(PlayerSide::Left, &test.rules);
        let action_p2 = look_ahead(&test, PlayerSide::Right, 1);
        test.step((action_p1, action_p2));

        if test.rules.state_of_game == StateOfGame::End {
            break;
        }
        step += 1;
        assert!(step < 4000);
    }
    assert!(test.time <= 0.0 || test.rules.players.0.score >= 30 || test.rules.players.1.score >= 30);
}

#[test]
fn discretize_frisbee_direction() {
    let horizontal = 1.0;
    assert_eq!(heading_class(V2::new(horizontal, 1.0).normalized()), 0);
    assert_eq!(heading_class(V2::new(2.0 * horizontal, 1.0).normalized()), 1);
    assert_eq!(heading_class(V2::new(horizontal, 0.0).normalized()), 2);
    assert_eq!(heading_class(V2::new(2.0 * horizontal, -1.0).normalized()), 3);
    assert_eq!(heading_class(V2::new(horizontal, -1.0).normalized()), 4);
}

#[test]
fn the_heading_of_a_throw_shows_in_the_key() {
    let throws = [
        ThrowDirection::Up,
        ThrowDirection::LightUp,
        ThrowDirection::Middle,
        ThrowDirection::LightDown,
        ThrowDirection::Down,
    ];
    for side in [PlayerSide::Left, PlayerSide::Right] {
        for (class, throw) in throws.iter().enumerate() {
            let mut court = Court::new();
            court.rules.state_of_game = StateOfGame::Playing;
            court.rules.frisbee.held_by_player = Some(side);
            assert_eq!(court.act(side, Intent::Throw(*throw)), ActionResult::Threw);
            assert_eq!(court.heading_class(), class as u32);
            let seen = court.sighting();
            assert_eq!(seen, Sighting { own_x: 0, own_y: 5, disc_x: 9, disc_y: 1, heading: class as u32 });
            let held: u64 = if side == PlayerSide::Left { 1 } else { 0 };
            assert_eq!(
                court.rules.hash(&seen),
                45 + 99 * 9 + 1881 + 20691 * held + 41382 * class as u64
            );
        }
    }
}

#[test]
fn a_match_from_serve_to_catch_to_throw() {
    let mut court = Court::new();
    assert_eq!(court.rules.state_of_game, StateOfGame::Start);
    assert_eq!((court.rules.players.0.score, court.rules.players.1.score), (0, 0));
    assert_eq!(court.pos, [V2::new(-9.0, 0.0), V2::new(9.0, 0.0)]);

    let receiver = serve(&mut court);
    assert_eq!(court.disc_speed, DISC_SPEED);
    let hands = court.pos[at(receiver)]
        .plus(V2::new(court.player(receiver).get_horizontal_aim_direction() as f64, 0.0));
    let to_hands = hands.minus(V2::new(0.0, -4.0)).normalized();
    assert_eq!(court.disc_dir, to_hands);
    assert!(court.disc_pos != V2::new(0.0, -4.0));

    let mut ticks = 0;
    while court.rules.frisbee.held_by_player.is_none() {
        court.step((Intent::Idle, Intent::Idle));
        ticks += 1;
        assert!(ticks < 200);
        assert_eq!(court.rules.state_of_game, StateOfGame::Playing);
    }
    assert_eq!(court.rules.frisbee.held_by_player, Some(receiver));
    assert_eq!(court.disc_pos, court.pos[at(receiver)]);

    court.rules.inputs = match receiver {
        PlayerSide::Left => (HumanIntent::from_bits(THROW | RIGHT), HumanIntent::idle()),
        PlayerSide::Right => (HumanIntent::idle(), HumanIntent::from_bits(THROW)),
    };
    let throw = HumanPlayerAgent {}.act(receiver, &court.rules);
    assert_eq!(throw, Intent::Throw(ThrowDirection::Middle));
    court.step(intents_for(receiver, throw));
    assert_eq!(court.rules.frisbee.held_by_player, None);
    assert_eq!(court.rules.frisbee.last_held, Some(receiver));
    assert_eq!(court.disc_speed, DISC_SPEED);
    assert_eq!(
        court.disc_dir,
        V2::new(court.player(receiver).get_horizontal_aim_direction() as f64, 0.0)
    );

    for _ in 0..3 {
        court.step((Intent::Idle, Intent::Idle));
        assert_eq!(court.rules.frisbee.held_by_player, None);
    }
}

#[test]
fn a_level_throw_through_the_middle_scores_five() {
    let mut court = Court::new();
    court.rules.state_of_game = StateOfGame::Playing;
    court.start_time = 2.0;
    court.pos[0] = V2::new(-5.0, 0.5);
    court.disc_pos = court.pos[0];
    court.rules.frisbee.held_by_player = Some(PlayerSide::Left);
    court.pos[1] = V2::new(5.0, 4.0);
    court.step((Intent::Throw(ThrowDirection::Middle), Intent::Idle));
    let mut ticks = 0;
    while court.rules.state_of_game == StateOfGame::Playing {
        court.step((Intent::Idle, Intent::Idle));
        ticks += 1;
        assert!(ticks < 200);
    }
    assert_eq!(court.rules.state_of_game, StateOfGame::Start);
    assert_eq!(court.rules.players.0.score, 5);
    assert_eq!(court.rules.players.1.score, 0);
    assert_eq!(court.disc_pos, V2::new(0.0, -4.0));
    assert_eq!(court.disc_speed, 0.0);
    assert_eq!(court.disc_dir, V2::new(0.0, 0.0));
    assert!(court.rules.players.0.sliding && court.rules.players.1.sliding);
}

#[test]
fn a_steep_throw_off_the_wall_scores_three() {
    let mut court = Court::new();
    court.rules.state_of_game = StateOfGame::Playing;
    court.start_time = 2.0;
    court.pos[1] = V2::new(3.0, -2.0);
    court.disc_pos = court.pos[1];
    court.rules.frisbee.held_by_player = Some(PlayerSide::Right);
    court.pos[0] = V2::new(-9.0, 4.0);
    court.step((Intent::Idle, Intent::Throw(ThrowDirection::Up)));
    let mut ticks = 0;
    while court.rules.state_of_game == StateOfGame::Playing {
        court.step((Intent::Idle, Intent::Idle));
        ticks += 1;
        assert!(ticks < 400);
    }
    assert_eq!(court.rules.players.1.score, 3);
    assert_eq!(court.rules.players.0.score, 0);
    assert_eq!(court.disc_pos, V2::new(0.0, -4.0));
}

#[test]
fn a_slide_ends_exactly_on_its_target() {
    let mut court = Court::new();
    court.rules.state_of_game = StateOfGame::Playing;
    court.rules.frisbee.last_held = Some(PlayerSide::Left);
    court.start_time = 2.0;
    court.pos[0] = V2::new(-6.0, 0.0);
    let target = V2::new(-6.0, 0.0).plus(V2::new(-1.0, 1.0).normalized().normalized().times(2.5));
    court.step((Intent::Dash(Direction { x: -1, y: 1 }), Intent::Idle));
    let mut ticks = 1;
    let mut last = sqr_dist(court.pos[0], V2::new(-6.0, 0.0));
    while court.rules.players.0.sliding {
        court.step((Intent::Move(Direction { x: 1, y: 0 }), Intent::Idle));
        let now = sqr_dist(court.pos[0], V2::new(-6.0, 0.0));
        assert!(now >= last);
        assert!(now <= sqr_dist(V2::new(-6.0, 0.0), target));
        last = now;
        ticks += 1;
        assert!(ticks < 20);
    }
    assert_eq!(ticks, 7);
    assert_eq!(court.pos[0], target);
    assert!(court.slide[0].is_none());
    court.step((Intent::Move(Direction { x: 1, y: 0 }), Intent::Idle));
    assert_eq!(court.pos[0], target.plus(V2::new(0.1, 0.0)));
}

#[test]
fn a_player_beyond_the_court_is_put_on_its_edge() {
    let mut court = Court::new();
    court.rules.state_of_game = StateOfGame::Playing;
    court.rules.frisbee.last_held = Some(PlayerSide::Left);
    court.start_time = 2.0;
    court.pos[0] = V2::new(-12.0, 7.0);
    court.rules.players.0.sliding = true;
    court.slide[0] = None;
    court.step((Intent::Idle, Intent::Idle));
    assert_eq!(court.pos[0], V2::new(-9.4, 4.4));
    assert!(!court.rules.players.0.sliding);
    court.step((Intent::Idle, Intent::Idle));
    assert_eq!(court.pos[0], V2::new(-9.4, 4.4));
    court.pos[0] = V2::new(2.0, 0.0);
    court.step((Intent::Idle, Intent::Idle));
    assert_eq!(court.pos[0], V2::new(-0.75, 0.0));
}

#[test]
fn a_roll_out_settles_on_a_try_or_on_nothing() {
    let mut court = Court::new();
    court.rules.state_of_game = StateOfGame::Playing;
    court.start_time = 2.0;
    court.pos[0] = V2::new(-2.0, 0.0);
    court.disc_pos = court.pos[0];
    court.rules.frisbee.held_by_player = Some(PlayerSide::Left);
    court.rules.frisbee.last_held = Some(PlayerSide::Right);
    court.pos[1] = V2::new(9.0, -4.0);
    let agent = RandomRolloutAgent { frames: 120, sim: 2 };
    let before = court.rules;
    let intent = roll_out(&court, PlayerSide::Left, &agent);
    assert!(matches!(intent, Intent::Throw(_) | Intent::Idle));
    assert_eq!(court.rules, before);
    assert_eq!(court.pos[0], V2::new(-2.0, 0.0));
}

#[test]
fn looking_ahead_leaves_the_match_alone_and_heads_for_the_disc() {
    let mut court = Court::new();
    serve(&mut court);
    let rules = court.rules;
    let pos = court.pos;
    let disc = court.disc_pos;
    for side in [PlayerSide::Left, PlayerSide::Right] {
        let before = court.distance(side);
        let intent = look_ahead(&court, side, 1);
        assert_eq!(court.rules, rules);
        assert_eq!(court.pos, pos);
        assert_eq!(court.disc_pos, disc);
        let mut world = court.fork();
        world.step(intents_for(side, intent));
        assert!(world.distance(side) < before);
    }
}

#[test]
fn looking_two_levels_ahead_visits_the_second_level() {
    let mut court = Court::new();
    serve(&mut court);
    let root = court.fork();
    let side = PlayerSide::Left;
    let mut search = Search::new(side, &root.rules, 2);
    let mut worlds = vec![root];
    let mut deepest = 0;
    while let Some(seed) = search.next() {
        let mut world = worlds[seed.from].fork();
        let before = world.distance(side);
        world.step(intents_for(side, seed.intent));
        let after = world.distance(side);
        search.record(&world.rules, approach(before, after));
        worlds.push(world);
        deepest = deepest.max(seed.cost);
        assert!(seed.cost < 2);
    }
    assert_eq!(deepest, 1);
    // 16 first tries; after each step 16 more tries of which the 8 steps
    // cost 1; after each dash the player slides and tries nothing
    assert_eq!(worlds.len(), 1 + 16 + 8 * 8);
    assert_eq!(search.nodes().len(), 1 + 16 + 16 + 8 * 8);
}
