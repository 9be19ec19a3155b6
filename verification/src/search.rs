//! The look-ahead agent: a tree of tried intents, scored by what each try
//! came to, and the choice among the best of them.
//!
//! The agent only keeps the books. Playing a tick ahead on a copy of the
//! court is the caller's work: the search hands out one try at a time,
//! the caller plays it and reports the engine it led to and whether the
//! player got closer to the disc.

use crate::agent::{AgentType, Intent};
use crate::direction::Direction;
use crate::frisbee::ThrowDirection;
use crate::game_engine::{GameEngine, StateOfGame};
use crate::player::PlayerSide;
use crate::random::random_range;
use vstd::prelude::*;

verus! {

/// The cost at which the search stops going deeper.
pub const SEARCH_COST_CAP: u32 = 10000;

/// How the distance between the player and the disc changed over a tick.
/// `Incomparable` is for distances that are no numbers.
#[derive(Clone, Copy, Debug, PartialEq, Eq, Structural)]
pub enum Approach {
    Closer,
    Farther,
    Level,
    Incomparable,
}

/// One entry of the search: the engine that a try led to, the first intent on
/// the way there, what the way cost and what it is worth.
#[derive(Clone, Copy, Debug, PartialEq, Eq)]
pub struct Node {
    pub engine: GameEngine,
    pub first_intent: Intent,
    pub cost: i64,
    pub score: i64,
}

/// One try that is still to be played: from the engine with the number
/// `from`, play `intent` for the searching side. `first_intent` is where the
/// way to this try began; `score` and `cost` are what the way is worth and
/// what it costs with this try included.
#[derive(Clone, Copy, Debug, PartialEq, Eq, Structural)]
pub struct Seed {
    pub from: usize,
    pub intent: Intent,
    pub first_intent: Intent,
    pub score: i64,
    pub cost: i64,
}

/// The eight headings of a step or a dash, in the order in which they are
/// tried.
pub open spec fn compass() -> Seq<Direction> {
    seq![
        Direction::at(0, 1),
        Direction::at(0, -1),
        Direction::at(-1, 0),
        Direction::at(1, 0),
        Direction::at(-1, -1),
        Direction::at(-1, 1),
        Direction::at(1, -1),
        Direction::at(1, 1),
    ]
}

/// The five throws, in the order in which they are tried.
pub open spec fn throws() -> Seq<ThrowDirection> {
    seq![
        ThrowDirection::Up,
        ThrowDirection::LightUp,
        ThrowDirection::Middle,
        ThrowDirection::LightDown,
        ThrowDirection::Down,
    ]
}

/// The intents worth trying for a side: the five throws if it holds the
/// disc; else, unless it is sliding, a step in each of the eight headings and
/// then a dash in each; for a sliding player nothing.
pub open spec fn options(engine: GameEngine, side: PlayerSide) -> Seq<Intent> {
    if engine.in_hands(side) {
        Seq::new(5, |i: int| Intent::Throw(throws()[i]))
    } else if !engine.player(side).sliding {
        Seq::new(
            16,
            |i: int|
                if i < 8 {
                    Intent::Move(compass()[i])
                } else {
                    Intent::Dash(compass()[i - 8])
                },
        )
    } else {
        Seq::empty()
    }
}

/// Lists the intents worth trying for a side.
pub fn candidate_intents(engine: &GameEngine, side: PlayerSide) -> (list: Vec<Intent>)
    ensures
        list@ == options(*engine, side),
{
    let mut list: Vec<Intent> = Vec::new();
    let sliding = match side {
        PlayerSide::Left => engine.players.0.sliding,
        PlayerSide::Right => engine.players.1.sliding,
    };
    if engine.frisbee.held_by_player == Some(side) {
        list.push(Intent::Throw(ThrowDirection::Up));
        list.push(Intent::Throw(ThrowDirection::LightUp));
        list.push(Intent::Throw(ThrowDirection::Middle));
        list.push(Intent::Throw(ThrowDirection::LightDown));
        list.push(Intent::Throw(ThrowDirection::Down));
    } else if !sliding {
        list.push(Intent::Move(Direction::new(0, 1)));
        list.push(Intent::Move(Direction::new(0, -1)));
        list.push(Intent::Move(Direction::new(-1, 0)));
        list.push(Intent::Move(Direction::new(1, 0)));
        list.push(Intent::Move(Direction::new(-1, -1)));
        list.push(Intent::Move(Direction::new(-1, 1)));
        list.push(Intent::Move(Direction::new(1, -1)));
        list.push(Intent::Move(Direction::new(1, 1)));

        list.push(Intent::Dash(Direction::new(0, 1)));
        list.push(Intent::Dash(Direction::new(0, -1)));
        list.push(Intent::Dash(Direction::new(-1, 0)));
        list.push(Intent::Dash(Direction::new(1, 0)));
        list.push(Intent::Dash(Direction::new(-1, -1)));
        list.push(Intent::Dash(Direction::new(-1, 1)));
        list.push(Intent::Dash(Direction::new(1, -1)));
        list.push(Intent::Dash(Direction::new(1, 1)));
    }
    assert(list@ =~= options(*engine, side));
    list
}

/// The two intents of a tick on which only `side` acts.
pub open spec fn solo(side: PlayerSide, intent: Intent) -> (Intent, Intent) {
    match side {
        PlayerSide::Left => (intent, Intent::Idle),
        PlayerSide::Right => (Intent::Idle, intent),
    }
}

pub fn intents_for(side: PlayerSide, intent: Intent) -> (pair: (Intent, Intent))
    ensures
        pair == solo(side, intent),
{
    match side {
        PlayerSide::Left => (intent, Intent::Idle),
        PlayerSide::Right => (Intent::Idle, intent),
    }
}

/// What a tick is worth in itself: a hundred thousand if the side holds the
/// disc after it; else a thousand for getting closer to the disc, minus a
/// hundred for falling back, minus fifty for keeping the distance.
pub open spec fn tick_score(after: GameEngine, side: PlayerSide, approach: Approach) -> int {
    if after.in_hands(side) {
        100000
    } else {
        match approach {
            Approach::Closer => 1000,
            Approach::Farther => -100,
            Approach::Level => -50,
            Approach::Incomparable => 0,
        }
    }
}

/// What a throw adds to the worth of the first try: the light throws come
/// first, the level throw last.
pub open spec fn first_throw_bonus(throw: ThrowDirection) -> int {
    match throw {
        ThrowDirection::Up => 30,
        ThrowDirection::LightUp => 40,
        ThrowDirection::Middle => 20,
        ThrowDirection::LightDown => 40,
        ThrowDirection::Down => 30,
    }
}

/// What an intent adds to the worth of a first try.
pub open spec fn first_bonus(intent: Intent) -> int {
    match intent {
        Intent::Throw(throw) => first_throw_bonus(throw),
        Intent::Move(_) => 1,
        Intent::Dash(_) => 1,
        Intent::Idle => 0,
    }
}

/// What an intent adds to the worth of a later try: a hundred times what a
/// throw adds to a first one, and one for a step or a dash.
pub open spec fn later_bonus(intent: Intent) -> int {
    match intent {
        Intent::Throw(throw) => 100 * first_throw_bonus(throw),
        Intent::Move(_) => 1,
        Intent::Dash(_) => 1,
        Intent::Idle => 0,
    }
}

/// What an intent costs: four for a dash, which takes long to play out, one
/// for anything else.
pub open spec fn intent_cost(intent: Intent) -> int {
    match intent {
        Intent::Dash(_) => 4,
        _ => 1,
    }
}

/// The books of a search, as values.
pub struct SearchView {
    /// The side that searches.
    pub side: PlayerSide,
    /// The cost at which no try is played any more.
    pub cap: int,
    /// The entries made so far, in the order in which they were made.
    pub nodes: Seq<Node>,
    /// The engines that tries start from, by number; number 0 is the engine
    /// the search began with.
    pub worlds: Seq<GameEngine>,
    /// The tries still to be looked at; the last one comes next.
    pub pending: Seq<Seed>,
    /// The try that was handed out and has not been reported on.
    pub awaited: Option<Seed>,
}

impl SearchView {
    /// The books at the beginning of a search from `engine`: one entry for
    /// the engine itself, at cost -1 and worth the side's score, and one try
    /// for each intent worth trying, at cost 0 and worth the score plus the
    /// intent's bonus.
    pub open spec fn begun(side: PlayerSide, engine: GameEngine, cap: int) -> SearchView {
        let score = engine.player(side).score as int;
        let first = options(engine, side);
        SearchView {
            side,
            cap,
            nodes: seq![
                Node { engine, first_intent: Intent::Idle, cost: -1i64, score: score as i64 },
            ],
            worlds: seq![engine],
            pending: Seq::new(
                first.len(),
                |i: int|
                    {
                        let intent = first[first.len() - 1 - i];
                        Seed {
                            from: 0,
                            intent,
                            first_intent: intent,
                            score: (score + first_bonus(intent)) as i64,
                            cost: 0,
                        }
                    },
            ),
            awaited: None,
        }
    }

    /// Whether a try is played at all: its cost is under the cap and the
    /// round it starts from is in play.
    pub open spec fn playable(self, seed: Seed) -> bool {
        seed.cost < self.cap && seed.from < self.worlds.len() && self.worlds[seed.from as int].state_of_game
            == StateOfGame::Playing
    }

    /// The books after the next try has been taken from the pile. A first
    /// try (one from engine 0) gets an entry of its own, at cost -1, whether
    /// it is played or not.
    pub open spec fn taken(self) -> SearchView
        recommends
            self.pending.len() > 0,
    {
        let seed = self.pending.last();
        SearchView {
            pending: self.pending.drop_last(),
            nodes: if seed.from == 0 && self.worlds.len() > 0 {
                self.nodes.push(
                    Node {
                        engine: self.worlds[0],
                        first_intent: seed.first_intent,
                        cost: -1i64,
                        score: seed.score,
                    },
                )
            } else {
                self.nodes
            },
            ..self
        }
    }

    /// The books after the search has looked for the next try to play, and
    /// that try. A try that was handed out and not reported on is handed out
    /// again. Tries that are not playable are taken from the pile and
    /// dropped. `None` means that the pile is empty: the search is over.
    pub open spec fn advanced(self) -> (SearchView, Option<Seed>)
        decreases self.pending.len(),
    {
        if self.awaited is Some {
            (self, self.awaited)
        } else if self.pending.len() == 0 {
            (self, None)
        } else {
            let seed = self.pending.last();
            let rest = self.taken();
            if rest.playable(seed) {
                (SearchView { awaited: Some(seed), ..rest }, Some(seed))
            } else {
                rest.advanced()
            }
        }
    }

    /// The tries that follow a try which led to `after` and is worth
    /// `score` at cost `cost`: one for each intent worth trying there, worth
    /// `score` plus the side's points plus the intent's bonus, and as much
    /// dearer as the intent costs. They start from the engine with the number
    /// `from`, and come in the order in which the pile gives them out last
    /// to first.
    pub open spec fn offspring(
        self,
        after: GameEngine,
        from: usize,
        first_intent: Intent,
        score: int,
        cost: int,
    ) -> Seq<Seed> {
        let next = options(after, self.side);
        Seq::new(
            next.len(),
            |i: int|
                {
                    let intent = next[next.len() - 1 - i];
                    Seed {
                        from,
                        intent,
                        first_intent,
                        score: (score + later_bonus(intent) + after.player(self.side).score) as i64,
                        cost: (cost + intent_cost(intent)) as i64,
                    }
                },
        )
    }

    /// The books after the caller has played the awaited try and reported
    /// the engine it led to and how the distance to the disc changed. The
    /// try gets its entry, worth what the way was worth plus what the tick is
    /// worth; the engine gets the next number; the tries that follow go on
    /// the pile. Without an awaited try the books stay as they are.
    pub open spec fn recorded(self, after: GameEngine, approach: Approach) -> SearchView {
        match self.awaited {
            None => self,
            Some(seed) => {
                let score = seed.score + tick_score(after, self.side, approach);
                SearchView {
                    nodes: self.nodes.push(
                        Node {
                            engine: after,
                            first_intent: seed.first_intent,
                            cost: seed.cost,
                            score: score as i64,
                        },
                    ),
                    worlds: self.worlds.push(after),
                    pending: self.pending + self.offspring(
                        after,
                        self.worlds.len() as usize,
                        seed.first_intent,
                        score,
                        seed.cost as int,
                    ),
                    awaited: None,
                    ..self
                }
            },
        }
    }
}

/// Whether a try is one that a search can hold: it starts from an engine that
/// the search has, its cost is that of a way of whole intents begun under the
/// cap, and its worth is within what so many levels can add up to, at no more
/// than two hundred thousand a level.
pub open spec fn seed_fits(seed: Seed, worlds: int) -> bool {
    &&& seed.from < worlds
    &&& 0 <= seed.cost <= u32::MAX + 3
    &&& -200000 * (seed.cost + 1) <= seed.score <= 200000 * (seed.cost + 1)
}

/// The books of one search.
pub struct Search {
    side: PlayerSide,
    cap: u32,
    nodes: Vec<Node>,
    worlds: Vec<GameEngine>,
    pending: Vec<Seed>,
    awaited: Option<Seed>,
}

impl View for Search {
    type V = SearchView;

    closed spec fn view(&self) -> SearchView {
        SearchView {
            side: self.side,
            cap: self.cap as int,
            nodes: self.nodes@,
            worlds: self.worlds@,
            pending: self.pending@,
            awaited: self.awaited,
        }
    }
}

impl Search {
    /// What holds of the books of every search: there is a first engine,
    /// every try on the pile or handed out fits, and the try handed out is
    /// playable.
    pub open spec fn wf(&self) -> bool {
        &&& self@.worlds.len() > 0
        &&& self@.cap <= u32::MAX
        &&& forall|i: int|
            0 <= i < self@.pending.len() ==> seed_fits(
                #[trigger] self@.pending[i],
                self@.worlds.len() as int,
            )
        &&& self@.awaited is Some ==> seed_fits(self@.awaited->0, self@.worlds.len() as int)
            && self@.playable(self@.awaited->0)
    }

    /// Begins a search for `side` from `engine`, which stops going deeper at
    /// the cost `cap`.
    pub fn new(side: PlayerSide, engine: &GameEngine, cap: u32) -> (search: Search)
        ensures
            search.wf(),
            search@ == SearchView::begun(side, *engine, cap as int),
    {
        let score: i64 = match side {
            PlayerSide::Left => engine.players.0.score as i64,
            PlayerSide::Right => engine.players.1.score as i64,
        };
        let mut nodes: Vec<Node> = Vec::new();
        nodes.push(Node { engine: *engine, first_intent: Intent::Idle, cost: -1, score });
        let mut worlds: Vec<GameEngine> = Vec::new();
        worlds.push(*engine);
        let first = candidate_intents(engine, side);
        let mut pending: Vec<Seed> = Vec::new();
        let mut left: usize = first.len();
        while left > 0
            invariant
                left <= first.len(),
                first@ == options(*engine, side),
                score == engine.player(side).score,
                pending@.len() == first.len() - left,
                forall|i: int|
                    0 <= i < pending@.len() ==> #[trigger] pending@[i] == (Seed {
                        from: 0,
                        intent: first@[first.len() - 1 - i],
                        first_intent: first@[first.len() - 1 - i],
                        score: (score + first_bonus(first@[first.len() - 1 - i])) as i64,
                        cost: 0,
                    }),
            decreases left,
        {
            left = left - 1;
            let intent = first[left];
            let bonus = first_bonus_of(&intent);
            pending.push(Seed { from: 0, intent, first_intent: intent, score: score + bonus, cost: 0 });
        }
        let search = Search { side, cap, nodes, worlds, pending, awaited: None };
        proof {
            let begun = SearchView::begun(side, *engine, cap as int);
            assert(search@.pending =~= begun.pending);
            assert(search@.nodes =~= begun.nodes);
            assert(search@.worlds =~= begun.worlds);
        }
        search
    }

    /// The entries made so far.
    pub fn nodes(&self) -> (nodes: &Vec<Node>)
        ensures
            nodes@ == self@.nodes,
    {
        &self.nodes
    }

    /// The side that searches.
    pub fn side(&self) -> (side: PlayerSide)
        ensures
            side == self@.side,
    {
        self.side
    }

    /// The engine with a given number, if the search has one.
    pub fn world(&self, number: usize) -> (engine: Option<GameEngine>)
        ensures
            engine == (if number < self@.worlds.len() {
                Some(self@.worlds[number as int])
            } else {
                None
            }),
    {
        if number < self.worlds.len() {
            Some(self.worlds[number])
        } else {
            None
        }
    }

    /// Looks for the next try to play. The caller plays a tick from the
    /// engine with the number `from`, with `intent` for the searching side
    /// and nothing for the other, and reports with `record`. `None` says
    /// that the search is over.
    pub fn next(&mut self) -> (seed: Option<Seed>)
        requires
            old(self).wf(),
        ensures
            final(self).wf(),
            (final(self)@, seed) == old(self)@.advanced(),
            seed is Some ==> final(self)@.playable(seed->0),
    {
        if self.awaited.is_some() {
            return self.awaited;
        }
        while self.pending.len() > 0
            invariant
                self.wf(),
                self@.awaited is None,
                self@.advanced() == old(self)@.advanced(),
            decreases self.pending.len(),
        {
            let ghost before = self@;
            let seed = self.pending.pop().unwrap();
            assert(self.pending@ =~= before.pending.drop_last());
            assert(seed == before.pending.last());
            assert(seed_fits(seed, self@.worlds.len() as int));
            if seed.from == 0 {
                let engine = self.worlds[0];
                self.nodes.push(
                    Node { engine, first_intent: seed.first_intent, cost: -1, score: seed.score },
                );
            }
            assert(self@ == before.taken());
            let playable = seed.cost < self.cap as i64 && self.worlds[seed.from].state_of_game
                == StateOfGame::Playing;
            if playable {
                self.awaited = Some(seed);
                return Some(seed);
            }
        }
        None
    }
}

impl Search {
    /// Takes the caller's report on the try that `next` handed out: the
    /// engine that the tick led to, and how the distance between the
    /// searching player and the disc changed over the tick. Without a try
    /// handed out the report is ignored.
    pub fn record(&mut self, after: &GameEngine, approach: Approach)
        requires
            old(self).wf(),
        ensures
            final(self).wf(),
            final(self)@ == old(self)@.recorded(*after, approach),
    {
        let seed = match self.awaited {
            Some(seed) => seed,
            None => {
                return ;
            },
        };
        let ghost before = self@;
        let gain: i64 = if after.frisbee.held_by_player == Some(self.side) {
            100000
        } else {
            match approach {
                Approach::Closer => 1000,
                Approach::Farther => -100,
                Approach::Level => -50,
                Approach::Incomparable => 0,
            }
        };
        assert(seed_fits(seed, before.worlds.len() as int));
        let score: i64 = seed.score + gain;
        let points: i64 = match self.side {
            PlayerSide::Left => after.players.0.score as i64,
            PlayerSide::Right => after.players.1.score as i64,
        };
        let from: usize = self.worlds.len();
        self.nodes.push(
            Node { engine: *after, first_intent: seed.first_intent, cost: seed.cost, score },
        );
        self.worlds.push(*after);
        self.awaited = None;
        let next = candidate_intents(after, self.side);
        let ghost kids = before.offspring(
            *after,
            from,
            seed.first_intent,
            score as int,
            seed.cost as int,
        );
        let n: usize = next.len();
        let mut done: usize = 0;
        while done < n
            invariant
                done <= n,
                n == next.len(),
                next@ == options(*after, before.side),
                kids == before.offspring(
                    *after,
                    from,
                    seed.first_intent,
                    score as int,
                    seed.cost as int,
                ),
                kids.len() == n,
                points == after.player(before.side).score,
                from == before.worlds.len(),
                0 <= seed.cost < before.cap <= u32::MAX,
                -200000 * (seed.cost + 1) - 100000 <= score <= 200000 * (seed.cost
                    + 1) + 100000,
                self@ == (SearchView {
                    nodes: before.nodes.push(
                        Node {
                            engine: *after,
                            first_intent: seed.first_intent,
                            cost: seed.cost,
                            score,
                        },
                    ),
                    worlds: before.worlds.push(*after),
                    pending: before.pending + kids.take(done as int),
                    awaited: None,
                    ..before
                }),
                forall|i: int|
                    0 <= i < self@.pending.len() ==> seed_fits(
                        #[trigger] self@.pending[i],
                        self@.worlds.len() as int,
                    ),
            decreases n - done,
        {
            let intent = next[n - 1 - done];
            let bonus = later_bonus_of(&intent);
            let price = intent_cost_of(&intent);
            let kid = Seed {
                from,
                intent,
                first_intent: seed.first_intent,
                score: score + bonus + points,
                cost: seed.cost + price,
            };
            assert(kid == kids[done as int]);
            assert(seed_fits(kid, self@.worlds.len() as int));
            let ghost pile = self@.pending;
            let ghost worlds = self@.worlds.len() as int;
            assert forall|i: int| 0 <= i < pile.len() implies seed_fits(#[trigger] pile[i], worlds) by {
                assert(seed_fits(self@.pending[i], worlds));
            }
            self.pending.push(kid);
            assert(kids.take(done + 1) =~= kids.take(done as int).push(kid));
            assert(self.pending@ =~= before.pending + kids.take(done + 1));
            assert forall|i: int| 0 <= i < self@.pending.len() implies seed_fits(
                #[trigger] self@.pending[i],
                self@.worlds.len() as int,
            ) by {
                if i < pile.len() {
                    assert(self@.pending[i] == pile[i]);
                    assert(seed_fits(pile[i], worlds));
                } else {
                    assert(self@.pending[i] == kid);
                }
            }
            done = done + 1;
        }
        assert(kids.take(n as int) =~= kids);
    }
}

/// The highest score among the entries, and 0 where there is none.
pub open spec fn top_score(nodes: Seq<Node>) -> int
    decreases nodes.len(),
{
    if nodes.len() == 0 {
        0
    } else if nodes.len() == 1 {
        nodes[0].score as int
    } else if top_score(nodes.drop_last()) >= nodes.last().score {
        top_score(nodes.drop_last())
    } else {
        nodes.last().score as int
    }
}

/// No entry scores higher than the top score, and some entry scores it.
pub proof fn lemma_top_score(nodes: Seq<Node>)
    ensures
        forall|i: int| 0 <= i < nodes.len() ==> (#[trigger] nodes[i]).score <= top_score(nodes),
        nodes.len() > 0 ==> exists|i: int|
            0 <= i < nodes.len() && (#[trigger] nodes[i]).score == top_score(nodes),
    decreases nodes.len(),
{
    if nodes.len() == 1 {
        assert(nodes[0].score == top_score(nodes));
    } else if nodes.len() > 1 {
        let front = nodes.drop_last();
        lemma_top_score(front);
        assert forall|i: int| 0 <= i < nodes.len() implies (#[trigger] nodes[i]).score
            <= top_score(nodes) by {
            if i < front.len() {
                assert(nodes[i] == front[i]);
            }
        }
        if top_score(front) >= nodes.last().score {
            let i = choose|i: int| 0 <= i < front.len() && (#[trigger] front[i]).score == top_score(front);
            assert(nodes[i] == front[i]);
        } else {
            assert(nodes[nodes.len() - 1].score == top_score(nodes));
        }
    }
}

/// The entries that score highest, in the order in which they were made.
pub open spec fn best_of(nodes: Seq<Node>) -> Seq<Node> {
    nodes.filter(|node: Node| node.score == top_score(nodes))
}

/// Picks out the entries that share the highest score, in their order.
pub fn get_best(nodes: &Vec<Node>) -> (best: Vec<Node>)
    ensures
        best@ == best_of(nodes@),
{
    let mut max_score: i64 = 0;
    let mut i: usize = 0;
    while i < nodes.len()
        invariant
            i <= nodes.len(),
            max_score == top_score(nodes@.take(i as int)),
        decreases nodes.len() - i,
    {
        proof {
            let front = nodes@.take(i + 1);
            assert(front.drop_last() =~= nodes@.take(i as int));
            assert(front.last() == nodes@[i as int]);
        }
        if i == 0 || nodes[i].score > max_score {
            max_score = nodes[i].score;
        }
        i = i + 1;
    }
    assert(nodes@.take(nodes.len() as int) =~= nodes@);

    let ghost pred = |node: Node| node.score == top_score(nodes@);
    let mut best: Vec<Node> = Vec::new();
    let mut k: usize = 0;
    assert(nodes@.take(0).filter(pred) =~= Seq::<Node>::empty()) by {
        reveal(Seq::filter);
    }
    while k < nodes.len()
        invariant
            k <= nodes.len(),
            max_score == top_score(nodes@),
            pred == (|node: Node| node.score == top_score(nodes@)),
            best@ == nodes@.take(k as int).filter(pred),
        decreases nodes.len() - k,
    {
        proof {
            let front = nodes@.take(k + 1);
            assert(front.drop_last() =~= nodes@.take(k as int));
            assert(front.last() == nodes@[k as int]);
            reveal(Seq::filter);
        }
        if nodes[k].score == max_score {
            best.push(nodes[k]);
        }
        k = k + 1;
    }
    assert(nodes@.take(nodes.len() as int) =~= nodes@);
    best
}

/// The choice after the first `seen` of the best entries have been looked
/// at: the cost and the first intent of the entry held so far. The first
/// entry is held to begin with. An entry that is cheaper than the one held
/// takes its place; one that costs the same takes its place if its coin
/// shows heads. A coin that was never tossed counts as tails.
pub open spec fn held_after(best: Seq<Node>, flips: Seq<bool>, seen: nat) -> (int, Intent)
    recommends
        best.len() > 0,
        seen <= best.len(),
    decreases seen,
{
    if seen == 0 {
        (best[0].cost as int, best[0].first_intent)
    } else {
        let held = held_after(best, flips, (seen - 1) as nat);
        let node = best[seen - 1];
        let heads = seen - 1 < flips.len() && flips[seen - 1];
        if node.cost < held.0 || (node.cost == held.0 && heads) {
            (node.cost as int, node.first_intent)
        } else {
            held
        }
    }
}

/// The intent chosen among the best entries with the given coins, one for
/// each entry; no intent where there is no entry.
pub open spec fn chosen(best: Seq<Node>, flips: Seq<bool>) -> Intent {
    if best.len() == 0 {
        Intent::Idle
    } else {
        held_after(best, flips, best.len()).1
    }
}

/// The entry held is one of those looked at, or the first; none of those
/// looked at is cheaper.
pub proof fn lemma_held_is_cheapest(best: Seq<Node>, flips: Seq<bool>, seen: nat)
    requires
        best.len() > 0,
        seen <= best.len(),
    ensures
        exists|k: int|
            0 <= k < best.len() && (k == 0 || k < seen) && (#[trigger] best[k]).cost == held_after(
                best,
                flips,
                seen,
            ).0 && best[k].first_intent == held_after(best, flips, seen).1,
        forall|j: int| 0 <= j < seen ==> held_after(best, flips, seen).0 <= (#[trigger] best[j]).cost,
    decreases seen,
{
    if seen == 0 {
        assert(best[0].cost == held_after(best, flips, seen).0);
    } else {
        let before = (seen - 1) as nat;
        lemma_held_is_cheapest(best, flips, before);
        let held = held_after(best, flips, before);
        let node = best[seen - 1];
        let heads = seen - 1 < flips.len() && flips[seen - 1];
        if node.cost < held.0 || (node.cost == held.0 && heads) {
            assert(best[seen - 1].cost == held_after(best, flips, seen).0);
        } else {
            let k = choose|k: int|
                0 <= k < best.len() && (k == 0 || k < before) && (#[trigger] best[k]).cost
                    == held.0 && best[k].first_intent == held.1;
            assert(best[k].cost == held_after(best, flips, seen).0);
        }
    }
}

/// The chosen intent is the first intent of a best entry that no best entry
/// undercuts.
pub proof fn lemma_choice_is_cheapest(best: Seq<Node>, flips: Seq<bool>)
    requires
        best.len() > 0,
    ensures
        exists|k: int|
            0 <= k < best.len() && (#[trigger] best[k]).first_intent == chosen(best, flips)
                && forall|j: int| 0 <= j < best.len() ==> best[k].cost <= (#[trigger] best[j]).cost,
{
    lemma_held_is_cheapest(best, flips, best.len());
    let held = held_after(best, flips, best.len());
    let k = choose|k: int|
        0 <= k < best.len() && (k == 0 || k < best.len()) && (#[trigger] best[k]).cost == held.0
            && best[k].first_intent == held.1;
    assert(best[k].first_intent == chosen(best, flips));
}

/// Every try that follows a try costs more than it, by one or by four, and
/// leads back to the same first intent.
pub proof fn lemma_offspring_cost_more(
    view: SearchView,
    after: GameEngine,
    from: usize,
    first_intent: Intent,
    score: int,
    cost: int,
    i: int,
)
    requires
        0 <= cost <= u32::MAX,
        0 <= i < view.offspring(after, from, first_intent, score, cost).len(),
    ensures
        ({
            let kid = view.offspring(after, from, first_intent, score, cost)[i];
            &&& kid.cost == cost + 1 || kid.cost == cost + 4
            &&& kid.first_intent == first_intent
            &&& kid.from == from
        }),
{
}

/// The most tries that can follow from one try with `room` left between its
/// cost and the cap, the try itself included: each try is followed by at most
/// sixteen, each of them with less room.
pub open spec fn tries_within(room: int) -> nat
    decreases room,
{
    if room <= 0 {
        1
    } else {
        1 + 16 * tries_within(room - 1)
    }
}

/// The most tries that can still come from the tries of a pile.
pub open spec fn pile_work(pile: Seq<Seed>, cap: int) -> nat
    decreases pile.len(),
{
    if pile.len() == 0 {
        0
    } else {
        pile_work(pile.drop_last(), cap) + tries_within(cap - pile.last().cost)
    }
}

impl SearchView {
    /// The most tries that the search can still hand out.
    pub open spec fn work(self) -> nat {
        pile_work(self.pending, self.cap) + match self.awaited {
            Some(seed) => tries_within(self.cap - seed.cost),
            None => 0,
        }
    }
}

/// With less room there are no more tries.
pub proof fn lemma_tries_grow_with_room(less: int, more: int)
    requires
        less <= more,
    ensures
        tries_within(less) <= tries_within(more),
    decreases more,
{
    if more > 0 {
        if less <= 0 {
            lemma_tries_grow_with_room(less, more - 1);
        } else {
            lemma_tries_grow_with_room(less - 1, more - 1);
        }
    }
}

/// The work of two piles put together is the sum of their work.
pub proof fn lemma_pile_work_adds(front: Seq<Seed>, back: Seq<Seed>, cap: int)
    ensures
        pile_work(front + back, cap) == pile_work(front, cap) + pile_work(back, cap),
    decreases back.len(),
{
    if back.len() == 0 {
        assert(front + back =~= front);
    } else {
        assert((front + back).drop_last() =~= front + back.drop_last());
        assert((front + back).last() == back.last());
        lemma_pile_work_adds(front, back.drop_last(), cap);
    }
}

/// A pile of tries that each have no more than `room` left holds no more
/// work than as many times the tries within that room.
pub proof fn lemma_pile_work_bound(pile: Seq<Seed>, cap: int, room: int)
    requires
        forall|i: int| 0 <= i < pile.len() ==> cap - (#[trigger] pile[i]).cost <= room,
    ensures
        pile_work(pile, cap) <= pile.len() * tries_within(room),
    decreases pile.len(),
{
    if pile.len() > 0 {
        let front = pile.drop_last();
        assert forall|i: int| 0 <= i < front.len() implies cap - (#[trigger] front[i]).cost
            <= room by {
            assert(front[i] == pile[i]);
        }
        lemma_pile_work_bound(front, cap, room);
        assert(cap - pile[pile.len() - 1].cost <= room);
        lemma_tries_grow_with_room(cap - pile.last().cost, room);
        let each = tries_within(room) as int;
        let n = pile.len() as int;
        assert((n - 1) * each + each == n * each) by (nonlinear_arith);
    }
}

/// Looking for the next try never adds work.
pub proof fn lemma_advancing_adds_no_work(view: SearchView)
    ensures
        view.advanced().0.work() <= view.work(),
        view.advanced().0.cap == view.cap,
    decreases view.pending.len(),
{
    if view.awaited is None && view.pending.len() > 0 {
        let seed = view.pending.last();
        let rest = view.taken();
        if !rest.playable(seed) {
            lemma_advancing_adds_no_work(rest);
        }
    }
}

/// Every report takes work away: a search in which each try handed out is
/// reported on comes to its end, after no more tries than `work` counts at
/// its beginning.
pub proof fn lemma_reports_take_work_away(view: SearchView, after: GameEngine, approach: Approach)
    requires
        view.awaited is Some,
        0 <= view.awaited->0.cost < view.cap <= u32::MAX,
    ensures
        view.recorded(after, approach).work() < view.work(),
{
    let seed = view.awaited->0;
    let score = seed.score + tick_score(after, view.side, approach);
    let kids = view.offspring(
        after,
        view.worlds.len() as usize,
        seed.first_intent,
        score,
        seed.cost as int,
    );
    let room = view.cap - seed.cost - 1;
    assert forall|i: int| 0 <= i < kids.len() implies view.cap - (#[trigger] kids[i]).cost
        <= room by {
        lemma_offspring_cost_more(
            view,
            after,
            view.worlds.len() as usize,
            seed.first_intent,
            score,
            seed.cost as int,
            i,
        );
    }
    lemma_pile_work_bound(kids, view.cap, room);
    lemma_pile_work_adds(view.pending, kids, view.cap);
    let each = tries_within(room) as int;
    let n = kids.len() as int;
    assert(n <= 16);
    assert(n * each <= 16 * each) by (nonlinear_arith)
        requires
            n <= 16,
            0 <= each,
    ;
    assert(tries_within(view.cap - seed.cost) == 1 + 16 * tries_within(room));
}

/// A search is repeatable. From the same books the same try is handed out;
/// the same report leads to the same books; the same entries and the same
/// coins lead to the same choice.
pub proof fn lemma_search_is_repeatable(
    one: SearchView,
    other: SearchView,
    after: GameEngine,
    approach: Approach,
    flips: Seq<bool>,
)
    requires
        one == other,
    ensures
        one.advanced() == other.advanced(),
        one.recorded(after, approach) == other.recorded(after, approach),
        chosen(best_of(one.nodes), flips) == chosen(best_of(other.nodes), flips),
{
}

/// The agent that looks ahead.
#[derive(Clone, Copy, Debug)]
pub struct DijkstraAgent {}

impl DijkstraAgent {
    pub fn get_type(&self) -> (agent: AgentType)
        ensures
            agent == AgentType::Dijkstra,
    {
        AgentType::Dijkstra
    }

    /// Begins the search for this tick's intent, with the usual cap.
    pub fn begin(&self, side: PlayerSide, engine: &GameEngine) -> (search: Search)
        ensures
            search.wf(),
            search@ == SearchView::begun(side, *engine, SEARCH_COST_CAP as int),
    {
        Search::new(side, engine, SEARCH_COST_CAP)
    }

    /// Chooses among the entries of a finished search, with coins that the
    /// caller tossed: `flips[k]` belongs to the k-th of the best entries.
    pub fn pick_with(&self, nodes: &Vec<Node>, flips: &Vec<bool>) -> (intent: Intent)
        ensures
            intent == chosen(best_of(nodes@), flips@),
    {
        let best = get_best(nodes);
        if best.len() == 0 {
            return Intent::Idle;
        }
        let mut cost = best[0].cost;
        let mut intent = best[0].first_intent;
        let mut k: usize = 0;
        while k < best.len()
            invariant
                k <= best.len(),
                best.len() > 0,
                (cost as int, intent) == held_after(best@, flips@, k as nat),
            decreases best.len() - k,
        {
            let heads = k < flips.len() && flips[k];
            if best[k].cost < cost || (best[k].cost == cost && heads) {
                cost = best[k].cost;
                intent = best[k].first_intent;
            }
            k = k + 1;
        }
        intent
    }

    /// Chooses among the entries of a finished search, tossing a coin where
    /// two of the best cost the same. A toss is a draw from 1 to 99 that
    /// shows heads above 50. Whatever the coins show, the choice is the one
    /// that `chosen` makes with them.
    pub fn pick(&self, nodes: &Vec<Node>) -> (intent: Intent)
        ensures
            exists|flips: Seq<bool>| intent == #[trigger] chosen(best_of(nodes@), flips),
    {
        let best = get_best(nodes);
        if best.len() == 0 {
            assert(Intent::Idle == chosen(best_of(nodes@), Seq::<bool>::empty()));
            return Intent::Idle;
        }
        let mut cost = best[0].cost;
        let mut intent = best[0].first_intent;
        let ghost mut flips: Seq<bool> = Seq::empty();
        let mut k: usize = 0;
        while k < best.len()
            invariant
                k <= best.len(),
                best.len() > 0,
                flips.len() == k,
                (cost as int, intent) == held_after(best@, flips, k as nat),
            decreases best.len() - k,
        {
            let ghost before = flips;
            let mut heads = false;
            if best[k].cost <= cost {
                let drawn: i32 = random_range(1, 100);
                heads = drawn > 50;
            }
            proof {
                flips = before.push(heads);
                lemma_held_ignores_later(best@, before, flips, k as nat);
            }
            if best[k].cost < cost || (best[k].cost == cost && heads) {
                cost = best[k].cost;
                intent = best[k].first_intent;
            }
            k = k + 1;
        }
        assert(intent == chosen(best_of(nodes@), flips));
        intent
    }
}

/// The choice after `seen` entries depends on the first `seen` coins only.
pub proof fn lemma_held_ignores_later(best: Seq<Node>, one: Seq<bool>, other: Seq<bool>, seen: nat)
    requires
        one.len() >= seen,
        other.len() >= seen,
        forall|i: int| 0 <= i < seen ==> one[i] == other[i],
    ensures
        held_after(best, one, seen) == held_after(best, other, seen),
    decreases seen,
{
    if seen > 0 {
        lemma_held_ignores_later(best, one, other, (seen - 1) as nat);
    }
}

/// Computes what an intent adds to the worth of a first try.
fn first_bonus_of(intent: &Intent) -> (bonus: i64)
    ensures
        bonus == first_bonus(*intent),
{
    match intent {
        Intent::Throw(ThrowDirection::Up) => 30,
        Intent::Throw(ThrowDirection::LightUp) => 40,
        Intent::Throw(ThrowDirection::Middle) => 20,
        Intent::Throw(ThrowDirection::LightDown) => 40,
        Intent::Throw(ThrowDirection::Down) => 30,
        Intent::Move(_) => 1,
        Intent::Dash(_) => 1,
        Intent::Idle => 0,
    }
}

/// Computes what an intent adds to the worth of a later try.
fn later_bonus_of(intent: &Intent) -> (bonus: i64)
    ensures
        bonus == later_bonus(*intent),
{
    match intent {
        Intent::Throw(ThrowDirection::Up) => 3000,
        Intent::Throw(ThrowDirection::LightUp) => 4000,
        Intent::Throw(ThrowDirection::Middle) => 2000,
        Intent::Throw(ThrowDirection::LightDown) => 4000,
        Intent::Throw(ThrowDirection::Down) => 3000,
        Intent::Move(_) => 1,
        Intent::Dash(_) => 1,
        Intent::Idle => 0,
    }
}

/// Computes what an intent costs.
fn intent_cost_of(intent: &Intent) -> (cost: i64)
    ensures
        cost == intent_cost(*intent),
{
    match intent {
        Intent::Dash(_) => 4,
        _ => 1,
    }
}

} // verus!
